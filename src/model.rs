//! The lobby as mathematics: rooms, sessions, the invariant they keep, and what
//! each event does to them.

use crate::json::{envelope_text, json_text};
use crate::messages::{Action, CloseCode, Delivery, ModeView, SenderView};
use vstd::prelude::*;

verus! {

/// One room: the vehicle's id, the connection id of the vehicle, and all members.
pub struct RoomView {
    pub id: Seq<char>,
    pub admin: Seq<char>,
    pub members: Seq<Seq<char>>,
}

/// The lobby: registered sessions, the open rooms, and the presence counter.
pub struct LobbyView {
    pub sessions: Seq<Seq<char>>,
    pub rooms: Seq<RoomView>,
    pub count: nat,
}

/// `s` without any occurrence of `x`, the rest in order.
pub open spec fn without(s: Seq<Seq<char>>, x: Seq<char>) -> Seq<Seq<char>>
    decreases s.len(),
{
    if s.len() == 0 {
        s
    } else if s.last() == x {
        without(s.drop_last(), x)
    } else {
        without(s.drop_last(), x).push(s.last())
    }
}

/// The position of the room with id `id`, if one is open.
pub open spec fn room_pos(rooms: Seq<RoomView>, id: Seq<char>) -> Option<int> {
    if exists|i: int| 0 <= i < rooms.len() && rooms[i].id == id {
        Some(choose|i: int| 0 <= i < rooms.len() && rooms[i].id == id)
    } else {
        None
    }
}

/// How many members all rooms hold together.
pub open spec fn total_members(rooms: Seq<RoomView>) -> nat
    decreases rooms.len(),
{
    if rooms.len() == 0 {
        0
    } else {
        total_members(rooms.drop_last()) + rooms.last().members.len()
    }
}

/// How many of the deliveries `ds` go to connection `who`.
pub open spec fn times_sent(ds: Seq<Delivery>, who: Seq<char>) -> nat
    decreases ds.len(),
{
    if ds.len() == 0 {
        0
    } else {
        times_sent(ds.drop_last(), who) + if ds.last().id == who {
            1nat
        } else {
            0nat
        }
    }
}

impl LobbyView {
    /// A connection is in at most one room, each room holds its vehicle, room ids
    /// are unique, every member is a registered session, and the counter equals the
    /// number of members of all rooms.
    pub open spec fn wf(self) -> bool {
        &&& self.sessions.no_duplicates()
        &&& forall|i: int|
            0 <= i < self.rooms.len() ==> {
                &&& (#[trigger] self.rooms[i]).members.no_duplicates()
                &&& self.rooms[i].members.contains(self.rooms[i].admin)
            }
        &&& forall|i: int, j: int|
            0 <= i < self.rooms.len() && 0 <= j < self.rooms.len() && i != j ==> (
            #[trigger] self.rooms[i]).id != (#[trigger] self.rooms[j]).id
        &&& forall|i: int, j: int, c: Seq<char>|
            #![trigger self.rooms[i].members.contains(c), self.rooms[j].members.contains(c)]
            0 <= i < self.rooms.len() && 0 <= j < self.rooms.len() && i != j
                && self.rooms[i].members.contains(c) ==> !self.rooms[j].members.contains(c)
        &&& forall|i: int, c: Seq<char>|
            0 <= i < self.rooms.len() && #[trigger] self.rooms[i].members.contains(c)
                ==> self.sessions.contains(c)
        &&& self.count == total_members(self.rooms)
    }

    /// Connection `id` sits in no room but, perhaps, the one with id `room_id`: a
    /// Disconnect of `id` from `room_id` then leaves no member without a session.
    pub open spec fn leaves_cleanly(self, id: Seq<char>, room_id: Seq<char>) -> bool {
        forall|i: int|
            0 <= i < self.rooms.len() && (#[trigger] self.rooms[i]).members.contains(id)
                ==> self.rooms[i].id == room_id
    }

    /// Connection `c` is registered or sits in some room.
    pub open spec fn knows(self, c: Seq<char>) -> bool {
        self.sessions.contains(c) || exists|i: int|
            0 <= i < self.rooms.len() && (#[trigger] self.rooms[i]).members.contains(c)
    }
}

/// The empty lobby.
pub open spec fn empty_lobby() -> LobbyView {
    LobbyView { sessions: Seq::empty(), rooms: Seq::empty(), count: 0 }
}

/// Sent to a client that has joined.
pub open spec fn connect_envelope(uid: Seq<char>, conn_id: Seq<char>) -> Seq<char> {
    envelope_text("connect"@, "Connection successful"@, ""@, conn_id, uid)
}

/// Sent to the vehicle when a user joins its room.
pub open spec fn connected_envelope(uid: Seq<char>, conn_id: Seq<char>) -> Seq<char> {
    "{\"event\":"@ + json_text("connected"@) + ",\"client\":{\"uid\":"@ + json_text(uid)
        + ",\"conn_id\":"@ + json_text(conn_id) + "}}"@
}

/// Sent to each member of a room whose vehicle has left.
pub open spec fn room_closing_envelope(conn_id: Seq<char>) -> Seq<char> {
    envelope_text(
        "disconnect"@,
        "Vehicle left and the room is being closed"@,
        ""@,
        conn_id,
        ""@,
    )
}

/// Sent to the vehicle when a user leaves its room.
pub open spec fn client_left_envelope(conn_id: Seq<char>) -> Seq<char> {
    envelope_text("disconnect"@, "A client has disconnected"@, ""@, conn_id, ""@)
}

pub open spec fn already_connected_reason() -> Seq<char> {
    "Vehicle with the specified ID has already connected."@
}

pub open spec fn id_in_use_reason() -> Seq<char> {
    "Connection id already in use."@
}

pub open spec fn inactive_reason() -> Seq<char> {
    "Vehicle isn't active at the moment. Try again later."@
}

pub open spec fn send(message: Seq<char>, to: Seq<char>) -> Delivery {
    Delivery { message, id: to, action: Action::Send }
}

pub open spec fn close(reason: Seq<char>, to: Seq<char>, code: CloseCode) -> Delivery {
    Delivery { message: reason, id: to, action: Action::Disconnect(code) }
}

/// The room-closing notice for each of `members`.
pub open spec fn closing_notices(members: Seq<Seq<char>>) -> Seq<Delivery> {
    members.map_values(|m: Seq<char>| close(room_closing_envelope(m), m, CloseCode::Normal))
}

/// `text` for each of `members`.
pub open spec fn copies(text: Seq<char>, members: Seq<Seq<char>>) -> Seq<Delivery> {
    members.map_values(|m: Seq<char>| send(text, m))
}

/// What a Connect from `self_id` for room `room_id` does: the next lobby and the deliveries.
pub open spec fn connect_step(
    l: LobbyView,
    room_id: Seq<char>,
    self_id: Seq<char>,
    sender: SenderView,
) -> (LobbyView, Seq<Delivery>) {
    match room_pos(l.rooms, room_id) {
        Some(i) => {
            let room = l.rooms[i];
            match sender {
                SenderView::Admin => (
                    l,
                    seq![close(already_connected_reason(), self_id, CloseCode::Policy)],
                ),
                SenderView::Client(uid) => (
                    LobbyView {
                        sessions: l.sessions.push(self_id),
                        rooms: l.rooms.update(
                            i,
                            RoomView { members: room.members.push(self_id), ..room },
                        ),
                        count: l.count + 1,
                    },
                    seq![
                        send(connect_envelope(uid, self_id), self_id),
                        send(connected_envelope(uid, self_id), room.admin),
                    ],
                ),
                SenderView::Pair(payload) => (
                    l,
                    seq![send(payload, room.admin), close(payload, self_id, CloseCode::Normal)],
                ),
            }
        },
        None => match sender {
            SenderView::Admin => (
                LobbyView {
                    sessions: l.sessions.push(self_id),
                    rooms: l.rooms.push(
                        RoomView { id: room_id, admin: self_id, members: seq![self_id] },
                    ),
                    count: l.count + 1,
                },
                seq![send(connect_envelope(""@, self_id), self_id)],
            ),
            _ => (l, seq![close(inactive_reason(), self_id, CloseCode::Protocol)]),
        },
    }
}

/// What a Disconnect of connection `id` from room `room_id` does.
pub open spec fn disconnect_step(l: LobbyView, id: Seq<char>, room_id: Seq<char>) -> (
    LobbyView,
    Seq<Delivery>,
) {
    if !l.sessions.contains(id) {
        (l, Seq::empty())
    } else {
        let sessions = without(l.sessions, id);
        match room_pos(l.rooms, room_id) {
            None => (LobbyView { sessions, ..l }, Seq::empty()),
            Some(i) => {
                let room = l.rooms[i];
                if room.admin == id {
                    (
                        LobbyView {
                            sessions,
                            rooms: l.rooms.remove(i),
                            count: (l.count - room.members.len()) as nat,
                        },
                        closing_notices(without(room.members, id)),
                    )
                } else {
                    (
                        LobbyView {
                            sessions,
                            rooms: l.rooms.update(
                                i,
                                RoomView { members: without(room.members, id), ..room },
                            ),
                            count: if room.members.contains(id) {
                                (l.count - 1) as nat
                            } else {
                                l.count
                            },
                        },
                        seq![send(client_left_envelope(id), room.admin)],
                    )
                }
            },
        }
    }
}

/// The deliveries of a message `text` from connection `id` in room `room_id`.
pub open spec fn route_step(
    l: LobbyView,
    id: Seq<char>,
    room_id: Seq<char>,
    text: Seq<char>,
    mode: ModeView,
) -> Seq<Delivery> {
    match room_pos(l.rooms, room_id) {
        None => Seq::empty(),
        Some(i) => {
            let room = l.rooms[i];
            match mode {
                ModeView::Broadcast => copies(text, without(room.members, id)),
                ModeView::Whisper(target) => if room.members.contains(target) {
                    seq![send(text, target)]
                } else {
                    Seq::empty()
                },
                _ => seq![send(text, room.admin)],
            }
        },
    }
}

pub proof fn lemma_push_facts<A>(w: Seq<A>, a: A)
    ensures
        forall|y: A| #[trigger] w.push(a).contains(y) <==> (w.contains(y) || y == a),
        w.no_duplicates() && !w.contains(a) ==> w.push(a).no_duplicates(),
{
    assert forall|y: A| #[trigger] w.push(a).contains(y) <==> (w.contains(y) || y == a) by {
        if w.push(a).contains(y) {
            let k = choose|k: int| 0 <= k < w.len() + 1 && w.push(a)[k] == y;
            if k < w.len() {
                assert(w[k] == y);
            }
        }
        if w.contains(y) {
            let k = choose|k: int| 0 <= k < w.len() && w[k] == y;
            assert(w.push(a)[k] == y);
        }
        if y == a {
            assert(w.push(a)[w.len() as int] == y);
        }
    }
    if w.no_duplicates() && !w.contains(a) {
        assert forall|i: int, j: int|
            0 <= i < w.len() + 1 && 0 <= j < w.len() + 1 && i != j implies w.push(a)[i] != w.push(
            a,
        )[j] by {
            if i == w.len() {
                assert(w.contains(w[j]));
            } else if j == w.len() {
                assert(w.contains(w[i]));
            }
        }
    }
}

pub proof fn lemma_without(s: Seq<Seq<char>>, x: Seq<char>)
    ensures
        forall|y: Seq<char>| #[trigger] without(s, x).contains(y) <==> (s.contains(y) && y != x),
        without(s, x).len() <= s.len(),
        s.no_duplicates() ==> without(s, x).no_duplicates(),
        s.no_duplicates() && s.contains(x) ==> without(s, x).len() == s.len() - 1,
        !s.contains(x) ==> without(s, x) == s,
    decreases s.len(),
{
    if s.len() > 0 {
        let init = s.drop_last();
        lemma_without(init, x);
        assert(s =~= init.push(s.last()));
        lemma_push_facts(init, s.last());
        lemma_push_facts(without(init, x), s.last());
        assert forall|y: Seq<char>| s.contains(y) <==> (init.contains(y) || y == s.last()) by {
            if s.contains(y) {
                let k = choose|k: int| 0 <= k < s.len() && s[k] == y;
                if k < s.len() - 1 {
                    assert(init[k] == y);
                }
            }
            if init.contains(y) {
                let k = choose|k: int| 0 <= k < init.len() && init[k] == y;
                assert(s[k] == y);
            }
        }
        if s.no_duplicates() {
            assert(init.no_duplicates());
            assert(!init.contains(s.last()));
        }
        if !s.contains(x) {
            assert(!init.contains(x));
        }
    }
}

pub proof fn lemma_without_take(s: Seq<Seq<char>>, x: Seq<char>, i: int)
    requires
        0 <= i < s.len(),
    ensures
        without(s.take(i + 1), x) == if s[i] == x {
            without(s.take(i), x)
        } else {
            without(s.take(i), x).push(s[i])
        },
{
    assert(s.take(i + 1).drop_last() =~= s.take(i));
}

pub proof fn lemma_total_concat(a: Seq<RoomView>, b: Seq<RoomView>)
    ensures
        total_members(a + b) == total_members(a) + total_members(b),
    decreases b.len(),
{
    if b.len() == 0 {
        assert(a + b =~= a);
    } else {
        lemma_total_concat(a, b.drop_last());
        assert((a + b).drop_last() =~= a + b.drop_last());
    }
}

pub proof fn lemma_total_update(rooms: Seq<RoomView>, i: int, r: RoomView)
    requires
        0 <= i < rooms.len(),
    ensures
        total_members(rooms.update(i, r)) + rooms[i].members.len() == total_members(rooms)
            + r.members.len(),
{
    let pre = rooms.take(i);
    let post = rooms.skip(i + 1);
    assert(rooms =~= pre.push(rooms[i]) + post);
    assert(rooms.update(i, r) =~= pre.push(r) + post);
    lemma_total_concat(pre.push(rooms[i]), post);
    lemma_total_concat(pre.push(r), post);
    assert(pre.push(r).drop_last() =~= pre);
    assert(pre.push(rooms[i]).drop_last() =~= pre);
}

pub proof fn lemma_total_remove(rooms: Seq<RoomView>, i: int)
    requires
        0 <= i < rooms.len(),
    ensures
        total_members(rooms.remove(i)) + rooms[i].members.len() == total_members(rooms),
{
    let pre = rooms.take(i);
    let post = rooms.skip(i + 1);
    assert(rooms =~= pre.push(rooms[i]) + post);
    assert(rooms.remove(i) =~= pre + post);
    lemma_total_concat(pre.push(rooms[i]), post);
    lemma_total_concat(pre, post);
    assert(pre.push(rooms[i]).drop_last() =~= pre);
}

pub proof fn lemma_total_push(rooms: Seq<RoomView>, r: RoomView)
    ensures
        total_members(rooms.push(r)) == total_members(rooms) + r.members.len(),
{
    assert(rooms.push(r).drop_last() =~= rooms);
}

/// Each room of a well-formed lobby holds at least one member.
pub proof fn lemma_rooms_bound(l: LobbyView)
    requires
        l.wf(),
    ensures
        l.rooms.len() <= l.count,
        forall|i: int| 0 <= i < l.rooms.len() ==> (#[trigger] l.rooms[i]).members.len() <= l.count,
{
    lemma_rooms_bound_rec(l.rooms);
}

proof fn lemma_rooms_bound_rec(rooms: Seq<RoomView>)
    requires
        forall|i: int| 0 <= i < rooms.len() ==> (#[trigger] rooms[i]).members.contains(rooms[i].admin),
    ensures
        rooms.len() <= total_members(rooms),
        forall|i: int| 0 <= i < rooms.len() ==> (#[trigger] rooms[i]).members.len() <= total_members(rooms),
    decreases rooms.len(),
{
    if rooms.len() > 0 {
        let init = rooms.drop_last();
        assert forall|i: int| 0 <= i < init.len() implies (#[trigger] init[i]).members.contains(init[i].admin) by {
            assert(init[i] == rooms[i]);
        }
        lemma_rooms_bound_rec(init);
        assert(rooms.last().members.contains(rooms.last().admin));
        assert forall|i: int| 0 <= i < rooms.len() implies (#[trigger] rooms[i]).members.len() <= total_members(rooms) by {
            if i < rooms.len() - 1 {
                assert(init[i] == rooms[i]);
            }
        }
    }
}

/// With unique room ids, a room found at `j` is the one that `room_pos` names.
pub proof fn lemma_room_pos(l: LobbyView, id: Seq<char>, j: int)
    requires
        l.wf(),
        0 <= j < l.rooms.len(),
        l.rooms[j].id == id,
    ensures
        room_pos(l.rooms, id) == Some(j),
{
    let i = choose|i: int| 0 <= i < l.rooms.len() && l.rooms[i].id == id;
    if i != j {
        assert(l.rooms[i].id != l.rooms[j].id);
    }
}

/// Deliveries addressed one to each of `ms`, in order, reach each connection at most once.
pub proof fn lemma_times_sent_each(ds: Seq<Delivery>, ms: Seq<Seq<char>>, who: Seq<char>)
    requires
        ms.no_duplicates(),
        ds.len() == ms.len(),
        forall|k: int| 0 <= k < ds.len() ==> (#[trigger] ds[k]).id == ms[k],
    ensures
        times_sent(ds, who) == if ms.contains(who) {
            1nat
        } else {
            0nat
        },
    decreases ms.len(),
{
    if ms.len() > 0 {
        let init = ms.drop_last();
        let dinit = ds.drop_last();
        assert forall|k: int| 0 <= k < dinit.len() implies (#[trigger] dinit[k]).id == init[k] by {
            assert(dinit[k] == ds[k]);
        }
        assert(init.no_duplicates());
        lemma_times_sent_each(dinit, init, who);
        assert(ds.last().id == ms.last());
        if ms.contains(who) {
            let k = choose|k: int| 0 <= k < ms.len() && ms[k] == who;
            if k < ms.len() - 1 {
                assert(init[k] == who);
                assert(ms.last() != who);
            }
        }
        if init.contains(who) {
            let k = choose|k: int| 0 <= k < init.len() && init[k] == who;
            assert(ms[k] == who);
        }
    } else {
        assert(!ms.contains(who));
    }
}

} // verus!
