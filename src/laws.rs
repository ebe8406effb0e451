//! What holds of the lobby over all events: its invariant, and where each kind of
//! message goes.

use crate::messages::{Action, CloseCode, Delivery, ModeView, SenderView};
use crate::model::{
    client_left_envelope, closing_notices, connect_step, disconnect_step, lemma_push_facts,
    lemma_room_pos, lemma_rooms_bound, lemma_times_sent_each, lemma_total_push,
    lemma_total_remove, lemma_total_update, lemma_without, room_closing_envelope, room_pos,
    route_step, send, times_sent, total_members, without, LobbyView, RoomView,
};
use vstd::prelude::*;

verus! {

/// In a well-formed lobby a connection is a member of at most one room.
pub proof fn member_of_at_most_one_room(l: LobbyView, c: Seq<char>, i: int, j: int)
    requires
        l.wf(),
        0 <= i < l.rooms.len(),
        0 <= j < l.rooms.len(),
        l.rooms[i].members.contains(c),
        l.rooms[j].members.contains(c),
    ensures
        i == j,
{
}

/// A Connect from a connection the lobby has not seen keeps the invariant: every
/// connection in at most one room, and the counter equal to the members of all rooms.
pub proof fn connect_keeps_invariant(
    l: LobbyView,
    room_id: Seq<char>,
    self_id: Seq<char>,
    sender: SenderView,
)
    requires
        l.wf(),
        !l.knows(self_id),
    ensures
        connect_step(l, room_id, self_id, sender).0.wf(),
{
    let n = connect_step(l, room_id, self_id, sender).0;
    assert(!l.sessions.contains(self_id));
    assert forall|k: int| 0 <= k < l.rooms.len() implies !(#[trigger] l.rooms[k]).members.contains(
        self_id,
    ) by {}
    lemma_push_facts(l.sessions, self_id);
    match room_pos(l.rooms, room_id) {
        Some(i) => {
            let room = l.rooms[i];
            match sender {
                SenderView::Client(uid) => {
                    let r2 = RoomView { members: room.members.push(self_id), ..room };
                    lemma_push_facts(room.members, self_id);
                    lemma_total_update(l.rooms, i, r2);
                    assert(n.rooms == l.rooms.update(i, r2));
                    assert forall|k: int| 0 <= k < n.rooms.len() implies {
                        &&& (#[trigger] n.rooms[k]).members.no_duplicates()
                        &&& n.rooms[k].members.contains(n.rooms[k].admin)
                    } by {
                        if k != i {
                            assert(n.rooms[k] == l.rooms[k]);
                        }
                    }
                    assert forall|a: int, b: int|
                        0 <= a < n.rooms.len() && 0 <= b < n.rooms.len() && a != b implies (
                        #[trigger] n.rooms[a]).id != (#[trigger] n.rooms[b]).id by {
                        assert(l.rooms[a].id != l.rooms[b].id);
                    }
                    assert forall|a: int, b: int, c: Seq<char>|
                        0 <= a < n.rooms.len() && 0 <= b < n.rooms.len() && a != b
                            && n.rooms[a].members.contains(c) implies !n.rooms[b].members.contains(
                        c,
                    ) by {
                        if a == i {
                            if c == self_id {
                                assert(!l.rooms[b].members.contains(self_id));
                            } else {
                                assert(l.rooms[a].members.contains(c));
                            }
                        } else if b == i {
                            assert(l.rooms[a].members.contains(c));
                            assert(c != self_id);
                        }
                    }
                },
                _ => {},
            }
        },
        None => {
            match sender {
                SenderView::Admin => {
                    let r2 = RoomView { id: room_id, admin: self_id, members: seq![self_id] };
                    lemma_total_push(l.rooms, r2);
                    assert(r2.members[0] == self_id);
                    assert forall|k: int| 0 <= k < l.rooms.len() implies (#[trigger] l.rooms[k]).id
                        != room_id by {}
                    assert forall|k: int| 0 <= k < n.rooms.len() implies {
                        &&& (#[trigger] n.rooms[k]).members.no_duplicates()
                        &&& n.rooms[k].members.contains(n.rooms[k].admin)
                    } by {
                        if k < l.rooms.len() {
                            assert(n.rooms[k] == l.rooms[k]);
                        }
                    }
                    assert forall|a: int, b: int|
                        0 <= a < n.rooms.len() && 0 <= b < n.rooms.len() && a != b implies (
                        #[trigger] n.rooms[a]).id != (#[trigger] n.rooms[b]).id by {
                        if a < l.rooms.len() && b < l.rooms.len() {
                            assert(l.rooms[a].id != l.rooms[b].id);
                        }
                    }
                    assert forall|a: int, b: int, c: Seq<char>|
                        0 <= a < n.rooms.len() && 0 <= b < n.rooms.len() && a != b
                            && n.rooms[a].members.contains(c) implies !n.rooms[b].members.contains(
                        c,
                    ) by {
                        if a == l.rooms.len() {
                            assert(c == self_id);
                        } else if b == l.rooms.len() {
                            assert(n.rooms[a] == l.rooms[a]);
                            if n.rooms[b].members.contains(c) {
                                assert(c == self_id);
                            }
                        } else {
                            assert(n.rooms[a] == l.rooms[a]);
                            assert(n.rooms[b] == l.rooms[b]);
                        }
                    }
                },
                _ => {},
            }
        },
    }
}

/// A Disconnect of a connection from its own room (or from a room it is not in,
/// when it sits in no room) keeps the invariant.
pub proof fn disconnect_keeps_invariant(l: LobbyView, id: Seq<char>, room_id: Seq<char>)
    requires
        l.wf(),
        l.leaves_cleanly(id, room_id),
    ensures
        disconnect_step(l, id, room_id).0.wf(),
{
    let n = disconnect_step(l, id, room_id).0;
    if l.sessions.contains(id) {
        lemma_without(l.sessions, id);
        match room_pos(l.rooms, room_id) {
            None => {},
            Some(i) => {
                let room = l.rooms[i];
                lemma_rooms_bound(l);
                if room.admin == id {
                    lemma_total_remove(l.rooms, i);
                    assert forall|k: int| 0 <= k < n.rooms.len() implies n.rooms[k] == l.rooms[if k
                        < i {
                        k
                    } else {
                        k + 1
                    }] by {}
                    assert forall|k: int| 0 <= k < n.rooms.len() implies {
                        &&& (#[trigger] n.rooms[k]).members.no_duplicates()
                        &&& n.rooms[k].members.contains(n.rooms[k].admin)
                    } by {
                        let kk = if k < i {
                            k
                        } else {
                            k + 1
                        };
                        assert(n.rooms[k] == l.rooms[kk]);
                    }
                    assert forall|a: int, b: int|
                        0 <= a < n.rooms.len() && 0 <= b < n.rooms.len() && a != b implies (
                        #[trigger] n.rooms[a]).id != (#[trigger] n.rooms[b]).id by {
                        let aa = if a < i {
                            a
                        } else {
                            a + 1
                        };
                        let bb = if b < i {
                            b
                        } else {
                            b + 1
                        };
                        assert(l.rooms[aa].id != l.rooms[bb].id);
                    }
                    assert forall|a: int, b: int, c: Seq<char>|
                        0 <= a < n.rooms.len() && 0 <= b < n.rooms.len() && a != b
                            && n.rooms[a].members.contains(c) implies !n.rooms[b].members.contains(
                        c,
                    ) by {
                        let aa = if a < i {
                            a
                        } else {
                            a + 1
                        };
                        let bb = if b < i {
                            b
                        } else {
                            b + 1
                        };
                        assert(l.rooms[aa].members.contains(c));
                        assert(n.rooms[b] == l.rooms[bb]);
                    }
                } else {
                    let r2 = RoomView { members: without(room.members, id), ..room };
                    lemma_without(room.members, id);
                    lemma_total_update(l.rooms, i, r2);
                    assert forall|k: int| 0 <= k < n.rooms.len() implies {
                        &&& (#[trigger] n.rooms[k]).members.no_duplicates()
                        &&& n.rooms[k].members.contains(n.rooms[k].admin)
                    } by {
                        if k != i {
                            assert(n.rooms[k] == l.rooms[k]);
                        }
                    }
                    assert forall|a: int, b: int|
                        0 <= a < n.rooms.len() && 0 <= b < n.rooms.len() && a != b implies (
                        #[trigger] n.rooms[a]).id != (#[trigger] n.rooms[b]).id by {
                        assert(l.rooms[a].id != l.rooms[b].id);
                    }
                    assert forall|a: int, b: int, c: Seq<char>|
                        0 <= a < n.rooms.len() && 0 <= b < n.rooms.len() && a != b
                            && n.rooms[a].members.contains(c) implies !n.rooms[b].members.contains(
                        c,
                    ) by {
                        assert(l.rooms[a].members.contains(c));
                        if n.rooms[b].members.contains(c) {
                            assert(l.rooms[b].members.contains(c));
                        }
                    }
                }
            },
        }
    }
}

/// When the vehicle leaves, each other member of its room is sent exactly one
/// room-closing notice with close code `Normal`, the vehicle none, each notified
/// member is still a registered session, and the room is gone.
pub proof fn vehicle_leave_notifies_each_member_once(
    l: LobbyView,
    id: Seq<char>,
    room_id: Seq<char>,
    i: int,
)
    requires
        l.wf(),
        l.sessions.contains(id),
        0 <= i < l.rooms.len(),
        l.rooms[i].id == room_id,
        l.rooms[i].admin == id,
    ensures
        ({
            let (next, ds) = disconnect_step(l, id, room_id);
            &&& forall|m: Seq<char>|
                l.rooms[i].members.contains(m) && m != id ==> #[trigger] times_sent(ds, m) == 1
            &&& times_sent(ds, id) == 0
            &&& forall|k: int|
                0 <= k < ds.len() ==> (#[trigger] ds[k]).action == Action::Disconnect(
                    CloseCode::Normal,
                ) && ds[k].message == room_closing_envelope(ds[k].id)
                    && next.sessions.contains(ds[k].id)
            &&& room_pos(next.rooms, room_id) is None
        }),
{
    lemma_room_pos(l, room_id, i);
    let room = l.rooms[i];
    let others = without(room.members, id);
    let ds = disconnect_step(l, id, room_id).1;
    let next = disconnect_step(l, id, room_id).0;
    lemma_without(room.members, id);
    assert(ds == closing_notices(others));
    assert forall|m: Seq<char>| #![auto] times_sent(ds, m) == if others.contains(m) {
        1nat
    } else {
        0nat
    } by {
        lemma_times_sent_each(ds, others, m);
    }
    lemma_without(l.sessions, id);
    assert forall|k: int| 0 <= k < ds.len() implies next.sessions.contains((#[trigger] ds[k]).id) by {
        assert(ds[k].id == others[k]);
        assert(others.contains(others[k]));
        assert(l.rooms[i].members.contains(others[k]));
    }
    assert forall|k: int| 0 <= k < next.rooms.len() implies (#[trigger] next.rooms[k]).id
        != room_id by {
        let kk = if k < i {
            k
        } else {
            k + 1
        };
        assert(next.rooms[k] == l.rooms[kk]);
        assert(l.rooms[kk].id != l.rooms[i].id);
    }
}

/// When a user leaves, the vehicle of its room is sent exactly one notice naming the
/// user, and the room shrinks by one.
pub proof fn user_leave_notifies_vehicle_once(
    l: LobbyView,
    id: Seq<char>,
    room_id: Seq<char>,
    i: int,
)
    requires
        l.wf(),
        l.sessions.contains(id),
        0 <= i < l.rooms.len(),
        l.rooms[i].id == room_id,
        l.rooms[i].admin != id,
        l.rooms[i].members.contains(id),
    ensures
        ({
            let (next, ds) = disconnect_step(l, id, room_id);
            &&& ds == seq![send(client_left_envelope(id), l.rooms[i].admin)]
            &&& times_sent(ds, l.rooms[i].admin) == 1
            &&& next.rooms[i].members.len() == l.rooms[i].members.len() - 1
            &&& !next.rooms[i].members.contains(id)
            &&& next.count == l.count - 1
        }),
{
    lemma_room_pos(l, room_id, i);
    lemma_without(l.rooms[i].members, id);
    let ds = disconnect_step(l, id, room_id).1;
    assert(ds.drop_last() =~= Seq::<Delivery>::empty());
    assert(times_sent(ds.drop_last(), l.rooms[i].admin) == 0);
    let next = disconnect_step(l, id, room_id).0;
    assert(next.rooms[i].members == without(l.rooms[i].members, id));
}

/// A broadcast from `a` reaches each other member of the room exactly once, and
/// not `a`.
pub proof fn broadcast_reaches_each_other_member_once(
    l: LobbyView,
    a: Seq<char>,
    room_id: Seq<char>,
    text: Seq<char>,
    i: int,
)
    requires
        l.wf(),
        0 <= i < l.rooms.len(),
        l.rooms[i].id == room_id,
    ensures
        ({
            let ds = route_step(l, a, room_id, text, ModeView::Broadcast);
            &&& forall|m: Seq<char>|
                l.rooms[i].members.contains(m) && m != a ==> #[trigger] times_sent(ds, m) == 1
            &&& times_sent(ds, a) == 0
            &&& forall|k: int|
                0 <= k < ds.len() ==> l.rooms[i].members.contains((#[trigger] ds[k]).id)
                    && ds[k].message == text && ds[k].action == Action::Send
        }),
{
    lemma_room_pos(l, room_id, i);
    let others = without(l.rooms[i].members, a);
    let ds = route_step(l, a, room_id, text, ModeView::Broadcast);
    lemma_without(l.rooms[i].members, a);
    assert forall|m: Seq<char>| #![auto] times_sent(ds, m) == if others.contains(m) {
        1nat
    } else {
        0nat
    } by {
        lemma_times_sent_each(ds, others, m);
    }
    assert forall|k: int| 0 <= k < ds.len() implies l.rooms[i].members.contains(
        (#[trigger] ds[k]).id,
    ) by {
        assert(others.contains(others[k]));
    }
}

/// A whisper reaches its target only, and only when the target is in the room; a
/// target it reaches is a registered session.
pub proof fn whisper_reaches_only_its_target(
    l: LobbyView,
    a: Seq<char>,
    room_id: Seq<char>,
    text: Seq<char>,
    t: Seq<char>,
)
    requires
        l.wf(),
    ensures
        ({
            let ds = route_step(l, a, room_id, text, ModeView::Whisper(t));
            &&& forall|k: int| 0 <= k < ds.len() ==> (#[trigger] ds[k]).id == t
            &&& ds.len() <= 1
            &&& ds.len() == 1 ==> l.sessions.contains(t)
            &&& (ds.len() == 1 <==> exists|i: int|
                0 <= i < l.rooms.len() && l.rooms[i].id == room_id
                    && (#[trigger] l.rooms[i]).members.contains(t))
        }),
{
    let ds = route_step(l, a, room_id, text, ModeView::Whisper(t));
    if exists|i: int|
        0 <= i < l.rooms.len() && l.rooms[i].id == room_id && (#[trigger] l.rooms[i]).members.contains(
            t,
        ) {
        let i = choose|i: int|
            0 <= i < l.rooms.len() && l.rooms[i].id == room_id && (#[trigger] l.rooms[i]).members.contains(
                t,
            );
        lemma_room_pos(l, room_id, i);
    } else {
        match room_pos(l.rooms, room_id) {
            Some(i) => {
                assert(l.rooms[i].id == room_id);
            },
            None => {},
        }
    }
}

/// A Connect from a connection the lobby has not seen grows the counter by one
/// exactly when it admits a member (a user to an open room, or a vehicle to a room
/// not yet open), leaves it as it is otherwise, and the counter stays equal to the
/// members of all rooms.
pub proof fn connect_counts_admitted_members(
    l: LobbyView,
    room_id: Seq<char>,
    self_id: Seq<char>,
    sender: SenderView,
)
    requires
        l.wf(),
        !l.knows(self_id),
    ensures
        ({
            let next = connect_step(l, room_id, self_id, sender).0;
            let open = exists|i: int| 0 <= i < l.rooms.len() && (#[trigger] l.rooms[i]).id == room_id;
            let admitted = (sender is Client && open) || (sender is Admin && !open);
            &&& next.count == total_members(next.rooms)
            &&& next.count == l.count + if admitted {
                1nat
            } else {
                0nat
            }
        }),
{
    connect_keeps_invariant(l, room_id, self_id, sender);
    if exists|i: int| 0 <= i < l.rooms.len() && (#[trigger] l.rooms[i]).id == room_id {
        let i = choose|i: int| 0 <= i < l.rooms.len() && (#[trigger] l.rooms[i]).id == room_id;
        lemma_room_pos(l, room_id, i);
    } else {
        match room_pos(l.rooms, room_id) {
            Some(i) => {
                assert(l.rooms[i].id == room_id);
            },
            None => {},
        }
    }
}

} // verus!
