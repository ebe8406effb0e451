//! The lobby: the single authority over rooms and sessions.
//!
//! Each handler takes one event, updates the lobby, and returns the messages to
//! deliver, each addressed by connection id. Whoever runs the lobby posts them to
//! the endpoints' mailboxes, and drops those addressed to a mailbox that is gone.

use crate::client::client_message_text;
use crate::json::{draft_message, json_string};
use crate::laws::{connect_keeps_invariant, disconnect_keeps_invariant};
use crate::messages::{
    deliveries, Action, ClientActorMessage, CloseCode, Connect, Disconnect, Mode, Sender,
    WsMessage,
};
use crate::model::{
    close, closing_notices, connect_envelope, connect_step, connected_envelope, copies,
    disconnect_step, empty_lobby, id_in_use_reason, lemma_room_pos, lemma_rooms_bound, lemma_without,
    lemma_without_take, room_closing_envelope, room_pos, route_step, send, without, LobbyView,
    RoomView,
};
use vstd::prelude::*;

verus! {

/// An open room: the vehicle's id, its connection, and all members in order of arrival.
pub(crate) struct Room {
    id: String,
    admin: String,
    members: Vec<String>,
}

impl View for Room {
    type V = RoomView;

    closed spec fn view(&self) -> RoomView {
        RoomView { id: self.id@, admin: self.admin@, members: self.members.deep_view() }
    }
}

/// Rooms, the sessions registered with the lobby, and the presence counter.
pub struct Lobby {
    sessions: Vec<String>,
    rooms: Vec<Room>,
    count: usize,
}

impl View for Lobby {
    type V = LobbyView;

    closed spec fn view(&self) -> LobbyView {
        LobbyView {
            sessions: self.sessions.deep_view(),
            rooms: self.rooms@.map_values(|r: Room| r@),
            count: self.count as nat,
        }
    }
}

/// `v` without any occurrence of `x`.
pub(crate) fn strings_without(v: &Vec<String>, x: &String) -> (r: Vec<String>)
    ensures
        r.deep_view() == without(v.deep_view(), x@),
{
    let mut out: Vec<String> = Vec::new();
    let mut i: usize = 0;
    while i < v.len()
        invariant
            i <= v.len(),
            out.deep_view() == without(v.deep_view().take(i as int), x@),
        decreases v.len() - i,
    {
        proof {
            lemma_without_take(v.deep_view(), x@, i as int);
        }
        if v[i] != *x {
            out.push(v[i].clone());
            assert(out.deep_view() =~= without(v.deep_view().take(i as int), x@).push(v[i as int]@));
        }
        i = i + 1;
    }
    assert(v.deep_view().take(i as int) =~= v.deep_view());
    out
}

/// Whether `v` holds `x`.
pub(crate) fn strings_contain(v: &Vec<String>, x: &String) -> (r: bool)
    ensures
        r == v.deep_view().contains(x@),
{
    let mut i: usize = 0;
    while i < v.len()
        invariant
            i <= v.len(),
            forall|k: int| 0 <= k < i ==> v.deep_view()[k] != x@,
        decreases v.len() - i,
    {
        if v[i] == *x {
            assert(v.deep_view()[i as int] == x@);
            return true;
        }
        i = i + 1;
    }
    false
}

fn connect_envelope_for(uid: &str, conn_id: &str) -> (r: String)
    ensures
        r@ == connect_envelope(uid@, conn_id@),
{
    draft_message("connect", "Connection successful", "", conn_id, uid)
}

fn connected_envelope_for(uid: &str, conn_id: &str) -> (r: String)
    ensures
        r@ == connected_envelope(uid@, conn_id@),
{
    let mut out = String::from_str("{\"event\":");
    out.append(json_string("connected").as_str());
    out.append(",\"client\":{\"uid\":");
    out.append(json_string(uid).as_str());
    out.append(",\"conn_id\":");
    out.append(json_string(conn_id).as_str());
    out.append("}}");
    out
}

fn send_to(message: String, to: String) -> (r: WsMessage)
    ensures
        r@.message == message@,
        r@.id == to@,
        r@.action == Action::Send,
{
    WsMessage { message, id: to, action: Action::Send }
}

impl Lobby {
    /// A lobby with no room and no session.
    pub fn new() -> (r: Lobby)
        ensures
            r@ == empty_lobby(),
            r@.wf(),
    {
        let r = Lobby { sessions: Vec::new(), rooms: Vec::new(), count: 0 };
        assert(r@.sessions =~= Seq::<Seq<char>>::empty());
        assert(r@.rooms =~= Seq::<RoomView>::empty());
        r
    }

    fn find_room(&self, room_id: &String) -> (r: Option<usize>)
        requires
            self@.wf(),
        ensures
            match r {
                Some(i) => room_pos(self@.rooms, room_id@) == Some(i as int) && i
                    < self.rooms.len(),
                None => room_pos(self@.rooms, room_id@) is None,
            },
    {
        let mut i: usize = 0;
        while i < self.rooms.len()
            invariant
                i <= self.rooms.len(),
                self@.wf(),
                forall|k: int| 0 <= k < i ==> self@.rooms[k].id != room_id@,
            decreases self.rooms.len() - i,
        {
            if self.rooms[i].id == *room_id {
                proof {
                    assert(self@.rooms[i as int] == self.rooms[i as int]@);
                    lemma_room_pos(self@, room_id@, i as int);
                }
                return Some(i);
            }
            assert(self@.rooms[i as int] == self.rooms[i as int]@);
            i = i + 1;
        }
        None
    }

    /// Whether connection `id` is registered.
    pub fn has_session(&self, id: &String) -> (r: bool)
        ensures
            r == self@.sessions.contains(id@),
    {
        proof {
            assert(self@.sessions == self.sessions.deep_view());
        }
        strings_contain(&self.sessions, id)
    }

    /// Whether connection `id` is registered or sits in a room; a Connect must carry
    /// an id for which this is false.
    pub fn knows(&self, id: &String) -> (r: bool)
        ensures
            r == self@.knows(id@),
    {
        if self.has_session(id) {
            return true;
        }
        let mut i: usize = 0;
        while i < self.rooms.len()
            invariant
                i <= self.rooms.len(),
                forall|k: int| 0 <= k < i ==> !(#[trigger] self@.rooms[k]).members.contains(id@),
            decreases self.rooms.len() - i,
        {
            assert(self@.rooms[i as int] == self.rooms[i as int]@);
            if strings_contain(&self.rooms[i].members, id) {
                return true;
            }
            i = i + 1;
        }
        false
    }

    /// The number of members of all rooms.
    pub fn session_count(&self) -> (r: usize)
        ensures
            r == self@.count,
    {
        self.count
    }

    /// Handles a Connect: admits a user or a vehicle, or refuses the endpoint.
    pub fn handle_connect(&mut self, msg: Connect) -> (r: Vec<WsMessage>)
        requires
            old(self)@.wf(),
            !old(self)@.knows(msg.self_id@),
            old(self)@.count < usize::MAX,
        ensures
            (final(self)@, deliveries(r@)) == connect_step(
                old(self)@,
                msg.room_id@,
                msg.self_id@,
                msg.sender@,
            ),
            final(self)@.wf(),
    {
        proof {
            connect_keeps_invariant(self@, msg.room_id@, msg.self_id@, msg.sender@);
        }
        let ghost l = self@;
        let mut out: Vec<WsMessage> = Vec::new();
        let self_id = msg.self_id;
        match self.find_room(&msg.room_id) {
            Some(i) => {
                assert(l.rooms[i as int] == self.rooms[i as int]@);
                let admin = self.rooms[i].admin.clone();
                match msg.sender {
                    Sender::Admin => {
                        out.push(
                            WsMessage {
                                message: String::from_str(
                                    "Vehicle with the specified ID has already connected.",
                                ),
                                id: self_id,
                                action: Action::Disconnect(CloseCode::Policy),
                            },
                        );
                    },
                    Sender::Client(uid) => {
                        let mut room = self.rooms.remove(i);
                        room.members.push(self_id.clone());
                        let ghost r2 = room@;
                        self.rooms.insert(i, room);
                        self.sessions.push(self_id.clone());
                        self.count = self.count + 1;
                        out.push(
                            send_to(
                                connect_envelope_for(uid.as_str(), self_id.as_str()),
                                self_id.clone(),
                            ),
                        );
                        out.push(
                            send_to(connected_envelope_for(uid.as_str(), self_id.as_str()), admin),
                        );
                        assert(r2.members =~= l.rooms[i as int].members.push(self_id@));
                        assert(self@.rooms =~= l.rooms.update(i as int, r2));
                        assert(self@.sessions =~= l.sessions.push(self_id@));
                    },
                    Sender::Pair(payload) => {
                        out.push(send_to(payload.clone(), admin));
                        out.push(
                            WsMessage {
                                message: payload,
                                id: self_id,
                                action: Action::Disconnect(CloseCode::Normal),
                            },
                        );
                    },
                }
            },
            None => {
                match msg.sender {
                    Sender::Admin => {
                        let mut members: Vec<String> = Vec::new();
                        members.push(self_id.clone());
                        let room = Room { id: msg.room_id, admin: self_id.clone(), members };
                        let ghost r2 = room@;
                        self.rooms.push(room);
                        self.sessions.push(self_id.clone());
                        self.count = self.count + 1;
                        out.push(
                            send_to(connect_envelope_for("", self_id.as_str()), self_id),
                        );
                        assert(r2.members =~= seq![self_id@]);
                        assert(self@.rooms =~= l.rooms.push(r2));
                        assert(self@.sessions =~= l.sessions.push(self_id@));
                    },
                    _ => {
                        out.push(
                            WsMessage {
                                message: String::from_str(
                                    "Vehicle isn't active at the moment. Try again later.",
                                ),
                                id: self_id,
                                action: Action::Disconnect(CloseCode::Protocol),
                            },
                        );
                    },
                }
            },
        }
        assert(deliveries(out@) =~= connect_step(l, msg.room_id@, self_id@, msg.sender@).1);
        out
    }

    /// Handles a Connect from any endpoint: one whose id the lobby already knows, or
    /// one that would overflow the counter, is closed with `Policy` and changes
    /// nothing; any other is handled as [`Lobby::handle_connect`] does.
    pub fn accept(&mut self, msg: Connect) -> (r: Vec<WsMessage>)
        requires
            old(self)@.wf(),
        ensures
            final(self)@.wf(),
            if old(self)@.knows(msg.self_id@) || old(self)@.count == usize::MAX {
                &&& final(self)@ == old(self)@
                &&& deliveries(r@) == seq![
                    close(id_in_use_reason(), msg.self_id@, CloseCode::Policy),
                ]
            } else {
                (final(self)@, deliveries(r@)) == connect_step(
                    old(self)@,
                    msg.room_id@,
                    msg.self_id@,
                    msg.sender@,
                )
            },
    {
        if self.knows(&msg.self_id) || self.count == usize::MAX {
            let mut out: Vec<WsMessage> = Vec::new();
            out.push(
                WsMessage {
                    message: String::from_str("Connection id already in use."),
                    id: msg.self_id,
                    action: Action::Disconnect(CloseCode::Policy),
                },
            );
            assert(deliveries(out@) =~= seq![
                close(id_in_use_reason(), msg.self_id@, CloseCode::Policy),
            ]);
            return out;
        }
        self.handle_connect(msg)
    }

    /// Handles a Disconnect. When the vehicle leaves, its room closes and every other
    /// member is told so; when a user leaves, the vehicle is told.
    pub fn handle_disconnect(&mut self, msg: Disconnect) -> (r: Vec<WsMessage>)
        requires
            old(self)@.wf(),
            old(self)@.leaves_cleanly(msg.id@, msg.room_id@),
        ensures
            (final(self)@, deliveries(r@)) == disconnect_step(old(self)@, msg.id@, msg.room_id@),
            final(self)@.wf(),
    {
        proof {
            disconnect_keeps_invariant(self@, msg.id@, msg.room_id@);
        }
        let ghost l = self@;
        let mut out: Vec<WsMessage> = Vec::new();
        if !self.has_session(&msg.id) {
            assert(deliveries(out@) =~= Seq::empty());
            return out;
        }
        let pos = self.find_room(&msg.room_id);
        self.sessions = strings_without(&self.sessions, &msg.id);
        proof {
            lemma_rooms_bound(l);
        }
        match pos {
            None => {},
            Some(i) => {
                assert(l.rooms[i as int] == self.rooms[i as int]@);
                if self.rooms[i].admin == msg.id {
                    let room = self.rooms.remove(i);
                    let others = strings_without(&room.members, &msg.id);
                    self.count = self.count - room.members.len();
                    let mut k: usize = 0;
                    while k < others.len()
                        invariant
                            k <= others.len(),
                            deliveries(out@) == closing_notices(others.deep_view().take(k as int)),
                        decreases others.len() - k,
                    {
                        let m = others[k].clone();
                        let text = draft_message(
                            "disconnect",
                            "Vehicle left and the room is being closed",
                            "",
                            m.as_str(),
                            "",
                        );
                        let ghost prev = out@;
                        let ghost mv = m@;
                        out.push(
                            WsMessage {
                                message: text,
                                id: m,
                                action: Action::Disconnect(CloseCode::Normal),
                            },
                        );
                        assert(deliveries(out@) =~= deliveries(prev).push(
                            close(room_closing_envelope(mv), mv, CloseCode::Normal),
                        ));
                        assert(others.deep_view().take(k as int + 1) =~= others.deep_view().take(
                            k as int,
                        ).push(others.deep_view()[k as int]));
                        assert(deliveries(out@) =~= closing_notices(
                            others.deep_view().take(k as int + 1),
                        ));
                        k = k + 1;
                    }
                    assert(others.deep_view().take(k as int) =~= others.deep_view());
                    assert(self@.rooms =~= l.rooms.remove(i as int));
                } else {
                    let mut room = self.rooms.remove(i);
                    let admin = room.admin.clone();
                    let had = strings_contain(&room.members, &msg.id);
                    room.members = strings_without(&room.members, &msg.id);
                    let ghost r2 = room@;
                    self.rooms.insert(i, room);
                    if had {
                        proof {
                            lemma_without(l.rooms[i as int].members, msg.id@);
                        }
                        self.count = self.count - 1;
                    }
                    let text = draft_message(
                        "disconnect",
                        "A client has disconnected",
                        "",
                        msg.id.as_str(),
                        "",
                    );
                    out.push(send_to(text, admin));
                    assert(self@.rooms =~= l.rooms.update(i as int, r2));
                }
            },
        }
        assert(deliveries(out@) =~= disconnect_step(l, msg.id@, msg.room_id@).1);
        out
    }

    /// Whether connection `id` sits in no room but, perhaps, the one with id `room_id`.
    pub fn leaves_cleanly(&self, id: &String, room_id: &String) -> (r: bool)
        ensures
            r == self@.leaves_cleanly(id@, room_id@),
    {
        let mut i: usize = 0;
        while i < self.rooms.len()
            invariant
                i <= self.rooms.len(),
                forall|k: int|
                    0 <= k < i && (#[trigger] self@.rooms[k]).members.contains(id@) ==> self@.rooms[k].id
                        == room_id@,
            decreases self.rooms.len() - i,
        {
            assert(self@.rooms[i as int] == self.rooms[i as int]@);
            if strings_contain(&self.rooms[i].members, id) && self.rooms[i].id != *room_id {
                return false;
            }
            i = i + 1;
        }
        true
    }

    /// Handles any Disconnect: one that names a room other than the one the
    /// connection sits in is ignored; any other is handled as
    /// [`Lobby::handle_disconnect`] does.
    pub fn leave(&mut self, msg: Disconnect) -> (r: Vec<WsMessage>)
        requires
            old(self)@.wf(),
        ensures
            final(self)@.wf(),
            if old(self)@.leaves_cleanly(msg.id@, msg.room_id@) {
                (final(self)@, deliveries(r@)) == disconnect_step(old(self)@, msg.id@, msg.room_id@)
            } else {
                final(self)@ == old(self)@ && r@.len() == 0
            },
    {
        if self.leaves_cleanly(&msg.id, &msg.room_id) {
            self.handle_disconnect(msg)
        } else {
            Vec::new()
        }
    }

    /// Handles a message from a client: routes the relayed frame by its mode.
    pub fn handle_client_message(&self, msg: &ClientActorMessage) -> (r: Vec<WsMessage>)
        requires
            self@.wf(),
        ensures
            deliveries(r@) == route_step(
                self@,
                msg.id@,
                msg.room_id@,
                client_message_text(msg.msg@),
                msg.mode@,
            ),
    {
        let mut out: Vec<WsMessage> = Vec::new();
        let text = msg.msg.to_string();
        match self.find_room(&msg.room_id) {
            None => {},
            Some(i) => {
                let room = &self.rooms[i];
                assert(self@.rooms[i as int] == room@);
                match &msg.mode {
                    Mode::Broadcast => {
                        let others = strings_without(&room.members, &msg.id);
                        let mut k: usize = 0;
                        while k < others.len()
                            invariant
                                k <= others.len(),
                                deliveries(out@) == copies(text@, others.deep_view().take(k as int)),
                            decreases others.len() - k,
                        {
                            let ghost prev = out@;
                            out.push(send_to(text.clone(), others[k].clone()));
                            assert(deliveries(out@) =~= deliveries(prev).push(
                                send(text@, others.deep_view()[k as int]),
                            ));
                            assert(others.deep_view().take(k as int + 1) =~= others.deep_view().take(
                                k as int,
                            ).push(others.deep_view()[k as int]));
                            assert(deliveries(out@) =~= copies(
                                text@,
                                others.deep_view().take(k as int + 1),
                            ));
                            k = k + 1;
                        }
                        assert(others.deep_view().take(k as int) =~= others.deep_view());
                    },
                    Mode::Whisper(target) => {
                        if strings_contain(&room.members, target) {
                            out.push(send_to(text, target.clone()));
                        }
                    },
                    _ => {
                        out.push(send_to(text, room.admin.clone()));
                    },
                }
            },
        }
        assert(deliveries(out@) =~= route_step(
            self@,
            msg.id@,
            msg.room_id@,
            client_message_text(msg.msg@),
            msg.mode@,
        ));
        out
    }

    /// The presence snapshot: each open room with its vehicle's connection, and the
    /// session counts that the status report gives.
    pub fn presence(&self) -> (r: Presence)
        requires
            self@.wf(),
        ensures
            r.admins.deep_view() == self@.rooms.map_values(|x: RoomView| (x.id, x.admin)),
            r.counts.active_sessions == self@.count,
            r.counts.active_vehicles == self@.rooms.len(),
            r.counts.active_users == self@.count - self@.rooms.len(),
    {
        proof {
            lemma_rooms_bound(self@);
        }
        let mut admins: Vec<(String, String)> = Vec::new();
        let mut i: usize = 0;
        while i < self.rooms.len()
            invariant
                i <= self.rooms.len(),
                admins.deep_view() == self@.rooms.take(i as int).map_values(
                    |x: RoomView| (x.id, x.admin),
                ),
            decreases self.rooms.len() - i,
        {
            let ghost prev = admins.deep_view();
            admins.push((self.rooms[i].id.clone(), self.rooms[i].admin.clone()));
            assert(self@.rooms[i as int] == self.rooms[i as int]@);
            assert(admins.deep_view() =~= prev.push((self@.rooms[i as int].id, self@.rooms[i as int].admin)));
            assert(self@.rooms.take(i as int + 1) =~= self@.rooms.take(i as int).push(self@.rooms[i as int]));
            assert(admins.deep_view() =~= self@.rooms.take(i as int + 1).map_values(
                |x: RoomView| (x.id, x.admin),
            ));
            i = i + 1;
        }
        assert(self@.rooms.take(i as int) =~= self@.rooms);
        let vehicles = self.rooms.len();
        Presence {
            admins,
            counts: StatusCounts {
                active_users: self.count - vehicles,
                active_vehicles: vehicles,
                active_sessions: self.count,
            },
        }
    }

    /// The connection of the vehicle of room `room_id`, if the room is open.
    pub fn admin_of(&self, room_id: &String) -> (r: Option<String>)
        requires
            self@.wf(),
        ensures
            match room_pos(self@.rooms, room_id@) {
                Some(i) => r matches Some(a) && a@ == self@.rooms[i].admin,
                None => r is None,
            },
    {
        match self.find_room(room_id) {
            Some(i) => {
                assert(self@.rooms[i as int] == self.rooms[i as int]@);
                Some(self.rooms[i].admin.clone())
            },
            None => None,
        }
    }

    /// The members of room `room_id` in order of arrival, if the room is open.
    pub fn members_of(&self, room_id: &String) -> (r: Option<Vec<String>>)
        requires
            self@.wf(),
        ensures
            match room_pos(self@.rooms, room_id@) {
                Some(i) => r matches Some(m) && m.deep_view() == self@.rooms[i].members,
                None => r is None,
            },
    {
        match self.find_room(room_id) {
            Some(i) => {
                assert(self@.rooms[i as int] == self.rooms[i as int]@);
                Some(self.rooms[i].members.clone())
            },
            None => None,
        }
    }
}

/// The counts of the status report.
#[derive(Clone, Copy, Debug)]
pub struct StatusCounts {
    pub active_users: usize,
    pub active_vehicles: usize,
    pub active_sessions: usize,
}

/// What the lobby shares with the status report: each open room with the
/// connection of its vehicle, and the counts.
#[derive(Debug)]
pub struct Presence {
    pub admins: Vec<(String, String)>,
    pub counts: StatusCounts,
}

} // verus!
