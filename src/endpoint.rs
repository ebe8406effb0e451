//! One side of an open socket: heartbeat, inbound frames, and deliveries from the
//! lobby. Time is counted in milliseconds on the endpoint's own monotonic clock.

use crate::client::{resolve_mode, ClientMessage};
use crate::json::{draft_message, envelope_text};
use crate::messages::{
    Action, ClientActorMessage, CloseCode, Connect, Disconnect, Sender, WsMessage,
};
use vstd::prelude::*;

verus! {

/// How often the endpoint pings its peer.
pub const HEARTBEAT_INTERVAL_MS: u64 = 5000;

/// How long the endpoint waits for a frame before it gives up on its peer.
pub const CLIENT_TIMEOUT_MS: u64 = 10000;

/// A connection endpoint: its id, its room, who it joins as, and when it last heard
/// a frame.
#[derive(Debug)]
pub struct WsConn {
    pub id: String,
    pub room: String,
    pub sender: Sender,
    pub hb: u64,
}

/// A frame from the peer; a text frame carries the client message it parsed to, if any.
#[derive(Debug)]
pub enum Inbound {
    Ping,
    Pong,
    Text(Option<ClientMessage>),
    Binary,
    Close,
    Continuation,
    Nop,
    /// The socket reported a protocol error instead of a frame.
    Failed,
}

/// What the endpoint does with an inbound frame.
#[derive(Debug)]
pub enum InboundStep {
    /// Answer the ping with a pong carrying its payload.
    Pong,
    /// Send the binary payload back.
    Echo,
    /// Close with the peer's reason, then stop.
    CloseAndStop,
    Stop,
    Ignore,
    /// Send this text to the peer.
    Reply(String),
    /// Post this message to the lobby.
    Forward(ClientActorMessage),
}

/// What the endpoint does when its heartbeat timer fires.
#[derive(Debug)]
pub enum Heartbeat {
    Ping,
    /// The peer has been silent too long: post this to the lobby and stop.
    Expire(Disconnect),
}

/// What the endpoint does with a delivery from the lobby.
#[derive(Debug)]
pub enum Outbound {
    Text(String),
    Close(CloseCode, String),
    Ignore,
}

/// The envelope sent back for a text frame that is not a client message.
pub open spec fn bad_format_error(conn_id: Seq<char>) -> Seq<char> {
    envelope_text("error"@, ""@, "This message is not in the specified format"@, conn_id, ""@)
}

/// Milliseconds from `from` to `to`, zero when `to` is earlier.
pub open spec fn elapsed(from: u64, to: u64) -> nat {
    if to > from {
        (to - from) as nat
    } else {
        0
    }
}

fn copy_sender(s: &Sender) -> (r: Sender)
    ensures
        r@ == s@,
{
    match s {
        Sender::Client(u) => Sender::Client(u.clone()),
        Sender::Admin => Sender::Admin,
        Sender::Pair(p) => Sender::Pair(p.clone()),
    }
}

impl WsConn {
    pub fn new(room: String, id: String, sender: Sender, now_ms: u64) -> (r: WsConn)
        ensures
            r.room@ == room@,
            r.id@ == id@,
            r.sender@ == sender@,
            r.hb == now_ms,
    {
        WsConn { id, room, sender, hb: now_ms }
    }

    /// The Connect that places this endpoint in its room.
    pub fn connect_event(&self) -> (r: Connect)
        ensures
            r.room_id@ == self.room@,
            r.self_id@ == self.id@,
            r.sender@ == self.sender@,
    {
        Connect { room_id: self.room.clone(), self_id: self.id.clone(), sender: copy_sender(&self.sender) }
    }

    /// The Disconnect that takes this endpoint out of its room.
    pub fn disconnect_event(&self) -> (r: Disconnect)
        ensures
            r.room_id@ == self.room@,
            r.id@ == self.id@,
            r.reason is None,
    {
        Disconnect { room_id: self.room.clone(), id: self.id.clone(), reason: None }
    }

    /// The heartbeat timer fired at `now_ms`: the endpoint expires once more than
    /// the timeout has passed since the last frame, and pings otherwise.
    pub fn tick(&self, now_ms: u64) -> (r: Heartbeat)
        ensures
            match r {
                Heartbeat::Ping => elapsed(self.hb, now_ms) <= CLIENT_TIMEOUT_MS,
                Heartbeat::Expire(d) => elapsed(self.hb, now_ms) > CLIENT_TIMEOUT_MS
                    && d.room_id@ == self.room@ && d.id@ == self.id@ && d.reason is None,
            },
    {
        let waited: u64 = if now_ms > self.hb {
            now_ms - self.hb
        } else {
            0
        };
        if waited > CLIENT_TIMEOUT_MS {
            Heartbeat::Expire(self.disconnect_event())
        } else {
            Heartbeat::Ping
        }
    }

    /// Handles a frame that arrived at `now_ms`. Any frame refreshes the heartbeat;
    /// a text frame is answered with an error envelope, or forwarded to the lobby
    /// with its resolved mode.
    pub fn on_frame(&mut self, frame: Inbound, now_ms: u64) -> (r: InboundStep)
        ensures
            final(self).id == old(self).id,
            final(self).room == old(self).room,
            final(self).sender == old(self).sender,
            final(self).hb == match frame {
                Inbound::Failed => old(self).hb,
                _ => now_ms,
            },
            match frame {
                Inbound::Ping => r is Pong,
                Inbound::Pong => r is Ignore,
                Inbound::Binary => r is Echo,
                Inbound::Close => r is CloseAndStop,
                Inbound::Continuation => r is Stop,
                Inbound::Nop => r is Ignore,
                Inbound::Failed => r is Ignore,
                Inbound::Text(None) => r matches InboundStep::Reply(e) && e@ == bad_format_error(
                    old(self).id@,
                ),
                Inbound::Text(Some(m)) => match resolve_mode(m@) {
                    Ok(mode) => r matches InboundStep::Forward(f) && f.id@ == old(self).id@
                        && f.room_id@ == old(self).room@ && f.msg@ == m@ && f.mode@ == mode,
                    Err(e) => r matches InboundStep::Reply(t) && t@ == e,
                },
            },
    {
        match frame {
            Inbound::Failed => {
                return InboundStep::Ignore;
            },
            _ => {},
        }
        self.hb = now_ms;
        match frame {
            Inbound::Ping => InboundStep::Pong,
            Inbound::Pong => InboundStep::Ignore,
            Inbound::Binary => InboundStep::Echo,
            Inbound::Close => InboundStep::CloseAndStop,
            Inbound::Continuation => InboundStep::Stop,
            Inbound::Nop => InboundStep::Ignore,
            Inbound::Failed => InboundStep::Ignore,
            Inbound::Text(None) => InboundStep::Reply(
                draft_message(
                    "error",
                    "",
                    "This message is not in the specified format",
                    self.id.as_str(),
                    "",
                ),
            ),
            Inbound::Text(Some(m)) => match m.get_mode() {
                Ok(mode) => InboundStep::Forward(
                    ClientActorMessage {
                        id: self.id.clone(),
                        msg: m,
                        room_id: self.room.clone(),
                        mode,
                    },
                ),
                Err(e) => InboundStep::Reply(e),
            },
        }
    }
}

/// What an endpoint does with a delivery from the lobby: send its text, or close
/// with its code and the text as reason.
pub fn on_delivery(msg: WsMessage) -> (r: Outbound)
    ensures
        match msg.action {
            Action::Send => r matches Outbound::Text(t) && t@ == msg.message@,
            Action::Disconnect(code) => r matches Outbound::Close(c, t) && c == code && t@
                == msg.message@,
            Action::Pair => r is Ignore,
        },
{
    match msg.action {
        Action::Send => Outbound::Text(msg.message),
        Action::Disconnect(code) => Outbound::Close(code, msg.message),
        Action::Pair => Outbound::Ignore,
    }
}

} // verus!
