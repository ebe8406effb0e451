//! The events that endpoints post to the lobby and the deliveries it hands back.

use crate::client::{ClientMessage, ClientMessageView};
use vstd::prelude::*;

verus! {

/// How a socket is closed when the lobby ends a connection.
#[derive(Clone, Copy, PartialEq, Eq, Structural, Debug)]
pub enum CloseCode {
    Normal,
    Policy,
    Protocol,
}

/// What an endpoint does with a delivery from the lobby.
#[derive(Clone, Copy, PartialEq, Eq, Structural, Debug)]
pub enum Action {
    Send,
    Disconnect(CloseCode),
    Pair,
}

/// How a client message is routed inside its room.
#[derive(Clone, Debug)]
pub enum Mode {
    /// To every member but the sender.
    Broadcast,
    /// To the one member with this connection id.
    Whisper(String),
    /// An order for the vehicle.
    Action,
    /// A request for data from the vehicle.
    Request,
}

pub enum ModeView {
    Broadcast,
    Whisper(Seq<char>),
    Action,
    Request,
}

impl View for Mode {
    type V = ModeView;

    open spec fn view(&self) -> ModeView {
        match self {
            Mode::Broadcast => ModeView::Broadcast,
            Mode::Whisper(t) => ModeView::Whisper(t@),
            Mode::Action => ModeView::Action,
            Mode::Request => ModeView::Request,
        }
    }
}

/// Who asks to join a room.
#[derive(Clone, Debug)]
pub enum Sender {
    /// A user, with its user id.
    Client(String),
    /// The vehicle that owns the room.
    Admin,
    /// A transient pairing endpoint, with the confirmation it carries.
    Pair(String),
}

pub enum SenderView {
    Client(Seq<char>),
    Admin,
    Pair(Seq<char>),
}

impl View for Sender {
    type V = SenderView;

    open spec fn view(&self) -> SenderView {
        match self {
            Sender::Client(u) => SenderView::Client(u@),
            Sender::Admin => SenderView::Admin,
            Sender::Pair(p) => SenderView::Pair(p@),
        }
    }
}

/// A delivery from the lobby to the endpoint with connection id `id`.
#[derive(Debug)]
pub struct WsMessage {
    pub message: String,
    pub id: String,
    pub action: Action,
}

pub struct Delivery {
    pub message: Seq<char>,
    pub id: Seq<char>,
    pub action: Action,
}

impl View for WsMessage {
    type V = Delivery;

    open spec fn view(&self) -> Delivery {
        Delivery { message: self.message@, id: self.id@, action: self.action }
    }
}

/// An endpoint asks the lobby to place it in room `room_id`.
#[derive(Clone, Debug)]
pub struct Connect {
    pub room_id: String,
    pub self_id: String,
    pub sender: Sender,
}

/// An endpoint tells the lobby that connection `id` of room `room_id` has gone.
#[derive(Clone, Debug)]
pub struct Disconnect {
    pub room_id: String,
    pub id: String,
    pub reason: Option<String>,
}

/// A message from client `id` of room `room_id`, with the routing mode it resolved to.
#[derive(Debug)]
pub struct ClientActorMessage {
    pub id: String,
    pub msg: ClientMessage,
    pub room_id: String,
    pub mode: Mode,
}

pub struct ClientActorMessageView {
    pub id: Seq<char>,
    pub msg: ClientMessageView,
    pub room_id: Seq<char>,
    pub mode: ModeView,
}

impl View for ClientActorMessage {
    type V = ClientActorMessageView;

    open spec fn view(&self) -> ClientActorMessageView {
        ClientActorMessageView {
            id: self.id@,
            msg: self.msg@,
            room_id: self.room_id@,
            mode: self.mode@,
        }
    }
}

} // verus!

verus! {

/// The deliveries that a list of outgoing messages stands for.
pub open spec fn deliveries(v: Seq<WsMessage>) -> Seq<Delivery> {
    v.map_values(|w: WsMessage| w@)
}

} // verus!
