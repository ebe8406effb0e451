use alpadrive::client::ClientMessage;
use alpadrive::endpoint::{on_delivery, Heartbeat, Inbound, InboundStep, Outbound, WsConn};
use alpadrive::lobby::Lobby;
use alpadrive::messages::{Action, CloseCode, Mode, Sender, WsMessage};

fn conn(hb: u64) -> WsConn {
    WsConn::new("v1".to_string(), "cU".to_string(), Sender::Client("u1".to_string()), hb)
}

#[test]
fn silent_connection_times_out_and_leaves_its_room() {
    let mut lobby = Lobby::new();
    let vehicle = WsConn::new("v1".to_string(), "cV".to_string(), Sender::Admin, 0);
    lobby.handle_connect(vehicle.connect_event());
    let user = conn(1_000);
    lobby.handle_connect(user.connect_event());
    assert_eq!(lobby.session_count(), 2);
    assert!(matches!(user.tick(6_000), Heartbeat::Ping));
    assert!(matches!(user.tick(11_000), Heartbeat::Ping));
    let leave = match user.tick(11_001) {
        Heartbeat::Expire(d) => d,
        Heartbeat::Ping => panic!("the connection should have expired"),
    };
    assert_eq!(leave.id, "cU");
    assert_eq!(leave.room_id, "v1");
    assert!(leave.reason.is_none());
    let out = lobby.leave(leave);
    assert_eq!(out.len(), 1);
    assert_eq!(out[0].id, "cV");
    assert!(out[0].message.contains("\"event\":\"disconnect\""));
    assert!(out[0].message.contains("\"conn_id\":\"cU\""));
    assert_eq!(lobby.members_of(&"v1".to_string()), Some(vec!["cV".to_string()]));
    assert_eq!(lobby.session_count(), 1);
}

#[test]
fn any_frame_refreshes_heartbeat() {
    let mut c = conn(0);
    assert!(matches!(c.on_frame(Inbound::Pong, 9_000), InboundStep::Ignore));
    assert_eq!(c.hb, 9_000);
    assert!(matches!(c.on_frame(Inbound::Ping, 12_000), InboundStep::Pong));
    assert_eq!(c.hb, 12_000);
    c.on_frame(Inbound::Text(None), 15_000);
    assert_eq!(c.hb, 15_000);
    assert!(matches!(c.on_frame(Inbound::Failed, 30_000), InboundStep::Ignore));
    assert_eq!(c.hb, 15_000);
    assert!(matches!(c.tick(20_000), Heartbeat::Ping));
}

#[test]
fn clock_going_back_does_not_expire() {
    let c = conn(50_000);
    assert!(matches!(c.tick(10), Heartbeat::Ping));
}

#[test]
fn frames_map_to_steps() {
    let mut c = conn(0);
    assert!(matches!(c.on_frame(Inbound::Binary, 1), InboundStep::Echo));
    assert!(matches!(c.on_frame(Inbound::Close, 1), InboundStep::CloseAndStop));
    assert!(matches!(c.on_frame(Inbound::Continuation, 1), InboundStep::Stop));
    assert!(matches!(c.on_frame(Inbound::Nop, 1), InboundStep::Ignore));
    match c.on_frame(Inbound::Text(None), 1) {
        InboundStep::Reply(e) => assert_eq!(
            e,
            r#"{"event":"error","client":{"uid":"","conn_id":"cU"},"message":"","error":"This message is not in the specified format"}"#
        ),
        _ => panic!("reply expected"),
    }
}

#[test]
fn text_frames_are_forwarded_or_answered() {
    let mut c = conn(0);
    let m = ClientMessage {
        mode: "whisper".to_string(),
        vid: "v1".to_string(),
        conn_id: "cX".to_string(),
        status: "ok".to_string(),
        message: "hi".to_string(),
        attachments: vec![],
    };
    match c.on_frame(Inbound::Text(Some(m.clone())), 2) {
        InboundStep::Forward(f) => {
            assert_eq!(f.id, "cU");
            assert_eq!(f.room_id, "v1");
            assert_eq!(f.msg.message, "hi");
            assert!(matches!(f.mode, Mode::Whisper(ref t) if t == "cX"));
        }
        _ => panic!("forward expected"),
    }
    let mut bad = m;
    bad.mode = "yell".to_string();
    assert!(matches!(c.on_frame(Inbound::Text(Some(bad)), 3), InboundStep::Reply(_)));
}

#[test]
fn deliveries_become_frames() {
    let send = WsMessage { message: "hi".to_string(), id: "c".to_string(), action: Action::Send };
    assert!(matches!(on_delivery(send), Outbound::Text(ref t) if t == "hi"));
    let close = WsMessage {
        message: "bye".to_string(),
        id: "c".to_string(),
        action: Action::Disconnect(CloseCode::Normal),
    };
    assert!(matches!(on_delivery(close), Outbound::Close(CloseCode::Normal, ref t) if t == "bye"));
    let pair = WsMessage { message: "x".to_string(), id: "c".to_string(), action: Action::Pair };
    assert!(matches!(on_delivery(pair), Outbound::Ignore));
}
