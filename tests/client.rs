use alpadrive::client::ClientMessage;
use alpadrive::json::draft_message;
use alpadrive::messages::Mode;

fn frame(mode: &str, status: &str, conn_id: &str, message: &str) -> ClientMessage {
    ClientMessage {
        mode: mode.to_string(),
        vid: "v1".to_string(),
        conn_id: conn_id.to_string(),
        status: status.to_string(),
        message: message.to_string(),
        attachments: vec![],
    }
}

const MISSING: &str = r#"{"event":"error","client":{"uid":"","conn_id":"c1"},"message":"","error":"Your message is missing one or more parameters required for the given mode"}"#;

#[test]
fn modes_resolve_with_their_fields() {
    assert!(matches!(frame("broadcast", "ok", "", "hi").get_mode(), Ok(Mode::Broadcast)));
    match frame("whisper", "ok", "c9", "hi").get_mode() {
        Ok(Mode::Whisper(t)) => assert_eq!(t, "c9"),
        _ => panic!("whisper expected"),
    }
    assert!(matches!(frame("action", "ok", "c1", "go").get_mode(), Ok(Mode::Action)));
    assert!(matches!(frame("request", "ok", "c1", "speed").get_mode(), Ok(Mode::Request)));
}

#[test]
fn missing_fields_give_error_envelope() {
    assert_eq!(frame("broadcast", "", "c1", "hi").get_mode().unwrap_err(), MISSING);
    assert_eq!(frame("broadcast", "ok", "c1", "").get_mode().unwrap_err(), MISSING);
    assert_eq!(frame("whisper", "ok", "", "hi").get_mode().unwrap_err(),
        r#"{"event":"error","client":{"uid":"","conn_id":""},"message":"","error":"Your message is missing one or more parameters required for the given mode"}"#);
    assert_eq!(frame("action", "", "c1", "go").get_mode().unwrap_err(), MISSING);
    assert_eq!(frame("request", "ok", "c1", "").get_mode().unwrap_err(), MISSING);
}

#[test]
fn unknown_mode_gives_error_envelope() {
    assert_eq!(
        frame("shout", "ok", "c1", "hi").get_mode().unwrap_err(),
        r#"{"event":"error","client":{"uid":"","conn_id":"c1"},"message":"","error":"Your message is missing or has an incorrect mode parameter"}"#
    );
    assert!(frame("", "ok", "c1", "hi").get_mode().is_err());
}

#[test]
fn frame_text_lists_attachments() {
    let mut m = frame("broadcast", "ok", "", "hello");
    assert_eq!(
        m.to_string(),
        r#"{"mode":"broadcast","conn_id":"","vid":"v1","status":"ok","message":"hello","attachments":[]}"#
    );
    m.attachments = vec!["a.png".to_string(), "b \"x\"".to_string()];
    assert_eq!(
        m.to_string(),
        r#"{"mode":"broadcast","conn_id":"","vid":"v1","status":"ok","message":"hello","attachments":["a.png","b \"x\""]}"#
    );
}

#[test]
fn envelope_escapes_its_strings() {
    assert_eq!(
        draft_message("error", "line\nbreak", "say \"no\"", "c1", "u\\1"),
        r#"{"event":"error","client":{"uid":"u\\1","conn_id":"c1"},"message":"line\nbreak","error":"say \"no\""}"#
    );
}
