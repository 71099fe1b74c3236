use niripip::niri::{event_head, reply_payload, EventKind, NiriIpcError, RealNiriBackend};

#[test]
fn backend_keeps_its_socket_path() {
    let backend = RealNiriBackend::new("/run/user/1000/niri.wayland-1.4242.sock".to_string());
    assert_eq!(backend.socket_path(), "/run/user/1000/niri.wayland-1.4242.sock");
}

#[test]
fn niri_errors_read_as_messages() {
    assert_eq!(NiriIpcError::Remote("boom".to_string()).message(), "Niri IPC returned an error: boom");
    assert_eq!(
        NiriIpcError::Connect { path: "/run/niri.sock".to_string(), message: "refused".to_string() }.message(),
        "cannot connect to Niri IPC socket /run/niri.sock: refused"
    );
    assert_eq!(NiriIpcError::StreamEnded.message(), "Niri event stream ended");
}

#[test]
fn parses_empty_app_id_window_event() {
    let line = r#"{"WindowOpenedOrChanged":{"window":{"id":42,"title":"Picture in picture","app_id":"","pid":123,"workspace_id":3,"is_focused":false,"is_floating":false,"is_urgent":false,"layout":{"pos_in_scrolling_layout":null,"tile_size":[480.0,270.0],"window_size":[480,270],"tile_pos_in_workspace_view":null,"window_offset_in_tile":[0.0,0.0]},"focus_timestamp":null}}}"#;
    let (kind, payload) = event_head(line).expect("valid window event");
    assert_eq!(kind, EventKind::WindowOpenedOrChanged);
    let payload: serde_json::Value = serde_json::from_str(&payload).unwrap();
    assert_eq!(payload["window"]["id"].as_u64(), Some(42));
    assert_eq!(payload["window"]["app_id"].as_str(), Some(""));
    assert_eq!(payload["window"]["title"].as_str(), Some("Picture in picture"));
}

#[test]
fn unknown_event_is_forward_compatible() {
    let (kind, _) = event_head(r#"{"FutureNiriEvent":{"thing":1}}"#).expect("unknown events are valid input");
    assert_eq!(kind, EventKind::Unknown("FutureNiriEvent".into()));
}

#[test]
fn event_lines_that_are_no_single_entry_object_are_refused() {
    assert!(matches!(event_head("not json"), Err(NiriIpcError::Json(_))));
    match event_head("[1,2]") {
        Err(NiriIpcError::Unexpected(m)) => assert_eq!(m, "event is not an object: [1,2]"),
        other => panic!("wrong result: {other:?}"),
    }
    match event_head(r#"{"A":1,"B":2}"#) {
        Err(NiriIpcError::Unexpected(m)) => assert_eq!(m, r#"event must contain one top-level variant: {"A":1,"B":2}"#),
        other => panic!("wrong result: {other:?}"),
    }
}

#[test]
fn replies_give_the_answer_or_the_error() {
    assert_eq!(reply_payload(r#"{"Ok":{"Version":"26.04"}}"#).unwrap(), r#"{"Version":"26.04"}"#);
    match reply_payload(r#"{"Err":"no such window"}"#) {
        Err(NiriIpcError::Remote(m)) => assert_eq!(m, "no such window"),
        other => panic!("wrong result: {other:?}"),
    }
    match reply_payload(r#"{"Err":{"code":1}}"#) {
        Err(NiriIpcError::Remote(m)) => assert_eq!(m, "unknown Niri error"),
        other => panic!("wrong result: {other:?}"),
    }
    match reply_payload(r#"{"Other":1}"#) {
        Err(NiriIpcError::Unexpected(m)) => assert_eq!(m, r#"{"Other":1}"#),
        other => panic!("wrong result: {other:?}"),
    }
    assert!(matches!(reply_payload("{"), Err(NiriIpcError::Json(_))));
}
