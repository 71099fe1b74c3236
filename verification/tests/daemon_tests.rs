use niripip::config::Config;
use niripip::daemon::{
    daemon_response, event_follow_up, next_backoff, niri_socket_pid, pid_from_socket_name,
    plan_daemon_request, runtime_kdl_body, DaemonStep, RequestOutcome,
};
use niripip::engine::{Engine, EngineError};
use niripip::model::{CompositorEvent, WindowLayout};
use niripip::protocol::{DaemonRequest, DaemonResult, ResponseData, DAEMON_PROTOCOL_VERSION};
use niripip::state::PersistentState;

#[test]
fn parses_pid_scoped_niri_socket_name() {
    assert_eq!(niri_socket_pid("/run/user/1000/niri.wayland-1.4242.sock"), Some(4242));
    assert_eq!(niri_socket_pid("/run/user/1000/niri.sock"), None);
}

#[test]
fn runtime_kdl_supports_fixed_and_auto_opacity() {
    let fixed = runtime_kdl_body(Some(80));
    assert!(fixed.contains("opacity 0.80"));
    let auto = runtime_kdl_body(None);
    assert!(!auto.contains("window-rule"));
}

#[test]
fn runtime_kdl_text_is_exact() {
    assert_eq!(
        runtime_kdl_body(None),
        "// Generated by niri-pip. Opacity mode: auto/inherit.\n"
    );
    assert_eq!(
        runtime_kdl_body(Some(80)),
        "// Generated by niri-pip. Do not edit while niripipd is running.\n\
         // The include is installed separately and can be removed without touching iNiR core files.\n\n\
         window-rule {\n\
         match title=r#\"(?i)^picture(?:[ -]?in[ -]?)picture$\"#\n\
         opacity 0.80\n\
         }\n"
    );
}

#[test]
fn runtime_kdl_writes_two_decimals() {
    assert!(runtime_kdl_body(Some(100)).contains("opacity 1.00\n}"));
    assert!(runtime_kdl_body(Some(5)).contains("opacity 0.05\n"));
    assert!(runtime_kdl_body(Some(95)).contains("window-rule {"));
}

#[test]
fn socket_name_needs_suffix_and_number() {
    assert_eq!(pid_from_socket_name("niri.wayland-1.4242.sock"), Some(4242));
    assert_eq!(pid_from_socket_name("niri.4242"), None);
    assert_eq!(pid_from_socket_name("niri.x.sock"), None);
    assert_eq!(pid_from_socket_name("4242.sock"), None);
    assert_eq!(pid_from_socket_name("a.99999999999.sock"), None);
    assert_eq!(niri_socket_pid("niri.1.7.sock"), Some(7));
}

#[test]
fn reconnect_backoff_doubles_up_to_fifteen_seconds() {
    assert_eq!(next_backoff(250, false), 500);
    assert_eq!(next_backoff(8000, false), 15000);
    assert_eq!(next_backoff(15000, false), 15000);
    assert_eq!(next_backoff(u64::MAX, false), 15000);
    assert_eq!(next_backoff(8000, true), 250);
}

#[test]
fn event_follow_up_refreshes_outputs_and_schedules_follow() {
    let f = event_follow_up(&CompositorEvent::WorkspaceActivated { id: 2, focused: true }, 0);
    assert!(f.schedule_follow && !f.refresh_outputs);
    let f = event_follow_up(&CompositorEvent::WorkspaceActivated { id: 2, focused: false }, 0);
    assert!(!f.schedule_follow);
    let f = event_follow_up(&CompositorEvent::WindowLayoutsChanged(vec![(1, WindowLayout::empty())]), 2000);
    assert!(f.refresh_outputs && !f.schedule_follow);
    let f = event_follow_up(&CompositorEvent::WorkspacesChanged(Vec::new()), 1999);
    assert!(!f.refresh_outputs);
}

fn engine() -> Engine {
    Engine::new(Config::default(), PersistentState::default()).unwrap()
}

#[test]
fn daemon_plans_status_opacity_and_unsupported_requests() {
    let mut e = engine();
    assert!(matches!(
        plan_daemon_request(&mut e, DaemonRequest::Status),
        Ok(DaemonStep::Reply(ResponseData::Status(_)))
    ));
    match plan_daemon_request(&mut e, DaemonRequest::SetOpacity { percent: Some(80) }) {
        Ok(DaemonStep::ApplyWithOpacity { opacity, previous, outcome, .. }) => {
            assert_eq!(opacity, Some(80));
            assert_eq!(previous, Some(100));
            assert_eq!(outcome, RequestOutcome::OpacitySet { percent: Some(80) });
        }
        other => panic!("unexpected plan: {other:?}"),
    }
    assert!(matches!(
        plan_daemon_request(&mut e, DaemonRequest::SetOpacity { percent: Some(5) }),
        Err(EngineError::InvalidOpacity)
    ));
    assert!(matches!(
        plan_daemon_request(&mut e, DaemonRequest::ListMinimized),
        Ok(DaemonStep::Unsupported)
    ));
    assert!(matches!(
        plan_daemon_request(&mut e, DaemonRequest::Pin { window_id: Some(9) }),
        Err(EngineError::WindowNotFound(9))
    ));
    assert!(matches!(
        plan_daemon_request(&mut e, DaemonRequest::ReloadConfig),
        Ok(DaemonStep::ReloadConfig)
    ));
    assert!(matches!(
        plan_daemon_request(&mut e, DaemonRequest::SetEnabled { enabled: false }),
        Ok(DaemonStep::Apply { outcome: RequestOutcome::EnabledSet { enabled: false }, .. })
    ));
    assert!(matches!(
        plan_daemon_request(&mut e, DaemonRequest::Pin { window_id: None }),
        Err(EngineError::Disabled)
    ));
}

#[test]
fn responses_carry_the_protocol_version() {
    let r = daemon_response(DaemonResult::Failure { message: "no".into() });
    assert_eq!(r.protocol_version, DAEMON_PROTOCOL_VERSION);
    assert_eq!(DAEMON_PROTOCOL_VERSION, 4);
}

#[test]
fn reply_messages_name_what_was_done() {
    assert_eq!(RequestOutcome::Pinned.message(), "window pinned");
    assert_eq!(RequestOutcome::Resized { width: 640, height: 360 }.message(), "window resized to 640x360");
    assert_eq!(RequestOutcome::Scaled { percent: 10 }.message(), "window scaled by +10%");
    assert_eq!(RequestOutcome::Scaled { percent: -25 }.message(), "window scaled by -25%");
    assert_eq!(RequestOutcome::Scaled { percent: 0 }.message(), "window scaled by +0%");
    assert_eq!(RequestOutcome::Moved { dx: -5, dy: 7 }.message(), "window moved by x=-5, y=7");
    assert_eq!(
        RequestOutcome::Positioned { placement: niripip::config::Placement::TopRight }.message(),
        "window position set to TopRight"
    );
    assert_eq!(
        RequestOutcome::FollowModeSet { mode: niripip::config::FollowMode::StayOnOutput }.message(),
        "follow mode set to StayOnOutput"
    );
    assert_eq!(RequestOutcome::FollowSet { enabled: false }.message(), "workspace follow disabled");
    assert_eq!(RequestOutcome::GeometryLockSet { locked: true }.message(), "geometry locked");
    assert_eq!(RequestOutcome::OpacitySet { percent: Some(80) }.message(), "PiP opacity set to 80%");
    assert_eq!(RequestOutcome::OpacitySet { percent: None }.message(), "PiP opacity set to auto/inherit");
    assert_eq!(
        RequestOutcome::PresetApplied { preset: niripip::protocol::ControlPreset::Cinema }.message(),
        "preset Cinema applied"
    );
    assert_eq!(RequestOutcome::EnabledSet { enabled: true }.message(), "niri-pip enabled");
}

#[test]
fn engine_errors_read_as_messages() {
    assert_eq!(EngineError::WindowNotFound(42).message(), "window #42 does not exist");
    assert_eq!(EngineError::NotPinned(7).message(), "window #7 is not pinned");
    assert_eq!(
        EngineError::InvalidSize(100, 50).message(),
        "invalid size 100x50; minimum is 120x68 and each dimension must fit Niri IPC i32"
    );
    assert_eq!(EngineError::Disabled.message(), "niri-pip is disabled");
    assert_eq!(
        EngineError::AmbiguousTrackedWindow.message(),
        "more than one tracked window matches; pass --window-id"
    );
    let regex = EngineError::Detector(niripip::detector::DetectorError::Regex {
        name: "custom".to_string(),
        field: niripip::config::RegexField::Title,
        message: "unclosed group".to_string(),
    });
    assert_eq!(regex.message(), "detector 'custom' contains an invalid regex: unclosed group");
}
