use niripip::cli::{parse_opacity, version_supported, OnOff, OpacityError};

#[test]
fn accepts_current_niri_version() {
    assert!(version_supported("26.04"));
    assert!(version_supported("niri 26.04 (unknown commit)"));
    assert!(version_supported("26.05"));
}

#[test]
fn rejects_old_or_unknown_version() {
    assert!(!version_supported("0.1.10"));
    assert!(!version_supported("development"));
}

#[test]
fn parses_opacity_auto_and_percentage() {
    assert_eq!(parse_opacity("auto").unwrap(), None);
    assert_eq!(parse_opacity("80%").unwrap(), Some(80));
    assert!(parse_opacity("5").is_err());
}

#[test]
fn version_compares_year_then_month() {
    assert!(version_supported("27.01"));
    assert!(!version_supported("26.03"));
    assert!(!version_supported("25.12"));
    assert!(version_supported("niri 26.4.1"));
    assert!(!version_supported("26"));
    assert!(!version_supported("v26.04 26.x"));
    assert!(!version_supported(""));
    assert!(!version_supported("v1.0 niri 26.10-dev"));
    assert!(version_supported("v1.0 niri 26.10"));
}

#[test]
fn opacity_accepts_inherit_in_any_case_and_bounds() {
    assert_eq!(parse_opacity("INHERIT").unwrap(), None);
    assert_eq!(parse_opacity("Auto").unwrap(), None);
    assert_eq!(parse_opacity("10").unwrap(), Some(10));
    assert_eq!(parse_opacity("100%%").unwrap(), Some(100));
    assert_eq!(parse_opacity("+50").unwrap(), Some(50));
    assert!(matches!(parse_opacity("101"), Err(OpacityError::OutOfRange)));
    assert!(matches!(parse_opacity("9"), Err(OpacityError::OutOfRange)));
}

#[test]
fn opacity_reports_the_refused_text() {
    match parse_opacity("half%") {
        Err(OpacityError::Invalid { value }) => assert_eq!(value, "half"),
        other => panic!("unexpected result: {other:?}"),
    }
    assert!(matches!(parse_opacity("300"), Err(OpacityError::Invalid { .. })));
    assert!(matches!(parse_opacity(""), Err(OpacityError::Invalid { .. })));
}

#[test]
fn on_off_switch() {
    assert!(OnOff::On.enabled());
    assert!(!OnOff::Off.enabled());
}

use niripip::cli::{client_step, playerctl_args, ClientCommand, ClientStep, MediaAction};
use niripip::protocol::DaemonRequest;
use niripip::text::{decimal_string, two_decimals};

#[test]
fn decimal_text_of_integers() {
    assert_eq!(decimal_string(0), "0");
    assert_eq!(decimal_string(4242), "4242");
    assert_eq!(decimal_string(u64::MAX), "18446744073709551615");
}

#[test]
fn volume_fraction_has_two_decimals() {
    assert_eq!(two_decimals(5), "0.05");
    assert_eq!(two_decimals(50), "0.50");
    assert_eq!(two_decimals(100), "1.00");
    assert_eq!(two_decimals(255), "2.55");
}

#[test]
fn playerctl_arguments_for_media_commands() {
    assert_eq!(playerctl_args(MediaAction::Play, None), vec!["play"]);
    assert_eq!(playerctl_args(MediaAction::PlayPause, None), vec!["play-pause"]);
    assert_eq!(
        playerctl_args(MediaAction::Forward { seconds: 10 }, Some("chromium.instance123")),
        vec!["--player", "chromium.instance123", "position", "10+"]
    );
    assert_eq!(playerctl_args(MediaAction::Back { seconds: 30 }, None), vec!["position", "30-"]);
    assert_eq!(playerctl_args(MediaAction::VolumeUp { percent: 5 }, None), vec!["volume", "0.05+"]);
    assert_eq!(playerctl_args(MediaAction::VolumeDown { percent: 20 }, None), vec!["volume", "0.20-"]);
    assert_eq!(
        playerctl_args(MediaAction::Status, None),
        vec!["metadata", "--format", "{{playerName}}  {{status}}  {{artist}} - {{title}}"]
    );
}

#[test]
fn client_commands_become_daemon_requests() {
    assert!(matches!(
        client_step(ClientCommand::Size { width: 640, height: 360, window_id: Some(7) }),
        Ok(ClientStep::Send(DaemonRequest::Resize { window_id: Some(7), width: 640, height: 360 }))
    ));
    assert!(matches!(
        client_step(ClientCommand::Follow { state: OnOff::Off, window_id: None }),
        Ok(ClientStep::Send(DaemonRequest::SetFollow { window_id: None, enabled: false }))
    ));
    assert!(matches!(
        client_step(ClientCommand::Unlock { window_id: Some(3) }),
        Ok(ClientStep::Send(DaemonRequest::SetGeometryLock { window_id: Some(3), locked: false }))
    ));
    assert!(matches!(
        client_step(ClientCommand::Opacity { value: "75%".to_string() }),
        Ok(ClientStep::Send(DaemonRequest::SetOpacity { percent: Some(75) }))
    ));
    assert!(matches!(
        client_step(ClientCommand::Opacity { value: "Auto".to_string() }),
        Ok(ClientStep::Send(DaemonRequest::SetOpacity { percent: None }))
    ));
    assert!(matches!(
        client_step(ClientCommand::Opacity { value: "120".to_string() }),
        Err(OpacityError::OutOfRange)
    ));
    assert!(matches!(client_step(ClientCommand::DaemonStatus), Ok(ClientStep::CheckDaemon)));
    assert!(matches!(client_step(ClientCommand::Doctor), Ok(ClientStep::Doctor)));
    assert!(matches!(client_step(ClientCommand::Menu), Ok(ClientStep::Menu)));
    match client_step(ClientCommand::Media { action: MediaAction::Next, player: Some("mpv".to_string()) }) {
        Ok(ClientStep::Player(args)) => assert_eq!(args, vec!["--player", "mpv", "next"]),
        _ => panic!("media commands run playerctl"),
    }
}

#[test]
fn opacity_errors_read_as_messages() {
    assert_eq!(
        OpacityError::Invalid { value: "abc".to_string() }.message(),
        "invalid opacity 'abc'; use 10-100 or auto"
    );
    assert_eq!(OpacityError::OutOfRange.message(), "opacity must be between 10 and 100 percent, or auto");
}

use niripip::cli::{response_report, status_report, windows_report};
use niripip::config::{FollowMode, Placement};
use niripip::protocol::{MinimizedWindowSnapshot, ResponseData, StatusSnapshot, TrackedWindowSnapshot};

fn shown_window() -> TrackedWindowSnapshot {
    TrackedWindowSnapshot {
        id: 42,
        title: "Picture in picture".to_string(),
        app_id: String::new(),
        mode: "auto-pip".to_string(),
        detector: Some("chromium-empty-app-id".to_string()),
        score: Some(120),
        workspace_id: Some(1),
        origin_workspace_id: None,
        peeking: false,
        width: 480,
        height: 270,
        placement: Placement::BottomRight,
        follow_enabled: true,
        follow_mode: FollowMode::FollowWorkspace,
        geometry_locked: false,
    }
}

#[test]
fn window_list_shows_each_window_on_three_lines() {
    assert_eq!(windows_report(&Vec::new()), "No tracked windows.\n");
    assert_eq!(
        windows_report(&vec![shown_window()]),
        "  #42  Picture in picture\n       480x270  BottomRight  auto-pip\n       workspace 1  follow=on (FollowWorkspace)  lock=off  app-id=<empty>  detector=chromium-empty-app-id\n"
    );
}

#[test]
fn status_shows_daemon_niri_and_windows() {
    let status = StatusSnapshot {
        version: "0.3.1".to_string(),
        daemon_running: true,
        niri_connected: true,
        niri_version: Some("26.04".to_string()),
        enabled: true,
        tracked_count: 0,
        pinned: 0,
        minimized: 0,
        focused_workspace: Some(2),
        opacity_override_percent: None,
        windows: Vec::new(),
    };
    assert_eq!(
        status_report(&status),
        "niri-pip 0.3.1\n\nDaemon        running\nNiri IPC      connected (26.04)\nEnabled       true\nTracked       0\nPinned        0\nPiP opacity   auto/inherit\nWorkspace     #2\n"
    );
}

#[test]
fn answers_are_shown_as_text() {
    assert_eq!(response_report(&ResponseData::Message { message: "window pinned".to_string() }), "window pinned\n");
    let hidden = MinimizedWindowSnapshot {
        id: 9,
        title: "Notes".to_string(),
        app_id: "org.gnome.TextEditor".to_string(),
        origin_workspace_id: Some(1),
        was_floating: false,
    };
    assert_eq!(response_report(&ResponseData::MinimizedWindows { windows: vec![hidden] }), "  #9  Notes\n");
}

use niripip::cli::{doctor_problems, doctor_report, DoctorCheck};

#[test]
fn doctor_report_lists_findings_and_counts_problems() {
    let checks = vec![
        DoctorCheck { name: "IPC connection".to_string(), ok: true, detail: "26.04".to_string() },
        DoctorCheck { name: "daemon socket".to_string(), ok: false, detail: "refused".to_string() },
    ];
    assert_eq!(doctor_problems(&checks), 1);
    assert_eq!(
        doctor_report("0.3.1", &checks),
        format!(
            "niri-pip 0.3.1 doctor\n\n\u{2713} {:<28} 26.04\n\u{2717} {:<28} refused\n\n1 problem found\n",
            "IPC connection", "daemon socket"
        )
    );
    assert_eq!(doctor_report("0.3.1", &Vec::new()), "niri-pip 0.3.1 doctor\n\n\n0 problems found\n");
}
