use niripip::config::{Config, Placement};
use niripip::engine::{Effect, Engine, EngineError};
use niripip::model::{
    CompositorAction, CompositorEvent, LogicalOutput, OutputInfo, PositionChange, SizeChange, WindowInfo, WindowLayout,
    WorkspaceInfo,
};
use niripip::protocol::ControlPreset;
use niripip::state::{PersistentState, RememberedControls, RememberedGeometry};

fn engine_with(persistent: PersistentState) -> Engine {
    let mut engine = Engine::new(Config::default(), persistent).unwrap();
    engine.handle_event_at(
        CompositorEvent::OutputsChanged(vec![OutputInfo {
            name: "eDP-1".into(),
            logical: Some(LogicalOutput { x: 0, y: 0, width: 1920, height: 1080, scale_milli: 1000 }),
        }]),
        0,
    );
    engine.handle_event_at(
        CompositorEvent::WorkspacesChanged(vec![
            WorkspaceInfo {
                idx: 1,
                output: Some("eDP-1".into()),
                is_active: true,
                is_focused: true,
                ..WorkspaceInfo::new(1)
            },
            WorkspaceInfo { idx: 2, output: Some("eDP-1".into()), ..WorkspaceInfo::new(2) },
        ]),
        0,
    );
    engine
}

fn engine() -> Engine {
    engine_with(PersistentState::default())
}

fn pip(id: u64, workspace: u64) -> WindowInfo {
    WindowInfo {
        title: Some("Picture in picture".into()),
        app_id: Some("".into()),
        workspace_id: Some(workspace),
        layout: WindowLayout {
            window_size: (500, 281),
            tile_size: (500_000, 281_000),
            tile_pos_in_workspace_view: Some((1_200_000, 700_000)),
            ..WindowLayout::empty()
        },
        ..WindowInfo::new(id)
    }
}

fn has(effects: &[Effect], f: impl Fn(&CompositorAction) -> bool) -> bool {
    effects.iter().any(|Effect::Action(a)| f(a))
}

fn stale_profile() -> PersistentState {
    let mut persistent = PersistentState::default();
    persistent.profiles.insert(
        "chromium-empty-app-id".into(),
        RememberedGeometry { width: 994, height: 600, x_percent: 80_000_000, y_percent: 70_000_000 },
    );
    persistent
}

fn kitty(tile_pos: Option<(i64, i64)>) -> WindowInfo {
    WindowInfo {
        title: Some("shell".into()),
        app_id: Some("kitty".into()),
        workspace_id: Some(1),
        is_focused: true,
        layout: WindowLayout {
            window_size: (900, 700),
            tile_size: (900_000, 700_000),
            tile_pos_in_workspace_view: tile_pos,
            ..WindowLayout::empty()
        },
        ..WindowInfo::new(7)
    }
}

#[test]
fn auto_pip_emits_float_resize_and_place() {
    let mut engine = engine();
    let effects = engine.handle_event(CompositorEvent::WindowOpenedOrChanged(pip(42, 1)));
    assert!(has(&effects, |a| matches!(a, CompositorAction::MoveWindowToFloating { id: 42 })));
    assert!(has(&effects, |a| matches!(a, CompositorAction::SetWindowWidth { id: 42, .. })));
    assert!(has(&effects, |a| matches!(a, CompositorAction::MoveFloatingWindow { id: 42, .. })));
}

#[test]
fn workspace_follow_uses_focus_false_and_deduplicates() {
    let mut engine = engine();
    engine.handle_event(CompositorEvent::WindowOpenedOrChanged(pip(42, 1)));
    engine.handle_event(CompositorEvent::WorkspaceActivated { id: 2, focused: true });
    let first = engine.reconcile_workspace_follow();
    assert!(has(&first, |a| matches!(
        a,
        CompositorAction::MoveWindowToWorkspace { window_id: 42, workspace_id: 2, focus: false }
    )));
    let duplicate = engine.reconcile_workspace_follow();
    assert!(!has(&duplicate, |a| matches!(a, CompositorAction::MoveWindowToWorkspace { .. })));
}

#[test]
fn follow_can_be_disabled_per_window() {
    let mut engine = engine();
    engine.handle_event(CompositorEvent::WindowOpenedOrChanged(pip(42, 1)));
    engine.set_follow(Some(42), false).unwrap();
    engine.handle_event(CompositorEvent::WorkspaceActivated { id: 2, focused: true });
    assert!(engine.reconcile_workspace_follow().is_empty());
}

#[test]
fn startup_snapshot_adopts_live_manual_geometry_over_stale_profile() {
    let mut engine = engine_with(stale_profile());
    let mut live = pip(42, 1);
    live.is_floating = true;
    live.layout.window_size = (782, 419);
    live.layout.tile_size = (782_000, 419_000);
    live.layout.tile_pos_in_workspace_view = Some((1_010_000, 520_000));

    let effects = engine.handle_event(CompositorEvent::WindowsChanged(vec![live]));

    assert!(!has(&effects, |a| matches!(
        a,
        CompositorAction::SetWindowWidth { id: 42, .. } | CompositorAction::SetWindowHeight { id: 42, .. }
    )));
    assert!(!has(&effects, |a| matches!(a, CompositorAction::MoveFloatingWindow { id: 42, .. })));
    assert_eq!(engine.desired_size(42), (782, 419));
    let remembered = engine.persistent().profiles.get("chromium-empty-app-id").unwrap();
    assert_eq!((remembered.width, remembered.height), (782, 419));
}

#[test]
fn startup_snapshot_still_enforces_explicit_geometry_lock() {
    let mut persistent = stale_profile();
    persistent.controls.insert(
        "chromium-empty-app-id".into(),
        RememberedControls { geometry_locked: true, ..RememberedControls::default() },
    );
    let mut engine = engine_with(persistent);

    let mut live = pip(42, 1);
    live.is_floating = true;
    live.layout.window_size = (782, 419);
    live.layout.tile_size = (782_000, 419_000);

    let effects = engine.handle_event(CompositorEvent::WindowsChanged(vec![live]));
    assert!(has(&effects, |a| matches!(
        a,
        CompositorAction::SetWindowWidth { id: 42, change: SizeChange::SetFixed(994) }
    )));
    assert!(has(&effects, |a| matches!(
        a,
        CompositorAction::SetWindowHeight { id: 42, change: SizeChange::SetFixed(600) }
    )));
}

#[test]
fn manual_resize_is_persisted_for_auto_pip() {
    let mut engine = engine();
    engine.handle_event(CompositorEvent::WindowOpenedOrChanged(pip(42, 1)));
    let effects = engine.resize(Some(42), 1131, 636).unwrap();
    assert!(has(&effects, |a| matches!(
        a,
        CompositorAction::SetWindowWidth { id: 42, change: SizeChange::SetFixed(1131) }
    )));
    assert_eq!(engine.persistent().profiles.get("chromium-empty-app-id").unwrap().width, 1131);
    assert_eq!(engine.persistent().profiles.get("chromium-empty-app-id").unwrap().height, 636);
}

#[test]
fn relative_scale_uses_the_current_free_form_size() {
    let mut engine = engine();
    engine.handle_event(CompositorEvent::WindowOpenedOrChanged(pip(42, 1)));
    engine.resize(Some(42), 1131, 636).unwrap();
    let effects = engine.scale(Some(42), 10).unwrap();
    assert!(has(&effects, |a| matches!(
        a,
        CompositorAction::SetWindowWidth { id: 42, change: SizeChange::SetFixed(1244) }
    )));
    assert!(has(&effects, |a| matches!(
        a,
        CompositorAction::SetWindowHeight { id: 42, change: SizeChange::SetFixed(700) }
    )));
}

#[test]
fn position_preset_updates_remembered_coordinates_without_losing_size() {
    let mut engine = engine();
    engine.handle_event(CompositorEvent::WindowOpenedOrChanged(pip(42, 1)));
    engine.resize(Some(42), 1131, 636).unwrap();
    let effects = engine.set_position(Some(42), Placement::TopLeft).unwrap();
    assert!(has(&effects, |a| matches!(a, CompositorAction::MoveFloatingWindow { id: 42, .. })));
    let remembered = engine.persistent().profiles.get("chromium-empty-app-id").unwrap();
    assert_eq!((remembered.width, remembered.height), (1131, 636));
}

#[test]
fn geometry_lock_reapplies_changed_size() {
    let mut engine = engine();
    engine.handle_event_at(CompositorEvent::WindowOpenedOrChanged(pip(42, 1)), 0);
    engine.set_geometry_lock(Some(42), true).unwrap();
    let effects = engine.handle_event_at(
        CompositorEvent::WindowLayoutsChanged(vec![(
            42,
            WindowLayout {
                window_size: (800, 450),
                tile_size: (800_000, 450_000),
                tile_pos_in_workspace_view: Some((900_000, 500_000)),
                ..WindowLayout::empty()
            },
        )]),
        10_000,
    );
    assert!(has(&effects, |a| matches!(a, CompositorAction::SetWindowWidth { id: 42, .. })));
}

#[test]
fn manual_pin_does_not_resize_kitty_and_unpin_restores_tiling() {
    let mut engine = engine();
    engine.handle_event(CompositorEvent::WindowOpenedOrChanged(kitty(None)));
    let pin = engine.pin(None).unwrap();
    assert!(has(&pin, |a| matches!(a, CompositorAction::MoveWindowToFloating { id: 7 })));
    assert!(!has(&pin, |a| matches!(a, CompositorAction::SetWindowWidth { .. })));
    let unpin = engine.unpin(Some(7)).unwrap();
    assert!(has(&unpin, |a| matches!(a, CompositorAction::MoveWindowToTiling { id: 7 })));
}

#[test]
fn unpin_returns_window_to_its_origin_workspace_mode_and_size() {
    let mut engine = engine();
    engine.handle_event_at(CompositorEvent::WindowOpenedOrChanged(kitty(None)), 0);
    engine.pin_at(None, 0).unwrap();
    let mut moved = kitty(None);
    moved.workspace_id = Some(2);
    moved.is_floating = true;
    moved.layout.window_size = (400, 300);
    engine.handle_event_at(CompositorEvent::WindowOpenedOrChanged(moved), 5_000);
    let unpin = engine.unpin(Some(7)).unwrap();
    assert_eq!(
        unpin,
        vec![
            Effect::Action(CompositorAction::MoveWindowToWorkspace { window_id: 7, workspace_id: 1, focus: false }),
            Effect::Action(CompositorAction::MoveWindowToTiling { id: 7 }),
            Effect::Action(CompositorAction::SetWindowWidth { id: 7, change: SizeChange::SetFixed(900) }),
            Effect::Action(CompositorAction::SetWindowHeight { id: 7, change: SizeChange::SetFixed(700) }),
        ]
    );
}

#[test]
fn unpin_right_after_pin_only_restores_tiling() {
    let mut engine = engine();
    engine.handle_event_at(CompositorEvent::WindowOpenedOrChanged(kitty(None)), 0);
    engine.pin_at(Some(7), 0).unwrap();
    let unpin = engine.unpin(Some(7)).unwrap();
    assert_eq!(unpin, vec![Effect::Action(CompositorAction::MoveWindowToTiling { id: 7 })]);
}

#[test]
fn unpin_puts_a_floating_window_back_at_its_captured_position() {
    let mut engine = engine();
    let mut floating = kitty(Some((960_000, 540_000)));
    floating.is_floating = true;
    engine.handle_event_at(CompositorEvent::WindowOpenedOrChanged(floating), 0);
    engine.pin_at(Some(7), 0).unwrap();
    let unpin = engine.unpin(Some(7)).unwrap();
    assert_eq!(
        unpin,
        vec![Effect::Action(CompositorAction::MoveFloatingWindow {
            id: 7,
            x: PositionChange::SetProportion(50_000_000),
            y: PositionChange::SetProportion(50_000_000),
        })]
    );
}

#[test]
fn preset_resizes_then_follows_and_places() {
    let mut engine = engine();
    engine.handle_event_at(CompositorEvent::WindowOpenedOrChanged(kitty(Some((200_000, 100_000)))), 0);
    engine.pin_at(Some(7), 0).unwrap();
    engine.set_follow_at(Some(7), false, 0).unwrap();
    let application = engine.apply_preset_at(Some(7), ControlPreset::Study, 10).unwrap();
    assert_eq!(
        application.effects[0],
        Effect::Action(CompositorAction::SetWindowWidth { id: 7, change: SizeChange::SetFixed(560) })
    );
    assert_eq!(
        application.effects[1],
        Effect::Action(CompositorAction::SetWindowHeight { id: 7, change: SizeChange::SetFixed(315) })
    );
    let snapshot = &engine.tracked_snapshots()[0];
    assert!(snapshot.follow_enabled);
    assert_eq!(snapshot.placement, Placement::TopRight);
    assert_eq!(snapshot.origin_workspace_id, Some(1));
}

#[test]
fn refused_opacity_changes_nothing() {
    let mut engine = engine();
    engine.set_opacity_override_percent(Some(80)).unwrap();
    assert!(engine.take_persistent_if_dirty().is_some());
    assert!(matches!(engine.set_opacity_override_percent(Some(5)), Err(EngineError::InvalidOpacity)));
    assert_eq!(engine.opacity_override_percent(), Some(80));
    assert!(engine.take_persistent_if_dirty().is_none());
    engine.set_opacity_override_percent(Some(80)).unwrap();
    assert!(engine.take_persistent_if_dirty().is_none());
}

#[test]
fn unpin_of_unmanaged_window_is_refused() {
    let mut engine = engine();
    engine.handle_event_at(CompositorEvent::WindowOpenedOrChanged(kitty(None)), 0);
    assert!(matches!(engine.unpin(Some(7)), Err(EngineError::NotPinned(7))));
}

#[test]
fn close_removes_stale_tracked_window() {
    let mut engine = engine();
    engine.handle_event(CompositorEvent::WindowOpenedOrChanged(pip(42, 1)));
    assert_eq!(engine.status_snapshot().tracked_count, 1);
    engine.handle_event(CompositorEvent::WindowClosed { id: 42 });
    assert_eq!(engine.status_snapshot().tracked_count, 0);
}

#[test]
fn late_metadata_can_classify_pip() {
    let mut engine = engine();
    let mut pending = pip(42, 1);
    pending.title = None;
    assert!(engine.handle_event(CompositorEvent::WindowOpenedOrChanged(pending.clone())).is_empty());
    pending.title = Some("Picture in picture".into());
    let effects = engine.handle_event(CompositorEvent::WindowOpenedOrChanged(pending));
    assert!(has(&effects, |a| matches!(a, CompositorAction::MoveWindowToFloating { id: 42 })));
}

#[test]
fn restores_previous_focus_when_new_pip_stole_focus() {
    let mut engine = engine();
    engine.handle_event(CompositorEvent::WindowOpenedOrChanged(WindowInfo {
        title: Some("editor".into()),
        app_id: Some("code".into()),
        workspace_id: Some(1),
        is_focused: true,
        ..WindowInfo::new(7)
    }));
    let mut video = pip(42, 1);
    video.is_focused = true;
    let effects = engine.handle_event(CompositorEvent::WindowOpenedOrChanged(video));
    assert!(has(&effects, |a| matches!(a, CompositorAction::FocusWindow { id: 7 })));
}

#[test]
fn opacity_auto_and_fixed_are_persisted() {
    let mut engine = engine();
    engine.set_opacity_override_percent(Some(80)).unwrap();
    assert_eq!(engine.opacity_override_percent(), Some(80));
    engine.set_opacity_override_percent(None).unwrap();
    assert_eq!(engine.opacity_override_percent(), None);
}

#[test]
fn manual_pin_preset_does_not_change_browser_pip_opacity_policy() {
    let mut engine = engine();
    engine.set_opacity_override_percent(Some(80)).unwrap();
    engine.handle_event(CompositorEvent::WindowOpenedOrChanged(kitty(Some((200_000, 100_000)))));
    engine.pin(Some(7)).unwrap();
    let application = engine.apply_preset(Some(7), ControlPreset::Small).unwrap();
    assert_eq!(application.opacity_percent, Some(80));
    assert_eq!(engine.opacity_override_percent(), Some(80));
}

#[test]
fn transient_disconnect_preserves_tracking_until_authoritative_snapshot() {
    let mut engine = engine();
    engine.handle_event(CompositorEvent::WindowOpenedOrChanged(pip(42, 1)));
    engine.handle_event(CompositorEvent::Disconnected { reason: "test".into() });
    assert_eq!(engine.status_snapshot().tracked_count, 1);
    assert!(!engine.status_snapshot().niri_connected);
    engine.handle_event(CompositorEvent::WindowsChanged(Vec::new()));
    assert!(engine.tracked_snapshots().is_empty());
}

#[test]
fn follow_move_is_asked_once_within_a_second() {
    let mut engine = engine();
    engine.handle_event_at(CompositorEvent::WindowOpenedOrChanged(pip(42, 1)), 0);
    engine.handle_event_at(CompositorEvent::WorkspaceActivated { id: 2, focused: true }, 5);
    let first = engine.reconcile_workspace_follow_at(10);
    assert_eq!(first.len(), 2);
    assert!(engine.reconcile_workspace_follow_at(1009).is_empty());
    let again = engine.reconcile_workspace_follow_at(1010);
    assert!(has(&again, |a| matches!(a, CompositorAction::MoveWindowToWorkspace { window_id: 42, .. })));
}

#[test]
fn command_targets_and_errors() {
    let mut engine = engine();
    assert!(matches!(engine.unpin(None), Err(EngineError::NoTrackedWindow)));
    assert!(matches!(engine.resize(Some(1), 100, 100), Err(EngineError::InvalidSize(100, 100))));
    assert!(matches!(engine.resize(Some(1), 300, 200), Err(EngineError::NotPinned(1))));
    assert!(matches!(engine.pin(None), Err(EngineError::NoFocusedWindow)));
    engine.handle_event(CompositorEvent::WindowOpenedOrChanged(pip(42, 1)));
    engine.handle_event(CompositorEvent::WindowOpenedOrChanged(pip(43, 1)));
    assert!(matches!(engine.set_position(None, Placement::TopLeft), Err(EngineError::AmbiguousTrackedWindow)));
    assert!(matches!(engine.scale(Some(42), -100), Err(EngineError::InvalidScale)));
    assert!(matches!(engine.scale(Some(42), -90), Err(EngineError::InvalidScale)));
    assert!(matches!(engine.set_opacity_override_percent(Some(9)), Err(EngineError::InvalidOpacity)));
    engine.set_enabled(false);
    assert!(matches!(engine.pin(Some(42)), Err(EngineError::Disabled)));
}

#[test]
fn toggle_pins_then_unpins() {
    let mut engine = engine();
    engine.handle_event(CompositorEvent::WindowOpenedOrChanged(kitty(None)));
    engine.toggle(Some(7)).unwrap();
    assert_eq!(engine.tracked_snapshots().len(), 1);
    assert_eq!(engine.tracked_snapshots()[0].mode, "manual-pin");
    engine.toggle(Some(7)).unwrap();
    assert!(engine.tracked_snapshots().is_empty());
}

#[test]
fn nudge_moves_by_pixels_and_remembers_position() {
    let mut engine = engine();
    engine.handle_event(CompositorEvent::WindowOpenedOrChanged(pip(42, 1)));
    let effects = engine.nudge(Some(42), -20, 0).unwrap();
    assert_eq!(effects.len(), 1);
    assert!(matches!(
        effects[0],
        Effect::Action(CompositorAction::MoveFloatingWindow {
            id: 42,
            x: niripip::model::PositionChange::AdjustFixed(-20_000),
            y: niripip::model::PositionChange::AdjustFixed(0),
        })
    ));
    assert!(engine.nudge(Some(42), 0, 0).unwrap().is_empty());
}

#[test]
fn status_lists_windows_by_id() {
    let mut engine = engine();
    engine.handle_event(CompositorEvent::WindowOpenedOrChanged(pip(43, 1)));
    engine.handle_event(CompositorEvent::WindowOpenedOrChanged(pip(42, 1)));
    let status = engine.status_snapshot();
    assert_eq!(status.version, "0.3.1");
    assert_eq!(status.windows.len(), 2);
    assert_eq!(status.windows[0].id, 42);
    assert_eq!(status.windows[1].id, 43);
    assert_eq!(status.windows[0].mode, "auto-pip");
    assert_eq!(status.windows[0].detector.as_deref(), Some("chromium-empty-app-id"));
}

#[test]
fn take_persistent_hands_out_changes_once() {
    let mut engine = engine();
    assert!(engine.take_persistent_if_dirty().is_none());
    engine.set_opacity_override_percent(Some(50)).unwrap();
    let state = engine.take_persistent_if_dirty().unwrap();
    assert_eq!(state.pip_opacity_percent, Some(50));
    assert!(engine.take_persistent_if_dirty().is_none());
}

#[test]
fn reset_geometry_forgets_detector_memory() {
    let mut engine = engine();
    engine.handle_event(CompositorEvent::WindowOpenedOrChanged(pip(42, 1)));
    engine.resize(Some(42), 1131, 636).unwrap();
    let effects = engine.reset_geometry(Some(42)).unwrap();
    assert!(has(&effects, |a| matches!(a, CompositorAction::SetWindowWidth { id: 42, change: SizeChange::SetFixed(480) })));
    let remembered = engine.persistent().profiles.get("chromium-empty-app-id").unwrap();
    assert_eq!((remembered.width, remembered.height), (480, 270));
}

#[test]
fn preset_on_auto_pip_sets_its_opacity() {
    let mut engine = engine();
    engine.handle_event(CompositorEvent::WindowOpenedOrChanged(pip(42, 1)));
    let application = engine.apply_preset(Some(42), ControlPreset::Study).unwrap();
    assert_eq!(application.opacity_percent, Some(95));
    assert!(application.effects.iter().any(|Effect::Action(a)| matches!(
        a,
        CompositorAction::SetWindowWidth { id: 42, change: SizeChange::SetFixed(560) }
    )));
}

#[test]
fn disabled_engine_leaves_new_pip_alone() {
    let mut engine = engine();
    engine.set_enabled(false);
    let effects = engine.handle_event(CompositorEvent::WindowOpenedOrChanged(pip(42, 1)));
    assert!(effects.is_empty());
    assert!(engine.tracked_snapshots().is_empty());
}

#[test]
fn ordinary_window_is_not_managed() {
    let mut engine = engine();
    let effects = engine.handle_event(CompositorEvent::WindowOpenedOrChanged(kitty(Some((0, 0)))));
    assert!(effects.is_empty());
    assert!(engine.tracked_snapshots().is_empty());
}

#[test]
fn detected_pip_is_tracked_as_auto_pip_of_its_detector() {
    let mut engine = engine();
    engine.handle_event(CompositorEvent::WindowOpenedOrChanged(pip(42, 1)));
    let managed = engine.tracked_snapshots();
    assert_eq!(managed.len(), 1);
    assert_eq!(managed[0].id, 42);
    assert_eq!(managed[0].detector.as_deref(), Some("chromium-empty-app-id"));
}

#[test]
fn unchanged_outputs_ask_for_nothing() {
    let mut engine = engine();
    engine.handle_event(CompositorEvent::WindowOpenedOrChanged(pip(42, 1)));
    let effects = engine.handle_event(CompositorEvent::OutputsChanged(vec![OutputInfo {
        name: "eDP-1".into(),
        logical: Some(LogicalOutput { x: 0, y: 0, width: 1920, height: 1080, scale_milli: 1000 }),
    }]));
    assert!(effects.is_empty());
}

#[test]
fn changed_outputs_place_auto_pip_again() {
    let mut engine = engine();
    engine.handle_event(CompositorEvent::WindowOpenedOrChanged(pip(42, 1)));
    let effects = engine.handle_event(CompositorEvent::OutputsChanged(vec![OutputInfo {
        name: "eDP-1".into(),
        logical: Some(LogicalOutput { x: 0, y: 0, width: 2560, height: 1440, scale_milli: 1000 }),
    }]));
    assert_eq!(effects.len(), 1);
    assert!(has(&effects, |a| matches!(a, CompositorAction::MoveFloatingWindow { id: 42, .. })));
}
