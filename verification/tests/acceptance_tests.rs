use niripip::config::Config;
use niripip::engine::{Effect, Engine};
use niripip::model::{
    CompositorAction, CompositorEvent, LogicalOutput, OutputInfo, SizeChange, WindowInfo, WindowLayout,
    WorkspaceInfo,
};
use niripip::state::PersistentState;

fn window(id: u64, title: &str, app_id: &str, workspace_id: u64, size: (i32, i32), focused: bool) -> WindowInfo {
    WindowInfo {
        title: Some(title.into()),
        app_id: Some(app_id.into()),
        workspace_id: Some(workspace_id),
        is_focused: focused,
        is_floating: false,
        layout: WindowLayout {
            tile_size: (size.0 as i64 * 1000, size.1 as i64 * 1000),
            window_size: size,
            tile_pos_in_workspace_view: Some((1_100_000, 650_000)),
            ..WindowLayout::empty()
        },
        ..WindowInfo::new(id)
    }
}

fn workspace(id: u64, idx: u8, focused: bool) -> WorkspaceInfo {
    WorkspaceInfo {
        idx,
        output: Some("DP-1".into()),
        is_active: focused,
        is_focused: focused,
        ..WorkspaceInfo::new(id)
    }
}

fn outputs() -> Vec<OutputInfo> {
    vec![OutputInfo {
        name: "DP-1".into(),
        logical: Some(LogicalOutput { x: 0, y: 0, width: 1920, height: 1080, scale_milli: 1000 }),
    }]
}

fn started() -> Engine {
    let mut engine = Engine::new(Config::default(), PersistentState::default()).expect("valid default engine");
    engine.handle_event(CompositorEvent::Connected { version: "26.04".into() });
    engine.handle_event(CompositorEvent::OutputsChanged(outputs()));
    engine.handle_event(CompositorEvent::WorkspacesChanged(vec![workspace(1, 1, true), workspace(2, 2, false)]));
    engine
}

fn apply(applied: &mut Vec<CompositorAction>, effects: Vec<Effect>) {
    for Effect::Action(action) in effects {
        applied.push(action);
    }
}

#[test]
fn mvp_chromium_pip_follow_close_then_generic_pin_unpin() {
    let mut applied = Vec::new();
    let mut engine = started();

    let effects = engine.handle_event(CompositorEvent::WindowOpenedOrChanged(window(
        42,
        "Picture in picture",
        "",
        1,
        (480, 270),
        false,
    )));
    assert!(effects.iter().any(|e| matches!(e, Effect::Action(CompositorAction::MoveWindowToFloating { id: 42 }))));
    assert!(effects.iter().any(|e| matches!(e, Effect::Action(CompositorAction::SetWindowWidth { id: 42, .. }))));
    assert!(!effects.iter().any(|e| matches!(e, Effect::Action(CompositorAction::FocusWindow { id: 42 }))));
    apply(&mut applied, effects);

    engine.handle_event(CompositorEvent::WorkspaceActivated { id: 2, focused: true });
    let follow = engine.reconcile_workspace_follow();
    assert!(follow.iter().any(|e| matches!(
        e,
        Effect::Action(CompositorAction::MoveWindowToWorkspace { window_id: 42, workspace_id: 2, focus: false })
    )));
    apply(&mut applied, follow);

    engine.handle_event(CompositorEvent::WindowClosed { id: 42 });
    assert!(engine.tracked_snapshots().is_empty());

    engine.handle_event(CompositorEvent::WindowOpenedOrChanged(window(7, "shell", "kitty", 2, (900, 700), true)));
    let pin = engine.pin(None).expect("pin focused Kitty");
    assert!(pin.iter().any(|e| matches!(e, Effect::Action(CompositorAction::MoveWindowToFloating { id: 7 }))));
    assert!(!pin.iter().any(|e| matches!(
        e,
        Effect::Action(CompositorAction::SetWindowWidth { id: 7, .. } | CompositorAction::SetWindowHeight { id: 7, .. })
    )));
    apply(&mut applied, pin);

    let unpin = engine.unpin(Some(7)).expect("unpin Kitty");
    assert!(unpin.iter().any(|e| matches!(e, Effect::Action(CompositorAction::MoveWindowToTiling { id: 7 }))));
    apply(&mut applied, unpin);

    assert!(applied.iter().any(|a| matches!(
        a,
        CompositorAction::MoveWindowToWorkspace { window_id: 42, workspace_id: 2, focus: false }
    )));
}

#[test]
fn controller_preserves_free_resize_and_follow_is_runtime_switchable() {
    let mut engine = started();
    engine.handle_event(CompositorEvent::WindowOpenedOrChanged(window(
        42,
        "Picture in picture",
        "",
        1,
        (500, 281),
        false,
    )));

    let resize = engine.resize(Some(42), 1131, 636).expect("free resize");
    assert!(resize.iter().any(|e| matches!(
        e,
        Effect::Action(CompositorAction::SetWindowWidth { id: 42, change: SizeChange::SetFixed(1131) })
    )));
    assert!(resize.iter().any(|e| matches!(
        e,
        Effect::Action(CompositorAction::SetWindowHeight { id: 42, change: SizeChange::SetFixed(636) })
    )));

    engine.set_follow(Some(42), false).expect("disable follow");
    engine.handle_event(CompositorEvent::WorkspaceActivated { id: 2, focused: true });
    assert!(engine.reconcile_workspace_follow().is_empty());

    let follow = engine.set_follow(Some(42), true).expect("enable follow");
    assert!(follow.iter().any(|e| matches!(
        e,
        Effect::Action(CompositorAction::MoveWindowToWorkspace { window_id: 42, workspace_id: 2, focus: false })
    )));

    engine.set_geometry_lock(Some(42), true).expect("lock current PiP geometry");
    let snapshot = engine.status_snapshot();
    let pip = snapshot.windows.iter().find(|w| w.id == 42).unwrap();
    assert!(pip.follow_enabled);
    assert!(pip.geometry_locked);
    assert_eq!(snapshot.opacity_override_percent, Some(100));

    engine.set_geometry_lock(Some(42), false).expect("unlock current PiP geometry");
    assert!(!engine.status_snapshot().windows[0].geometry_locked);
}
