use niripip::named::NamedMap;
use niripip::state::{PersistentState, RememberedGeometry, StateError, STATE_SCHEMA_VERSION};

#[test]
fn rejects_unknown_state_schema() {
    let state = PersistentState { schema_version: 3, ..PersistentState::default() };
    let err = state.migrate().expect_err("schema version 3 must be rejected");
    assert!(matches!(err, StateError::UnsupportedSchema { found: 3 }));
}

#[test]
fn migrates_v1_geometry_without_losing_it() {
    let mut profiles = NamedMap::new();
    profiles.insert(
        "chromium-empty-app-id".to_string(),
        RememberedGeometry { width: 1131, height: 636, x_percent: 60_000_000, y_percent: 30_000_000 },
    );
    let state = PersistentState { schema_version: 1, profiles, ..PersistentState::default() };
    let state = state.migrate().expect("v1 should migrate");
    assert_eq!(state.schema_version, STATE_SCHEMA_VERSION);
    assert_eq!(state.profiles.get("chromium-empty-app-id").unwrap().width, 1131, "manual PiP size must survive migration");
    assert_eq!(state.pip_opacity_percent, Some(100));
}

#[test]
fn missing_state_uses_current_schema() {
    let state = PersistentState::default();
    assert_eq!(state.schema_version, STATE_SCHEMA_VERSION);
    assert!(state.profiles.is_empty());
    assert_eq!(state.pip_opacity_percent, Some(100));
}

#[test]
fn v1_without_opacity_becomes_opaque_and_current_state_is_kept() {
    let state = PersistentState { schema_version: 1, pip_opacity_percent: None, ..PersistentState::default() };
    assert_eq!(state.migrate().unwrap().pip_opacity_percent, Some(100));
    let state = PersistentState { pip_opacity_percent: None, ..PersistentState::default() };
    assert_eq!(state.migrate().unwrap().pip_opacity_percent, None);
}

#[test]
fn later_names_replace_earlier_ones() {
    let mut m = NamedMap::new();
    m.insert("a".to_string(), 1u8);
    m.insert("a".to_string(), 2u8);
    assert_eq!(m.get("a"), Some(2));
    m.remove("a");
    assert_eq!(m.get("a"), None);
    assert!(m.is_empty());
}

#[test]
fn state_errors_read_as_messages() {
    assert_eq!(
        StateError::UnsupportedSchema { found: 9 }.message(),
        "unsupported state schema version 9; this build supports versions 1 and 2"
    );
    assert_eq!(
        StateError::Read { path: "/tmp/state.json".to_string(), message: "denied".to_string() }.message(),
        "cannot read state /tmp/state.json: denied"
    );
}
