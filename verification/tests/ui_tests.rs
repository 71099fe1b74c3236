use niripip::config::{Config, FollowMode};
use niripip::ui::{
    follow_mode_name, include_target, language_choice, normalize_shortcut_bind,
    recommended_shortcuts, settings_assignments, settings_config_text, settings_from_config, settings_opacity_ok,
    settings_window_id, shortcut_status, NiriUiWindow, SettingValue, UiSettings, SETTINGS_TITLE,
};

#[test]
fn shortcut_detection_normalizes_modifiers_and_detects_conflicts() {
    let lines = vec![
        "Super+Alt+M { maximize-window-to-edges; }".to_string(),
        "Mod+Shift+Alt+M repeat=false { spawn \"/usr/bin/niripip\" \"restore-hidden\"; }".to_string(),
    ];

    assert_eq!(shortcut_status("Mod+Alt+M", &["hide", "minimize"], &lines), (false, true));
    assert_eq!(
        shortcut_status("Mod+Alt+Shift+M", &["restore-hidden", "restore-minimized"], &lines),
        (true, false)
    );
}

#[test]
fn include_target_ignores_comments_and_reads_optional_include() {
    assert_eq!(
        include_target(r#"include optional=true "config.d/90-user-extra.kdl""#).as_deref(),
        Some("config.d/90-user-extra.kdl")
    );
    assert_eq!(include_target(r#"// include "ignored.kdl""#), None);
}

#[test]
fn settings_window_selection_prefers_focused_exact_title() {
    let windows = vec![
        NiriUiWindow { id: 10, title: SETTINGS_TITLE.into(), is_focused: false },
        NiriUiWindow { id: 20, title: "Other window".into(), is_focused: true },
        NiriUiWindow { id: 30, title: SETTINGS_TITLE.into(), is_focused: true },
    ];

    assert_eq!(settings_window_id(&windows), Some(30));
}

#[test]
fn settings_window_selection_falls_back_to_exact_title() {
    let windows = vec![
        NiriUiWindow { id: 10, title: SETTINGS_TITLE.into(), is_focused: false },
        NiriUiWindow { id: 20, title: "Other window".into(), is_focused: true },
    ];

    assert_eq!(settings_window_id(&windows), Some(10));
}

#[test]
fn settings_title_and_missing_window() {
    assert_eq!(SETTINGS_TITLE, "niri-pip \u{2014} Settings");
    let windows = vec![NiriUiWindow { id: 1, title: "niri-pip Settings".into(), is_focused: true }];
    assert_eq!(settings_window_id(&windows), None);
}

#[test]
fn binds_are_normalized() {
    assert_eq!(normalize_shortcut_bind("Mod+Shift+Alt+M"), "Super+Alt+Shift+M");
    assert_eq!(normalize_shortcut_bind("Shift+Ctrl+Mod+Space"), "Super+Ctrl+Shift+Space");
    assert_eq!(normalize_shortcut_bind("XF86+Alt++K"), "Alt+XF86+K");
    assert_eq!(normalize_shortcut_bind("Zeta+Alpha+Q"), "Alpha+Zeta+Q");
    assert_eq!(normalize_shortcut_bind("+++"), "+++");
    assert_eq!(normalize_shortcut_bind("M"), "M");
}

#[test]
fn include_target_needs_both_quotes_and_the_keyword() {
    assert_eq!(include_target("  include \"a.kdl\"  ").as_deref(), Some("a.kdl"));
    assert_eq!(include_target("include \"open.kdl"), None);
    assert_eq!(include_target("includes \"a.kdl\""), None);
    assert_eq!(include_target("/-include \"a.kdl\""), None);
}

#[test]
fn commented_binds_are_ignored_and_our_command_needs_quotes() {
    let lines = vec![
        "// Mod+Alt+T { spawn \"niripip\" \"toggle\"; }".to_string(),
        "Mod+Alt+T { spawn \"niripip\" toggle; }".to_string(),
    ];
    assert_eq!(shortcut_status("Mod+Alt+T", &["toggle"], &lines), (false, true));
}

#[test]
fn recommended_shortcuts_report_their_status() {
    let lines = vec!["Mod+Alt+P { spawn \"niripip\" \"ui\"; }".to_string()];
    let shortcuts = recommended_shortcuts(&lines);
    assert_eq!(shortcuts.len(), 6);
    assert_eq!(shortcuts[0].name, "settings");
    assert!(shortcuts[0].installed && !shortcuts[0].conflict);
    assert_eq!(shortcuts[5].command, "niripip unpin");
    assert!(!shortcuts[5].installed);
}

#[test]
fn language_choice_is_trimmed_and_lowercased() {
    assert_eq!(language_choice(" RU\n").as_deref(), Some("ru"));
    assert_eq!(language_choice("auto").as_deref(), Some("auto"));
    assert_eq!(language_choice("de"), None);
}

#[test]
fn settings_map_to_config_keys() {
    let config = Config::default();
    let settings = settings_from_config(&config, None);
    assert_eq!(settings.opacity_percent, 100);
    assert!(settings.prevent_focus_stealing);
    assert!(settings_opacity_ok(&settings));
    let assignments = settings_assignments(&settings);
    assert_eq!(assignments.len(), 9);
    assert_eq!(assignments[5].table, "pip");
    assert_eq!(assignments[5].key, "steal_focus");
    assert!(matches!(assignments[5].value, SettingValue::Flag(false)));
    match &assignments[3].value {
        SettingValue::Text(t) => assert_eq!(t, "follow-workspace"),
        other => panic!("unexpected value {other:?}"),
    }
    assert_eq!(follow_mode_name(FollowMode::StayOnOutput), "stay-on-output");
    let mut low = settings;
    low.opacity_percent = 9;
    assert!(!settings_opacity_ok(&low));
}

#[test]
fn settings_are_written_into_a_blank_file() {
    let settings = settings_from_config(&Config::default(), None);
    let text = settings_config_text("  \n", &settings).unwrap();
    assert!(text.contains("[general]"));
    assert!(text.contains("auto_detect = true"));
    assert!(text.contains("follow_mode = \"follow-workspace\""));
    assert!(text.contains("[minimize]"));
    assert!(text.contains("restore_focus = true"));
    assert!(!text.starts_with("  "));
}

#[test]
fn settings_keep_the_rest_of_the_file() {
    let mut config = Config::default();
    config.general.auto_detect = false;
    let settings = settings_from_config(&config, None);
    let current = "# my config\n[custom]\nx = 1 # keep me\n\n[general]\nauto_detect = true\nother = \"kept\"\n";
    let text = settings_config_text(current, &settings).unwrap();
    assert!(text.starts_with("# my config\n[custom]\nx = 1 # keep me\n"));
    assert!(text.contains("auto_detect = false"));
    assert!(!text.contains("auto_detect = true"));
    assert!(text.contains("other = \"kept\""));
    assert!(text.contains("[pip]"));
}

#[test]
fn settings_refuse_a_file_that_is_not_toml_or_has_no_section_table() {
    let settings = settings_from_config(&Config::default(), None);
    assert!(settings_config_text("[[[", &settings).is_err());
    assert!(settings_config_text("general = 5\n", &settings).is_err());
    assert_eq!(
        settings_config_text("[[[", &settings).unwrap_err().message(),
        "parsing config.toml for settings update"
    );
}

fn ui_settings() -> UiSettings {
    UiSettings {
        auto_detect: true,
        remember_geometry: true,
        follow_workspace: true,
        follow_mode: FollowMode::FollowWorkspace,
        restore_layout_on_unpin: true,
        prevent_focus_stealing: true,
        preserve_aspect_ratio: true,
        minimize_enabled: true,
        minimize_restore_focus: true,
        opacity_percent: 95,
    }
}

#[test]
fn settings_writer_preserves_unrelated_sections() {
    let mut changed = ui_settings();
    changed.minimize_enabled = false;
    changed.minimize_restore_focus = false;
    let raw = settings_config_text("[general]\nenabled = false\n\n[logging]\nlevel = \"debug\"\n", &changed).unwrap();
    let parsed: toml::Table = raw.parse().unwrap();
    assert_eq!(parsed["general"]["enabled"].as_bool(), Some(false));
    assert_eq!(parsed["logging"]["level"].as_str(), Some("debug"));
    assert_eq!(parsed["general"]["remember_geometry"].as_bool(), Some(true));
    assert_eq!(parsed["pip"]["steal_focus"].as_bool(), Some(false));
    assert_eq!(parsed["minimize"]["enabled"].as_bool(), Some(false));
    assert_eq!(parsed["minimize"]["restore_focus"].as_bool(), Some(false));
    assert!(raw.contains("[minimize]"));
    assert!(raw.contains("enabled = false"));
    assert!(raw.contains("restore_focus = false"));
}

#[test]
fn settings_writer_produces_valid_config() {
    let mut valid = ui_settings();
    valid.follow_mode = FollowMode::FollowWorkspace;
    let raw = settings_config_text("[general]\nenabled = true\n", &valid).unwrap();
    let parsed: toml::Table = raw.parse().unwrap();
    assert_eq!(parsed["general"]["follow_mode"].as_str(), Some("follow-workspace"));
    assert_eq!(parsed["general"]["enabled"].as_bool(), Some(true));
}
