use niripip::config::Config;
use niripip::detector::DetectorEngine;
use niripip::model::{WindowInfo, WindowLayout};

fn window(app_id: Option<&str>, title: &str, size: (i32, i32)) -> WindowInfo {
    WindowInfo {
        id: 42,
        app_id: app_id.map(str::to_owned),
        title: Some(title.to_owned()),
        layout: WindowLayout {
            window_size: size,
            tile_size: (size.0 as i64 * 1000, size.1 as i64 * 1000),
            ..WindowLayout::empty()
        },
        ..WindowInfo::new(42)
    }
}

#[test]
fn detects_empty_app_id_chromium_pip() {
    let d = DetectorEngine::new(&Config::default()).unwrap();
    let m = d.detect(&window(Some(""), "Picture in picture", (480, 270)), true).unwrap();
    assert_eq!(m.detector, "chromium-empty-app-id");
    assert!(m.score >= 155);
}

#[test]
fn detects_missing_app_id_chromium_pip() {
    let d = DetectorEngine::new(&Config::default()).unwrap();
    let m = d.detect(&window(None, "Picture in picture", (480, 270)), true).unwrap();
    assert_eq!(m.detector, "chromium-empty-app-id");
}

#[test]
fn identified_pip_is_not_rejected_only_for_being_large() {
    let d = DetectorEngine::new(&Config::default()).unwrap();
    let m = d.detect(&window(Some(""), "Picture in picture", (2400, 1350)), true).unwrap();
    assert_eq!(m.detector, "chromium-empty-app-id");
}

#[test]
fn detects_firefox_pip() {
    let d = DetectorEngine::new(&Config::default()).unwrap();
    let m = d.detect(&window(Some("firefox"), "Picture-in-Picture", (480, 270)), true).unwrap();
    assert_eq!(m.detector, "firefox-pip");
}

#[test]
fn rejects_normal_browser_window() {
    let d = DetectorEngine::new(&Config::default()).unwrap();
    assert!(d.detect(&window(Some("google-chrome"), "YouTube - Google Chrome", (1440, 900)), true).is_none());
}

#[test]
fn rejects_oversized_generic_title_false_positive() {
    let d = DetectorEngine::new(&Config::default()).unwrap();
    assert!(d.detect(&window(Some("unknown"), "Picture in picture", (1920, 1080)), true).is_none());
}

#[test]
fn bad_pattern_is_reported_by_detector_engine() {
    let mut cfg = Config::default();
    cfg.detectors[0].title_regex = Some("(".to_string());
    assert!(DetectorEngine::new(&cfg).is_err());
}
