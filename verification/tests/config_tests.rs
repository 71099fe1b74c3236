use niripip::config::{default_detectors, Config, ConfigError, ConfigIssue, DetectorConfig, RegexField, SizeProfile};

fn detector(name: &str) -> DetectorConfig {
    DetectorConfig { name: name.to_string(), ..DetectorConfig::default() }
}

fn with_detectors(detectors: Vec<DetectorConfig>) -> Config {
    Config { detectors, ..Config::default() }
}

#[test]
fn parses_minimal_config_with_defaults() {
    let mut cfg = Config::default();
    cfg.general.enabled = true;
    assert!(cfg.validate().is_ok());
    assert_eq!(cfg.pip.resolved_size(), (480, 270));
    assert!(cfg.general.auto_detect);
    assert!(!cfg.detectors.is_empty());
}

#[test]
fn rejects_invalid_regex() {
    let mut bad = detector("bad");
    bad.title_regex = Some("(".to_string());
    bad.score = 100;
    let cfg = with_detectors(vec![bad]);
    assert!(cfg.validate().is_err());
    assert!(matches!(
        cfg.first_issue(),
        Some(ConfigIssue::InvalidRegex { field: RegexField::Title, .. })
    ));
}

#[test]
fn rejects_duplicate_detector_names() {
    let mut one = detector("same");
    one.title_regex = Some("one".to_string());
    let mut two = detector("same");
    two.title_regex = Some("two".to_string());
    let cfg = with_detectors(vec![one, two]);
    assert!(cfg.validate().is_err());
    assert!(matches!(cfg.first_issue(), Some(ConfigIssue::DuplicateDetectorName(n)) if n == "same"));
}

#[test]
fn rejects_inverted_size_range() {
    let mut d = detector("bad-range");
    d.title_regex = Some("pip".to_string());
    d.min_width = Some(900);
    d.max_width = Some(400);
    let cfg = with_detectors(vec![d]);
    assert!(matches!(cfg.validate(), Err(ConfigError::Validation(_))));
    assert!(matches!(cfg.first_issue(), Some(ConfigIssue::InvertedWidthRange(_))));
}

#[test]
fn default_config_is_valid_and_has_builtin_detectors() {
    let cfg = Config::default();
    assert!(cfg.first_issue().is_none());
    assert_eq!(default_detectors().len(), cfg.detectors.len());
}

#[test]
fn a_detector_needs_a_constraint() {
    let cfg = with_detectors(vec![detector("empty")]);
    assert!(matches!(cfg.first_issue(), Some(ConfigIssue::NoConstraints(_))));
}

#[test]
fn small_sizes_and_focus_stealing_are_refused() {
    let mut cfg = Config::default();
    cfg.pip.width = 100;
    assert!(cfg.validate().is_ok());
    cfg.pip.profile = SizeProfile::Custom;
    assert!(matches!(cfg.first_issue(), Some(ConfigIssue::SizeTooSmall)));
    let mut cfg = Config::default();
    cfg.pip.steal_focus = true;
    assert!(matches!(cfg.first_issue(), Some(ConfigIssue::StealFocus)));
    let mut cfg = Config::default();
    cfg.general.detection_threshold = -1;
    assert!(matches!(cfg.first_issue(), Some(ConfigIssue::NegativeThreshold)));
}

#[test]
fn config_errors_read_as_messages() {
    assert_eq!(ConfigError::Validation("x".to_string()).message(), "invalid configuration: x");
    assert_eq!(
        ConfigError::Parse { path: "config.toml".to_string(), message: "bad key".to_string() }.message(),
        "invalid TOML in config.toml: bad key"
    );
}
