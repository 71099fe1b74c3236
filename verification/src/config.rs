//! The configuration: its types, built-in defaults, and its validation.
use vstd::prelude::*;
use crate::pattern::{check_pattern, regex_compiles};
use crate::text::{chars_of, push_str, trim_chars, trim_seq};
use vstd::string::StringExecFns;

verus! {

/// A corner of the output, or its centre.
#[derive(Debug, Clone, Copy, PartialEq, Eq, Structural)]
pub enum Placement {
    TopLeft,
    TopRight,
    BottomLeft,
    BottomRight,
    Center,
}

/// Where PiP windows go: to their configured corner, or where they were last left.
#[derive(Debug, Clone, Copy, PartialEq, Eq, Structural)]
pub enum PositionMode {
    Fixed,
    Remember,
}

/// How a window follows the user across workspaces and outputs.
#[derive(Debug, Clone, Copy, PartialEq, Eq, Structural)]
pub enum FollowMode {
    FollowWorkspace,
    FollowFocusedOutput,
    StayOnOutput,
}

/// A named PiP size, or a custom one.
#[derive(Debug, Clone, Copy, PartialEq, Eq, Structural)]
pub enum SizeProfile {
    Tiny,
    Small,
    Medium,
    Large,
    Cinema,
    Custom,
}

/// What a matching detector does with a window.
#[derive(Debug, Clone, Copy, PartialEq, Eq, Structural)]
pub enum DetectionAction {
    Pip,
    Ignore,
}

/// The general settings: detection, following, remembering and timing.
#[derive(Debug, Clone)]
pub struct GeneralConfig {
    pub enabled: bool,
    pub auto_detect: bool,
    pub follow_workspace: bool,
    pub follow_mode: FollowMode,
    pub remember_geometry: bool,
    pub detection_threshold: i32,
    pub restore_layout_on_unpin: bool,
    pub action_suppression_ms: u64,
    pub workspace_debounce_ms: u64,
    pub focus_restore_window_ms: u64,
}

/// How PiP windows are sized and placed.
#[derive(Debug, Clone)]
pub struct PipConfig {
    pub position: Placement,
    pub position_mode: PositionMode,
    pub width: u32,
    pub height: u32,
    pub gap: u32,
    pub steal_focus: bool,
    pub preserve_aspect_ratio: bool,
    pub profile: SizeProfile,
}

/// Space kept free at each edge of the output, in logical pixels.
#[derive(Debug, Clone, Copy, PartialEq, Eq)]
pub struct Margins {
    pub top: u32,
    pub right: u32,
    pub bottom: u32,
    pub left: u32,
}

/// Which built-in browser detectors are enabled.
#[derive(Debug, Clone)]
pub struct BrowserConfig {
    pub chromium: bool,
    pub firefox: bool,
    pub brave: bool,
    pub vivaldi: bool,
    pub edge: bool,
}

/// A detector: the rules that recognise a kind of window, and its score.
#[derive(Debug, Clone)]
pub struct DetectorConfig {
    pub name: String,
    pub enabled: bool,
    pub action: DetectionAction,
    pub title_regex: Option<String>,
    pub app_id_regex: Option<String>,
    pub exclude_title_regex: Option<String>,
    pub exclude_app_id_regex: Option<String>,
    pub min_width: Option<u32>,
    pub max_width: Option<u32>,
    pub min_height: Option<u32>,
    pub max_height: Option<u32>,
    pub floating: Option<bool>,
    pub score: i32,
    pub compact_bonus: i32,
    pub aspect_16_9_bonus: i32,
    pub empty_app_id_bonus: i32,
    pub pid_present_bonus: i32,
    pub new_window_bonus: i32,
}

/// The logging settings.
#[derive(Debug, Clone)]
pub struct LoggingConfig {
    pub level: String,
}

/// The whole configuration.
#[derive(Debug, Clone)]
pub struct Config {
    pub general: GeneralConfig,
    pub pip: PipConfig,
    pub margins: Margins,
    pub browsers: BrowserConfig,
    pub detectors: Vec<DetectorConfig>,
    pub logging: LoggingConfig,
}

/// Why a configuration could not be used.
#[derive(Debug, Clone)]
pub enum ConfigError {
    /// The file could not be read.
    Read { path: String, message: String },
    /// The file is not valid TOML for this configuration.
    Parse { path: String, message: String },
    /// The values break a rule of the configuration.
    Validation(String),
}

/// The text that reports a configuration error.
pub open spec fn config_error_text(e: ConfigError) -> Seq<char> {
    match e {
        ConfigError::Read { path, message } => "cannot read config "@ + path@ + ": "@ + message@,
        ConfigError::Parse { path, message } => "invalid TOML in "@ + path@ + ": "@ + message@,
        ConfigError::Validation(message) => "invalid configuration: "@ + message@,
    }
}

impl ConfigError {
    /// The text that reports the error.
    pub fn message(&self) -> (r: String)
        ensures
            r@ == config_error_text(*self),
    {
        match self {
            ConfigError::Read { path, message } => {
                let mut r = "cannot read config ".to_owned();
                push_str(&mut r, path.as_str());
                push_str(&mut r, ": ");
                push_str(&mut r, message.as_str());
                r
            },
            ConfigError::Parse { path, message } => {
                let mut r = "invalid TOML in ".to_owned();
                push_str(&mut r, path.as_str());
                push_str(&mut r, ": ");
                push_str(&mut r, message.as_str());
                r
            },
            ConfigError::Validation(message) => {
                let mut r = "invalid configuration: ".to_owned();
                push_str(&mut r, message.as_str());
                r
            },
        }
    }
}

/// Which regular-expression field of a detector a problem concerns.
#[derive(Debug, Clone, Copy, PartialEq, Eq, Structural)]
pub enum RegexField {
    Title,
    AppId,
    ExcludeTitle,
    ExcludeAppId,
}

/// The first rule that a configuration breaks.
#[derive(Debug, Clone)]
pub enum ConfigIssue {
    NegativeThreshold,
    SizeTooSmall,
    SizeTooLarge,
    StealFocus,
    UnknownLogLevel(String),
    EmptyDetectorName,
    DuplicateDetectorName(String),
    NoConstraints(String),
    InvertedWidthRange(String),
    InvertedHeightRange(String),
    InvalidRegex { detector: String, field: RegexField, message: String },
}

// ----- defaults -----

impl Default for GeneralConfig {
    fn default() -> (r: Self)
        ensures
            r.enabled && r.auto_detect && r.follow_workspace,
            r.follow_mode == FollowMode::FollowWorkspace,
            r.remember_geometry,
            r.detection_threshold == 100,
            r.restore_layout_on_unpin,
            r.action_suppression_ms == 650,
            r.workspace_debounce_ms == 75,
            r.focus_restore_window_ms == 500,
    {
        GeneralConfig {
            enabled: true,
            auto_detect: true,
            follow_workspace: true,
            follow_mode: FollowMode::FollowWorkspace,
            remember_geometry: true,
            detection_threshold: 100,
            restore_layout_on_unpin: true,
            action_suppression_ms: 650,
            workspace_debounce_ms: 75,
            focus_restore_window_ms: 500,
        }
    }
}

impl Default for PipConfig {
    fn default() -> (r: Self)
        ensures
            r.position == Placement::BottomRight,
            r.position_mode == PositionMode::Remember,
            r.width == 480 && r.height == 270,
            r.gap == 18,
            !r.steal_focus,
            r.preserve_aspect_ratio,
            r.profile == SizeProfile::Medium,
    {
        PipConfig {
            position: Placement::BottomRight,
            position_mode: PositionMode::Remember,
            width: 480,
            height: 270,
            gap: 18,
            steal_focus: false,
            preserve_aspect_ratio: true,
            profile: SizeProfile::Medium,
        }
    }
}

/// The PiP size that a size profile stands for.
pub open spec fn resolved_size_of(pip: PipConfig) -> (u32, u32) {
    match pip.profile {
        SizeProfile::Tiny => (320u32, 180u32),
        SizeProfile::Small => (384u32, 216u32),
        SizeProfile::Medium => (480u32, 270u32),
        SizeProfile::Large => (640u32, 360u32),
        SizeProfile::Cinema => (960u32, 540u32),
        SizeProfile::Custom => (pip.width, pip.height),
    }
}

/// The place of a built-in size profile in the ladder from smallest to largest.
pub open spec fn profile_rank(p: SizeProfile) -> int {
    match p {
        SizeProfile::Tiny => 0,
        SizeProfile::Small => 1,
        SizeProfile::Medium => 2,
        SizeProfile::Large => 3,
        SizeProfile::Cinema => 4,
        SizeProfile::Custom => 5,
    }
}

/// The built-in size profiles are the documented 16:9 sizes (tiny 320x180, small 384x216,
/// medium 480x270, large 640x360, cinema 960x540); the custom profile is the configured size.
pub proof fn law_size_profiles(pip: PipConfig)
    ensures
        pip.profile is Custom ==> resolved_size_of(pip) == (pip.width, pip.height),
        !(pip.profile is Custom) ==> resolved_size_of(pip).0 * 9 == resolved_size_of(pip).1 * 16,
        pip.profile is Tiny ==> resolved_size_of(pip).0 == 320,
        pip.profile is Small ==> resolved_size_of(pip).0 == 384,
        pip.profile is Medium ==> resolved_size_of(pip).0 == 480,
        pip.profile is Large ==> resolved_size_of(pip).0 == 640,
        pip.profile is Cinema ==> resolved_size_of(pip).0 == 960,
{
}

/// Along the ladder of built-in size profiles the size grows strictly, and the configured
/// width and height play no part in a built-in profile.
pub proof fn law_size_profile_ladder(a: PipConfig, b: PipConfig)
    requires
        !(a.profile is Custom),
        !(b.profile is Custom),
    ensures
        profile_rank(a.profile) < profile_rank(b.profile) ==> resolved_size_of(a).0 < resolved_size_of(b).0
            && resolved_size_of(a).1 < resolved_size_of(b).1,
        a.profile == b.profile ==> resolved_size_of(a) == resolved_size_of(b),
{
}

impl PipConfig {
    /// The PiP size that the size profile stands for.
    pub fn resolved_size(&self) -> (r: (u32, u32))
        ensures
            r == resolved_size_of(*self),
    {
        match self.profile {
            SizeProfile::Tiny => (320, 180),
            SizeProfile::Small => (384, 216),
            SizeProfile::Medium => (480, 270),
            SizeProfile::Large => (640, 360),
            SizeProfile::Cinema => (960, 540),
            SizeProfile::Custom => (self.width, self.height),
        }
    }
}

impl Default for Margins {
    fn default() -> (r: Self)
        ensures
            r.top == 18 && r.right == 18 && r.bottom == 18 && r.left == 18,
    {
        Margins { top: 18, right: 18, bottom: 18, left: 18 }
    }
}

impl Default for BrowserConfig {
    fn default() -> (r: Self)
        ensures
            r.chromium && r.firefox && r.brave && r.vivaldi && r.edge,
    {
        BrowserConfig { chromium: true, firefox: true, brave: true, vivaldi: true, edge: true }
    }
}

/// The fields that `DetectorConfig::default` fills, other than the name.
pub open spec fn detector_defaults(d: DetectorConfig) -> bool {
    &&& d.enabled
    &&& d.action == DetectionAction::Pip
    &&& d.exclude_title_regex is None
    &&& d.exclude_app_id_regex is None
    &&& d.min_width is None
    &&& d.min_height is None
    &&& d.floating is None
    &&& d.pid_present_bonus == 0
}

impl Default for DetectorConfig {
    fn default() -> (r: Self)
        ensures
            r.name@ == "unnamed"@,
            detector_defaults(r),
            r.title_regex is None,
            r.app_id_regex is None,
            r.max_width is None,
            r.max_height is None,
            r.score == 100,
            r.compact_bonus == 0,
            r.aspect_16_9_bonus == 0,
            r.empty_app_id_bonus == 0,
            r.new_window_bonus == 0,
    {
        DetectorConfig {
            name: "unnamed".to_owned(),
            enabled: true,
            action: DetectionAction::Pip,
            title_regex: None,
            app_id_regex: None,
            exclude_title_regex: None,
            exclude_app_id_regex: None,
            min_width: None,
            max_width: None,
            min_height: None,
            max_height: None,
            floating: None,
            score: 100,
            compact_bonus: 0,
            aspect_16_9_bonus: 0,
            empty_app_id_bonus: 0,
            pid_present_bonus: 0,
            new_window_bonus: 0,
        }
    }
}

impl Default for LoggingConfig {
    fn default() -> (r: Self)
        ensures
            r.level@ == "info"@,
    {
        LoggingConfig { level: "info".to_owned() }
    }
}

/// The title pattern of the built-in PiP detectors for Chromium-like browsers.
pub open spec fn pip_title_pattern() -> Seq<char> {
    "(?i)^picture(?:[ -]?in[ -]?)picture$"@
}

/// The built-in detectors, in order.
pub open spec fn is_default_detectors(v: Seq<DetectorConfig>) -> bool {
    &&& v.len() == 4
    &&& forall|i: int| 0 <= i < 4 ==> detector_defaults(#[trigger] v[i])
    &&& v[0].name@ == "chromium-empty-app-id"@
    &&& v[0].title_regex == Some(v[0].title_regex->0) && v[0].title_regex->0@ == pip_title_pattern()
    &&& v[0].app_id_regex is Some && v[0].app_id_regex->0@ == "^$"@
    &&& v[0].max_width is None && v[0].max_height is None
    &&& v[0].score == 155 && v[0].compact_bonus == 10 && v[0].aspect_16_9_bonus == 10
    &&& v[0].empty_app_id_bonus == 20 && v[0].new_window_bonus == 5
    &&& v[1].name@ == "firefox-pip"@
    &&& v[1].title_regex is Some && v[1].title_regex->0@ == "(?i)^picture-in-picture$"@
    &&& v[1].app_id_regex is Some && v[1].app_id_regex->0@
        == "(?i)^(firefox|org\\.mozilla\\.firefox)$"@
    &&& v[1].max_width is None && v[1].max_height is None
    &&& v[1].score == 150 && v[1].compact_bonus == 10 && v[1].aspect_16_9_bonus == 10
    &&& v[1].empty_app_id_bonus == 0 && v[1].new_window_bonus == 5
    &&& v[2].name@ == "chromium-family-pip"@
    &&& v[2].title_regex is Some && v[2].title_regex->0@ == pip_title_pattern()
    &&& v[2].app_id_regex is Some && v[2].app_id_regex->0@
        == "(?i)(chrome|chromium|brave|vivaldi|edge)"@
    &&& v[2].max_width is None && v[2].max_height is None
    &&& v[2].score == 145 && v[2].compact_bonus == 10 && v[2].aspect_16_9_bonus == 10
    &&& v[2].empty_app_id_bonus == 0 && v[2].new_window_bonus == 5
    &&& v[3].name@ == "generic-pip-title"@
    &&& v[3].title_regex is Some && v[3].title_regex->0@ == pip_title_pattern()
    &&& v[3].app_id_regex is None
    &&& v[3].max_width == Some(1280u32) && v[3].max_height == Some(900u32)
    &&& v[3].score == 105 && v[3].compact_bonus == 5 && v[3].aspect_16_9_bonus == 5
    &&& v[3].empty_app_id_bonus == 0 && v[3].new_window_bonus == 0
}

fn pip_title() -> (r: Option<String>)
    ensures
        r is Some && r->0@ == pip_title_pattern(),
{
    Some("(?i)^picture(?:[ -]?in[ -]?)picture$".to_owned())
}

/// The built-in detectors.
pub fn default_detectors() -> (r: Vec<DetectorConfig>)
    ensures
        is_default_detectors(r@),
{
    let mut v: Vec<DetectorConfig> = Vec::new();
    let mut d0 = DetectorConfig::default();
    d0.name = "chromium-empty-app-id".to_owned();
    d0.title_regex = pip_title();
    d0.app_id_regex = Some("^$".to_owned());
    d0.score = 155;
    d0.compact_bonus = 10;
    d0.aspect_16_9_bonus = 10;
    d0.empty_app_id_bonus = 20;
    d0.new_window_bonus = 5;
    v.push(d0);
    let mut d1 = DetectorConfig::default();
    d1.name = "firefox-pip".to_owned();
    d1.title_regex = Some("(?i)^picture-in-picture$".to_owned());
    d1.app_id_regex = Some("(?i)^(firefox|org\\.mozilla\\.firefox)$".to_owned());
    d1.score = 150;
    d1.compact_bonus = 10;
    d1.aspect_16_9_bonus = 10;
    d1.new_window_bonus = 5;
    v.push(d1);
    let mut d2 = DetectorConfig::default();
    d2.name = "chromium-family-pip".to_owned();
    d2.title_regex = pip_title();
    d2.app_id_regex = Some("(?i)(chrome|chromium|brave|vivaldi|edge)".to_owned());
    d2.score = 145;
    d2.compact_bonus = 10;
    d2.aspect_16_9_bonus = 10;
    d2.new_window_bonus = 5;
    v.push(d2);
    let mut d3 = DetectorConfig::default();
    d3.name = "generic-pip-title".to_owned();
    d3.title_regex = pip_title();
    d3.max_width = Some(1280);
    d3.max_height = Some(900);
    d3.score = 105;
    d3.compact_bonus = 5;
    d3.aspect_16_9_bonus = 5;
    v.push(d3);
    v
}

impl Default for Config {
    fn default() -> (r: Self)
        ensures
            r.general.enabled && r.general.auto_detect && r.general.follow_workspace,
            r.general.follow_mode == FollowMode::FollowWorkspace,
            r.general.remember_geometry,
            r.general.detection_threshold == 100,
            r.general.restore_layout_on_unpin,
            r.general.action_suppression_ms == 650,
            r.general.workspace_debounce_ms == 75,
            r.general.focus_restore_window_ms == 500,
            r.pip.position == Placement::BottomRight,
            r.pip.position_mode == PositionMode::Remember,
            r.pip.width == 480 && r.pip.height == 270,
            r.pip.gap == 18,
            !r.pip.steal_focus,
            r.pip.preserve_aspect_ratio,
            r.pip.profile == SizeProfile::Medium,
            r.margins.top == 18 && r.margins.right == 18 && r.margins.bottom == 18
                && r.margins.left == 18,
            r.browsers.chromium && r.browsers.firefox && r.browsers.brave && r.browsers.vivaldi
                && r.browsers.edge,
            is_default_detectors(r.detectors@),
            r.logging.level@ == "info"@,
    {
        Config {
            general: GeneralConfig::default(),
            pip: PipConfig::default(),
            margins: Margins::default(),
            browsers: BrowserConfig::default(),
            detectors: default_detectors(),
            logging: LoggingConfig::default(),
        }
    }
}

// ----- validation -----

/// The log levels that the configuration accepts.
pub open spec fn known_log_level(level: Seq<char>) -> bool {
    level == "error"@ || level == "warn"@ || level == "info"@ || level == "debug"@ || level
        == "trace"@
}

/// The detector sets at least one matching constraint.
pub open spec fn has_constraints(d: DetectorConfig) -> bool {
    d.title_regex is Some || d.app_id_regex is Some || d.min_width is Some || d.max_width is Some
        || d.min_height is Some || d.max_height is Some || d.floating is Some
}

/// An optional pattern that is absent or compiles.
pub open spec fn pattern_ok(p: Option<String>) -> bool {
    match p {
        Some(s) => regex_compiles(s@),
        None => true,
    }
}

/// An earlier detector carries the same name as detector `i`.
pub open spec fn name_taken_before(dets: Seq<DetectorConfig>, i: int) -> bool {
    exists|j: int| 0 <= j < i && #[trigger] dets[j].name@ == dets[i].name@
}

/// The kind of the first rule that detector `i` breaks, checked in the order
/// name, uniqueness, constraints, width range, height range, then the four patterns.
pub ghost enum DetectorIssueKind {
    EmptyName,
    Duplicate,
    NoConstraints,
    InvertedWidth,
    InvertedHeight,
    BadPattern(RegexField),
}

/// The first rule that detector `i` of the list breaks, if any.
pub open spec fn detector_issue(dets: Seq<DetectorConfig>, i: int) -> Option<DetectorIssueKind> {
    let d = dets[i];
    if trim_seq(d.name@).len() == 0 {
        Some(DetectorIssueKind::EmptyName)
    } else if name_taken_before(dets, i) {
        Some(DetectorIssueKind::Duplicate)
    } else if !has_constraints(d) {
        Some(DetectorIssueKind::NoConstraints)
    } else if d.min_width is Some && d.max_width is Some && d.min_width->0 > d.max_width->0 {
        Some(DetectorIssueKind::InvertedWidth)
    } else if d.min_height is Some && d.max_height is Some && d.min_height->0
        > d.max_height->0 {
        Some(DetectorIssueKind::InvertedHeight)
    } else if !pattern_ok(d.title_regex) {
        Some(DetectorIssueKind::BadPattern(RegexField::Title))
    } else if !pattern_ok(d.app_id_regex) {
        Some(DetectorIssueKind::BadPattern(RegexField::AppId))
    } else if !pattern_ok(d.exclude_title_regex) {
        Some(DetectorIssueKind::BadPattern(RegexField::ExcludeTitle))
    } else if !pattern_ok(d.exclude_app_id_regex) {
        Some(DetectorIssueKind::BadPattern(RegexField::ExcludeAppId))
    } else {
        None
    }
}

/// The first detector, at index `i` or later, that breaks a rule, with the kind of problem.
pub open spec fn first_detector_issue(dets: Seq<DetectorConfig>, i: int) -> Option<
    (int, DetectorIssueKind),
>
    decreases dets.len() - i,
{
    if i < 0 || i >= dets.len() {
        None
    } else {
        match detector_issue(dets, i) {
            Some(k) => Some((i, k)),
            None => first_detector_issue(dets, i + 1),
        }
    }
}

/// Which rule a configuration breaks first; `None` for a valid configuration.
pub ghost enum IssueKind {
    NegativeThreshold,
    SizeTooSmall,
    SizeTooLarge,
    StealFocus,
    UnknownLogLevel,
    Detector(int, DetectorIssueKind),
}

/// The first rule that the configuration breaks, if any.
pub open spec fn first_issue(c: Config) -> Option<IssueKind> {
    let (w, h) = resolved_size_of(c.pip);
    if c.general.detection_threshold < 0 {
        Some(IssueKind::NegativeThreshold)
    } else if w < 120 || h < 68 {
        Some(IssueKind::SizeTooSmall)
    } else if w > i32::MAX || h > i32::MAX {
        Some(IssueKind::SizeTooLarge)
    } else if c.pip.steal_focus {
        Some(IssueKind::StealFocus)
    } else if !known_log_level(c.logging.level@) {
        Some(IssueKind::UnknownLogLevel)
    } else {
        match first_detector_issue(c.detectors@, 0) {
            Some((i, k)) => Some(IssueKind::Detector(i, k)),
            None => None,
        }
    }
}

/// A configuration that breaks no rule.
pub open spec fn config_valid(c: Config) -> bool {
    first_issue(c) is None
}

/// The issue reported for a given first broken rule.
pub open spec fn issue_matches(c: Config, kind: IssueKind, issue: ConfigIssue) -> bool {
    match kind {
        IssueKind::NegativeThreshold => issue is NegativeThreshold,
        IssueKind::SizeTooSmall => issue is SizeTooSmall,
        IssueKind::SizeTooLarge => issue is SizeTooLarge,
        IssueKind::StealFocus => issue is StealFocus,
        IssueKind::UnknownLogLevel => issue matches ConfigIssue::UnknownLogLevel(l) && l@
            == c.logging.level@,
        IssueKind::Detector(i, k) => issue_matches_detector(c.detectors@[i].name@, k, issue),
    }
}

fn check_optional_pattern(p: &Option<String>) -> (r: Result<(), String>)
    ensures
        r is Ok <==> pattern_ok(*p),
{
    match p {
        Some(s) => check_pattern(s.as_str()),
        None => Ok(()),
    }
}

fn name_used_before(dets: &Vec<DetectorConfig>, i: usize) -> (r: bool)
    requires
        i < dets@.len(),
    ensures
        r == name_taken_before(dets@, i as int),
{
    let mut j: usize = 0;
    while j < i
        invariant
            i < dets@.len(),
            j <= i,
            forall|k: int| 0 <= k < j ==> dets@[k].name@ != dets@[i as int].name@,
        decreases i - j,
    {
        if dets[j].name == dets[i].name {
            return true;
        }
        j = j + 1;
    }
    false
}

fn check_detector(dets: &Vec<DetectorConfig>, i: usize) -> (r: Option<ConfigIssue>)
    requires
        i < dets@.len(),
    ensures
        r is None <==> detector_issue(dets@, i as int) is None,
        r matches Some(issue) ==> detector_issue(dets@, i as int) matches Some(k) && issue_matches_detector(
            dets@[i as int].name@,
            k,
            issue,
        ),
{
    let d = &dets[i];
    let name_chars = chars_of(d.name.as_str());
    let trimmed = trim_chars(&name_chars);
    if trimmed.len() == 0 {
        return Some(ConfigIssue::EmptyDetectorName);
    }
    if name_used_before(dets, i) {
        return Some(ConfigIssue::DuplicateDetectorName(d.name.clone()));
    }
    if d.title_regex.is_none() && d.app_id_regex.is_none() && d.min_width.is_none()
        && d.max_width.is_none() && d.min_height.is_none() && d.max_height.is_none()
        && d.floating.is_none() {
        return Some(ConfigIssue::NoConstraints(d.name.clone()));
    }
    if let (Some(min), Some(max)) = (d.min_width, d.max_width) {
        if min > max {
            return Some(ConfigIssue::InvertedWidthRange(d.name.clone()));
        }
    }
    if let (Some(min), Some(max)) = (d.min_height, d.max_height) {
        if min > max {
            return Some(ConfigIssue::InvertedHeightRange(d.name.clone()));
        }
    }
    if let Err(message) = check_optional_pattern(&d.title_regex) {
        return Some(
            ConfigIssue::InvalidRegex { detector: d.name.clone(), field: RegexField::Title, message },
        );
    }
    if let Err(message) = check_optional_pattern(&d.app_id_regex) {
        return Some(
            ConfigIssue::InvalidRegex { detector: d.name.clone(), field: RegexField::AppId, message },
        );
    }
    if let Err(message) = check_optional_pattern(&d.exclude_title_regex) {
        return Some(
            ConfigIssue::InvalidRegex {
                detector: d.name.clone(),
                field: RegexField::ExcludeTitle,
                message,
            },
        );
    }
    if let Err(message) = check_optional_pattern(&d.exclude_app_id_regex) {
        return Some(
            ConfigIssue::InvalidRegex {
                detector: d.name.clone(),
                field: RegexField::ExcludeAppId,
                message,
            },
        );
    }
    None
}

/// The issue reported for a detector's first broken rule.
pub open spec fn issue_matches_detector(
    name: Seq<char>,
    k: DetectorIssueKind,
    issue: ConfigIssue,
) -> bool {
    match k {
        DetectorIssueKind::EmptyName => issue is EmptyDetectorName,
        DetectorIssueKind::Duplicate => issue matches ConfigIssue::DuplicateDetectorName(n) && n@
            == name,
        DetectorIssueKind::NoConstraints => issue matches ConfigIssue::NoConstraints(n) && n@
            == name,
        DetectorIssueKind::InvertedWidth => issue matches ConfigIssue::InvertedWidthRange(n) && n@
            == name,
        DetectorIssueKind::InvertedHeight => issue matches ConfigIssue::InvertedHeightRange(n)
            && n@ == name,
        DetectorIssueKind::BadPattern(f) => issue matches ConfigIssue::InvalidRegex {
            detector,
            field,
            message,
        } && detector@ == name && field == f,
    }
}

fn level_is_known(level: &str) -> (r: bool)
    ensures
        r == known_log_level(level@),
{
    crate::text::str_eq(level, "error") || crate::text::str_eq(level, "warn")
        || crate::text::str_eq(level, "info") || crate::text::str_eq(level, "debug")
        || crate::text::str_eq(level, "trace")
}

impl Config {
    /// The first rule that the configuration breaks, if any.
    #[verifier::loop_isolation(false)]
    pub fn first_issue(&self) -> (r: Option<ConfigIssue>)
        ensures
            r is None <==> config_valid(*self),
            r matches Some(issue) ==> first_issue(*self) matches Some(k) && issue_matches(
                *self,
                k,
                issue,
            ),
    {
        if self.general.detection_threshold < 0 {
            return Some(ConfigIssue::NegativeThreshold);
        }
        let (w, h) = self.pip.resolved_size();
        if w < 120 || h < 68 {
            return Some(ConfigIssue::SizeTooSmall);
        }
        if w > 2147483647 || h > 2147483647 {
            return Some(ConfigIssue::SizeTooLarge);
        }
        if self.pip.steal_focus {
            return Some(ConfigIssue::StealFocus);
        }
        if !level_is_known(self.logging.level.as_str()) {
            return Some(ConfigIssue::UnknownLogLevel(self.logging.level.clone()));
        }
        let dets = &self.detectors;
        let mut i: usize = 0;
        while i < dets.len()
            invariant
                i <= dets@.len(),
                first_detector_issue(dets@, 0) == first_detector_issue(dets@, i as int),
            decreases dets@.len() - i,
        {
            let found = check_detector(dets, i);
            if found.is_some() {
                return found;
            }
            i = i + 1;
        }
        None
    }

    /// Checks every rule of the configuration.
    pub fn validate(&self) -> (r: Result<(), ConfigError>)
        ensures
            r is Ok <==> config_valid(*self),
            r matches Err(e) ==> e matches ConfigError::Validation(m) && exists|issue: ConfigIssue|
                #[trigger] issue_matches(*self, first_issue(*self)->0, issue) && m@ == issue_text(issue),
    {
        match self.first_issue() {
            None => Ok(()),
            Some(issue) => {
                let m = issue_message(&issue);
                assert(issue_matches(*self, first_issue(*self)->0, issue));
                Err(ConfigError::Validation(m))
            },
        }
    }
}

/// Appends `b` to `a`.
fn join(a: String, b: &str) -> (r: String)
    ensures
        r@ == a@ + b@,
{
    a.concat(b)
}

/// The configuration key of a pattern field.
pub open spec fn regex_field_text(f: RegexField) -> Seq<char> {
    match f {
        RegexField::Title => "title_regex"@,
        RegexField::AppId => "app_id_regex"@,
        RegexField::ExcludeTitle => "exclude_title_regex"@,
        RegexField::ExcludeAppId => "exclude_app_id_regex"@,
    }
}

/// The text that reports an issue of a configuration.
pub open spec fn issue_text(issue: ConfigIssue) -> Seq<char> {
    match issue {
        ConfigIssue::NegativeThreshold => "general.detection_threshold must be >= 0"@,
        ConfigIssue::SizeTooSmall => "PiP size is implausibly small (minimum 120x68)"@,
        ConfigIssue::SizeTooLarge => "PiP width/height must fit Niri IPC signed 32-bit size values"@,
        ConfigIssue::StealFocus => "pip.steal_focus=true is intentionally unsupported; use false"@,
        ConfigIssue::UnknownLogLevel(level) => "logging.level must be one of error, warn, info, debug, trace (got '"@
            + level@ + "')"@,
        ConfigIssue::EmptyDetectorName => "detector name must not be empty"@,
        ConfigIssue::DuplicateDetectorName(n) => "detector names must be unique (duplicate '"@ + n@ + "')"@,
        ConfigIssue::NoConstraints(n) => "detector '"@ + n@ + "' has no matching constraints"@,
        ConfigIssue::InvertedWidthRange(n) => "detector '"@ + n@ + "': min_width must be <= max_width"@,
        ConfigIssue::InvertedHeightRange(n) => "detector '"@ + n@ + "': min_height must be <= max_height"@,
        ConfigIssue::InvalidRegex { detector, field, message } => "detector '"@ + detector@ + "': invalid "@
            + regex_field_text(field) + ": "@ + message@,
    }
}

fn regex_field_name(f: RegexField) -> (r: &'static str)
    ensures
        r@ == regex_field_text(f),
{
    match f {
        RegexField::Title => "title_regex",
        RegexField::AppId => "app_id_regex",
        RegexField::ExcludeTitle => "exclude_title_regex",
        RegexField::ExcludeAppId => "exclude_app_id_regex",
    }
}

/// The human-readable text of an issue.
pub fn issue_message(issue: &ConfigIssue) -> (r: String)
    ensures
        r@ == issue_text(*issue),
{
    match issue {
        ConfigIssue::NegativeThreshold => "general.detection_threshold must be >= 0".to_owned(),
        ConfigIssue::SizeTooSmall => "PiP size is implausibly small (minimum 120x68)".to_owned(),
        ConfigIssue::SizeTooLarge => "PiP width/height must fit Niri IPC signed 32-bit size values".to_owned(),
        ConfigIssue::StealFocus => "pip.steal_focus=true is intentionally unsupported; use false".to_owned(),
        ConfigIssue::UnknownLogLevel(level) => {
            let m = join(
                "logging.level must be one of error, warn, info, debug, trace (got '".to_owned(),
                level.as_str(),
            );
            join(m, "')")
        },
        ConfigIssue::EmptyDetectorName => "detector name must not be empty".to_owned(),
        ConfigIssue::DuplicateDetectorName(n) => {
            let m = join("detector names must be unique (duplicate '".to_owned(), n.as_str());
            join(m, "')")
        },
        ConfigIssue::NoConstraints(n) => {
            let m = join("detector '".to_owned(), n.as_str());
            join(m, "' has no matching constraints")
        },
        ConfigIssue::InvertedWidthRange(n) => {
            let m = join("detector '".to_owned(), n.as_str());
            join(m, "': min_width must be <= max_width")
        },
        ConfigIssue::InvertedHeightRange(n) => {
            let m = join("detector '".to_owned(), n.as_str());
            join(m, "': min_height must be <= max_height")
        },
        ConfigIssue::InvalidRegex { detector, field, message } => {
            let m = join("detector '".to_owned(), detector.as_str());
            let m = join(m, "': invalid ");
            let m = join(m, regex_field_name(*field));
            let m = join(m, ": ");
            join(m, message.as_str())
        },
    }
}

} // verus!
