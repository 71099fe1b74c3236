//! Scoring windows against the configured detectors to recognise Picture-in-Picture windows.
use vstd::prelude::*;
use crate::config::{Config, DetectionAction, DetectorConfig, RegexField};
use crate::model::{copy_opt_string, logical_size_of, opt_text, WindowInfo};
use crate::pattern::{regex_compiles, regex_is_match, Pattern};
use crate::text::{push_str, str_eq};

verus! {

/// A detector's name and the regular expression it could not compile.
#[derive(Debug, Clone)]
pub enum DetectorError {
    Regex { name: String, field: RegexField, message: String },
}

/// The text that reports a detector error.
pub open spec fn detector_error_text(e: DetectorError) -> Seq<char> {
    match e {
        DetectorError::Regex { name, message, .. } => "detector '"@ + name@ + "' contains an invalid regex: "@
            + message@,
    }
}

impl DetectorError {
    /// The text that reports the error.
    pub fn message(&self) -> (r: String)
        ensures
            r@ == detector_error_text(*self),
    {
        match self {
            DetectorError::Regex { name, message, .. } => {
                let mut r = "detector '".to_owned();
                push_str(&mut r, name.as_str());
                push_str(&mut r, "' contains an invalid regex: ");
                push_str(&mut r, message.as_str());
                r
            },
        }
    }
}

/// The detector that took a window, with its score and action.
#[derive(Debug, Clone, PartialEq, Eq)]
pub struct DetectionMatch {
    pub detector: String,
    /// The detector's score with every bonus that applies (wide enough never to overflow).
    pub score: i64,
    pub action: DetectionAction,
}

impl DetectorConfig {
    /// A copy.
    pub fn duplicate(&self) -> (r: Self)
        ensures
            r == *self,
    {
        DetectorConfig {
            name: self.name.clone(),
            enabled: self.enabled,
            action: self.action,
            title_regex: copy_opt_string(&self.title_regex),
            app_id_regex: copy_opt_string(&self.app_id_regex),
            exclude_title_regex: copy_opt_string(&self.exclude_title_regex),
            exclude_app_id_regex: copy_opt_string(&self.exclude_app_id_regex),
            min_width: self.min_width,
            max_width: self.max_width,
            min_height: self.min_height,
            max_height: self.max_height,
            floating: self.floating,
            score: self.score,
            compact_bonus: self.compact_bonus,
            aspect_16_9_bonus: self.aspect_16_9_bonus,
            empty_app_id_bonus: self.empty_app_id_bonus,
            pid_present_bonus: self.pid_present_bonus,
            new_window_bonus: self.new_window_bonus,
        }
    }
}

/// Whether a built-in detector is switched on by the browser switches; other detectors always are.
pub open spec fn builtin_enabled(c: Config, name: Seq<char>) -> bool {
    if name == "firefox-pip"@ {
        c.browsers.firefox
    } else if name == "chromium-empty-app-id"@ || name == "chromium-family-pip"@ {
        c.browsers.chromium || c.browsers.brave || c.browsers.vivaldi || c.browsers.edge
    } else {
        true
    }
}

/// Whether the configuration keeps the built-in detector named `name`.
pub fn builtin_detector_enabled(config: &Config, name: &str) -> (r: bool)
    ensures
        r == builtin_enabled(*config, name@),
{
    if str_eq(name, "firefox-pip") {
        config.browsers.firefox
    } else if str_eq(name, "chromium-empty-app-id") || str_eq(name, "chromium-family-pip") {
        config.browsers.chromium || config.browsers.brave || config.browsers.vivaldi
            || config.browsers.edge
    } else {
        true
    }
}

/// The detectors of `dets` that the browser switches leave on, in order.
pub open spec fn kept_detectors(c: Config, dets: Seq<DetectorConfig>) -> Seq<DetectorConfig>
    decreases dets.len(),
{
    if dets.len() == 0 {
        Seq::empty()
    } else {
        let prev = kept_detectors(c, dets.drop_last());
        if builtin_enabled(c, dets.last().name@) {
            prev.push(dets.last())
        } else {
            prev
        }
    }
}

/// Every pattern of the detector compiles.
pub open spec fn patterns_compile(d: DetectorConfig) -> bool {
    &&& (d.title_regex matches Some(p) ==> regex_compiles(p@))
    &&& (d.app_id_regex matches Some(p) ==> regex_compiles(p@))
    &&& (d.exclude_title_regex matches Some(p) ==> regex_compiles(p@))
    &&& (d.exclude_app_id_regex matches Some(p) ==> regex_compiles(p@))
}

/// The text is excluded by an optional pattern.
pub open spec fn excluded_by(p: Option<String>, text: Seq<char>) -> bool {
    p matches Some(s) && regex_is_match(s@, text)
}

/// The text fails an optional required pattern.
pub open spec fn fails_required(p: Option<String>, text: Seq<char>) -> bool {
    p matches Some(s) && !regex_is_match(s@, text)
}

/// The size is near 16:9: `|w/h - 16/9| <= 0.2`.
pub open spec fn near_16_9(w: int, h: int) -> bool {
    h > 0 && 5 * (if 9 * w >= 16 * h { 9 * w - 16 * h } else { 16 * h - 9 * w }) <= 9 * h
}

/// The score of a window that the detector accepts, with its bonuses.
pub open spec fn bonus_score(d: DetectorConfig, w: int, h: int, empty_app: bool, pid: bool, is_new: bool) -> int {
    d.score
        + (if w > 0 && h > 0 && w <= 1280 && h <= 900 { d.compact_bonus as int } else { 0 })
        + (if near_16_9(w, h) { d.aspect_16_9_bonus as int } else { 0 })
        + (if empty_app { d.empty_app_id_bonus as int } else { 0 })
        + (if pid { d.pid_present_bonus as int } else { 0 })
        + (if is_new { d.new_window_bonus as int } else { 0 })
}

/// The detector's score for the window, or `None` where it does not accept the window.
pub open spec fn score_of(d: DetectorConfig, win: WindowInfo, is_new: bool) -> Option<int> {
    let title = opt_text(win.title);
    let app = opt_text(win.app_id);
    let (w, h) = logical_size_of(win);
    if !d.enabled {
        None
    } else if excluded_by(d.exclude_title_regex, title) || excluded_by(d.exclude_app_id_regex, app) {
        None
    } else if fails_required(d.title_regex, title) || fails_required(d.app_id_regex, app) {
        None
    } else if d.floating matches Some(f) && f != win.is_floating {
        None
    } else if (d.min_width matches Some(v) && w < v) || (d.max_width matches Some(v) && w > v)
        || (d.min_height matches Some(v) && h < v) || (d.max_height matches Some(v) && h > v) {
        None
    } else {
        Some(bonus_score(d, w as int, h as int, app.len() == 0, win.pid is Some, is_new))
    }
}

/// Among the first `n` detectors, the index and score of the best accepted match reaching the
/// threshold; of several equal best scores, the last.
pub open spec fn best_match(
    dets: Seq<DetectorConfig>,
    win: WindowInfo,
    is_new: bool,
    threshold: int,
    n: int,
) -> Option<(int, int)>
    decreases n,
{
    if n <= 0 {
        None
    } else {
        let prev = best_match(dets, win, is_new, threshold, n - 1);
        match score_of(dets[n - 1], win, is_new) {
            Some(s) => if s >= threshold {
                match prev {
                    Some(p) => if p.1 > s {
                        prev
                    } else {
                        Some((n - 1, s))
                    },
                    None => Some((n - 1, s)),
                }
            } else {
                prev
            },
            None => prev,
        }
    }
}

/// The best of the first `n` detectors: none exactly where none of them takes the window with
/// a score at the threshold or above; else one that does, with a score no other one exceeds.
pub proof fn lemma_best_match(dets: Seq<DetectorConfig>, win: WindowInfo, is_new: bool, threshold: int, n: int)
    requires
        n <= dets.len(),
    ensures
        best_match(dets, win, is_new, threshold, n) is None <==> forall|j: int| 0 <= j < n ==> !reaches(
            #[trigger] score_of(dets[j], win, is_new), threshold),
        best_match(dets, win, is_new, threshold, n) matches Some((i, s)) ==> {
            &&& 0 <= i < n
            &&& score_of(dets[i], win, is_new) == Some(s)
            &&& s >= threshold
            &&& forall|j: int| 0 <= j < n && #[trigger] reaches(score_of(dets[j], win, is_new), threshold)
                ==> score_of(dets[j], win, is_new)->0 <= s
        },
    decreases n,
{
    if n > 0 {
        lemma_best_match(dets, win, is_new, threshold, n - 1);
        assert(reaches(score_of(dets[n - 1], win, is_new), threshold) || !reaches(score_of(dets[n - 1], win, is_new), threshold));
    }
}

/// Whether a score is there and at the threshold or above.
pub open spec fn reaches(score: Option<int>, threshold: int) -> bool {
    score matches Some(s) && s >= threshold
}

#[derive(Debug)]
struct CompiledDetector {
    config: DetectorConfig,
    title: Option<Pattern>,
    app_id: Option<Pattern>,
    exclude_title: Option<Pattern>,
    exclude_app_id: Option<Pattern>,
}

/// The compiled pattern stands for the configured one.
pub open spec fn compiled_from(c: Option<Pattern>, p: Option<String>) -> bool {
    match (c, p) {
        (Some(x), Some(y)) => x@ == y@,
        (None, None) => true,
        _ => false,
    }
}

impl CompiledDetector {
    spec fn wf(&self) -> bool {
        &&& compiled_from(self.title, self.config.title_regex)
        &&& compiled_from(self.app_id, self.config.app_id_regex)
        &&& compiled_from(self.exclude_title, self.config.exclude_title_regex)
        &&& compiled_from(self.exclude_app_id, self.config.exclude_app_id_regex)
    }
}

/// The detectors of a configuration, compiled, with the score a match must reach.
#[derive(Debug)]
pub struct DetectorEngine {
    detectors: Vec<CompiledDetector>,
    threshold: i32,
}

/// Compiles an optional pattern.
fn compile_optional(p: &Option<String>) -> (r: Result<Option<Pattern>, String>)
    ensures
        r is Ok <==> (p matches Some(s) ==> regex_compiles(s@)),
        r matches Ok(c) ==> compiled_from(c, *p),
{
    match p {
        Some(s) => match Pattern::compile(s.as_str()) {
            Ok(c) => Ok(Some(c)),
            Err(m) => Err(m),
        },
        None => Ok(None),
    }
}

/// The first kept detector, at index `i` or later, with a pattern that does not compile.
pub open spec fn first_bad_detector(dets: Seq<DetectorConfig>, i: int) -> Option<int>
    decreases dets.len() - i,
{
    if i < 0 || i >= dets.len() {
        None
    } else if !patterns_compile(dets[i]) {
        Some(i)
    } else {
        first_bad_detector(dets, i + 1)
    }
}

/// The first of the detector's patterns, in the order title, app-id, excluded title, excluded
/// app-id, that does not compile.
pub open spec fn first_bad_field(d: DetectorConfig) -> RegexField {
    if d.title_regex matches Some(p) && !regex_compiles(p@) {
        RegexField::Title
    } else if d.app_id_regex matches Some(p) && !regex_compiles(p@) {
        RegexField::AppId
    } else if d.exclude_title_regex matches Some(p) && !regex_compiles(p@) {
        RegexField::ExcludeTitle
    } else {
        RegexField::ExcludeAppId
    }
}

impl DetectorEngine {
    /// The configurations of the detectors in use, in order.
    pub closed spec fn configs(&self) -> Seq<DetectorConfig> {
        self.detectors@.map_values(|d: CompiledDetector| d.config)
    }

    /// The score a match must reach.
    pub closed spec fn threshold_value(&self) -> int {
        self.threshold as int
    }

    /// Every detector is compiled from its patterns.
    pub closed spec fn wf(&self) -> bool {
        forall|i: int| 0 <= i < self.detectors@.len() ==> (#[trigger] self.detectors@[i]).wf()
    }

    /// Compiles the detectors the configuration keeps; fails on the first invalid pattern.
    pub fn new(config: &Config) -> (r: Result<Self, DetectorError>)
        ensures
            r is Ok <==> first_bad_detector(kept_detectors(*config, config.detectors@), 0) is None,
            r matches Ok(e) ==> e.wf() && e.configs() == kept_detectors(*config, config.detectors@)
                && e.threshold_value() == config.general.detection_threshold,
            r matches Err(DetectorError::Regex { name, field, message }) ==> first_bad_detector(
                kept_detectors(*config, config.detectors@),
                0,
            ) matches Some(i) && name@ == kept_detectors(*config, config.detectors@)[i].name@
                && field == first_bad_field(kept_detectors(*config, config.detectors@)[i]),
    {
        let ghost all = config.detectors@;
        let mut detectors: Vec<CompiledDetector> = Vec::new();
        let mut i: usize = 0;
        while i < config.detectors.len()
            invariant
                i <= all.len(),
                all == config.detectors@,
                forall|k: int| 0 <= k < detectors@.len() ==> (#[trigger] detectors@[k]).wf(),
                detectors@.map_values(|d: CompiledDetector| d.config) == kept_detectors(
                    *config,
                    all.take(i as int),
                ),
                first_bad_detector(kept_detectors(*config, all.take(i as int)), 0) is None,
            decreases all.len() - i,
        {
            let d = &config.detectors[i];
            let ghost before = kept_detectors(*config, all.take(i as int));
            assert(all.take(i + 1).drop_last() =~= all.take(i as int));
            assert(all.take(i + 1).last() == all[i as int]);
            if builtin_detector_enabled(config, d.name.as_str()) {
                let ghost after = before.push(*d);
                proof {
                    lemma_first_bad_push(before, *d);
                }
                let compiled = match compile_detector(d) {
                    Ok(c) => c,
                    Err(e) => {
                        proof {
                            assert(kept_detectors(*config, all.take(i + 1)) == after);
                            lemma_kept_prefix(*config, all, i + 1);
                            lemma_first_bad_prefix(after, kept_detectors(*config, all), 0);
                            let whole = kept_detectors(*config, all);
                            assert(whole.take(after.len() as int)[before.len() as int] == d);
                            assert(whole[before.len() as int] == d);
                        }
                        return Err(e);
                    },
                };
                let ghost prev_view = detectors@;
                detectors.push(compiled);
                assert(detectors@.map_values(|d: CompiledDetector| d.config) =~= prev_view.map_values(
                    |d: CompiledDetector| d.config,
                ).push(*d));
            }
            i = i + 1;
        }
        assert(all.take(all.len() as int) =~= all);
        Ok(DetectorEngine { detectors, threshold: config.general.detection_threshold })
    }

    /// The best detector that takes the window, if one reaches the threshold.
    pub fn detect(&self, window: &WindowInfo, is_new: bool) -> (r: Option<DetectionMatch>)
        requires
            self.wf(),
        ensures
            match best_match(
                self.configs(),
                *window,
                is_new,
                self.threshold_value(),
                self.configs().len() as int,
            ) {
                Some((i, s)) => r matches Some(m) && m.detector@ == self.configs()[i].name@
                    && m.score == s && m.action == self.configs()[i].action,
                None => r is None,
            },
            r is None <==> forall|j: int| 0 <= j < self.configs().len() ==> !reaches(
                #[trigger] score_of(self.configs()[j], *window, is_new), self.threshold_value()),
            r matches Some(m) ==> exists|i: int| {
                &&& 0 <= i < self.configs().len()
                &&& m.detector@ == self.configs()[i].name@
                &&& m.action == self.configs()[i].action
                &&& score_of(self.configs()[i], *window, is_new) == Some(m.score as int)
                &&& m.score >= self.threshold_value()
                &&& forall|j: int| 0 <= j < self.configs().len() && #[trigger] reaches(score_of(self.configs()[j], *window, is_new), self.threshold_value())
                    ==> score_of(self.configs()[j], *window, is_new)->0 <= m.score
            },
    {
        proof {
            lemma_best_match(self.configs(), *window, is_new, self.threshold_value(), self.configs().len() as int);
        }
        let ghost cfgs = self.configs();
        let mut best: Option<DetectionMatch> = None;
        let mut i: usize = 0;
        while i < self.detectors.len()
            invariant
                self.wf(),
                cfgs == self.configs(),
                i <= self.detectors@.len(),
                cfgs.len() == self.detectors@.len(),
                match best_match(cfgs, *window, is_new, self.threshold_value(), i as int) {
                    Some((k, s)) => best matches Some(m) && m.detector@ == cfgs[k].name@ && m.score
                        == s && m.action == cfgs[k].action,
                    None => best is None,
                },
            decreases self.detectors@.len() - i,
        {
            let d = &self.detectors[i];
            assert(cfgs[i as int] == d.config);
            assert(d.wf());
            let s = d.score(window, is_new);
            if let Some(score) = s {
                if score >= self.threshold as i64 {
                    let replace = match &best {
                        Some(m) => !(m.score > score),
                        None => true,
                    };
                    if replace {
                        best = Some(
                            DetectionMatch {
                                detector: d.config.name.clone(),
                                score,
                                action: d.config.action,
                            },
                        );
                    }
                }
            }
            i = i + 1;
        }
        best
    }
}

fn compile_detector(d: &DetectorConfig) -> (r: Result<CompiledDetector, DetectorError>)
    ensures
        r is Ok <==> patterns_compile(*d),
        r matches Ok(c) ==> c.wf() && c.config == *d,
        r matches Err(DetectorError::Regex { name, field, message }) ==> name@ == d.name@ && field
            == first_bad_field(*d),
{
    let title = match compile_optional(&d.title_regex) {
        Ok(c) => c,
        Err(message) => {
            return Err(DetectorError::Regex { name: d.name.clone(), field: RegexField::Title, message });
        },
    };
    let app_id = match compile_optional(&d.app_id_regex) {
        Ok(c) => c,
        Err(message) => {
            return Err(DetectorError::Regex { name: d.name.clone(), field: RegexField::AppId, message });
        },
    };
    let exclude_title = match compile_optional(&d.exclude_title_regex) {
        Ok(c) => c,
        Err(message) => {
            return Err(
                DetectorError::Regex { name: d.name.clone(), field: RegexField::ExcludeTitle, message },
            );
        },
    };
    let exclude_app_id = match compile_optional(&d.exclude_app_id_regex) {
        Ok(c) => c,
        Err(message) => {
            return Err(
                DetectorError::Regex { name: d.name.clone(), field: RegexField::ExcludeAppId, message },
            );
        },
    };
    Ok(CompiledDetector { config: d.duplicate(), title, app_id, exclude_title, exclude_app_id })
}

/// The detectors kept from a prefix are a prefix of those kept from the whole.
proof fn lemma_kept_prefix(c: Config, s: Seq<DetectorConfig>, n: int)
    requires
        0 <= n <= s.len(),
    ensures
        kept_detectors(c, s.take(n)).len() <= kept_detectors(c, s).len(),
        kept_detectors(c, s).take(kept_detectors(c, s.take(n)).len() as int) == kept_detectors(
            c,
            s.take(n),
        ),
    decreases s.len(),
{
    if n == s.len() {
        assert(s.take(n) =~= s);
        assert(kept_detectors(c, s).take(kept_detectors(c, s).len() as int) =~= kept_detectors(c, s));
    } else {
        let t = s.drop_last();
        assert(t.take(n) =~= s.take(n));
        lemma_kept_prefix(c, t, n);
        let a = kept_detectors(c, s.take(n));
        let k = kept_detectors(c, t);
        if builtin_enabled(c, s.last().name@) {
            assert(k.push(s.last()).take(a.len() as int) =~= k.take(a.len() as int));
        }
    }
}

/// A bad detector found in a prefix is the first bad detector of the whole.
proof fn lemma_first_bad_prefix(a: Seq<DetectorConfig>, b: Seq<DetectorConfig>, i: int)
    requires
        0 <= i <= a.len() <= b.len(),
        b.take(a.len() as int) == a,
        first_bad_detector(a, i) is Some,
    ensures
        first_bad_detector(b, i) == first_bad_detector(a, i),
    decreases a.len() - i,
{
    assert(b.take(a.len() as int)[i] == b[i]);
    if i < a.len() && patterns_compile(a[i]) {
        lemma_first_bad_prefix(a, b, i + 1);
    }
}

proof fn lemma_first_bad_push(before: Seq<DetectorConfig>, d: DetectorConfig)
    requires
        first_bad_detector(before, 0) is None,
    ensures
        first_bad_detector(before.push(d), 0) == (if patterns_compile(d) {
            None
        } else {
            Some(before.len() as int)
        }),
{
    lemma_first_bad_push_from(before, d, 0);
}

proof fn lemma_first_bad_push_from(before: Seq<DetectorConfig>, d: DetectorConfig, i: int)
    requires
        0 <= i <= before.len(),
        first_bad_detector(before, i) is None,
    ensures
        first_bad_detector(before.push(d), i) == (if patterns_compile(d) {
            None
        } else {
            Some(before.len() as int)
        }),
    decreases before.len() - i,
{
    if i < before.len() {
        assert(before.push(d)[i] == before[i]);
        lemma_first_bad_push_from(before, d, i + 1);
    } else {
        assert(before.push(d)[i] == d);
        assert(first_bad_detector(before.push(d), i + 1) is None);
    }
}

fn excluded(p: &Option<Pattern>, text: &str) -> (r: bool)
    ensures
        r == (p matches Some(c) && regex_is_match(c@, text@)),
{
    match p {
        Some(c) => c.is_match(text),
        None => false,
    }
}

fn fails(p: &Option<Pattern>, text: &str) -> (r: bool)
    ensures
        r == (p matches Some(c) && !regex_is_match(c@, text@)),
{
    match p {
        Some(c) => !c.is_match(text),
        None => false,
    }
}

impl CompiledDetector {
    fn score(&self, window: &WindowInfo, is_new: bool) -> (r: Option<i64>)
        requires
            self.wf(),
        ensures
            match score_of(self.config, *window, is_new) {
                Some(s) => r == Some(s as i64),
                None => r is None,
            },
    {
        if !self.config.enabled {
            return None;
        }
        let title = window.title();
        let app_id = window.app_id();
        if excluded(&self.exclude_title, title) || excluded(&self.exclude_app_id, app_id) {
            return None;
        }
        if fails(&self.title, title) {
            return None;
        }
        if fails(&self.app_id, app_id) {
            return None;
        }
        if let Some(expected) = self.config.floating {
            if expected != window.is_floating {
                return None;
            }
        }
        let (w, h) = window.logical_size();
        let too_narrow = match self.config.min_width {
            Some(v) => w < v,
            None => false,
        };
        let too_wide = match self.config.max_width {
            Some(v) => w > v,
            None => false,
        };
        let too_short = match self.config.min_height {
            Some(v) => h < v,
            None => false,
        };
        let too_tall = match self.config.max_height {
            Some(v) => h > v,
            None => false,
        };
        if too_narrow || too_wide || too_short || too_tall {
            return None;
        }
        let mut score: i64 = self.config.score as i64;
        if w > 0 && h > 0 && w <= 1280 && h <= 900 {
            score = score + self.config.compact_bonus as i64;
        }
        if h > 0 {
            let nine_w: i64 = 9 * (w as i64);
            let sixteen_h: i64 = 16 * (h as i64);
            let diff: i64 = if nine_w >= sixteen_h {
                nine_w - sixteen_h
            } else {
                sixteen_h - nine_w
            };
            if 5 * diff <= 9 * (h as i64) {
                score = score + self.config.aspect_16_9_bonus as i64;
            }
        }
        if app_id.unicode_len() == 0 {
            score = score + self.config.empty_app_id_bonus as i64;
        }
        if window.pid.is_some() {
            score = score + self.config.pid_present_bonus as i64;
        }
        if is_new {
            score = score + self.config.new_window_bonus as i64;
        }
        Some(score)
    }
}

} // verus!
