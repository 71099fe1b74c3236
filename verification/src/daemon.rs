//! The daemon's own decisions: which compositor process owns a socket, what the runtime
//! window rules say, how a client request is carried out and answered, and when to retry or
//! refresh.
use vstd::prelude::*;
use crate::config::{FollowMode, Placement};
use crate::engine::{
    apply_preset_result, effects_ok, nudge_result, pin_result, reset_geometry_result, resize_result, scale_result,
    set_follow_mode_result, set_follow_result, set_geometry_lock_result, set_position_result, snapshots_show,
    status_shows, toggle_result, unpin_result, Effect, Engine, EngineError, PresetApplication,
};
use crate::model::CompositorEvent;
use crate::protocol::{ControlPreset, DaemonRequest, DaemonResponse, DaemonResult, ResponseData, DAEMON_PROTOCOL_VERSION};
use crate::text::{
    chars_of, decimal_string, decimal_text, parse_unsigned, parse_unsigned_chars, push_str, signed_string, signed_text,
    two_decimals, two_decimals_text,
};

verus! {

/// What `Path::file_name` gives for a path: its last component, if it has one.
pub uninterp spec fn file_name_of(path: Seq<char>) -> Option<Seq<char>>;

/// The last component of a path, as `std::path::Path::file_name` gives it.
#[verifier::external_body]
fn path_file_name(path: &str) -> (r: Option<String>)
    ensures
        match r {
            Some(n) => file_name_of(path@) == Some(n@),
            None => file_name_of(path@) is None,
        },
{
    std::path::Path::new(path).file_name().and_then(|n| n.to_str()).map(|n| n.to_owned())
}

/// The part of `s` after its last `c`, when there is one.
pub open spec fn after_last_char(s: Seq<char>, c: char) -> Option<Seq<char>>
    decreases s.len(),
{
    if s.len() == 0 {
        None
    } else if s.last() == c {
        Some(Seq::empty())
    } else {
        match after_last_char(s.drop_last(), c) {
            Some(t) => Some(t.push(s.last())),
            None => None,
        }
    }
}

/// The process id in a socket file name of the form `<name>.<pid>.sock`.
pub open spec fn socket_pid_spec(name: Seq<char>) -> Option<nat> {
    let suffix = ".sock"@;
    if name.len() >= suffix.len() && name.skip(name.len() - suffix.len()) == suffix {
        match after_last_char(name.take(name.len() - suffix.len()), '.') {
            Some(pid) => parse_unsigned(pid, u32::MAX as nat),
            None => None,
        }
    } else {
        None
    }
}

/// The process id named by a socket file name such as `niri.wayland-1.4242.sock`.
pub fn pid_from_socket_name(name: &str) -> (r: Option<u32>)
    ensures
        match r {
            Some(p) => socket_pid_spec(name@) == Some(p as nat),
            None => socket_pid_spec(name@) is None,
        },
{
    proof {
        reveal_strlit(".sock");
    }
    let chars = chars_of(name);
    let n = chars.len();
    if n < 5 || chars[n - 5] != '.' || chars[n - 4] != 's' || chars[n - 3] != 'o' || chars[n - 2] != 'c'
        || chars[n - 1] != 'k' {
        proof {
            if n >= 5 {
                let t = chars@.skip(n - 5);
                if t == ".sock"@ {
                    assert(t[0] == '.' && t[1] == 's' && t[2] == 'o' && t[3] == 'c' && t[4] == 'k');
                }
            }
        }
        return None;
    }
    assert(chars@.skip(n - 5) =~= ".sock"@);
    let stem_len = n - 5;
    let ghost stem = chars@.take(stem_len as int);
    let mut i = stem_len;
    while i > 0 && chars[i - 1] != '.'
        invariant
            i <= stem_len < n,
            n == chars@.len(),
            stem == chars@.take(stem_len as int),
            forall|j: int| i <= j < stem_len ==> chars@[j] != '.',
        decreases i,
    {
        i = i - 1;
    }
    if i == 0 {
        proof {
            lemma_no_char_after_last(stem, '.');
        }
        return None;
    }
    let mut pid: Vec<char> = Vec::new();
    let mut j = i;
    while j < stem_len
        invariant
            i <= j <= stem_len < n,
            n == chars@.len(),
            pid@ == chars@.subrange(i as int, j as int),
        decreases stem_len - j,
    {
        pid.push(chars[j]);
        j = j + 1;
        assert(pid@ =~= chars@.subrange(i as int, j as int));
    }
    proof {
        lemma_after_last_char(stem, '.', i - 1);
        assert(stem.subrange(i as int, stem.len() as int) =~= pid@);
    }
    match parse_unsigned_chars(&pid, 0xFFFF_FFFF) {
        Some(p) => Some(p as u32),
        None => None,
    }
}

proof fn lemma_no_char_after_last(s: Seq<char>, c: char)
    requires
        forall|j: int| 0 <= j < s.len() ==> s[j] != c,
    ensures
        after_last_char(s, c) is None,
    decreases s.len(),
{
    if s.len() > 0 {
        lemma_no_char_after_last(s.drop_last(), c);
    }
}

proof fn lemma_after_last_char(s: Seq<char>, c: char, k: int)
    requires
        0 <= k < s.len(),
        s[k] == c,
        forall|j: int| k < j < s.len() ==> s[j] != c,
    ensures
        after_last_char(s, c) == Some(s.subrange(k + 1, s.len() as int)),
    decreases s.len(),
{
    if k < s.len() - 1 {
        lemma_after_last_char(s.drop_last(), c, k);
        assert(s.drop_last().subrange(k + 1, s.len() - 1).push(s.last()) =~= s.subrange(k + 1, s.len() as int));
    } else {
        assert(s.subrange(k + 1, s.len() as int) =~= Seq::<char>::empty());
    }
}

/// The process that owns a Niri socket whose file name carries its process id.
pub fn niri_socket_pid(path: &str) -> (r: Option<u32>)
    ensures
        match file_name_of(path@) {
            Some(name) => match socket_pid_spec(name) {
                Some(p) => r == Some(p as u32),
                None => r is None,
            },
            None => r is None,
        },
{
    match path_file_name(path) {
        Some(name) => pid_from_socket_name(name.as_str()),
        None => None,
    }
}

/// The first line of the runtime window rules.
pub open spec fn runtime_header() -> Seq<char> {
    "// Generated by niri-pip. Do not edit while niripipd is running.\n// The include is installed separately and can be removed without touching iNiR core files.\n\nwindow-rule {\nmatch title=r#\"(?i)^picture(?:[ -]?in[ -]?)picture$\"#\nopacity "@
}

/// The runtime window rules: a fixed opacity for PiP windows, or none.
pub open spec fn runtime_kdl_spec(opacity: Option<u8>) -> Seq<char> {
    match opacity {
        Some(p) => runtime_header() + two_decimals_text(p) + "\n}\n"@,
        None => "// Generated by niri-pip. Opacity mode: auto/inherit.\n"@,
    }
}

/// The runtime Niri window rules for a PiP opacity override.
pub fn runtime_kdl_body(opacity: Option<u8>) -> (r: String)
    ensures
        r@ == runtime_kdl_spec(opacity),
{
    match opacity {
        None => {
            let mut s = String::new();
            push_str(&mut s, "// Generated by niri-pip. Opacity mode: auto/inherit.\n");
            s
        },
        Some(p) => {
            let mut s = String::new();
            push_str(&mut s, "// Generated by niri-pip. Do not edit while niripipd is running.\n// The include is installed separately and can be removed without touching iNiR core files.\n\nwindow-rule {\nmatch title=r#\"(?i)^picture(?:[ -]?in[ -]?)picture$\"#\nopacity ");
            let frac = two_decimals(p);
            push_str(&mut s, frac.as_str());
            push_str(&mut s, "\n}\n");
            s
        },
    }
}

/// What a carried-out client request did, for the reply message.
#[derive(Debug, Clone, Copy, PartialEq, Eq, Structural)]
pub enum RequestOutcome {
    Pinned,
    Unpinned,
    Toggled,
    Resized { width: u32, height: u32 },
    Scaled { percent: i32 },
    Positioned { placement: Placement },
    Moved { dx: i32, dy: i32 },
    FollowSet { enabled: bool },
    FollowModeSet { mode: FollowMode },
    GeometryLockSet { locked: bool },
    GeometryReset,
    OpacitySet { percent: Option<u8> },
    PresetApplied { preset: ControlPreset },
    ConfigReloaded,
    EnabledSet { enabled: bool },
}

/// The name a placement is reported by.
pub open spec fn placement_label(p: Placement) -> Seq<char> {
    match p {
        Placement::TopLeft => "TopLeft"@,
        Placement::TopRight => "TopRight"@,
        Placement::BottomLeft => "BottomLeft"@,
        Placement::BottomRight => "BottomRight"@,
        Placement::Center => "Center"@,
    }
}

/// The name a follow mode is reported by.
pub open spec fn follow_mode_label(m: FollowMode) -> Seq<char> {
    match m {
        FollowMode::FollowWorkspace => "FollowWorkspace"@,
        FollowMode::FollowFocusedOutput => "FollowFocusedOutput"@,
        FollowMode::StayOnOutput => "StayOnOutput"@,
    }
}

/// The name a preset is reported by.
pub open spec fn preset_label(p: ControlPreset) -> Seq<char> {
    match p {
        ControlPreset::Tiny => "Tiny"@,
        ControlPreset::Small => "Small"@,
        ControlPreset::Medium => "Medium"@,
        ControlPreset::Large => "Large"@,
        ControlPreset::Cinema => "Cinema"@,
        ControlPreset::Movie => "Movie"@,
        ControlPreset::Study => "Study"@,
    }
}

/// The message the client is answered with for a carried-out request.
pub open spec fn reply_text(o: RequestOutcome) -> Seq<char> {
    match o {
        RequestOutcome::Pinned => "window pinned"@,
        RequestOutcome::Unpinned => "window unpinned"@,
        RequestOutcome::Toggled => "window pin state toggled"@,
        RequestOutcome::Resized { width, height } => "window resized to "@ + decimal_text(width as nat) + "x"@
            + decimal_text(height as nat),
        RequestOutcome::Scaled { percent } => "window scaled by "@ + signed_text(percent as int, true) + "%"@,
        RequestOutcome::Positioned { placement } => "window position set to "@ + placement_label(placement),
        RequestOutcome::Moved { dx, dy } => "window moved by x="@ + signed_text(dx as int, false) + ", y="@
            + signed_text(dy as int, false),
        RequestOutcome::FollowSet { enabled } => "workspace follow "@ + (if enabled {
            "enabled"@
        } else {
            "disabled"@
        }),
        RequestOutcome::FollowModeSet { mode } => "follow mode set to "@ + follow_mode_label(mode),
        RequestOutcome::GeometryLockSet { locked } => if locked {
            "geometry locked"@
        } else {
            "geometry unlocked"@
        },
        RequestOutcome::GeometryReset => "window controls reset to configured defaults"@,
        RequestOutcome::OpacitySet { percent } => match percent {
            Some(p) => "PiP opacity set to "@ + decimal_text(p as nat) + "%"@,
            None => "PiP opacity set to auto/inherit"@,
        },
        RequestOutcome::PresetApplied { preset } => "preset "@ + preset_label(preset) + " applied"@,
        RequestOutcome::ConfigReloaded => "configuration reloaded"@,
        RequestOutcome::EnabledSet { enabled } => "niri-pip "@ + (if enabled {
            "enabled"@
        } else {
            "disabled"@
        }),
    }
}

pub(crate) fn placement_name(p: Placement) -> (r: &'static str)
    ensures
        r@ == placement_label(p),
{
    match p {
        Placement::TopLeft => "TopLeft",
        Placement::TopRight => "TopRight",
        Placement::BottomLeft => "BottomLeft",
        Placement::BottomRight => "BottomRight",
        Placement::Center => "Center",
    }
}

pub(crate) fn follow_mode_name(m: FollowMode) -> (r: &'static str)
    ensures
        r@ == follow_mode_label(m),
{
    match m {
        FollowMode::FollowWorkspace => "FollowWorkspace",
        FollowMode::FollowFocusedOutput => "FollowFocusedOutput",
        FollowMode::StayOnOutput => "StayOnOutput",
    }
}

fn preset_name(p: ControlPreset) -> (r: &'static str)
    ensures
        r@ == preset_label(p),
{
    match p {
        ControlPreset::Tiny => "Tiny",
        ControlPreset::Small => "Small",
        ControlPreset::Medium => "Medium",
        ControlPreset::Large => "Large",
        ControlPreset::Cinema => "Cinema",
        ControlPreset::Movie => "Movie",
        ControlPreset::Study => "Study",
    }
}

fn on_off_word(on: bool) -> (r: &'static str)
    ensures
        r@ == (if on {
            "enabled"@
        } else {
            "disabled"@
        }),
{
    if on {
        "enabled"
    } else {
        "disabled"
    }
}

impl RequestOutcome {
    /// The message the client is answered with.
    pub fn message(&self) -> (r: String)
        ensures
            r@ == reply_text(*self),
    {
        match *self {
            RequestOutcome::Pinned => "window pinned".to_owned(),
            RequestOutcome::Unpinned => "window unpinned".to_owned(),
            RequestOutcome::Toggled => "window pin state toggled".to_owned(),
            RequestOutcome::Resized { width, height } => {
                let mut r = "window resized to ".to_owned();
                push_str(&mut r, decimal_string(width as u64).as_str());
                push_str(&mut r, "x");
                push_str(&mut r, decimal_string(height as u64).as_str());
                r
            },
            RequestOutcome::Scaled { percent } => {
                let mut r = "window scaled by ".to_owned();
                push_str(&mut r, signed_string(percent, true).as_str());
                push_str(&mut r, "%");
                r
            },
            RequestOutcome::Positioned { placement } => {
                let mut r = "window position set to ".to_owned();
                push_str(&mut r, placement_name(placement));
                r
            },
            RequestOutcome::Moved { dx, dy } => {
                let mut r = "window moved by x=".to_owned();
                push_str(&mut r, signed_string(dx, false).as_str());
                push_str(&mut r, ", y=");
                push_str(&mut r, signed_string(dy, false).as_str());
                r
            },
            RequestOutcome::FollowSet { enabled } => {
                let mut r = "workspace follow ".to_owned();
                push_str(&mut r, on_off_word(enabled));
                r
            },
            RequestOutcome::FollowModeSet { mode } => {
                let mut r = "follow mode set to ".to_owned();
                push_str(&mut r, follow_mode_name(mode));
                r
            },
            RequestOutcome::GeometryLockSet { locked } => if locked {
                "geometry locked".to_owned()
            } else {
                "geometry unlocked".to_owned()
            },
            RequestOutcome::GeometryReset => "window controls reset to configured defaults".to_owned(),
            RequestOutcome::OpacitySet { percent } => match percent {
                Some(p) => {
                    let mut r = "PiP opacity set to ".to_owned();
                    push_str(&mut r, decimal_string(p as u64).as_str());
                    push_str(&mut r, "%");
                    r
                },
                None => "PiP opacity set to auto/inherit".to_owned(),
            },
            RequestOutcome::PresetApplied { preset } => {
                let mut r = "preset ".to_owned();
                push_str(&mut r, preset_name(preset));
                push_str(&mut r, " applied");
                r
            },
            RequestOutcome::ConfigReloaded => "configuration reloaded".to_owned(),
            RequestOutcome::EnabledSet { enabled } => {
                let mut r = "niri-pip ".to_owned();
                push_str(&mut r, on_off_word(enabled));
                r
            },
        }
    }
}

/// What the daemon does next for a client request, once the engine has decided.
#[derive(Debug)]
pub enum DaemonStep {
    /// Answer with this data.
    Reply(ResponseData),
    /// Carry out these actions, then answer with the outcome.
    Apply { effects: Vec<Effect>, outcome: RequestOutcome },
    /// Carry out these actions and write the runtime rules for `opacity`; if writing fails,
    /// set the opacity override back to `previous` and fail.
    ApplyWithOpacity { effects: Vec<Effect>, opacity: Option<u8>, previous: Option<u8>, outcome: RequestOutcome },
    /// Load the configuration file and hand it to the engine.
    ReloadConfig,
    /// The request is not one this daemon carries out.
    Unsupported,
}

/// The actions of a step keep the engine's laws.
pub open spec fn step_ok(step: DaemonStep, engine: Engine) -> bool {
    match step {
        DaemonStep::Apply { effects, .. } => effects_ok(effects@, engine.windows_view()),
        DaemonStep::ApplyWithOpacity { effects, .. } => effects_ok(effects@, engine.windows_view()),
        _ => true,
    }
}

fn applied(r: Result<Vec<Effect>, EngineError>, outcome: RequestOutcome) -> (s: Result<DaemonStep, EngineError>)
    ensures
        match r {
            Ok(effects) => s matches Ok(DaemonStep::Apply { effects: e, outcome: o }) && e == effects && o == outcome,
            Err(e) => s matches Err(x) && x == e,
        },
{
    match r {
        Ok(effects) => Ok(DaemonStep::Apply { effects, outcome }),
        Err(e) => Err(e),
    }
}

/// The engine's answer that a daemon step carries, for a request reported as `outcome`.
pub open spec fn engine_answer(
    r: Result<DaemonStep, EngineError>,
    outcome: RequestOutcome,
) -> Option<Result<Vec<Effect>, EngineError>> {
    match r {
        Ok(DaemonStep::Apply { effects, outcome: o }) => if o == outcome {
            Some(Ok(effects))
        } else {
            None
        },
        Err(e) => Some(Err(e)),
        _ => None,
    }
}

/// Carries out a client request on the engine, up to what needs the outside world.
pub fn plan_daemon_request(engine: &mut Engine, request: DaemonRequest) -> (r: Result<DaemonStep, EngineError>)
    requires
        old(engine).wf(),
    ensures
        final(engine).wf(),
        r matches Ok(step) ==> step_ok(step, *final(engine)),
        match request {
            DaemonRequest::Status => r matches Ok(DaemonStep::Reply(ResponseData::Status(s)))
                && status_shows(*old(engine), s) && *final(engine) == *old(engine),
            DaemonRequest::List => r matches Ok(DaemonStep::Reply(ResponseData::Windows { windows }))
                && snapshots_show(*old(engine), windows) && *final(engine) == *old(engine),
            DaemonRequest::ReloadConfig => r matches Ok(DaemonStep::ReloadConfig) && *final(engine) == *old(engine),
            DaemonRequest::SetEnabled { enabled } => r matches Ok(DaemonStep::Apply { effects, outcome })
                && effects@.len() == 0 && outcome == (RequestOutcome::EnabledSet { enabled })
                && final(engine).enabled_view() == enabled,
            DaemonRequest::SetOpacity { percent } => if percent matches Some(p) && !(10 <= p <= 100) {
                r matches Err(EngineError::InvalidOpacity)
            } else {
                r matches Ok(DaemonStep::ApplyWithOpacity { effects, opacity, previous, outcome })
                    && effects@.len() == 0 && opacity == percent
                    && previous == old(engine).persistent_view().pip_opacity_percent
                    && outcome == (RequestOutcome::OpacitySet { percent })
                    && final(engine).persistent_view().pip_opacity_percent == percent
            },
            DaemonRequest::ApplyPreset { window_id, preset } => match r {
                Ok(DaemonStep::ApplyWithOpacity { effects, opacity, previous, outcome }) => {
                    &&& previous == old(engine).persistent_view().pip_opacity_percent
                    &&& outcome == (RequestOutcome::PresetApplied { preset })
                    &&& apply_preset_result(*old(engine), *final(engine), window_id, preset,
                        Ok(PresetApplication { effects, opacity_percent: opacity }))
                },
                Err(e) => apply_preset_result(*old(engine), *final(engine), window_id, preset, Err(e)),
                _ => false,
            },
            DaemonRequest::Pin { window_id } => engine_answer(r, RequestOutcome::Pinned) matches Some(a)
                && pin_result(*old(engine), *final(engine), window_id, a),
            DaemonRequest::Unpin { window_id } => engine_answer(r, RequestOutcome::Unpinned) matches Some(a)
                && unpin_result(*old(engine), *final(engine), window_id, a),
            DaemonRequest::Toggle { window_id } => engine_answer(r, RequestOutcome::Toggled) matches Some(a)
                && toggle_result(*old(engine), *final(engine), window_id, a),
            DaemonRequest::Resize { window_id, width, height } => engine_answer(r, RequestOutcome::Resized { width, height })
                matches Some(a) && resize_result(*old(engine), *final(engine), window_id, width, height, a),
            DaemonRequest::Scale { window_id, percent } => engine_answer(r, RequestOutcome::Scaled { percent })
                matches Some(a) && scale_result(*old(engine), *final(engine), window_id, percent, a),
            DaemonRequest::SetPosition { window_id, placement } => engine_answer(r, RequestOutcome::Positioned { placement })
                matches Some(a) && set_position_result(*old(engine), *final(engine), window_id, placement, a),
            DaemonRequest::Nudge { window_id, dx, dy } => engine_answer(r, RequestOutcome::Moved { dx, dy })
                matches Some(a) && nudge_result(*old(engine), *final(engine), window_id, dx, dy, a),
            DaemonRequest::SetFollow { window_id, enabled } => engine_answer(r, RequestOutcome::FollowSet { enabled })
                matches Some(a) && set_follow_result(*old(engine), *final(engine), window_id, enabled, a),
            DaemonRequest::SetFollowMode { window_id, mode } => engine_answer(r, RequestOutcome::FollowModeSet { mode })
                matches Some(a) && set_follow_mode_result(*old(engine), *final(engine), window_id, mode, a),
            DaemonRequest::SetGeometryLock { window_id, locked } => engine_answer(r, RequestOutcome::GeometryLockSet { locked })
                matches Some(a) && set_geometry_lock_result(*old(engine), *final(engine), window_id, locked, a),
            DaemonRequest::ResetGeometry { window_id } => engine_answer(r, RequestOutcome::GeometryReset) matches Some(a)
                && reset_geometry_result(*old(engine), *final(engine), window_id, a),
            _ => r matches Ok(DaemonStep::Unsupported) && *final(engine) == *old(engine),
        },
{
    match request {
        DaemonRequest::Status => Ok(DaemonStep::Reply(ResponseData::Status(engine.status_snapshot()))),
        DaemonRequest::List => Ok(DaemonStep::Reply(ResponseData::Windows { windows: engine.tracked_snapshots() })),
        DaemonRequest::Pin { window_id } => applied(engine.pin(window_id), RequestOutcome::Pinned),
        DaemonRequest::Unpin { window_id } => applied(engine.unpin(window_id), RequestOutcome::Unpinned),
        DaemonRequest::Toggle { window_id } => applied(engine.toggle(window_id), RequestOutcome::Toggled),
        DaemonRequest::Resize { window_id, width, height } => applied(
            engine.resize(window_id, width, height),
            RequestOutcome::Resized { width, height },
        ),
        DaemonRequest::Scale { window_id, percent } => applied(engine.scale(window_id, percent), RequestOutcome::Scaled { percent }),
        DaemonRequest::SetPosition { window_id, placement } => applied(
            engine.set_position(window_id, placement),
            RequestOutcome::Positioned { placement },
        ),
        DaemonRequest::Nudge { window_id, dx, dy } => applied(engine.nudge(window_id, dx, dy), RequestOutcome::Moved { dx, dy }),
        DaemonRequest::SetFollow { window_id, enabled } => applied(
            engine.set_follow(window_id, enabled),
            RequestOutcome::FollowSet { enabled },
        ),
        DaemonRequest::SetFollowMode { window_id, mode } => applied(
            engine.set_follow_mode(window_id, mode),
            RequestOutcome::FollowModeSet { mode },
        ),
        DaemonRequest::SetGeometryLock { window_id, locked } => applied(
            engine.set_geometry_lock(window_id, locked),
            RequestOutcome::GeometryLockSet { locked },
        ),
        DaemonRequest::ResetGeometry { window_id } => applied(engine.reset_geometry(window_id), RequestOutcome::GeometryReset),
        DaemonRequest::SetOpacity { percent } => {
            let previous = engine.opacity_override_percent();
            match engine.set_opacity_override_percent(percent) {
                Ok(()) => Ok(DaemonStep::ApplyWithOpacity {
                    effects: Vec::new(),
                    opacity: percent,
                    previous,
                    outcome: RequestOutcome::OpacitySet { percent },
                }),
                Err(e) => Err(e),
            }
        },
        DaemonRequest::ApplyPreset { window_id, preset } => {
            let previous = engine.opacity_override_percent();
            match engine.apply_preset(window_id, preset) {
                Ok(application) => Ok(DaemonStep::ApplyWithOpacity {
                    effects: application.effects,
                    opacity: application.opacity_percent,
                    previous,
                    outcome: RequestOutcome::PresetApplied { preset },
                }),
                Err(e) => Err(e),
            }
        },
        DaemonRequest::ReloadConfig => Ok(DaemonStep::ReloadConfig),
        DaemonRequest::SetEnabled { enabled } => {
            engine.set_enabled(enabled);
            Ok(DaemonStep::Apply { effects: Vec::new(), outcome: RequestOutcome::EnabledSet { enabled } })
        },
        _ => Ok(DaemonStep::Unsupported),
    }
}

/// A reply to a client under the current protocol version.
pub fn daemon_response(result: DaemonResult) -> (r: DaemonResponse)
    ensures
        r.protocol_version == DAEMON_PROTOCOL_VERSION,
        r.result == result,
{
    DaemonResponse { protocol_version: DAEMON_PROTOCOL_VERSION, result }
}

/// The first wait before reconnecting to Niri, and the longest, in milliseconds.
pub const RECONNECT_FIRST_MS: u64 = 250;
/// The longest wait before reconnecting to Niri, in milliseconds.
pub const RECONNECT_MAX_MS: u64 = 15_000;

/// The wait before the next reconnection attempt: twice the last one, at most fifteen
/// seconds, and back to the first wait once Niri answers again.
pub fn next_backoff(current_ms: u64, niri_answers: bool) -> (r: u64)
    ensures
        niri_answers ==> r == RECONNECT_FIRST_MS,
        !niri_answers ==> r == (if 2 * current_ms < RECONNECT_MAX_MS { 2 * current_ms } else { RECONNECT_MAX_MS as int }),
{
    if niri_answers {
        RECONNECT_FIRST_MS
    } else if current_ms < RECONNECT_MAX_MS / 2 + 1 && 2 * current_ms < RECONNECT_MAX_MS {
        2 * current_ms
    } else {
        RECONNECT_MAX_MS
    }
}

/// Outputs are asked for again at most this often, in milliseconds.
pub const OUTPUT_REFRESH_MS: u64 = 2000;

/// What to do after handing an event to the engine.
#[derive(Debug, Clone, Copy, PartialEq, Eq, Structural)]
pub struct EventFollowUp {
    /// Ask Niri for the outputs again.
    pub refresh_outputs: bool,
    /// Reconcile workspace following after the debounce delay.
    pub schedule_follow: bool,
}

/// After a workspace or layout change, outputs are refreshed (at most every two seconds);
/// after a workspace gains focus, workspace following is reconciled.
pub fn event_follow_up(event: &CompositorEvent, ms_since_output_refresh: u64) -> (r: EventFollowUp)
    ensures
        r.refresh_outputs == ((*event is WorkspacesChanged || *event is WindowLayoutsChanged)
            && ms_since_output_refresh >= OUTPUT_REFRESH_MS),
        r.schedule_follow == (*event matches CompositorEvent::WorkspaceActivated { focused, .. } && focused),
{
    let hint = match event {
        CompositorEvent::WorkspacesChanged(_) => true,
        CompositorEvent::WindowLayoutsChanged(_) => true,
        _ => false,
    };
    let activation = match event {
        CompositorEvent::WorkspaceActivated { focused, .. } => *focused,
        _ => false,
    };
    EventFollowUp { refresh_outputs: hint && ms_since_output_refresh >= OUTPUT_REFRESH_MS, schedule_follow: activation }
}

} // verus!
