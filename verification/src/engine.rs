//! The decision engine: from compositor events and user commands to compositor actions.
//!
//! Times are milliseconds on a monotonic clock that starts when the engine is created.
use vstd::prelude::*;
use crate::config::{Config, DetectionAction, FollowMode, Placement, PositionMode, SizeProfile};
use crate::detector::{best_match, kept_detectors, DetectorEngine, DetectorError};
use crate::geometry::{
    corner_placement, proportion, proportion_of, round_div, rounded_sqrt_ratio, PlacementPlan,
};
use crate::idmap::{IdMap, Keyed};
use crate::model::{
    copy_opt_string, logical_size_of, output_info_eq, same_output, CompositorAction,
    CompositorEvent, LogicalOutput, OutputInfo, PositionChange, SizeChange, WindowInfo,
    WindowLayout, WorkspaceInfo, FULL_PERCENT, PIXEL_UNIT,
};
use crate::protocol::{ControlPreset, StatusSnapshot, TrackedWindowSnapshot};
use crate::text::{decimal_string, decimal_text, push_str};
use crate::state::{PersistentState, RememberedControls, RememberedGeometry, STATE_SCHEMA_VERSION};

verus! {

/// The version reported in status snapshots.
pub const ENGINE_VERSION: &'static str = "0.3.1";

/// Why the engine refused a command or a configuration.
#[derive(Debug, Clone)]
pub enum EngineError {
    Detector(DetectorError),
    WindowNotFound(u64),
    NoFocusedWindow,
    NoTrackedWindow,
    AmbiguousTrackedWindow,
    NotPinned(u64),
    Disabled,
    InvalidSize(u32, u32),
    InvalidScale,
    InvalidOpacity,
}

/// The text that reports an engine error.
pub open spec fn error_text(e: EngineError) -> Seq<char> {
    match e {
        EngineError::Detector(d) => crate::detector::detector_error_text(d),
        EngineError::WindowNotFound(id) => "window #"@ + decimal_text(id as nat) + " does not exist"@,
        EngineError::NoFocusedWindow => "no focused window"@,
        EngineError::NoTrackedWindow => "no tracked PiP/pinned window"@,
        EngineError::AmbiguousTrackedWindow => "more than one tracked window matches; pass --window-id"@,
        EngineError::NotPinned(id) => "window #"@ + decimal_text(id as nat) + " is not pinned"@,
        EngineError::Disabled => "niri-pip is disabled"@,
        EngineError::InvalidSize(w, h) => "invalid size "@ + decimal_text(w as nat) + "x"@ + decimal_text(h as nat)
            + "; minimum is 120x68 and each dimension must fit Niri IPC i32"@,
        EngineError::InvalidScale => "scale must keep the window at least 120x68"@,
        EngineError::InvalidOpacity => "opacity must be between 10 and 100 percent, or auto"@,
    }
}

impl EngineError {
    /// The text that reports the error.
    pub fn message(&self) -> (r: String)
        ensures
            r@ == error_text(*self),
    {
        match self {
            EngineError::Detector(d) => d.message(),
            EngineError::WindowNotFound(id) => {
                let mut r = "window #".to_owned();
                push_str(&mut r, decimal_string(*id).as_str());
                push_str(&mut r, " does not exist");
                r
            },
            EngineError::NoFocusedWindow => "no focused window".to_owned(),
            EngineError::NoTrackedWindow => "no tracked PiP/pinned window".to_owned(),
            EngineError::AmbiguousTrackedWindow => "more than one tracked window matches; pass --window-id".to_owned(),
            EngineError::NotPinned(id) => {
                let mut r = "window #".to_owned();
                push_str(&mut r, decimal_string(*id).as_str());
                push_str(&mut r, " is not pinned");
                r
            },
            EngineError::Disabled => "niri-pip is disabled".to_owned(),
            EngineError::InvalidSize(w, h) => {
                let mut r = "invalid size ".to_owned();
                push_str(&mut r, decimal_string(*w as u64).as_str());
                push_str(&mut r, "x");
                push_str(&mut r, decimal_string(*h as u64).as_str());
                push_str(&mut r, "; minimum is 120x68 and each dimension must fit Niri IPC i32");
                r
            },
            EngineError::InvalidScale => "scale must keep the window at least 120x68".to_owned(),
            EngineError::InvalidOpacity => "opacity must be between 10 and 100 percent, or auto".to_owned(),
        }
    }
}

/// How a window came to be managed: recognised as PiP, or pinned by hand.
#[derive(Debug, Clone, Copy, PartialEq, Eq, Structural)]
pub enum TrackedMode {
    AutoPip,
    ManualPin,
}

/// What the engine asks of the outside world.
#[derive(Debug, Clone, Copy, PartialEq, Eq)]
pub enum Effect {
    Action(CompositorAction),
}

/// The actions of a preset, and the opacity it asks for.
#[derive(Debug)]
pub struct PresetApplication {
    pub effects: Vec<Effect>,
    pub opacity_percent: Option<u8>,
}

/// A workspace move that was asked for and not yet seen done.
#[derive(Debug, Clone, Copy)]
pub struct PendingWorkspaceMove {
    pub target: u64,
    pub issued_at: u64,
}

/// A window that the engine manages.
#[derive(Debug)]
pub struct TrackedWindow {
    pub id: u64,
    pub mode: TrackedMode,
    pub detector: Option<String>,
    pub score: Option<i64>,
    pub follow_enabled: bool,
    pub follow_mode: FollowMode,
    pub original_was_floating: bool,
    /// For a window pinned by hand: the workspace it was on when the pin began.
    pub origin_workspace: Option<u64>,
    /// For a window pinned by hand: its window size when the pin began, where it was known.
    pub origin_size: Option<(i32, i32)>,
    /// For a window pinned by hand from floating: its position as a share of its output when
    /// the pin began, where it was known.
    pub origin_position: Option<(u32, u32)>,
    pub placement: Placement,
    pub managed_size: Option<(u32, u32)>,
    pub pending_workspace: Option<PendingWorkspaceMove>,
    /// Until this time, layout changes are taken as the echo of the engine's own actions.
    pub suppress_geometry_until: u64,
    pub geometry_locked: bool,
    pub locked_geometry: Option<RememberedGeometry>,
}

impl TrackedWindow {
    fn duplicate(&self) -> (r: Self)
        ensures
            r == *self,
    {
        TrackedWindow {
            id: self.id,
            mode: self.mode,
            detector: copy_opt_string(&self.detector),
            score: self.score,
            follow_enabled: self.follow_enabled,
            follow_mode: self.follow_mode,
            original_was_floating: self.original_was_floating,
            origin_workspace: self.origin_workspace,
            origin_size: self.origin_size,
            origin_position: self.origin_position,
            placement: self.placement,
            managed_size: self.managed_size,
            pending_workspace: self.pending_workspace,
            suppress_geometry_until: self.suppress_geometry_until,
            geometry_locked: self.geometry_locked,
            locked_geometry: self.locked_geometry,
        }
    }
}

#[derive(Debug, Clone, Copy)]
struct FocusCandidate {
    id: u64,
    opened_at: u64,
    previous: Option<u64>,
}

impl Keyed for WindowInfo {
    open spec fn key_of(&self) -> u64 {
        self.id
    }

    fn key(&self) -> (r: u64) {
        self.id
    }
}

impl Keyed for WorkspaceInfo {
    open spec fn key_of(&self) -> u64 {
        self.id
    }

    fn key(&self) -> (r: u64) {
        self.id
    }
}

impl Keyed for TrackedWindow {
    open spec fn key_of(&self) -> u64 {
        self.id
    }

    fn key(&self) -> (r: u64) {
        self.id
    }
}

impl Keyed for FocusCandidate {
    closed spec fn key_of(&self) -> u64 {
        self.id
    }

    fn key(&self) -> (r: u64) {
        self.id
    }
}

/// `std::time::Instant`, as an opaque type.
#[verifier::external_type_specification]
#[verifier::external_body]
pub struct ExInstant(std::time::Instant);

/// Calls `std::time::Instant::now`. Nothing is claimed of the instant.
#[verifier::external_body]
fn instant_now() -> std::time::Instant {
    std::time::Instant::now()
}

/// Calls `std::time::Instant::elapsed`. Nothing is claimed of the duration.
#[verifier::external_body]
fn instant_elapsed(start: &std::time::Instant) -> core::time::Duration {
    start.elapsed()
}

/// Calls `core::time::Duration::as_millis`. Nothing is claimed of the number.
#[verifier::external_body]
fn duration_millis(d: &core::time::Duration) -> u128 {
    d.as_millis()
}

/// A count of milliseconds as a `u64`, the largest `u64` where it does not fit.
fn saturating_millis(ms: u128) -> (r: u64)
    ensures
        r == (if ms > u64::MAX as u128 { u64::MAX as int } else { ms as int }),
{
    if ms > 0xFFFF_FFFF_FFFF_FFFF {
        0xFFFF_FFFF_FFFF_FFFF
    } else {
        ms as u64
    }
}

/// The window size captured when a pin begins: its size where both sides are known.
pub open spec fn captured_size(w: WindowInfo) -> Option<(i32, i32)> {
    if w.layout.window_size.0 > 0 && w.layout.window_size.1 > 0 {
        Some(w.layout.window_size)
    } else {
        None
    }
}

fn capture_size(w: &WindowInfo) -> (r: Option<(i32, i32)>)
    ensures
        r == captured_size(*w),
{
    let (width, height) = w.layout.window_size;
    if width > 0 && height > 0 {
        Some((width, height))
    } else {
        None
    }
}

/// What unpinning managed window `t`, now `w`, asks of the compositor. A window pinned by
/// hand goes back to the workspace it was pinned on where it is elsewhere, back to tiling
/// where it was tiled and `restore_layout` asks for it, back to its captured size where its
/// size changed, and, where it was floating, back to its captured position where that was
/// known; an automatic PiP window is left as it is.
pub open spec fn unpin_effects(t: TrackedWindow, w: WindowInfo, restore_layout: bool) -> Seq<Effect> {
    if t.mode == TrackedMode::ManualPin {
        let id = t.id;
        let back = match t.origin_workspace {
            Some(w0) => if w.workspace_id != Some(w0) {
                seq![Effect::Action(CompositorAction::MoveWindowToWorkspace { window_id: id, workspace_id: w0, focus: false })]
            } else {
                Seq::<Effect>::empty()
            },
            None => Seq::<Effect>::empty(),
        };
        let tiled = if restore_layout && !t.original_was_floating {
            seq![Effect::Action(CompositorAction::MoveWindowToTiling { id })]
        } else {
            Seq::<Effect>::empty()
        };
        let sized = match t.origin_size {
            Some(size) => if w.layout.window_size != size {
                seq![
                    Effect::Action(CompositorAction::SetWindowWidth { id, change: SizeChange::SetFixed(size.0) }),
                    Effect::Action(CompositorAction::SetWindowHeight { id, change: SizeChange::SetFixed(size.1) }),
                ]
            } else {
                Seq::<Effect>::empty()
            },
            None => Seq::<Effect>::empty(),
        };
        let placed = match t.origin_position {
            Some(p) => if t.original_was_floating {
                seq![Effect::Action(CompositorAction::MoveFloatingWindow {
                    id,
                    x: PositionChange::SetProportion(p.0 as i64),
                    y: PositionChange::SetProportion(p.1 as i64),
                })]
            } else {
                Seq::<Effect>::empty()
            },
            None => Seq::<Effect>::empty(),
        };
        back + tiled + sized + placed
    } else {
        Seq::<Effect>::empty()
    }
}

fn origin_restore(t: &TrackedWindow, w: &WindowInfo, restore_layout: bool) -> (r: Vec<Effect>)
    ensures
        r@ == unpin_effects(*t, *w, restore_layout),
{
    let mut effects: Vec<Effect> = Vec::new();
    if t.mode == TrackedMode::ManualPin {
        let id = t.id;
        if let Some(w0) = t.origin_workspace {
            let moved = match w.workspace_id {
                Some(cur) => cur != w0,
                None => true,
            };
            if moved {
                effects.push(Effect::Action(CompositorAction::MoveWindowToWorkspace { window_id: id, workspace_id: w0, focus: false }));
            }
        }
        let ghost e1 = effects@;
        if restore_layout && !t.original_was_floating {
            effects.push(Effect::Action(CompositorAction::MoveWindowToTiling { id }));
        }
        if let Some(size) = t.origin_size {
            let (cw, ch) = w.layout.window_size;
            if cw != size.0 || ch != size.1 {
                effects.push(Effect::Action(CompositorAction::SetWindowWidth { id, change: SizeChange::SetFixed(size.0) }));
                effects.push(Effect::Action(CompositorAction::SetWindowHeight { id, change: SizeChange::SetFixed(size.1) }));
            }
        }
        if let Some(p) = t.origin_position {
            if t.original_was_floating {
                effects.push(Effect::Action(CompositorAction::MoveFloatingWindow {
                    id,
                    x: PositionChange::SetProportion(p.0 as i64),
                    y: PositionChange::SetProportion(p.1 as i64),
                }));
            }
        }
        proof {
            let back = match t.origin_workspace {
                Some(w0) => if w.workspace_id != Some(w0) {
                    seq![Effect::Action(CompositorAction::MoveWindowToWorkspace { window_id: id, workspace_id: w0, focus: false })]
                } else {
                    Seq::<Effect>::empty()
                },
                None => Seq::<Effect>::empty(),
            };
            assert(e1 =~= back);
            assert(effects@ =~= unpin_effects(*t, *w, restore_layout));
        }
    }
    effects
}

/// The effect that moves a floating window to a planned position.
pub open spec fn place_action(id: u64, plan: PlacementPlan) -> Effect {
    Effect::Action(
        CompositorAction::MoveFloatingWindow {
            id,
            x: PositionChange::SetProportion(plan.x_percent as i64),
            y: PositionChange::SetProportion(plan.y_percent as i64),
        },
    )
}

fn place_effect(id: u64, plan: PlacementPlan) -> (r: Effect)
    ensures
        r == place_action(id, plan),
{
    Effect::Action(
        CompositorAction::MoveFloatingWindow {
            id,
            x: PositionChange::SetProportion(plan.x_percent as i64),
            y: PositionChange::SetProportion(plan.y_percent as i64),
        },
    )
}

/// Every workspace move among the effects leaves focus where it is.
pub open spec fn moves_keep_focus(effects: Seq<Effect>) -> bool {
    forall|i: int|
        0 <= i < effects.len() ==> !(#[trigger] effects[i] matches Effect::Action(
            CompositorAction::MoveWindowToWorkspace { focus, .. },
        ) && focus)
}

/// None of the effects resizes a window.
pub open spec fn no_resize(effects: Seq<Effect>) -> bool {
    forall|i: int|
        0 <= i < effects.len() ==> !(#[trigger] effects[i] matches Effect::Action(
            CompositorAction::SetWindowWidth { .. },
        )) && !(effects[i] matches Effect::Action(CompositorAction::SetWindowHeight { .. }))
}

/// The id of the window that an action concerns.
pub open spec fn action_window(a: CompositorAction) -> u64 {
    match a {
        CompositorAction::FocusWindow { id } => id,
        CompositorAction::MoveWindowToFloating { id } => id,
        CompositorAction::MoveWindowToTiling { id } => id,
        CompositorAction::SetWindowWidth { id, .. } => id,
        CompositorAction::SetWindowHeight { id, .. } => id,
        CompositorAction::MoveFloatingWindow { id, .. } => id,
        CompositorAction::MoveWindowToWorkspace { window_id, .. } => window_id,
    }
}

/// Every effect concerns a window in `ids`.
pub open spec fn effects_within(effects: Seq<Effect>, known: Map<u64, WindowInfo>) -> bool {
    forall|i: int|
        0 <= i < effects.len() ==> (#[trigger] effects[i] matches Effect::Action(a)
            && known.contains_key(action_window(a)))
}

/// The laws that every batch of effects keeps.
pub open spec fn effects_ok(effects: Seq<Effect>, known: Map<u64, WindowInfo>) -> bool {
    moves_keep_focus(effects) && effects_within(effects, known)
}

proof fn lemma_effects_ok_concat(a: Seq<Effect>, b: Seq<Effect>, known: Map<u64, WindowInfo>)
    requires
        effects_ok(a, known),
        effects_ok(b, known),
    ensures
        effects_ok(a + b, known),
{
    assert forall|i: int| 0 <= i < (a + b).len() implies !(#[trigger] (a + b)[i] matches Effect::Action(
        CompositorAction::MoveWindowToWorkspace { focus, .. },
    ) && focus) by {
        if i < a.len() {
            assert((a + b)[i] == a[i]);
        } else {
            assert((a + b)[i] == b[i - a.len()]);
        }
    }
    assert forall|i: int| 0 <= i < (a + b).len() implies (#[trigger] (a + b)[i] matches Effect::Action(
        x,
    ) && known.contains_key(action_window(x))) by {
        if i < a.len() {
            assert((a + b)[i] == a[i]);
        } else {
            assert((a + b)[i] == b[i - a.len()]);
        }
    }
}

/// Appends `b` to `a`, keeping the laws of both.
fn append_effects(a: &mut Vec<Effect>, b: Vec<Effect>, Ghost(known): Ghost<Map<u64, WindowInfo>>)
    requires
        effects_ok(old(a)@, known),
        effects_ok(b@, known),
    ensures
        final(a)@ == old(a)@ + b@,
        effects_ok(final(a)@, known),
{
    proof {
        lemma_effects_ok_concat(old(a)@, b@, known);
    }
    let mut b = b;
    a.append(&mut b);
}

/// Whether `j` is the first position of a focused window.
pub open spec fn is_first_focused(s: Seq<WindowInfo>, j: int) -> bool {
    &&& 0 <= j < s.len()
    &&& s[j].is_focused
    &&& forall|k: int| 0 <= k < j ==> !(#[trigger] s[k]).is_focused
}

/// The first window marked focused.
pub open spec fn first_focused(s: Seq<WindowInfo>) -> Option<u64> {
    if exists|j: int| is_first_focused(s, j) {
        Some(s[choose|j: int| is_first_focused(s, j)].id)
    } else {
        None
    }
}

/// How many of these managed windows are automatic PiP windows.
pub open spec fn auto_count(s: Seq<TrackedWindow>) -> nat
    decreases s.len(),
{
    if s.len() == 0 {
        0
    } else {
        auto_count(s.drop_last()) + if s.last().mode == TrackedMode::AutoPip { 1nat } else { 0nat }
    }
}

/// The first automatic PiP window among these.
pub open spec fn first_auto(s: Seq<TrackedWindow>) -> Option<u64>
    decreases s.len(),
{
    if s.len() == 0 {
        None
    } else {
        match first_auto(s.drop_last()) {
            Some(x) => Some(x),
            None => if s.last().mode == TrackedMode::AutoPip { Some(s.last().id) } else { None },
        }
    }
}

/// Whether the move of `t` to `target` was asked for less than a second before `now`.
pub open spec fn recently_asked(t: TrackedWindow, target: u64, now: u64) -> bool {
    t.pending_workspace matches Some(p) && p.target == target
        && (if now >= p.issued_at { now - p.issued_at } else { 0 }) < 1000
}

/// `t` with a move to `target` asked for at `now`, and geometry echoes ignored until `until`.
pub open spec fn with_pending(t: TrackedWindow, target: u64, now: u64, until: u64) -> TrackedWindow {
    TrackedWindow {
        pending_workspace: Some(PendingWorkspaceMove { target, issued_at: now }),
        suppress_geometry_until: until,
        ..t
    }
}

/// `g` with a new size.
pub open spec fn resized(g: RememberedGeometry, size: (u32, u32)) -> RememberedGeometry {
    RememberedGeometry { width: size.0, height: size.1, ..g }
}

/// Window `w` with a new layout.
pub open spec fn with_layout(w: WindowInfo, layout: WindowLayout) -> WindowInfo {
    WindowInfo { layout, ..w }
}

/// How far apart two values are.
pub open spec fn gap(a: u32, b: u32) -> int {
    if a > b {
        a - b
    } else {
        b - a
    }
}

/// The actions that put a locked window back: its locked width and height where the size
/// is off by more than a pixel, then its locked place where it moved by more than a quarter
/// of a percent of its output.
pub open spec fn snap_back(
    id: u64,
    locked: RememberedGeometry,
    size: (u32, u32),
    current: Option<RememberedGeometry>,
) -> Seq<Effect> {
    let width: Seq<Effect> = if gap(size.0, locked.width) > 1 {
        seq![Effect::Action(CompositorAction::SetWindowWidth { id, change: SizeChange::SetFixed(locked.width as i32) })]
    } else {
        Seq::empty()
    };
    let height: Seq<Effect> = if gap(size.1, locked.height) > 1 {
        seq![Effect::Action(CompositorAction::SetWindowHeight { id, change: SizeChange::SetFixed(locked.height as i32) })]
    } else {
        Seq::empty()
    };
    let place: Seq<Effect> = match current {
        Some(c) => if gap(c.x_percent, locked.x_percent) > 250_000 || gap(c.y_percent, locked.y_percent) > 250_000 {
            seq![place_action(id, PlacementPlan { x_percent: locked.x_percent, y_percent: locked.y_percent })]
        } else {
            Seq::empty()
        },
        None => Seq::empty(),
    };
    width + height + place
}

/// The state machine of niri-pip: the compositor as last reported, the managed windows and the
/// remembered state.
pub struct Engine {
    config: Config,
    detector: DetectorEngine,
    windows: IdMap<WindowInfo>,
    workspaces: IdMap<WorkspaceInfo>,
    outputs: Vec<OutputInfo>,
    managed: IdMap<TrackedWindow>,
    ignored_until_close: Vec<u64>,
    candidates: IdMap<FocusCandidate>,
    focused_window: Option<u64>,
    previous_focused_window: Option<u64>,
    focused_workspace: Option<u64>,
    niri_connected: bool,
    niri_version: Option<String>,
    enabled: bool,
    persistent: PersistentState,
    persistent_dirty: bool,
    clock: std::time::Instant,
}

impl Engine {
    /// The engine's own consistency: each table has distinct ids, the detectors are compiled
    /// from their patterns, and every managed window is a known window.
    pub closed spec fn wf(&self) -> bool {
        &&& self.windows.wf()
        &&& self.workspaces.wf()
        &&& self.managed.wf()
        &&& self.candidates.wf()
        &&& self.detector.wf()
        &&& self.detector.configs() == kept_detectors(self.config, self.config.detectors@)
        &&& self.detector.threshold_value() == self.config.general.detection_threshold
        &&& forall|k: u64| #[trigger] self.managed@.contains_key(k) ==> self.windows@.contains_key(k)
    }

    /// The known windows by id.
    pub closed spec fn windows_view(&self) -> Map<u64, WindowInfo> {
        self.windows@
    }

    /// The managed windows by id.
    pub closed spec fn managed_view(&self) -> Map<u64, TrackedWindow> {
        self.managed@
    }

    /// Whether management is enabled.
    pub closed spec fn enabled_view(&self) -> bool {
        self.enabled
    }

    /// The configuration.
    pub closed spec fn config_view(&self) -> Config {
        self.config
    }

    /// The remembered state.
    pub closed spec fn persistent_view(&self) -> PersistentState {
        self.persistent
    }

    /// Whether the remembered state changed since it was last handed out.
    pub closed spec fn dirty_view(&self) -> bool {
        self.persistent_dirty
    }

    /// Whether Niri is connected.
    pub closed spec fn connected_view(&self) -> bool {
        self.niri_connected
    }

    /// The version Niri reported.
    pub closed spec fn niri_version_view(&self) -> Option<String> {
        self.niri_version
    }

    /// The focused window.
    pub closed spec fn focused_window_view(&self) -> Option<u64> {
        self.focused_window
    }

    /// The focused workspace.
    pub closed spec fn focused_workspace_view(&self) -> Option<u64> {
        self.focused_workspace
    }

    /// The windows ignored until they close.
    pub closed spec fn ignored_view(&self) -> Seq<u64> {
        self.ignored_until_close@
    }

    /// An engine for a configuration and a remembered state; fails where a detector pattern is
    /// invalid.
    pub fn new(config: Config, persistent: PersistentState) -> (r: Result<Self, EngineError>)
        ensures
            r matches Ok(e) ==> e.wf() && e.enabled_view() == config.general.enabled
                && e.config_view() == config && e.windows_view() == Map::<u64, WindowInfo>::empty()
                && e.managed_view() == Map::<u64, TrackedWindow>::empty() && !e.dirty_view()
                && !e.connected_view() && e.persistent_view() == persistent,
            r is Ok <==> crate::detector::first_bad_detector(
                crate::detector::kept_detectors(config, config.detectors@),
                0,
            ) is None,
            r matches Err(e) ==> e matches EngineError::Detector(DetectorError::Regex { name, field, .. })
                && crate::detector::first_bad_detector(crate::detector::kept_detectors(config, config.detectors@), 0)
                matches Some(i) && name@ == crate::detector::kept_detectors(config, config.detectors@)[i].name@
                && field == crate::detector::first_bad_field(crate::detector::kept_detectors(config, config.detectors@)[i]),
    {
        let detector = match DetectorEngine::new(&config) {
            Ok(d) => d,
            Err(e) => {
                return Err(EngineError::Detector(e));
            },
        };
        Ok(
            Engine {
                enabled: config.general.enabled,
                config,
                detector,
                windows: IdMap::new(),
                workspaces: IdMap::new(),
                outputs: Vec::new(),
                managed: IdMap::new(),
                ignored_until_close: Vec::new(),
                candidates: IdMap::new(),
                focused_window: None,
                previous_focused_window: None,
                focused_workspace: None,
                niri_connected: false,
                niri_version: None,
                persistent,
                persistent_dirty: false,
                clock: instant_now(),
            },
        )
    }

    /// Milliseconds since the engine was created, saturated to `u64`. The reading comes from
    /// the clock, so no clause fixes its value; what is done with it is `saturating_millis`.
    fn now_ms(&self) -> u64 {
        let elapsed = instant_elapsed(&self.clock);
        let ms = duration_millis(&elapsed);
        saturating_millis(ms)
    }

    /// Takes a new configuration, keeping the windows; fails, changing nothing, where a detector
    /// pattern is invalid.
    pub fn replace_config(&mut self, config: Config) -> (r: Result<(), EngineError>)
        requires
            old(self).wf(),
        ensures
            final(self).wf(),
            r is Ok <==> crate::detector::first_bad_detector(
                crate::detector::kept_detectors(config, config.detectors@),
                0,
            ) is None,
            r is Ok ==> final(self).config_view() == config && final(self).enabled_view()
                == config.general.enabled,
            r is Err ==> final(self).config_view() == old(self).config_view()
                && final(self).enabled_view() == old(self).enabled_view(),
            r matches Err(e) ==> e matches EngineError::Detector(DetectorError::Regex { name, field, .. })
                && crate::detector::first_bad_detector(crate::detector::kept_detectors(config, config.detectors@), 0)
                matches Some(i) && name@ == crate::detector::kept_detectors(config, config.detectors@)[i].name@
                && field == crate::detector::first_bad_field(crate::detector::kept_detectors(config, config.detectors@)[i]),
            final(self).managed_view() == old(self).managed_view(),
            final(self).windows_view() == old(self).windows_view(),
    {
        let detector = match DetectorEngine::new(&config) {
            Ok(d) => d,
            Err(e) => {
                return Err(EngineError::Detector(e));
            },
        };
        self.enabled = config.general.enabled;
        self.detector = detector;
        self.config = config;
        Ok(())
    }

    /// The configuration.
    pub fn config(&self) -> (r: &Config)
        ensures
            *r == self.config_view(),
    {
        &self.config
    }

    /// Enables or disables management.
    pub fn set_enabled(&mut self, enabled: bool)
        requires
            old(self).wf(),
        ensures
            final(self).wf(),
            final(self).enabled_view() == enabled,
            final(self).managed_view() == old(self).managed_view(),
            final(self).windows_view() == old(self).windows_view(),
            final(self).config_view() == old(self).config_view(),
    {
        self.enabled = enabled;
    }

    /// The PiP opacity asked for, if any.
    pub fn opacity_override_percent(&self) -> (r: Option<u8>)
        ensures
            r == self.persistent_view().pip_opacity_percent,
    {
        self.persistent.pip_opacity_percent
    }

    /// Sets the PiP opacity: a percentage from 10 to 100, or `None` for the compositor's own.
    pub fn set_opacity_override_percent(&mut self, percent: Option<u8>) -> (r: Result<
        (),
        EngineError,
    >)
        requires
            old(self).wf(),
        ensures
            final(self).wf(),
            r is Ok <==> (percent matches Some(p) ==> 10 <= p <= 100),
            r is Err ==> r matches Err(EngineError::InvalidOpacity),
            r is Ok ==> final(self).persistent_view().pip_opacity_percent == percent,
            r is Err ==> final(self).persistent_view().pip_opacity_percent == old(self).persistent_view().pip_opacity_percent,
            final(self).persistent_view().profiles@ == old(self).persistent_view().profiles@,
            final(self).persistent_view().controls@ == old(self).persistent_view().controls@,
            final(self).managed_view() == old(self).managed_view(),
            final(self).windows_view() == old(self).windows_view(),
            final(self).enabled_view() == old(self).enabled_view(),
            r is Err ==> *final(self) == *old(self),
            final(self).dirty_view() == (old(self).dirty_view() || (r is Ok && percent
                != old(self).persistent_view().pip_opacity_percent)),
    {
        if let Some(p) = percent {
            if !(10 <= p && p <= 100) {
                return Err(EngineError::InvalidOpacity);
            }
        }
        if self.persistent.pip_opacity_percent != percent {
            self.persistent.pip_opacity_percent = percent;
            self.mark_persistent_dirty();
        }
        Ok(())
    }

    fn mark_persistent_dirty(&mut self)
        ensures
            final(self).persistent.schema_version == STATE_SCHEMA_VERSION,
            final(self).persistent_dirty,
            final(self).persistent.profiles@ == old(self).persistent.profiles@,
            final(self).persistent.controls@ == old(self).persistent.controls@,
            final(self).persistent.pip_opacity_percent == old(self).persistent.pip_opacity_percent,
            final(self).windows == old(self).windows,
            final(self).workspaces == old(self).workspaces,
            final(self).managed == old(self).managed,
            final(self).candidates == old(self).candidates,
            final(self).detector == old(self).detector,
            final(self).config == old(self).config,
            final(self).enabled == old(self).enabled,
            final(self).outputs == old(self).outputs,
            final(self).focused_window == old(self).focused_window,
            final(self).focused_workspace == old(self).focused_workspace,
            final(self).ignored_until_close == old(self).ignored_until_close,
            final(self).niri_connected == old(self).niri_connected,
            final(self).niri_version == old(self).niri_version,
            final(self).previous_focused_window == old(self).previous_focused_window,
    {
        self.persistent.schema_version = STATE_SCHEMA_VERSION;
        self.persistent_dirty = true;
    }

    /// Hands out the remembered state once after each change.
    pub fn take_persistent_if_dirty(&mut self) -> (r: Option<PersistentState>)
        requires
            old(self).wf(),
        ensures
            final(self).wf(),
            take_persistent_if_dirty_result(*old(self), *final(self), r),
    {
        if self.persistent_dirty {
            self.persistent_dirty = false;
            Some(self.persistent.duplicate())
        } else {
            None
        }
    }

    /// The remembered state.
    pub fn persistent(&self) -> (r: &PersistentState)
        ensures
            *r == self.persistent_view(),
    {
        &self.persistent
    }

    /// The size the engine wants for a managed window: its managed size, else the configured one.
    pub open spec fn desired_size_spec(&self, id: u64) -> (u32, u32) {
        if self.managed_view().contains_key(id) && self.managed_view()[id].managed_size is Some {
            self.managed_view()[id].managed_size->0
        } else {
            crate::config::resolved_size_of(self.config_view().pip)
        }
    }

    /// The size the engine wants for a managed window: its managed size, else the configured one.
    pub fn desired_size(&self, id: u64) -> (r: (u32, u32))
        requires
            self.wf(),
        ensures
            r == self.desired_size_spec(id),
    {
        match self.managed.get(id) {
            Some(t) => match t.managed_size {
                Some(s) => s,
                None => self.config.pip.resolved_size(),
            },
            None => self.config.pip.resolved_size(),
        }
    }

    /// The focused window: the one last reported focused, else the first window marked focused.
    pub closed spec fn focused_spec(&self) -> Option<u64> {
        if self.focused_window is Some {
            self.focused_window
        } else {
            first_focused(self.windows.seq())
        }
    }

    /// The focused window: the one last reported focused, else the first window marked focused.
    pub fn focused_window_id(&self) -> (r: Option<u64>)
        requires
            self.wf(),
        ensures
            r == self.focused_spec(),
            self.focused_window_view() is Some ==> r == self.focused_window_view(),
            self.focused_window_view() is None ==> (r matches Some(id) ==> (self.windows_view().contains_key(
                id,
            ) && self.windows_view()[id].is_focused)),
            self.focused_window_view() is None && r is None ==> forall|id: u64|
                #[trigger] self.windows_view().contains_key(id) ==> !self.windows_view()[id].is_focused,
    {
        if self.focused_window.is_some() {
            return self.focused_window;
        }
        self.first_focused_window()
    }

    fn first_focused_window(&self) -> (r: Option<u64>)
        requires
            self.wf(),
        ensures
            r == first_focused(self.windows.seq()),
            r matches Some(id) ==> (self.windows@.contains_key(id) && self.windows@[id].is_focused),
            r is None ==> forall|id: u64|
                #[trigger] self.windows@.contains_key(id) ==> !self.windows@[id].is_focused,
    {
        let mut i: usize = 0;
        while i < self.windows.len()
            invariant
                self.wf(),
                i <= self.windows.seq().len(),
                forall|j: int| 0 <= j < i ==> !(#[trigger] self.windows.seq()[j]).is_focused,
            decreases self.windows.seq().len() - i,
        {
            let w = self.windows.at(i);
            if w.is_focused {
                proof {
                    crate::idmap::lemma_keyed_map_index(self.windows.seq(), i as int);
                    assert(is_first_focused(self.windows.seq(), i as int));
                    let j = choose|j: int| is_first_focused(self.windows.seq(), j);
                    if j < i {
                        assert(!self.windows.seq()[j].is_focused);
                    }
                    if j > i {
                        assert(!self.windows.seq()[i as int].is_focused);
                    }
                }
                return Some(w.id);
            }
            i = i + 1;
        }
        proof {
            if exists|j: int| is_first_focused(self.windows.seq(), j) {
                let j = choose|j: int| is_first_focused(self.windows.seq(), j);
                assert(!self.windows.seq()[j].is_focused);
            }
            assert forall|id: u64| #[trigger] self.windows@.contains_key(id) implies !self.windows@[id].is_focused by {
                crate::idmap::lemma_keyed_map_dom(self.windows.seq(), id);
                let j = choose|j: int| 0 <= j < self.windows.seq().len() && (#[trigger] self.windows.seq()[j]).key_of() == id;
                crate::idmap::lemma_keyed_map_index(self.windows.seq(), j);
            }
        }
        None
    }
}


/// The logical geometry of the first output named `name`.
pub open spec fn output_logical_spec(outs: Seq<OutputInfo>, name: Seq<char>) -> Option<LogicalOutput>
    decreases outs.len(),
{
    if outs.len() == 0 {
        None
    } else if outs[0].name@ == name {
        outs[0].logical
    } else {
        output_logical_spec(outs.drop_first(), name)
    }
}

/// The list holds an output that agrees with `o`.
pub open spec fn has_output(s: Seq<OutputInfo>, o: OutputInfo) -> bool {
    exists|j: int| 0 <= j < s.len() && same_output(o, #[trigger] s[j])
}

/// Whether two lists of outputs describe the same outputs, in any order.
pub open spec fn same_outputs(a: Seq<OutputInfo>, b: Seq<OutputInfo>) -> bool {
    &&& a.len() == b.len()
    &&& forall|i: int| 0 <= i < a.len() ==> has_output(b, #[trigger] a[i])
    &&& forall|j: int| 0 <= j < b.len() ==> has_output(a, #[trigger] b[j])
}

fn find_output_in(outs: &Vec<OutputInfo>, o: &OutputInfo) -> (r: bool)
    ensures
        r == has_output(outs@, *o),
{
    let mut j: usize = 0;
    while j < outs.len()
        invariant
            j <= outs@.len(),
            forall|k: int| 0 <= k < j ==> !same_output(*o, #[trigger] outs@[k]),
        decreases outs@.len() - j,
    {
        if output_info_eq(o, &outs[j]) {
            return true;
        }
        j = j + 1;
    }
    false
}

fn outputs_equal(a: &Vec<OutputInfo>, b: &Vec<OutputInfo>) -> (r: bool)
    ensures
        r == same_outputs(a@, b@),
{
    if a.len() != b.len() {
        return false;
    }
    let mut i: usize = 0;
    while i < a.len()
        invariant
            a@.len() == b@.len(),
            i <= a@.len(),
            forall|k: int| 0 <= k < i ==> has_output(b@, #[trigger] a@[k]),
        decreases a@.len() - i,
    {
        if !find_output_in(b, &a[i]) {
            return false;
        }
        i = i + 1;
    }
    let mut j: usize = 0;
    while j < b.len()
        invariant
            a@.len() == b@.len(),
            forall|k: int| 0 <= k < a@.len() ==> has_output(b@, #[trigger] a@[k]),
            j <= b@.len(),
            forall|k: int| 0 <= k < j ==> has_output(a@, #[trigger] b@[k]),
        decreases b@.len() - j,
    {
        if !find_output_in(a, &b[j]) {
            return false;
        }
        j = j + 1;
    }
    true
}

/// Two optional strings hold the same text, or both are absent.
pub open spec fn same_opt_text(a: Option<String>, b: Option<String>) -> bool {
    match (a, b) {
        (Some(x), Some(y)) => x@ == y@,
        (None, None) => true,
        _ => false,
    }
}

fn opt_string_eq(a: &Option<String>, b: &Option<String>) -> (r: bool)
    ensures
        r == same_opt_text(*a, *b),
{
    match a {
        Some(x) => match b {
            Some(y) => *x == *y,
            None => false,
        },
        None => b.is_none(),
    }
}

/// Whether the list holds the id.
fn ids_contain(v: &Vec<u64>, id: u64) -> (r: bool)
    ensures
        r == v@.contains(id),
{
    let mut i: usize = 0;
    while i < v.len()
        invariant
            i <= v@.len(),
            forall|k: int| 0 <= k < i ==> v@[k] != id,
        decreases v@.len() - i,
    {
        if v[i] == id {
            return true;
        }
        i = i + 1;
    }
    false
}

impl Engine {
    /// Everything that only compositor events change is as it was.
    pub closed spec fn env_same(&self, other: &Engine) -> bool {
        &&& self.config == other.config
        &&& self.detector == other.detector
        &&& self.windows == other.windows
        &&& self.workspaces == other.workspaces
        &&& self.outputs == other.outputs
        &&& self.focused_window == other.focused_window
        &&& self.previous_focused_window == other.previous_focused_window
        &&& self.focused_workspace == other.focused_workspace
        &&& self.enabled == other.enabled
        &&& self.niri_connected == other.niri_connected
        &&& self.niri_version == other.niri_version
    }

    /// The workspaces by id.
    pub closed spec fn workspaces_view(&self) -> Map<u64, WorkspaceInfo> {
        self.workspaces@
    }

    /// The outputs.
    pub closed spec fn outputs_view(&self) -> Seq<OutputInfo> {
        self.outputs@
    }

    /// The two engines differ at most in their workspaces, the focused workspace, and the
    /// windows they remember as just opened.
    pub closed spec fn same_but_workspaces(&self, other: Engine) -> bool {
        &&& self.config == other.config
        &&& self.detector == other.detector
        &&& self.windows == other.windows
        &&& self.outputs == other.outputs
        &&& self.focused_window == other.focused_window
        &&& self.previous_focused_window == other.previous_focused_window
        &&& self.enabled == other.enabled
        &&& self.niri_connected == other.niri_connected
        &&& self.niri_version == other.niri_version
        &&& self.managed == other.managed
        &&& self.persistent == other.persistent
        &&& self.persistent_dirty == other.persistent_dirty
        &&& self.ignored_until_close == other.ignored_until_close
    }

    /// The two engines differ at most in the windows they remember as just opened, which
    /// decide where focus goes back to.
    pub closed spec fn same_but_candidates(&self, other: Engine) -> bool {
        &&& other.env_same(self)
        &&& other.managed == self.managed
        &&& other.persistent == self.persistent
        &&& other.persistent_dirty == self.persistent_dirty
        &&& other.ignored_until_close == self.ignored_until_close
    }

    /// The logical geometry of the output that shows workspace `ws`.
    pub closed spec fn logical_for_workspace(&self, ws: Option<u64>) -> Option<LogicalOutput> {
        match ws {
            Some(w) => if self.workspaces@.contains_key(w) {
                match self.workspaces@[w].output {
                    Some(name) => output_logical_spec(self.outputs@, name@),
                    None => None,
                }
            } else {
                None
            },
            None => None,
        }
    }

    fn output_logical(&self, name: &String) -> (r: Option<LogicalOutput>)
        ensures
            r == output_logical_spec(self.outputs@, name@),
    {
        let mut i: usize = 0;
        assert(self.outputs@.skip(0) =~= self.outputs@);
        while i < self.outputs.len()
            invariant
                i <= self.outputs@.len(),
                output_logical_spec(self.outputs@, name@) == output_logical_spec(
                    self.outputs@.skip(i as int),
                    name@,
                ),
            decreases self.outputs@.len() - i,
        {
            assert(self.outputs@.skip(i as int).drop_first() =~= self.outputs@.skip(i + 1));
            if self.outputs[i].name == *name {
                return self.outputs[i].logical;
            }
            i = i + 1;
        }
        None
    }

    fn logical_for(&self, ws: Option<u64>) -> (r: Option<LogicalOutput>)
        requires
            self.wf(),
        ensures
            r == self.logical_for_workspace(ws),
    {
        match ws {
            Some(w) => match self.workspaces.get(w) {
                Some(info) => match &info.output {
                    Some(name) => self.output_logical(name),
                    None => None,
                },
                None => None,
            },
            None => None,
        }
    }

    /// The plan for placing a window of `size` at `placement` on the output of workspace `ws`.
    pub closed spec fn plan_spec(&self, ws: Option<u64>, size: (u32, u32), placement: Placement) -> Option<PlacementPlan> {
        match self.logical_for_workspace(ws) {
            Some(out) => Some(crate::geometry::corner_plan(out, size, placement, self.config.pip.gap, self.config.margins)),
            None => None,
        }
    }

    fn placement_plan(&self, ws: Option<u64>, size: (u32, u32), placement: Placement) -> (r: Option<PlacementPlan>)
        requires
            self.wf(),
        ensures
            r == self.plan_spec(ws, size, placement),
    {
        match self.logical_for(ws) {
            Some(out) => Some(corner_placement(out, size, placement, self.config.pip.gap, self.config.margins)),
            None => None,
        }
    }

    /// The workspace of a known window.
    pub closed spec fn window_workspace(&self, id: u64) -> Option<u64> {
        if self.windows@.contains_key(id) {
            self.windows@[id].workspace_id
        } else {
            None
        }
    }

    /// Whether a window may follow to `target` under a follow mode.
    pub closed spec fn follow_allowed_spec(&self, mode: FollowMode, current: Option<u64>, target: u64) -> bool {
        match mode {
            FollowMode::StayOnOutput => {
                let cur = match current {
                    Some(c) => if self.workspaces@.contains_key(c) { self.workspaces@[c].output } else { None },
                    None => None,
                };
                let tgt = if self.workspaces@.contains_key(target) { self.workspaces@[target].output } else { None };
                cur is Some && same_opt_text(cur, tgt)
            },
            _ => true,
        }
    }

    fn workspace_output(&self, ws: Option<u64>) -> (r: Option<String>)
        requires
            self.wf(),
        ensures
            r == (match ws {
                Some(c) => if self.workspaces@.contains_key(c) { self.workspaces@[c].output } else { None },
                None => None,
            }),
    {
        match ws {
            Some(c) => match self.workspaces.get(c) {
                Some(w) => copy_opt_string(&w.output),
                None => None,
            },
            None => None,
        }
    }

    fn follow_allowed(&self, mode: FollowMode, current: Option<u64>, target: u64) -> (r: bool)
        requires
            self.wf(),
        ensures
            r == self.follow_allowed_spec(mode, current, target),
    {
        match mode {
            FollowMode::StayOnOutput => {
                let cur = self.workspace_output(current);
                let tgt = self.workspace_output(Some(target));
                cur.is_some() && opt_string_eq(&cur, &tgt)
            },
            _ => true,
        }
    }

    /// The workspace a managed window should be on.
    pub closed spec fn follow_target_spec(&self, id: u64) -> Option<u64> {
        if !self.managed@.contains_key(id) {
            None
        } else {
            let t = self.managed@[id];
            let cur = self.window_workspace(id);
            if !t.follow_enabled {
                cur
            } else {
                match self.focused_workspace {
                    None => None,
                    Some(target) => if self.follow_allowed_spec(t.follow_mode, cur, target) {
                        Some(target)
                    } else {
                        cur
                    },
                }
            }
        }
    }

    fn window_workspace_of(&self, id: u64) -> (r: Option<u64>)
        requires
            self.wf(),
        ensures
            r == self.window_workspace(id),
    {
        match self.windows.get(id) {
            Some(w) => w.workspace_id,
            None => None,
        }
    }

    fn follow_target_for(&self, id: u64) -> (r: Option<u64>)
        requires
            self.wf(),
        ensures
            r == self.follow_target_spec(id),
    {
        let t = match self.managed.get(id) {
            Some(t) => t,
            None => {
                return None;
            },
        };
        let cur = self.window_workspace_of(id);
        if !t.follow_enabled {
            return cur;
        }
        let target = match self.focused_workspace {
            Some(target) => target,
            None => {
                return None;
            },
        };
        if self.follow_allowed(t.follow_mode, cur, target) {
            Some(target)
        } else {
            cur
        }
    }

    /// Whether remembered geometry is in use.
    pub closed spec fn remembering(&self) -> bool {
        self.config.general.remember_geometry && self.config.pip.position_mode == PositionMode::Remember
    }

    fn remembering_exec(&self) -> (r: bool)
        ensures
            r == self.remembering(),
    {
        self.config.general.remember_geometry && self.config.pip.position_mode == PositionMode::Remember
    }

    /// The remembered geometry of a detector.
    pub closed spec fn profile_of(&self, name: Seq<char>) -> Option<RememberedGeometry> {
        if self.persistent.profiles@.contains_key(name) {
            Some(self.persistent.profiles@[name])
        } else {
            None
        }
    }

    /// Where a managed window goes: its locked geometry, else its detector's remembered
    /// position, else its placement on the output it follows.
    pub closed spec fn placement_for_spec(&self, id: u64, size: (u32, u32)) -> Option<PlacementPlan> {
        if !self.managed@.contains_key(id) {
            None
        } else {
            let t = self.managed@[id];
            match t.locked_geometry {
                Some(l) => Some(PlacementPlan { x_percent: l.x_percent, y_percent: l.y_percent }),
                None => {
                    let remembered = if self.remembering() {
                        match t.detector {
                            Some(name) => self.profile_of(name@),
                            None => None,
                        }
                    } else {
                        None
                    };
                    match remembered {
                        Some(g) => Some(PlacementPlan { x_percent: g.x_percent, y_percent: g.y_percent }),
                        None => self.plan_spec(self.follow_target_spec(id), size, t.placement),
                    }
                },
            }
        }
    }

    fn placement_for_tracked(&self, id: u64, size: (u32, u32)) -> (r: Option<PlacementPlan>)
        requires
            self.wf(),
        ensures
            r == self.placement_for_spec(id, size),
    {
        let t = match self.managed.get(id) {
            Some(t) => t,
            None => {
                return None;
            },
        };
        if let Some(l) = t.locked_geometry {
            return Some(PlacementPlan { x_percent: l.x_percent, y_percent: l.y_percent });
        }
        if self.remembering_exec() {
            if let Some(name) = &t.detector {
                if let Some(g) = self.persistent.profiles.get(name.as_str()) {
                    return Some(PlacementPlan { x_percent: g.x_percent, y_percent: g.y_percent });
                }
            }
        }
        self.placement_plan(self.follow_target_for(id), size, t.placement)
    }

    /// The live geometry of a known window on its output.
    pub closed spec fn current_geometry_spec(&self, id: u64) -> Option<RememberedGeometry> {
        if !self.windows@.contains_key(id) {
            None
        } else {
            self.geometry_of(self.windows@[id])
        }
    }

    /// The size of window `w` and its position as a share of its output, where the window
    /// has a size, a tile position and a workspace on a known output.
    pub closed spec fn geometry_of(&self, w: WindowInfo) -> Option<RememberedGeometry> {
        match w.workspace_id {
            None => None,
            Some(ws) => match self.logical_for_workspace(Some(ws)) {
                None => None,
                Some(out) => match w.layout.tile_pos_in_workspace_view {
                    None => None,
                    Some(pos) => {
                        let (width, height) = logical_size_of(w);
                        if width == 0 || height == 0 || out.width == 0 || out.height == 0 {
                            None
                        } else {
                            Some(RememberedGeometry {
                                width,
                                height,
                                x_percent: proportion(pos.0 as int, out.width * PIXEL_UNIT) as u32,
                                y_percent: proportion(pos.1 as int, out.height * PIXEL_UNIT) as u32,
                            })
                        }
                    },
                },
            },
        }
    }

    fn current_geometry(&self, id: u64) -> (r: Option<RememberedGeometry>)
        requires
            self.wf(),
        ensures
            r == self.current_geometry_spec(id),
    {
        let w = match self.windows.get(id) {
            Some(w) => w,
            None => {
                return None;
            },
        };
        let ws = match w.workspace_id {
            Some(ws) => ws,
            None => {
                return None;
            },
        };
        let out = match self.logical_for(Some(ws)) {
            Some(o) => o,
            None => {
                return None;
            },
        };
        let pos = match w.layout.tile_pos_in_workspace_view {
            Some(p) => p,
            None => {
                return None;
            },
        };
        let (width, height) = w.logical_size();
        if width == 0 || height == 0 || out.width == 0 || out.height == 0 {
            return None;
        }
        let dw: u64 = (out.width as u64) * 1000;
        let dh: u64 = (out.height as u64) * 1000;
        Some(RememberedGeometry {
            width,
            height,
            x_percent: proportion_any(pos.0, dw),
            y_percent: proportion_any(pos.1, dh),
        })
    }

    /// The geometry a managed window gets from its placement plan.
    pub closed spec fn geometry_from_plan_spec(&self, id: u64, size: (u32, u32)) -> Option<RememberedGeometry> {
        if !self.managed@.contains_key(id) {
            None
        } else {
            match self.plan_spec(self.follow_target_spec(id), size, self.managed@[id].placement) {
                Some(plan) => Some(RememberedGeometry {
                    width: size.0,
                    height: size.1,
                    x_percent: plan.x_percent,
                    y_percent: plan.y_percent,
                }),
                None => None,
            }
        }
    }

    fn geometry_from_plan(&self, id: u64, size: (u32, u32)) -> (r: Option<RememberedGeometry>)
        requires
            self.wf(),
        ensures
            r == self.geometry_from_plan_spec(id, size),
    {
        let t = match self.managed.get(id) {
            Some(t) => t,
            None => {
                return None;
            },
        };
        match self.placement_plan(self.follow_target_for(id), size, t.placement) {
            Some(plan) => Some(RememberedGeometry {
                width: size.0,
                height: size.1,
                x_percent: plan.x_percent,
                y_percent: plan.y_percent,
            }),
            None => None,
        }
    }

    /// The controller settings for a detector: remembered ones, else the configured defaults.
    pub closed spec fn controls_spec(&self, name: Seq<char>) -> RememberedControls {
        if self.persistent.controls@.contains_key(name) {
            self.persistent.controls@[name]
        } else {
            RememberedControls {
                placement: self.config.pip.position,
                follow_enabled: self.config.general.follow_workspace,
                follow_mode: self.config.general.follow_mode,
                geometry_locked: false,
            }
        }
    }

    fn controls_for_detector(&self, name: &str) -> (r: RememberedControls)
        ensures
            r == self.controls_spec(name@),
    {
        match self.persistent.controls.get(name) {
            Some(c) => c,
            None => RememberedControls {
                placement: self.config.pip.position,
                follow_enabled: self.config.general.follow_workspace,
                follow_mode: self.config.general.follow_mode,
                geometry_locked: false,
            },
        }
    }
}

/// `proportion(num, den)` for any position.
fn proportion_any(num: i64, den: u64) -> (r: u32)
    requires
        0 < den <= 0x10_0000_0000_0000,
    ensures
        r as int == proportion(num as int, den as int),
{
    if num > 0 && (num as u64) >= den {
        proof {
            assert(num * FULL_PERCENT as int / den as int >= FULL_PERCENT as int) by (nonlinear_arith)
                requires
                    num >= den,
                    den > 0,
            ;
        }
        FULL_PERCENT
    } else if num <= 0 {
        proof {
            assert(num * FULL_PERCENT as int / den as int <= 0) by (nonlinear_arith)
                requires
                    num <= 0,
                    den > 0,
            ;
        }
        0
    } else {
        proportion_of(num, den)
    }
}


/// Adds an effect that keeps the laws.
fn push_effect(v: &mut Vec<Effect>, e: Effect, Ghost(known): Ghost<Map<u64, WindowInfo>>)
    requires
        effects_ok(old(v)@, known),
        e matches Effect::Action(a) && known.contains_key(action_window(a)),
        !(e matches Effect::Action(CompositorAction::MoveWindowToWorkspace { focus, .. }) && focus),
    ensures
        final(v)@ == old(v)@.push(e),
        effects_ok(final(v)@, known),
{
    v.push(e);
    proof {
        assert forall|i: int| 0 <= i < v@.len() implies !(#[trigger] v@[i] matches Effect::Action(
            CompositorAction::MoveWindowToWorkspace { focus, .. },
        ) && focus) by {
            if i < v@.len() - 1 {
                assert(v@[i] == old(v)@[i]);
            }
        }
        assert forall|i: int| 0 <= i < v@.len() implies (#[trigger] v@[i] matches Effect::Action(a)
            && known.contains_key(action_window(a))) by {
            if i < v@.len() - 1 {
                assert(v@[i] == old(v)@[i]);
            }
        }
    }
}

impl Engine {
    /// Stores a managed window under its id.
    fn store_managed(&mut self, t: TrackedWindow)
        requires
            old(self).wf(),
            old(self).windows@.contains_key(t.id),
        ensures
            final(self).wf(),
            final(self).env_same(old(self)),
            final(self).managed@ == old(self).managed@.insert(t.id, t),
            final(self).candidates == old(self).candidates,
            final(self).persistent == old(self).persistent,
            final(self).persistent_dirty == old(self).persistent_dirty,
            final(self).ignored_until_close == old(self).ignored_until_close,
    {
        self.managed.upsert(t);
    }

    /// A copy of the managed window with this id.
    fn managed_copy(&self, id: u64) -> (r: Option<TrackedWindow>)
        requires
            self.wf(),
        ensures
            r matches Some(t) ==> self.managed@.contains_key(id) && t == self.managed@[id] && t.id == id
                && self.windows@.contains_key(id),
            r is None ==> !self.managed@.contains_key(id),
    {
        match self.managed.get(id) {
            Some(t) => {
                proof {
                    assert(self.managed@.contains_key(id));
                }
                let c = t.duplicate();
                proof {
                    lemma_managed_key(self, id);
                }
                Some(c)
            },
            None => None,
        }
    }

    /// When geometry changes stop being taken for the echo of an action done at `now`.
    pub closed spec fn suppression_spec(&self, now: u64) -> u64 {
        if now + self.config.general.action_suppression_ms > u64::MAX {
            u64::MAX
        } else {
            (now + self.config.general.action_suppression_ms) as u64
        }
    }

    fn suppression_until(&self, now: u64) -> (r: u64)
        ensures
            r == self.suppression_spec(now),
    {
        now.saturating_add(self.config.general.action_suppression_ms)
    }

    /// Whether window `id` would be moved to workspace `target` under follow mode `mode`: the
    /// mode allows the move and the window is elsewhere.
    pub closed spec fn follow_wanted(&self, mode: FollowMode, id: u64, target: u64) -> bool {
        &&& self.windows@.contains_key(id)
        &&& self.follow_allowed_spec(mode, self.windows@[id].workspace_id, target)
        &&& self.windows@[id].workspace_id != Some(target)
    }

    /// Whether a managed window is due to be moved to workspace `target` at `now`: it
    /// follows, the move is wanted, and the same move was not asked for less than a second ago.
    pub closed spec fn follow_due(&self, id: u64, target: u64, now: u64) -> bool {
        &&& self.managed@.contains_key(id)
        &&& self.managed@[id].follow_enabled
        &&& self.follow_wanted(self.managed@[id].follow_mode, id, target)
        &&& !recently_asked(self.managed@[id], target, now)
    }

    /// A managed window's record once a move to `target` was asked for at `now`.
    pub closed spec fn after_follow(&self, id: u64, target: u64, now: u64) -> TrackedWindow {
        with_pending(self.managed@[id], target, now, self.suppression_spec(now))
    }

    /// The actions of a follow move of window `id` to `target`, in this (final) state: the
    /// move, then, for a window whose place the engine keeps, its placement if it has one.
    pub closed spec fn follow_effects(&self, id: u64, target: u64) -> Seq<Effect> {
        let moved = seq![Effect::Action(CompositorAction::MoveWindowToWorkspace { window_id: id, workspace_id: target, focus: false })];
        let t = self.managed@[id];
        let plan = self.placement_for_spec(id, self.desired_size_spec(id));
        if (t.mode == TrackedMode::AutoPip || t.geometry_locked) && plan is Some {
            moved.push(place_action(id, plan->0))
        } else {
            moved
        }
    }

    fn reconcile_workspace_follow_for_target(&mut self, id: u64, target: u64, now: u64) -> (r: Vec<Effect>)
        requires
            old(self).wf(),
        ensures
            final(self).managed@.remove(id) == old(self).managed@.remove(id),
            final(self).wf(),
            final(self).env_same(old(self)),
            effects_ok(r@, final(self).windows@),
            no_resize(r@),
            final(self).candidates == old(self).candidates,
            final(self).persistent == old(self).persistent,
            final(self).persistent_dirty == old(self).persistent_dirty,
            final(self).ignored_until_close == old(self).ignored_until_close,
            forall|k: u64| #[trigger] final(self).managed@.contains_key(k) <==> old(self).managed@.contains_key(k),
            forall|i: int| 0 <= i < r@.len() ==> (#[trigger] r@[i] matches Effect::Action(
                CompositorAction::MoveWindowToWorkspace { window_id, workspace_id, focus },
            ) ==> window_id == id && workspace_id == target && !focus),
            forall|i: int| 0 <= i < r@.len() ==> follow_action_ok(*old(self), target, #[trigger] r@[i]),
            forall|i: int| 0 < i < r@.len() ==> moved_window(#[trigger] r@[i]) is None,
            forall|k: u64| #[trigger] final(self).managed@.contains_key(k) ==> final(self).managed@[k].follow_enabled
                == old(self).managed@[k].follow_enabled,
            !old(self).follow_due(id, target, now) ==> r@.len() == 0 && *final(self) == *old(self),
            old(self).follow_due(id, target, now) ==> r@ == final(self).follow_effects(id, target)
                && final(self).managed@ == old(self).managed@.insert(id, old(self).after_follow(id, target, now)),
    {
        let mut effects: Vec<Effect> = Vec::new();
        let ghost known = self.windows@;
        let cur = match self.windows.get(id) {
            Some(w) => w.workspace_id,
            None => {
                return effects;
            },
        };
        let mut t = match self.managed_copy(id) {
            Some(t) => t,
            None => {
                return effects;
            },
        };
        if !t.follow_enabled || !self.follow_allowed(t.follow_mode, cur, target) || cur == Some(target) {
            return effects;
        }
        if let Some(p) = t.pending_workspace {
            if p.target == target && now.saturating_sub(p.issued_at) < 1000 {
                return effects;
            }
        }
        let mode = t.mode;
        let geometry_locked = t.geometry_locked;
        push_effect(
            &mut effects,
            Effect::Action(CompositorAction::MoveWindowToWorkspace { window_id: id, workspace_id: target, focus: false }),
            Ghost(known),
        );
        t.pending_workspace = Some(PendingWorkspaceMove { target, issued_at: now });
        t.suppress_geometry_until = self.suppression_until(now);
        proof {
            assert(t == old(self).after_follow(id, target, now));
        }
        self.store_managed(t);
        if mode == TrackedMode::AutoPip || geometry_locked {
            let size = self.desired_size(id);
            if let Some(plan) = self.placement_for_tracked(id, size) {
                push_effect(&mut effects, place_effect(id, plan), Ghost(known));
            }
        }
        proof {
            assert forall|k: u64| #[trigger] self.managed@.contains_key(k) <==> old(self).managed@.contains_key(k) by {}
        }
        effects
    }

    /// Moves every managed window that should follow onto the focused workspace.
    pub fn reconcile_workspace_follow_at(&mut self, now: u64) -> (r: Vec<Effect>)
        requires
            old(self).wf(),
        ensures
            final(self).wf(),
            effects_ok(r@, final(self).windows_view()),
            final(self).windows_view() == old(self).windows_view(),
            final(self).enabled_view() == old(self).enabled_view(),
            final(self).focused_workspace_view() == old(self).focused_workspace_view(),
            forall|k: u64| #[trigger] final(self).managed_view().contains_key(k) <==> old(self).managed_view().contains_key(k),
            !old(self).enabled_view() || old(self).focused_workspace_view() is None ==> r@.len() == 0,
            forall|i: int| 0 <= i < r@.len() ==> (#[trigger] r@[i] matches Effect::Action(
                CompositorAction::MoveWindowToWorkspace { window_id, workspace_id, focus },
            ) ==> Some(workspace_id) == old(self).focused_workspace_view() && !focus
                && old(self).managed_view().contains_key(window_id)),
            !old(self).enabled_view() || old(self).focused_workspace_view() is None ==> *final(self) == *old(self),
            old(self).focused_workspace_view() matches Some(w) ==> follow_moves_sound(*old(self), w, r@),
            old(self).enabled_view() && old(self).focused_workspace_view() is Some ==> exists|states: Seq<Engine>, parts: Seq<Seq<Effect>>|
                #[trigger] follow_steps(*old(self), *final(self), now, r@, states, parts),
    {
        let mut effects: Vec<Effect> = Vec::new();
        if !self.enabled {
            return effects;
        }
        let target = match self.focused_workspace {
            Some(t) => t,
            None => {
                return effects;
            },
        };
        let ids = self.managed.keys();
        let ghost start = *self;
        let ghost mut states: Seq<Engine> = seq![start];
        let ghost mut parts: Seq<Seq<Effect>> = Seq::empty();
        let mut i: usize = 0;
        while i < ids.len()
            invariant
                self.wf(),
                self.env_same(&start),
                self.focused_workspace == Some(target),
                ids@ == start.managed_ids(),
                start.wf(),
                states.len() == i + 1,
                parts.len() == i,
                states[0] == start,
                states.last() == *self,
                effects@ == parts.flatten_alt(),
                forall|j: int| 0 <= j < i ==> #[trigger] states[j].follow_outcome(states[j + 1], ids@[j], now, parts[j]),
                i <= ids@.len(),
                forall|k: u64| #[trigger] self.managed@.contains_key(k) <==> start.managed@.contains_key(k),
                forall|k: u64| #[trigger] ids@.contains(k) <==> start.managed@.contains_key(k),
                effects_ok(effects@, self.windows@),
                forall|j: int| 0 <= j < effects@.len() ==> (#[trigger] effects@[j] matches Effect::Action(
                    CompositorAction::MoveWindowToWorkspace { window_id, workspace_id, focus },
                ) ==> workspace_id == target && !focus && start.managed@.contains_key(window_id)),
                forall|k: u64| #[trigger] self.managed@.contains_key(k) ==> self.managed@[k].follow_enabled
                    == start.managed@[k].follow_enabled,
                forall|j: int| 0 <= j < effects@.len() ==> follow_action_ok(start, target, #[trigger] effects@[j]),
                forall|j: int| 0 <= j < effects@.len() && moved_window(effects@[j]) is Some ==> exists|k: int|
                    0 <= k < i && Some(ids@[k]) == moved_window(#[trigger] effects@[j]),
                forall|a: int, b: int| 0 <= a < b < effects@.len() && moved_window(effects@[a]) is Some
                    ==> moved_window(#[trigger] effects@[a]) != moved_window(#[trigger] effects@[b]),
            decreases ids@.len() - i,
        {
            let id = ids[i];
            assert(ids@.contains(id));
            let more = self.reconcile_workspace_follow_for_target(id, target, now);
            proof {
                let next_states = states.push(*self);
                let next_parts = parts.push(more@);
                assert(next_parts.drop_last() =~= parts);
                assert forall|j: int| 0 <= j < i + 1 implies #[trigger] next_states[j].follow_outcome(
                    next_states[j + 1],
                    ids@[j],
                    now,
                    next_parts[j],
                ) by {
                    if j < i {
                        assert(next_states[j] == states[j]);
                        assert(next_states[j + 1] == states[j + 1]);
                    }
                }
                states = next_states;
                parts = next_parts;
            }
            let ghost before = effects@;
            append_effects(&mut effects, more, Ghost(self.windows@));
            proof {
                assert forall|k: int| 0 <= k < i implies ids@[k] != ids@[i as int] by {
                    let s = start.managed.seq();
                    assert(ids@.len() == s.len());
                    assert(ids@[k] == s[k].key_of());
                    assert(ids@[i as int] == s[i as int].key_of());
                    assert(start.managed.wf());
                    assert(s[k].key_of() != s[i as int].key_of());
                }
                assert forall|j: int| 0 <= j < effects@.len() implies follow_action_ok(start, target, #[trigger] effects@[j]) by {
                    if j < before.len() {
                        assert(effects@[j] == before[j]);
                    } else {
                        assert(effects@[j] == more@[j - before.len()]);
                        assert(follow_action_ok(states[i as int], target, more@[j - before.len()]));
                    }
                }
                assert forall|j: int| 0 <= j < effects@.len() && moved_window(effects@[j]) is Some implies exists|k: int|
                    0 <= k < i + 1 && Some(ids@[k]) == moved_window(#[trigger] effects@[j]) by {
                    if j < before.len() {
                        assert(effects@[j] == before[j]);
                    } else {
                        assert(effects@[j] == more@[j - before.len()]);
                    }
                }
                assert forall|a: int, b: int| 0 <= a < b < effects@.len() && moved_window(effects@[a]) is Some
                    implies moved_window(#[trigger] effects@[a]) != moved_window(#[trigger] effects@[b]) by {
                    if b < before.len() {
                        assert(effects@[a] == before[a]);
                        assert(effects@[b] == before[b]);
                    } else if a < before.len() {
                        assert(effects@[a] == before[a]);
                        assert(effects@[b] == more@[b - before.len()]);
                    } else {
                        assert(effects@[a] == more@[a - before.len()]);
                        assert(effects@[b] == more@[b - before.len()]);
                    }
                }
                assert forall|j: int| 0 <= j < effects@.len() implies (#[trigger] effects@[j] matches Effect::Action(
                    CompositorAction::MoveWindowToWorkspace { window_id, workspace_id, focus },
                ) ==> workspace_id == target && !focus && start.managed@.contains_key(window_id)) by {
                    if j < before.len() {
                        assert(effects@[j] == before[j]);
                    } else {
                        assert(effects@[j] == more@[j - before.len()]);
                    }
                }
            }
            i = i + 1;
        }
        proof {
            assert(follow_steps(start, *self, now, effects@, states, parts));
        }
        effects
    }

    /// The ids of the known windows, in the engine's order.
    pub closed spec fn window_ids(&self) -> Seq<u64> {
        crate::idmap::keys_of(self.windows.seq())
    }

    /// Engine `start` is this engine with the windows of `list` in place of the known ones:
    /// managed and ignored windows that are no longer listed are forgotten, as are the windows
    /// remembered as just opened, and the focused window is one marked focused, if any.
    pub closed spec fn windows_replaced(&self, start: Engine, list: Seq<WindowInfo>, now: u64) -> bool {
        &&& start.windows@ == crate::idmap::keyed_map(list)
        &&& forall|k: u64| #[trigger] start.managed@.contains_key(k) <==> (self.managed@.contains_key(k)
            && start.windows@.contains_key(k))
        &&& forall|k: u64| #[trigger] start.managed@.contains_key(k) ==> start.managed@[k] == self.managed@[k]
        &&& forall|k: u64| #[trigger] start.ignored_until_close@.contains(k) <==> (self.ignored_until_close@.contains(k)
            && start.windows@.contains_key(k))
        &&& forall|k: u64| #[trigger] start.candidates@.contains_key(k) <==> (self.candidates@.contains_key(k)
            && self.recent(self.candidates@[k].opened_at, now) && start.windows@.contains_key(k))
        &&& forall|k: u64| #[trigger] start.candidates@.contains_key(k) ==> start.candidates@[k] == self.candidates@[k]
        &&& start.focused_window matches Some(f) ==> start.windows@.contains_key(f) && start.windows@[f].is_focused
        &&& start.focused_window is None ==> forall|k: u64| #[trigger] start.windows@.contains_key(k)
            ==> !start.windows@[k].is_focused
        &&& start.config == self.config
        &&& start.detector == self.detector
        &&& start.workspaces == self.workspaces
        &&& start.outputs == self.outputs
        &&& start.focused_workspace == self.focused_workspace
        &&& start.enabled == self.enabled
        &&& start.persistent == self.persistent
    }

    /// The ids of the managed windows, in the engine's order.
    pub closed spec fn managed_ids(&self) -> Seq<u64> {
        crate::idmap::keys_of(self.managed.seq())
    }

    /// What follow reconciliation of window `id` towards the focused workspace does: nothing
    /// unless a move is due; else it asks for the move (and, for a window whose place the
    /// engine keeps, a placement) and notes the move as pending.
    pub closed spec fn follow_outcome(&self, new: Engine, id: u64, now: u64, r: Seq<Effect>) -> bool {
        match self.focused_workspace {
            None => r.len() == 0 && new == *self,
            Some(target) => {
                &&& !self.follow_due(id, target, now) ==> r.len() == 0 && new == *self
                &&& self.follow_due(id, target, now) ==> r == new.follow_effects(id, target)
                    && new.managed@ == self.managed@.insert(id, self.after_follow(id, target, now))
                    && new.env_same(self) && new.persistent == self.persistent
                    && new.persistent_dirty == self.persistent_dirty && new.candidates == self.candidates
                    && new.ignored_until_close == self.ignored_until_close
            },
        }
    }

    /// Follow reconciliation of one window towards the focused workspace.
    fn reconcile_workspace_follow_for(&mut self, id: u64, now: u64) -> (r: Vec<Effect>)
        requires
            old(self).wf(),
        ensures
            final(self).managed@.remove(id) == old(self).managed@.remove(id),
            final(self).wf(),
            final(self).env_same(old(self)),
            effects_ok(r@, final(self).windows@),
            no_resize(r@),
            final(self).candidates == old(self).candidates,
            final(self).persistent == old(self).persistent,
            final(self).persistent_dirty == old(self).persistent_dirty,
            final(self).ignored_until_close == old(self).ignored_until_close,
            forall|k: u64| #[trigger] final(self).managed@.contains_key(k) <==> old(self).managed@.contains_key(k),
            old(self).follow_outcome(*final(self), id, now, r@),
    {
        match self.focused_workspace {
            Some(target) => self.reconcile_workspace_follow_for_target(id, target, now),
            None => Vec::new(),
        }
    }

    /// Places every automatic PiP window again.
    /// The placing actions for the first `n` managed windows, in the engine's order: one for
    /// each automatic PiP window that has a place.
    pub closed spec fn placements_upto(&self, n: int) -> Seq<Effect>
        decreases n,
    {
        if n <= 0 {
            Seq::empty()
        } else {
            let prev = self.placements_upto(n - 1);
            let t = self.managed.seq()[n - 1];
            let plan = self.placement_for_spec(t.id, self.desired_size_spec(t.id));
            if t.mode == TrackedMode::AutoPip && plan is Some {
                prev.push(place_action(t.id, plan->0))
            } else {
                prev
            }
        }
    }

    /// The actions that place every automatic PiP window again, where the engine is enabled.
    pub closed spec fn placements(&self) -> Seq<Effect> {
        if self.enabled {
            self.placements_upto(self.managed.seq().len() as int)
        } else {
            Seq::empty()
        }
    }

    /// Places every automatic PiP window again.
    fn reconcile_unplaced_auto_pip(&self) -> (r: Vec<Effect>)
        requires
            self.wf(),
        ensures
            effects_ok(r@, self.windows@),
            r@ == self.placements(),
    {
        let mut effects: Vec<Effect> = Vec::new();
        if !self.enabled {
            return effects;
        }
        let mut i: usize = 0;
        while i < self.managed.len()
            invariant
                self.wf(),
                self.enabled,
                i <= self.managed.seq().len(),
                effects_ok(effects@, self.windows@),
                effects@ == self.placements_upto(i as int),
            decreases self.managed.seq().len() - i,
        {
            let t = self.managed.at(i);
            let ghost before = effects@;
            proof {
                crate::idmap::lemma_keyed_map_index(self.managed.seq(), i as int);
            }
            if t.mode == TrackedMode::AutoPip {
                let id = t.id;
                proof {
                    assert(self.managed@.contains_key(id));
                }
                let size = self.desired_size(id);
                if let Some(plan) = self.placement_for_tracked(id, size) {
                    push_effect(&mut effects, place_effect(id, plan), Ghost(self.windows@));
                }
            }
            i = i + 1;
        }
        effects
    }

    /// The actions that put managed window `id` back where it has left floating mode: float
    /// it and, for an automatic PiP window, give it its size and place again.
    pub closed spec fn reconcile_effects(&self, id: u64) -> Seq<Effect> {
        if !self.enabled || !self.windows@.contains_key(id) || !self.managed@.contains_key(id)
            || self.windows@[id].is_floating {
            Seq::empty()
        } else {
            let float = seq![Effect::Action(CompositorAction::MoveWindowToFloating { id })];
            if self.managed@[id].mode == TrackedMode::AutoPip {
                let size = self.desired_size_spec(id);
                let sized = seq![
                    Effect::Action(CompositorAction::SetWindowWidth { id, change: SizeChange::SetFixed(size.0 as i32) }),
                    Effect::Action(CompositorAction::SetWindowHeight { id, change: SizeChange::SetFixed(size.1 as i32) }),
                ];
                let placed: Seq<Effect> = match self.placement_for_spec(id, size) {
                    Some(p) => seq![place_action(id, p)],
                    None => Seq::empty(),
                };
                float + sized + placed
            } else {
                float
            }
        }
    }

    /// Puts a managed window back into floating mode where it left it.
    fn reconcile_window(&mut self, id: u64, now: u64) -> (r: Vec<Effect>)
        requires
            old(self).wf(),
        ensures
            r@ == old(self).reconcile_effects(id),
            final(self).managed@.remove(id) == old(self).managed@.remove(id),
            old(self).managed@.contains_key(id) ==> final(self).managed@ == (if r@.len() > 0 {
                old(self).managed@.insert(id, TrackedWindow {
                    suppress_geometry_until: old(self).suppression_spec(now),
                    ..old(self).managed@[id]
                })
            } else {
                old(self).managed@
            }),
            !old(self).enabled ==> r@.len() == 0,
            final(self).wf(),
            final(self).env_same(old(self)),
            effects_ok(r@, final(self).windows@),
            final(self).candidates == old(self).candidates,
            final(self).persistent == old(self).persistent,
            final(self).persistent_dirty == old(self).persistent_dirty,
            final(self).ignored_until_close == old(self).ignored_until_close,
            forall|k: u64| #[trigger] final(self).managed@.contains_key(k) <==> old(self).managed@.contains_key(k),
            roles_kept(old(self).managed@, final(self).managed@),
    {
        let mut effects: Vec<Effect> = Vec::new();
        if !self.enabled {
            return effects;
        }
        let floating = match self.windows.get(id) {
            Some(w) => w.is_floating,
            None => {
                return effects;
            },
        };
        let mut t = match self.managed_copy(id) {
            Some(t) => t,
            None => {
                return effects;
            },
        };
        let ghost known = self.windows@;
        if !floating {
            push_effect(&mut effects, Effect::Action(CompositorAction::MoveWindowToFloating { id }), Ghost(known));
            if t.mode == TrackedMode::AutoPip {
                let (w, h) = self.desired_size(id);
                push_effect(
                    &mut effects,
                    Effect::Action(CompositorAction::SetWindowWidth { id, change: SizeChange::SetFixed(w as i32) }),
                    Ghost(known),
                );
                push_effect(
                    &mut effects,
                    Effect::Action(CompositorAction::SetWindowHeight { id, change: SizeChange::SetFixed(h as i32) }),
                    Ghost(known),
                );
                if let Some(plan) = self.placement_for_tracked(id, (w, h)) {
                    push_effect(&mut effects, place_effect(id, plan), Ghost(known));
                }
            }
            t.suppress_geometry_until = self.suppression_until(now);
            self.store_managed(t);
        }
        effects
    }

    /// Gives focus back to the window that had it when a new PiP window took it.
    /// Whether a window opened at `opened_at` still counts as just opened at `now`.
    pub closed spec fn recent(&self, opened_at: u64, now: u64) -> bool {
        (if now >= opened_at { now - opened_at } else { 0 }) <= self.config.general.focus_restore_window_ms
    }

    /// The focus to give back when automatic PiP window `id` takes focus at `now`: to the
    /// window that had it when `id` opened, where `id` opened recently and that window is
    /// still known.
    pub closed spec fn focus_restore_spec(&self, id: u64, now: u64) -> Option<Effect> {
        if !self.managed@.contains_key(id) || self.managed@[id].mode != TrackedMode::AutoPip {
            None
        } else {
            self.candidate_restore(id, now)
        }
    }

    /// The focus to give back to the window that had it when window `id` opened, where `id`
    /// opened recently and that window is still known.
    pub closed spec fn candidate_restore(&self, id: u64, now: u64) -> Option<Effect> {
        if !self.candidates@.contains_key(id) {
            None
        } else {
            let c = self.candidates@[id];
            if !self.recent(c.opened_at, now) {
                None
            } else {
                match c.previous {
                    Some(p) => if p != id && self.windows@.contains_key(p) {
                        Some(Effect::Action(CompositorAction::FocusWindow { id: p }))
                    } else {
                        None
                    },
                    None => None,
                }
            }
        }
    }

    /// The window that has focus as window `id` opens: the one focused before it, where `id`
    /// is already taken for focused, else the focused one, else the first window marked
    /// focused.
    pub closed spec fn focus_before_open(&self, id: u64) -> Option<u64> {
        if self.focused_window == Some(id) {
            self.previous_focused_window
        } else {
            match self.focused_window {
                Some(f) => Some(f),
                None => first_focused(self.windows.seq()),
            }
        }
    }

    /// The focus to give back when window `w` opens or changes at `now` and turns out to be a
    /// PiP window that took focus: to the window that had focus when it opened, where that was
    /// recently and that window is another known one.
    pub closed spec fn open_restore(&self, w: WindowInfo, now: u64) -> Option<Effect> {
        if !self.windows@.contains_key(w.id) {
            match self.focus_before_open(w.id) {
                Some(p) => if p != w.id && self.windows@.contains_key(p) {
                    Some(Effect::Action(CompositorAction::FocusWindow { id: p }))
                } else {
                    None
                },
                None => None,
            }
        } else {
            self.candidate_restore(w.id, now)
        }
    }

    fn focus_restore_effect(&mut self, id: u64, now: u64) -> (r: Option<Effect>)
        requires
            old(self).wf(),
        ensures
            r == old(self).focus_restore_spec(id, now),
            final(self).wf(),
            final(self).env_same(old(self)),
            final(self).managed == old(self).managed,
            final(self).persistent == old(self).persistent,
            final(self).persistent_dirty == old(self).persistent_dirty,
            final(self).ignored_until_close == old(self).ignored_until_close,
            r matches Some(e) ==> (e matches Effect::Action(CompositorAction::FocusWindow { id: p })
                && p != id && final(self).windows@.contains_key(p)),
            r is Some ==> old(self).managed@.contains_key(id) && old(self).managed@[id].mode == TrackedMode::AutoPip,
            final(self).candidates.wf(),
            forall|k: u64| #[trigger] final(self).candidates@.contains_key(k) ==> old(self).candidates@.contains_key(k),
    {
        let is_auto = match self.managed.get(id) {
            Some(t) => t.mode == TrackedMode::AutoPip,
            None => false,
        };
        if !is_auto {
            return None;
        }
        let (recent, previous) = match self.candidates.get(id) {
            Some(c) => (now.saturating_sub(c.opened_at) <= self.config.general.focus_restore_window_ms, c.previous),
            None => (false, None),
        };
        self.candidates.remove(id);
        if !recent {
            return None;
        }
        match previous {
            Some(p) => if p != id && self.windows.contains(p) {
                Some(Effect::Action(CompositorAction::FocusWindow { id: p }))
            } else {
                None
            },
            None => None,
        }
    }

    /// Forgets focus candidates older than the focus-restore window.
    fn prune_focus_candidates(&mut self, now: u64)
        requires
            old(self).wf(),
        ensures
            final(self).wf(),
            final(self).env_same(old(self)),
            final(self).managed == old(self).managed,
            final(self).persistent == old(self).persistent,
            final(self).persistent_dirty == old(self).persistent_dirty,
            final(self).ignored_until_close == old(self).ignored_until_close,
            forall|k: u64| #[trigger] final(self).candidates@.contains_key(k) <==> (old(self).candidates@.contains_key(k)
                && old(self).recent(old(self).candidates@[k].opened_at, now)),
            forall|k: u64| #[trigger] final(self).candidates@.contains_key(k) ==> final(self).candidates@[k] == old(self).candidates@[k],
    {
        let ids = self.candidates.keys();
        let ghost start = *self;
        let mut i: usize = 0;
        while i < ids.len()
            invariant
                self.wf(),
                self.env_same(&start),
                self.managed == start.managed,
                self.persistent == start.persistent,
                self.persistent_dirty == start.persistent_dirty,
                self.ignored_until_close == start.ignored_until_close,
                i <= ids@.len(),
                forall|k: u64| #[trigger] ids@.contains(k) <==> start.candidates@.contains_key(k),
                forall|k: u64| #[trigger] self.candidates@.contains_key(k) ==> self.candidates@[k] == start.candidates@[k],
                forall|k: u64| #[trigger] self.candidates@.contains_key(k) ==> start.candidates@.contains_key(k)
                    && (ids@.subrange(0, i as int).contains(k) ==> start.recent(start.candidates@[k].opened_at, now)),
                forall|k: u64| #[trigger] start.candidates@.contains_key(k) && start.recent(start.candidates@[k].opened_at, now)
                    ==> self.candidates@.contains_key(k),
                forall|k: u64| #[trigger] start.candidates@.contains_key(k) && !ids@.subrange(0, i as int).contains(k)
                    ==> self.candidates@.contains_key(k),
            decreases ids@.len() - i,
        {
            let ghost done = ids@.subrange(0, i as int);
            let ghost next = ids@.subrange(0, i + 1);
            proof {
                assert(next =~= done.push(ids@[i as int]));
            }
            let id = ids[i];
            let stale = match self.candidates.get(id) {
                Some(c) => now.saturating_sub(c.opened_at) > self.config.general.focus_restore_window_ms,
                None => false,
            };
            if stale {
                self.candidates.remove(id);
            }
            proof {
                assert(ids@.contains(id)) by {
                    assert(ids@[i as int] == id);
                }
                assert forall|k: u64| #[trigger] self.candidates@.contains_key(k) implies start.candidates@.contains_key(k)
                    && (next.contains(k) ==> start.recent(start.candidates@[k].opened_at, now)) by {
                    if next.contains(k) && k != id {
                        let x = choose|x: int| 0 <= x < next.len() && next[x] == k;
                        assert(done[x] == k);
                    }
                }
                assert forall|k: u64| #[trigger] start.candidates@.contains_key(k) && !next.contains(k)
                    implies self.candidates@.contains_key(k) by {
                    if done.contains(k) {
                        let x = choose|x: int| 0 <= x < done.len() && done[x] == k;
                        assert(next[x] == k);
                    }
                    assert(k != id) by {
                        assert(next[i as int] == id);
                    }
                }
            }
            i = i + 1;
        }
        proof {
            assert(ids@.subrange(0, ids@.len() as int) =~= ids@);
        }
    }
}

/// The first placement of a window reads neither its pending workspace move nor its locked
/// geometry, and focus given back is at most one focus action.
proof fn lemma_first_placed(a: Engine, b: Engine, id: u64, now: u64, r: Seq<Effect>)
    requires
        a.managed@.contains_key(id),
        b.managed@.contains_key(id),
        b.windows == a.windows,
        b.workspaces == a.workspaces,
        b.outputs == a.outputs,
        b.config == a.config,
        b.persistent == a.persistent,
        b.focused_workspace == a.focused_workspace,
        b.managed@[id] == (TrackedWindow {
            pending_workspace: b.managed@[id].pending_workspace,
            locked_geometry: b.managed@[id].locked_geometry,
            ..a.managed@[id]
        }),
        r == a.initial_effects(id, now),
    ensures
        first_placed(b, id, r),
        b.first_placement(id) == a.first_placement(id),
{
    assert(b.first_placement(id) == a.first_placement(id));
    let p = a.first_placement(id);
    assert(r.take(p.len() as int) =~= p);
}

/// Putting a window back reads neither when its geometry changes are ignored until nor the
/// windows remembered as just opened.
proof fn lemma_reconcile_same(a: Engine, b: Engine, id: u64)
    requires
        a.managed@.contains_key(id),
        b.enabled == a.enabled,
        b.windows == a.windows,
        b.workspaces == a.workspaces,
        b.outputs == a.outputs,
        b.config == a.config,
        b.persistent == a.persistent,
        b.focused_workspace == a.focused_workspace,
        b.managed@ == a.managed@ || b.managed@ == a.managed@.insert(id, TrackedWindow {
            suppress_geometry_until: b.managed@[id].suppress_geometry_until,
            ..a.managed@[id]
        }),
    ensures
        b.reconcile_effects(id) == a.reconcile_effects(id),
{
}

proof fn lemma_window_key(e: &Engine, id: u64)
    requires
        e.windows@.contains_key(id),
    ensures
        e.windows@[id].id == id,
{
    crate::idmap::lemma_keyed_map_value_key(e.windows.seq(), id);
}

proof fn lemma_managed_key(e: &Engine, id: u64)
    requires
        e.wf(),
        e.managed@.contains_key(id),
    ensures
        e.managed@[id].id == id,
        e.windows@.contains_key(id),
{
    crate::idmap::lemma_keyed_map_dom(e.managed.seq(), id);
    let j = choose|j: int| 0 <= j < e.managed.seq().len() && (#[trigger] e.managed.seq()[j]).key_of() == id;
    crate::idmap::lemma_keyed_map_index(e.managed.seq(), j);
}


/// A rounded square root held within `u32` and no smaller than `min`.
pub open spec fn fit_dimension(w: int, min: int) -> u32 {
    let v = if w < min { min } else { w };
    if v > u32::MAX { u32::MAX } else { v as u32 }
}

/// The size of the configured area `bw * bh` reshaped to the aspect ratio `cw : ch`.
pub open spec fn aspect_size(bw: u32, bh: u32, cw: u32, ch: u32) -> (u32, u32) {
    let area = if bw * bh < 1 { 1 } else { bw * bh };
    (
        fit_dimension(crate::geometry::rounded_sqrt(area * cw, ch as int), 120),
        fit_dimension(crate::geometry::rounded_sqrt(area * ch, cw as int), 68),
    )
}

/// The aspect ratio `cw : ch` lies between 0.4 and 3.5.
pub open spec fn plausible_ratio(cw: u32, ch: u32) -> bool {
    2 * ch <= 5 * cw && 2 * cw <= 7 * ch
}

fn fit_dim(w: u64, min: u64) -> (r: u32)
    ensures
        r == fit_dimension(w as int, min as int),
{
    let v = if w < min { min } else { w };
    if v > 0xFFFF_FFFF { 0xFFFF_FFFF } else { v as u32 }
}

impl Engine {
    /// The size a newly recognised PiP window gets.
    pub closed spec fn initial_size_spec(&self, w: WindowInfo, name: Seq<char>) -> (u32, u32) {
        let base = crate::config::resolved_size_of(self.config.pip);
        let (cw, ch) = logical_size_of(w);
        if self.remembering() && self.profile_of(name) is Some {
            (self.profile_of(name)->0.width, self.profile_of(name)->0.height)
        } else if !self.config.pip.preserve_aspect_ratio || cw == 0 || ch == 0 || !plausible_ratio(cw, ch) {
            base
        } else {
            aspect_size(base.0, base.1, cw, ch)
        }
    }

    /// The size a newly recognised PiP window of detector `name` is managed at: its live size
    /// when it was found already open, is not locked and is large enough; else its initial
    /// size.
    pub closed spec fn pip_size(&self, w: WindowInfo, name: Seq<char>, adopt: bool) -> (u32, u32) {
        let live = logical_size_of(w);
        if adopt && !self.controls_spec(name).geometry_locked && live_enough(live) {
            live
        } else {
            self.initial_size_spec(w, name)
        }
    }

    fn resolve_initial_pip_size(&self, window: &WindowInfo, detector_name: &str) -> (r: (u32, u32))
        ensures
            r == self.initial_size_spec(*window, detector_name@),
    {
        if self.remembering_exec() {
            if let Some(g) = self.persistent.profiles.get(detector_name) {
                return (g.width, g.height);
            }
        }
        let (bw, bh) = self.config.pip.resolved_size();
        if !self.config.pip.preserve_aspect_ratio {
            return (bw, bh);
        }
        let (cw, ch) = window.logical_size();
        if cw == 0 || ch == 0 {
            return (bw, bh);
        }
        if !(2 * (ch as u64) <= 5 * (cw as u64) && 2 * (cw as u64) <= 7 * (ch as u64)) {
            return (bw, bh);
        }
        assert((bw as u128) * (bh as u128) <= 0xFFFF_FFFF * 0xFFFF_FFFF) by (nonlinear_arith)
            requires
                bw <= 0xFFFF_FFFF,
                bh <= 0xFFFF_FFFF,
        ;
        let product: u128 = (bw as u128) * (bh as u128);
        let area: u128 = if product < 1 { 1 } else { product };
        proof {
            assert(logical_size_of(*window).0 <= 0x7FFF_FFFF && logical_size_of(*window).1 <= 0x7FFF_FFFF);
            assert(area <= 0x1_0000_0000_0000_0000) by (nonlinear_arith)
                requires
                    product == (bw as u128) * (bh as u128),
                    area == if product < 1 { 1 } else { product },
            ;
            assert(area * (cw as u128) <= (ch as u128) * 0x4_0000_0000_0000_0000) by (nonlinear_arith)
                requires
                    area <= 0x1_0000_0000_0000_0000,
                    2 * cw <= 7 * ch,
            ;
            assert(area * (ch as u128) <= (cw as u128) * 0x4_0000_0000_0000_0000) by (nonlinear_arith)
                requires
                    area <= 0x1_0000_0000_0000_0000,
                    2 * ch <= 5 * cw,
            ;
        }
        let sw = rounded_sqrt_ratio(area * (cw as u128), ch as u128);
        let sh = rounded_sqrt_ratio(area * (ch as u128), cw as u128);
        proof {
            crate::geometry::lemma_rounded_sqrt_is(sw as int, area * cw, ch as int);
            crate::geometry::lemma_rounded_sqrt_is(sh as int, area * ch, cw as int);
        }
        (fit_dim(sw, 120), fit_dim(sh, 68))
    }

    fn insert_ignored(&mut self, id: u64)
        ensures
            final(self).ignored_until_close@.contains(id),
            forall|k: u64| #[trigger] final(self).ignored_until_close@.contains(k) <==> (k == id || old(self).ignored_until_close@.contains(k)),
            final(self).env_same(old(self)),
            final(self).managed == old(self).managed,
            final(self).candidates == old(self).candidates,
            final(self).persistent == old(self).persistent,
            final(self).persistent_dirty == old(self).persistent_dirty,
    {
        if !ids_contain(&self.ignored_until_close, id) {
            self.ignored_until_close.push(id);
            proof {
                assert(self.ignored_until_close@.last() == id);
                assert forall|k: u64| #[trigger] self.ignored_until_close@.contains(k) <==> (k == id || old(self).ignored_until_close@.contains(k)) by {
                    if old(self).ignored_until_close@.contains(k) {
                        let j = choose|j: int| 0 <= j < old(self).ignored_until_close@.len() && old(self).ignored_until_close@[j] == k;
                        assert(self.ignored_until_close@[j] == k);
                    }
                    if self.ignored_until_close@.contains(k) && k != id {
                        let j = choose|j: int| 0 <= j < self.ignored_until_close@.len() && self.ignored_until_close@[j] == k;
                        assert(old(self).ignored_until_close@[j] == k);
                    }
                }
            }
        }
    }

    /// Floating a tiled window.
    pub closed spec fn init_float(&self, id: u64) -> Seq<Effect> {
        if !self.windows@[id].is_floating {
            seq![Effect::Action(CompositorAction::MoveWindowToFloating { id })]
        } else {
            Seq::empty()
        }
    }

    /// Giving a window its size.
    pub closed spec fn init_sized(&self, id: u64) -> Seq<Effect> {
        let size = self.desired_size_spec(id);
        seq![
            Effect::Action(CompositorAction::SetWindowWidth { id, change: SizeChange::SetFixed(size.0 as i32) }),
            Effect::Action(CompositorAction::SetWindowHeight { id, change: SizeChange::SetFixed(size.1 as i32) }),
        ]
    }

    /// The workspace a newly managed window goes to: the one it follows, else its own.
    pub closed spec fn init_target(&self, id: u64) -> Option<u64> {
        match self.follow_target_spec(id) {
            Some(x) => Some(x),
            None => self.windows@[id].workspace_id,
        }
    }

    /// Moving a window to the workspace it goes to, where that is another one.
    pub closed spec fn init_moved(&self, id: u64) -> Seq<Effect> {
        match (self.windows@[id].workspace_id, self.init_target(id)) {
            (Some(current), Some(to)) => if current != to {
                seq![Effect::Action(CompositorAction::MoveWindowToWorkspace { window_id: id, workspace_id: to, focus: false })]
            } else {
                Seq::empty()
            },
            _ => Seq::empty(),
        }
    }

    /// Where a newly managed window goes: where its detector remembers, where geometry is
    /// remembered, else the corner of its placement on the workspace it goes to.
    pub closed spec fn init_plan(&self, id: u64) -> Option<PlacementPlan> {
        let t = self.managed@[id];
        let remembered = if self.remembering() {
            match t.detector {
                Some(name) => self.profile_of(name@),
                None => None,
            }
        } else {
            None
        };
        match remembered {
            Some(g) => Some(PlacementPlan { x_percent: g.x_percent, y_percent: g.y_percent }),
            None => self.plan_spec(self.init_target(id), self.desired_size_spec(id), t.placement),
        }
    }

    /// Placing a newly managed window, where it has a place.
    pub closed spec fn init_placed(&self, id: u64) -> Seq<Effect> {
        match self.init_plan(id) {
            Some(p) => seq![place_action(id, p)],
            None => Seq::empty(),
        }
    }

    /// Giving focus back, where the newly managed window took it.
    pub closed spec fn init_focus(&self, id: u64, now: u64) -> Seq<Effect> {
        if self.windows@[id].is_focused {
            match self.focus_restore_spec(id, now) {
                Some(e) => seq![e],
                None => Seq::empty(),
            }
        } else {
            Seq::empty()
        }
    }

    /// The actions that first put PiP window `id` in place: float it where it is tiled, give it
    /// its size, move it to the workspace it follows, and place it (where its detector remembers
    /// a place, there).
    pub closed spec fn first_placement(&self, id: u64) -> Seq<Effect> {
        self.init_float(id) + self.init_sized(id) + self.init_moved(id) + self.init_placed(id)
    }

    /// The actions that first manage PiP window `id`: its first placement, then focus given
    /// back where it took it.
    pub closed spec fn initial_effects(&self, id: u64, now: u64) -> Seq<Effect> {
        self.first_placement(id) + self.init_focus(id, now)
    }

    /// First management of a newly recognised PiP window: float it, size it, move it to the
    /// workspace it follows, place it, and give focus back if it took it.
    /// The first placement of managed window `id`, with the workspace it is moved to, where
    /// it is, and the place it is put, where it has one.
    #[verifier::spinoff_prover]
    fn first_placement_exec(&self, id: u64) -> (r: (Vec<Effect>, Option<u64>, Option<PlacementPlan>))
        requires
            self.wf(),
            self.managed@.contains_key(id),
        ensures
            r.0@ == self.first_placement(id),
            effects_ok(r.0@, self.windows@),
            r.1 matches Some(to) ==> self.init_moved(id) == seq![
                Effect::Action(CompositorAction::MoveWindowToWorkspace { window_id: id, workspace_id: to, focus: false }),
            ],
            r.1 is None ==> self.init_moved(id).len() == 0,
            r.2 == self.init_plan(id),
    {
        let mut effects: Vec<Effect> = Vec::new();
        let ghost known = self.windows@;
        proof {
            lemma_managed_key(self, id);
            lemma_window_key(self, id);
        }
        let window = match self.windows.get(id) {
            Some(w) => w.duplicate(),
            None => {
                return (effects, None, None);
            },
        };
        let t = match self.managed_copy(id) {
            Some(t) => t,
            None => {
                return (effects, None, None);
            },
        };
        let remembered = if self.remembering_exec() {
            match &t.detector {
                Some(name) => self.persistent.profiles.get(name.as_str()),
                None => None,
            }
        } else {
            None
        };
        let (width, height) = self.desired_size(id);
        if !window.is_floating {
            push_effect(&mut effects, Effect::Action(CompositorAction::MoveWindowToFloating { id }), Ghost(known));
        }
        assert(effects@ =~= self.init_float(id));
        push_effect(
            &mut effects,
            Effect::Action(CompositorAction::SetWindowWidth { id, change: SizeChange::SetFixed(width as i32) }),
            Ghost(known),
        );
        push_effect(
            &mut effects,
            Effect::Action(CompositorAction::SetWindowHeight { id, change: SizeChange::SetFixed(height as i32) }),
            Ghost(known),
        );
        assert(effects@ =~= self.init_float(id) + self.init_sized(id));
        let target_workspace = match self.follow_target_for(id) {
            Some(w) => Some(w),
            None => window.workspace_id,
        };
        let mut moved_to: Option<u64> = None;
        if let (Some(current), Some(target)) = (window.workspace_id, target_workspace) {
            if current != target {
                push_effect(
                    &mut effects,
                    Effect::Action(CompositorAction::MoveWindowToWorkspace { window_id: id, workspace_id: target, focus: false }),
                    Ghost(known),
                );
                moved_to = Some(target);
            }
        }
        assert(effects@ =~= self.init_float(id) + self.init_sized(id) + self.init_moved(id));
        let plan = match remembered {
            Some(g) => Some(PlacementPlan { x_percent: g.x_percent, y_percent: g.y_percent }),
            None => self.placement_plan(target_workspace, (width, height), t.placement),
        };
        if let Some(plan) = plan {
            push_effect(&mut effects, place_effect(id, plan), Ghost(known));
        }
        assert(effects@ =~= self.first_placement(id));
        (effects, moved_to, plan)
    }

    /// First management of a newly recognised PiP window: float it, size it, move it to the
    /// workspace it follows, place it, and give focus back if it took it.
    #[verifier::spinoff_prover]
    fn initial_manage_auto(&mut self, id: u64, now: u64) -> (r: Vec<Effect>)
        requires
            old(self).wf(),
        ensures
            old(self).managed@.contains_key(id) ==> r@ == old(self).initial_effects(id, now),
            old(self).managed@.contains_key(id) ==> first_placed(*final(self), id, r@),
            old(self).managed@.contains_key(id) ==> r@ == final(self).first_placement(id) + old(self).init_focus(id, now),
            old(self).managed@.contains_key(id) ==> final(self).managed@[id].managed_size == old(self).managed@[id].managed_size,
            final(self).managed@.remove(id) == old(self).managed@.remove(id),
            final(self).wf(),
            final(self).env_same(old(self)),
            effects_ok(r@, final(self).windows@),
            final(self).persistent == old(self).persistent,
            final(self).persistent_dirty == old(self).persistent_dirty,
            final(self).ignored_until_close == old(self).ignored_until_close,
            forall|k: u64| #[trigger] final(self).managed@.contains_key(k) <==> old(self).managed@.contains_key(k),
            forall|k: u64| #[trigger] final(self).candidates@.contains_key(k) ==> old(self).candidates@.contains_key(k),
            roles_kept(old(self).managed@, final(self).managed@),
    {
        let mut t = match self.managed_copy(id) {
            Some(t) => t,
            None => {
                return Vec::new();
            },
        };
        let ghost e0 = *self;
        let ghost known = self.windows@;
        let is_focused = match self.windows.get(id) {
            Some(w) => w.is_focused,
            None => false,
        };
        proof {
            lemma_window_key(self, id);
        }
        let (mut effects, moved_to, plan) = self.first_placement_exec(id);
        if let Some(target) = moved_to {
            t.pending_workspace = Some(PendingWorkspaceMove { target, issued_at: now });
        }
        if let Some(plan) = plan {
            if t.geometry_locked && t.locked_geometry.is_none() {
                let (width, height) = self.desired_size(id);
                t.locked_geometry = Some(
                    RememberedGeometry { width, height, x_percent: plan.x_percent, y_percent: plan.y_percent },
                );
            }
        }
        self.store_managed(t);
        assert(self.focus_restore_spec(id, now) == e0.focus_restore_spec(id, now));
        if is_focused {
            if let Some(e) = self.focus_restore_effect(id, now) {
                push_effect(&mut effects, e, Ghost(known));
            }
        }
        proof {
            assert(effects@ =~= e0.initial_effects(id, now));
            lemma_first_placed(e0, *self, id, now, effects@);
        }
        effects
    }

    /// Takes over a PiP window found already open: its live size and position win over the
    /// remembered profile.
    fn adopt_existing_auto(&mut self, id: u64, now: u64) -> (r: Vec<Effect>)
        requires
            old(self).wf(),
        ensures
            final(self).persistent.controls@ == old(self).persistent.controls@,
            old(self).managed@.contains_key(id) ==> final(self).persistent.profiles@ == old(self).adopted_profiles(id),
            old(self).managed@.contains_key(id) ==> r@ == old(self).adoption_effects(*final(self), id, now),
            old(self).managed@.contains_key(id) ==> final(self).managed@[id].managed_size == (if live_enough(
                logical_size_of(old(self).windows@[id]),
            ) {
                Some(logical_size_of(old(self).windows@[id]))
            } else {
                old(self).managed@[id].managed_size
            }),
            final(self).managed@.remove(id) == old(self).managed@.remove(id),
            final(self).wf(),
            final(self).env_same(old(self)),
            effects_ok(r@, final(self).windows@),
            final(self).ignored_until_close == old(self).ignored_until_close,
            final(self).candidates == old(self).candidates,
            old(self).persistent_dirty ==> final(self).persistent_dirty,
            forall|k: u64| #[trigger] final(self).managed@.contains_key(k) <==> old(self).managed@.contains_key(k),
            roles_kept(old(self).managed@, final(self).managed@),
    {
        let mut effects: Vec<Effect> = Vec::new();
        let ghost known = self.windows@;
        let (floating, live) = match self.windows.get(id) {
            Some(w) => (w.is_floating, w.logical_size()),
            None => {
                return effects;
            },
        };
        let mut t = match self.managed_copy(id) {
            Some(t) => t,
            None => {
                return effects;
            },
        };
        if live.0 >= 120 && live.1 >= 68 {
            t.managed_size = Some(live);
        }
        let name = copy_opt_string(&t.detector);
        self.store_managed(t);
        let ghost profiles = self.persistent.profiles@;
        proof {
            lemma_window_key(self, id);
        }
        if let Some(name) = name {
            let ghost key = name@;
            match self.current_geometry(id) {
                Some(g) => {
                    let same = match self.persistent.profiles.get(name.as_str()) {
                        Some(old) => old == g,
                        None => false,
                    };
                    if !same {
                        self.persistent.profiles.insert(name, g);
                        self.mark_persistent_dirty();
                    } else {
                        assert(profiles.insert(key, g) =~= profiles);
                    }
                },
                None => {
                    if live.0 >= 120 && live.1 >= 68 {
                        if let Some(remembered) = self.persistent.profiles.get(name.as_str()) {
                            if remembered.width != live.0 || remembered.height != live.1 {
                                let mut g = remembered;
                                g.width = live.0;
                                g.height = live.1;
                                self.persistent.profiles.insert(name, g);
                                self.mark_persistent_dirty();
                            } else {
                                assert(profiles.insert(key, resized(remembered, live)) =~= profiles);
                            }
                        }
                    }
                },
            }
        }
        if !floating {
            push_effect(&mut effects, Effect::Action(CompositorAction::MoveWindowToFloating { id }), Ghost(known));
        }
        let ghost before_follow = *self;
        let more = self.reconcile_workspace_follow_for(id, now);
        proof {
            if let Some(target) = before_follow.focused_workspace {
                assert(before_follow.follow_due(id, target, now) == old(self).follow_due(id, target, now));
            }
        }
        append_effects(&mut effects, more, Ghost(known));
        effects
    }

    /// The actions when managed window `id`, found already open, is taken over, with `new` the
    /// engine that results: float it where it is tiled, then move it to the focused workspace
    /// where a move is due.
    pub closed spec fn adoption_effects(&self, new: Engine, id: u64, now: u64) -> Seq<Effect> {
        let float: Seq<Effect> = if self.windows@[id].is_floating {
            Seq::empty()
        } else {
            seq![Effect::Action(CompositorAction::MoveWindowToFloating { id })]
        };
        let follow: Seq<Effect> = match self.focused_workspace {
            Some(target) => if self.follow_due(id, target, now) {
                new.follow_effects(id, target)
            } else {
                Seq::empty()
            },
            None => Seq::empty(),
        };
        float + follow
    }

    /// The actions when window `id`, found already open and not managed yet, is taken over as
    /// PiP of detector `name`, with `new` the engine that results: float it where it is tiled,
    /// then move it to the focused workspace where the detector's controls make it follow there.
    pub closed spec fn fresh_adoption_effects(&self, new: Engine, id: u64, name: Seq<char>, now: u64) -> Seq<Effect> {
        let c = self.controls_spec(name);
        let float: Seq<Effect> = if self.windows@[id].is_floating {
            Seq::empty()
        } else {
            seq![Effect::Action(CompositorAction::MoveWindowToFloating { id })]
        };
        let follow: Seq<Effect> = match self.focused_workspace {
            Some(target) => if c.follow_enabled && self.follow_wanted(c.follow_mode, id, target) {
                new.follow_effects(id, target)
            } else {
                Seq::empty()
            },
            None => Seq::empty(),
        };
        float + follow
    }

    /// The remembered profiles once window `id`, found already open, is taken over: its live
    /// geometry is remembered for its detector; where its place on an output is unknown, a
    /// profile already remembered takes its live size, where that is large enough.
    pub closed spec fn adopted_profiles(&self, id: u64) -> Map<Seq<char>, RememberedGeometry> {
        match self.managed@[id].detector {
            None => self.persistent.profiles@,
            Some(name) => self.adoption_profiles(id, name@),
        }
    }

    /// The remembered profiles once window `id`, found already open, is taken over as PiP of
    /// detector `name`, as `adopted_profiles` says.
    pub closed spec fn adoption_profiles(&self, id: u64, name: Seq<char>) -> Map<Seq<char>, RememberedGeometry> {
        let w = self.windows@[id];
        let live = logical_size_of(w);
        let profiles = self.persistent.profiles@;
        match self.geometry_of(w) {
            Some(g) => profiles.insert(name, g),
            None => if live_enough(live) && profiles.contains_key(name) {
                profiles.insert(name, resized(profiles[name], live))
            } else {
                profiles
            },
        }
    }

    /// Manages a window: reconciles it if it is managed already, else asks the detectors.
    fn classify_or_reconcile(&mut self, id: u64, is_new: bool, adopt: bool, now: u64) -> (r: Vec<Effect>)
        requires
            old(self).wf(),
        ensures
            final(self).persistent.controls@ == old(self).persistent.controls@,
            !old(self).managed@.contains_key(id) && old(self).windows@.contains_key(id)
                && is_pip_match(auto_detection(*old(self), old(self).windows@[id], is_new))
                ==> final(self).managed@[id].managed_size == Some(old(self).pip_size(
                    old(self).windows@[id],
                    (auto_detection(*old(self), old(self).windows@[id], is_new)->0).0,
                    adopt,
                )),
            final(self).managed@.remove(id) == old(self).managed@.remove(id),
            final(self).wf(),
            final(self).env_same(old(self)),
            effects_ok(r@, final(self).windows@),
            old(self).persistent_dirty ==> final(self).persistent_dirty,
            forall|k: u64| #[trigger] old(self).managed@.contains_key(k) ==> final(self).managed@.contains_key(k),
            forall|k: u64| #[trigger] final(self).managed@.contains_key(k) ==> (old(self).managed@.contains_key(k) || k == id),
            forall|k: u64| #[trigger] old(self).ignored_until_close@.contains(k) ==> final(self).ignored_until_close@.contains(k),
            forall|k: u64| #[trigger] final(self).ignored_until_close@.contains(k) ==> (k == id || old(self).ignored_until_close@.contains(k)),
            forall|k: u64| #[trigger] final(self).candidates@.contains_key(k) ==> old(self).candidates@.contains_key(k),
            roles_kept(old(self).managed@, final(self).managed@),
            old(self).managed@.contains_key(id) ==> r@ == final(self).reconcile_effects(id),
            !old(self).enabled && !old(self).managed@.contains_key(id) ==> r@.len() == 0 && final(self).managed == old(self).managed,
            !old(self).enabled ==> r@.len() == 0,
            !old(self).managed@.contains_key(id) && old(self).windows@.contains_key(id) ==> detection_outcome(
                auto_detection(*old(self), old(self).windows@[id], is_new),
                id,
                *old(self),
                *final(self),
                r@,
            ),
            !old(self).managed@.contains_key(id) && old(self).windows@.contains_key(id)
                && is_pip_match(auto_detection(*old(self), old(self).windows@[id], is_new))
                ==> if adopt && !old(self).controls_spec((auto_detection(*old(self), old(self).windows@[id], is_new)->0).0).geometry_locked {
                    &&& r@ == old(self).fresh_adoption_effects(
                        *final(self),
                        id,
                        (auto_detection(*old(self), old(self).windows@[id], is_new)->0).0,
                        now,
                    )
                    &&& final(self).persistent.profiles@ == old(self).adoption_profiles(
                        id,
                        (auto_detection(*old(self), old(self).windows@[id], is_new)->0).0,
                    )
                } else {
                    &&& first_placed(*final(self), id, r@)
                    &&& r@ == final(self).first_placement(id) + (if old(self).windows@[id].is_focused {
                        opt_effect(old(self).candidate_restore(id, now))
                    } else {
                        Seq::empty()
                    })
                    &&& final(self).persistent.profiles@ == old(self).persistent.profiles@
                },
            old(self).managed@.contains_key(id) || !old(self).windows@.contains_key(id)
                || !is_pip_match(auto_detection(*old(self), old(self).windows@[id], is_new))
                ==> final(self).persistent.profiles@ == old(self).persistent.profiles@,
    {
        if self.managed.contains(id) {
            let ghost before = *self;
            let r = self.reconcile_window(id, now);
            proof {
                lemma_reconcile_same(before, *self, id);
            }
            return r;
        }
        proof {
            if self.windows@.contains_key(id) {
                lemma_window_key(self, id);
            }
        }
        if !self.enabled || !self.config.general.auto_detect || ids_contain(&self.ignored_until_close, id) {
            return Vec::new();
        }
        let window = match self.windows.get(id) {
            Some(w) => w.duplicate(),
            None => {
                return Vec::new();
            },
        };
        let matched = match self.detector.detect(&window, is_new) {
            Some(m) => m,
            None => {
                return Vec::new();
            },
        };
        if matched.action == DetectionAction::Ignore {
            self.insert_ignored(id);
            return Vec::new();
        }
        let controls = self.controls_for_detector(matched.detector.as_str());
        let suppress = self.suppression_until(now);
        let live = window.logical_size();
        let managed_size = if adopt && !controls.geometry_locked && live.0 >= 120 && live.1 >= 68 {
            live
        } else {
            self.resolve_initial_pip_size(&window, matched.detector.as_str())
        };
        let locked_geometry = if controls.geometry_locked {
            self.persistent.profiles.get(matched.detector.as_str())
        } else {
            None
        };
        let t = TrackedWindow {
            id,
            mode: TrackedMode::AutoPip,
            detector: Some(matched.detector),
            score: Some(matched.score),
            follow_enabled: controls.follow_enabled,
            follow_mode: controls.follow_mode,
            original_was_floating: window.is_floating,
            origin_workspace: None,
            origin_size: None,
            origin_position: None,
            placement: controls.placement,
            managed_size: Some(managed_size),
            pending_workspace: None,
            suppress_geometry_until: suppress,
            geometry_locked: controls.geometry_locked,
            locked_geometry,
        };
        let ghost found = auto_detection(*old(self), old(self).windows@[id], is_new);
        assert(found == Some((t.detector->0@, DetectionAction::Pip)));
        assert(t.managed_size == Some(old(self).pip_size(old(self).windows@[id], t.detector->0@, adopt)));
        self.store_managed(t);
        assert(self.managed@.contains_key(id) && self.managed@[id].mode == TrackedMode::AutoPip);
        let ghost stored = self.managed@;
        let ghost mid = *self;
        proof {
            if let Some(target) = mid.focused_workspace {
                assert(mid.follow_due(id, target, now) == (controls.follow_enabled
                    && old(self).follow_wanted(controls.follow_mode, id, target)));
            }
        }
        assert(roles_kept(old(self).managed@, stored));
        let r = if adopt && !controls.geometry_locked {
            self.adopt_existing_auto(id, now)
        } else {
            self.initial_manage_auto(id, now)
        };
        assert(self.managed@[id].mode == TrackedMode::AutoPip);
        assert(roles_kept(old(self).managed@, self.managed@)) by {
            assert forall|k: u64| #[trigger] old(self).managed@.contains_key(k) implies {
                &&& self.managed@.contains_key(k)
                &&& self.managed@[k].mode == old(self).managed@[k].mode
                &&& self.managed@[k].detector == old(self).managed@[k].detector
            } by {
                assert(stored.contains_key(k));
            }
        }
        r
    }
}


/// What automatic detection makes of window `w`, not managed yet, in engine `e`: the name and
/// action of the best matching detector, or `None` where the engine is disabled, automatic
/// detection is off, the window is ignored until it closes, or no detector reaches the
/// threshold.
pub open spec fn auto_detection(e: Engine, w: WindowInfo, is_new: bool) -> Option<(Seq<char>, DetectionAction)> {
    let c = e.config_view();
    let dets = kept_detectors(c, c.detectors@);
    if !e.enabled_view() || !c.general.auto_detect || e.ignored_view().contains(w.id) {
        None
    } else {
        match best_match(dets, w, is_new, c.general.detection_threshold as int, dets.len() as int) {
            Some((i, _)) => Some((dets[i].name@, dets[i].action)),
            None => None,
        }
    }
}

/// Every window managed before is managed after, in the same mode and for the same detector.
pub open spec fn roles_kept(before: Map<u64, TrackedWindow>, after: Map<u64, TrackedWindow>) -> bool {
    forall|k: u64| #[trigger] before.contains_key(k) ==> {
        &&& after.contains_key(k)
        &&& after[k].mode == before[k].mode
        &&& after[k].detector == before[k].detector
    }
}

/// How window `id` stands after detection found `found`: not managed when nothing matched,
/// ignored until it closes when an ignoring detector matched, and managed as an automatic
/// PiP window of the matching detector otherwise.
pub open spec fn detected_window(found: Option<(Seq<char>, DetectionAction)>, id: u64, new: Engine) -> bool {
    match found {
        None => !new.managed_view().contains_key(id),
        Some((_, DetectionAction::Ignore)) => {
            &&& !new.managed_view().contains_key(id)
            &&& new.ignored_view().contains(id)
        },
        Some((name, DetectionAction::Pip)) => {
            &&& new.managed_view().contains_key(id)
            &&& new.managed_view()[id].mode == TrackedMode::AutoPip
            &&& new.managed_view()[id].detector matches Some(d) && d@ == name
        },
    }
}

/// Detection of window `id`, which was not managed, as one step: the window stands as
/// `detected_window` says, and a window left unmanaged changes nothing else and asks for no
/// action.
pub open spec fn detection_outcome(
    found: Option<(Seq<char>, DetectionAction)>,
    id: u64,
    old: Engine,
    new: Engine,
    r: Seq<Effect>,
) -> bool {
    &&& detected_window(found, id, new)
    &&& !(found matches Some((_, DetectionAction::Pip))) ==> {
        &&& new.managed_view() == old.managed_view()
        &&& r.len() == 0
    }
    &&& found is None ==> new.ignored_view() == old.ignored_view()
}

/// The ids of a list of windows.
pub open spec fn listed_window(ws: Seq<WindowInfo>, k: u64) -> bool {
    exists|i: int| 0 <= i < ws.len() && (#[trigger] ws[i]).id == k
}

/// Layout changes applied one after the other: `states` holds the engine before the first
/// change and after each, `parts` the actions each change asked for, in order.
pub open spec fn layout_steps(
    old: Engine,
    new: Engine,
    changes: Seq<(u64, WindowLayout)>,
    now: u64,
    r: Seq<Effect>,
    states: Seq<Engine>,
    parts: Seq<Seq<Effect>>,
) -> bool {
    &&& states.len() == changes.len() + 1
    &&& parts.len() == changes.len()
    &&& old.same_but_candidates(states[0])
    &&& states.last() == new
    &&& r == parts.flatten_alt()
    &&& forall|i: int| 0 <= i < changes.len() ==> #[trigger] states[i].layout_outcome(
        states[i + 1],
        changes[i].0,
        changes[i].1,
        now,
        parts[i],
    )
}

/// New workspaces, then follow reconciliation, then placement: `mid` is `old` with the
/// workspaces of `list` and a focused workspace among them; from there every managed window
/// follows as `follow_steps` says, where the engine is enabled and a workspace is focused, and
/// every automatic PiP window is placed again.
pub open spec fn workspaces_steps(
    old: Engine,
    mid: Engine,
    new: Engine,
    list: Seq<WorkspaceInfo>,
    now: u64,
    r: Seq<Effect>,
    states: Seq<Engine>,
    parts: Seq<Seq<Effect>>,
) -> bool {
    &&& old.same_but_workspaces(mid)
    &&& mid.workspaces_view() == crate::idmap::keyed_map(list)
    &&& focus_listed(mid.workspaces_view(), mid.focused_workspace_view())
    &&& if mid.enabled_view() && mid.focused_workspace_view() is Some {
        &&& follow_steps(mid, new, now, parts.flatten_alt(), states, parts)
        &&& r == parts.flatten_alt() + new.placements()
    } else {
        &&& new == mid
        &&& r == new.placements()
    }
}

/// The actions when window `id` takes focus at `now`: focus given back, where the window is
/// an automatic PiP window that has just opened and took it.
pub open spec fn focus_restored(old: Engine, id: Option<u64>, now: u64, r: Seq<Effect>) -> bool {
    match id {
        Some(f) => match old.focus_restore_spec(f, now) {
            Some(e) => r == seq![e],
            None => r.len() == 0,
        },
        None => r.len() == 0,
    }
}

/// Workspace `w` after workspace `id`, on output `output`, was activated: the active one of
/// its output, and the focused one where the activation took focus.
pub open spec fn activated(w: WorkspaceInfo, id: u64, output: Option<String>, focused: bool) -> WorkspaceInfo {
    WorkspaceInfo {
        is_active: if same_opt_text(w.output, output) {
            w.id == id
        } else {
            w.is_active
        },
        is_focused: if focused {
            w.id == id
        } else {
            w.is_focused
        },
        ..w
    }
}

/// The workspaces after workspace `id` was activated: each as `activated` says, where `id`
/// is known; unchanged otherwise.
pub open spec fn activation_outcome(
    old: Map<u64, WorkspaceInfo>,
    new: Map<u64, WorkspaceInfo>,
    id: u64,
    focused: bool,
) -> bool {
    if old.contains_key(id) {
        &&& forall|k: u64| #[trigger] new.contains_key(k) <==> old.contains_key(k)
        &&& forall|k: u64| #[trigger] old.contains_key(k) ==> new[k] == activated(old[k], id, old[id].output, focused)
    } else {
        new == old
    }
}

/// What `Engine::pin` does: `old` is the engine before, `new` after, `r` the result.
pub open spec fn pin_result(old: Engine, new: Engine, requested: Option<u64>, r: Result<Vec<Effect>, EngineError>) -> bool {
    &&& new.windows_view() == old.windows_view()
    &&& r matches Ok(effects) ==> effects_ok(effects@, new.windows_view()) && no_resize(effects@)
    &&& !old.enabled_view() ==> r == Err::<Vec<Effect>, EngineError>(EngineError::Disabled) && new == old
    &&& old.enabled_view() ==> match old.window_target(requested) {
        Err(e) => r == Err::<Vec<Effect>, EngineError>(e) && new == old,
        Ok(id) => if !old.windows_view().contains_key(id) {
            r == Err::<Vec<Effect>, EngineError>(EngineError::WindowNotFound(id)) && new == old
        } else {
            r is Ok && new.managed_view().contains_key(id)
                && new.managed_view().dom() == old.managed_view().dom().insert(id)
        },
    }
    &&& exists|now: u64| #[trigger] pin_at_result(old, new, requested, now, r)
}

/// What `Engine::unpin` does: `old` is the engine before, `new` after, `r` the result.
pub open spec fn unpin_result(old: Engine, new: Engine, requested: Option<u64>, r: Result<Vec<Effect>, EngineError>) -> bool {
    &&& r matches Ok(effects) ==> effects_ok(effects@, new.windows_view())
    &&& new.windows_view() == old.windows_view()
    &&& match old.unpin_target(requested) {
        Err(e) => r == Err::<Vec<Effect>, EngineError>(e) && new == old,
        Ok(id) => {
            let t = old.managed_view()[id];
            &&& old.managed_view().contains_key(id)
            &&& new.managed_view() == old.managed_view().remove(id)
            &&& r matches Ok(effects) && effects@ == unpin_effects(t, old.windows_view()[id],
                old.config_view().general.restore_layout_on_unpin)
            &&& t.mode == TrackedMode::AutoPip ==> new.ignored_view().contains(id)
            &&& t.mode == TrackedMode::ManualPin ==> new.ignored_view() == old.ignored_view()
        },
    }
}

/// What `Engine::toggle` does: `old` is the engine before, `new` after, `r` the result.
pub open spec fn toggle_result(old: Engine, new: Engine, requested: Option<u64>, r: Result<Vec<Effect>, EngineError>) -> bool {
    &&& r matches Ok(effects) ==> effects_ok(effects@, new.windows_view())
    &&& new.windows_view() == old.windows_view()
    &&& match old.window_target(requested) {
        Err(e) => r == Err::<Vec<Effect>, EngineError>(e) && new == old,
        Ok(id) => if old.managed_view().contains_key(id) {
            unpin_result(old, new, Some(id), r)
        } else {
            pin_result(old, new, Some(id), r)
        },
    }
}

/// What `Engine::resize` does: `old` is the engine before, `new` after, `r` the result.
pub open spec fn resize_result(old: Engine, new: Engine, requested: Option<u64>, width: u32, height: u32, r: Result<Vec<Effect>, EngineError>) -> bool {
    &&& !size_ok(width, height) ==> r == Err::<Vec<Effect>, EngineError>(EngineError::InvalidSize(width, height)) && new == old
    &&& size_ok(width, height) ==> match old.tracked_target(requested) {
        Err(e) => r == Err::<Vec<Effect>, EngineError>(e) && new == old,
        Ok(id) => r matches Ok(effects) && exists|now: u64| old.resize_outcome(new, id, width, height, now, effects@),
    }
    &&& r matches Ok(effects) ==> effects_ok(effects@, new.windows_view())
}

/// What `Engine::scale` does: `old` is the engine before, `new` after, `r` the result.
pub open spec fn scale_result(old: Engine, new: Engine, requested: Option<u64>, percent: i32, r: Result<Vec<Effect>, EngineError>) -> bool {
    &&& match old.tracked_target(requested) {
        Err(e) => r == Err::<Vec<Effect>, EngineError>(e) && new == old,
        Ok(id) => {
            let base = old.live_size(id);
            let w = scaled_dimension(base.0, percent);
            let h = scaled_dimension(base.1, percent);
            if percent <= -100 || w < 120 || h < 68 {
                r == Err::<Vec<Effect>, EngineError>(EngineError::InvalidScale) && new == old
            } else if !size_ok(w, h) {
                r == Err::<Vec<Effect>, EngineError>(EngineError::InvalidSize(w, h)) && new == old
            } else {
                r matches Ok(effects) && exists|now: u64| old.resize_outcome(new, id, w, h, now, effects@)
            }
        },
    }
    &&& r matches Ok(effects) ==> effects_ok(effects@, new.windows_view())
}

/// What `Engine::set_position` does: `old` is the engine before, `new` after, `r` the result.
pub open spec fn set_position_result(old: Engine, new: Engine, requested: Option<u64>, placement: Placement, r: Result<Vec<Effect>, EngineError>) -> bool {
    &&& match old.tracked_target(requested) {
        Err(e) => r == Err::<Vec<Effect>, EngineError>(e) && new == old,
        Ok(id) => r matches Ok(effects) && exists|now: u64| old.position_outcome(new, id, placement, now, effects@),
    }
    &&& r matches Ok(effects) ==> effects_ok(effects@, new.windows_view())
}

/// What `Engine::nudge` does: `old` is the engine before, `new` after, `r` the result.
pub open spec fn nudge_result(old: Engine, new: Engine, requested: Option<u64>, dx: i32, dy: i32, r: Result<Vec<Effect>, EngineError>) -> bool {
    &&& match old.tracked_target(requested) {
        Err(e) => r == Err::<Vec<Effect>, EngineError>(e) && new == old,
        Ok(id) => if dx == 0 && dy == 0 {
            r matches Ok(effects) && effects@ == Seq::<Effect>::empty() && new == old
        } else {
            r matches Ok(effects) && exists|now: u64| old.nudge_outcome(new, id, dx, dy, now, effects@)
        },
    }
    &&& r matches Ok(effects) ==> effects_ok(effects@, new.windows_view())
}

/// What `Engine::set_follow` does: `old` is the engine before, `new` after, `r` the result.
pub open spec fn set_follow_result(old: Engine, new: Engine, requested: Option<u64>, enabled: bool, r: Result<Vec<Effect>, EngineError>) -> bool {
    &&& match old.tracked_target(requested) {
        Err(e) => r == Err::<Vec<Effect>, EngineError>(e) && new == old,
        Ok(id) => r matches Ok(effects) && exists|now: u64| old.follow_set_outcome(new, id, enabled, now, effects@),
    }
    &&& r matches Ok(effects) ==> effects_ok(effects@, new.windows_view())
}

/// What `Engine::set_follow_mode` does: `old` is the engine before, `new` after, `r` the result.
pub open spec fn set_follow_mode_result(old: Engine, new: Engine, requested: Option<u64>, mode: FollowMode, r: Result<Vec<Effect>, EngineError>) -> bool {
    &&& match old.tracked_target(requested) {
        Err(e) => r == Err::<Vec<Effect>, EngineError>(e) && new == old,
        Ok(id) => r matches Ok(effects) && exists|now: u64| old.follow_mode_outcome(new, id, mode, now, effects@),
    }
    &&& r matches Ok(effects) ==> effects_ok(effects@, new.windows_view())
}

/// What `Engine::set_geometry_lock` does: `old` is the engine before, `new` after, `r` the result.
pub open spec fn set_geometry_lock_result(old: Engine, new: Engine, requested: Option<u64>, locked: bool, r: Result<Vec<Effect>, EngineError>) -> bool {
    &&& r matches Ok(effects) ==> effects_ok(effects@, new.windows_view())
    &&& match old.tracked_target(requested) {
        Err(e) => r == Err::<Vec<Effect>, EngineError>(e) && new == old,
        Ok(id) => {
            let geometry = if locked { old.lock_geometry(id) } else { None };
            &&& r matches Ok(effects) && effects@ == Seq::<Effect>::empty()
            &&& new.windows_view() == old.windows_view()
            &&& new.managed_view() == old.managed_view().insert(id, TrackedWindow {
                geometry_locked: locked,
                locked_geometry: geometry,
                ..old.managed_view()[id]
            })
            &&& match old.detector_of(id) {
                Some(name) => {
                    &&& new.persistent_view().controls@ == old.persistent_view().controls@.insert(name,
                        RememberedControls { geometry_locked: locked, ..old.controls_spec(name) })
                    &&& new.persistent_view().profiles@ == (match geometry {
                        Some(g) => old.persistent_view().profiles@.insert(name, g),
                        None => old.persistent_view().profiles@,
                    })
                    &&& new.persistent_view().pip_opacity_percent == old.persistent_view().pip_opacity_percent
                    &&& new.persistent_view().schema_version == crate::state::STATE_SCHEMA_VERSION
                    &&& new.dirty_view()
                },
                None => new.persistent_view() == old.persistent_view()
                    && new.dirty_view() == old.dirty_view(),
            }
        },
    }
}

/// What `Engine::reset_geometry` does: `old` is the engine before, `new` after, `r` the result.
pub open spec fn reset_geometry_result(old: Engine, new: Engine, requested: Option<u64>, r: Result<Vec<Effect>, EngineError>) -> bool {
    &&& match old.tracked_target(requested) {
        Err(e) => r == Err::<Vec<Effect>, EngineError>(e) && new == old,
        Ok(id) => exists|now: u64, s1: Engine| #![trigger old.reset_outcome(s1, id, now)]
            old.reset_outcome(s1, id, now) && s1.reset_rest(new, id, now, r),
    }
    &&& r matches Ok(effects) ==> effects_ok(effects@, new.windows_view())
}

/// What `Engine::apply_preset_at` does: `old` is the engine before, `new` after, `r` the result.
/// The preset's size, corner and following are the outcomes of `resize_at`, `set_position_at`
/// and `set_follow_at` in turn; their effects are concatenated.
pub open spec fn apply_preset_at_result(old: Engine, new: Engine, requested: Option<u64>, preset: ControlPreset, now: u64, r: Result<PresetApplication, EngineError>) -> bool {
    &&& match old.tracked_target(requested) {
        Err(e) => r matches Err(x) && x == e && new == old,
        Ok(id) => {
            let (w, h, placement, opacity) = Engine::preset_spec(preset);
            let auto = old.managed_view()[id].mode == TrackedMode::AutoPip;
            &&& r matches Ok(p) && p.opacity_percent == (if auto { Some(opacity) } else { old.persistent_view().pip_opacity_percent })
            &&& new.persistent_view().pip_opacity_percent == (if auto { Some(opacity) } else { old.persistent_view().pip_opacity_percent })
            &&& exists|s1: Engine, s2: Engine, s3: Engine, e1: Seq<Effect>, e2: Seq<Effect>, e3: Seq<Effect>|
                #![trigger old.resize_outcome(s1, id, w, h, now, e1), s1.position_outcome(s2, id, placement, now, e2), s2.follow_set_outcome(s3, id, true, now, e3)]
                {
                    &&& old.resize_outcome(s1, id, w, h, now, e1)
                    &&& s1.position_outcome(s2, id, placement, now, e2)
                    &&& s2.follow_set_outcome(s3, id, true, now, e3)
                    &&& r->Ok_0.effects@ == e1 + e2 + e3
                    &&& new.managed_view() == s3.managed_view()
                    &&& new.windows_view() == s3.windows_view()
                    &&& new.persistent_view().profiles@ == s3.persistent_view().profiles@
                    &&& new.persistent_view().controls@ == s3.persistent_view().controls@
                }
        },
    }
    &&& r matches Ok(p) ==> effects_ok(p.effects@, new.windows_view())
}

/// What `Engine::apply_preset` does: `old` is the engine before, `new` after, `r` the result.
pub open spec fn apply_preset_result(old: Engine, new: Engine, requested: Option<u64>, preset: ControlPreset, r: Result<PresetApplication, EngineError>) -> bool {
    &&& match old.tracked_target(requested) {
        Err(e) => r matches Err(x) && x == e && new == old,
        Ok(id) => {
            let (w, h, placement, opacity) = Engine::preset_spec(preset);
            let auto = old.managed_view()[id].mode == TrackedMode::AutoPip;
            &&& r matches Ok(p) && p.opacity_percent == (if auto { Some(opacity) } else { old.persistent_view().pip_opacity_percent })
            &&& new.persistent_view().pip_opacity_percent == (if auto { Some(opacity) } else { old.persistent_view().pip_opacity_percent })
        },
    }
    &&& r matches Ok(p) ==> effects_ok(p.effects@, new.windows_view())
    &&& exists|now: u64| #[trigger] apply_preset_at_result(old, new, requested, preset, now, r)
}

/// What `Engine::status_snapshot` gives for engine `e`.
pub open spec fn status_shows(e: Engine, r: StatusSnapshot) -> bool {
    &&& r.version@ == ENGINE_VERSION@
    &&& r.daemon_running
    &&& r.niri_connected == e.connected_view()
    &&& r.niri_version == e.niri_version_view()
    &&& r.enabled == e.enabled_view()
    &&& r.tracked_count == e.managed_count()
    &&& r.pinned == e.managed_count()
    &&& r.minimized == 0
    &&& r.focused_workspace == e.focused_workspace_view()
    &&& r.opacity_override_percent == e.persistent_view().pip_opacity_percent
    &&& r.windows@.len() == e.managed_count()
    &&& forall|a: int, b: int| 0 <= a < b < r.windows@.len() ==> r.windows@[a].id < r.windows@[b].id
    &&& forall|k: u64| #[trigger] e.managed_view().contains_key(k) <==> exists|i: int| 0 <= i < r.windows@.len() && r.windows@[i].id == k
    &&& forall|i: int| 0 <= i < r.windows@.len() ==> e.managed_view().contains_key(#[trigger] r.windows@[i].id)
        && shows(r.windows@[i], e.managed_view()[r.windows@[i].id], e.windows_view()[r.windows@[i].id])
}

/// What `Engine::tracked_snapshots` gives for engine `e`.
pub open spec fn snapshots_show(e: Engine, r: Vec<TrackedWindowSnapshot>) -> bool {
    &&& r@.len() == e.managed_count()
    &&& forall|k: u64| #[trigger] e.managed_view().contains_key(k) <==> exists|i: int| 0 <= i < r@.len() && r@[i].id == k
    &&& forall|i: int| 0 <= i < r@.len() ==> e.managed_view().contains_key(#[trigger] r@[i].id)
        && shows(r@[i], e.managed_view()[r@[i].id], e.windows_view()[r@[i].id])
}

/// What `Engine::pin_at` does: `old` is the engine before, `new` after, `r` the result.
pub open spec fn pin_at_result(old: Engine, new: Engine, requested: Option<u64>, now: u64, r: Result<Vec<Effect>, EngineError>) -> bool {
    &&& new.windows_view() == old.windows_view()
    &&& r matches Ok(effects) ==> effects_ok(effects@, new.windows_view()) && no_resize(effects@)
    &&& !old.enabled_view() ==> r == Err::<Vec<Effect>, EngineError>(EngineError::Disabled) && new == old
    &&& old.enabled_view() ==> match old.window_target(requested) {
        Err(e) => r == Err::<Vec<Effect>, EngineError>(e) && new == old,
        Ok(id) => if !old.windows_view().contains_key(id) {
            r == Err::<Vec<Effect>, EngineError>(EngineError::WindowNotFound(id)) && new == old
        } else if old.managed_view().contains_key(id) {
            &&& r matches Ok(effects) && effects@ == Seq::<Effect>::empty()
            &&& new.managed_view() == old.managed_view()
            &&& !new.ignored_view().contains(id)
        } else {
            let t0 = old.pinned_record(id, now);
            let target = old.focused_workspace_view()->0;
            let follows = old.pin_follows(id);
            let floated = if old.windows_view()[id].is_floating {
                Seq::<Effect>::empty()
            } else {
                seq![Effect::Action(CompositorAction::MoveWindowToFloating { id })]
            };
            &&& r matches Ok(effects) && effects@ == floated + (if follows {
                seq![Effect::Action(CompositorAction::MoveWindowToWorkspace { window_id: id, workspace_id: target, focus: false })]
            } else {
                Seq::<Effect>::empty()
            })
            &&& new.managed_view() == old.managed_view().insert(id, if follows {
                with_pending(t0, target, now, old.suppression_spec(now))
            } else {
                t0
            })
            &&& !new.ignored_view().contains(id)
        },
    }
}

/// What `Engine::take_persistent_if_dirty` does: `old` is the engine before, `new` after, `r` the result.
pub open spec fn take_persistent_if_dirty_result(old: Engine, new: Engine, r: Option<PersistentState>) -> bool {
    &&& old.dirty_view() ==> (r matches Some(s) && s.schema_version == old.persistent_view().schema_version && s.profiles@ == old.persistent_view().profiles@ && s.controls@ == old.persistent_view().controls@
        && s.pip_opacity_percent == old.persistent_view().pip_opacity_percent)
    &&& !old.dirty_view() ==> r is None
    &&& !new.dirty_view()
    &&& new.persistent_view() == old.persistent_view()
    &&& new.managed_view() == old.managed_view()
    &&& new.windows_view() == old.windows_view()
}

/// A window that detection took for PiP is managed at the size `Engine::pip_size` gives.
pub open spec fn pip_sized(
    old: Engine,
    new: Engine,
    w: WindowInfo,
    found: Option<(Seq<char>, DetectionAction)>,
    adopt: bool,
) -> bool {
    is_pip_match(found) ==> {
        &&& new.managed_view().contains_key(w.id)
        &&& new.managed_view()[w.id].managed_size == Some(old.pip_size(w, (found->0).0, adopt))
    }
}

/// A PiP window found already open, not locked for its detector and large enough, is
/// managed at its live size.
pub open spec fn adopted_live(old: Engine, new: Engine, w: WindowInfo, found: Option<(Seq<char>, DetectionAction)>) -> bool {
    is_pip_match(found) && !old.controls_spec((found->0).0).geometry_locked && live_enough(logical_size_of(w)) ==> {
        &&& new.managed_view().contains_key(w.id)
        &&& new.managed_view()[w.id].managed_size == Some(logical_size_of(w))
    }
}

/// Whether a live size is large enough to be taken as a PiP size.
pub open spec fn live_enough(size: (u32, u32)) -> bool {
    size.0 >= 120 && size.1 >= 68
}

/// One window of an authoritative window list, taken in turn from engine `old` to `new`: a
/// managed window is put back where it left floating mode; one that detection takes for PiP is
/// taken over, its live geometry remembered for its detector (or given its first placement,
/// where it is locked for its detector); others ask for nothing.
pub open spec fn window_step(old: Engine, new: Engine, id: u64, now: u64, r: Seq<Effect>) -> bool {
    if old.managed_view().contains_key(id) {
        &&& r == new.reconcile_effects(id)
        &&& new.persistent_view().profiles@ == old.persistent_view().profiles@
    } else {
        match auto_detection(old, old.windows_view()[id], false) {
            Some((name, DetectionAction::Pip)) => if !old.controls_spec(name).geometry_locked {
                &&& r == old.fresh_adoption_effects(new, id, name, now)
                &&& new.persistent_view().profiles@ == old.adoption_profiles(id, name)
            } else {
                &&& first_placed(new, id, r)
                &&& new.persistent_view().profiles@ == old.persistent_view().profiles@
            },
            _ => r.len() == 0 && new.persistent_view().profiles@ == old.persistent_view().profiles@,
        }
    }
}

/// Every window of an authoritative list taken in turn, in the engine's order: `states` holds
/// the engine before the first window and after each, `parts` the actions for each.
pub open spec fn windows_steps(
    start: Engine,
    new: Engine,
    now: u64,
    r: Seq<Effect>,
    states: Seq<Engine>,
    parts: Seq<Seq<Effect>>,
) -> bool {
    let ids = start.window_ids();
    &&& states.len() == ids.len() + 1
    &&& parts.len() == ids.len()
    &&& states[0] == start
    &&& states.last() == new
    &&& r == parts.flatten_alt()
    &&& forall|i: int| 0 <= i < ids.len() ==> #[trigger] window_step(states[i], states[i + 1], ids[i], now, parts[i])
}

/// The actions when window `w`, opening or changing at `now`, turns out to be a PiP window:
/// its first placement, then, where it took focus, focus given back as `Engine::open_restore`
/// says.
pub open spec fn opened_pip_effects(old: Engine, new: Engine, w: WindowInfo, now: u64, r: Seq<Effect>) -> bool {
    r == new.first_placement(w.id) + (if w.is_focused {
        opt_effect(old.open_restore(w, now))
    } else {
        Seq::empty()
    })
}

/// No action, or the one given.
pub open spec fn opt_effect(e: Option<Effect>) -> Seq<Effect> {
    match e {
        Some(x) => seq![x],
        None => Seq::empty(),
    }
}

/// Whether detection found a PiP window.
pub open spec fn is_pip_match(found: Option<(Seq<char>, DetectionAction)>) -> bool {
    found matches Some((_, DetectionAction::Pip))
}

/// The actions asked for a newly managed PiP window `id`, seen from the engine `e` that
/// results: its first placement, then at most focus given back.
pub open spec fn first_placed(e: Engine, id: u64, r: Seq<Effect>) -> bool {
    let p = e.first_placement(id);
    &&& p.len() <= r.len() <= p.len() + 1
    &&& r.take(p.len() as int) == p
    &&& r.len() > p.len() ==> r.last() matches Effect::Action(CompositorAction::FocusWindow { .. })
}

/// The focused workspace is a listed workspace marked focused, and there is none only where
/// no listed workspace is marked so.
pub open spec fn focus_listed(workspaces: Map<u64, WorkspaceInfo>, focused: Option<u64>) -> bool {
    match focused {
        Some(f) => workspaces.contains_key(f) && workspaces[f].is_focused,
        None => forall|k: u64| #[trigger] workspaces.contains_key(k) ==> !workspaces[k].is_focused,
    }
}

/// The window that an effect moves to another workspace, if it is such a move.
pub open spec fn moved_window(e: Effect) -> Option<u64> {
    match e {
        Effect::Action(CompositorAction::MoveWindowToWorkspace { window_id, .. }) => Some(window_id),
        _ => None,
    }
}

/// Whether `e` is an action that follow reconciliation of engine `old` towards workspace
/// `target` may ask for: moving a managed window that follows and is elsewhere to `target`
/// without focusing it, or placing a floating window.
pub open spec fn follow_action_ok(old: Engine, target: u64, e: Effect) -> bool {
    match e {
        Effect::Action(CompositorAction::MoveWindowToWorkspace { window_id, workspace_id, focus }) => {
            &&& workspace_id == target
            &&& !focus
            &&& old.managed_view().contains_key(window_id)
            &&& old.managed_view()[window_id].follow_enabled
            &&& old.windows_view()[window_id].workspace_id != Some(target)
        },
        Effect::Action(CompositorAction::MoveFloatingWindow { .. }) => true,
        _ => false,
    }
}

/// The actions of follow reconciliation of engine `old` towards workspace `target`: each one
/// allowed, and at most one workspace move per window.
pub open spec fn follow_moves_sound(old: Engine, target: u64, r: Seq<Effect>) -> bool {
    &&& forall|i: int| 0 <= i < r.len() ==> follow_action_ok(old, target, #[trigger] r[i])
    &&& forall|i: int, j: int| 0 <= i < j < r.len() && moved_window(r[i]) is Some
        ==> moved_window(#[trigger] r[i]) != moved_window(#[trigger] r[j])
}

/// Follow reconciliation of every managed window in turn, in the engine's order: `states`
/// holds the engine before the first window and after each, `parts` the actions for each.
pub open spec fn follow_steps(
    old: Engine,
    new: Engine,
    now: u64,
    r: Seq<Effect>,
    states: Seq<Engine>,
    parts: Seq<Seq<Effect>>,
) -> bool {
    let ids = old.managed_ids();
    &&& states.len() == ids.len() + 1
    &&& parts.len() == ids.len()
    &&& states[0] == old
    &&& states.last() == new
    &&& r == parts.flatten_alt()
    &&& forall|i: int| 0 <= i < ids.len() ==> #[trigger] states[i].follow_outcome(states[i + 1], ids[i], now, parts[i])
}

/// What handling a compositor event guarantees, besides the engine's consistency and the laws
/// of the effects.
pub open spec fn event_outcome(old: Engine, new: Engine, event: CompositorEvent, r: Seq<Effect>) -> bool {
    match event {
        CompositorEvent::Connected { version } => {
            &&& new.connected_view()
            &&& new.niri_version_view() == Some(version)
            &&& r.len() == 0
            &&& new.managed_view() == old.managed_view()
            &&& new.windows_view() == old.windows_view()
        },
        CompositorEvent::Disconnected { .. } => {
            &&& !new.connected_view()
            &&& r.len() == 0
            &&& new.managed_view() == old.managed_view()
            &&& new.windows_view() == old.windows_view()
        },
        CompositorEvent::WindowClosed { id } => {
            &&& new.windows_view() == old.windows_view().remove(id)
            &&& new.managed_view() == old.managed_view().remove(id)
            &&& r.len() == 0
            &&& new.focused_window_view() != Some(id)
        },
        CompositorEvent::WindowsChanged(ws) => {
            &&& forall|k: u64| #[trigger] new.windows_view().contains_key(k) <==> listed_window(ws@, k)
            &&& new.windows_view() == crate::idmap::keyed_map(ws@)
            &&& new.focused_window_view() matches Some(f) ==> new.windows_view().contains_key(f)
                && new.windows_view()[f].is_focused
            &&& new.focused_window_view() is None ==> forall|k: u64| #[trigger] new.windows_view().contains_key(k)
                ==> !new.windows_view()[k].is_focused
            &&& forall|k: u64| #[trigger] new.managed_view().contains_key(k) ==> listed_window(ws@, k)
            &&& forall|k: u64| old.managed_view().contains_key(k) && listed_window(ws@, k)
                ==> #[trigger] new.managed_view().contains_key(k)
            &&& forall|k: u64| #[trigger] listed_window(ws@, k) && !old.managed_view().contains_key(k)
                ==> detected_window(auto_detection(old, new.windows_view()[k], false), k, new)
            &&& forall|k: u64| #[trigger] listed_window(ws@, k) && !old.managed_view().contains_key(k)
                ==> adopted_live(old, new, new.windows_view()[k], auto_detection(old, new.windows_view()[k], false))
            &&& exists|now: u64, start: Engine, states: Seq<Engine>, parts: Seq<Seq<Effect>>|
                #[trigger] windows_steps(start, new, now, r, states, parts) && old.windows_replaced(start, ws@, now)
        },
        CompositorEvent::WindowOpenedOrChanged(w) => {
            &&& new.windows_view().contains_key(w.id)
            &&& new.windows_view()[w.id] == w
            &&& forall|k: u64| #[trigger] new.windows_view().contains_key(k) <==> (k == w.id || old.windows_view().contains_key(k))
            &&& forall|k: u64| #[trigger] old.managed_view().contains_key(k) ==> new.managed_view().contains_key(k)
            &&& forall|k: u64| #[trigger] new.managed_view().contains_key(k) ==> (old.managed_view().contains_key(k) || k == w.id)
            &&& !old.managed_view().contains_key(w.id) ==> detection_outcome(
                auto_detection(old, w, !old.windows_view().contains_key(w.id)),
                w.id,
                old,
                new,
                r,
            )
            &&& !old.managed_view().contains_key(w.id) && is_pip_match(
                auto_detection(old, w, !old.windows_view().contains_key(w.id)),
            ) ==> first_placed(new, w.id, r) && exists|now: u64| #[trigger] opened_pip_effects(old, new, w, now, r)
            &&& old.managed_view().contains_key(w.id) ==> r == new.reconcile_effects(w.id)
            &&& !old.managed_view().contains_key(w.id) ==> pip_sized(
                old,
                new,
                w,
                auto_detection(old, w, !old.windows_view().contains_key(w.id)),
                false,
            )
        },
        CompositorEvent::WindowFocusChanged { id } => {
            &&& new.focused_window_view() == id
            &&& r.len() <= 1
            &&& forall|i: int| 0 <= i < r.len() ==> (#[trigger] r[i] matches Effect::Action(CompositorAction::FocusWindow { .. }))
            &&& exists|now: u64| #[trigger] focus_restored(old, id, now, r)
            &&& new.managed_view() == old.managed_view()
            &&& forall|k: u64| #[trigger] new.windows_view().contains_key(k) <==> old.windows_view().contains_key(k)
        },
        CompositorEvent::WorkspaceActivated { id, focused } => {
            &&& r.len() == 0
            &&& activation_outcome(old.workspaces_view(), new.workspaces_view(), id, focused)
            &&& new.focused_workspace_view() == (if focused { Some(id) } else { old.focused_workspace_view() })
            &&& new.managed_view() == old.managed_view()
            &&& new.windows_view() == old.windows_view()
        },
        CompositorEvent::WorkspaceActiveWindowChanged { workspace_id, active_window_id } => {
            &&& r.len() == 0
            &&& new.workspaces_view() == (if old.workspaces_view().contains_key(workspace_id) {
                old.workspaces_view().insert(
                    workspace_id,
                    WorkspaceInfo { active_window_id, ..old.workspaces_view()[workspace_id] },
                )
            } else {
                old.workspaces_view()
            })
            &&& new.managed_view() == old.managed_view()
            &&& new.windows_view() == old.windows_view()
        },
        CompositorEvent::WindowLayoutsChanged(changes) => {
            &&& forall|k: u64| #[trigger] new.windows_view().contains_key(k) <==> old.windows_view().contains_key(k)
            &&& forall|k: u64| #[trigger] new.managed_view().contains_key(k) <==> old.managed_view().contains_key(k)
            &&& exists|now: u64, states: Seq<Engine>, parts: Seq<Seq<Effect>>|
                #[trigger] layout_steps(old, new, changes@, now, r, states, parts)
        },
        CompositorEvent::WorkspacesChanged(list) => {
            &&& new.windows_view() == old.windows_view()
            &&& forall|k: u64| #[trigger] new.managed_view().contains_key(k) <==> old.managed_view().contains_key(k)
            &&& exists|now: u64, mid: Engine, states: Seq<Engine>, parts: Seq<Seq<Effect>>|
                #[trigger] workspaces_steps(old, mid, new, list@, now, r, states, parts)
        },
        CompositorEvent::OutputsChanged(outputs) => {
            &&& new.windows_view() == old.windows_view()
            &&& new.managed_view() == old.managed_view()
            &&& if same_outputs(old.outputs_view(), outputs@) {
                &&& r.len() == 0
                &&& new.outputs_view() == old.outputs_view()
            } else {
                &&& new.outputs_view() == outputs@
                &&& r == new.placements()
            }
        },
        CompositorEvent::Unknown(_) => {
            &&& r.len() == 0
            &&& new.managed_view() == old.managed_view()
            &&& new.windows_view() == old.windows_view()
        },
    }
}

impl Engine {
    /// Marks the windows focused or not: exactly the one with id `target`, if any.
    fn set_window_focus(&mut self, target: Option<u64>)
        requires
            old(self).wf(),
        ensures
            final(self).wf(),
            forall|k: u64| #[trigger] final(self).windows@.contains_key(k) <==> old(self).windows@.contains_key(k),
            final(self).managed == old(self).managed,
            final(self).candidates == old(self).candidates,
            final(self).persistent == old(self).persistent,
            final(self).persistent_dirty == old(self).persistent_dirty,
            final(self).ignored_until_close == old(self).ignored_until_close,
            final(self).focused_window == old(self).focused_window,
            final(self).previous_focused_window == old(self).previous_focused_window,
            final(self).focused_workspace == old(self).focused_workspace,
            final(self).config == old(self).config,
            final(self).detector == old(self).detector,
            final(self).enabled == old(self).enabled,
            final(self).workspaces == old(self).workspaces,
            final(self).outputs == old(self).outputs,
            final(self).niri_connected == old(self).niri_connected,
            final(self).niri_version == old(self).niri_version,
            forall|k: u64| #[trigger] final(self).windows@.contains_key(k) ==> final(self).windows@[k].is_focused == (target == Some(k))
                && final(self).windows@[k].id == old(self).windows@[k].id,
    {
        let ghost start = *self;
        let ghost keys0 = crate::idmap::keys_of(self.windows.seq());
        let mut i: usize = 0;
        while i < self.windows.len()
            invariant
                self.wf(),
                i <= self.windows.seq().len(),
                crate::idmap::keys_of(self.windows.seq()) == keys0,
                forall|k: u64| #[trigger] self.windows@.contains_key(k) <==> start.windows@.contains_key(k),
                self.managed == start.managed,
                self.candidates == start.candidates,
                self.persistent == start.persistent,
                self.persistent_dirty == start.persistent_dirty,
                self.ignored_until_close == start.ignored_until_close,
                self.focused_window == start.focused_window,
                self.previous_focused_window == start.previous_focused_window,
                self.focused_workspace == start.focused_workspace,
                self.config == start.config,
                self.detector == start.detector,
                self.enabled == start.enabled,
                self.workspaces == start.workspaces,
                self.outputs == start.outputs,
                self.niri_connected == start.niri_connected,
                self.niri_version == start.niri_version,
                forall|j: int| 0 <= j < i ==> (#[trigger] self.windows.seq()[j]).is_focused == (target == Some(self.windows.seq()[j].id)),
                forall|k: u64| #[trigger] self.windows@.contains_key(k) ==> self.windows@[k].id == start.windows@[k].id,
            decreases self.windows.seq().len() - i,
        {
            let mut w = self.windows.at(i).duplicate();
            proof {
                crate::idmap::lemma_keyed_map_index(self.windows.seq(), i as int);
            }
            w.is_focused = match target {
                Some(t) => w.id == t,
                None => false,
            };
            let ghost before = self.windows.seq();
            self.windows.upsert(w);
            proof {
                assert(crate::idmap::keys_of(self.windows.seq()).len() == keys0.len());
                assert forall|j: int| 0 <= j < before.len() implies #[trigger] self.windows.seq()[j] == (if j == i { w } else { before[j] }) by {
                    assert(crate::idmap::keys_of(self.windows.seq())[j] == keys0[j]);
                    crate::idmap::lemma_keyed_map_index(self.windows.seq(), j);
                    crate::idmap::lemma_keyed_map_index(before, j);
                    if j != i {
                        assert(before[j].id != before[i as int].id);
                    }
                }
            }
            i = i + 1;
        }
        proof {
            assert forall|k: u64| #[trigger] self.windows@.contains_key(k) implies self.windows@[k].is_focused == (target == Some(k)) by {
                crate::idmap::lemma_keyed_map_dom(self.windows.seq(), k);
                let j = choose|j: int| 0 <= j < self.windows.seq().len() && (#[trigger] self.windows.seq()[j]).key_of() == k;
                crate::idmap::lemma_keyed_map_index(self.windows.seq(), j);
            }
        }
    }
}


impl Engine {
    /// A new or changed window: remembers who had focus, records it, and manages it.
    fn upsert_window(&mut self, window: WindowInfo, now: u64) -> (r: Vec<Effect>)
        requires
            old(self).wf(),
        ensures
            final(self).wf(),
            effects_ok(r@, final(self).windows@),
            final(self).windows@.contains_key(window.id),
            final(self).windows@[window.id] == window,
            forall|k: u64| #[trigger] final(self).windows@.contains_key(k) <==> (k == window.id || old(self).windows@.contains_key(k)),
            forall|k: u64| #[trigger] old(self).managed@.contains_key(k) ==> final(self).managed@.contains_key(k),
            forall|k: u64| #[trigger] final(self).managed@.contains_key(k) ==> (old(self).managed@.contains_key(k) || k == window.id),
            !old(self).managed@.contains_key(window.id) ==> detection_outcome(
                auto_detection(*old(self), window, !old(self).windows@.contains_key(window.id)),
                window.id,
                *old(self),
                *final(self),
                r@,
            ),
            !old(self).managed@.contains_key(window.id) && is_pip_match(
                auto_detection(*old(self), window, !old(self).windows@.contains_key(window.id)),
            ) ==> first_placed(*final(self), window.id, r@),
            !old(self).managed@.contains_key(window.id) && is_pip_match(
                auto_detection(*old(self), window, !old(self).windows@.contains_key(window.id)),
            ) ==> r@ == final(self).first_placement(window.id) + (if window.is_focused {
                opt_effect(old(self).open_restore(window, now))
            } else {
                Seq::empty()
            }),
            old(self).managed@.contains_key(window.id) ==> r@ == final(self).reconcile_effects(window.id),
            !old(self).managed@.contains_key(window.id) ==> pip_sized(
                *old(self),
                *final(self),
                window,
                auto_detection(*old(self), window, !old(self).windows@.contains_key(window.id)),
                false,
            ),
    {
        let id = window.id;
        let is_new = !self.windows.contains(id);
        if is_new {
            let previous = if self.focused_window == Some(id) {
                self.previous_focused_window
            } else {
                match self.focused_window {
                    Some(f) => Some(f),
                    None => self.first_focused_window(),
                }
            };
            self.candidates.upsert(FocusCandidate { id, opened_at: now, previous });
        }
        if window.is_focused {
            if self.focused_window != Some(id) {
                if self.focused_window.is_some() {
                    self.previous_focused_window = self.focused_window;
                }
                self.focused_window = Some(id);
            }
            self.set_window_focus(None);
        }
        let workspace_id = window.workspace_id;
        let ghost w0 = window;
        self.windows.upsert(window);
        assert(self.wf());
        if let Some(mut t) = self.managed_copy(id) {
            let clear = match t.pending_workspace {
                Some(p) => workspace_id == Some(p.target),
                None => false,
            };
            if clear {
                t.pending_workspace = None;
                self.store_managed(t);
            }
        }
        let ghost mid = self.windows@;
        let ghost mid_managed = self.managed@;
        proof {
            assert forall|k: u64| #[trigger] old(self).managed@.contains_key(k) implies mid_managed.contains_key(k) by {
                assert(old(self).managed@.contains_key(k));
            }
        }
        proof {
            assert(self.windows@[id] == w0);
            assert(self.candidate_restore(id, now) == old(self).open_restore(w0, now));
        }
        let r = self.classify_or_reconcile(id, is_new, false, now);
        assert(self.windows@ == mid);
        proof {
            assert forall|k: u64| #[trigger] old(self).managed@.contains_key(k) implies self.managed@.contains_key(k) by {
                assert(mid_managed.contains_key(k));
            }
        }
        r
    }

    /// An authoritative list of every window: forgets the windows that are gone and manages
    /// the others, adopting the live geometry of PiP windows found open.
    fn replace_windows(&mut self, windows: Vec<WindowInfo>, now: u64) -> (r: Vec<Effect>)
        requires
            old(self).wf(),
            forall|k: u64| #[trigger] old(self).candidates@.contains_key(k) ==> old(self).recent(old(self).candidates@[k].opened_at, now),
        ensures
            final(self).wf(),
            effects_ok(r@, final(self).windows@),
            forall|k: u64| #[trigger] final(self).windows@.contains_key(k) <==> listed_window(windows@, k),
            forall|k: u64| #[trigger] final(self).managed@.contains_key(k) ==> listed_window(windows@, k),
            forall|k: u64| old(self).managed@.contains_key(k) && listed_window(windows@, k) ==> #[trigger] final(self).managed@.contains_key(k),
            forall|k: u64| #[trigger] listed_window(windows@, k) && !old(self).managed@.contains_key(k) ==> detected_window(
                auto_detection(*old(self), final(self).windows@[k], false),
                k,
                *final(self),
            ),
            forall|k: u64| #[trigger] listed_window(windows@, k) && !old(self).managed@.contains_key(k) ==> adopted_live(
                *old(self),
                *final(self),
                final(self).windows@[k],
                auto_detection(*old(self), final(self).windows@[k], false),
            ),
            exists|start: Engine, states: Seq<Engine>, parts: Seq<Seq<Effect>>|
                #[trigger] windows_steps(start, *final(self), now, r@, states, parts)
                && old(self).windows_replaced(start, windows@, now),
            final(self).windows@ == crate::idmap::keyed_map(windows@),
            final(self).focused_window matches Some(f) ==> final(self).windows@.contains_key(f)
                && final(self).windows@[f].is_focused,
            final(self).focused_window is None ==> forall|k: u64| #[trigger] final(self).windows@.contains_key(k)
                ==> !final(self).windows@[k].is_focused,
    {
        let mut live: Vec<u64> = Vec::new();
        let mut fresh: IdMap<WindowInfo> = IdMap::new();
        let mut i: usize = 0;
        while i < windows.len()
            invariant
                i <= windows@.len(),
                fresh.wf(),
                forall|k: u64| #[trigger] live@.contains(k) <==> (exists|j: int| 0 <= j < i && windows@[j].id == k),
                forall|k: u64| #[trigger] fresh@.contains_key(k) <==> live@.contains(k),
                fresh@ == crate::idmap::keyed_map(windows@.subrange(0, i as int)),
            decreases windows@.len() - i,
        {
            proof {
                assert(windows@.subrange(0, i + 1).drop_last() =~= windows@.subrange(0, i as int));
            }
            let w = windows[i].duplicate();
            let ghost lv = live@;
            live.push(w.id);
            fresh.upsert(w);
            proof {
                assert forall|k: u64| #[trigger] live@.contains(k) <==> (exists|j: int| 0 <= j < i + 1 && windows@[j].id == k) by {
                    if live@.contains(k) {
                        let x = choose|x: int| 0 <= x < live@.len() && live@[x] == k;
                        if x < lv.len() {
                            assert(lv[x] == k);
                            assert(lv.contains(k));
                        } else {
                            assert(windows@[i as int].id == k);
                        }
                    }
                    if exists|j: int| 0 <= j < i + 1 && windows@[j].id == k {
                        let j = choose|j: int| 0 <= j < i + 1 && windows@[j].id == k;
                        if j < i {
                            assert(lv.contains(k));
                            let x = choose|x: int| 0 <= x < lv.len() && lv[x] == k;
                            assert(live@[x] == k);
                        } else {
                            assert(live@[lv.len() as int] == k);
                        }
                    }
                }
            }
            i = i + 1;
        }
        proof {
            assert forall|k: u64| #[trigger] live@.contains(k) <==> listed_window(windows@, k) by {
                if live@.contains(k) {
                    let j = choose|j: int| 0 <= j < windows@.len() && windows@[j].id == k;
                    assert(windows@[j].id == k);
                }
                if listed_window(windows@, k) {
                    let j = choose|j: int| 0 <= j < windows@.len() && (#[trigger] windows@[j]).id == k;
                    assert(windows@[j].id == k);
                }
            }
        }
        proof {
            assert(windows@.subrange(0, windows@.len() as int) =~= windows@);
        }
        let ghost old_managed = self.managed@;
        self.managed.retain_ids(&live);
        proof {
            assert forall|k: u64| old_managed.contains_key(k) && listed_window(windows@, k) implies #[trigger] self.managed@.contains_key(k) by {
                assert(live@.contains(k));
            }
        }
        self.retain_ignored(&live);
        self.candidates.retain_ids(&live);
        self.windows = fresh;
        assert(self.wf());
        self.focused_window = self.first_focused_window();
        let ids = self.windows.keys();
        let ghost start = *self;
        let ghost mut states: Seq<Engine> = seq![start];
        let ghost mut parts: Seq<Seq<Effect>> = Seq::empty();
        proof {
            assert forall|a: int, b: int| 0 <= a < ids@.len() && 0 <= b < ids@.len() && a != b implies ids@[a] != ids@[b] by {
                assert(self.windows.seq()[a].key_of() != self.windows.seq()[b].key_of());
            }
            assert(old(self).windows_replaced(start, windows@, now));
        }
        let mut effects: Vec<Effect> = Vec::new();
        let mut j: usize = 0;
        while j < ids.len()
            invariant
                self.wf(),
                self.windows == start.windows,
                self.config == start.config,
                self.enabled == start.enabled,
                j <= ids@.len(),
                effects_ok(effects@, self.windows@),
                forall|a: int, b: int| 0 <= a < ids@.len() && 0 <= b < ids@.len() && a != b ==> ids@[a] != ids@[b],
                forall|k: u64| #[trigger] ids@.contains(k) <==> start.windows@.contains_key(k),
                roles_kept(start.managed@, self.managed@),
                forall|k: u64| #[trigger] self.managed@.contains_key(k) ==> (start.managed@.contains_key(k)
                    || ids@.subrange(0, j as int).contains(k)),
                forall|k: u64| #[trigger] start.ignored_until_close@.contains(k) ==> self.ignored_until_close@.contains(k),
                forall|k: u64| #[trigger] self.ignored_until_close@.contains(k) ==> (start.ignored_until_close@.contains(k)
                    || ids@.subrange(0, j as int).contains(k)),
                forall|k: u64| #[trigger] ids@.subrange(0, j as int).contains(k) && !start.managed@.contains_key(k)
                    ==> detected_window(auto_detection(start, start.windows@[k], false), k, *self),
                forall|k: u64| #[trigger] ids@.subrange(0, j as int).contains(k) && !start.managed@.contains_key(k)
                    ==> adopted_live(start, *self, start.windows@[k], auto_detection(start, start.windows@[k], false)),
                self.persistent.controls@ == start.persistent.controls@,
                self.focused_window == start.focused_window,
                ids@ == start.window_ids(),
                states.len() == j + 1,
                parts.len() == j,
                states[0] == start,
                states.last() == *self,
                effects@ == parts.flatten_alt(),
                forall|x: int| 0 <= x < j ==> #[trigger] window_step(states[x], states[x + 1], ids@[x], now, parts[x]),
            decreases ids@.len() - j,
        {
            let id = ids[j];
            let ghost before = *self;
            let ghost done = ids@.subrange(0, j as int);
            let ghost next = ids@.subrange(0, j + 1);
            proof {
                assert(next =~= done.push(id));
                assert(!done.contains(id)) by {
                    if done.contains(id) {
                        let x = choose|x: int| 0 <= x < done.len() && done[x] == id;
                        assert(ids@[x] == ids@[j as int]);
                    }
                }
                assert(ids@.contains(id)) by {
                    assert(ids@[j as int] == id);
                }
                assert(auto_detection(before, start.windows@[id], false) == auto_detection(start, start.windows@[id], false)) by {
                    lemma_window_key(&before, id);
                }
                assert(before.managed@.contains_key(id) == start.managed@.contains_key(id));
            }
            let more = self.classify_or_reconcile(id, false, true, now);
            proof {
                assert(window_step(before, *self, id, now, more@));
                let next_states = states.push(*self);
                let next_parts = parts.push(more@);
                assert(next_parts.drop_last() =~= parts);
                assert forall|x: int| 0 <= x < j + 1 implies #[trigger] window_step(
                    next_states[x],
                    next_states[x + 1],
                    ids@[x],
                    now,
                    next_parts[x],
                ) by {
                    if x < j {
                        assert(next_states[x] == states[x]);
                        assert(next_states[x + 1] == states[x + 1]);
                    }
                }
                states = next_states;
                parts = next_parts;
            }
            append_effects(&mut effects, more, Ghost(self.windows@));
            proof {
                assert forall|k: u64| #[trigger] self.managed@.contains_key(k) implies (start.managed@.contains_key(k)
                    || next.contains(k)) by {
                    if k != id {
                        assert(before.managed@.contains_key(k));
                        if done.contains(k) {
                            let x = choose|x: int| 0 <= x < done.len() && done[x] == k;
                            assert(next[x] == k);
                        }
                    } else {
                        assert(next[j as int] == id);
                    }
                }
                assert forall|k: u64| #[trigger] self.ignored_until_close@.contains(k) implies (start.ignored_until_close@.contains(k)
                    || next.contains(k)) by {
                    if k != id {
                        assert(before.ignored_until_close@.contains(k));
                        if done.contains(k) {
                            let x = choose|x: int| 0 <= x < done.len() && done[x] == k;
                            assert(next[x] == k);
                        }
                    } else {
                        assert(next[j as int] == id);
                    }
                }
                assert forall|k: u64| #[trigger] next.contains(k) && !start.managed@.contains_key(k)
                    implies detected_window(auto_detection(start, start.windows@[k], false), k, *self) by {
                    if k == id {
                    } else {
                        let x = choose|x: int| 0 <= x < next.len() && next[x] == k;
                        assert(done[x] == k);
                        assert(done.contains(k));
                        assert(detected_window(auto_detection(start, start.windows@[k], false), k, before));
                    }
                }
                assert forall|k: u64| #[trigger] next.contains(k) && !start.managed@.contains_key(k)
                    implies adopted_live(start, *self, start.windows@[k], auto_detection(start, start.windows@[k], false)) by {
                    if k == id {
                        lemma_window_key(&before, id);
                        let found = auto_detection(start, start.windows@[id], false);
                        if is_pip_match(found) {
                            let name = (found->0).0;
                            assert(before.controls_spec(name) == start.controls_spec(name));
                            if !start.controls_spec(name).geometry_locked && live_enough(logical_size_of(start.windows@[id])) {
                                assert(before.pip_size(start.windows@[id], name, true) == logical_size_of(start.windows@[id]));
                            }
                        }
                    } else {
                        let x = choose|x: int| 0 <= x < next.len() && next[x] == k;
                        assert(done[x] == k);
                        assert(done.contains(k));
                        assert(adopted_live(start, before, start.windows@[k], auto_detection(start, start.windows@[k], false)));
                        assert(ids@.contains(k)) by {
                            assert(ids@[x] == k);
                        }
                        lemma_window_key(&start, k);
                        assert(self.managed@.remove(id).contains_key(k) == before.managed@.remove(id).contains_key(k));
                        if before.managed@.contains_key(k) {
                            assert(self.managed@.remove(id)[k] == before.managed@.remove(id)[k]);
                        }
                    }
                }
            }
            j = j + 1;
        }
        proof {
            assert forall|k: u64| old(self).managed@.contains_key(k) && listed_window(windows@, k) implies #[trigger] self.managed@.contains_key(k) by {
                assert(start.managed@.contains_key(k));
            }
            assert(ids@.subrange(0, ids@.len() as int) =~= ids@);
            assert(windows_steps(start, *self, now, effects@, states, parts));
            assert forall|k: u64| #[trigger] listed_window(windows@, k) && !old(self).managed@.contains_key(k)
                implies detected_window(auto_detection(*old(self), self.windows@[k], false), k, *self) by {
                assert(start.windows@.contains_key(k));
                assert(ids@.contains(k));
                assert(!start.managed@.contains_key(k));
                assert(auto_detection(*old(self), self.windows@[k], false) == auto_detection(start, start.windows@[k], false)) by {
                    lemma_window_key(&start, k);
                }
            }
            assert forall|k: u64| #[trigger] listed_window(windows@, k) && !old(self).managed@.contains_key(k)
                implies adopted_live(*old(self), *self, self.windows@[k], auto_detection(*old(self), self.windows@[k], false)) by {
                assert(start.windows@.contains_key(k));
                assert(ids@.contains(k));
                assert(!start.managed@.contains_key(k));
                assert(auto_detection(*old(self), self.windows@[k], false) == auto_detection(start, start.windows@[k], false)) by {
                    lemma_window_key(&start, k);
                }
                assert(old(self).controls_spec((auto_detection(start, start.windows@[k], false)->0).0)
                    == start.controls_spec((auto_detection(start, start.windows@[k], false)->0).0));
            }
        }
        effects
    }

    fn retain_ignored(&mut self, keep: &Vec<u64>)
        ensures
            final(self).env_same(old(self)),
            final(self).managed == old(self).managed,
            final(self).candidates == old(self).candidates,
            final(self).persistent == old(self).persistent,
            final(self).persistent_dirty == old(self).persistent_dirty,
            forall|k: u64| #[trigger] final(self).ignored_until_close@.contains(k)
                <==> (old(self).ignored_until_close@.contains(k) && keep@.contains(k)),
    {
        let mut kept: Vec<u64> = Vec::new();
        let ghost all = self.ignored_until_close@;
        let mut i: usize = 0;
        while i < self.ignored_until_close.len()
            invariant
                all == self.ignored_until_close@,
                i <= all.len(),
                forall|k: u64| #[trigger] kept@.contains(k) <==> (all.subrange(0, i as int).contains(k) && keep@.contains(k)),
            decreases self.ignored_until_close@.len() - i,
        {
            let id = self.ignored_until_close[i];
            let ghost before = kept@;
            let pushed = ids_contain(keep, id);
            if pushed {
                kept.push(id);
            }
            proof {
                let pre = all.subrange(0, i as int);
                let next = all.subrange(0, i + 1);
                assert(next =~= pre.push(id));
                assert(next[i as int] == id);
                if pushed {
                    assert(kept@ =~= before.push(id));
                    assert(kept@[before.len() as int] == id);
                } else {
                    assert(kept@ =~= before);
                }
                assert forall|k: u64| #[trigger] kept@.contains(k) <==> (next.contains(k) && keep@.contains(k)) by {
                    if kept@.contains(k) {
                        let x = choose|x: int| 0 <= x < kept@.len() && kept@[x] == k;
                        if x < before.len() {
                            assert(before[x] == k);
                            assert(before.contains(k));
                            let y = choose|y: int| 0 <= y < pre.len() && pre[y] == k;
                            assert(next[y] == k);
                        } else {
                            assert(k == id);
                        }
                    }
                    if next.contains(k) && keep@.contains(k) {
                        let x = choose|x: int| 0 <= x < next.len() && next[x] == k;
                        if x < i {
                            assert(pre[x] == k);
                            assert(pre.contains(k));
                            assert(before.contains(k));
                            let y = choose|y: int| 0 <= y < before.len() && before[y] == k;
                            assert(kept@[y] == k);
                        } else {
                            assert(k == id);
                        }
                    }
                }
            }
            i = i + 1;
        }
        proof {
            assert(all.subrange(0, all.len() as int) =~= all);
        }
        self.ignored_until_close = kept;
    }

    fn remove_ignored(&mut self, id: u64)
        ensures
            !final(self).ignored_until_close@.contains(id),
            forall|k: u64| #[trigger] final(self).ignored_until_close@.contains(k) ==> old(self).ignored_until_close@.contains(k),
            final(self).env_same(old(self)),
            final(self).managed == old(self).managed,
            final(self).candidates == old(self).candidates,
            final(self).persistent == old(self).persistent,
            final(self).persistent_dirty == old(self).persistent_dirty,
    {
        let mut kept: Vec<u64> = Vec::new();
        let mut i: usize = 0;
        while i < self.ignored_until_close.len()
            invariant
                i <= self.ignored_until_close@.len(),
                !kept@.contains(id),
                forall|k: u64| #[trigger] kept@.contains(k) ==> self.ignored_until_close@.contains(k),
            decreases self.ignored_until_close@.len() - i,
        {
            let k = self.ignored_until_close[i];
            if k != id {
                let ghost kv = kept@;
                kept.push(k);
                proof {
                    assert(self.ignored_until_close@.contains(k));
                    assert forall|x: u64| #[trigger] kept@.contains(x) implies self.ignored_until_close@.contains(x) by {
                        if x != k {
                            let y = choose|y: int| 0 <= y < kept@.len() && kept@[y] == x;
                            assert(kv[y] == x);
                            assert(kv.contains(x));
                        }
                    }
                }
            }
            i = i + 1;
        }
        self.ignored_until_close = kept;
    }

    /// A window's new layout: learned as the PiP geometry, or put back where a lock holds it.
    fn update_layout(&mut self, id: u64, layout: WindowLayout, now: u64) -> (r: Vec<Effect>)
        requires
            old(self).wf(),
        ensures
            final(self).wf(),
            effects_ok(r@, final(self).windows@),
            forall|k: u64| #[trigger] final(self).windows@.contains_key(k) <==> old(self).windows@.contains_key(k),
            forall|k: u64| #[trigger] final(self).managed@.contains_key(k) <==> old(self).managed@.contains_key(k),
            final(self).focused_window == old(self).focused_window,
            final(self).focused_workspace == old(self).focused_workspace,
            final(self).enabled == old(self).enabled,
            final(self).config == old(self).config,
            final(self).workspaces == old(self).workspaces,
            final(self).outputs == old(self).outputs,
            old(self).layout_outcome(*final(self), id, layout, now, r@),
    {
        let mut effects: Vec<Effect> = Vec::new();
        proof {
            if self.windows@.contains_key(id) {
                lemma_window_key(self, id);
            }
        }
        if let Some(w) = self.windows.get(id) {
            let mut w2 = w.duplicate();
            w2.layout = layout;
            self.windows.upsert(w2);
        }
        let ghost known = self.windows@;
        let mut t = match self.managed_copy(id) {
            Some(t) => t,
            None => {
                return effects;
            },
        };
        if now <= t.suppress_geometry_until {
            return effects;
        }
        if t.geometry_locked {
            let locked = match t.locked_geometry {
                Some(l) => l,
                None => {
                    return effects;
                },
            };
            let current_size = match self.windows.get(id) {
                Some(w) => w.logical_size(),
                None => (0, 0),
            };
            let current = self.current_geometry(id);
            let ghost w1 = with_layout(old(self).windows@[id], layout);
            proof {
                assert(self.windows@[id] == w1);
                assert(current == old(self).geometry_of(w1));
                assert(current_size == logical_size_of(w1));
            }
            let dw = if current_size.0 > locked.width { current_size.0 - locked.width } else { locked.width - current_size.0 };
            if dw > 1 {
                push_effect(
                    &mut effects,
                    Effect::Action(CompositorAction::SetWindowWidth { id, change: SizeChange::SetFixed(locked.width as i32) }),
                    Ghost(known),
                );
            }
            let dh = if current_size.1 > locked.height { current_size.1 - locked.height } else { locked.height - current_size.1 };
            if dh > 1 {
                push_effect(
                    &mut effects,
                    Effect::Action(CompositorAction::SetWindowHeight { id, change: SizeChange::SetFixed(locked.height as i32) }),
                    Ghost(known),
                );
            }
            if let Some(c) = current {
                let dx = if c.x_percent > locked.x_percent { c.x_percent - locked.x_percent } else { locked.x_percent - c.x_percent };
                let dy = if c.y_percent > locked.y_percent { c.y_percent - locked.y_percent } else { locked.y_percent - c.y_percent };
                if dx > 250_000 || dy > 250_000 {
                    push_effect(
                        &mut effects,
                        place_effect(id, PlacementPlan { x_percent: locked.x_percent, y_percent: locked.y_percent }),
                        Ghost(known),
                    );
                }
            }
            assert(effects@ =~= snap_back(id, locked, current_size, current));
            if effects.len() > 0 {
                t.suppress_geometry_until = self.suppression_until(now);
                self.store_managed(t);
            }
            return effects;
        }
        if t.mode != TrackedMode::AutoPip || !self.remembering_exec() {
            return effects;
        }
        let name = match copy_opt_string(&t.detector) {
            Some(n) => n,
            None => {
                return effects;
            },
        };
        let ghost w1 = with_layout(old(self).windows@[id], layout);
        proof {
            assert(self.windows@[id] == w1);
        }
        let remembered = match self.current_geometry(id) {
            Some(g) => g,
            None => {
                return effects;
            },
        };
        let ghost profiles = self.persistent.profiles@;
        let ghost key = name@;
        let same = match self.persistent.profiles.get(name.as_str()) {
            Some(g) => g == remembered,
            None => false,
        };
        if !same {
            self.persistent.profiles.insert(name, remembered);
            self.mark_persistent_dirty();
        } else {
            assert(profiles.insert(key, remembered) =~= profiles);
        }
        t.managed_size = Some((remembered.width, remembered.height));
        self.store_managed(t);
        effects
    }

    /// What a new layout of window `id` does: the engine keeps it; a managed window outside
    /// its suppression time is snapped back when its geometry is locked, and an automatic PiP
    /// window otherwise has its live geometry remembered for its detector, where geometry is
    /// remembered.
    pub closed spec fn layout_outcome(&self, new: Engine, id: u64, layout: WindowLayout, now: u64, r: Seq<Effect>) -> bool {
        let w = with_layout(self.windows@[id], layout);
        let t = self.managed@[id];
        let g = self.geometry_of(w);
        &&& new.windows@ == (if self.windows@.contains_key(id) {
            self.windows@.insert(id, w)
        } else {
            self.windows@
        })
        &&& if !self.managed@.contains_key(id) || now <= t.suppress_geometry_until {
            &&& r.len() == 0
            &&& new.managed@ == self.managed@
            &&& new.persistent == self.persistent
        } else if t.geometry_locked {
            &&& new.persistent == self.persistent
            &&& match t.locked_geometry {
                None => r.len() == 0 && new.managed@ == self.managed@,
                Some(l) => {
                    &&& r == snap_back(id, l, logical_size_of(w), g)
                    &&& new.managed@ == (if r.len() > 0 {
                        self.managed@.insert(id, TrackedWindow { suppress_geometry_until: self.suppression_spec(now), ..t })
                    } else {
                        self.managed@
                    })
                },
            }
        } else if t.mode == TrackedMode::AutoPip && self.remembering() && t.detector is Some && g is Some {
            &&& r.len() == 0
            &&& new.persistent.profiles@ == self.persistent.profiles@.insert(t.detector->0@, g->0)
            &&& new.persistent.controls@ == self.persistent.controls@
            &&& new.managed@ == self.managed@.insert(
                id,
                TrackedWindow { managed_size: Some((g->0.width, g->0.height)), ..t },
            )
        } else {
            &&& r.len() == 0
            &&& new.managed@ == self.managed@
            &&& new.persistent == self.persistent
        }
    }

    /// Sets activity and focus flags of the workspaces after one was activated.
    fn activate_workspace(&mut self, id: u64, focused: bool)
        requires
            old(self).wf(),
        ensures
            final(self).wf(),
            final(self).windows == old(self).windows,
            final(self).managed == old(self).managed,
            final(self).focused_workspace == old(self).focused_workspace,
            final(self).focused_window == old(self).focused_window,
            final(self).enabled == old(self).enabled,
            activation_outcome(old(self).workspaces@, final(self).workspaces@, id, focused),
    {
        let output = match self.workspaces.get(id) {
            Some(w) => copy_opt_string(&w.output),
            None => {
                return;
            },
        };
        let ghost start = *self;
        let ghost keys0 = crate::idmap::keys_of(self.workspaces.seq());
        proof {
            assert forall|a: int, b: int| 0 <= a < keys0.len() && 0 <= b < keys0.len() && a != b implies keys0[a] != keys0[b] by {
                assert(self.workspaces.seq()[a].key_of() != self.workspaces.seq()[b].key_of());
            }
        }
        let mut i: usize = 0;
        while i < self.workspaces.len()
            invariant
                self.wf(),
                crate::idmap::keys_of(self.workspaces.seq()) == keys0,
                forall|a: int, b: int| 0 <= a < keys0.len() && 0 <= b < keys0.len() && a != b ==> keys0[a] != keys0[b],
                i <= self.workspaces.seq().len(),
                self.windows == start.windows,
                self.managed == start.managed,
                self.focused_workspace == start.focused_workspace,
                self.focused_window == start.focused_window,
                self.enabled == start.enabled,
                start.workspaces@.contains_key(id),
                output == start.workspaces@[id].output,
                forall|k: u64| #[trigger] self.workspaces@.contains_key(k) <==> start.workspaces@.contains_key(k),
                forall|k: u64| #[trigger] start.workspaces@.contains_key(k) ==> self.workspaces@[k] == (if keys0.subrange(0, i as int).contains(k) {
                    activated(start.workspaces@[k], id, output, focused)
                } else {
                    start.workspaces@[k]
                }),
            decreases self.workspaces.seq().len() - i,
        {
            let ghost done = keys0.subrange(0, i as int);
            let ghost next = keys0.subrange(0, i + 1);
            let ghost k0 = keys0[i as int];
            let mut w = self.workspaces.at(i).duplicate();
            proof {
                crate::idmap::lemma_keyed_map_index(self.workspaces.seq(), i as int);
                assert(next =~= done.push(k0));
                assert(!done.contains(k0)) by {
                    if done.contains(k0) {
                        let x = choose|x: int| 0 <= x < done.len() && done[x] == k0;
                        assert(keys0[x] == keys0[i as int]);
                    }
                }
                assert(w.id == k0);
                assert(w == start.workspaces@[k0]);
            }
            if opt_string_eq(&w.output, &output) {
                w.is_active = w.id == id;
            }
            if focused {
                w.is_focused = w.id == id;
            }
            self.workspaces.upsert(w);
            proof {
                assert(crate::idmap::keys_of(self.workspaces.seq()).len() == keys0.len());
                assert forall|k: u64| #[trigger] start.workspaces@.contains_key(k) implies self.workspaces@[k] == (if next.contains(k) {
                    activated(start.workspaces@[k], id, output, focused)
                } else {
                    start.workspaces@[k]
                }) by {
                    if k != k0 {
                        if next.contains(k) {
                            let x = choose|x: int| 0 <= x < next.len() && next[x] == k;
                            assert(done[x] == k);
                        }
                        if done.contains(k) {
                            let x = choose|x: int| 0 <= x < done.len() && done[x] == k;
                            assert(next[x] == k);
                        }
                    } else {
                        assert(next[i as int] == k0);
                    }
                }
            }
            i = i + 1;
        }
        proof {
            assert forall|k: u64| #[trigger] start.workspaces@.contains_key(k) implies keys0.contains(k) by {
                crate::idmap::lemma_keyed_map_dom(start.workspaces.seq(), k);
                let x = choose|x: int| 0 <= x < start.workspaces.seq().len() && (#[trigger] start.workspaces.seq()[x]).key_of() == k;
                assert(keys0[x] == k);
            }
            assert(keys0.subrange(0, keys0.len() as int) =~= keys0);
        }
    }

    fn set_workspace_active_window(&mut self, workspace_id: u64, active: Option<u64>)
        requires
            old(self).wf(),
        ensures
            final(self).wf(),
            final(self).windows == old(self).windows,
            final(self).managed == old(self).managed,
            final(self).focused_workspace == old(self).focused_workspace,
            final(self).workspaces@ == (if old(self).workspaces@.contains_key(workspace_id) {
                old(self).workspaces@.insert(
                    workspace_id,
                    WorkspaceInfo { active_window_id: active, ..old(self).workspaces@[workspace_id] },
                )
            } else {
                old(self).workspaces@
            }),
    {
        proof {
            if self.workspaces@.contains_key(workspace_id) {
                crate::idmap::lemma_keyed_map_value_key(self.workspaces.seq(), workspace_id);
            }
        }
        if let Some(w) = self.workspaces.get(workspace_id) {
            let mut w2 = w.duplicate();
            w2.active_window_id = active;
            self.workspaces.upsert(w2);
        }
    }

    fn replace_workspaces(&mut self, list: Vec<WorkspaceInfo>)
        requires
            old(self).wf(),
        ensures
            final(self).wf(),
            final(self).env_same_but_workspaces(old(self)),
            final(self).managed == old(self).managed,
            final(self).workspaces@ == crate::idmap::keyed_map(list@),
            focus_listed(final(self).workspaces@, final(self).focused_workspace),
    {
        let mut fresh: IdMap<WorkspaceInfo> = IdMap::new();
        let mut i: usize = 0;
        while i < list.len()
            invariant
                i <= list@.len(),
                fresh.wf(),
                fresh@ == crate::idmap::keyed_map(list@.subrange(0, i as int)),
            decreases list@.len() - i,
        {
            proof {
                assert(list@.subrange(0, i + 1).drop_last() =~= list@.subrange(0, i as int));
            }
            fresh.upsert(list[i].duplicate());
            i = i + 1;
        }
        proof {
            assert(list@.subrange(0, list@.len() as int) =~= list@);
        }
        self.workspaces = fresh;
        let mut focused: Option<u64> = None;
        let mut j: usize = 0;
        while j < self.workspaces.len()
            invariant_except_break
                focused is None,
            invariant
                self.workspaces.wf(),
                j <= self.workspaces.seq().len(),
                forall|x: int| 0 <= x < j ==> !(#[trigger] self.workspaces.seq()[x]).is_focused,
            ensures
                focused matches Some(f) ==> self.workspaces@.contains_key(f) && self.workspaces@[f].is_focused,
                focused is None ==> forall|x: int| 0 <= x < self.workspaces.seq().len() ==> !(#[trigger] self.workspaces.seq()[x]).is_focused,
            decreases self.workspaces.seq().len() - j,
        {
            if self.workspaces.at(j).is_focused {
                focused = Some(self.workspaces.at(j).id);
                proof {
                    crate::idmap::lemma_keyed_map_index(self.workspaces.seq(), j as int);
                }
                break;
            }
            j = j + 1;
        }
        proof {
            if focused is None {
                assert forall|k: u64| #[trigger] self.workspaces@.contains_key(k) implies !self.workspaces@[k].is_focused by {
                    crate::idmap::lemma_keyed_map_dom(self.workspaces.seq(), k);
                    let x = choose|x: int| 0 <= x < self.workspaces.seq().len() && (#[trigger] self.workspaces.seq()[x]).key_of() == k;
                    crate::idmap::lemma_keyed_map_index(self.workspaces.seq(), x);
                }
            }
        }
        self.focused_workspace = focused;
    }

    /// Everything but the workspaces and the focused workspace is as it was.
    pub closed spec fn env_same_but_workspaces(&self, other: &Engine) -> bool {
        &&& self.config == other.config
        &&& self.detector == other.detector
        &&& self.windows == other.windows
        &&& self.outputs == other.outputs
        &&& self.focused_window == other.focused_window
        &&& self.previous_focused_window == other.previous_focused_window
        &&& self.enabled == other.enabled
        &&& self.niri_connected == other.niri_connected
        &&& self.niri_version == other.niri_version
        &&& self.candidates == other.candidates
        &&& self.persistent == other.persistent
        &&& self.persistent_dirty == other.persistent_dirty
        &&& self.ignored_until_close == other.ignored_until_close
    }
}


impl Engine {
    /// Handles one compositor event at time `now` and answers with the actions to take.
    #[verifier::spinoff_prover]
    pub fn handle_event_at(&mut self, event: CompositorEvent, now: u64) -> (r: Vec<Effect>)
        requires
            old(self).wf(),
        ensures
            final(self).wf(),
            effects_ok(r@, final(self).windows_view()),
            event_outcome(*old(self), *final(self), event, r@),
    {
        let ghost ev = event;
        let ghost start = *self;
        self.prune_focus_candidates(now);
        assert(self.windows == start.windows && self.managed == start.managed);
        match event {
            CompositorEvent::Connected { version } => {
                self.niri_connected = true;
                self.niri_version = Some(version);
                Vec::new()
            },
            CompositorEvent::Disconnected { .. } => {
                self.niri_connected = false;
                Vec::new()
            },
            CompositorEvent::OutputsChanged(outputs) => {
                if outputs_equal(&self.outputs, &outputs) {
                    return Vec::new();
                }
                self.outputs = outputs;
                self.reconcile_unplaced_auto_pip()
            },
            CompositorEvent::WorkspacesChanged(list) => {
                let ghost listed = list@;
                self.replace_workspaces(list);
                let ghost mid = *self;
                let mut effects = self.reconcile_workspace_follow_at(now);
                let ghost follow = effects@;
                let ghost after = *self;
                let more = self.reconcile_unplaced_auto_pip();
                append_effects(&mut effects, more, Ghost(self.windows@));
                proof {
                    if mid.enabled_view() && mid.focused_workspace_view() is Some {
                        let (states, parts) = choose|states: Seq<Engine>, parts: Seq<Seq<Effect>>|
                            follow_steps(mid, after, now, follow, states, parts);
                        assert(workspaces_steps(start, mid, *self, listed, now, effects@, states, parts));
                    } else {
                        assert(workspaces_steps(start, mid, *self, listed, now, effects@, seq![mid], Seq::empty()));
                    }
                }
                effects
            },
            CompositorEvent::WorkspaceActivated { id, focused } => {
                self.activate_workspace(id, focused);
                if focused {
                    self.focused_workspace = Some(id);
                }
                Vec::new()
            },
            CompositorEvent::WorkspaceActiveWindowChanged { workspace_id, active_window_id } => {
                self.set_workspace_active_window(workspace_id, active_window_id);
                Vec::new()
            },
            CompositorEvent::WindowsChanged(windows) => {
                let ghost listed = windows@;
                let ghost pruned = *self;
                let r = self.replace_windows(windows, now);
                proof {
                    let (s0, states, parts) = choose|s0: Engine, states: Seq<Engine>, parts: Seq<Seq<Effect>>|
                        windows_steps(s0, *self, now, r@, states, parts) && pruned.windows_replaced(s0, listed, now);
                    assert forall|k: u64| #[trigger] pruned.candidates@.contains_key(k) implies pruned.recent(pruned.candidates@[k].opened_at, now) by {
                        assert(start.candidates@.contains_key(k));
                    }
                    assert(start.windows_replaced(s0, listed, now));
                    assert(windows_steps(s0, *self, now, r@, states, parts));
                }
                r
            },
            CompositorEvent::WindowOpenedOrChanged(window) => {
                proof {
                    assert(self.open_restore(window, now) == start.open_restore(window, now));
                }
                let r = self.upsert_window(window, now);
                proof {
                    if !start.managed_view().contains_key(window.id) && is_pip_match(
                        auto_detection(start, window, !start.windows_view().contains_key(window.id)),
                    ) {
                        assert(opened_pip_effects(start, *self, window, now, r@));
                    }
                }
                r
            },
            CompositorEvent::WindowClosed { id } => {
                self.windows.remove(id);
                self.managed.remove(id);
                self.remove_ignored(id);
                self.candidates.remove(id);
                if self.focused_window == Some(id) {
                    self.focused_window = None;
                }
                if self.previous_focused_window == Some(id) {
                    self.previous_focused_window = None;
                }
                proof {
                    assert forall|k: u64| #[trigger] self.managed@.contains_key(k) implies self.windows@.contains_key(k) by {
                        assert(start.managed@.contains_key(k));
                    }
                }
                Vec::new()
            },
            CompositorEvent::WindowFocusChanged { id } => {
                proof {
                    if let Some(f) = id {
                        assert(self.focus_restore_spec(f, now) == start.focus_restore_spec(f, now));
                    }
                }
                let restore = match id {
                    Some(f) => self.focus_restore_effect(f, now),
                    None => None,
                };
                if self.focused_window != id {
                    if self.focused_window.is_some() {
                        self.previous_focused_window = self.focused_window;
                    }
                    self.focused_window = id;
                }
                let ghost known = self.windows@;
                self.set_window_focus(id);
                let mut effects: Vec<Effect> = Vec::new();
                if let Some(e) = restore {
                    effects.push(e);
                }
                proof {
                    assert(focus_restored(start, id, now, effects@));
                }
                effects
            },
            CompositorEvent::WindowLayoutsChanged(changes) => {
                let mut effects: Vec<Effect> = Vec::new();
                let ghost s2 = *self;
                let ghost mut states: Seq<Engine> = seq![s2];
                let ghost mut parts: Seq<Seq<Effect>> = Seq::empty();
                let mut i: usize = 0;
                while i < changes.len()
                    invariant
                        self.wf(),
                        i <= changes@.len(),
                        effects_ok(effects@, self.windows@),
                        forall|k: u64| #[trigger] self.windows@.contains_key(k) <==> s2.windows@.contains_key(k),
                        forall|k: u64| #[trigger] self.managed@.contains_key(k) <==> s2.managed@.contains_key(k),
                        states.len() == i + 1,
                        parts.len() == i,
                        states[0] == s2,
                        states.last() == *self,
                        effects@ == parts.flatten_alt(),
                        forall|j: int| 0 <= j < i ==> #[trigger] states[j].layout_outcome(
                            states[j + 1],
                            changes@[j].0,
                            changes@[j].1,
                            now,
                            parts[j],
                        ),
                    decreases changes@.len() - i,
                {
                    let (id, layout) = changes[i];
                    let ghost before = self.windows@;
                    let ghost pre = *self;
                    let more = self.update_layout(id, layout, now);
                    proof {
                        let next_states = states.push(*self);
                        let next_parts = parts.push(more@);
                        assert(next_parts.drop_last() =~= parts);
                        assert forall|j: int| 0 <= j < i + 1 implies #[trigger] next_states[j].layout_outcome(
                            next_states[j + 1],
                            changes@[j].0,
                            changes@[j].1,
                            now,
                            next_parts[j],
                        ) by {
                            if j < i {
                                assert(next_states[j] == states[j]);
                                assert(next_states[j + 1] == states[j + 1]);
                            }
                        }
                        states = next_states;
                        parts = next_parts;
                    }
                    proof {
                        assert forall|j: int| 0 <= j < effects@.len() implies (#[trigger] effects@[j] matches Effect::Action(a)
                            && self.windows@.contains_key(action_window(a))) by {
                            if let Effect::Action(a) = effects@[j] {
                                assert(before.contains_key(action_window(a)));
                            }
                        }
                    }
                    append_effects(&mut effects, more, Ghost(self.windows@));
                    i = i + 1;
                }
                proof {
                    assert(layout_steps(start, *self, changes@, now, effects@, states, parts));
                }
                effects
            },
            CompositorEvent::Unknown(_) => Vec::new(),
        }
    }

    /// Handles one compositor event now.
    pub fn handle_event(&mut self, event: CompositorEvent) -> (r: Vec<Effect>)
        requires
            old(self).wf(),
        ensures
            final(self).wf(),
            effects_ok(r@, final(self).windows_view()),
            event_outcome(*old(self), *final(self), event, r@),
    {
        let now = self.now_ms();
        self.handle_event_at(event, now)
    }

    /// Moves every managed window that should follow onto the focused workspace, now.
    pub fn reconcile_workspace_follow(&mut self) -> (r: Vec<Effect>)
        requires
            old(self).wf(),
        ensures
            final(self).wf(),
            effects_ok(r@, final(self).windows_view()),
            final(self).windows_view() == old(self).windows_view(),
            forall|k: u64| #[trigger] final(self).managed_view().contains_key(k) <==> old(self).managed_view().contains_key(k),
            !old(self).enabled_view() || old(self).focused_workspace_view() is None ==> r@.len() == 0,
            forall|i: int| 0 <= i < r@.len() ==> (#[trigger] r@[i] matches Effect::Action(
                CompositorAction::MoveWindowToWorkspace { window_id, workspace_id, focus },
            ) ==> Some(workspace_id) == old(self).focused_workspace_view() && !focus
                && old(self).managed_view().contains_key(window_id)),
            !old(self).enabled_view() || old(self).focused_workspace_view() is None ==> *final(self) == *old(self),
            old(self).focused_workspace_view() matches Some(w) ==> follow_moves_sound(*old(self), w, r@),
            old(self).enabled_view() && old(self).focused_workspace_view() is Some ==> exists|now: u64, states: Seq<Engine>, parts: Seq<Seq<Effect>>|
                #[trigger] follow_steps(*old(self), *final(self), now, r@, states, parts),
    {
        let now = self.now_ms();
        self.reconcile_workspace_follow_at(now)
    }
}


/// The smallest PiP size a command may set.
pub open spec fn size_ok(width: u32, height: u32) -> bool {
    120 <= width <= i32::MAX && 68 <= height <= i32::MAX
}

/// The scaled dimension: `base * (100 + percent) / 100`, rounded, held within `u32`.
pub open spec fn scaled_dimension(base: u32, percent: i32) -> u32 {
    let v = round_div(base * (100 + percent), 100);
    if v > u32::MAX { u32::MAX } else { v as u32 }
}

fn scale_dim(base: u32, percent: i32) -> (r: u32)
    requires
        percent > -100,
    ensures
        r == scaled_dimension(base, percent),
{
    let factor: u128 = (100i64 + percent as i64) as u128;
    assert((base as u128) * factor <= 0xFFFF_FFFF * 0x1_0000_0064) by (nonlinear_arith)
        requires
            base <= 0xFFFF_FFFF,
            factor <= 0x1_0000_0064,
    ;
    let num: u128 = (base as u128) * factor;
    let v: u128 = (2 * num + 100) / 200;
    if v > 0xFFFF_FFFF { 0xFFFF_FFFF } else { v as u32 }
}

impl Engine {
    /// The number of managed windows.
    pub closed spec fn managed_count(&self) -> nat {
        self.managed.seq().len()
    }

    /// The number of managed windows is the size of the map of managed windows.
    pub proof fn lemma_managed_count(&self)
        requires
            self.wf(),
        ensures
            self.managed_view().dom().finite(),
            self.managed_view().dom().len() == self.managed_count(),
    {
        crate::idmap::lemma_keyed_map_len(self.managed.seq());
    }

    /// The window a command concerns: the one asked for, else the focused one.
    pub closed spec fn window_target(&self, requested: Option<u64>) -> Result<u64, EngineError> {
        match requested {
            Some(id) => Ok(id),
            None => match self.focused_spec() {
                Some(id) => Ok(id),
                None => Err(EngineError::NoFocusedWindow),
            },
        }
    }

    /// The managed window a command concerns: the one asked for, else the focused one if it
    /// is managed, else the only automatic PiP window, else the only managed window.
    pub closed spec fn tracked_target(&self, requested: Option<u64>) -> Result<u64, EngineError> {
        match requested {
            Some(id) => if self.managed@.contains_key(id) {
                Ok(id)
            } else {
                Err(EngineError::NotPinned(id))
            },
            None => {
                let s = self.managed.seq();
                if self.focused_spec() is Some && self.managed@.contains_key(self.focused_spec()->0) {
                    Ok(self.focused_spec()->0)
                } else if auto_count(s) == 1 {
                    Ok(first_auto(s)->0)
                } else if s.len() == 1 {
                    Ok(s[0].id)
                } else if s.len() == 0 {
                    Err(EngineError::NoTrackedWindow)
                } else {
                    Err(EngineError::AmbiguousTrackedWindow)
                }
            },
        }
    }

    /// A managed window is a target for commands that name it.
    pub proof fn lemma_tracked_target(&self, requested: Option<u64>)
        requires
            self.wf(),
        ensures
            self.tracked_target(requested) matches Ok(id) ==> self.managed_view().contains_key(id),
            requested matches Some(id) ==> (self.managed_view().contains_key(id) <==> self.tracked_target(requested) is Ok),
            requested is None ==> (self.tracked_target(requested) matches Err(EngineError::NoTrackedWindow)
                <==> self.managed_view() == Map::<u64, TrackedWindow>::empty()),
            (requested matches Some(id) && !self.managed_view().contains_key(id))
                ==> self.tracked_target(requested) == Err::<u64, EngineError>(EngineError::NotPinned(requested->0)),
            (requested is None && self.focused_spec() is Some && self.managed_view().contains_key(self.focused_spec()->0))
                ==> self.tracked_target(requested) == Ok::<u64, EngineError>(self.focused_spec()->0),
            requested is None ==> forall|k: u64| self.managed_view().dom() == set![k]
                ==> #[trigger] self.tracked_target(requested) == Ok::<u64, EngineError>(k),
            self.tracked_target(requested) matches Err(e) ==> (e is NotPinned || e is NoTrackedWindow
                || e is AmbiguousTrackedWindow),
            self.tracked_target(requested) matches Err(EngineError::AmbiguousTrackedWindow)
                ==> self.managed_view().dom().len() >= 2,
    {
        crate::idmap::lemma_keyed_map_len(self.managed.seq());
        let s = self.managed.seq();
        if requested is None {
            if s.len() == 1 {
                crate::idmap::lemma_keyed_map_index(s, 0);
                assert forall|k: u64| self.managed_view().dom() == set![k]
                    implies #[trigger] self.tracked_target(requested) == Ok::<u64, EngineError>(k) by {
                    assert(self.managed@.contains_key(s[0].id));
                    assert(set![k].contains(s[0].id));
                    if !(self.focused_spec() is Some && self.managed@.contains_key(self.focused_spec()->0)) {
                        if auto_count(s) == 1 {
                            lemma_auto_count_first(s);
                            lemma_first_auto_member(s);
                            let j = choose|j: int| 0 <= j < s.len() && s[j].id == first_auto(s)->0;
                            assert(j == 0);
                        }
                    } else {
                        assert(set![k].contains(self.focused_spec()->0));
                    }
                }
            }
            if s.len() != 1 {
                assert forall|k: u64| self.managed_view().dom() == set![k]
                    implies #[trigger] self.tracked_target(requested) == Ok::<u64, EngineError>(k) by {
                    assert(set![k].len() == 1);
                }
            }
            if s.len() >= 1 {
                crate::idmap::lemma_keyed_map_index(s, 0);
            }
            if auto_count(s) == 1 {
                lemma_auto_count_first(s);
                lemma_first_auto_member(s);
                let j = choose|j: int| 0 <= j < s.len() && s[j].id == first_auto(s)->0;
                crate::idmap::lemma_keyed_map_index(s, j);
                assert(s[j].key_of() == s[j].id);
            }
            if s.len() == 0 {
                assert(self.managed@ =~= Map::<u64, TrackedWindow>::empty());
            }
        }
    }

    fn resolve_window_id(&self, requested: Option<u64>) -> (r: Result<u64, EngineError>)
        requires
            self.wf(),
        ensures
            r == self.window_target(requested),
    {
        match requested {
            Some(id) => Ok(id),
            None => match self.focused_window_id() {
                Some(id) => Ok(id),
                None => Err(EngineError::NoFocusedWindow),
            },
        }
    }

    fn resolve_tracked_window_id(&self, requested: Option<u64>) -> (r: Result<u64, EngineError>)
        requires
            self.wf(),
        ensures
            r == self.tracked_target(requested),
            r matches Ok(id) ==> self.managed@.contains_key(id),
    {
        proof {
            self.lemma_tracked_target(requested);
        }
        if let Some(id) = requested {
            if self.managed.contains(id) {
                return Ok(id);
            } else {
                return Err(EngineError::NotPinned(id));
            }
        }
        if let Some(id) = self.focused_window_id() {
            if self.managed.contains(id) {
                return Ok(id);
            }
        }
        let ghost s = self.managed.seq();
        let mut count: usize = 0;
        let mut first: u64 = 0;
        let mut i: usize = 0;
        while i < self.managed.len()
            invariant
                self.wf(),
                s == self.managed.seq(),
                i <= s.len(),
                count <= i,
                count == auto_count(s.take(i as int)),
                count == 0 ==> first_auto(s.take(i as int)) is None,
                count > 0 ==> first_auto(s.take(i as int)) == Some(first),
            decreases s.len() - i,
        {
            let t = self.managed.at(i);
            proof {
                assert(s.take(i + 1).drop_last() =~= s.take(i as int));
                assert(s.take(i + 1).last() == s[i as int]);
            }
            if t.mode == TrackedMode::AutoPip {
                if count == 0 {
                    first = t.id;
                }
                count = count + 1;
            }
            i = i + 1;
        }
        proof {
            assert(s.take(s.len() as int) =~= s);
        }
        if count == 1 {
            return Ok(first);
        }
        if self.managed.len() == 1 {
            return Ok(self.managed.at(0).id);
        }
        if self.managed.len() == 0 {
            Err(EngineError::NoTrackedWindow)
        } else {
            Err(EngineError::AmbiguousTrackedWindow)
        }
    }
}

/// The first automatic PiP window is one of them.
proof fn lemma_first_auto_member(s: Seq<TrackedWindow>)
    requires
        first_auto(s) is Some,
    ensures
        exists|j: int| 0 <= j < s.len() && s[j].id == first_auto(s)->0,
    decreases s.len(),
{
    if first_auto(s.drop_last()) is Some {
        lemma_first_auto_member(s.drop_last());
        let j = choose|j: int| 0 <= j < s.drop_last().len() && s.drop_last()[j].id == first_auto(s.drop_last())->0;
        assert(s[j] == s.drop_last()[j]);
    } else {
        assert(s[s.len() - 1] == s.last());
    }
}

/// The automatic PiP windows among managed windows `m`.
pub open spec fn auto_ids(m: Map<u64, TrackedWindow>) -> Set<u64> {
    Set::new(|k: u64| m.contains_key(k) && m[k].mode == TrackedMode::AutoPip)
}

/// Which managed window a command concerns, with managed windows `m` and focused window
/// `focused`: the one asked for, which must be managed; else the focused one if it is
/// managed; else the only automatic PiP window; else the only managed window; else none.
pub open spec fn tracked_choice(m: Map<u64, TrackedWindow>, focused: Option<u64>, requested: Option<u64>) -> Result<u64, EngineError> {
    match requested {
        Some(id) => if m.contains_key(id) {
            Ok(id)
        } else {
            Err(EngineError::NotPinned(id))
        },
        None => if focused is Some && m.contains_key(focused->0) {
            Ok(focused->0)
        } else if exists|a: u64| auto_ids(m) == set![a] {
            Ok(choose|a: u64| auto_ids(m) == set![a])
        } else if exists|a: u64| m.dom() == set![a] {
            Ok(choose|a: u64| m.dom() == set![a])
        } else if m.dom().is_empty() {
            Err(EngineError::NoTrackedWindow)
        } else {
            Err(EngineError::AmbiguousTrackedWindow)
        },
    }
}

/// The automatic PiP windows of a list without repeated ids are as many as it counts.
proof fn lemma_auto_ids_count(s: Seq<TrackedWindow>)
    requires
        crate::idmap::keys_unique(s),
    ensures
        auto_ids(crate::idmap::keyed_map(s)).finite(),
        auto_ids(crate::idmap::keyed_map(s)).len() == auto_count(s),
        first_auto(s) matches Some(a) ==> auto_ids(crate::idmap::keyed_map(s)).contains(a),
    decreases s.len(),
{
    let m = crate::idmap::keyed_map(s);
    if s.len() == 0 {
        assert(auto_ids(m) =~= Set::<u64>::empty());
    } else {
        let t = s.drop_last();
        assert(crate::idmap::keys_unique(t)) by {
            assert forall|a: int, b: int|
                0 <= a < t.len() && 0 <= b < t.len() && a != b implies (#[trigger] t[a]).key_of()
                != (#[trigger] t[b]).key_of() by {
                assert(s[a] == t[a] && s[b] == t[b]);
            }
        }
        lemma_auto_ids_count(t);
        let mt = crate::idmap::keyed_map(t);
        let last = s.last();
        assert forall|j: int| 0 <= j < t.len() implies (#[trigger] t[j]).key_of() != last.key_of() by {
            assert(s[j] == t[j]);
            assert(s[s.len() - 1] == last);
        }
        crate::idmap::lemma_keyed_map_absent(t, last.key_of());
        assert(last.key_of() == last.id);
        if last.mode == TrackedMode::AutoPip {
            assert(auto_ids(m) =~= auto_ids(mt).insert(last.id));
        } else {
            assert(auto_ids(m) =~= auto_ids(mt));
        }
        if first_auto(s) is Some && first_auto(t) is Some {
            assert(auto_ids(mt).contains(first_auto(t)->0));
        }
    }
}

impl Engine {
    /// Which managed window a command concerns is `tracked_choice` over the managed windows
    /// and the focused window that `focused_window_id` gives.
    pub proof fn law_tracked_target(&self, requested: Option<u64>)
        requires
            self.wf(),
        ensures
            self.tracked_target(requested) == tracked_choice(self.managed_view(), self.focused_spec(), requested),
    {
        let s = self.managed.seq();
        let m = self.managed_view();
        crate::idmap::lemma_keyed_map_len(s);
        lemma_auto_ids_count(s);
        lemma_auto_count_first(s);
        self.lemma_tracked_target(requested);
        if requested is None && !(self.focused_spec() is Some && m.contains_key(self.focused_spec()->0)) {
            if auto_count(s) == 1 {
                let a = first_auto(s)->0;
                assert(auto_ids(m).contains(a));
                assert(auto_ids(m).remove(a).len() == 0);
                assert(auto_ids(m).remove(a) =~= Set::<u64>::empty());
                assert(auto_ids(m) =~= set![a]);
                let b = choose|b: u64| auto_ids(m) == set![b];
                assert(set![b].contains(a));
            } else {
                assert(!exists|a: u64| auto_ids(m) == set![a]) by {
                    if exists|a: u64| auto_ids(m) == set![a] {
                        let a = choose|a: u64| auto_ids(m) == set![a];
                        assert(set![a].len() == 1);
                    }
                }
                if s.len() == 1 {
                    crate::idmap::lemma_keyed_map_index(s, 0);
                    let k = s[0].key_of();
                    assert(m.dom().remove(k).len() == 0);
                    assert(m.dom().remove(k) =~= Set::<u64>::empty());
                    assert(m.dom() =~= set![k]);
                    let b = choose|b: u64| m.dom() == set![b];
                    assert(set![b].contains(k));
                    assert(s[0].key_of() == s[0].id);
                } else {
                    assert(!exists|a: u64| m.dom() == set![a]) by {
                        if exists|a: u64| m.dom() == set![a] {
                            let a = choose|a: u64| m.dom() == set![a];
                            assert(set![a].len() == 1);
                        }
                    }
                    if s.len() == 0 {
                        assert(m.dom() =~= Set::<u64>::empty());
                    } else {
                        assert(m.dom().len() > 0);
                        assert(!m.dom().is_empty()) by {
                            if m.dom().is_empty() {
                                assert(m.dom() =~= Set::<u64>::empty());
                            }
                        }
                    }
                }
            }
        }
    }
}

/// Counting automatic PiP windows never fails to find the first.
proof fn lemma_auto_count_first(s: Seq<TrackedWindow>)
    ensures
        auto_count(s) > 0 <==> first_auto(s) is Some,
    decreases s.len(),
{
    if s.len() > 0 {
        lemma_auto_count_first(s.drop_last());
    }
}


impl Engine {
    /// The record of a window pinned by hand at `now`.
    pub closed spec fn pinned_record(&self, id: u64, now: u64) -> TrackedWindow {
        TrackedWindow {
            id,
            mode: TrackedMode::ManualPin,
            detector: None,
            score: None,
            follow_enabled: self.config.general.follow_workspace,
            follow_mode: self.config.general.follow_mode,
            original_was_floating: self.windows@[id].is_floating,
            origin_workspace: self.windows@[id].workspace_id,
            origin_size: captured_size(self.windows@[id]),
            origin_position: if self.windows@[id].is_floating {
                match self.current_geometry_spec(id) {
                    Some(g) => Some((g.x_percent, g.y_percent)),
                    None => None,
                }
            } else {
                None
            },
            placement: self.config.pip.position,
            managed_size: None,
            pending_workspace: None,
            suppress_geometry_until: self.suppression_spec(now),
            geometry_locked: false,
            locked_geometry: None,
        }
    }

    /// Whether a window pinned by hand now is moved to the focused workspace at once.
    pub closed spec fn pin_follows(&self, id: u64) -> bool {
        &&& self.focused_workspace is Some
        &&& self.config.general.follow_workspace
        &&& self.follow_wanted(self.config.general.follow_mode, id, self.focused_workspace->0)
    }

    /// Pins a window (the focused one by default): records where it came from (workspace,
    /// mode, size and floating position), floats it without resizing it and lets it follow
    /// the workspace. Pinning a managed window again does nothing.
    pub fn pin_at(&mut self, requested: Option<u64>, now: u64) -> (r: Result<Vec<Effect>, EngineError>)
        requires
            old(self).wf(),
        ensures
            final(self).wf(),
            pin_at_result(*old(self), *final(self), requested, now, r),
    {
        if !self.enabled {
            return Err(EngineError::Disabled);
        }
        let id = match self.resolve_window_id(requested) {
            Ok(id) => id,
            Err(e) => {
                return Err(e);
            },
        };
        let (floating, origin_workspace, origin_size) = match self.windows.get(id) {
            Some(w) => (w.is_floating, w.workspace_id, capture_size(w)),
            None => {
                return Err(EngineError::WindowNotFound(id));
            },
        };
        let origin_position = if floating {
            match self.current_geometry(id) {
                Some(g) => Some((g.x_percent, g.y_percent)),
                None => None,
            }
        } else {
            None
        };
        self.remove_ignored(id);
        if self.managed.contains(id) {
            return Ok(Vec::new());
        }
        let t = TrackedWindow {
            id,
            mode: TrackedMode::ManualPin,
            detector: None,
            score: None,
            follow_enabled: self.config.general.follow_workspace,
            follow_mode: self.config.general.follow_mode,
            original_was_floating: floating,
            origin_workspace,
            origin_size,
            origin_position,
            placement: self.config.pip.position,
            managed_size: None,
            pending_workspace: None,
            suppress_geometry_until: self.suppression_until(now),
            geometry_locked: false,
            locked_geometry: None,
        };
        proof {
            assert(t == old(self).pinned_record(id, now));
        }
        self.store_managed(t);
        let ghost mid = *self;
        let mut effects: Vec<Effect> = Vec::new();
        let ghost known = self.windows@;
        if !floating {
            push_effect(&mut effects, Effect::Action(CompositorAction::MoveWindowToFloating { id }), Ghost(known));
        }
        let ghost e0 = effects@;
        let more = self.reconcile_workspace_follow_for(id, now);
        append_effects(&mut effects, more, Ghost(known));
        proof {
            assert(mid.managed@[id] == t);
            if mid.focused_workspace is Some {
                let target = mid.focused_workspace->0;
                assert(mid.follow_due(id, target, now) == old(self).pin_follows(id));
                if old(self).pin_follows(id) {
                    assert(self.managed@[id] == with_pending(t, target, now, old(self).suppression_spec(now)));
                    assert(more@ =~= seq![Effect::Action(CompositorAction::MoveWindowToWorkspace { window_id: id, workspace_id: target, focus: false })]);
                }
            }
            assert forall|i: int| 0 <= i < effects@.len() implies !(#[trigger] effects@[i] matches Effect::Action(
                CompositorAction::SetWindowWidth { .. },
            )) && !(effects@[i] matches Effect::Action(CompositorAction::SetWindowHeight { .. })) by {
                if i < e0.len() {
                    assert(effects@[i] == e0[i]);
                } else {
                    assert(effects@[i] == more@[i - e0.len()]);
                }
            }
            let target = old(self).focused_workspace_view()->0;
            let follows = old(self).pin_follows(id);
            let floated = if old(self).windows_view()[id].is_floating {
                Seq::<Effect>::empty()
            } else {
                seq![Effect::Action(CompositorAction::MoveWindowToFloating { id })]
            };
            assert(effects@ =~= floated + (if follows {
                seq![Effect::Action(CompositorAction::MoveWindowToWorkspace { window_id: id, workspace_id: target, focus: false })]
            } else {
                Seq::<Effect>::empty()
            }));
            assert(self.managed_view() == old(self).managed_view().insert(id, if follows {
                with_pending(t, target, now, old(self).suppression_spec(now))
            } else {
                t
            }));
        }
        Ok(effects)
    }

    /// The managed window an unpin concerns: the one asked for, else the focused one if it
    /// is managed, else the only managed window.
    pub closed spec fn unpin_target(&self, requested: Option<u64>) -> Result<u64, EngineError> {
        match requested {
            Some(id) => if self.managed@.contains_key(id) {
                Ok(id)
            } else {
                Err(EngineError::NotPinned(id))
            },
            None => if self.focused_spec() is Some && self.managed@.contains_key(self.focused_spec()->0) {
                Ok(self.focused_spec()->0)
            } else if self.managed.seq().len() == 1 {
                Ok(self.managed.seq()[0].id)
            } else {
                Err(EngineError::NoTrackedWindow)
            },
        }
    }

    /// Stops managing a window. A manually pinned window goes back to the workspace, the
    /// tiling or floating mode, the size and (where it floated) the position it had when the
    /// pin began, as `unpin_effects` says; an automatic PiP window is left alone until closed.
    pub fn unpin(&mut self, requested: Option<u64>) -> (r: Result<Vec<Effect>, EngineError>)
        requires
            old(self).wf(),
        ensures
            final(self).wf(),
            unpin_result(*old(self), *final(self), requested, r),
    {
        proof {
            crate::idmap::lemma_keyed_map_len(self.managed.seq());
            if self.managed.seq().len() == 1 {
                crate::idmap::lemma_keyed_map_index(self.managed.seq(), 0);
            }
        }
        let id = match requested {
            Some(id) => id,
            None => {
                let focused = match self.focused_window_id() {
                    Some(f) => if self.managed.contains(f) { Some(f) } else { None },
                    None => None,
                };
                match focused {
                    Some(f) => f,
                    None => {
                        if self.managed.len() == 1 {
                            self.managed.at(0).id
                        } else {
                            return Err(EngineError::NoTrackedWindow);
                        }
                    },
                }
            },
        };
        let t = match self.managed_copy(id) {
            Some(t) => t,
            None => {
                return Err(EngineError::NotPinned(id));
            },
        };
        self.managed.remove(id);
        if t.mode == TrackedMode::AutoPip {
            self.insert_ignored(id);
        }
        let effects = match self.windows.get(id) {
            Some(w) => origin_restore(&t, w, self.config.general.restore_layout_on_unpin),
            None => Vec::new(),
        };
        proof {
            assert(old(self).managed@.contains_key(id));
            assert(self.windows@ == old(self).windows@);
            assert(self.managed_view() =~= old(self).managed_view().remove(id));
            assert forall|k: u64| #[trigger] self.managed@.contains_key(k) implies self.windows@.contains_key(k) by {
                assert(old(self).managed@.contains_key(k));
            }
        }
        Ok(effects)
    }

    /// Pins an unmanaged window, unpins a managed one.
    pub fn toggle_at(&mut self, requested: Option<u64>, now: u64) -> (r: Result<Vec<Effect>, EngineError>)
        requires
            old(self).wf(),
        ensures
            r matches Ok(effects) ==> effects_ok(effects@, final(self).windows_view()),
            final(self).wf(),
            final(self).windows_view() == old(self).windows_view(),
            match old(self).window_target(requested) {
                Err(e) => r == Err::<Vec<Effect>, EngineError>(e) && *final(self) == *old(self),
                Ok(id) => if old(self).managed_view().contains_key(id) {
                    unpin_result(*old(self), *final(self), Some(id), r)
                } else {
                    pin_result(*old(self), *final(self), Some(id), r)
                },
            },
    {
        let id = match self.resolve_window_id(requested) {
            Ok(id) => id,
            Err(e) => {
                return Err(e);
            },
        };
        if self.managed.contains(id) {
            self.unpin(Some(id))
        } else {
            let r = self.pin_at(Some(id), now);
            proof {
                if old(self).enabled_view() && old(self).windows_view().contains_key(id) {
                    assert(self.managed_view().dom() =~= old(self).managed_view().dom().insert(id));
                }
            }
            r
        }
    }

    /// The geometry a size is remembered on: the detector's `prior` profile, else the
    /// window's live geometry, else its placement plan, else a default position.
    pub closed spec fn size_base(&self, prior: Option<RememberedGeometry>, id: u64, size: (u32, u32)) -> RememberedGeometry {
        match prior {
            Some(g) => g,
            None => match self.current_geometry_spec(id) {
                Some(g) => g,
                None => match self.geometry_from_plan_spec(id, size) {
                    Some(g) => g,
                    None => RememberedGeometry { width: size.0, height: size.1, x_percent: 70_000_000, y_percent: 70_000_000 },
                },
            },
        }
    }

    /// Remembers a new size for a managed window's detector.
    fn persist_auto_size(&mut self, id: u64, size: (u32, u32))
        requires
            old(self).wf(),
        ensures
            final(self).wf(),
            final(self).env_same(old(self)),
            final(self).managed == old(self).managed,
            final(self).candidates == old(self).candidates,
            final(self).ignored_until_close == old(self).ignored_until_close,
            final(self).persistent.pip_opacity_percent == old(self).persistent.pip_opacity_percent,
            final(self).persistent.controls@ == old(self).persistent.controls@,
            match old(self).detector_of(id) {
                Some(name) => {
                    &&& final(self).persistent.profiles@ == old(self).persistent.profiles@.insert(name, resized(
                        old(self).size_base(old(self).profile_of(name), id, size), size))
                    &&& final(self).persistent.schema_version == STATE_SCHEMA_VERSION
                    &&& final(self).persistent_dirty
                },
                None => final(self).persistent == old(self).persistent && final(self).persistent_dirty == old(self).persistent_dirty,
            },
    {
        let name = match self.managed.get(id) {
            Some(t) => match &t.detector {
                Some(n) => n.clone(),
                None => {
                    return;
                },
            },
            None => {
                return;
            },
        };
        let mut g = match self.persistent.profiles.get(name.as_str()) {
            Some(g) => g,
            None => match self.current_geometry(id) {
                Some(g) => g,
                None => match self.geometry_from_plan(id, size) {
                    Some(g) => g,
                    None => RememberedGeometry { width: size.0, height: size.1, x_percent: 70_000_000, y_percent: 70_000_000 },
                },
            },
        };
        g.width = size.0;
        g.height = size.1;
        self.persistent.profiles.insert(name, g);
        self.mark_persistent_dirty();
    }

    /// The detector of a managed window.
    pub closed spec fn detector_of(&self, id: u64) -> Option<Seq<char>> {
        if self.managed@.contains_key(id) && self.managed@[id].detector is Some {
            Some(self.managed@[id].detector->0@)
        } else {
            None
        }
    }

    /// What resizing managed window `id` to `width` x `height` at `now` does: it asks for the
    /// size, mirrors it in the window's layout, records it as the window's managed size (and
    /// locked geometry), and remembers it for the window's detector.
    pub closed spec fn resize_outcome(&self, new: Engine, id: u64, width: u32, height: u32, now: u64, effects: Seq<Effect>) -> bool {
        let t = self.managed@[id];
        &&& effects == seq![
            Effect::Action(CompositorAction::SetWindowWidth { id, change: SizeChange::SetFixed(width as i32) }),
            Effect::Action(CompositorAction::SetWindowHeight { id, change: SizeChange::SetFixed(height as i32) }),
        ]
        &&& new.windows@ == self.windows@.insert(id, WindowInfo {
            layout: WindowLayout { window_size: (width as i32, height as i32), ..self.windows@[id].layout },
            ..self.windows@[id]
        })
        &&& new.managed@ == self.managed@.insert(id, TrackedWindow {
            managed_size: Some((width, height)),
            suppress_geometry_until: self.suppression_spec(now),
            locked_geometry: if t.geometry_locked && t.locked_geometry is Some {
                Some(resized(t.locked_geometry->0, (width, height)))
            } else {
                t.locked_geometry
            },
            ..t
        })
        &&& new.persistent.pip_opacity_percent == self.persistent.pip_opacity_percent
        &&& new.persistent.controls@ == self.persistent.controls@
        &&& match self.detector_of(id) {
            Some(name) => new.persistent.profiles@ == self.persistent.profiles@.insert(
                name, resized(new.size_base(self.profile_of(name), id, (width, height)), (width, height)))
                && new.persistent_dirty,
            None => new.persistent == self.persistent && new.persistent_dirty == self.persistent_dirty,
        }
        &&& new.enabled == self.enabled
        &&& new.config == self.config
        &&& new.workspaces == self.workspaces
        &&& new.outputs == self.outputs
        &&& new.focused_workspace == self.focused_workspace
    }

    /// Sets an exact size for a managed window and remembers it for its detector.
    pub fn resize_at(&mut self, requested: Option<u64>, width: u32, height: u32, now: u64) -> (r: Result<Vec<Effect>, EngineError>)
        requires
            old(self).wf(),
        ensures
            final(self).wf(),
            !size_ok(width, height) ==> r == Err::<Vec<Effect>, EngineError>(EngineError::InvalidSize(width, height)) && *final(self) == *old(self),
            size_ok(width, height) ==> match old(self).tracked_target(requested) {
                Err(e) => r == Err::<Vec<Effect>, EngineError>(e) && *final(self) == *old(self),
                Ok(id) => r matches Ok(effects) && old(self).resize_outcome(*final(self), id, width, height, now, effects@),
            },
            r matches Ok(effects) ==> effects_ok(effects@, final(self).windows_view()),
    {
        if width < 120 || height < 68 || width > 0x7FFF_FFFF || height > 0x7FFF_FFFF {
            return Err(EngineError::InvalidSize(width, height));
        }
        let id = match self.resolve_tracked_window_id(requested) {
            Ok(id) => id,
            Err(e) => {
                return Err(e);
            },
        };
        proof {
            lemma_managed_key(self, id);
        }
        let mut w = match self.windows.get(id) {
            Some(w) => w.duplicate(),
            None => {
                return Err(EngineError::WindowNotFound(id));
            },
        };
        w.layout.window_size = (width as i32, height as i32);
        self.windows.upsert(w);
        let mut t = match self.managed_copy(id) {
            Some(t) => t,
            None => {
                return Err(EngineError::NotPinned(id));
            },
        };
        t.managed_size = Some((width, height));
        t.suppress_geometry_until = self.suppression_until(now);
        if t.geometry_locked {
            if let Some(mut l) = t.locked_geometry {
                l.width = width;
                l.height = height;
                t.locked_geometry = Some(l);
            }
        }
        self.store_managed(t);
        let ghost stored = *self;
        self.persist_auto_size(id, (width, height));
        proof {
            assert(stored.detector_of(id) == old(self).detector_of(id));
            assert(stored.profile_of(old(self).detector_of(id)->0) == old(self).profile_of(old(self).detector_of(id)->0));
            assert(self.windows@ == old(self).windows@.insert(id, WindowInfo {
                layout: WindowLayout { window_size: (width as i32, height as i32), ..old(self).windows@[id].layout },
                ..old(self).windows@[id]
            }));
            assert(self.managed@ == stored.managed@);
            assert(self.size_base(old(self).profile_of(old(self).detector_of(id)->0), id, (width, height))
                == stored.size_base(old(self).profile_of(old(self).detector_of(id)->0), id, (width, height)));
        }
        let ghost known = self.windows@;
        let mut effects: Vec<Effect> = Vec::new();
        push_effect(&mut effects, Effect::Action(CompositorAction::SetWindowWidth { id, change: SizeChange::SetFixed(width as i32) }), Ghost(known));
        push_effect(&mut effects, Effect::Action(CompositorAction::SetWindowHeight { id, change: SizeChange::SetFixed(height as i32) }), Ghost(known));
        proof {
            let t0 = old(self).managed@[id];
            assert(effects@ =~= seq![
                Effect::Action(CompositorAction::SetWindowWidth { id, change: SizeChange::SetFixed(width as i32) }),
                Effect::Action(CompositorAction::SetWindowHeight { id, change: SizeChange::SetFixed(height as i32) }),
            ]);
            assert(self.managed@ == old(self).managed@.insert(id, TrackedWindow {
                managed_size: Some((width, height)),
                suppress_geometry_until: old(self).suppression_spec(now),
                locked_geometry: if t0.geometry_locked && t0.locked_geometry is Some {
                    Some(resized(t0.locked_geometry->0, (width, height)))
                } else {
                    t0.locked_geometry
                },
                ..t0
            }));
        }
        Ok(effects)
    }

    /// The size of window `id` that commands start from: its live size, else the size the
    /// engine wants for it.
    pub closed spec fn live_size(&self, id: u64) -> (u32, u32) {
        let live = logical_size_of(self.windows@[id]);
        if live.0 == 0 || live.1 == 0 {
            self.desired_size_spec(id)
        } else {
            live
        }
    }

    /// Scales a managed window's current size by a percentage.
    pub fn scale_at(&mut self, requested: Option<u64>, percent: i32, now: u64) -> (r: Result<Vec<Effect>, EngineError>)
        requires
            old(self).wf(),
        ensures
            final(self).wf(),
            match old(self).tracked_target(requested) {
                Err(e) => r == Err::<Vec<Effect>, EngineError>(e) && *final(self) == *old(self),
                Ok(id) => {
                    let base = old(self).live_size(id);
                    let w = scaled_dimension(base.0, percent);
                    let h = scaled_dimension(base.1, percent);
                    if percent <= -100 || w < 120 || h < 68 {
                        r == Err::<Vec<Effect>, EngineError>(EngineError::InvalidScale) && *final(self) == *old(self)
                    } else if !size_ok(w, h) {
                        r == Err::<Vec<Effect>, EngineError>(EngineError::InvalidSize(w, h)) && *final(self) == *old(self)
                    } else {
                        r matches Ok(effects) && old(self).resize_outcome(*final(self), id, w, h, now, effects@)
                    }
                },
            },
            r matches Ok(effects) ==> effects_ok(effects@, final(self).windows_view()),
    {
        let id = match self.resolve_tracked_window_id(requested) {
            Ok(id) => id,
            Err(e) => {
                return Err(e);
            },
        };
        let live = match self.windows.get(id) {
            Some(w) => w.logical_size(),
            None => {
                return Err(EngineError::WindowNotFound(id));
            },
        };
        let base = if live.0 == 0 || live.1 == 0 { self.desired_size(id) } else { live };
        if percent <= -100 {
            return Err(EngineError::InvalidScale);
        }
        let width = scale_dim(base.0, percent);
        let height = scale_dim(base.1, percent);
        if width < 120 || height < 68 {
            return Err(EngineError::InvalidScale);
        }
        if width > 0x7FFF_FFFF || height > 0x7FFF_FFFF {
            return Err(EngineError::InvalidSize(width, height));
        }
        self.resize_at(Some(id), width, height, now)
    }
}

impl Engine {
    /// What a command stores for the detector of window `id`: `update` applied to the
    /// detector's controller settings.
    pub closed spec fn controls_outcome(&self, new: Engine, id: u64, update: spec_fn(RememberedControls) -> RememberedControls) -> bool {
        match self.detector_of(id) {
            Some(name) => {
                &&& new.persistent.controls@ == self.persistent.controls@.insert(name, update(self.controls_spec(name)))
                &&& new.persistent.profiles@ == self.persistent.profiles@
                &&& new.persistent.pip_opacity_percent == self.persistent.pip_opacity_percent
                &&& new.persistent.schema_version == STATE_SCHEMA_VERSION
                &&& new.persistent_dirty
            },
            None => new.persistent == self.persistent && new.persistent_dirty == self.persistent_dirty,
        }
    }

    /// What follow reconciliation does once managed window `id` has record `t2`: a move to the
    /// focused workspace when `t2` follows and the move is wanted, else nothing.
    pub closed spec fn refollow_outcome(&self, new: Engine, id: u64, t2: TrackedWindow, now: u64, effects: Seq<Effect>) -> bool {
        let target = self.focused_workspace->0;
        let follows = self.focused_workspace is Some && t2.follow_enabled && self.follow_wanted(t2.follow_mode, id, target);
        &&& new.managed@ == self.managed@.insert(id, if follows {
            with_pending(t2, target, now, self.suppression_spec(now))
        } else {
            t2
        })
        &&& effects == (if follows { new.follow_effects(id, target) } else { Seq::<Effect>::empty() })
        &&& new.windows@ == self.windows@
        &&& new.enabled == self.enabled
        &&& new.config == self.config
    }

    /// Stores controller settings for the detector of window `id`.
    fn store_controls(&mut self, id: u64, name: Option<String>, c: RememberedControls, Ghost(update): Ghost<spec_fn(RememberedControls) -> RememberedControls>)
        requires
            old(self).wf(),
            old(self).managed@.contains_key(id),
            name == old(self).managed@[id].detector,
            name matches Some(n) ==> c == update(old(self).controls_spec(n@)),
        ensures
            final(self).wf(),
            final(self).env_same(old(self)),
            final(self).managed == old(self).managed,
            final(self).candidates == old(self).candidates,
            final(self).ignored_until_close == old(self).ignored_until_close,
            old(self).controls_outcome(*final(self), id, update),
    {
        if let Some(n) = name {
            self.persistent.controls.insert(n, c);
            self.mark_persistent_dirty();
        }
    }

    /// What placing managed window `id` at `placement` at `now` does: when the window's output
    /// is known, it places the window there, makes `placement` the window's placement (and its
    /// locked geometry, if locked), and remembers both for its detector; else nothing.
    pub closed spec fn position_outcome(&self, new: Engine, id: u64, placement: Placement, now: u64, effects: Seq<Effect>) -> bool {
        let size = self.live_size(id);
        let t = self.managed@[id];
        match self.plan_spec(self.follow_target_spec(id), size, placement) {
            None => effects == Seq::<Effect>::empty() && new == *self,
            Some(plan) => {
                let g = RememberedGeometry { width: size.0, height: size.1, x_percent: plan.x_percent, y_percent: plan.y_percent };
                &&& effects == seq![place_action(id, plan)]
                &&& new.windows@ == self.windows@
                &&& new.managed@ == self.managed@.insert(id, TrackedWindow {
                    placement,
                    suppress_geometry_until: self.suppression_spec(now),
                    locked_geometry: if t.geometry_locked { Some(g) } else { t.locked_geometry },
                    ..t
                })
                &&& match self.detector_of(id) {
                    Some(name) => {
                        &&& new.persistent.controls@ == self.persistent.controls@.insert(name,
                            RememberedControls { placement, ..self.controls_spec(name) })
                        &&& new.persistent.profiles@ == self.persistent.profiles@.insert(name, g)
                        &&& new.persistent.pip_opacity_percent == self.persistent.pip_opacity_percent
                        &&& new.persistent_dirty
                    },
                    None => new.persistent == self.persistent && new.persistent_dirty == self.persistent_dirty,
                }
                &&& new.enabled == self.enabled
                &&& new.config == self.config
            },
        }
    }

    fn live_size_exec(&self, id: u64) -> (r: (u32, u32))
        requires
            self.wf(),
            self.windows@.contains_key(id),
        ensures
            r == self.live_size(id),
    {
        let live = match self.windows.get(id) {
            Some(w) => w.logical_size(),
            None => (0, 0),
        };
        if live.0 == 0 || live.1 == 0 { self.desired_size(id) } else { live }
    }

    /// Places a managed window at a corner of its output and remembers that for its detector.
    pub fn set_position_at(&mut self, requested: Option<u64>, placement: Placement, now: u64) -> (r: Result<Vec<Effect>, EngineError>)
        requires
            old(self).wf(),
        ensures
            final(self).wf(),
            match old(self).tracked_target(requested) {
                Err(e) => r == Err::<Vec<Effect>, EngineError>(e) && *final(self) == *old(self),
                Ok(id) => r matches Ok(effects) && old(self).position_outcome(*final(self), id, placement, now, effects@),
            },
            r matches Ok(effects) ==> effects_ok(effects@, final(self).windows_view()),
    {
        let id = match self.resolve_tracked_window_id(requested) {
            Ok(id) => id,
            Err(e) => {
                return Err(e);
            },
        };
        proof {
            lemma_managed_key(self, id);
        }
        let size = self.live_size_exec(id);
        let plan = match self.placement_plan(self.follow_target_for(id), size, placement) {
            Some(p) => p,
            None => {
                return Ok(Vec::new());
            },
        };
        let mut t = match self.managed_copy(id) {
            Some(t) => t,
            None => {
                return Err(EngineError::NotPinned(id));
            },
        };
        let ghost t0 = t;
        let name = copy_opt_string(&t.detector);
        let g = RememberedGeometry { width: size.0, height: size.1, x_percent: plan.x_percent, y_percent: plan.y_percent };
        t.placement = placement;
        t.suppress_geometry_until = self.suppression_until(now);
        if t.geometry_locked {
            t.locked_geometry = Some(g);
        }
        self.store_managed(t);
        self.store_position(id, name, placement, g);
        let ghost known = self.windows@;
        let mut effects: Vec<Effect> = Vec::new();
        push_effect(&mut effects, place_effect(id, plan), Ghost(known));
        proof {
            assert(effects@ =~= seq![place_action(id, plan)]);
        }
        Ok(effects)
    }

    /// Remembers a placement and a geometry for the detector of window `id`.
    fn store_position(&mut self, id: u64, name: Option<String>, placement: Placement, g: RememberedGeometry)
        requires
            old(self).wf(),
            old(self).managed@.contains_key(id),
            name == old(self).managed@[id].detector,
        ensures
            final(self).wf(),
            final(self).env_same(old(self)),
            final(self).managed == old(self).managed,
            final(self).candidates == old(self).candidates,
            final(self).ignored_until_close == old(self).ignored_until_close,
            match old(self).detector_of(id) {
                Some(n) => {
                    &&& final(self).persistent.controls@ == old(self).persistent.controls@.insert(n,
                        RememberedControls { placement, ..old(self).controls_spec(n) })
                    &&& final(self).persistent.profiles@ == old(self).persistent.profiles@.insert(n, g)
                    &&& final(self).persistent.pip_opacity_percent == old(self).persistent.pip_opacity_percent
                    &&& final(self).persistent_dirty
                },
                None => final(self).persistent == old(self).persistent && final(self).persistent_dirty == old(self).persistent_dirty,
            },
    {
        if let Some(n) = name {
            let controls = self.controls_for_detector(n.as_str());
            self.persistent.controls.insert(n.clone(), RememberedControls { placement, ..controls });
            self.persistent.profiles.insert(n, g);
            self.mark_persistent_dirty();
        }
    }

    /// Moves a managed window by whole logical pixels and remembers its new position for its
    /// detector.
    pub fn nudge_at(&mut self, requested: Option<u64>, dx: i32, dy: i32, now: u64) -> (r: Result<Vec<Effect>, EngineError>)
        requires
            old(self).wf(),
        ensures
            final(self).wf(),
            match old(self).tracked_target(requested) {
                Err(e) => r == Err::<Vec<Effect>, EngineError>(e) && *final(self) == *old(self),
                Ok(id) => if dx == 0 && dy == 0 {
                    r matches Ok(effects) && effects@ == Seq::<Effect>::empty() && *final(self) == *old(self)
                } else {
                    r matches Ok(effects) && old(self).nudge_outcome(*final(self), id, dx, dy, now, effects@)
                },
            },
            r matches Ok(effects) ==> effects_ok(effects@, final(self).windows_view()),
    {
        let id = match self.resolve_tracked_window_id(requested) {
            Ok(id) => id,
            Err(e) => {
                return Err(e);
            },
        };
        if dx == 0 && dy == 0 {
            return Ok(Vec::new());
        }
        proof {
            lemma_managed_key(self, id);
        }
        let updated = match self.current_geometry(id) {
            Some(g) => {
                let ws = self.window_workspace_of(id);
                match self.logical_for(ws) {
                    Some(out) => Some(RememberedGeometry {
                        x_percent: nudged_percent(g.x_percent, dx, out.width),
                        y_percent: nudged_percent(g.y_percent, dy, out.height),
                        ..g
                    }),
                    None => None,
                }
            },
            None => None,
        };
        let mut t = match self.managed_copy(id) {
            Some(t) => t,
            None => {
                return Err(EngineError::NotPinned(id));
            },
        };
        let name = copy_opt_string(&t.detector);
        t.suppress_geometry_until = self.suppression_until(now);
        if t.geometry_locked {
            if let Some(g) = updated {
                t.locked_geometry = Some(g);
            }
        }
        self.store_managed(t);
        if let Some(n) = name {
            if let Some(g) = updated {
                self.persistent.profiles.insert(n, g);
                self.mark_persistent_dirty();
            }
        }
        let ghost known = self.windows@;
        let mut effects: Vec<Effect> = Vec::new();
        let mx: i64 = (dx as i64) * 1000;
        let my: i64 = (dy as i64) * 1000;
        push_effect(
            &mut effects,
            Effect::Action(CompositorAction::MoveFloatingWindow { id, x: PositionChange::AdjustFixed(mx), y: PositionChange::AdjustFixed(my) }),
            Ghost(known),
        );
        proof {
            assert(effects@ =~= seq![Effect::Action(CompositorAction::MoveFloatingWindow {
                id,
                x: PositionChange::AdjustFixed((dx * 1000) as i64),
                y: PositionChange::AdjustFixed((dy * 1000) as i64),
            })]);
        }
        Ok(effects)
    }

    /// The geometry a nudge of window `id` by `(dx, dy)` pixels leads to, where its live
    /// geometry is known.
    pub closed spec fn nudged_geometry(&self, id: u64, dx: i32, dy: i32) -> Option<RememberedGeometry> {
        match self.current_geometry_spec(id) {
            Some(g) => match self.logical_for_workspace(self.window_workspace(id)) {
                Some(out) => Some(RememberedGeometry {
                    x_percent: nudged(g.x_percent, dx, out.width),
                    y_percent: nudged(g.y_percent, dy, out.height),
                    ..g
                }),
                None => None,
            },
            None => None,
        }
    }

    /// What a nudge of managed window `id` by `(dx, dy)` pixels at `now` does: it moves the
    /// window by that much, and records the new position as its locked geometry (if locked)
    /// and for its detector.
    pub closed spec fn nudge_outcome(&self, new: Engine, id: u64, dx: i32, dy: i32, now: u64, effects: Seq<Effect>) -> bool {
        let t = self.managed@[id];
        let g = self.nudged_geometry(id, dx, dy);
        &&& effects == seq![Effect::Action(CompositorAction::MoveFloatingWindow {
            id,
            x: PositionChange::AdjustFixed((dx * 1000) as i64),
            y: PositionChange::AdjustFixed((dy * 1000) as i64),
        })]
        &&& new.windows@ == self.windows@
        &&& new.managed@ == self.managed@.insert(id, TrackedWindow {
            suppress_geometry_until: self.suppression_spec(now),
            locked_geometry: if t.geometry_locked && g is Some { g } else { t.locked_geometry },
            ..t
        })
        &&& if self.detector_of(id) is Some && g is Some {
            &&& new.persistent.profiles@ == self.persistent.profiles@.insert(self.detector_of(id)->0, g->0)
            &&& new.persistent.controls@ == self.persistent.controls@
            &&& new.persistent.pip_opacity_percent == self.persistent.pip_opacity_percent
            &&& new.persistent_dirty
        } else {
            new.persistent == self.persistent && new.persistent_dirty == self.persistent_dirty
        }
        &&& new.enabled == self.enabled
        &&& new.config == self.config
    }

    /// What turning workspace following on or off for managed window `id` does.
    pub closed spec fn follow_set_outcome(&self, new: Engine, id: u64, enabled: bool, now: u64, effects: Seq<Effect>) -> bool {
        &&& self.refollow_outcome(new, id, TrackedWindow {
            follow_enabled: enabled,
            pending_workspace: None,
            ..self.managed@[id]
        }, now, effects)
        &&& self.controls_outcome(new, id, |c: RememberedControls| RememberedControls { follow_enabled: enabled, ..c })
    }

    /// Turns workspace following on or off for a managed window and remembers that for its
    /// detector. Turning it on moves the window to the focused workspace where wanted.
    pub fn set_follow_at(&mut self, requested: Option<u64>, enabled: bool, now: u64) -> (r: Result<Vec<Effect>, EngineError>)
        requires
            old(self).wf(),
        ensures
            final(self).wf(),
            match old(self).tracked_target(requested) {
                Err(e) => r == Err::<Vec<Effect>, EngineError>(e) && *final(self) == *old(self),
                Ok(id) => r matches Ok(effects) && old(self).follow_set_outcome(*final(self), id, enabled, now, effects@),
            },
            r matches Ok(effects) ==> effects_ok(effects@, final(self).windows_view()),
    {
        let id = match self.resolve_tracked_window_id(requested) {
            Ok(id) => id,
            Err(e) => {
                return Err(e);
            },
        };
        let mut t = match self.managed_copy(id) {
            Some(t) => t,
            None => {
                return Err(EngineError::NotPinned(id));
            },
        };
        let name = copy_opt_string(&t.detector);
        t.follow_enabled = enabled;
        t.pending_workspace = None;
        let ghost t2 = t;
        let c = match &name {
            Some(n) => {
                let mut c = self.controls_for_detector(n.as_str());
                c.follow_enabled = enabled;
                c
            },
            None => RememberedControls::default(),
        };
        self.store_managed(t);
        let ghost update = |c: RememberedControls| RememberedControls { follow_enabled: enabled, ..c };
        self.store_controls(id, name, c, Ghost(update));
        let ghost mid = *self;
        let effects = if enabled { self.reconcile_workspace_follow_for(id, now) } else { Vec::new() };
        proof {
            self.lemma_refollow(old(self), mid, id, t2, now, effects@);
        }
        Ok(effects)
    }

    /// What changing the follow mode of managed window `id` does.
    pub closed spec fn follow_mode_outcome(&self, new: Engine, id: u64, mode: FollowMode, now: u64, effects: Seq<Effect>) -> bool {
        &&& self.refollow_outcome(new, id, TrackedWindow {
            follow_mode: mode,
            pending_workspace: None,
            ..self.managed@[id]
        }, now, effects)
        &&& self.controls_outcome(new, id, |c: RememberedControls| RememberedControls { follow_mode: mode, ..c })
    }

    /// Changes the follow mode of a managed window and remembers it for its detector.
    pub fn set_follow_mode_at(&mut self, requested: Option<u64>, mode: FollowMode, now: u64) -> (r: Result<Vec<Effect>, EngineError>)
        requires
            old(self).wf(),
        ensures
            final(self).wf(),
            match old(self).tracked_target(requested) {
                Err(e) => r == Err::<Vec<Effect>, EngineError>(e) && *final(self) == *old(self),
                Ok(id) => r matches Ok(effects) && old(self).follow_mode_outcome(*final(self), id, mode, now, effects@),
            },
            r matches Ok(effects) ==> effects_ok(effects@, final(self).windows_view()),
    {
        let id = match self.resolve_tracked_window_id(requested) {
            Ok(id) => id,
            Err(e) => {
                return Err(e);
            },
        };
        let mut t = match self.managed_copy(id) {
            Some(t) => t,
            None => {
                return Err(EngineError::NotPinned(id));
            },
        };
        let name = copy_opt_string(&t.detector);
        t.follow_mode = mode;
        t.pending_workspace = None;
        let follow_enabled = t.follow_enabled;
        let ghost t2 = t;
        let c = match &name {
            Some(n) => {
                let mut c = self.controls_for_detector(n.as_str());
                c.follow_mode = mode;
                c
            },
            None => RememberedControls::default(),
        };
        self.store_managed(t);
        let ghost update = |c: RememberedControls| RememberedControls { follow_mode: mode, ..c };
        self.store_controls(id, name, c, Ghost(update));
        let ghost mid = *self;
        let effects = if follow_enabled { self.reconcile_workspace_follow_for(id, now) } else { Vec::new() };
        proof {
            self.lemma_refollow(old(self), mid, id, t2, now, effects@);
        }
        Ok(effects)
    }

    /// Follow reconciliation after a change of a managed window's record to `t2` is the
    /// refollow outcome.
    proof fn lemma_refollow(&self, start: &Engine, mid: Engine, id: u64, t2: TrackedWindow, now: u64, effects: Seq<Effect>)
        requires
            start.wf(),
            start.managed@.contains_key(id),
            t2.pending_workspace is None,
            mid.env_same(start),
            self.env_same(&mid),
            mid.managed@ == start.managed@.insert(id, t2),
            t2.follow_enabled ==> mid.follow_outcome(*self, id, now, effects),
            !t2.follow_enabled ==> effects == Seq::<Effect>::empty() && *self == mid,
        ensures
            start.refollow_outcome(*self, id, t2, now, effects),
    {
        if t2.follow_enabled && mid.focused_workspace is Some {
            let target = mid.focused_workspace->0;
            assert(mid.managed@[id] == t2);
            assert(mid.follow_wanted(t2.follow_mode, id, target) == start.follow_wanted(t2.follow_mode, id, target));
            assert(mid.suppression_spec(now) == start.suppression_spec(now));
            assert(!recently_asked(t2, target, now));
            if mid.follow_due(id, target, now) {
                assert(mid.after_follow(id, target, now) == with_pending(t2, target, now, start.suppression_spec(now)));
                assert(self.managed@ =~= start.managed@.insert(id, with_pending(t2, target, now, start.suppression_spec(now))));
            }
        }
        let target = start.focused_workspace->0;
        let follows = start.focused_workspace is Some && t2.follow_enabled && start.follow_wanted(t2.follow_mode, id, target);
        assert(self.managed@ == start.managed@.insert(id, if follows {
            with_pending(t2, target, now, start.suppression_spec(now))
        } else {
            t2
        }));
        assert(effects == (if follows { self.follow_effects(id, target) } else { Seq::<Effect>::empty() }));
        assert(self.windows@ == start.windows@);
    }
}

impl Engine {
    /// The geometry a lock of window `id` keeps: its live geometry, else its placement plan.
    pub closed spec fn lock_geometry(&self, id: u64) -> Option<RememberedGeometry> {
        match self.current_geometry_spec(id) {
            Some(g) => Some(g),
            None => self.geometry_from_plan_spec(id, self.live_size(id)),
        }
    }

    /// Locks a managed window's geometry where it is now, or unlocks it, and remembers that for
    /// its detector.
    pub fn set_geometry_lock(&mut self, requested: Option<u64>, locked: bool) -> (r: Result<Vec<Effect>, EngineError>)
        requires
            old(self).wf(),
        ensures
            final(self).wf(),
            set_geometry_lock_result(*old(self), *final(self), requested, locked, r),
    {
        let id = match self.resolve_tracked_window_id(requested) {
            Ok(id) => id,
            Err(e) => {
                return Err(e);
            },
        };
        proof {
            lemma_managed_key(self, id);
        }
        let geometry = if locked {
            let size = self.live_size_exec(id);
            match self.current_geometry(id) {
                Some(g) => Some(g),
                None => self.geometry_from_plan(id, size),
            }
        } else {
            None
        };
        let mut t = match self.managed_copy(id) {
            Some(t) => t,
            None => {
                return Err(EngineError::NotPinned(id));
            },
        };
        let name = copy_opt_string(&t.detector);
        t.geometry_locked = locked;
        t.locked_geometry = geometry;
        self.store_managed(t);
        if let Some(n) = name {
            let mut c = self.controls_for_detector(n.as_str());
            proof {
                assert(self.controls_spec(n@) == old(self).controls_spec(n@));
            }
            c.geometry_locked = locked;
            self.persistent.controls.insert(n.clone(), c);
            if let Some(g) = geometry {
                self.persistent.profiles.insert(n, g);
            }
            self.mark_persistent_dirty();
        }
        Ok(Vec::new())
    }

    /// The first step of a geometry reset of managed window `id` at `now`: forgets what its
    /// detector remembers, goes back to the configured placement and follow settings, unlocks
    /// it, and gives an automatic PiP window its initial size again.
    pub closed spec fn reset_outcome(&self, new: Engine, id: u64, now: u64) -> bool {
        let t = self.managed@[id];
        let dname = match t.detector {
            Some(n) => n@,
            None => "generic-pip-title"@,
        };
        let auto = t.mode == TrackedMode::AutoPip;
        &&& new.wf()
        &&& new.env_same(self)
        &&& match self.detector_of(id) {
            Some(name) => {
                &&& new.persistent.profiles@ == self.persistent.profiles@.remove(name)
                &&& new.persistent.controls@ == self.persistent.controls@.remove(name)
                &&& new.persistent.pip_opacity_percent == self.persistent.pip_opacity_percent
                &&& new.persistent_dirty
            },
            None => new.persistent == self.persistent && new.persistent_dirty == self.persistent_dirty,
        }
        &&& new.managed@ == self.managed@.insert(id, TrackedWindow {
            placement: self.config.pip.position,
            follow_enabled: self.config.general.follow_workspace,
            follow_mode: self.config.general.follow_mode,
            geometry_locked: false,
            locked_geometry: None,
            pending_workspace: None,
            managed_size: if auto { Some(new.initial_size_spec(self.windows@[id], dname)) } else { t.managed_size },
            suppress_geometry_until: if auto { self.suppression_spec(now) } else { t.suppress_geometry_until },
            ..t
        })
    }

    /// The rest of a geometry reset of window `id`, after its first step: an automatic PiP
    /// window is resized to its initial size and placed at the configured corner; then the
    /// window follows the focused workspace where wanted.
    pub closed spec fn reset_rest(&self, new: Engine, id: u64, now: u64, r: Result<Vec<Effect>, EngineError>) -> bool {
        let t = self.managed@[id];
        if t.mode == TrackedMode::ManualPin {
            r matches Ok(effects) && self.follow_outcome(new, id, now, effects@)
        } else {
            let size = t.managed_size->0;
            if !size_ok(size.0, size.1) {
                r == Err::<Vec<Effect>, EngineError>(EngineError::InvalidSize(size.0, size.1)) && new == *self
            } else {
                r matches Ok(effects) && exists|s2: Engine, s3: Engine, e1: Seq<Effect>, e2: Seq<Effect>, e3: Seq<Effect>|
                    #![trigger self.resize_outcome(s2, id, size.0, size.1, now, e1), s2.position_outcome(s3, id, self.config.pip.position, now, e2), s3.follow_outcome(new, id, now, e3)]
                    {
                        &&& self.resize_outcome(s2, id, size.0, size.1, now, e1)
                        &&& s2.position_outcome(s3, id, self.config.pip.position, now, e2)
                        &&& s3.follow_outcome(new, id, now, e3)
                        &&& effects@ == e1 + e2 + e3
                    }
            }
        }
    }

    /// The first step of a geometry reset; returns the window's initial size when it is an
    /// automatic PiP window.
    fn reset_record(&mut self, id: u64, now: u64) -> (r: Option<(u32, u32)>)
        requires
            old(self).wf(),
            old(self).managed@.contains_key(id),
        ensures
            old(self).reset_outcome(*final(self), id, now),
            r is Some <==> old(self).managed@[id].mode == TrackedMode::AutoPip,
            r matches Some(size) ==> final(self).managed@[id].managed_size == Some(size),
    {
        proof {
            lemma_managed_key(self, id);
        }
        let mut t = match self.managed_copy(id) {
            Some(t) => t,
            None => {
                return None;
            },
        };
        let mode = t.mode;
        let name = copy_opt_string(&t.detector);
        self.forget_detector(id, &name);
        let ghost forgotten = *self;
        t.placement = self.config.pip.position;
        t.follow_enabled = self.config.general.follow_workspace;
        t.follow_mode = self.config.general.follow_mode;
        t.geometry_locked = false;
        t.locked_geometry = None;
        t.pending_workspace = None;
        let mut result: Option<(u32, u32)> = None;
        if mode == TrackedMode::AutoPip {
            let w = match self.windows.get(id) {
                Some(w) => w.duplicate(),
                None => {
                    return None;
                },
            };
            let size = match &name {
                Some(n) => self.resolve_initial_pip_size(&w, n.as_str()),
                None => self.resolve_initial_pip_size(&w, "generic-pip-title"),
            };
            t.managed_size = Some(size);
            t.suppress_geometry_until = self.suppression_until(now);
            result = Some(size);
        }
        self.store_managed(t);
        proof {
            assert(self.initial_size_spec(old(self).windows@[id], if name is Some { name->0@ } else { "generic-pip-title"@ })
                == forgotten.initial_size_spec(old(self).windows@[id], if name is Some { name->0@ } else { "generic-pip-title"@ }));
        }
        result
    }

    /// Forgets what the detector of window `id` remembers.
    fn forget_detector(&mut self, id: u64, name: &Option<String>)
        requires
            old(self).wf(),
            old(self).managed@.contains_key(id),
            *name == old(self).managed@[id].detector,
        ensures
            final(self).wf(),
            final(self).env_same(old(self)),
            final(self).managed == old(self).managed,
            final(self).candidates == old(self).candidates,
            final(self).ignored_until_close == old(self).ignored_until_close,
            match old(self).detector_of(id) {
                Some(n) => {
                    &&& final(self).persistent.profiles@ == old(self).persistent.profiles@.remove(n)
                    &&& final(self).persistent.controls@ == old(self).persistent.controls@.remove(n)
                    &&& final(self).persistent.pip_opacity_percent == old(self).persistent.pip_opacity_percent
                    &&& final(self).persistent_dirty
                },
                None => final(self).persistent == old(self).persistent && final(self).persistent_dirty == old(self).persistent_dirty,
            },
    {
        if let Some(n) = name {
            self.persistent.profiles.remove(n.as_str());
            self.persistent.controls.remove(n.as_str());
            self.mark_persistent_dirty();
        }
    }

    /// Resets a managed window's geometry to the configured defaults.
    pub fn reset_geometry_at(&mut self, requested: Option<u64>, now: u64) -> (r: Result<Vec<Effect>, EngineError>)
        requires
            old(self).wf(),
        ensures
            final(self).wf(),
            match old(self).tracked_target(requested) {
                Err(e) => r == Err::<Vec<Effect>, EngineError>(e) && *final(self) == *old(self),
                Ok(id) => exists|s1: Engine| #![trigger old(self).reset_outcome(s1, id, now)]
                    old(self).reset_outcome(s1, id, now) && s1.reset_rest(*final(self), id, now, r),
            },
            r matches Ok(effects) ==> effects_ok(effects@, final(self).windows_view()),
    {
        let id = match self.resolve_tracked_window_id(requested) {
            Ok(id) => id,
            Err(e) => {
                return Err(e);
            },
        };
        let auto_size = self.reset_record(id, now);
        let ghost s1 = *self;
        let r = self.reset_rest_exec(id, auto_size, now);
        proof {
            assert(old(self).reset_outcome(s1, id, now));
        }
        r
    }

    fn reset_rest_exec(&mut self, id: u64, auto_size: Option<(u32, u32)>, now: u64) -> (r: Result<Vec<Effect>, EngineError>)
        requires
            old(self).wf(),
            old(self).managed@.contains_key(id),
            auto_size is Some <==> old(self).managed@[id].mode == TrackedMode::AutoPip,
            auto_size matches Some(size) ==> old(self).managed@[id].managed_size == Some(size),
        ensures
            final(self).wf(),
            old(self).reset_rest(*final(self), id, now, r),
            r matches Ok(effects) ==> effects_ok(effects@, final(self).windows_view()),
    {
        match auto_size {
            None => Ok(self.reconcile_workspace_follow_for(id, now)),
            Some(size) => {
                let e1 = match self.resize_at(Some(id), size.0, size.1, now) {
                    Ok(e) => e,
                    Err(e) => {
                        return Err(e);
                    },
                };
                let ghost s2 = *self;
                proof {
                    assert(s2.managed@.contains_key(id));
                    assert(s2.tracked_target(Some(id)) == Ok::<u64, EngineError>(id));
                }
                let position = self.config.pip.position;
                let e2 = match self.set_position_at(Some(id), position, now) {
                    Ok(e) => e,
                    Err(e) => {
                        return Err(e);
                    },
                };
                let ghost s3 = *self;
                let e3 = self.reconcile_workspace_follow_for(id, now);
                let ghost known = self.windows@;
                proof {
                    assert(s3.windows@ == s2.windows@);
                    assert(self.windows@ == s2.windows@);
                    assert(old(self).resize_outcome(s2, id, size.0, size.1, now, e1@));
                    assert(s2.position_outcome(s3, id, old(self).config.pip.position, now, e2@));
                }
                let mut effects = e1;
                append_effects(&mut effects, e2, Ghost(known));
                append_effects(&mut effects, e3, Ghost(known));
                Ok(effects)
            },
        }
    }

    /// The size, placement and PiP opacity of a control preset.
    pub open spec fn preset_spec(preset: ControlPreset) -> (u32, u32, Placement, u8) {
        match preset {
            ControlPreset::Tiny => (320, 180, Placement::BottomRight, 100),
            ControlPreset::Small => (384, 216, Placement::BottomRight, 100),
            ControlPreset::Medium => (480, 270, Placement::BottomRight, 100),
            ControlPreset::Large => (640, 360, Placement::BottomRight, 100),
            ControlPreset::Cinema => (960, 540, Placement::BottomRight, 100),
            ControlPreset::Movie => (1120, 630, Placement::BottomRight, 100),
            ControlPreset::Study => (560, 315, Placement::TopRight, 95),
        }
    }

    fn preset_values(preset: ControlPreset) -> (r: (u32, u32, Placement, u8))
        ensures
            r == Self::preset_spec(preset),
    {
        match preset {
            ControlPreset::Tiny => (320, 180, Placement::BottomRight, 100),
            ControlPreset::Small => (384, 216, Placement::BottomRight, 100),
            ControlPreset::Medium => (480, 270, Placement::BottomRight, 100),
            ControlPreset::Large => (640, 360, Placement::BottomRight, 100),
            ControlPreset::Cinema => (960, 540, Placement::BottomRight, 100),
            ControlPreset::Movie => (1120, 630, Placement::BottomRight, 100),
            ControlPreset::Study => (560, 315, Placement::TopRight, 95),
        }
    }

    /// Applies a control preset to a managed window: its size, its corner, workspace
    /// following, and, for an automatic PiP window only, the PiP opacity.
    #[verifier::rlimit(40)]
    pub fn apply_preset_at(&mut self, requested: Option<u64>, preset: ControlPreset, now: u64) -> (r: Result<PresetApplication, EngineError>)
        requires
            old(self).wf(),
        ensures
            final(self).wf(),
            apply_preset_at_result(*old(self), *final(self), requested, preset, now, r),
            r matches Ok(p) ==> effects_ok(p.effects@, final(self).windows_view()),
    {
        let id = match self.resolve_tracked_window_id(requested) {
            Ok(id) => id,
            Err(e) => {
                return Err(e);
            },
        };
        let auto = match self.managed.get(id) {
            Some(t) => t.mode == TrackedMode::AutoPip,
            None => false,
        };
        let (width, height, placement, opacity) = Self::preset_values(preset);
        let e1 = match self.resize_at(Some(id), width, height, now) {
            Ok(e) => e,
            Err(e) => {
                return Err(e);
            },
        };
        let ghost s1 = *self;
        proof {
            assert(s1.managed@.contains_key(id));
            assert(s1.tracked_target(Some(id)) == Ok::<u64, EngineError>(id));
        }
        let e2 = match self.set_position_at(Some(id), placement, now) {
            Ok(e) => e,
            Err(e) => {
                return Err(e);
            },
        };
        let ghost s2 = *self;
        proof {
            assert(s2.managed@.contains_key(id));
            assert(s2.tracked_target(Some(id)) == Ok::<u64, EngineError>(id));
        }
        let e3 = match self.set_follow_at(Some(id), true, now) {
            Ok(e) => e,
            Err(e) => {
                return Err(e);
            },
        };
        let ghost s3 = *self;
        let opacity_percent = if auto {
            match self.set_opacity_override_percent(Some(opacity)) {
                Ok(()) => {},
                Err(e) => {
                    return Err(e);
                },
            }
            Some(opacity)
        } else {
            self.opacity_override_percent()
        };
        let ghost known = self.windows@;
        proof {
            assert(s1.windows@ == self.windows@);
            assert(s2.windows@ == self.windows@);
        }
        let mut effects = e1;
        append_effects(&mut effects, e2, Ghost(known));
        append_effects(&mut effects, e3, Ghost(known));
        proof {
            assert(old(self).resize_outcome(s1, id, width, height, now, e1@));
            assert(s1.position_outcome(s2, id, placement, now, e2@));
            assert(s2.follow_set_outcome(s3, id, true, now, e3@));
        }
        Ok(PresetApplication { effects, opacity_percent })
    }
}

impl Engine {
    /// A preset applied to a managed window sets its size first (width, then height), turns
    /// workspace following on, and gives it the preset's corner, where the window's output is
    /// known, else keeps its corner.
    pub proof fn lemma_preset_applied(old: Engine, new: Engine, requested: Option<u64>, preset: ControlPreset, now: u64, r: Result<PresetApplication, EngineError>)
        requires
            old.wf(),
            apply_preset_at_result(old, new, requested, preset, now, r),
            old.tracked_target(requested) is Ok,
        ensures
            ({
                let id = old.tracked_target(requested)->Ok_0;
                let (w, h, placement, opacity) = Engine::preset_spec(preset);
                &&& r is Ok
                &&& r->Ok_0.effects@.len() >= 2
                &&& r->Ok_0.effects@[0] == Effect::Action(CompositorAction::SetWindowWidth { id, change: SizeChange::SetFixed(w as i32) })
                &&& r->Ok_0.effects@[1] == Effect::Action(CompositorAction::SetWindowHeight { id, change: SizeChange::SetFixed(h as i32) })
                &&& new.managed_view().contains_key(id)
                &&& new.managed_view()[id].follow_enabled
                &&& new.managed_view()[id].managed_size == Some((w, h))
                &&& (new.managed_view()[id].placement == placement
                    || new.managed_view()[id].placement == old.managed_view()[id].placement)
            }),
    {
        old.lemma_tracked_target(requested);
        let id = old.tracked_target(requested)->Ok_0;
        let (w, h, placement, opacity) = Engine::preset_spec(preset);
        let (s1, s2, s3, e1, e2, e3) = choose|s1: Engine, s2: Engine, s3: Engine, e1: Seq<Effect>, e2: Seq<Effect>, e3: Seq<Effect>|
            #![trigger old.resize_outcome(s1, id, w, h, now, e1), s1.position_outcome(s2, id, placement, now, e2), s2.follow_set_outcome(s3, id, true, now, e3)]
            {
                &&& old.resize_outcome(s1, id, w, h, now, e1)
                &&& s1.position_outcome(s2, id, placement, now, e2)
                &&& s2.follow_set_outcome(s3, id, true, now, e3)
                &&& r->Ok_0.effects@ == e1 + e2 + e3
                &&& new.managed_view() == s3.managed_view()
                &&& new.windows_view() == s3.windows_view()
                &&& new.persistent_view().profiles@ == s3.persistent_view().profiles@
                &&& new.persistent_view().controls@ == s3.persistent_view().controls@
            };
        assert(s1.managed@.contains_key(id));
        assert(s1.managed@[id].placement == old.managed@[id].placement);
        assert(s2.managed@.contains_key(id));
        assert(s2.managed@[id].managed_size == Some((w, h)));
        assert(s2.managed@[id].placement == placement || s2.managed@[id].placement == old.managed@[id].placement);
        assert(s3.managed@.contains_key(id));
        assert(s3.managed@[id].follow_enabled);
        assert((e1 + e2 + e3)[0] == e1[0]);
        assert((e1 + e2 + e3)[1] == e1[1]);
    }
}

/// The logical geometry of the output that workspace `ws` of engine `e` is on, if known.
pub open spec fn workspace_output_of(e: Engine, ws: Option<u64>) -> Option<LogicalOutput> {
    match ws {
        Some(w) => if e.workspaces_view().contains_key(w) {
            match e.workspaces_view()[w].output {
                Some(name) => output_logical_spec(e.outputs_view(), name@),
                None => None,
            }
        } else {
            None
        },
        None => None,
    }
}

/// Whether a window on workspace `current` may follow to workspace `target` in `mode`: always,
/// except that a window that stays on its output needs both on the same known output.
pub open spec fn follow_allowed_in(e: Engine, mode: FollowMode, current: Option<u64>, target: u64) -> bool {
    match mode {
        FollowMode::StayOnOutput => {
            let cur = match current {
                Some(c) => if e.workspaces_view().contains_key(c) { e.workspaces_view()[c].output } else { None },
                None => None,
            };
            let tgt = if e.workspaces_view().contains_key(target) { e.workspaces_view()[target].output } else { None };
            cur is Some && same_opt_text(cur, tgt)
        },
        _ => true,
    }
}

/// The workspace managed window `id` of engine `e` is placed on: the focused workspace where
/// it follows there, else its own.
pub open spec fn placement_workspace(e: Engine, id: u64) -> Option<u64> {
    if !e.managed_view().contains_key(id) {
        None
    } else {
        let t = e.managed_view()[id];
        let cur = if e.windows_view().contains_key(id) { e.windows_view()[id].workspace_id } else { None };
        if !t.follow_enabled {
            cur
        } else {
            match e.focused_workspace_view() {
                None => None,
                Some(target) => if follow_allowed_in(e, t.follow_mode, cur, target) {
                    Some(target)
                } else {
                    cur
                },
            }
        }
    }
}

/// A control preset applied to a managed window: the result is `Ok`; its actions begin by
/// setting the preset's width and then height; the window then follows the workspace, has the
/// preset's size and, where the output it is placed on is known, the preset's corner (else
/// its corner stays); the PiP opacity becomes the preset's for an automatic PiP window and
/// stays as it was otherwise, and the result reports it.
#[verifier::rlimit(40)]
pub proof fn law_apply_preset(old: Engine, new: Engine, requested: Option<u64>, preset: ControlPreset, r: Result<PresetApplication, EngineError>)
    requires
        old.wf(),
        apply_preset_result(old, new, requested, preset, r),
        old.tracked_target(requested) is Ok,
    ensures
        ({
            let id = old.tracked_target(requested)->Ok_0;
            let (w, h, placement, opacity) = Engine::preset_spec(preset);
            let auto = old.managed_view()[id].mode == TrackedMode::AutoPip;
            let o = if auto { Some(opacity) } else { old.persistent_view().pip_opacity_percent };
            &&& r is Ok
            &&& r->Ok_0.effects@.len() >= 2
            &&& r->Ok_0.effects@[0] == Effect::Action(CompositorAction::SetWindowWidth { id, change: SizeChange::SetFixed(w as i32) })
            &&& r->Ok_0.effects@[1] == Effect::Action(CompositorAction::SetWindowHeight { id, change: SizeChange::SetFixed(h as i32) })
            &&& new.managed_view().contains_key(id)
            &&& new.managed_view()[id].follow_enabled
            &&& new.managed_view()[id].managed_size == Some((w, h))
            &&& workspace_output_of(old, placement_workspace(old, id)) is Some ==> new.managed_view()[id].placement == placement
            &&& workspace_output_of(old, placement_workspace(old, id)) is None ==> new.managed_view()[id].placement
                == old.managed_view()[id].placement
            &&& r->Ok_0.opacity_percent == o
            &&& new.persistent_view().pip_opacity_percent == o
        }),
{
    old.lemma_tracked_target(requested);
    let id = old.tracked_target(requested)->Ok_0;
    let (w, h, placement, opacity) = Engine::preset_spec(preset);
    let now = choose|now: u64| #[trigger] apply_preset_at_result(old, new, requested, preset, now, r);
    Engine::lemma_preset_applied(old, new, requested, preset, now, r);
    let (s1, s2, s3, e1, e2, e3) = choose|s1: Engine, s2: Engine, s3: Engine, e1: Seq<Effect>, e2: Seq<Effect>, e3: Seq<Effect>|
        #![trigger old.resize_outcome(s1, id, w, h, now, e1), s1.position_outcome(s2, id, placement, now, e2), s2.follow_set_outcome(s3, id, true, now, e3)]
        {
            &&& old.resize_outcome(s1, id, w, h, now, e1)
            &&& s1.position_outcome(s2, id, placement, now, e2)
            &&& s2.follow_set_outcome(s3, id, true, now, e3)
            &&& r->Ok_0.effects@ == e1 + e2 + e3
            &&& new.managed_view() == s3.managed_view()
            &&& new.windows_view() == s3.windows_view()
            &&& new.persistent_view().profiles@ == s3.persistent_view().profiles@
            &&& new.persistent_view().controls@ == s3.persistent_view().controls@
        };
    lemma_placement_views(s1, id);
    lemma_resize_keeps_placement_workspace(old, s1, id, w, h, now, e1);
    assert(s2.managed@[id].placement == s3.managed@[id].placement);
}

/// The closed views of where a managed window is placed agree with the open ones.
proof fn lemma_placement_views(e: Engine, id: u64)
    ensures
        e.follow_target_spec(id) == placement_workspace(e, id),
        e.logical_for_workspace(e.follow_target_spec(id)) == workspace_output_of(e, placement_workspace(e, id)),
{
    if e.managed@.contains_key(id) && e.managed@[id].follow_enabled && e.focused_workspace is Some {
        let t = e.managed@[id];
        assert(e.follow_allowed_spec(t.follow_mode, e.window_workspace(id), e.focused_workspace->0)
            == follow_allowed_in(e, t.follow_mode, e.window_workspace(id), e.focused_workspace->0));
    }
}

/// A resize keeps the workspace a window is placed on and the outputs.
proof fn lemma_resize_keeps_placement_workspace(old: Engine, s1: Engine, id: u64, w: u32, h: u32, now: u64, e1: Seq<Effect>)
    requires
        old.wf(),
        old.managed@.contains_key(id),
        old.resize_outcome(s1, id, w, h, now, e1),
    ensures
        placement_workspace(s1, id) == placement_workspace(old, id),
        workspace_output_of(s1, placement_workspace(s1, id)) == workspace_output_of(old, placement_workspace(old, id)),
{
    assert(old.windows@.contains_key(id));
    assert(s1.windows@[id].workspace_id == old.windows@[id].workspace_id);
    assert(s1.managed@[id].follow_enabled == old.managed@[id].follow_enabled);
    assert(s1.managed@[id].follow_mode == old.managed@[id].follow_mode);
    assert(s1.workspaces_view() == old.workspaces_view());
    assert(s1.outputs_view() == old.outputs_view());
    assert(s1.focused_workspace_view() == old.focused_workspace_view());
}

/// The size profile that shares a preset's name, if any.
pub open spec fn preset_profile(preset: ControlPreset) -> Option<SizeProfile> {
    match preset {
        ControlPreset::Tiny => Some(SizeProfile::Tiny),
        ControlPreset::Small => Some(SizeProfile::Small),
        ControlPreset::Medium => Some(SizeProfile::Medium),
        ControlPreset::Large => Some(SizeProfile::Large),
        ControlPreset::Cinema => Some(SizeProfile::Cinema),
        _ => None,
    }
}

/// The place of a preset among the presets placed at the bottom-right, from smallest to
/// largest.
pub open spec fn preset_rank(preset: ControlPreset) -> int {
    match preset {
        ControlPreset::Tiny => 0,
        ControlPreset::Small => 1,
        ControlPreset::Medium => 2,
        ControlPreset::Large => 3,
        ControlPreset::Cinema => 4,
        ControlPreset::Movie => 5,
        ControlPreset::Study => 6,
    }
}

/// Every preset is a 16:9 size; a preset named like a size profile has that profile's size
/// (so large is 640x360, as documented); the bottom-right presets grow strictly from tiny to
/// movie (1120x630); only study (560x315) goes to the top-right, and only it lowers the PiP
/// opacity, to 95%.
pub proof fn law_presets(a: ControlPreset, b: ControlPreset, pip: crate::config::PipConfig)
    ensures
        Engine::preset_spec(a).0 * 9 == Engine::preset_spec(a).1 * 16,
        preset_profile(a) == Some(pip.profile) ==> (Engine::preset_spec(a).0, Engine::preset_spec(a).1)
            == crate::config::resolved_size_of(pip),
        preset_rank(a) < preset_rank(b) && !(b is Study) ==> Engine::preset_spec(a).0 < Engine::preset_spec(b).0,
        a is Movie ==> Engine::preset_spec(a).0 == 1120,
        a is Study ==> Engine::preset_spec(a).0 == 560,
        (Engine::preset_spec(a).2 == Placement::TopRight) == (a is Study),
        !(a is Study) ==> Engine::preset_spec(a).2 == Placement::BottomRight,
        Engine::preset_spec(a).3 == (if a is Study { 95u8 } else { 100u8 }),
{
}

/// The mode name shown for a managed window.
pub open spec fn mode_name(mode: TrackedMode) -> Seq<char> {
    match mode {
        TrackedMode::AutoPip => "auto-pip"@,
        TrackedMode::ManualPin => "manual-pin"@,
    }
}

/// Whether `s` shows managed window `t` whose window is `w`.
pub open spec fn shows(s: TrackedWindowSnapshot, t: TrackedWindow, w: WindowInfo) -> bool {
    &&& s.id == t.id
    &&& s.title@ == crate::model::opt_text(w.title)
    &&& s.app_id@ == crate::model::opt_text(w.app_id)
    &&& s.mode@ == mode_name(t.mode)
    &&& s.detector == t.detector
    &&& s.score == t.score
    &&& s.workspace_id == w.workspace_id
    &&& s.origin_workspace_id == t.origin_workspace
    &&& !s.peeking
    &&& (s.width, s.height) == logical_size_of(w)
    &&& s.placement == t.placement
    &&& s.follow_enabled == t.follow_enabled
    &&& s.follow_mode == t.follow_mode
    &&& s.geometry_locked == t.geometry_locked
}

impl Engine {
    fn snapshot_of(&self, id: u64) -> (r: TrackedWindowSnapshot)
        requires
            self.wf(),
            self.managed@.contains_key(id),
        ensures
            shows(r, self.managed@[id], self.windows@[id]),
    {
        proof {
            lemma_managed_key(self, id);
        }
        let t = self.managed.get(id).unwrap();
        let w = self.windows.get(id).unwrap();
        let (width, height) = w.logical_size();
        let mode = match t.mode {
            TrackedMode::AutoPip => {
                proof {
                    reveal_strlit("auto-pip");
                }
                "auto-pip".to_owned()
            },
            TrackedMode::ManualPin => {
                proof {
                    reveal_strlit("manual-pin");
                }
                "manual-pin".to_owned()
            },
        };
        TrackedWindowSnapshot {
            id,
            title: w.title().to_owned(),
            app_id: w.app_id().to_owned(),
            mode,
            detector: copy_opt_string(&t.detector),
            score: t.score,
            workspace_id: w.workspace_id,
            origin_workspace_id: t.origin_workspace,
            peeking: false,
            width,
            height,
            placement: t.placement,
            follow_enabled: t.follow_enabled,
            follow_mode: t.follow_mode,
            geometry_locked: t.geometry_locked,
        }
    }

    /// The managed windows as shown to clients, in the order they were first managed.
    pub fn tracked_snapshots(&self) -> (r: Vec<TrackedWindowSnapshot>)
        requires
            self.wf(),
        ensures
            snapshots_show(*self, r),
    {
        let mut out: Vec<TrackedWindowSnapshot> = Vec::new();
        let mut i: usize = 0;
        while i < self.managed.len()
            invariant
                self.wf(),
                i <= self.managed.seq().len(),
                out@.len() == i,
                forall|j: int| 0 <= j < i ==> (#[trigger] out@[j]).id == self.managed.seq()[j].id,
                forall|j: int| 0 <= j < i ==> self.managed@.contains_key(#[trigger] out@[j].id)
                    && shows(out@[j], self.managed@[out@[j].id], self.windows@[out@[j].id]),
            decreases self.managed.seq().len() - i,
        {
            let id = self.managed.at(i).id;
            proof {
                crate::idmap::lemma_keyed_map_index(self.managed.seq(), i as int);
            }
            let snap = self.snapshot_of(id);
            out.push(snap);
            i = i + 1;
        }
        proof {
            assert forall|k: u64| #[trigger] self.managed_view().contains_key(k) implies exists|i: int| 0 <= i < out@.len() && out@[i].id == k by {
                crate::idmap::lemma_keyed_map_dom(self.managed.seq(), k);
                let j = choose|j: int| 0 <= j < self.managed.seq().len() && (#[trigger] self.managed.seq()[j]).key_of() == k;
                assert(out@[j].id == k);
            }
        }
        out
    }

    /// The ids of the managed windows, in increasing order.
    fn sorted_managed_ids(&self) -> (r: Vec<u64>)
        requires
            self.wf(),
        ensures
            r@.len() == self.managed.seq().len(),
            forall|a: int, b: int| 0 <= a < b < r@.len() ==> r@[a] < r@[b],
            forall|k: u64| #[trigger] r@.contains(k) <==> self.managed@.contains_key(k),
    {
        let ghost seq = self.managed.seq();
        let mut out: Vec<u64> = Vec::new();
        let mut i: usize = 0;
        while i < self.managed.len()
            invariant
                self.wf(),
                seq == self.managed.seq(),
                i <= seq.len(),
                out@.len() == i,
                forall|a: int, b: int| 0 <= a < b < out@.len() ==> out@[a] < out@[b],
                forall|k: u64| #[trigger] out@.contains(k) <==> exists|j: int| 0 <= j < i && seq[j].key_of() == k,
            decreases seq.len() - i,
        {
            let x = self.managed.at(i).id;
            proof {
                assert(seq[i as int].key_of() == x);
                if out@.contains(x) {
                    let j = choose|j: int| 0 <= j < i && seq[j].key_of() == x;
                    assert(false);
                }
            }
            let mut p: usize = 0;
            while p < out.len() && out[p] < x
                invariant
                    p <= out@.len(),
                    forall|a: int| 0 <= a < p ==> out@[a] < x,
                decreases out@.len() - p,
            {
                p = p + 1;
            }
            let ghost before = out@;
            out.insert(p, x);
            proof {
                assert(p < before.len() ==> before[p as int] > x) by {
                    if p < before.len() {
                        assert(before[p as int] != x) by {
                            assert(before.contains(before[p as int]));
                        }
                    }
                };
                assert forall|a: int, b: int| 0 <= a < b < out@.len() implies out@[a] < out@[b] by {
                    if b < p {
                    } else if b == p {
                        assert(out@[a] == before[a]);
                    } else if a < p {
                        assert(out@[b] == before[b - 1]);
                        if p < before.len() {
                            assert(before[p as int] <= before[b - 1]) by {
                                if p < b - 1 {
                                    assert(before[p as int] < before[b - 1]);
                                }
                            };
                        }
                    } else if a == p {
                        assert(out@[b] == before[b - 1]);
                        if p < b - 1 {
                            assert(before[p as int] < before[b - 1]);
                        }
                    } else {
                        assert(out@[a] == before[a - 1]);
                        assert(out@[b] == before[b - 1]);
                    }
                }
                assert forall|k: u64| #[trigger] out@.contains(k) <==> exists|j: int| 0 <= j < i + 1 && seq[j].key_of() == k by {
                    if out@.contains(k) {
                        let c = choose|c: int| 0 <= c < out@.len() && out@[c] == k;
                        if c < p {
                            assert(before[c] == k);
                            assert(before.contains(k));
                        } else if c > p {
                            assert(before[c - 1] == k);
                            assert(before.contains(k));
                        }
                    }
                    if exists|j: int| 0 <= j < i + 1 && seq[j].key_of() == k {
                        let j = choose|j: int| 0 <= j < i + 1 && seq[j].key_of() == k;
                        if j < i {
                            assert(before.contains(k));
                            let c = choose|c: int| 0 <= c < before.len() && before[c] == k;
                            if c < p {
                                assert(out@[c] == k);
                            } else {
                                assert(out@[c + 1] == k);
                            }
                        } else {
                            assert(out@[p as int] == k);
                        }
                    }
                }
            }
            i = i + 1;
        }
        proof {
            assert forall|k: u64| #[trigger] out@.contains(k) <==> self.managed@.contains_key(k) by {
                if self.managed@.contains_key(k) {
                    crate::idmap::lemma_keyed_map_dom(seq, k);
                }
                if out@.contains(k) {
                    let j = choose|j: int| 0 <= j < seq.len() && seq[j].key_of() == k;
                    crate::idmap::lemma_keyed_map_index(seq, j);
                }
            }
        }
        out
    }

    /// The engine's status as shown to clients, with the managed windows in id order.
    pub fn status_snapshot(&self) -> (r: StatusSnapshot)
        requires
            self.wf(),
        ensures
            status_shows(*self, r),
    {
        let ids = self.sorted_managed_ids();
        let mut windows: Vec<TrackedWindowSnapshot> = Vec::new();
        let mut i: usize = 0;
        while i < ids.len()
            invariant
                self.wf(),
                i <= ids@.len(),
                windows@.len() == i,
                forall|k: u64| #[trigger] ids@.contains(k) <==> self.managed@.contains_key(k),
                forall|j: int| 0 <= j < i ==> (#[trigger] windows@[j]).id == ids@[j],
                forall|j: int| 0 <= j < i ==> self.managed@.contains_key(#[trigger] windows@[j].id)
                    && shows(windows@[j], self.managed@[windows@[j].id], self.windows@[windows@[j].id]),
            decreases ids@.len() - i,
        {
            let id = ids[i];
            proof {
                assert(ids@.contains(id));
                lemma_managed_key(self, id);
            }
            windows.push(self.snapshot_of(id));
            i = i + 1;
        }
        proof {
            assert forall|k: u64| #[trigger] self.managed_view().contains_key(k) implies exists|i: int| 0 <= i < windows@.len() && windows@[i].id == k by {
                assert(ids@.contains(k));
                let c = choose|c: int| 0 <= c < ids@.len() && ids@[c] == k;
                assert(windows@[c].id == k);
            }
        }
        proof {
            reveal_strlit("0.3.1");
        }
        StatusSnapshot {
            version: ENGINE_VERSION.to_owned(),
            daemon_running: true,
            niri_connected: self.niri_connected,
            niri_version: copy_opt_string(&self.niri_version),
            enabled: self.enabled,
            tracked_count: self.managed.len(),
            pinned: self.managed.len(),
            minimized: 0,
            focused_workspace: self.focused_workspace,
            opacity_override_percent: self.persistent.pip_opacity_percent,
            windows,
        }
    }
}

/// The commands on the engine's own clock. Each reads the time once and does what its `_at`
/// form does at that time; what does not depend on the time is stated here.
impl Engine {
    /// Pins a window, now.
    pub fn pin(&mut self, requested: Option<u64>) -> (r: Result<Vec<Effect>, EngineError>)
        requires
            old(self).wf(),
        ensures
            final(self).wf(),
            pin_result(*old(self), *final(self), requested, r),
    {
        let now = self.now_ms();
        let r = self.pin_at(requested, now);
        proof {
            assert(pin_at_result(*old(self), *self, requested, now, r));
            if old(self).enabled_view() && old(self).window_target(requested) is Ok
                && old(self).windows_view().contains_key(old(self).window_target(requested)->Ok_0) {
                let id = old(self).window_target(requested)->Ok_0;
                assert(self.managed_view().dom() =~= old(self).managed_view().dom().insert(id));
            }
        }
        r
    }

    /// Pins an unmanaged window, unpins a managed one, now.
    pub fn toggle(&mut self, requested: Option<u64>) -> (r: Result<Vec<Effect>, EngineError>)
        requires
            old(self).wf(),
        ensures
            final(self).wf(),
            toggle_result(*old(self), *final(self), requested, r),
    {
        let now = self.now_ms();
        self.toggle_at(requested, now)
    }

    /// Sets an exact size for a managed window, now.
    pub fn resize(&mut self, requested: Option<u64>, width: u32, height: u32) -> (r: Result<Vec<Effect>, EngineError>)
        requires
            old(self).wf(),
        ensures
            final(self).wf(),
            resize_result(*old(self), *final(self), requested, width, height, r),
    {
        let now = self.now_ms();
        self.resize_at(requested, width, height, now)
    }

    /// Scales a managed window's current size by a percentage, now.
    pub fn scale(&mut self, requested: Option<u64>, percent: i32) -> (r: Result<Vec<Effect>, EngineError>)
        requires
            old(self).wf(),
        ensures
            final(self).wf(),
            scale_result(*old(self), *final(self), requested, percent, r),
    {
        let now = self.now_ms();
        self.scale_at(requested, percent, now)
    }

    /// Places a managed window at a corner of its output, now.
    pub fn set_position(&mut self, requested: Option<u64>, placement: Placement) -> (r: Result<Vec<Effect>, EngineError>)
        requires
            old(self).wf(),
        ensures
            final(self).wf(),
            set_position_result(*old(self), *final(self), requested, placement, r),
    {
        let now = self.now_ms();
        self.set_position_at(requested, placement, now)
    }

    /// Moves a managed window by whole logical pixels, now.
    pub fn nudge(&mut self, requested: Option<u64>, dx: i32, dy: i32) -> (r: Result<Vec<Effect>, EngineError>)
        requires
            old(self).wf(),
        ensures
            final(self).wf(),
            nudge_result(*old(self), *final(self), requested, dx, dy, r),
    {
        let now = self.now_ms();
        self.nudge_at(requested, dx, dy, now)
    }

    /// Turns workspace following on or off for a managed window, now.
    pub fn set_follow(&mut self, requested: Option<u64>, enabled: bool) -> (r: Result<Vec<Effect>, EngineError>)
        requires
            old(self).wf(),
        ensures
            final(self).wf(),
            set_follow_result(*old(self), *final(self), requested, enabled, r),
    {
        let now = self.now_ms();
        self.set_follow_at(requested, enabled, now)
    }

    /// Changes the follow mode of a managed window, now.
    pub fn set_follow_mode(&mut self, requested: Option<u64>, mode: FollowMode) -> (r: Result<Vec<Effect>, EngineError>)
        requires
            old(self).wf(),
        ensures
            final(self).wf(),
            set_follow_mode_result(*old(self), *final(self), requested, mode, r),
    {
        let now = self.now_ms();
        self.set_follow_mode_at(requested, mode, now)
    }

    /// Resets a managed window's geometry to the configured defaults, now.
    pub fn reset_geometry(&mut self, requested: Option<u64>) -> (r: Result<Vec<Effect>, EngineError>)
        requires
            old(self).wf(),
        ensures
            final(self).wf(),
            reset_geometry_result(*old(self), *final(self), requested, r),
    {
        let now = self.now_ms();
        self.reset_geometry_at(requested, now)
    }

    /// Applies a control preset to a managed window, now.
    pub fn apply_preset(&mut self, requested: Option<u64>, preset: ControlPreset) -> (r: Result<PresetApplication, EngineError>)
        requires
            old(self).wf(),
        ensures
            final(self).wf(),
            apply_preset_result(*old(self), *final(self), requested, preset, r),
    {
        let now = self.now_ms();
        let r = self.apply_preset_at(requested, preset, now);
        proof {
            assert(apply_preset_at_result(*old(self), *self, requested, preset, now, r));
        }
        r
    }
}

impl Engine {
    /// A follow move is asked for once: after window `id` was moved to workspace `target` at
    /// `now`, no move of it to the same workspace is due again for less than a second.
    pub proof fn law_follow_move_once(&self, moved: &Engine, id: u64, target: u64, now: u64, later: u64)
        requires
            self.managed_view().contains_key(id),
            moved.managed_view().contains_key(id),
            moved.managed_view()[id] == self.after_follow(id, target, now),
            now <= later < now + 1000,
        ensures
            !moved.follow_due(id, target, later),
    {
    }
}

/// Unpinning a window right after pinning it by hand leaves the managed windows as they were
/// before the pin, and both commands succeed.
pub proof fn law_unpin_undoes_pin(
    before: Engine,
    pinned: Engine,
    after: Engine,
    id: u64,
    now: u64,
    pin: Result<Vec<Effect>, EngineError>,
    unpin: Result<Vec<Effect>, EngineError>,
)
    requires
        before.enabled_view(),
        before.windows_view().contains_key(id),
        !before.managed_view().contains_key(id),
        pin_at_result(before, pinned, Some(id), now, pin),
        unpin_result(pinned, after, Some(id), unpin),
    ensures
        pin is Ok,
        unpin is Ok,
        after.managed_view() == before.managed_view(),
{
    assert(pinned.managed@.contains_key(id));
    assert(after.managed_view() =~= before.managed_view());
}

/// Remembered changes are handed out once: a second take right after the first gives nothing.
pub proof fn law_take_persistent_once(
    e0: Engine,
    e1: Engine,
    e2: Engine,
    first: Option<PersistentState>,
    second: Option<PersistentState>,
)
    requires
        take_persistent_if_dirty_result(e0, e1, first),
        take_persistent_if_dirty_result(e1, e2, second),
    ensures
        second is None,
        e2.persistent_view() == e0.persistent_view(),
{
}

/// A closed window is no longer listed in the status.
pub proof fn law_closed_window_is_not_listed(
    before: Engine,
    after: Engine,
    id: u64,
    r: Seq<Effect>,
    status: StatusSnapshot,
)
    requires
        event_outcome(before, after, CompositorEvent::WindowClosed { id }, r),
        status_shows(after, status),
    ensures
        forall|i: int| 0 <= i < status.windows@.len() ==> (#[trigger] status.windows@[i]).id != id,
{
}

/// Handling a window that opens or changes never asks to focus that window.
pub proof fn law_window_event_never_focuses_it(before: Engine, after: Engine, w: WindowInfo, r: Seq<Effect>)
    requires
        event_outcome(before, after, CompositorEvent::WindowOpenedOrChanged(w), r),
    ensures
        forall|i: int| 0 <= i < r.len() ==> (#[trigger] r[i]) != Effect::Action(CompositorAction::FocusWindow { id: w.id }),
{
    if !before.managed_view().contains_key(w.id) && is_pip_match(
        auto_detection(before, w, !before.windows_view().contains_key(w.id)),
    ) {
        let now = choose|now: u64| #[trigger] opened_pip_effects(before, after, w, now, r);
        let p = after.first_placement(w.id);
        assert forall|i: int| 0 <= i < r.len() implies (#[trigger] r[i]) != Effect::Action(
            CompositorAction::FocusWindow { id: w.id },
        ) by {
            if i < p.len() {
                assert(r[i] == p[i]);
            }
        }
    }
}

/// A window that automatic detection takes for PiP, when it opens or changes, is listed as an
/// automatic PiP window of the matching detector.
pub proof fn law_detected_pip_is_listed(
    before: Engine,
    after: Engine,
    w: WindowInfo,
    r: Seq<Effect>,
    listed: Vec<TrackedWindowSnapshot>,
)
    requires
        !before.managed_view().contains_key(w.id),
        is_pip_match(auto_detection(before, w, !before.windows_view().contains_key(w.id))),
        event_outcome(before, after, CompositorEvent::WindowOpenedOrChanged(w), r),
        snapshots_show(after, listed),
    ensures
        exists|i: int| 0 <= i < listed@.len() && (#[trigger] listed@[i]).id == w.id
            && listed@[i].mode@ == mode_name(TrackedMode::AutoPip)
            && (listed@[i].detector matches Some(d)
            && d@ == (auto_detection(before, w, !before.windows_view().contains_key(w.id))->0).0),
{
    let i = choose|i: int| 0 <= i < listed@.len() && listed@[i].id == w.id;
    assert(listed@[i].id == w.id);
}

/// Unpinning a managed window stops managing it and asks for exactly its origin restore;
/// it goes back to tiling exactly where it was pinned by hand from tiling and the
/// configuration asks for it. Unpinning a window that is not managed is refused and changes
/// nothing.
pub proof fn law_unpin_stops_managing(old: Engine, new: Engine, id: u64, r: Result<Vec<Effect>, EngineError>)
    requires
        old.wf(),
        unpin_result(old, new, Some(id), r),
    ensures
        old.managed_view().contains_key(id) ==> {
            let t = old.managed_view()[id];
            let restore = old.config_view().general.restore_layout_on_unpin;
            &&& r is Ok
            &&& new.managed_view() == old.managed_view().remove(id)
            &&& r->Ok_0@ == unpin_effects(t, old.windows_view()[id], restore)
            &&& (r->Ok_0@.contains(Effect::Action(CompositorAction::MoveWindowToTiling { id }))
                <==> (t.mode == TrackedMode::ManualPin && restore && !t.original_was_floating))
        },
        !old.managed_view().contains_key(id) ==> r == Err::<Vec<Effect>, EngineError>(EngineError::NotPinned(id)) && new == old,
{
    if old.managed_view().contains_key(id) {
        let t = old.managed_view()[id];
        let restore = old.config_view().general.restore_layout_on_unpin;
        let w = old.windows_view()[id];
        let tiling = Effect::Action(CompositorAction::MoveWindowToTiling { id });
        assert(t.id == id) by {
            crate::idmap::lemma_keyed_map_value_key(old.managed.seq(), id);
        }
        let e = unpin_effects(t, w, restore);
        if t.mode == TrackedMode::ManualPin {
            let back = match t.origin_workspace {
                Some(w0) => if w.workspace_id != Some(w0) {
                    seq![Effect::Action(CompositorAction::MoveWindowToWorkspace { window_id: id, workspace_id: w0, focus: false })]
                } else {
                    Seq::<Effect>::empty()
                },
                None => Seq::<Effect>::empty(),
            };
            let tiled = if restore && !t.original_was_floating {
                seq![tiling]
            } else {
                Seq::<Effect>::empty()
            };
            let sized = match t.origin_size {
                Some(size) => if w.layout.window_size != size {
                    seq![
                        Effect::Action(CompositorAction::SetWindowWidth { id, change: SizeChange::SetFixed(size.0) }),
                        Effect::Action(CompositorAction::SetWindowHeight { id, change: SizeChange::SetFixed(size.1) }),
                    ]
                } else {
                    Seq::<Effect>::empty()
                },
                None => Seq::<Effect>::empty(),
            };
            let placed = match t.origin_position {
                Some(p) => if t.original_was_floating {
                    seq![Effect::Action(CompositorAction::MoveFloatingWindow {
                        id,
                        x: PositionChange::SetProportion(p.0 as i64),
                        y: PositionChange::SetProportion(p.1 as i64),
                    })]
                } else {
                    Seq::<Effect>::empty()
                },
                None => Seq::<Effect>::empty(),
            };
            assert(e == back + tiled + sized + placed);
            if restore && !t.original_was_floating {
                assert(e[back.len() as int] == tiling);
            } else {
                assert forall|i: int| 0 <= i < e.len() implies e[i] != tiling by {
                    if i < back.len() {
                        assert(e[i] == back[i]);
                    } else if i < back.len() + sized.len() {
                        assert(e[i] == sized[i - back.len()]);
                    } else {
                        assert(e[i] == placed[i - back.len() - sized.len()]);
                    }
                }
            }
        }
    }
}

/// After an authoritative window list with distinct ids, only listed windows are managed,
/// every managed window that is still listed stays managed, and the focused window is a
/// listed window marked focused, or none where no listed window is marked focused.
pub proof fn law_windows_changed_tracking(old: Engine, new: Engine, ws: Vec<WindowInfo>, r: Seq<Effect>)
    requires
        event_outcome(old, new, CompositorEvent::WindowsChanged(ws), r),
        crate::idmap::keys_unique(ws@),
    ensures
        forall|k: u64| #[trigger] new.managed_view().contains_key(k) ==> listed_window(ws@, k),
        forall|k: u64| old.managed_view().contains_key(k) && listed_window(ws@, k)
            ==> #[trigger] new.managed_view().contains_key(k),
        new.focused_window_view() matches Some(f) ==> exists|i: int| 0 <= i < ws@.len()
            && (#[trigger] ws@[i]).id == f && ws@[i].is_focused,
        new.focused_window_view() is None ==> forall|i: int| 0 <= i < ws@.len() ==> !(#[trigger] ws@[i]).is_focused,
{
    if new.focused_window_view() is Some {
        let f = new.focused_window_view()->0;
        crate::idmap::lemma_keyed_map_member(ws@, f);
        crate::idmap::lemma_keyed_map_value_key(ws@, f);
        let j = choose|j: int| 0 <= j < ws@.len() && ws@[j] == crate::idmap::keyed_map(ws@)[f];
        assert(ws@[j].id == f);
    } else {
        assert forall|i: int| 0 <= i < ws@.len() implies !(#[trigger] ws@[i]).is_focused by {
            crate::idmap::lemma_keyed_map_index(ws@, i);
            assert(new.windows_view().contains_key(ws@[i].id));
        }
    }
}

/// Placing a managed window at a corner either asks for nothing and changes nothing (its
/// output is not known), or asks for exactly one floating move of that window and makes the
/// corner its placement.
pub proof fn lemma_position_effects(old: Engine, new: Engine, requested: Option<u64>, placement: Placement, r: Result<Vec<Effect>, EngineError>)
    requires
        old.wf(),
        set_position_result(old, new, requested, placement, r),
        old.tracked_target(requested) is Ok,
    ensures
        ({
            let id = old.tracked_target(requested)->Ok_0;
            &&& r is Ok
            &&& (r->Ok_0@.len() == 0 && new == old) || (r->Ok_0@.len() == 1
                && (r->Ok_0@[0] matches Effect::Action(CompositorAction::MoveFloatingWindow { id: m, .. }) && m == id)
                && new.managed_view().contains_key(id) && new.managed_view()[id].placement == placement
                && new.windows_view() == old.windows_view())
        }),
{
    old.lemma_tracked_target(requested);
}

/// Nudging a managed window by a non-zero offset asks for exactly one floating move of that
/// window by the offset in thousandths of a pixel, and keeps its placement and following.
pub proof fn lemma_nudge_effects(old: Engine, new: Engine, requested: Option<u64>, dx: i32, dy: i32, r: Result<Vec<Effect>, EngineError>)
    requires
        old.wf(),
        nudge_result(old, new, requested, dx, dy, r),
        old.tracked_target(requested) is Ok,
        dx != 0 || dy != 0,
    ensures
        ({
            let id = old.tracked_target(requested)->Ok_0;
            &&& r is Ok
            &&& r->Ok_0@ == seq![Effect::Action(CompositorAction::MoveFloatingWindow {
                id,
                x: PositionChange::AdjustFixed((dx * 1000) as i64),
                y: PositionChange::AdjustFixed((dy * 1000) as i64),
            })]
            &&& new.managed_view().contains_key(id)
            &&& new.managed_view()[id].placement == old.managed_view()[id].placement
            &&& new.managed_view()[id].follow_enabled == old.managed_view()[id].follow_enabled
            &&& new.windows_view() == old.windows_view()
        }),
{
    old.lemma_tracked_target(requested);
}

/// Turning following on or off for a managed window records that, and asks at most for a
/// move of that window to the focused workspace without focus, then its placement.
pub proof fn lemma_follow_effects(old: Engine, new: Engine, requested: Option<u64>, enabled: bool, r: Result<Vec<Effect>, EngineError>)
    requires
        old.wf(),
        set_follow_result(old, new, requested, enabled, r),
        old.tracked_target(requested) is Ok,
    ensures
        ({
            let id = old.tracked_target(requested)->Ok_0;
            &&& r is Ok
            &&& new.managed_view().contains_key(id)
            &&& new.managed_view()[id].follow_enabled == enabled
            &&& new.windows_view() == old.windows_view()
            &&& !enabled ==> r->Ok_0@.len() == 0
            &&& r->Ok_0@.len() > 0 ==> old.focused_workspace_view() is Some && r->Ok_0@[0] == Effect::Action(
                CompositorAction::MoveWindowToWorkspace { window_id: id, workspace_id: old.focused_workspace_view()->0, focus: false })
            &&& r->Ok_0@.len() <= 2
        }),
{
    old.lemma_tracked_target(requested);
    let id = old.tracked_target(requested)->Ok_0;
    let now = choose|now: u64| old.follow_set_outcome(new, id, enabled, now, r->Ok_0@);
    assert(old.follow_set_outcome(new, id, enabled, now, r->Ok_0@));
}

/// A resize is refused with `InvalidSize` exactly where the size is out of bounds; a refused
/// resize changes nothing; a resize that succeeds asks for the width and then the height of
/// the managed window it concerns.
pub proof fn law_resize_errors(old: Engine, new: Engine, requested: Option<u64>, width: u32, height: u32, r: Result<Vec<Effect>, EngineError>)
    requires
        old.wf(),
        resize_result(old, new, requested, width, height, r),
    ensures
        r == Err::<Vec<Effect>, EngineError>(EngineError::InvalidSize(width, height)) <==> !size_ok(width, height),
        r is Err ==> new == old,
        r matches Ok(effects) ==> old.tracked_target(requested) is Ok && effects@ == seq![
            Effect::Action(CompositorAction::SetWindowWidth { id: old.tracked_target(requested)->Ok_0, change: SizeChange::SetFixed(width as i32) }),
            Effect::Action(CompositorAction::SetWindowHeight { id: old.tracked_target(requested)->Ok_0, change: SizeChange::SetFixed(height as i32) }),
        ],
{
    old.lemma_tracked_target(requested);
}

/// The controller settings a detector has when nothing is remembered for it.
pub open spec fn default_controls(config: Config) -> RememberedControls {
    RememberedControls {
        placement: config.pip.position,
        follow_enabled: config.general.follow_workspace,
        follow_mode: config.general.follow_mode,
        geometry_locked: false,
    }
}

/// A geometry reset of a managed window unlocks it and leaves its detector with the default
/// controller settings, or none remembered; the remembered geometry and controller settings
/// of every other name, and the PiP opacity, stay as they were.
#[verifier::spinoff_prover]
#[verifier::rlimit(40)]
pub proof fn law_reset_geometry(old: Engine, new: Engine, requested: Option<u64>, r: Result<Vec<Effect>, EngineError>)
    requires
        old.wf(),
        reset_geometry_result(old, new, requested, r),
        old.tracked_target(requested) is Ok,
    ensures
        ({
            let id = old.tracked_target(requested)->Ok_0;
            let t = old.managed_view()[id];
            let p0 = old.persistent_view();
            let p1 = new.persistent_view();
            &&& new.managed_view().contains_key(id)
            &&& !new.managed_view()[id].geometry_locked
            &&& p1.pip_opacity_percent == p0.pip_opacity_percent
            &&& forall|m: Seq<char>| !(t.detector matches Some(d) && d@ == m) ==> {
                &&& (#[trigger] p1.profiles@.contains_key(m)) == p0.profiles@.contains_key(m)
                &&& p0.profiles@.contains_key(m) ==> p1.profiles@[m] == p0.profiles@[m]
                &&& p1.controls@.contains_key(m) == p0.controls@.contains_key(m)
                &&& p0.controls@.contains_key(m) ==> p1.controls@[m] == p0.controls@[m]
            }
            &&& t.detector matches Some(d) ==> (!p1.controls@.contains_key(d@)
                || p1.controls@[d@] == default_controls(old.config_view()))
        }),
{
    old.lemma_tracked_target(requested);
    let id = old.tracked_target(requested)->Ok_0;
    let (now, s1) = choose|now: u64, s1: Engine| #[trigger] old.reset_outcome(s1, id, now) && s1.reset_rest(new, id, now, r);
    assert(s1.managed@.contains_key(id));
    assert(s1.managed@[id].detector == old.managed@[id].detector);
    let t = s1.managed@[id];
    if t.mode != TrackedMode::ManualPin {
        let size = t.managed_size->0;
        if size_ok(size.0, size.1) {
            let (s2, s3, e1, e2, e3) = choose|s2: Engine, s3: Engine, e1: Seq<Effect>, e2: Seq<Effect>, e3: Seq<Effect>|
                #![trigger s1.resize_outcome(s2, id, size.0, size.1, now, e1), s2.position_outcome(s3, id, s1.config.pip.position, now, e2), s3.follow_outcome(new, id, now, e3)]
                {
                    &&& s1.resize_outcome(s2, id, size.0, size.1, now, e1)
                    &&& s2.position_outcome(s3, id, s1.config.pip.position, now, e2)
                    &&& s3.follow_outcome(new, id, now, e3)
                    &&& r->Ok_0@ == e1 + e2 + e3
                };
            assert(s2.managed@[id].detector == t.detector);
            assert(s3.managed@.contains_key(id));
            if t.detector is Some {
                let n = t.detector->0@;
                assert(!s2.persistent.controls@.contains_key(n));
                assert(s2.controls_spec(n) == default_controls(old.config));
            }
        }
    }
}

/// `v` moved by `d` pixels on an extent of `extent` pixels, in millionths of a percent,
/// rounded toward the old position and held between 0 and 100%.
pub open spec fn nudged(v: u32, d: i32, extent: u32) -> u32 {
    let shift = if d >= 0 {
        d * FULL_PERCENT as int / extent as int
    } else {
        -((-d) * FULL_PERCENT as int / extent as int)
    };
    crate::geometry::clamp(v + shift, 0, FULL_PERCENT as int) as u32
}

/// A nudge moves a position in the direction of its sign, by `|d|` pixels' share of the
/// extent (rounded down), stopping at the output's edges: a nudge to the right or down never
/// lowers the share, one to the left or up never raises it, nudging by a whole extent reaches
/// the edge, and nudging back by the same amount undoes a nudge that stayed inside the output.
pub proof fn law_nudged(v: u32, d: i32, extent: u32)
    requires
        extent > 0,
        v <= FULL_PERCENT,
    ensures
        d >= 0 ==> v <= nudged(v, d, extent) <= FULL_PERCENT,
        d <= 0 ==> nudged(v, d, extent) <= v,
        d >= 0 && v + d * FULL_PERCENT as int / extent as int <= FULL_PERCENT
            ==> nudged(v, d, extent) == v + d * FULL_PERCENT as int / extent as int,
        d < 0 && (-d) * FULL_PERCENT as int / extent as int <= v
            ==> nudged(v, d, extent) == v - (-d) * FULL_PERCENT as int / extent as int,
        d >= extent ==> nudged(v, d, extent) == FULL_PERCENT,
        d <= -(extent as int) ==> nudged(v, d, extent) == 0,
        d > i32::MIN && d >= 0 && v + d * FULL_PERCENT as int / extent as int <= FULL_PERCENT
            ==> nudged(nudged(v, d, extent), -d as i32, extent) == v,
{
    let e = extent as int;
    let f = FULL_PERCENT as int;
    if d >= 0 {
        assert(d * f / e >= 0) by (nonlinear_arith)
            requires
                d >= 0,
                e > 0,
                f > 0,
        ;
    } else {
        assert((-d) * f / e >= 0) by (nonlinear_arith)
            requires
                d < 0,
                e > 0,
                f > 0,
        ;
    }
    if d >= e {
        assert(d * f >= e * f) by (nonlinear_arith)
            requires
                d >= e,
                f > 0,
        ;
        vstd::arithmetic::div_mod::lemma_div_is_ordered(e * f, d * f, e);
        vstd::arithmetic::div_mod::lemma_div_multiples_vanish(f, e);
    }
    if d <= -e {
        assert((-d) * f >= e * f) by (nonlinear_arith)
            requires
                -d >= e,
                f > 0,
        ;
        vstd::arithmetic::div_mod::lemma_div_is_ordered(e * f, (-d) * f, e);
        vstd::arithmetic::div_mod::lemma_div_multiples_vanish(f, e);
    }
    if d > i32::MIN && d >= 0 && v + d * f / e <= f {
        let w = nudged(v, d, extent);
        assert(w == v + d * f / e);
        if d > 0 {
            assert((-(-d as i32)) == d);
        }
    }
}

fn nudged_percent(v: u32, d: i32, extent: u32) -> (r: u32)
    requires
        extent > 0,
    ensures
        r == nudged(v, d, extent),
{
    let mag: u64 = if d >= 0 { d as u64 } else { (-(d as i64)) as u64 };
    assert(mag * 100_000_000 <= 0x8000_0000u64 * 100_000_000) by (nonlinear_arith)
        requires
            mag <= 0x8000_0000u64,
    ;
    let q: u64 = mag * 100_000_000 / (extent as u64);
    assert(q <= mag * 100_000_000) by (nonlinear_arith)
        requires
            extent > 0,
            q == (mag * 100_000_000) as int / (extent as int),
    ;
    let sum: i64 = if d >= 0 { v as i64 + q as i64 } else { v as i64 - q as i64 };
    if sum < 0 {
        0
    } else if sum > 100_000_000 {
        100_000_000
    } else {
        sum as u32
    }
}

} // verus!
