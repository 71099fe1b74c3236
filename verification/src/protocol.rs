//! The messages between the command-line client and the daemon.
use vstd::prelude::*;
use crate::config::{FollowMode, Placement};

verus! {

/// The protocol version that client and daemon must agree on.
pub const DAEMON_PROTOCOL_VERSION: u32 = 4;

/// A request of a client to the daemon.
#[derive(Debug, Clone)]
pub enum DaemonRequest {
    Status,
    List,
    ListMinimized,
    Minimize { window_id: Option<u64> },
    RestoreMinimized { window_id: Option<u64> },
    RestoreAllMinimized,
    Pin { window_id: Option<u64> },
    Overlay { window_id: Option<u64>, profile: Option<String> },
    Unpin { window_id: Option<u64> },
    Toggle { window_id: Option<u64> },
    SetPeek { window_id: Option<u64>, enabled: Option<bool> },
    Resize { window_id: Option<u64>, width: u32, height: u32 },
    Scale { window_id: Option<u64>, percent: i32 },
    SetPosition { window_id: Option<u64>, placement: Placement },
    Nudge { window_id: Option<u64>, dx: i32, dy: i32 },
    SetFollow { window_id: Option<u64>, enabled: bool },
    SetFollowMode { window_id: Option<u64>, mode: FollowMode },
    SetGeometryLock { window_id: Option<u64>, locked: bool },
    ResetGeometry { window_id: Option<u64> },
    ResetLearnedGeometry,
    SetOpacity { percent: Option<u8> },
    ApplyPreset { window_id: Option<u64>, preset: ControlPreset },
    ReloadConfig,
    SetEnabled { enabled: bool },
}

/// A ready-made size, place and opacity.
#[derive(Debug, Clone, Copy, PartialEq, Eq, Structural)]
pub enum ControlPreset {
    Tiny,
    Small,
    Medium,
    Large,
    Cinema,
    Movie,
    Study,
}

/// The daemon's answer, with the protocol version it speaks.
#[derive(Debug, Clone)]
pub struct DaemonResponse {
    pub protocol_version: u32,
    pub result: DaemonResult,
}

/// What a request came to.
#[derive(Debug, Clone)]
pub enum DaemonResult {
    Success { data: ResponseData },
    Failure { message: String },
}

/// What a successful answer carries.
#[derive(Debug, Clone)]
pub enum ResponseData {
    Status(StatusSnapshot),
    Windows { windows: Vec<TrackedWindowSnapshot> },
    MinimizedWindows { windows: Vec<MinimizedWindowSnapshot> },
    Message { message: String },
}

/// The daemon's status.
#[derive(Debug, Clone)]
pub struct StatusSnapshot {
    pub version: String,
    pub daemon_running: bool,
    pub niri_connected: bool,
    pub niri_version: Option<String>,
    pub enabled: bool,
    pub tracked_count: usize,
    pub pinned: usize,
    pub minimized: usize,
    pub focused_workspace: Option<u64>,
    pub opacity_override_percent: Option<u8>,
    pub windows: Vec<TrackedWindowSnapshot>,
}

/// A managed window as the status shows it.
#[derive(Debug, Clone)]
pub struct TrackedWindowSnapshot {
    pub id: u64,
    pub title: String,
    pub app_id: String,
    pub mode: String,
    pub detector: Option<String>,
    pub score: Option<i64>,
    pub workspace_id: Option<u64>,
    pub origin_workspace_id: Option<u64>,
    pub peeking: bool,
    pub width: u32,
    pub height: u32,
    pub placement: Placement,
    pub follow_enabled: bool,
    pub follow_mode: FollowMode,
    pub geometry_locked: bool,
}

/// A hidden window as the status shows it.
#[derive(Debug, Clone)]
pub struct MinimizedWindowSnapshot {
    pub id: u64,
    pub title: String,
    pub app_id: String,
    pub origin_workspace_id: Option<u64>,
    pub was_floating: bool,
}

} // verus!
