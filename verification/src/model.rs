//! What the compositor reports (windows, workspaces, outputs, events) and what the
//! library asks it to do (actions).
//!
//! Fractional quantities are fixed-point integers: lengths and positions in thousandths of a
//! logical pixel, proportions in millionths of a percent.
use vstd::prelude::*;

verus! {

/// Millionths of a percent in one percent.
pub const PERCENT_UNIT: u32 = 1_000_000;

/// One hundred percent, in millionths of a percent.
pub const FULL_PERCENT: u32 = 100_000_000;

/// Thousandths of a logical pixel in one logical pixel.
pub const PIXEL_UNIT: i64 = 1000;

/// Where and how large a window is, as Niri reports it.
#[derive(Debug, Clone, Copy, PartialEq, Eq)]
pub struct WindowLayout {
    pub pos_in_scrolling_layout: Option<(usize, usize)>,
    /// Tile size, in thousandths of a logical pixel.
    pub tile_size: (i64, i64),
    /// Window size in logical pixels.
    pub window_size: (i32, i32),
    /// Tile position in the workspace view, in thousandths of a logical pixel.
    pub tile_pos_in_workspace_view: Option<(i64, i64)>,
    /// Window offset inside its tile, in thousandths of a logical pixel.
    pub window_offset_in_tile: (i64, i64),
}

impl WindowLayout {
    /// A layout with nothing known.
    pub fn empty() -> (r: Self)
        ensures
            r.pos_in_scrolling_layout is None,
            r.tile_size == (0i64, 0i64),
            r.window_size == (0i32, 0i32),
            r.tile_pos_in_workspace_view is None,
            r.window_offset_in_tile == (0i64, 0i64),
    {
        WindowLayout {
            pos_in_scrolling_layout: None,
            tile_size: (0, 0),
            window_size: (0, 0),
            tile_pos_in_workspace_view: None,
            window_offset_in_tile: (0, 0),
        }
    }

    /// A copy.
    pub fn duplicate(&self) -> (r: Self)
        ensures
            r == *self,
    {
        *self
    }
}

impl Default for WindowLayout {
    fn default() -> (r: Self)
        ensures
            r.pos_in_scrolling_layout is None,
            r.tile_size == (0i64, 0i64),
            r.window_size == (0i32, 0i32),
            r.tile_pos_in_workspace_view is None,
            r.window_offset_in_tile == (0i64, 0i64),
    {
        WindowLayout::empty()
    }
}

/// A copy of an optional string.
pub fn copy_opt_string(s: &Option<String>) -> (r: Option<String>)
    ensures
        r == *s,
{
    match s {
        Some(v) => Some(v.clone()),
        None => None,
    }
}

/// A window as Niri reports it.
#[derive(Debug, Clone, PartialEq)]
pub struct WindowInfo {
    pub id: u64,
    pub title: Option<String>,
    pub app_id: Option<String>,
    pub pid: Option<i32>,
    pub workspace_id: Option<u64>,
    pub is_focused: bool,
    pub is_floating: bool,
    pub is_urgent: bool,
    pub layout: WindowLayout,
}

/// The text of an optional string, empty where there is none.
pub open spec fn opt_text(s: Option<String>) -> Seq<char> {
    match s {
        Some(v) => v@,
        None => Seq::empty(),
    }
}

/// A window's size in logical pixels, with negative dimensions taken as zero.
pub open spec fn logical_size_of(w: WindowInfo) -> (u32, u32) {
    (
        if w.layout.window_size.0 < 0 { 0u32 } else { w.layout.window_size.0 as u32 },
        if w.layout.window_size.1 < 0 { 0u32 } else { w.layout.window_size.1 as u32 },
    )
}

impl WindowInfo {
    /// A window with the given id and nothing else known about it.
    pub fn new(id: u64) -> (r: Self)
        ensures
            r.id == id,
            r.title is None,
            r.app_id is None,
            r.pid is None,
            r.workspace_id is None,
            !r.is_focused,
            !r.is_floating,
            !r.is_urgent,
            r.layout == WindowLayout::empty_spec(),
    {
        WindowInfo {
            id,
            title: None,
            app_id: None,
            pid: None,
            workspace_id: None,
            is_focused: false,
            is_floating: false,
            is_urgent: false,
            layout: WindowLayout::empty(),
        }
    }

    /// The title, empty where there is none.
    pub fn title(&self) -> (r: &str)
        ensures
            r@ == opt_text(self.title),
    {
        match &self.title {
            Some(t) => t.as_str(),
            None => {
                proof {
                    reveal_strlit("");
                }
                ""
            },
        }
    }

    /// The application id, empty where there is none.
    pub fn app_id(&self) -> (r: &str)
        ensures
            r@ == opt_text(self.app_id),
    {
        match &self.app_id {
            Some(t) => t.as_str(),
            None => {
                proof {
                    reveal_strlit("");
                }
                ""
            },
        }
    }

    /// The window's size in logical pixels, negative sizes taken as zero.
    pub fn logical_size(&self) -> (r: (u32, u32))
        ensures
            r == logical_size_of(*self),
    {
        let (w, h) = self.layout.window_size;
        (if w < 0 {
            0
        } else {
            w as u32
        }, if h < 0 {
            0
        } else {
            h as u32
        })
    }

    /// A copy.
    pub fn duplicate(&self) -> (r: Self)
        ensures
            r == *self,
    {
        WindowInfo {
            id: self.id,
            title: copy_opt_string(&self.title),
            app_id: copy_opt_string(&self.app_id),
            pid: self.pid,
            workspace_id: self.workspace_id,
            is_focused: self.is_focused,
            is_floating: self.is_floating,
            is_urgent: self.is_urgent,
            layout: self.layout.duplicate(),
        }
    }
}

impl WindowLayout {
    /// A layout with nothing known.
    pub open spec fn empty_spec() -> WindowLayout {
        WindowLayout {
            pos_in_scrolling_layout: None,
            tile_size: (0, 0),
            window_size: (0, 0),
            tile_pos_in_workspace_view: None,
            window_offset_in_tile: (0, 0),
        }
    }
}

/// A workspace as Niri reports it.
#[derive(Debug, Clone, PartialEq, Eq)]
pub struct WorkspaceInfo {
    pub id: u64,
    pub idx: u8,
    pub name: Option<String>,
    pub output: Option<String>,
    pub is_urgent: bool,
    pub is_active: bool,
    pub is_focused: bool,
    pub active_window_id: Option<u64>,
}

impl WorkspaceInfo {
    /// A workspace with the given id and nothing else known about it.
    pub fn new(id: u64) -> (r: Self)
        ensures
            r.id == id,
            r.idx == 0,
            r.name is None,
            r.output is None,
            !r.is_urgent,
            !r.is_active,
            !r.is_focused,
            r.active_window_id is None,
    {
        WorkspaceInfo {
            id,
            idx: 0,
            name: None,
            output: None,
            is_urgent: false,
            is_active: false,
            is_focused: false,
            active_window_id: None,
        }
    }

    /// A copy.
    pub fn duplicate(&self) -> (r: Self)
        ensures
            r == *self,
    {
        WorkspaceInfo {
            id: self.id,
            idx: self.idx,
            name: copy_opt_string(&self.name),
            output: copy_opt_string(&self.output),
            is_urgent: self.is_urgent,
            is_active: self.is_active,
            is_focused: self.is_focused,
            active_window_id: self.active_window_id,
        }
    }
}

/// The logical geometry of an output.
#[derive(Debug, Clone, Copy, PartialEq, Eq)]
pub struct LogicalOutput {
    pub x: i32,
    pub y: i32,
    pub width: u32,
    pub height: u32,
    /// Output scale, in thousandths.
    pub scale_milli: u32,
}

/// An output as Niri reports it.
#[derive(Debug, Clone, PartialEq, Eq)]
pub struct OutputInfo {
    pub name: String,
    pub logical: Option<LogicalOutput>,
}

impl OutputInfo {
    /// A copy.
    pub fn duplicate(&self) -> (r: Self)
        ensures
            r == *self,
    {
        OutputInfo { name: self.name.clone(), logical: self.logical }
    }
}

/// Two output descriptions agree: same name text and same logical geometry.
pub open spec fn same_output(a: OutputInfo, b: OutputInfo) -> bool {
    a.name@ == b.name@ && a.logical == b.logical
}

/// Whether two output descriptions agree.
pub fn output_info_eq(a: &OutputInfo, b: &OutputInfo) -> (r: bool)
    ensures
        r == same_output(*a, *b),
{
    if !(a.name == b.name) {
        return false;
    }
    match (&a.logical, &b.logical) {
        (None, None) => true,
        (Some(x), Some(y)) => x.x == y.x && x.y == y.y && x.width == y.width && x.height
            == y.height && x.scale_milli == y.scale_milli,
        _ => false,
    }
}

/// An event of Niri's event stream.
#[derive(Debug, Clone, PartialEq)]
pub enum CompositorEvent {
    Connected { version: String },
    Disconnected { reason: String },
    WorkspacesChanged(Vec<WorkspaceInfo>),
    WorkspaceActivated { id: u64, focused: bool },
    WorkspaceActiveWindowChanged { workspace_id: u64, active_window_id: Option<u64> },
    WindowsChanged(Vec<WindowInfo>),
    WindowOpenedOrChanged(WindowInfo),
    WindowClosed { id: u64 },
    WindowFocusChanged { id: Option<u64> },
    WindowLayoutsChanged(Vec<(u64, WindowLayout)>),
    /// The outputs, one entry per output name.
    OutputsChanged(Vec<OutputInfo>),
    Unknown(String),
}

/// A change of a floating window's coordinate.
#[derive(Debug, Clone, Copy, PartialEq, Eq)]
pub enum PositionChange {
    /// Absolute position, in thousandths of a logical pixel.
    SetFixed(i64),
    /// Proportion of the output, in millionths of a percent.
    SetProportion(i64),
    /// Relative move, in thousandths of a logical pixel.
    AdjustFixed(i64),
    /// Relative move, in millionths of a percent.
    AdjustProportion(i64),
}

/// A change of a window's width or height.
#[derive(Debug, Clone, Copy, PartialEq, Eq)]
pub enum SizeChange {
    SetFixed(i32),
    /// Proportion, in millionths of a percent.
    SetProportion(i64),
    AdjustFixed(i32),
    /// Proportion, in millionths of a percent.
    AdjustProportion(i64),
}

/// An action the engine asks Niri to carry out.
#[derive(Debug, Clone, Copy, PartialEq, Eq)]
pub enum CompositorAction {
    FocusWindow { id: u64 },
    MoveWindowToFloating { id: u64 },
    MoveWindowToTiling { id: u64 },
    SetWindowWidth { id: u64, change: SizeChange },
    SetWindowHeight { id: u64, change: SizeChange },
    MoveFloatingWindow { id: u64, x: PositionChange, y: PositionChange },
    MoveWindowToWorkspace { window_id: u64, workspace_id: u64, focus: bool },
}

} // verus!
