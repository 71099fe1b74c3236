//! The command-line client's own logic: on/off switches, opacity arguments, the Niri versions
//! it supports, the media player's arguments, and what each command does.
use vstd::prelude::*;
use crate::config::{FollowMode, Placement};
use crate::daemon::{follow_mode_label, follow_mode_name, placement_label, placement_name};
use crate::protocol::{ControlPreset, DaemonRequest, MinimizedWindowSnapshot, ResponseData, StatusSnapshot, TrackedWindowSnapshot};
use crate::text::{
    decimal_string, decimal_text, push_str, string_push, two_decimals, two_decimals_text,
    after_char, before_char, chars_eq_str, chars_of, find_numeric_token, first_numeric_token,
    lower_chars, lower_seq, parse_unsigned, parse_unsigned_chars, split_at_char, trim_end_char,
    trim_end_chars,
};

verus! {

/// An on/off switch argument.
#[derive(Debug, Clone, Copy, PartialEq, Eq, Structural)]
pub enum OnOff {
    On,
    Off,
}

impl OnOff {
    /// Whether the switch is on.
    pub fn enabled(self) -> (r: bool)
        ensures
            r == (self == OnOff::On),
    {
        match self {
            OnOff::On => true,
            OnOff::Off => false,
        }
    }
}

/// Why an opacity argument was refused.
#[derive(Debug, Clone)]
pub enum OpacityError {
    /// Not `auto`, `inherit` or a whole number from 0 to 255 (after any trailing `%`).
    Invalid { value: String },
    /// A whole number outside 10 to 100.
    OutOfRange,
}

/// The text that reports a refused opacity argument.
pub open spec fn opacity_error_text(e: OpacityError) -> Seq<char> {
    match e {
        OpacityError::Invalid { value } => "invalid opacity '"@ + value@ + "'; use 10-100 or auto"@,
        OpacityError::OutOfRange => "opacity must be between 10 and 100 percent, or auto"@,
    }
}

impl OpacityError {
    /// The text that reports the error.
    pub fn message(&self) -> (r: String)
        ensures
            r@ == opacity_error_text(*self),
    {
        match self {
            OpacityError::Invalid { value } => {
                let mut r = "invalid opacity '".to_owned();
                push_str(&mut r, value.as_str());
                push_str(&mut r, "'; use 10-100 or auto");
                r
            },
            OpacityError::OutOfRange => "opacity must be between 10 and 100 percent, or auto".to_owned(),
        }
    }
}

/// Whether an opacity argument asks for the automatic (inherited) opacity.
pub open spec fn is_auto_opacity(s: Seq<char>) -> bool {
    lower_seq(s) == "auto"@ || lower_seq(s) == "inherit"@
}

/// Parses an opacity argument: `auto` or `inherit` (any case) for none, else a percentage
/// from 10 to 100 with optional trailing `%` signs.
pub fn parse_opacity(value: &str) -> (r: Result<Option<u8>, OpacityError>)
    ensures
        is_auto_opacity(value@) ==> r == Ok::<Option<u8>, OpacityError>(None),
        !is_auto_opacity(value@) ==> {
            let t = trim_end_char(value@, '%');
            match parse_unsigned(t, 255) {
                None => r matches Err(OpacityError::Invalid { value: v }) && v@ == t,
                Some(p) => if 10 <= p <= 100 {
                    r == Ok::<Option<u8>, OpacityError>(Some(p as u8))
                } else {
                    r matches Err(OpacityError::OutOfRange)
                },
            }
        },
{
    let chars = chars_of(value);
    let lower = lower_chars(&chars);
    if chars_eq_str(&lower, "auto") || chars_eq_str(&lower, "inherit") {
        return Ok(None);
    }
    let trimmed = trim_end_chars(&chars, '%');
    match parse_unsigned_chars(&trimmed, 255) {
        None => Err(OpacityError::Invalid { value: crate::text::string_from_chars(trimmed.as_slice()) }),
        Some(p) => {
            if 10 <= p && p <= 100 {
                Ok(Some(p as u8))
            } else {
                Err(OpacityError::OutOfRange)
            }
        },
    }
}

/// The oldest supported Niri release, as (year, month).
pub open spec fn supported_release(year: nat, month: nat) -> bool {
    year > 26 || (year == 26 && month >= 4)
}

/// Whether a Niri version string names a supported release: its first token that starts with
/// a digit reads `year.month[.more]` with both numbers fitting `u32`, at 26.04 or later.
pub open spec fn version_supported_spec(version: Seq<char>) -> bool {
    match first_numeric_token(version) {
        None => false,
        Some(tok) => match (parse_unsigned(before_char(tok, '.'), u32::MAX as nat), after_char(tok, '.')) {
            (Some(year), Some(rest)) => match parse_unsigned(before_char(rest, '.'), u32::MAX as nat) {
                Some(month) => supported_release(year, month),
                None => false,
            },
            _ => false,
        },
    }
}

/// Whether a Niri version text names Niri 26.04 or later.
pub fn version_supported(version: &str) -> (r: bool)
    ensures
        r == version_supported_spec(version@),
{
    let chars = chars_of(version);
    let token = match find_numeric_token(&chars) {
        Some(t) => t,
        None => {
            return false;
        },
    };
    assert(token@.skip(0) =~= token@);
    let (first, after) = split_at_char(&token, 0, '.');
    let year = parse_unsigned_chars(&first, 0xFFFF_FFFF);
    let k = match after {
        Some(k) => k,
        None => {
            return false;
        },
    };
    let year = match year {
        Some(y) => y,
        None => {
            return false;
        },
    };
    let (second, _) = split_at_char(&token, k, '.');
    match parse_unsigned_chars(&second, 0xFFFF_FFFF) {
        Some(month) => year > 26 || (year == 26 && month >= 4),
        None => false,
    }
}

/// A media player command.
#[derive(Debug, Clone, Copy, PartialEq, Eq, Structural)]
pub enum MediaAction {
    Play,
    Pause,
    PlayPause,
    Next,
    Previous,
    Forward { seconds: u32 },
    Back { seconds: u32 },
    VolumeUp { percent: u8 },
    VolumeDown { percent: u8 },
    Status,
}

/// The `playerctl` arguments for a media command: the player when one is named, then the
/// command. Seeking is in seconds, volume steps are fractions with two decimals.
pub open spec fn playerctl_args_spec(action: MediaAction, player: Option<Seq<char>>) -> Seq<Seq<char>> {
    let head = match player {
        Some(p) => seq!["--player"@, p],
        None => Seq::empty(),
    };
    head + match action {
        MediaAction::Play => seq!["play"@],
        MediaAction::Pause => seq!["pause"@],
        MediaAction::PlayPause => seq!["play-pause"@],
        MediaAction::Next => seq!["next"@],
        MediaAction::Previous => seq!["previous"@],
        MediaAction::Forward { seconds } => seq!["position"@, decimal_text(seconds as nat).push('+')],
        MediaAction::Back { seconds } => seq!["position"@, decimal_text(seconds as nat).push('-')],
        MediaAction::VolumeUp { percent } => seq!["volume"@, two_decimals_text(percent).push('+')],
        MediaAction::VolumeDown { percent } => seq!["volume"@, two_decimals_text(percent).push('-')],
        MediaAction::Status => seq!["metadata"@, "--format"@, "{{playerName}}  {{status}}  {{artist}} - {{title}}"@],
    }
}

fn text(s: &str) -> (r: String)
    ensures
        r@ == s@,
{
    s.to_owned()
}

fn with_sign(mut s: String, sign: char) -> (r: String)
    ensures
        r@ == s@.push(sign),
{
    string_push(&mut s, sign);
    s
}

/// The arguments `playerctl` is run with for a media command.
pub fn playerctl_args(action: MediaAction, player: Option<&str>) -> (r: Vec<String>)
    ensures
        r@.map_values(|a: String| a@) == playerctl_args_spec(action, match player {
            Some(p) => Some(p@),
            None => None,
        }),
{
    let mut args: Vec<String> = Vec::new();
    if let Some(p) = player {
        args.push(text("--player"));
        args.push(text(p));
    }
    let ghost head = args@.map_values(|a: String| a@);
    let ghost before = args@;
    match action {
        MediaAction::Play => args.push(text("play")),
        MediaAction::Pause => args.push(text("pause")),
        MediaAction::PlayPause => args.push(text("play-pause")),
        MediaAction::Next => args.push(text("next")),
        MediaAction::Previous => args.push(text("previous")),
        MediaAction::Forward { seconds } => {
            args.push(text("position"));
            args.push(with_sign(decimal_string(seconds as u64), '+'));
        },
        MediaAction::Back { seconds } => {
            args.push(text("position"));
            args.push(with_sign(decimal_string(seconds as u64), '-'));
        },
        MediaAction::VolumeUp { percent } => {
            args.push(text("volume"));
            args.push(with_sign(two_decimals(percent), '+'));
        },
        MediaAction::VolumeDown { percent } => {
            args.push(text("volume"));
            args.push(with_sign(two_decimals(percent), '-'));
        },
        MediaAction::Status => {
            args.push(text("metadata"));
            args.push(text("--format"));
            args.push(text("{{playerName}}  {{status}}  {{artist}} - {{title}}"));
        },
    }
    proof {
        let all = args@.map_values(|a: String| a@);
        let tail = args@.skip(before.len() as int).map_values(|a: String| a@);
        assert(all =~= head + tail);
    }
    args
}

/// A command of the command-line client, with its arguments.
#[derive(Debug, Clone)]
pub enum ClientCommand {
    Pin { window_id: Option<u64> },
    Unpin { window_id: Option<u64> },
    Toggle { window_id: Option<u64> },
    Size { width: u32, height: u32, window_id: Option<u64> },
    Scale { percent: i32, window_id: Option<u64> },
    Position { placement: Placement, window_id: Option<u64> },
    Nudge { dx: i32, dy: i32, window_id: Option<u64> },
    Follow { state: OnOff, window_id: Option<u64> },
    FollowMode { mode: FollowMode, window_id: Option<u64> },
    Lock { window_id: Option<u64> },
    Unlock { window_id: Option<u64> },
    Reset { window_id: Option<u64> },
    Opacity { value: String },
    Preset { preset: ControlPreset, window_id: Option<u64> },
    Media { action: MediaAction, player: Option<String> },
    Menu,
    List,
    Status,
    DaemonStatus,
    Doctor,
    Reload,
    Enable,
    Disable,
}

/// What the client does for a command.
#[derive(Debug, Clone)]
pub enum ClientStep {
    /// Send this request to the daemon and show the answer.
    Send(DaemonRequest),
    /// Ask the daemon for its status, reporting an unreachable daemon as such.
    CheckDaemon,
    /// Run `playerctl` with these arguments.
    Player(Vec<String>),
    /// Open the compact controller menu.
    Menu,
    /// Run the diagnostics.
    Doctor,
}

/// What the client does for a command: most commands become one daemon request.
pub fn client_step(command: ClientCommand) -> (r: Result<ClientStep, OpacityError>)
    ensures
        match command {
            ClientCommand::Opacity { value } => {
                let parsed = if is_auto_opacity(value@) {
                    Some(None::<u8>)
                } else {
                    match parse_unsigned(trim_end_char(value@, '%'), 255) {
                        Some(p) => if 10 <= p <= 100 { Some(Some(p as u8)) } else { None },
                        None => None,
                    }
                };
                match parsed {
                    Some(percent) => r matches Ok(ClientStep::Send(DaemonRequest::SetOpacity { percent: q })) && q == percent,
                    None => r is Err,
                }
            },
            ClientCommand::Pin { window_id } => r matches Ok(ClientStep::Send(DaemonRequest::Pin { window_id: w })) && w == window_id,
            ClientCommand::Unpin { window_id } => r matches Ok(ClientStep::Send(DaemonRequest::Unpin { window_id: w })) && w == window_id,
            ClientCommand::Toggle { window_id } => r matches Ok(ClientStep::Send(DaemonRequest::Toggle { window_id: w })) && w == window_id,
            ClientCommand::Size { width, height, window_id } => r matches Ok(ClientStep::Send(DaemonRequest::Resize { window_id: w, width: x, height: y }))
                && w == window_id && x == width && y == height,
            ClientCommand::Scale { percent, window_id } => r matches Ok(ClientStep::Send(DaemonRequest::Scale { window_id: w, percent: p }))
                && w == window_id && p == percent,
            ClientCommand::Position { placement, window_id } => r matches Ok(ClientStep::Send(DaemonRequest::SetPosition { window_id: w, placement: p }))
                && w == window_id && p == placement,
            ClientCommand::Nudge { dx, dy, window_id } => r matches Ok(ClientStep::Send(DaemonRequest::Nudge { window_id: w, dx: x, dy: y }))
                && w == window_id && x == dx && y == dy,
            ClientCommand::Follow { state, window_id } => r matches Ok(ClientStep::Send(DaemonRequest::SetFollow { window_id: w, enabled: e }))
                && w == window_id && e == (state == OnOff::On),
            ClientCommand::FollowMode { mode, window_id } => r matches Ok(ClientStep::Send(DaemonRequest::SetFollowMode { window_id: w, mode: m }))
                && w == window_id && m == mode,
            ClientCommand::Lock { window_id } => r matches Ok(ClientStep::Send(DaemonRequest::SetGeometryLock { window_id: w, locked: l }))
                && w == window_id && l,
            ClientCommand::Unlock { window_id } => r matches Ok(ClientStep::Send(DaemonRequest::SetGeometryLock { window_id: w, locked: l }))
                && w == window_id && !l,
            ClientCommand::Reset { window_id } => r matches Ok(ClientStep::Send(DaemonRequest::ResetGeometry { window_id: w })) && w == window_id,
            ClientCommand::Preset { preset, window_id } => r matches Ok(ClientStep::Send(DaemonRequest::ApplyPreset { window_id: w, preset: p }))
                && w == window_id && p == preset,
            ClientCommand::Media { action, player } => r matches Ok(ClientStep::Player(args))
                && args@.map_values(|a: String| a@) == playerctl_args_spec(action, match player {
                    Some(p) => Some(p@),
                    None => None,
                }),
            ClientCommand::Menu => r matches Ok(ClientStep::Menu),
            ClientCommand::List => r matches Ok(ClientStep::Send(DaemonRequest::List)),
            ClientCommand::Status => r matches Ok(ClientStep::Send(DaemonRequest::Status)),
            ClientCommand::DaemonStatus => r matches Ok(ClientStep::CheckDaemon),
            ClientCommand::Doctor => r matches Ok(ClientStep::Doctor),
            ClientCommand::Reload => r matches Ok(ClientStep::Send(DaemonRequest::ReloadConfig)),
            ClientCommand::Enable => r matches Ok(ClientStep::Send(DaemonRequest::SetEnabled { enabled: e })) && e,
            ClientCommand::Disable => r matches Ok(ClientStep::Send(DaemonRequest::SetEnabled { enabled: e })) && !e,
        },
{
    match command {
        ClientCommand::Pin { window_id } => Ok(ClientStep::Send(DaemonRequest::Pin { window_id })),
        ClientCommand::Unpin { window_id } => Ok(ClientStep::Send(DaemonRequest::Unpin { window_id })),
        ClientCommand::Toggle { window_id } => Ok(ClientStep::Send(DaemonRequest::Toggle { window_id })),
        ClientCommand::Size { width, height, window_id } => Ok(ClientStep::Send(DaemonRequest::Resize { window_id, width, height })),
        ClientCommand::Scale { percent, window_id } => Ok(ClientStep::Send(DaemonRequest::Scale { window_id, percent })),
        ClientCommand::Position { placement, window_id } => Ok(ClientStep::Send(DaemonRequest::SetPosition { window_id, placement })),
        ClientCommand::Nudge { dx, dy, window_id } => Ok(ClientStep::Send(DaemonRequest::Nudge { window_id, dx, dy })),
        ClientCommand::Follow { state, window_id } => Ok(ClientStep::Send(DaemonRequest::SetFollow { window_id, enabled: state.enabled() })),
        ClientCommand::FollowMode { mode, window_id } => Ok(ClientStep::Send(DaemonRequest::SetFollowMode { window_id, mode })),
        ClientCommand::Lock { window_id } => Ok(ClientStep::Send(DaemonRequest::SetGeometryLock { window_id, locked: true })),
        ClientCommand::Unlock { window_id } => Ok(ClientStep::Send(DaemonRequest::SetGeometryLock { window_id, locked: false })),
        ClientCommand::Reset { window_id } => Ok(ClientStep::Send(DaemonRequest::ResetGeometry { window_id })),
        ClientCommand::Opacity { value } => match parse_opacity(value.as_str()) {
            Ok(percent) => Ok(ClientStep::Send(DaemonRequest::SetOpacity { percent })),
            Err(e) => Err(e),
        },
        ClientCommand::Preset { preset, window_id } => Ok(ClientStep::Send(DaemonRequest::ApplyPreset { window_id, preset })),
        ClientCommand::Media { action, player } => {
            let args = match &player {
                Some(p) => playerctl_args(action, Some(p.as_str())),
                None => playerctl_args(action, None),
            };
            Ok(ClientStep::Player(args))
        },
        ClientCommand::Menu => Ok(ClientStep::Menu),
        ClientCommand::List => Ok(ClientStep::Send(DaemonRequest::List)),
        ClientCommand::Status => Ok(ClientStep::Send(DaemonRequest::Status)),
        ClientCommand::DaemonStatus => Ok(ClientStep::CheckDaemon),
        ClientCommand::Doctor => Ok(ClientStep::Doctor),
        ClientCommand::Reload => Ok(ClientStep::Send(DaemonRequest::ReloadConfig)),
        ClientCommand::Enable => Ok(ClientStep::Send(DaemonRequest::SetEnabled { enabled: true })),
        ClientCommand::Disable => Ok(ClientStep::Send(DaemonRequest::SetEnabled { enabled: false })),
    }
}

/// A word for a switch in the window list.
pub open spec fn on_off_text(on: bool) -> Seq<char> {
    if on {
        "on"@
    } else {
        "off"@
    }
}

/// The lines that show one managed window: its id and title, its size, place and mode, then
/// its workspace, following, lock, application id and detector.
pub open spec fn window_text(w: TrackedWindowSnapshot) -> Seq<char> {
    let title = if w.title@.len() == 0 {
        "<untitled>"@
    } else {
        w.title@
    };
    let workspace = match w.workspace_id {
        Some(v) => decimal_text(v as nat),
        None => "?"@,
    };
    let app = if w.app_id@.len() == 0 {
        "<empty>"@
    } else {
        w.app_id@
    };
    let detector = match w.detector {
        Some(d) => "  detector="@ + d@,
        None => Seq::empty(),
    };
    "  #"@ + decimal_text(w.id as nat) + "  "@ + title + "\n"@
        + "       "@ + decimal_text(w.width as nat) + "x"@ + decimal_text(w.height as nat) + "  "@
        + placement_label(w.placement) + "  "@ + w.mode@ + "\n"@
        + "       workspace "@ + workspace + "  follow="@ + on_off_text(w.follow_enabled) + " ("@
        + follow_mode_label(w.follow_mode) + ")  lock="@ + on_off_text(w.geometry_locked) + "  app-id="@ + app
        + detector + "\n"@
}

/// The lines that show the first `n` managed windows.
pub open spec fn windows_upto(ws: Seq<TrackedWindowSnapshot>, n: int) -> Seq<char>
    decreases n,
{
    if n <= 0 {
        Seq::empty()
    } else {
        windows_upto(ws, n - 1) + window_text(ws[n - 1])
    }
}

/// The lines that show the managed windows, or that there are none.
pub open spec fn windows_text(ws: Seq<TrackedWindowSnapshot>) -> Seq<char> {
    if ws.len() == 0 {
        "No tracked windows.\n"@
    } else {
        windows_upto(ws, ws.len() as int)
    }
}

/// A `true` or `false`.
pub open spec fn bool_text(b: bool) -> Seq<char> {
    if b {
        "true"@
    } else {
        "false"@
    }
}

/// The first lines of the daemon's status: the version, whether the daemon runs, and the
/// Niri connection.
pub open spec fn status_head_text(s: StatusSnapshot) -> Seq<char> {
    let niri = (if s.niri_connected {
        "connected"@
    } else {
        "disconnected"@
    }) + match s.niri_version {
        Some(v) => " ("@ + v@ + ")"@,
        None => Seq::empty(),
    };
    "niri-pip "@ + s.version@ + "\n\n"@ + "Daemon        "@ + (if s.daemon_running {
        "running"@
    } else {
        "stopped"@
    }) + "\n"@ + "Niri IPC      "@ + niri + "\n"@
}

/// The lines of the daemon's status that show what it manages.
pub open spec fn status_counts_text(s: StatusSnapshot) -> Seq<char> {
    let opacity = match s.opacity_override_percent {
        Some(p) => decimal_text(p as nat) + "%"@,
        None => "auto/inherit"@,
    };
    "Enabled       "@ + bool_text(s.enabled) + "\n"@ + "Tracked       "@ + decimal_text(s.tracked_count as nat)
        + "\n"@ + "Pinned        "@ + decimal_text(s.pinned as nat) + "\n"@ + "PiP opacity   "@ + opacity
        + "\n"@
}

/// The lines that show the daemon's status.
pub open spec fn status_text(s: StatusSnapshot) -> Seq<char> {
    let workspace = match s.focused_workspace {
        Some(w) => "Workspace     #"@ + decimal_text(w as nat) + "\n"@,
        None => Seq::empty(),
    };
    let windows = if s.windows@.len() == 0 {
        Seq::empty()
    } else {
        "\nWINDOWS\n"@ + windows_text(s.windows@)
    };
    status_head_text(s) + status_counts_text(s) + workspace + windows
}

/// The lines that show the hidden windows.
pub open spec fn hidden_upto(ws: Seq<MinimizedWindowSnapshot>, n: int) -> Seq<char>
    decreases n,
{
    if n <= 0 {
        Seq::empty()
    } else {
        hidden_upto(ws, n - 1) + "  #"@ + decimal_text(ws[n - 1].id as nat) + "  "@ + ws[n - 1].title@ + "\n"@
    }
}

/// The text a successful answer of the daemon is shown as.
pub open spec fn response_text(d: ResponseData) -> Seq<char> {
    match d {
        ResponseData::Message { message } => message@ + "\n"@,
        ResponseData::Windows { windows } => windows_text(windows@),
        ResponseData::MinimizedWindows { windows } => hidden_upto(windows@, windows@.len() as int),
        ResponseData::Status(s) => status_text(s),
    }
}

fn on_off(on: bool) -> (r: &'static str)
    ensures
        r@ == on_off_text(on),
{
    if on {
        "on"
    } else {
        "off"
    }
}

fn push_decimal(s: &mut String, n: u64)
    ensures
        final(s)@ == old(s)@ + decimal_text(n as nat),
{
    let d = decimal_string(n);
    push_str(s, d.as_str());
}

/// The lines that show one managed window.
pub fn window_report(w: &TrackedWindowSnapshot) -> (r: String)
    ensures
        r@ == window_text(*w),
{
    let mut r = "  #".to_owned();
    push_decimal(&mut r, w.id);
    push_str(&mut r, "  ");
    if w.title.as_str().unicode_len() == 0 {
        push_str(&mut r, "<untitled>");
    } else {
        push_str(&mut r, w.title.as_str());
    }
    push_str(&mut r, "\n");
    push_str(&mut r, "       ");
    push_decimal(&mut r, w.width as u64);
    push_str(&mut r, "x");
    push_decimal(&mut r, w.height as u64);
    push_str(&mut r, "  ");
    push_str(&mut r, placement_name(w.placement));
    push_str(&mut r, "  ");
    push_str(&mut r, w.mode.as_str());
    push_str(&mut r, "\n");
    push_str(&mut r, "       workspace ");
    match w.workspace_id {
        Some(v) => push_decimal(&mut r, v),
        None => push_str(&mut r, "?"),
    }
    push_str(&mut r, "  follow=");
    push_str(&mut r, on_off(w.follow_enabled));
    push_str(&mut r, " (");
    push_str(&mut r, follow_mode_name(w.follow_mode));
    push_str(&mut r, ")  lock=");
    push_str(&mut r, on_off(w.geometry_locked));
    push_str(&mut r, "  app-id=");
    if w.app_id.as_str().unicode_len() == 0 {
        push_str(&mut r, "<empty>");
    } else {
        push_str(&mut r, w.app_id.as_str());
    }
    match &w.detector {
        Some(d) => {
            push_str(&mut r, "  detector=");
            push_str(&mut r, d.as_str());
        },
        None => {},
    }
    push_str(&mut r, "\n");
    assert(r@ =~= window_text(*w));
    r
}

/// The lines that show the managed windows, or that there are none.
pub fn windows_report(ws: &Vec<TrackedWindowSnapshot>) -> (r: String)
    ensures
        r@ == windows_text(ws@),
{
    if ws.len() == 0 {
        return "No tracked windows.\n".to_owned();
    }
    let mut r = String::new();
    let mut i: usize = 0;
    while i < ws.len()
        invariant
            i <= ws@.len(),
            r@ == windows_upto(ws@, i as int),
        decreases ws@.len() - i,
    {
        let line = window_report(&ws[i]);
        push_str(&mut r, line.as_str());
        i = i + 1;
    }
    r
}

fn status_head(s: &StatusSnapshot) -> (r: String)
    ensures
        r@ == status_head_text(*s),
{
    let mut r = "niri-pip ".to_owned();
    push_str(&mut r, s.version.as_str());
    push_str(&mut r, "\n\n");
    push_str(&mut r, "Daemon        ");
    push_str(&mut r, if s.daemon_running { "running" } else { "stopped" });
    push_str(&mut r, "\n");
    push_str(&mut r, "Niri IPC      ");
    push_str(&mut r, if s.niri_connected { "connected" } else { "disconnected" });
    match &s.niri_version {
        Some(v) => {
            push_str(&mut r, " (");
            push_str(&mut r, v.as_str());
            push_str(&mut r, ")");
        },
        None => {},
    }
    push_str(&mut r, "\n");
    assert(r@ =~= status_head_text(*s));
    r
}

fn status_counts(s: &StatusSnapshot) -> (r: String)
    ensures
        r@ == status_counts_text(*s),
{
    let mut r = "Enabled       ".to_owned();
    push_str(&mut r, if s.enabled { "true" } else { "false" });
    push_str(&mut r, "\n");
    push_str(&mut r, "Tracked       ");
    push_decimal(&mut r, s.tracked_count as u64);
    push_str(&mut r, "\n");
    push_str(&mut r, "Pinned        ");
    push_decimal(&mut r, s.pinned as u64);
    push_str(&mut r, "\n");
    push_str(&mut r, "PiP opacity   ");
    match s.opacity_override_percent {
        Some(p) => {
            push_decimal(&mut r, p as u64);
            push_str(&mut r, "%");
        },
        None => push_str(&mut r, "auto/inherit"),
    }
    push_str(&mut r, "\n");
    assert(r@ =~= status_counts_text(*s));
    r
}

/// The lines that show the daemon's status.
pub fn status_report(s: &StatusSnapshot) -> (r: String)
    ensures
        r@ == status_text(*s),
{
    let mut r = status_head(s);
    let counts = status_counts(s);
    push_str(&mut r, counts.as_str());
    match s.focused_workspace {
        Some(w) => {
            push_str(&mut r, "Workspace     #");
            push_decimal(&mut r, w);
            push_str(&mut r, "\n");
        },
        None => {},
    }
    if s.windows.len() > 0 {
        push_str(&mut r, "\nWINDOWS\n");
        let list = windows_report(&s.windows);
        push_str(&mut r, list.as_str());
    }
    assert(r@ =~= status_text(*s));
    r
}

/// The text a successful answer of the daemon is shown as.
pub fn response_report(d: &ResponseData) -> (r: String)
    ensures
        r@ == response_text(*d),
{
    match d {
        ResponseData::Message { message } => {
            let mut r = message.clone();
            push_str(&mut r, "\n");
            r
        },
        ResponseData::Windows { windows } => windows_report(windows),
        ResponseData::MinimizedWindows { windows } => {
            let mut r = String::new();
            let mut i: usize = 0;
            while i < windows.len()
                invariant
                    i <= windows@.len(),
                    r@ == hidden_upto(windows@, i as int),
                decreases windows@.len() - i,
            {
                push_str(&mut r, "  #");
                push_decimal(&mut r, windows[i].id);
                push_str(&mut r, "  ");
                push_str(&mut r, windows[i].title.as_str());
                push_str(&mut r, "\n");
                i = i + 1;
            }
            r
        },
        ResponseData::Status(s) => status_report(s),
    }
}

/// One finding of the diagnostics.
#[derive(Debug, Clone)]
pub struct DoctorCheck {
    pub name: String,
    pub ok: bool,
    pub detail: String,
}

/// `n` spaces.
pub open spec fn spaces(n: nat) -> Seq<char> {
    Seq::new(n, |i: int| ' ')
}

/// A text padded with spaces to at least `width` characters.
pub open spec fn padded(s: Seq<char>, width: nat) -> Seq<char> {
    if s.len() >= width {
        s
    } else {
        s + spaces((width - s.len()) as nat)
    }
}

/// The line that shows one finding: a check mark or a cross, its name in a column of 28
/// characters, and its detail.
pub open spec fn check_text(c: DoctorCheck) -> Seq<char> {
    (if c.ok {
        "\u{2713}"@
    } else {
        "\u{2717}"@
    }) + " "@ + padded(c.name@, 28) + " "@ + c.detail@ + "\n"@
}

/// How many of the first `n` findings are problems.
pub open spec fn problems_upto(cs: Seq<DoctorCheck>, n: int) -> nat
    decreases n,
{
    if n <= 0 {
        0
    } else {
        problems_upto(cs, n - 1) + (if cs[n - 1].ok {
            0nat
        } else {
            1nat
        })
    }
}

/// The lines that show the first `n` findings.
pub open spec fn checks_upto(cs: Seq<DoctorCheck>, n: int) -> Seq<char>
    decreases n,
{
    if n <= 0 {
        Seq::empty()
    } else {
        checks_upto(cs, n - 1) + check_text(cs[n - 1])
    }
}

/// The diagnostics report: a heading with the version, a line per finding, and how many
/// problems were found.
pub open spec fn doctor_text(version: Seq<char>, cs: Seq<DoctorCheck>) -> Seq<char> {
    let n = problems_upto(cs, cs.len() as int);
    "niri-pip "@ + version + " doctor\n\n"@ + checks_upto(cs, cs.len() as int) + "\n"@ + decimal_text(n)
        + " problem"@ + (if n == 1 {
        Seq::empty()
    } else {
        "s"@
    }) + " found\n"@
}

fn pad_to(s: &mut String, current: usize, width: usize)
    ensures
        final(s)@ == old(s)@ + (if current >= width {
            Seq::empty()
        } else {
            spaces((width - current) as nat)
        }),
{
    let mut k: usize = current;
    let ghost start = s@;
    while k < width
        invariant
            current <= width ==> current <= k <= width,
            current > width ==> k == current,
            s@ == start + spaces((k - current) as nat),
        decreases width - k,
    {
        string_push(s, ' ');
        proof {
            assert(s@ =~= start + spaces((k + 1 - current) as nat));
        }
        k = k + 1;
    }
    proof {
        if current >= width {
            assert(start + spaces(0) =~= start);
        }
    }
}

/// The line that shows one finding.
pub fn check_line(c: &DoctorCheck) -> (r: String)
    ensures
        r@ == check_text(*c),
{
    let mut r = (if c.ok { "\u{2713}" } else { "\u{2717}" }).to_owned();
    push_str(&mut r, " ");
    push_str(&mut r, c.name.as_str());
    let n = c.name.as_str().unicode_len();
    pad_to(&mut r, n, 28);
    push_str(&mut r, " ");
    push_str(&mut r, c.detail.as_str());
    push_str(&mut r, "\n");
    assert(r@ =~= check_text(*c));
    r
}

/// How many findings are problems.
pub fn doctor_problems(checks: &Vec<DoctorCheck>) -> (r: usize)
    ensures
        r == problems_upto(checks@, checks@.len() as int),
{
    let mut n: usize = 0;
    let mut i: usize = 0;
    while i < checks.len()
        invariant
            i <= checks@.len(),
            n == problems_upto(checks@, i as int),
            n <= i,
        decreases checks@.len() - i,
    {
        if !checks[i].ok {
            n = n + 1;
        }
        i = i + 1;
    }
    n
}

/// The diagnostics report.
pub fn doctor_report(version: &str, checks: &Vec<DoctorCheck>) -> (r: String)
    ensures
        r@ == doctor_text(version@, checks@),
{
    let mut r = "niri-pip ".to_owned();
    push_str(&mut r, version);
    push_str(&mut r, " doctor\n\n");
    let ghost head = r@;
    let mut i: usize = 0;
    while i < checks.len()
        invariant
            i <= checks@.len(),
            r@ == head + checks_upto(checks@, i as int),
        decreases checks@.len() - i,
    {
        let line = check_line(&checks[i]);
        push_str(&mut r, line.as_str());
        proof {
            assert(r@ =~= head + checks_upto(checks@, i + 1));
        }
        i = i + 1;
    }
    let n = doctor_problems(checks);
    push_str(&mut r, "\n");
    let digits = decimal_string(n as u64);
    push_str(&mut r, digits.as_str());
    push_str(&mut r, " problem");
    if n != 1 {
        push_str(&mut r, "s");
    }
    push_str(&mut r, " found\n");
    assert(r@ =~= doctor_text(version@, checks@));
    r
}

} // verus!
