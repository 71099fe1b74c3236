//! What the daemon remembers between runs: learned geometry and controller settings per
//! detector, and the PiP opacity override.
use vstd::prelude::*;
use crate::config::{FollowMode, Placement};
use crate::named::NamedMap;
use crate::text::{decimal_string, decimal_text, push_str};

verus! {

/// The state schema that this build writes.
pub const STATE_SCHEMA_VERSION: u32 = 2;

/// A learned window geometry. Positions are proportions of the output, in millionths of a
/// percent.
#[derive(Debug, Clone, Copy, PartialEq, Eq, Structural)]
pub struct RememberedGeometry {
    pub width: u32,
    pub height: u32,
    pub x_percent: u32,
    pub y_percent: u32,
}

impl Default for RememberedGeometry {
    fn default() -> (r: Self)
        ensures
            r.width == 480 && r.height == 270,
            r.x_percent == 70_000_000 && r.y_percent == 70_000_000,
    {
        RememberedGeometry { width: 480, height: 270, x_percent: 70_000_000, y_percent: 70_000_000 }
    }
}

/// The controls remembered for a detector.
#[derive(Debug, Clone, Copy, PartialEq, Eq, Structural)]
pub struct RememberedControls {
    pub placement: Placement,
    pub follow_enabled: bool,
    pub follow_mode: FollowMode,
    pub geometry_locked: bool,
}

impl Default for RememberedControls {
    fn default() -> (r: Self)
        ensures
            r.placement == Placement::BottomRight,
            r.follow_enabled,
            r.follow_mode == FollowMode::FollowWorkspace,
            !r.geometry_locked,
    {
        RememberedControls {
            placement: Placement::BottomRight,
            follow_enabled: true,
            follow_mode: FollowMode::FollowWorkspace,
            geometry_locked: false,
        }
    }
}

/// What niri-pip remembers across runs.
#[derive(Debug, Clone)]
pub struct PersistentState {
    pub schema_version: u32,
    /// Learned geometry per detector name.
    pub profiles: NamedMap<RememberedGeometry>,
    /// Controller settings per detector name.
    pub controls: NamedMap<RememberedControls>,
    /// `Some(100)` forces PiP fully opaque; `None` inherits the compositor's rules.
    pub pip_opacity_percent: Option<u8>,
}

impl Default for PersistentState {
    fn default() -> (r: Self)
        ensures
            r.schema_version == STATE_SCHEMA_VERSION,
            r.profiles@ == Map::<Seq<char>, RememberedGeometry>::empty(),
            r.controls@ == Map::<Seq<char>, RememberedControls>::empty(),
            r.pip_opacity_percent == Some(100u8),
    {
        PersistentState {
            schema_version: STATE_SCHEMA_VERSION,
            profiles: NamedMap::new(),
            controls: NamedMap::new(),
            pip_opacity_percent: Some(100),
        }
    }
}

/// Why the remembered state could not be read or written.
#[derive(Debug, Clone)]
pub enum StateError {
    Read { path: String, message: String },
    Parse { path: String, message: String },
    Write { path: String, message: String },
    Serialize(String),
    UnsupportedSchema { found: u32 },
}

/// The text that reports an error of the remembered state.
pub open spec fn state_error_text(e: StateError) -> Seq<char> {
    match e {
        StateError::Read { path, message } => "cannot read state "@ + path@ + ": "@ + message@,
        StateError::Parse { path, message } => "invalid state JSON in "@ + path@ + ": "@ + message@,
        StateError::Write { path, message } => "cannot write state "@ + path@ + ": "@ + message@,
        StateError::Serialize(message) => "cannot serialize runtime state: "@ + message@,
        StateError::UnsupportedSchema { found } => "unsupported state schema version "@ + decimal_text(found as nat)
            + "; this build supports versions 1 and 2"@,
    }
}

fn path_message(prefix: &str, path: &String, message: &String) -> (r: String)
    ensures
        r@ == prefix@ + path@ + ": "@ + message@,
{
    let mut r = prefix.to_owned();
    push_str(&mut r, path.as_str());
    push_str(&mut r, ": ");
    push_str(&mut r, message.as_str());
    r
}

impl StateError {
    /// The text that reports the error.
    pub fn message(&self) -> (r: String)
        ensures
            r@ == state_error_text(*self),
    {
        match self {
            StateError::Read { path, message } => path_message("cannot read state ", path, message),
            StateError::Parse { path, message } => path_message("invalid state JSON in ", path, message),
            StateError::Write { path, message } => path_message("cannot write state ", path, message),
            StateError::Serialize(message) => {
                let mut r = "cannot serialize runtime state: ".to_owned();
                push_str(&mut r, message.as_str());
                r
            },
            StateError::UnsupportedSchema { found } => {
                let mut r = "unsupported state schema version ".to_owned();
                push_str(&mut r, decimal_string(*found as u64).as_str());
                push_str(&mut r, "; this build supports versions 1 and 2");
                r
            },
        }
    }
}

impl PersistentState {
    /// A copy of the state.
    pub fn duplicate(&self) -> (r: Self)
        ensures
            r.schema_version == self.schema_version,
            r.profiles@ == self.profiles@,
            r.controls@ == self.controls@,
            r.pip_opacity_percent == self.pip_opacity_percent,
    {
        PersistentState {
            schema_version: self.schema_version,
            profiles: self.profiles.duplicate(),
            controls: self.controls.duplicate(),
            pip_opacity_percent: self.pip_opacity_percent,
        }
    }

    /// Brings a state read from disk to the current schema. Version 1 stored only geometry: it
    /// keeps every learned profile, drops controls, and forces full opacity where none was set.
    /// The current version is taken as it is; any other version is refused.
    pub fn migrate(self) -> (r: Result<PersistentState, StateError>)
        ensures
            self.schema_version == 1 ==> (r matches Ok(s) && s.schema_version
                == STATE_SCHEMA_VERSION && s.profiles@ == self.profiles@ && s.controls@ == Map::<
                Seq<char>,
                RememberedControls,
            >::empty() && s.pip_opacity_percent == (if self.pip_opacity_percent is None {
                Some(100u8)
            } else {
                self.pip_opacity_percent
            })),
            self.schema_version == STATE_SCHEMA_VERSION ==> (r matches Ok(s) && s.schema_version
                == self.schema_version && s.profiles@ == self.profiles@ && s.controls@
                == self.controls@ && s.pip_opacity_percent == self.pip_opacity_percent),
            self.schema_version != 1 && self.schema_version != STATE_SCHEMA_VERSION ==> (r matches Err(
                StateError::UnsupportedSchema { found },
            ) && found == self.schema_version),
    {
        let mut state = self;
        if state.schema_version == 1 {
            state.schema_version = STATE_SCHEMA_VERSION;
            state.controls = NamedMap::new();
            if state.pip_opacity_percent.is_none() {
                state.pip_opacity_percent = Some(100);
            }
            Ok(state)
        } else if state.schema_version == STATE_SCHEMA_VERSION {
            Ok(state)
        } else {
            Err(StateError::UnsupportedSchema { found: state.schema_version })
        }
    }
}

} // verus!
