//! The Niri IPC connection's own values: its errors and the socket it talks to.
use vstd::prelude::*;
use crate::text::{push_str, str_eq};

verus! {

/// Why talking to Niri failed.
#[derive(Debug, Clone)]
pub enum NiriIpcError {
    /// `NIRI_SOCKET` is not set.
    MissingSocket,
    /// The socket at `path` could not be connected to.
    Connect { path: String, message: String },
    Io(String),
    /// Niri sent text that is not valid JSON.
    Json(String),
    /// Niri answered with an error.
    Remote(String),
    /// Niri answered with something else than expected.
    Unexpected(String),
    /// The event stream ended.
    StreamEnded,
}

/// The text that reports an error of the Niri connection.
pub open spec fn niri_error_text(e: NiriIpcError) -> Seq<char> {
    match e {
        NiriIpcError::MissingSocket => "NIRI_SOCKET is not set; start niri-pip inside a Niri session"@,
        NiriIpcError::Connect { path, message } => "cannot connect to Niri IPC socket "@ + path@ + ": "@ + message@,
        NiriIpcError::Io(message) => "Niri IPC I/O error: "@ + message@,
        NiriIpcError::Json(message) => "invalid Niri IPC JSON: "@ + message@,
        NiriIpcError::Remote(message) => "Niri IPC returned an error: "@ + message@,
        NiriIpcError::Unexpected(message) => "unexpected Niri IPC response: "@ + message@,
        NiriIpcError::StreamEnded => "Niri event stream ended"@,
    }
}

fn prefixed(prefix: &str, message: &String) -> (r: String)
    ensures
        r@ == prefix@ + message@,
{
    let mut r = prefix.to_owned();
    push_str(&mut r, message.as_str());
    r
}

impl NiriIpcError {
    /// The text that reports the error.
    pub fn message(&self) -> (r: String)
        ensures
            r@ == niri_error_text(*self),
    {
        match self {
            NiriIpcError::MissingSocket => "NIRI_SOCKET is not set; start niri-pip inside a Niri session".to_owned(),
            NiriIpcError::Connect { path, message } => {
                let mut r = "cannot connect to Niri IPC socket ".to_owned();
                push_str(&mut r, path.as_str());
                push_str(&mut r, ": ");
                push_str(&mut r, message.as_str());
                r
            },
            NiriIpcError::Io(message) => prefixed("Niri IPC I/O error: ", message),
            NiriIpcError::Json(message) => prefixed("invalid Niri IPC JSON: ", message),
            NiriIpcError::Remote(message) => prefixed("Niri IPC returned an error: ", message),
            NiriIpcError::Unexpected(message) => prefixed("unexpected Niri IPC response: ", message),
            NiriIpcError::StreamEnded => "Niri event stream ended".to_owned(),
        }
    }
}

/// The Niri IPC socket the daemon talks to.
#[derive(Debug, Clone)]
pub struct RealNiriBackend {
    socket_path: String,
}

impl RealNiriBackend {
    /// The socket path.
    pub closed spec fn path_view(&self) -> Seq<char> {
        self.socket_path@
    }

    /// A connection to the Niri socket at `socket_path`.
    pub fn new(socket_path: String) -> (r: Self)
        ensures
            r.path_view() == socket_path@,
    {
        RealNiriBackend { socket_path }
    }

    /// The socket path.
    pub fn socket_path(&self) -> (r: &str)
        ensures
            r@ == self.path_view(),
    {
        self.socket_path.as_str()
    }
}

/// One top-level entry of a JSON object: its key, its value as compact JSON text, and the
/// value's contents where the value is a string.
#[derive(Debug, Clone)]
pub struct JsonEntry {
    pub key: String,
    pub text: String,
    pub string: Option<String>,
}

/// A JSON entry as plain values.
pub open spec fn entry_view(e: JsonEntry) -> (Seq<char>, Seq<char>, Option<Seq<char>>) {
    (e.key@, e.text@, match e.string {
        Some(s) => Some(s@),
        None => None,
    })
}

/// What `serde_json` reads in a line: its error text where the line is not JSON, `None` where
/// it is JSON but no object, else the object's entries in `serde_json`'s order.
pub uninterp spec fn json_top_level(line: Seq<char>) -> Result<Option<Seq<(Seq<char>, Seq<char>, Option<Seq<char>>)>>, Seq<char>>;

/// The plain values of what `json_top_level_of` returns.
pub open spec fn json_view(r: Result<Option<Vec<JsonEntry>>, String>) -> Result<Option<Seq<(Seq<char>, Seq<char>, Option<Seq<char>>)>>, Seq<char>> {
    match r {
        Err(e) => Err(e@),
        Ok(None) => Ok(None),
        Ok(Some(v)) => Ok(Some(v@.map_values(|e: JsonEntry| entry_view(e)))),
    }
}

/// Parses a line with `serde_json::from_str` into a `serde_json::Value`; for an object, hands
/// out each entry with `Value`'s `Display` text and `Value::as_str`. Claims only that the
/// result is `json_top_level` of the line.
#[verifier::external_body]
fn json_top_level_of(line: &str) -> (r: Result<Option<Vec<JsonEntry>>, String>)
    ensures
        json_view(r) == json_top_level(line@),
{
    match serde_json::from_str::<serde_json::Value>(line) {
        Err(e) => Err(e.to_string()),
        Ok(serde_json::Value::Object(map)) => {
            let mut entries = Vec::new();
            for (key, value) in map.iter() {
                let string = match value.as_str() {
                    Some(s) => Some(s.to_owned()),
                    None => None,
                };
                entries.push(JsonEntry { key: key.clone(), text: value.to_string(), string });
            }
            Ok(Some(entries))
        },
        Ok(_) => Ok(None),
    }
}

/// The kind of a Niri event, by the name of its one top-level entry.
#[derive(Debug, Clone, PartialEq, Eq)]
pub enum EventKind {
    WorkspacesChanged,
    WorkspaceActivated,
    WorkspaceActiveWindowChanged,
    WindowsChanged,
    WindowOpenedOrChanged,
    WindowClosed,
    WindowFocusChanged,
    WindowLayoutsChanged,
    /// An event this library does not read, by name.
    Unknown(String),
}

/// The kind of the event named `name`.
pub open spec fn event_kind_is(k: EventKind, name: Seq<char>) -> bool {
    if name == "WorkspacesChanged"@ {
        k is WorkspacesChanged
    } else if name == "WorkspaceActivated"@ {
        k is WorkspaceActivated
    } else if name == "WorkspaceActiveWindowChanged"@ {
        k is WorkspaceActiveWindowChanged
    } else if name == "WindowsChanged"@ {
        k is WindowsChanged
    } else if name == "WindowOpenedOrChanged"@ {
        k is WindowOpenedOrChanged
    } else if name == "WindowClosed"@ {
        k is WindowClosed
    } else if name == "WindowFocusChanged"@ {
        k is WindowFocusChanged
    } else if name == "WindowLayoutsChanged"@ {
        k is WindowLayoutsChanged
    } else {
        k matches EventKind::Unknown(n) && n@ == name
    }
}

/// The kind of the event named `name`.
pub fn event_kind(name: &str) -> (r: EventKind)
    ensures
        event_kind_is(r, name@),
{
    if str_eq(name, "WorkspacesChanged") {
        EventKind::WorkspacesChanged
    } else if str_eq(name, "WorkspaceActivated") {
        EventKind::WorkspaceActivated
    } else if str_eq(name, "WorkspaceActiveWindowChanged") {
        EventKind::WorkspaceActiveWindowChanged
    } else if str_eq(name, "WindowsChanged") {
        EventKind::WindowsChanged
    } else if str_eq(name, "WindowOpenedOrChanged") {
        EventKind::WindowOpenedOrChanged
    } else if str_eq(name, "WindowClosed") {
        EventKind::WindowClosed
    } else if str_eq(name, "WindowFocusChanged") {
        EventKind::WindowFocusChanged
    } else if str_eq(name, "WindowLayoutsChanged") {
        EventKind::WindowLayoutsChanged
    } else {
        EventKind::Unknown(name.to_owned())
    }
}

fn with_line(prefix: &str, line: &str) -> (r: String)
    ensures
        r@ == prefix@ + line@,
{
    let mut r = prefix.to_owned();
    push_str(&mut r, line);
    r
}

/// The head of a line of Niri's event stream: the kind of its event and the event's payload
/// as JSON text. A line that is not JSON, not an object, or not exactly one entry is refused
/// with the errors Niri's stream reader gives.
pub fn event_head(line: &str) -> (r: Result<(EventKind, String), NiriIpcError>)
    ensures
        match json_top_level(line@) {
            Err(m) => r matches Err(NiriIpcError::Json(x)) && x@ == m,
            Ok(None) => r matches Err(NiriIpcError::Unexpected(x)) && x@ == "event is not an object: "@ + line@,
            Ok(Some(es)) => if es.len() != 1 {
                r matches Err(NiriIpcError::Unexpected(x)) && x@ == "event must contain one top-level variant: "@ + line@
            } else {
                r matches Ok((k, p)) && event_kind_is(k, es[0].0) && p@ == es[0].1
            },
        },
{
    let top = json_top_level_of(line);
    match top {
        Err(m) => Err(NiriIpcError::Json(m)),
        Ok(None) => Err(NiriIpcError::Unexpected(with_line("event is not an object: ", line))),
        Ok(Some(entries)) => {
            if entries.len() != 1 {
                return Err(NiriIpcError::Unexpected(with_line("event must contain one top-level variant: ", line)));
            }
            let e = &entries[0];
            assert(entry_view(*e) == entries@.map_values(|x: JsonEntry| entry_view(x))[0]);
            Ok((event_kind(e.key.as_str()), e.text.clone()))
        },
    }
}

/// The first entry with key `key`.
pub open spec fn entry_named(es: Seq<(Seq<char>, Seq<char>, Option<Seq<char>>)>, key: Seq<char>) -> Option<(Seq<char>, Seq<char>, Option<Seq<char>>)>
    decreases es.len(),
{
    if es.len() == 0 {
        None
    } else if es[0].0 == key {
        Some(es[0])
    } else {
        entry_named(es.drop_first(), key)
    }
}

fn find_entry(entries: &Vec<JsonEntry>, key: &str) -> (r: Option<usize>)
    ensures
        match entry_named(entries@.map_values(|x: JsonEntry| entry_view(x)), key@) {
            None => r is None,
            Some(e) => r matches Some(i) && i < entries@.len() && entry_view(entries@[i as int]) == e,
        },
{
    let ghost es = entries@.map_values(|x: JsonEntry| entry_view(x));
    let mut i: usize = 0;
    assert(es.skip(0) =~= es);
    while i < entries.len()
        invariant
            es == entries@.map_values(|x: JsonEntry| entry_view(x)),
            i <= entries@.len(),
            entry_named(es, key@) == entry_named(es.skip(i as int), key@),
        decreases entries@.len() - i,
    {
        assert(es.skip(i as int)[0] == entry_view(entries@[i as int]));
        if str_eq(entries[i].key.as_str(), key) {
            return Some(i);
        }
        assert(es.skip(i as int).drop_first() =~= es.skip(i + 1));
        i = i + 1;
    }
    None
}

/// The answer in a line of a Niri reply: the `Ok` entry's JSON text; a Niri error as
/// `Remote` (its text where it is a string); anything else as `Unexpected`.
pub fn reply_payload(line: &str) -> (r: Result<String, NiriIpcError>)
    ensures
        match json_top_level(line@) {
            Err(m) => r matches Err(NiriIpcError::Json(x)) && x@ == m,
            Ok(None) => r matches Err(NiriIpcError::Unexpected(x)) && x@ == line@,
            Ok(Some(es)) => match entry_named(es, "Ok"@) {
                Some(e) => r matches Ok(t) && t@ == e.1,
                None => match entry_named(es, "Err"@) {
                    Some(e) => r matches Err(NiriIpcError::Remote(x)) && x@ == (match e.2 {
                        Some(text) => text,
                        None => "unknown Niri error"@,
                    }),
                    None => r matches Err(NiriIpcError::Unexpected(x)) && x@ == line@,
                },
            },
        },
{
    let top = json_top_level_of(line);
    match top {
        Err(m) => Err(NiriIpcError::Json(m)),
        Ok(None) => Err(NiriIpcError::Unexpected(line.to_owned())),
        Ok(Some(entries)) => {
            if let Some(i) = find_entry(&entries, "Ok") {
                return Ok(entries[i].text.clone());
            }
            match find_entry(&entries, "Err") {
                Some(i) => {
                    let text = match &entries[i].string {
                        Some(t) => t.clone(),
                        None => "unknown Niri error".to_owned(),
                    };
                    Err(NiriIpcError::Remote(text))
                },
                None => Err(NiriIpcError::Unexpected(line.to_owned())),
            }
        },
    }
}

} // verus!
