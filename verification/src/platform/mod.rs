pub mod generic;
pub mod summon;
pub mod x11;

use vstd::prelude::*;
use crate::text::{to_lowercase, unicode_lowercase};

verus! {

/// The kind of graphical session the process runs in.
#[derive(Debug, Clone, Copy, PartialEq, Eq, Structural)]
pub enum SessionKind {
    X11,
    Wayland,
    Unknown,
}

/// The session kind that a lower-cased `XDG_SESSION_TYPE` value names.
pub open spec fn session_kind_named(lowered: Seq<char>) -> SessionKind {
    if lowered == "x11"@ {
        SessionKind::X11
    } else if lowered == "wayland"@ {
        SessionKind::Wayland
    } else {
        SessionKind::Unknown
    }
}

/// The session kind that an already lower-cased session type names.
pub fn session_kind_from_lowercase(lowered: &str) -> (r: SessionKind)
    ensures
        r == session_kind_named(lowered@),
{
    let s = String::from_str(lowered);
    if s == String::from_str("x11") {
        SessionKind::X11
    } else if s == String::from_str("wayland") {
        SessionKind::Wayland
    } else {
        SessionKind::Unknown
    }
}

/// The session kind that a `XDG_SESSION_TYPE` value names, in any case.
pub fn session_kind_from_str(session_type: &str) -> (r: SessionKind)
    ensures
        r == session_kind_named(unicode_lowercase(session_type@)),
{
    let lowered = to_lowercase(session_type);
    session_kind_from_lowercase(lowered.as_str())
}

} // verus!
