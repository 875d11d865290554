use vstd::prelude::*;
use crate::text::{all_white_space, is_blank};

verus! {

/// The text worth keeping from a read of the system clipboard: none when
/// the read failed or gave only white space.
pub open spec fn kept_clipboard_text(read: Option<Seq<char>>) -> Option<Seq<char>> {
    match read {
        Some(t) => if all_white_space(t) {
            None
        } else {
            Some(t)
        },
        None => None,
    }
}

/// The views of an optional string.
pub open spec fn opt_view(o: Option<String>) -> Option<Seq<char>> {
    match o {
        Some(s) => Some(s@),
        None => None,
    }
}

/// Filters what the system clipboard gave (`None` when it could not be
/// read): blank text counts as nothing.
pub fn get_text(read: Option<String>) -> (r: Option<String>)
    ensures
        opt_view(r) == kept_clipboard_text(opt_view(read)),
{
    match read {
        Some(t) => if is_blank(t.as_str()) {
            None
        } else {
            Some(t)
        },
        None => None,
    }
}

} // verus!
