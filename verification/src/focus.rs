use vstd::prelude::*;

verus! {

/// Which editor should get the keyboard focus.
#[derive(Debug, Clone, Copy, PartialEq, Eq, Structural)]
pub enum FocusTarget {
    NoFocus,
    TodayNote,
    Scratchpad,
}

impl Default for FocusTarget {
    fn default() -> (r: FocusTarget)
        ensures
            r == FocusTarget::NoFocus,
    {
        FocusTarget::NoFocus
    }
}

} // verus!
