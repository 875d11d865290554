use vstd::prelude::*;
use crate::platform::summon::{summon_command, SummonStep};

verus! {

/// Summons through the IPC socket alone: the first step hands the summon
/// command to the running instance.
pub fn summon(focus_scratchpad: bool) -> (r: SummonStep)
    ensures
        r matches SummonStep::Forward(cmds, handled) && cmds@ == seq![summon_command(focus_scratchpad)]
            && !handled,
{
    let mut cmds = Vec::new();
    cmds.push(crate::platform::summon::toggle_command(focus_scratchpad));
    assert(cmds@ =~= seq![summon_command(focus_scratchpad)]);
    SummonStep::Forward(cmds, false)
}

} // verus!
