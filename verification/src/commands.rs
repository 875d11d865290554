use vstd::prelude::*;
use crate::text::{trim, trimmed};

verus! {

/// A command that one CosmiCal process can ask another one to perform.
#[derive(Debug, Clone, Copy, PartialEq, Eq, Structural)]
pub enum AppCommand {
    SummonToggle,
    SummonScratchpad,
    ShowSurface,
    DismissSurface,
    FocusTodayNote,
    FocusScratchpad,
}

/// The text that stands for a command on the wire.
pub open spec fn wire_name(c: AppCommand) -> Seq<char> {
    match c {
        AppCommand::SummonToggle => "summon_toggle"@,
        AppCommand::SummonScratchpad => "summon_scratchpad"@,
        AppCommand::ShowSurface => "show_surface"@,
        AppCommand::DismissSurface => "dismiss_surface"@,
        AppCommand::FocusTodayNote => "focus_today_note"@,
        AppCommand::FocusScratchpad => "focus_scratchpad"@,
    }
}

/// The command whose wire name is exactly `s`, if any.
pub open spec fn command_named(s: Seq<char>) -> Option<AppCommand> {
    if s == "summon_toggle"@ {
        Some(AppCommand::SummonToggle)
    } else if s == "summon_scratchpad"@ {
        Some(AppCommand::SummonScratchpad)
    } else if s == "show_surface"@ {
        Some(AppCommand::ShowSurface)
    } else if s == "dismiss_surface"@ {
        Some(AppCommand::DismissSurface)
    } else if s == "focus_today_note"@ {
        Some(AppCommand::FocusTodayNote)
    } else if s == "focus_scratchpad"@ {
        Some(AppCommand::FocusScratchpad)
    } else {
        None
    }
}

impl AppCommand {
    /// The wire name of this command.
    pub fn as_wire(&self) -> (r: &'static str)
        ensures
            r@ == wire_name(*self),
    {
        match self {
            AppCommand::SummonToggle => "summon_toggle",
            AppCommand::SummonScratchpad => "summon_scratchpad",
            AppCommand::ShowSurface => "show_surface",
            AppCommand::DismissSurface => "dismiss_surface",
            AppCommand::FocusTodayNote => "focus_today_note",
            AppCommand::FocusScratchpad => "focus_scratchpad",
        }
    }
}


impl AppCommand {
    /// Reads a command from one line of the wire: the line, trimmed of white
    /// space, must be a command's wire name.
    pub fn from_wire(input: &str) -> (r: Option<AppCommand>)
        ensures
            r == command_named(trimmed(input@)),
    {
        let t = trim(input);
        if t == String::from_str("summon_toggle") {
            Some(AppCommand::SummonToggle)
        } else if t == String::from_str("summon_scratchpad") {
            Some(AppCommand::SummonScratchpad)
        } else if t == String::from_str("show_surface") {
            Some(AppCommand::ShowSurface)
        } else if t == String::from_str("dismiss_surface") {
            Some(AppCommand::DismissSurface)
        } else if t == String::from_str("focus_today_note") {
            Some(AppCommand::FocusTodayNote)
        } else if t == String::from_str("focus_scratchpad") {
            Some(AppCommand::FocusScratchpad)
        } else {
            None
        }
    }
}


/// Reading back the wire name of any command gives that command:
/// `AppCommand::from_wire(c.as_wire()) == Some(c)`.
pub proof fn lemma_wire_round_trip(c: AppCommand)
    ensures
        command_named(trimmed(wire_name(c))) == Some(c),
{
    reveal_strlit("summon_toggle");
    reveal_strlit("summon_scratchpad");
    reveal_strlit("show_surface");
    reveal_strlit("dismiss_surface");
    reveal_strlit("focus_today_note");
    reveal_strlit("focus_scratchpad");
    let w = wire_name(c);
    assert(trimmed(w) =~= w);
}

/// The wire protocol's names: each command goes over the wire as its own
/// fixed name, and each of those names is read back as that command.
pub proof fn lemma_wire_names_of_the_protocol()
    ensures
        wire_name(AppCommand::SummonToggle) == "summon_toggle"@,
        wire_name(AppCommand::SummonScratchpad) == "summon_scratchpad"@,
        wire_name(AppCommand::ShowSurface) == "show_surface"@,
        wire_name(AppCommand::DismissSurface) == "dismiss_surface"@,
        wire_name(AppCommand::FocusTodayNote) == "focus_today_note"@,
        wire_name(AppCommand::FocusScratchpad) == "focus_scratchpad"@,
        command_named("summon_toggle"@) == Some(AppCommand::SummonToggle),
        command_named("summon_scratchpad"@) == Some(AppCommand::SummonScratchpad),
        command_named("show_surface"@) == Some(AppCommand::ShowSurface),
        command_named("dismiss_surface"@) == Some(AppCommand::DismissSurface),
        command_named("focus_today_note"@) == Some(AppCommand::FocusTodayNote),
        command_named("focus_scratchpad"@) == Some(AppCommand::FocusScratchpad),
{
    reveal_strlit("summon_toggle");
    reveal_strlit("summon_scratchpad");
    reveal_strlit("show_surface");
    reveal_strlit("dismiss_surface");
    reveal_strlit("focus_today_note");
    reveal_strlit("focus_scratchpad");
    assert("summon_toggle"@.len() == 13);
    assert("summon_scratchpad"@.len() == 17);
    assert("show_surface"@.len() == 12);
    assert("dismiss_surface"@.len() == 15);
    assert("focus_today_note"@.len() == 16);
    assert("focus_scratchpad"@.len() == 16);
    assert("focus_today_note"@[6] != "focus_scratchpad"@[6]);
}

} // verus!
