use vstd::prelude::*;
use crate::commands::AppCommand;
use crate::platform::SessionKind;
use crate::platform::x11::{
    first_window_id, is_cosmical_active_class, is_cosmical_focused, running_window_id,
};
use crate::text::split_on;

verus! {

/// How a summon ended.
#[derive(Debug, Clone, Copy, PartialEq, Eq, Structural)]
pub enum SummonOutcome {
    /// The running instance took care of it: this process is done.
    Handled,
    /// Nothing took care of it: start up normally.
    ContinueStartup,
}

/// What the process has to do next to summon the running instance.
pub enum SummonStep {
    /// Run `wmctrl -lx` and report its output.
    ListWindows,
    /// Run `xdotool getactivewindow getwindowclassname` and report its
    /// output; the text is the CosmiCal window's id.
    CheckFocus(String),
    /// Minimize the active window.
    MinimizeActive,
    /// Activate the window with this id.
    FocusWindow(String),
    /// Hand these commands to the running instance; the flag tells whether
    /// the summon already succeeded (the window was activated).
    Forward(Vec<AppCommand>, bool),
    /// The summon is over.
    Finish(SummonOutcome),
}

/// What came of the last step.
pub enum SummonEvent {
    /// The output of `wmctrl -lx`, or `None` when it could not run.
    WindowsListed(Option<String>),
    /// The output of `xdotool`, or `None` when it could not run.
    FocusChecked(Option<String>),
    /// Whether minimizing worked.
    Minimized(bool),
    /// Whether activating the window worked.
    WindowFocused(bool),
    /// Whether handing over the commands worked.
    Forwarded(bool),
}

/// The command that toggles the running instance.
pub open spec fn summon_command(focus_scratchpad: bool) -> AppCommand {
    if focus_scratchpad {
        AppCommand::SummonScratchpad
    } else {
        AppCommand::SummonToggle
    }
}

/// The commands that show the running instance's surface.
pub open spec fn show_commands(focus_scratchpad: bool) -> Seq<AppCommand> {
    seq![
        AppCommand::ShowSurface,
        if focus_scratchpad {
            AppCommand::FocusScratchpad
        } else {
            AppCommand::FocusTodayNote
        },
    ]
}

/// The command that toggles the running instance.
pub fn toggle_command(focus_scratchpad: bool) -> (r: AppCommand)
    ensures
        r == summon_command(focus_scratchpad),
{
    if focus_scratchpad {
        AppCommand::SummonScratchpad
    } else {
        AppCommand::SummonToggle
    }
}

/// Whether `event` is what step `step` reports.
pub open spec fn summon_reports(step: SummonStep, event: SummonEvent) -> bool {
    match (step, event) {
        (SummonStep::ListWindows, SummonEvent::WindowsListed(_)) => true,
        (SummonStep::CheckFocus(_), SummonEvent::FocusChecked(_)) => true,
        (SummonStep::MinimizeActive, SummonEvent::Minimized(_)) => true,
        (SummonStep::FocusWindow(_), SummonEvent::WindowFocused(_)) => true,
        (SummonStep::Forward(_, _), SummonEvent::Forwarded(_)) => true,
        _ => false,
    }
}

/// Whether `r` is the first step of a summon in a session of kind `session`
/// (see `handle_summon`).
pub open spec fn first_summon_step(session: SessionKind, focus_scratchpad: bool, r: SummonStep) -> bool {
    &&& session == SessionKind::X11 ==> r is ListWindows
    &&& session != SessionKind::X11 ==> (r matches SummonStep::Forward(cmds, handled) && cmds@
        == seq![summon_command(focus_scratchpad)] && !handled)
}

/// The first step of a summon: through the window manager on X11, through
/// the IPC socket elsewhere.
pub fn handle_summon(session: SessionKind, focus_scratchpad: bool) -> (r: SummonStep)
    ensures
        first_summon_step(session, focus_scratchpad, r),
{
    match session {
        SessionKind::X11 => crate::platform::x11::summon(focus_scratchpad),
        _ => crate::platform::generic::summon(focus_scratchpad),
    }
}

/// What the step after `step` is, given what it came to (see `summon_next`).
pub open spec fn summon_step_after(
    focus_scratchpad: bool,
    step: SummonStep,
    event: SummonEvent,
    r: SummonStep,
) -> bool {
    match (step, event) {
        (SummonStep::ListWindows, SummonEvent::WindowsListed(out)) => match out {
            Some(o) => match first_window_id(split_on(o@, '\n')) {
                Some(id) => r matches SummonStep::CheckFocus(w) && w@ == id,
                None => r == SummonStep::Finish(SummonOutcome::ContinueStartup),
            },
            None => r == SummonStep::Finish(SummonOutcome::ContinueStartup),
        },
        (SummonStep::CheckFocus(id), SummonEvent::FocusChecked(out)) => if out matches Some(o)
            && is_cosmical_active_class(o@) {
            r is MinimizeActive
        } else {
            r matches SummonStep::FocusWindow(w) && w@ == id@
        },
        (SummonStep::MinimizeActive, SummonEvent::Minimized(ok)) => if ok {
            r == SummonStep::Finish(SummonOutcome::Handled)
        } else {
            r matches SummonStep::Forward(cmds, handled) && cmds@ == seq![
                summon_command(focus_scratchpad),
            ] && !handled
        },
        (SummonStep::FocusWindow(_), SummonEvent::WindowFocused(ok)) => r matches SummonStep::Forward(
            cmds,
            handled,
        ) && cmds@ == show_commands(focus_scratchpad) && handled == ok,
        (SummonStep::Forward(_, handled), SummonEvent::Forwarded(ok)) => r == SummonStep::Finish(
            if handled || ok {
                SummonOutcome::Handled
            } else {
                SummonOutcome::ContinueStartup
            },
        ),
        _ => false,
    }
}

/// The step after `step`, given what it came to. Without a CosmiCal window
/// the process starts up; a focused one is minimized (or, failing that,
/// toggled over the socket); an unfocused one is activated and shown over
/// the socket, and the summon succeeds if either worked.
pub fn summon_next(focus_scratchpad: bool, step: &SummonStep, event: SummonEvent) -> (r: SummonStep)
    requires
        summon_reports(*step, event),
    ensures
        summon_step_after(focus_scratchpad, *step, event, r),
{
    match (step, event) {
        (SummonStep::ListWindows, SummonEvent::WindowsListed(out)) => match out {
            Some(o) => match running_window_id(o.as_str()) {
                Some(id) => SummonStep::CheckFocus(id),
                None => SummonStep::Finish(SummonOutcome::ContinueStartup),
            },
            None => SummonStep::Finish(SummonOutcome::ContinueStartup),
        },
        (SummonStep::CheckFocus(id), SummonEvent::FocusChecked(out)) => {
            let focused = match &out {
                Some(o) => is_cosmical_focused(o.as_str()),
                None => false,
            };
            if focused {
                SummonStep::MinimizeActive
            } else {
                SummonStep::FocusWindow(id.clone())
            }
        },
        (SummonStep::MinimizeActive, SummonEvent::Minimized(ok)) => {
            if ok {
                SummonStep::Finish(SummonOutcome::Handled)
            } else {
                let mut cmds = Vec::new();
                cmds.push(toggle_command(focus_scratchpad));
                assert(cmds@ =~= seq![summon_command(focus_scratchpad)]);
                SummonStep::Forward(cmds, false)
            }
        },
        (SummonStep::FocusWindow(_), SummonEvent::WindowFocused(ok)) => {
            let mut cmds = Vec::new();
            cmds.push(AppCommand::ShowSurface);
            if focus_scratchpad {
                cmds.push(AppCommand::FocusScratchpad);
            } else {
                cmds.push(AppCommand::FocusTodayNote);
            }
            assert(cmds@ =~= show_commands(focus_scratchpad));
            SummonStep::Forward(cmds, ok)
        },
        (SummonStep::Forward(_, handled), SummonEvent::Forwarded(ok)) => {
            if *handled || ok {
                SummonStep::Finish(SummonOutcome::Handled)
            } else {
                SummonStep::Finish(SummonOutcome::ContinueStartup)
            }
        },
        _ => SummonStep::Finish(SummonOutcome::ContinueStartup),
    }
}

/// Whether command `c` is for the focus that was not asked for: the
/// scratchpad's when `--focus-scratchpad` was not given, today's note's when
/// it was.
pub open spec fn for_other_focus(focus_scratchpad: bool, c: AppCommand) -> bool {
    if focus_scratchpad {
        c == AppCommand::FocusTodayNote || c == AppCommand::SummonToggle
    } else {
        c == AppCommand::FocusScratchpad || c == AppCommand::SummonScratchpad
    }
}

/// A summon forwards only commands for the focus that was asked for. Where
/// it starts over the socket, or toggles after minimizing failed, it sends
/// the single summon command of that focus; where it shows an unfocused
/// window, it sends `ShowSurface` and then the focus command of that focus,
/// today's note unless the scratchpad was asked for.
pub proof fn lemma_summon_forwards_the_asked_focus(
    session: SessionKind,
    focus_scratchpad: bool,
    first: SummonStep,
    step: SummonStep,
    event: SummonEvent,
    r: SummonStep,
)
    requires
        first_summon_step(session, focus_scratchpad, first),
        summon_step_after(focus_scratchpad, step, event, r),
    ensures
        first matches SummonStep::Forward(cmds, _) ==> {
            &&& cmds@.len() == 1
            &&& cmds@[0] == (if focus_scratchpad {
                AppCommand::SummonScratchpad
            } else {
                AppCommand::SummonToggle
            })
        },
        r matches SummonStep::Forward(cmds, _) ==> forall|i: int|
            0 <= i < cmds@.len() ==> !for_other_focus(focus_scratchpad, #[trigger] cmds@[i]),
        step is MinimizeActive ==> (r matches SummonStep::Forward(cmds, _) ==> {
            &&& cmds@.len() == 1
            &&& cmds@[0] == (if focus_scratchpad {
                AppCommand::SummonScratchpad
            } else {
                AppCommand::SummonToggle
            })
        }),
        step is FocusWindow ==> (r matches SummonStep::Forward(cmds, _) && {
            &&& cmds@.len() == 2
            &&& cmds@[0] == AppCommand::ShowSurface
            &&& cmds@.last() == (if focus_scratchpad {
                AppCommand::FocusScratchpad
            } else {
                AppCommand::FocusTodayNote
            })
        }),
{
}

} // verus!
