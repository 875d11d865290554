use vstd::prelude::*;
use crate::commands::AppCommand;

verus! {

/// What the command line asks of this process.
pub struct LaunchPlan {
    /// The commands to hand to the running instance, or to run at start.
    pub commands: Vec<AppCommand>,
    /// The window mode to put into `COSMICAL_MODE`, if any.
    pub shell_mode_env: Option<String>,
    /// Whether to summon (toggle) an existing window.
    pub summon: bool,
    /// Whether the scratchpad should get the focus.
    pub focus_scratchpad: bool,
}

/// Whether the argument `flag` is among `args`.
pub open spec fn has_flag(args: Seq<String>, flag: Seq<char>) -> bool {
    exists|i: int| 0 <= i < args.len() && #[trigger] args[i]@ == flag
}

/// The commands that the arguments ask for.
pub open spec fn planned_commands(summon: bool, focus_today: bool, focus_scratchpad: bool) -> Seq<AppCommand> {
    if summon {
        if focus_scratchpad {
            seq![AppCommand::SummonScratchpad]
        } else {
            seq![AppCommand::SummonToggle]
        }
    } else {
        (if focus_today {
            seq![AppCommand::FocusTodayNote]
        } else {
            Seq::<AppCommand>::empty()
        }) + (if focus_scratchpad {
            seq![AppCommand::FocusScratchpad]
        } else {
            Seq::<AppCommand>::empty()
        })
    }
}

fn arg_is(arg: &String, flag: &str) -> (r: bool)
    ensures
        r == (arg@ == flag@),
{
    *arg == String::from_str(flag)
}

impl LaunchPlan {
    /// Reads the command-line arguments (without the program name):
    /// `--summon`, `--focus-today` and `--focus-scratchpad`; others are ignored.
    /// Summoning sends one summon command; otherwise each focus flag adds its
    /// focus command. Any of these selects the `surface` window mode.
    pub fn from_iter(args: Vec<String>) -> (r: LaunchPlan)
        ensures
            ({
                let summon = has_flag(args@, "--summon"@);
                let today = has_flag(args@, "--focus-today"@);
                let scratch = has_flag(args@, "--focus-scratchpad"@);
                &&& r.commands@ == planned_commands(summon, today, scratch)
                &&& r.summon == summon
                &&& r.focus_scratchpad == scratch
                &&& (r.shell_mode_env matches Some(m) ==> m@ == "surface"@)
                &&& (r.shell_mode_env is Some <==> (summon || today || scratch))
            }),
    {
        let mut summon = false;
        let mut focus_today = false;
        let mut focus_scratchpad = false;
        let mut i: usize = 0;
        while i < args.len()
            invariant
                i <= args@.len(),
                summon == exists|j: int| 0 <= j < i && #[trigger] args@[j]@ == "--summon"@,
                focus_today == exists|j: int| 0 <= j < i && #[trigger] args@[j]@ == "--focus-today"@,
                focus_scratchpad == exists|j: int|
                    0 <= j < i && #[trigger] args@[j]@ == "--focus-scratchpad"@,
            decreases args@.len() - i,
        {
            proof {
                reveal_strlit("--summon");
                reveal_strlit("--focus-today");
                reveal_strlit("--focus-scratchpad");
            }
            let arg = &args[i];
            if arg_is(arg, "--summon") {
                summon = true;
            } else if arg_is(arg, "--focus-today") {
                focus_today = true;
            } else if arg_is(arg, "--focus-scratchpad") {
                focus_scratchpad = true;
            }
            proof {
                let a = args@[i as int]@;
                assert(a == arg@);
                assert("--summon"@.len() == 8);
                assert("--focus-today"@.len() == 13);
                assert("--focus-scratchpad"@.len() == 18);
                assert(focus_today == exists|j: int|
                    0 <= j < i + 1 && #[trigger] args@[j]@ == "--focus-today"@) by {
                    if a == "--focus-today"@ {
                        assert(args@[i as int]@ == "--focus-today"@);
                    }
                }
                assert(focus_scratchpad == exists|j: int|
                    0 <= j < i + 1 && #[trigger] args@[j]@ == "--focus-scratchpad"@) by {
                    if a == "--focus-scratchpad"@ {
                        assert(args@[i as int]@ == "--focus-scratchpad"@);
                    }
                }
            }
            i = i + 1;
        }
        let mut commands: Vec<AppCommand> = Vec::new();
        let mut shell_mode_env: Option<String> = None;
        let mut scratch = false;
        if summon {
            shell_mode_env = Some(String::from_str("surface"));
            if focus_scratchpad {
                scratch = true;
                commands.push(AppCommand::SummonScratchpad);
            } else {
                commands.push(AppCommand::SummonToggle);
            }
        } else {
            if focus_today {
                shell_mode_env = Some(String::from_str("surface"));
                commands.push(AppCommand::FocusTodayNote);
            }
            if focus_scratchpad {
                scratch = true;
                shell_mode_env = Some(String::from_str("surface"));
                commands.push(AppCommand::FocusScratchpad);
            }
        }
        assert(commands@ =~= planned_commands(summon, focus_today, focus_scratchpad));
        LaunchPlan { commands, shell_mode_env, summon, focus_scratchpad: scratch }
    }

    /// The commands to send at start-up: the planned ones, or, when there are
    /// none, showing the surface with today's note focused.
    pub fn startup_commands(&self) -> (r: Vec<AppCommand>)
        ensures
            r@ == (if self.commands@.len() == 0 {
                seq![AppCommand::ShowSurface, AppCommand::FocusTodayNote]
            } else {
                self.commands@
            }),
    {
        if self.commands.len() == 0 {
            let mut v: Vec<AppCommand> = Vec::new();
            v.push(AppCommand::ShowSurface);
            v.push(AppCommand::FocusTodayNote);
            assert(v@ =~= seq![AppCommand::ShowSurface, AppCommand::FocusTodayNote]);
            v
        } else {
            let mut v: Vec<AppCommand> = Vec::new();
            let mut i: usize = 0;
            while i < self.commands.len()
                invariant
                    i <= self.commands@.len(),
                    v@ == self.commands@.take(i as int),
                decreases self.commands@.len() - i,
            {
                v.push(self.commands[i]);
                proof {
                    assert(v@ =~= self.commands@.take(i + 1));
                }
                i = i + 1;
            }
            assert(self.commands@.take(i as int) =~= self.commands@);
            v
        }
    }
}

/// What the flags plan. Without `--summon`, today's note is focused exactly
/// when `--focus-today` is given and the scratchpad exactly when
/// `--focus-scratchpad` is, each once, and nothing is summoned; with
/// `--summon`, one summon command is planned and nothing else, the
/// scratchpad's exactly when `--focus-scratchpad` is given.
pub proof fn lemma_planned_commands_follow_the_flags(summon: bool, focus_today: bool, focus_scratchpad: bool)
    ensures
        ({
            let p = planned_commands(summon, focus_today, focus_scratchpad);
            &&& !summon ==> {
                &&& p.contains(AppCommand::FocusTodayNote) == focus_today
                &&& p.contains(AppCommand::FocusScratchpad) == focus_scratchpad
                &&& p.len() == (if focus_today { 1int } else { 0 }) + (if focus_scratchpad {
                    1int
                } else {
                    0
                })
                &&& !p.contains(AppCommand::SummonToggle)
                &&& !p.contains(AppCommand::SummonScratchpad)
            }
            &&& summon ==> {
                &&& p.len() == 1
                &&& p.contains(AppCommand::SummonScratchpad) == focus_scratchpad
                &&& p.contains(AppCommand::SummonToggle) == !focus_scratchpad
            }
        }),
{
    let p = planned_commands(summon, focus_today, focus_scratchpad);
    if !summon {
        if focus_today {
            assert(p[0] == AppCommand::FocusTodayNote);
        }
        if focus_scratchpad {
            assert(p[p.len() - 1] == AppCommand::FocusScratchpad);
        }
    } else {
        assert(p[0] == p[0]);
    }
}

} // verus!
