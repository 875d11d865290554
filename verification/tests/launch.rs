use cosmi_cal::commands::AppCommand;
use cosmi_cal::launch::LaunchPlan;

fn launch_plan_from(args: &[&str]) -> LaunchPlan {
    LaunchPlan::from_iter(args.iter().skip(1).map(|s| s.to_string()).collect())
}

#[test]
fn summon_scratchpad_uses_toggle_command() {
    let plan = launch_plan_from(&["cosmi-cal", "--summon", "--focus-scratchpad"]);

    assert_eq!(plan.shell_mode_env.as_deref(), Some("surface"));
    assert_eq!(plan.commands, vec![AppCommand::SummonScratchpad]);
}

#[test]
fn summon_uses_toggle_command() {
    let plan = launch_plan_from(&["cosmi-cal", "--summon"]);

    assert_eq!(plan.shell_mode_env.as_deref(), Some("surface"));
    assert_eq!(plan.commands, vec![AppCommand::SummonToggle]);
}

#[test]
fn plain_scratchpad_focus_uses_surface_mode() {
    let plan = launch_plan_from(&["cosmi-cal", "--focus-scratchpad"]);

    assert_eq!(plan.shell_mode_env.as_deref(), Some("surface"));
    assert_eq!(plan.commands, vec![AppCommand::FocusScratchpad]);
}

#[test]
fn no_flags_plan_nothing_and_start_with_the_surface() {
    let plan = launch_plan_from(&["cosmi-cal", "--unknown"]);
    assert_eq!(plan.shell_mode_env, None);
    assert!(plan.commands.is_empty());
    assert!(!plan.summon);
    assert!(!plan.focus_scratchpad);
    assert_eq!(
        plan.startup_commands(),
        vec![AppCommand::ShowSurface, AppCommand::FocusTodayNote]
    );
}

#[test]
fn both_focus_flags_give_both_commands_in_order() {
    let plan = launch_plan_from(&["cosmi-cal", "--focus-scratchpad", "--focus-today"]);
    assert_eq!(plan.shell_mode_env.as_deref(), Some("surface"));
    assert_eq!(
        plan.commands,
        vec![AppCommand::FocusTodayNote, AppCommand::FocusScratchpad]
    );
    assert!(plan.focus_scratchpad);
    assert_eq!(plan.startup_commands(), plan.commands);
}

#[test]
fn summon_ignores_focus_today() {
    let plan = launch_plan_from(&["cosmi-cal", "--focus-today", "--summon"]);
    assert!(plan.summon);
    assert!(!plan.focus_scratchpad);
    assert_eq!(plan.commands, vec![AppCommand::SummonToggle]);
}
