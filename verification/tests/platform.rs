use cosmi_cal::commands::AppCommand;
use cosmi_cal::platform::summon::{handle_summon, summon_next, SummonEvent, SummonOutcome, SummonStep};
use cosmi_cal::platform::x11::{is_cosmical_focused, matching_window_id, running_window_id};
use cosmi_cal::platform::{session_kind_from_str, SessionKind};

#[test]
fn detects_unknown_when_session_type_is_empty() {
    assert_eq!(session_kind_from_str(""), SessionKind::Unknown);
}

#[test]
fn detects_x11_case_insensitively() {
    assert_eq!(session_kind_from_str("X11"), SessionKind::X11);
}

#[test]
fn detects_wayland() {
    assert_eq!(session_kind_from_str("Wayland"), SessionKind::Wayland);
    assert_eq!(session_kind_from_str(" wayland"), SessionKind::Unknown);
}

#[test]
fn matches_packaged_window_class_from_wmctrl() {
    let line = "0x03a00003  0 host io.github.sixesandsevens.cosmical.CosmiCal CosmiCal";

    assert_eq!(matching_window_id(line).as_deref(), Some("0x03a00003"));
}

#[test]
fn matches_development_window_class_from_wmctrl() {
    let line = "0x03a00003  0 host cosmi-cal.cosmi-cal CosmiCal";

    assert_eq!(matching_window_id(line).as_deref(), Some("0x03a00003"));
}

#[test]
fn ignores_title_only_matches_from_wmctrl() {
    let line = "0x03a00003  0 host org.example.Other io.github.sixesandsevens.cosmical";

    assert_eq!(matching_window_id(line), None);
}

#[test]
fn short_lines_match_nothing() {
    assert_eq!(matching_window_id("0x1 0 host"), None);
    assert_eq!(matching_window_id(""), None);
}

#[test]
fn finds_the_first_cosmical_window_in_wmctrl_output() {
    let output = "0x01  0 host firefox.Firefox Web\n0x02  0 host cosmi-cal.cosmi-cal CosmiCal\r\n0x03  0 host cosmi-cal.cosmi-cal Other\n";
    assert_eq!(running_window_id(output).as_deref(), Some("0x02"));
    assert_eq!(running_window_id("0x01  0 host firefox.Firefox Web\n"), None);
}

#[test]
fn focused_class_compares_trimmed_and_ignoring_ascii_case() {
    assert!(is_cosmical_focused("Cosmi-Cal\n"));
    assert!(is_cosmical_focused("  IO.GITHUB.SIXESANDSEVENS.COSMICAL "));
    assert!(!is_cosmical_focused("cosmi-cal.extra"));
    assert!(!is_cosmical_focused("firefox"));
}

fn finish(step: &SummonStep) -> Option<SummonOutcome> {
    match step {
        SummonStep::Finish(o) => Some(*o),
        _ => None,
    }
}

#[test]
fn generic_summon_forwards_the_toggle_command() {
    let step = handle_summon(SessionKind::Wayland, true);
    match &step {
        SummonStep::Forward(cmds, handled) => {
            assert_eq!(cmds, &vec![AppCommand::SummonScratchpad]);
            assert!(!handled);
        }
        _ => panic!("expected a forward step"),
    }
    let done = summon_next(true, &step, SummonEvent::Forwarded(false));
    assert_eq!(finish(&done), Some(SummonOutcome::ContinueStartup));
    let done = summon_next(true, &step, SummonEvent::Forwarded(true));
    assert_eq!(finish(&done), Some(SummonOutcome::Handled));
}

#[test]
fn x11_summon_minimizes_a_focused_window() {
    let step = handle_summon(SessionKind::X11, false);
    assert!(matches!(step, SummonStep::ListWindows));
    let listing = "0x03a00003  0 host cosmi-cal.cosmi-cal CosmiCal\n".to_string();
    let step = summon_next(false, &step, SummonEvent::WindowsListed(Some(listing)));
    match &step {
        SummonStep::CheckFocus(id) => assert_eq!(id, "0x03a00003"),
        _ => panic!("expected a focus check"),
    }
    let step = summon_next(false, &step, SummonEvent::FocusChecked(Some("cosmi-cal\n".to_string())));
    assert!(matches!(step, SummonStep::MinimizeActive));
    let failed = summon_next(false, &step, SummonEvent::Minimized(false));
    match &failed {
        SummonStep::Forward(cmds, handled) => {
            assert_eq!(cmds, &vec![AppCommand::SummonToggle]);
            assert!(!handled);
        }
        _ => panic!("expected a forward step"),
    }
    let done = summon_next(false, &step, SummonEvent::Minimized(true));
    assert_eq!(finish(&done), Some(SummonOutcome::Handled));
}

#[test]
fn x11_summon_shows_an_unfocused_window() {
    let step = SummonStep::CheckFocus("0x1".to_string());
    let step = summon_next(true, &step, SummonEvent::FocusChecked(Some("firefox".to_string())));
    match &step {
        SummonStep::FocusWindow(id) => assert_eq!(id, "0x1"),
        _ => panic!("expected focusing the window"),
    }
    let step = summon_next(true, &step, SummonEvent::WindowFocused(true));
    match &step {
        SummonStep::Forward(cmds, handled) => {
            assert_eq!(cmds, &vec![AppCommand::ShowSurface, AppCommand::FocusScratchpad]);
            assert!(*handled);
        }
        _ => panic!("expected a forward step"),
    }
    let done = summon_next(true, &step, SummonEvent::Forwarded(false));
    assert_eq!(finish(&done), Some(SummonOutcome::Handled));
}

#[test]
fn x11_summon_without_a_window_starts_up() {
    let step = SummonStep::ListWindows;
    let done = summon_next(false, &step, SummonEvent::WindowsListed(None));
    assert_eq!(finish(&done), Some(SummonOutcome::ContinueStartup));
    let done = summon_next(false, &step, SummonEvent::WindowsListed(Some(String::new())));
    assert_eq!(finish(&done), Some(SummonOutcome::ContinueStartup));
}
