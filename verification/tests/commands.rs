use cosmi_cal::commands::AppCommand;
use cosmi_cal::ipc::{
    encode_commands, forward_commands, forward_next, prepare_startup, ForwardStep, StartupAction,
    StartupEvent, StartupStep,
};

const ALL: [AppCommand; 6] = [
    AppCommand::SummonToggle,
    AppCommand::SummonScratchpad,
    AppCommand::ShowSurface,
    AppCommand::DismissSurface,
    AppCommand::FocusTodayNote,
    AppCommand::FocusScratchpad,
];

#[test]
fn wire_names_read_back() {
    for c in ALL {
        assert_eq!(AppCommand::from_wire(c.as_wire()), Some(c));
        assert_eq!(AppCommand::from_wire(&format!("  {}\r\n", c.as_wire())), Some(c));
    }
    assert_eq!(AppCommand::ShowSurface.as_wire(), "show_surface");
    assert_eq!(AppCommand::from_wire("focus_today_note"), Some(AppCommand::FocusTodayNote));
    assert_eq!(AppCommand::from_wire("Show_Surface"), None);
    assert_eq!(AppCommand::from_wire(""), None);
    assert_eq!(AppCommand::from_wire("show surface"), None);
}

#[test]
fn forwarded_commands_are_one_per_line() {
    let text = encode_commands(&vec![AppCommand::ShowSurface, AppCommand::FocusScratchpad]);
    assert_eq!(text, "show_surface\nfocus_scratchpad\n");
    let back: Vec<AppCommand> = text.lines().filter_map(AppCommand::from_wire).collect();
    assert_eq!(back, vec![AppCommand::ShowSurface, AppCommand::FocusScratchpad]);
    assert_eq!(encode_commands(&Vec::new()), "");
}

#[test]
fn startup_without_socket_starts_primary() {
    let (check, step) = prepare_startup(&vec![AppCommand::SummonToggle], "/run/x.sock".to_string());
    assert!(matches!(step, StartupStep::CheckSocket));
    let done = check.next(&step, StartupEvent::SocketChecked(false));
    assert!(matches!(done, StartupStep::Finish(Ok(StartupAction::StartPrimary))));
}

#[test]
fn startup_forwards_to_a_live_socket() {
    let (check, step) = prepare_startup(&vec![AppCommand::SummonToggle], "/run/x.sock".to_string());
    let step = check.next(&step, StartupEvent::SocketChecked(true));
    assert!(matches!(step, StartupStep::Connect));
    let step = check.next(&step, StartupEvent::Connected(Ok(())));
    match &step {
        StartupStep::Send(text) => assert_eq!(text, "summon_toggle\n"),
        _ => panic!("expected sending"),
    }
    let done = check.next(&step, StartupEvent::Sent(Ok(())));
    assert!(matches!(done, StartupStep::Finish(Ok(StartupAction::ForwardedToPrimary))));
    let failed = check.next(&step, StartupEvent::Sent(Err("broken pipe".to_string())));
    match failed {
        StartupStep::Finish(Err(e)) => assert_eq!(e, "broken pipe"),
        _ => panic!("expected an error"),
    }
}

#[test]
fn startup_removes_a_stale_socket() {
    let (check, step) = prepare_startup(&vec![AppCommand::ShowSurface], "/run/x.sock".to_string());
    let step = check.next(&step, StartupEvent::SocketChecked(true));
    let step = check.next(&step, StartupEvent::Connected(Err("refused".to_string())));
    assert!(matches!(&step, StartupStep::RemoveStale(e) if e == "refused"));
    let done = check.next(&step, StartupEvent::Removed(Ok(())));
    assert!(matches!(done, StartupStep::Finish(Ok(StartupAction::StartPrimary))));
    let failed = check.next(&step, StartupEvent::Removed(Err("denied".to_string())));
    match failed {
        StartupStep::Finish(Err(e)) => assert_eq!(
            e,
            "failed to remove stale socket /run/x.sock after connect error (refused): denied"
        ),
        _ => panic!("expected an error"),
    }
}

#[test]
fn forwarding_stops_at_the_first_error() {
    let (message, step) = forward_commands(&vec![AppCommand::ShowSurface, AppCommand::FocusScratchpad]);
    assert_eq!(message, "show_surface\nfocus_scratchpad\n");
    assert!(matches!(step, ForwardStep::Connect));
    let refused = forward_next(&message, &step, Err("no socket".to_string()));
    assert!(matches!(&refused, ForwardStep::Finish(Err(e)) if e == "no socket"));
    let send = forward_next(&message, &step, Ok(()));
    assert!(matches!(&send, ForwardStep::Send(t) if *t == message));
    assert!(matches!(forward_next(&message, &send, Ok(())), ForwardStep::Finish(Ok(()))));
}

use cosmi_cal::ipc::{listen_next, ListenEvent, ListenStep};

#[test]
fn listening_leaves_a_live_socket_alone() {
    let step = listen_next("/run/x.sock", &ListenStep::CreateDir, ListenEvent::DirCreated(Ok(())));
    assert!(matches!(step, ListenStep::CheckSocket));
    let step = listen_next("/run/x.sock", &step, ListenEvent::SocketChecked(true));
    assert!(matches!(step, ListenStep::Probe));
    let busy = listen_next("/run/x.sock", &step, ListenEvent::Probed(true));
    assert!(matches!(&busy, ListenStep::Finish(Err(e)) if e == "socket /run/x.sock is already in use by another instance"));
    let stale = listen_next("/run/x.sock", &step, ListenEvent::Probed(false));
    assert!(matches!(stale, ListenStep::RemoveStale));
    let failed = listen_next("/run/x.sock", &stale, ListenEvent::Removed(Err("denied".to_string())));
    assert!(matches!(&failed, ListenStep::Finish(Err(e)) if e == "failed to remove stale socket /run/x.sock: denied"));
    let bind = listen_next("/run/x.sock", &stale, ListenEvent::Removed(Ok(())));
    assert!(matches!(bind, ListenStep::Bind));
    assert!(matches!(listen_next("/run/x.sock", &bind, ListenEvent::Bound(Ok(()))), ListenStep::Finish(Ok(()))));
    let fresh = listen_next("/run/x.sock", &ListenStep::CheckSocket, ListenEvent::SocketChecked(false));
    assert!(matches!(fresh, ListenStep::Bind));
}
