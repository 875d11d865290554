use vstd::prelude::*;
use crate::commands::{command_named, lemma_wire_round_trip, wire_name, AppCommand};
use crate::text::{field_len, lemma_field_len, split_on, trimmed};

verus! {

/// How start-up goes on after checking for a running instance.
#[derive(Debug, Clone, Copy, PartialEq, Eq, Structural)]
pub enum StartupAction {
    /// No instance runs: this process becomes the primary one.
    StartPrimary,
    /// The commands went to the running instance: this process is done.
    ForwardedToPrimary,
}

/// The text that carries `commands` over the socket: each wire name on a line.
pub open spec fn wire_text(commands: Seq<AppCommand>) -> Seq<char>
    decreases commands.len(),
{
    if commands.len() == 0 {
        Seq::empty()
    } else {
        wire_name(commands[0]) + seq!['\n'] + wire_text(commands.drop_first())
    }
}

/// Adding a command adds its line at the end of the text.
pub proof fn lemma_wire_text_push(commands: Seq<AppCommand>, c: AppCommand)
    ensures
        wire_text(commands.push(c)) == wire_text(commands) + wire_name(c) + seq!['\n'],
    decreases commands.len(),
{
    if commands.len() == 0 {
        assert(commands.push(c).drop_first() =~= Seq::<AppCommand>::empty());
        assert(commands.push(c)[0] == c);
        assert(wire_text(commands.push(c).drop_first()) =~= Seq::<char>::empty());
        assert(wire_text(commands) =~= Seq::<char>::empty());
        assert(wire_text(commands.push(c)) =~= wire_text(commands) + wire_name(c) + seq!['\n']);
    } else {
        lemma_wire_text_push(commands.drop_first(), c);
        assert(commands.push(c).drop_first() =~= commands.drop_first().push(c));
        assert(commands.push(c)[0] == commands[0]);
        assert(wire_text(commands.push(c)) =~= wire_text(commands) + wire_name(c) + seq!['\n']);
    }
}

/// No wire name holds a line break.
pub proof fn lemma_wire_name_one_line(c: AppCommand)
    ensures
        forall|i: int| 0 <= i < wire_name(c).len() ==> #[trigger] wire_name(c)[i] != '\n',
        wire_name(c).len() > 0,
{
    reveal_strlit("summon_toggle");
    reveal_strlit("summon_scratchpad");
    reveal_strlit("show_surface");
    reveal_strlit("dismiss_surface");
    reveal_strlit("focus_today_note");
    reveal_strlit("focus_scratchpad");
}

/// What goes over the socket is read back line by line as the same
/// commands: its lines are the wire names in order, then an empty rest, and
/// each line reads back as its command.
pub proof fn lemma_wire_text_reads_back(commands: Seq<AppCommand>)
    ensures
        split_on(wire_text(commands), '\n').len() == commands.len() + 1,
        forall|i: int|
            0 <= i < commands.len() ==> command_named(
                trimmed(#[trigger] split_on(wire_text(commands), '\n')[i]),
            ) == Some(commands[i]),
        split_on(wire_text(commands), '\n')[commands.len() as int].len() == 0,
    decreases commands.len(),
{
    let t = wire_text(commands);
    if commands.len() == 0 {
        assert(field_len(t, '\n') == 0);
        assert(split_on(t, '\n') =~= seq![t]);
    } else {
        let c = commands[0];
        let rest = commands.drop_first();
        lemma_wire_text_reads_back(rest);
        lemma_wire_name_one_line(c);
        lemma_wire_round_trip(c);
        let w = wire_name(c);
        assert(t == w + seq!['\n'] + wire_text(rest));
        assert forall|j: int| 0 <= j < w.len() implies #[trigger] t[j] != '\n' by {
            assert(t[j] == w[j]);
        }
        lemma_field_len(t, '\n', w.len() as int);
        assert(t.take(w.len() as int) =~= w);
        assert(t.skip(w.len() + 1 as int) =~= wire_text(rest));
        let parts = split_on(t, '\n');
        assert(parts == seq![w] + split_on(wire_text(rest), '\n'));
        assert forall|i: int| 0 <= i < commands.len() implies command_named(
            trimmed(#[trigger] split_on(wire_text(commands), '\n')[i]),
        ) == Some(commands[i]) by {
            if i > 0 {
                assert(parts[i] == split_on(wire_text(rest), '\n')[i - 1]);
                assert(commands[i] == rest[i - 1]);
            }
        }
    }
}

/// The text that carries `commands` over the socket.
pub fn encode_commands(commands: &Vec<AppCommand>) -> (r: String)
    ensures
        r@ == wire_text(commands@),
{
    let mut s = String::new();
    let mut i: usize = 0;
    proof {
        reveal_strlit("\n");
    }
    assert(commands@.take(0) =~= Seq::<AppCommand>::empty());
    while i < commands.len()
        invariant
            i <= commands@.len(),
            s@ == wire_text(commands@.take(i as int)),
            "\n"@ == seq!['\n'],
        decreases commands@.len() - i,
    {
        s.append(commands[i].as_wire());
        s.append("\n");
        proof {
            lemma_wire_text_push(commands@.take(i as int), commands@[i as int]);
            assert(commands@.take(i as int).push(commands@[i as int]) =~= commands@.take(i + 1));
        }
        i = i + 1;
    }
    assert(commands@.take(i as int) =~= commands@);
    s
}

/// What the process has to do next while checking for a running instance.
pub enum StartupStep {
    /// Find out whether the socket file exists.
    CheckSocket,
    /// Connect to the socket.
    Connect,
    /// Write this text to the connection.
    Send(String),
    /// Remove the socket file, which no instance serves; the text is the
    /// error that connecting gave.
    RemoveStale(String),
    /// The check is over.
    Finish(Result<StartupAction, String>),
}

/// What came of the last step.
pub enum StartupEvent {
    /// Whether the socket file exists.
    SocketChecked(bool),
    /// Connecting worked, or failed with this error.
    Connected(Result<(), String>),
    /// Writing worked, or failed with this error.
    Sent(Result<(), String>),
    /// Removing the file worked (or it was gone), or failed with this error.
    Removed(Result<(), String>),
}

/// A check for a running instance at a socket, with the commands to hand it.
pub struct StartupCheck {
    /// How the socket's path reads in messages.
    pub socket_path: String,
    /// The text of the commands.
    pub message: String,
}

/// The message when a stale socket file cannot be removed.
pub open spec fn stale_removal_error(path: Seq<char>, connect_error: Seq<char>, remove_error: Seq<char>) -> Seq<char> {
    "failed to remove stale socket "@ + path + " after connect error ("@ + connect_error + "): "@
        + remove_error
}

/// Whether `event` is what step `step` reports.
pub open spec fn reports(step: StartupStep, event: StartupEvent) -> bool {
    match (step, event) {
        (StartupStep::CheckSocket, StartupEvent::SocketChecked(_)) => true,
        (StartupStep::Connect, StartupEvent::Connected(_)) => true,
        (StartupStep::Send(_), StartupEvent::Sent(_)) => true,
        (StartupStep::RemoveStale(_), StartupEvent::Removed(_)) => true,
        _ => false,
    }
}

/// Starts the check for a running instance at `socket_path`, to which
/// `commands` go if it runs. The first step is `CheckSocket`.
pub fn prepare_startup(commands: &Vec<AppCommand>, socket_path: String) -> (r: (StartupCheck, StartupStep))
    ensures
        r.0.message@ == wire_text(commands@),
        r.0.socket_path@ == socket_path@,
        r.1 is CheckSocket,
{
    (StartupCheck { socket_path, message: encode_commands(commands) }, StartupStep::CheckSocket)
}

impl StartupCheck {
    /// The step after `step`, given what it came to. A missing socket means
    /// no instance runs; a socket that accepts gets the commands; one that
    /// refuses is stale and is removed before this process starts.
    pub fn next(&self, step: &StartupStep, event: StartupEvent) -> (r: StartupStep)
        requires
            reports(*step, event),
        ensures
            match (*step, event) {
                (StartupStep::CheckSocket, StartupEvent::SocketChecked(exists)) => if exists {
                    r is Connect
                } else {
                    r == StartupStep::Finish(Ok(StartupAction::StartPrimary))
                },
                (StartupStep::Connect, StartupEvent::Connected(res)) => match res {
                    Ok(_) => r matches StartupStep::Send(text) && text@ == self.message@,
                    Err(e) => r matches StartupStep::RemoveStale(text) && text@ == e@,
                },
                (StartupStep::Send(_), StartupEvent::Sent(res)) => match res {
                    Ok(_) => r == StartupStep::Finish(Ok(StartupAction::ForwardedToPrimary)),
                    Err(e) => r matches StartupStep::Finish(Err(text)) && text@ == e@,
                },
                (StartupStep::RemoveStale(connect_error), StartupEvent::Removed(res)) => match res {
                    Ok(_) => r == StartupStep::Finish(Ok(StartupAction::StartPrimary)),
                    Err(e) => r matches StartupStep::Finish(Err(text)) && text@ == stale_removal_error(
                        self.socket_path@,
                        connect_error@,
                        e@,
                    ),
                },
                _ => false,
            },
    {
        match (step, event) {
            (StartupStep::CheckSocket, StartupEvent::SocketChecked(exists)) => {
                if exists {
                    StartupStep::Connect
                } else {
                    StartupStep::Finish(Ok(StartupAction::StartPrimary))
                }
            },
            (StartupStep::Connect, StartupEvent::Connected(res)) => match res {
                Ok(_) => StartupStep::Send(self.message.clone()),
                Err(e) => StartupStep::RemoveStale(e),
            },
            (StartupStep::Send(_), StartupEvent::Sent(res)) => match res {
                Ok(_) => StartupStep::Finish(Ok(StartupAction::ForwardedToPrimary)),
                Err(e) => StartupStep::Finish(Err(e)),
            },
            (StartupStep::RemoveStale(connect_error), StartupEvent::Removed(res)) => match res {
                Ok(_) => StartupStep::Finish(Ok(StartupAction::StartPrimary)),
                Err(e) => {
                    let mut text = String::from_str("failed to remove stale socket ");
                    text.append(self.socket_path.as_str());
                    text.append(" after connect error (");
                    text.append(connect_error.as_str());
                    text.append("): ");
                    text.append(e.as_str());
                    StartupStep::Finish(Err(text))
                },
            },
            _ => StartupStep::Finish(Ok(StartupAction::StartPrimary)),
        }
    }
}

/// What the process has to do next while handing commands to the running instance.
pub enum ForwardStep {
    /// Connect to the socket.
    Connect,
    /// Write this text to the connection.
    Send(String),
    /// Done: the commands went out, or this error stopped them.
    Finish(Result<(), String>),
}

/// Starts handing `commands` to the running instance; the first step is `Connect`.
pub fn forward_commands(commands: &Vec<AppCommand>) -> (r: (String, ForwardStep))
    ensures
        r.0@ == wire_text(commands@),
        r.1 is Connect,
{
    (encode_commands(commands), ForwardStep::Connect)
}

/// The step after `step` when handing over `message`: a failed connection or
/// write ends with its error, a write that worked ends well.
pub fn forward_next(message: &String, step: &ForwardStep, result: Result<(), String>) -> (r: ForwardStep)
    requires
        !(step is Finish),
    ensures
        match (*step, result) {
            (ForwardStep::Connect, Ok(_)) => r matches ForwardStep::Send(t) && t@ == message@,
            (_, Err(e)) => r matches ForwardStep::Finish(Err(t)) && t@ == e@,
            (_, Ok(_)) => r == ForwardStep::Finish(Ok(())),
        },
{
    match result {
        Err(e) => ForwardStep::Finish(Err(e)),
        Ok(_) => match step {
            ForwardStep::Connect => ForwardStep::Send(message.clone()),
            _ => ForwardStep::Finish(Ok(())),
        },
    }
}


/// What the primary instance has to do next to listen on its socket.
pub enum ListenStep {
    /// Create the directory that holds the socket.
    CreateDir,
    /// Find out whether the socket file exists.
    CheckSocket,
    /// Try to connect to the existing socket.
    Probe,
    /// Remove the socket file, which no instance serves.
    RemoveStale,
    /// Bind a listener to the socket path.
    Bind,
    /// Done: listening, or this error stopped it.
    Finish(Result<(), String>),
}

/// What came of the last listening step.
pub enum ListenEvent {
    /// Creating the directory worked, or failed with this error.
    DirCreated(Result<(), String>),
    /// Whether the socket file exists.
    SocketChecked(bool),
    /// Whether connecting to the existing socket worked.
    Probed(bool),
    /// Removing the file worked (or it was gone), or failed with this error.
    Removed(Result<(), String>),
    /// Binding worked, or failed with this error.
    Bound(Result<(), String>),
}

/// Whether `event` is what listening step `step` reports.
pub open spec fn listen_reports(step: ListenStep, event: ListenEvent) -> bool {
    match (step, event) {
        (ListenStep::CreateDir, ListenEvent::DirCreated(_)) => true,
        (ListenStep::CheckSocket, ListenEvent::SocketChecked(_)) => true,
        (ListenStep::Probe, ListenEvent::Probed(_)) => true,
        (ListenStep::RemoveStale, ListenEvent::Removed(_)) => true,
        (ListenStep::Bind, ListenEvent::Bound(_)) => true,
        _ => false,
    }
}

/// The listening step after `step` for the socket at `socket_path` (as it
/// reads in messages). A socket that another instance serves is left alone
/// and reported; a stale one is removed before binding.
pub fn listen_next(socket_path: &str, step: &ListenStep, event: ListenEvent) -> (r: ListenStep)
    requires
        listen_reports(*step, event),
    ensures
        match (*step, event) {
            (ListenStep::CreateDir, ListenEvent::DirCreated(res)) => match res {
                Ok(_) => r is CheckSocket,
                Err(e) => r matches ListenStep::Finish(Err(t)) && t@ == e@,
            },
            (ListenStep::CheckSocket, ListenEvent::SocketChecked(exists)) => if exists {
                r is Probe
            } else {
                r is Bind
            },
            (ListenStep::Probe, ListenEvent::Probed(connected)) => if connected {
                r matches ListenStep::Finish(Err(t)) && t@ == "socket "@ + socket_path@
                    + " is already in use by another instance"@
            } else {
                r is RemoveStale
            },
            (ListenStep::RemoveStale, ListenEvent::Removed(res)) => match res {
                Ok(_) => r is Bind,
                Err(e) => r matches ListenStep::Finish(Err(t)) && t@ == "failed to remove stale socket "@
                    + socket_path@ + ": "@ + e@,
            },
            (ListenStep::Bind, ListenEvent::Bound(res)) => match res {
                Ok(_) => r == ListenStep::Finish(Ok(())),
                Err(e) => r matches ListenStep::Finish(Err(t)) && t@ == e@,
            },
            _ => false,
        },
{
    match (step, event) {
        (ListenStep::CreateDir, ListenEvent::DirCreated(res)) => match res {
            Ok(_) => ListenStep::CheckSocket,
            Err(e) => ListenStep::Finish(Err(e)),
        },
        (ListenStep::CheckSocket, ListenEvent::SocketChecked(exists)) => {
            if exists {
                ListenStep::Probe
            } else {
                ListenStep::Bind
            }
        },
        (ListenStep::Probe, ListenEvent::Probed(connected)) => {
            if connected {
                let mut t = String::from_str("socket ");
                t.append(socket_path);
                t.append(" is already in use by another instance");
                ListenStep::Finish(Err(t))
            } else {
                ListenStep::RemoveStale
            }
        },
        (ListenStep::RemoveStale, ListenEvent::Removed(res)) => match res {
            Ok(_) => ListenStep::Bind,
            Err(e) => {
                let mut t = String::from_str("failed to remove stale socket ");
                t.append(socket_path);
                t.append(": ");
                t.append(e.as_str());
                ListenStep::Finish(Err(t))
            },
        },
        (ListenStep::Bind, ListenEvent::Bound(res)) => match res {
            Ok(_) => ListenStep::Finish(Ok(())),
            Err(e) => ListenStep::Finish(Err(e)),
        },
        _ => ListenStep::Finish(Ok(())),
    }
}

} // verus!
