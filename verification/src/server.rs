//! The daemon's side of one conversation, as a state machine: each step
//! takes what the client sent (or what the caller found out) and gives the
//! next state and what to do: bytes or text to send, what to read next, the
//! machine facts to look up, the script files to change, the command to run.
//! The caller does the reading, writing and running.
use crate::command::{
    parse_user_command, user_commands, CommandContext, CommandView, WCommand, WLocation,
};
use crate::env::Vars;
use crate::parser::{parse_command_spec, parse_command_str, WKeyword};
use crate::protocol::{
    choose_command, confirmation_process, format_status, greeting, greeting_bytes, location_byte,
    location_byte_of, location_for, location_from_flag, picks, presence_check,
    receive_location_flag, send_command_location, status_line, CommandResponse, ProtocolError,
};
use crate::script::{
    action_views, file_actions_upto, found, script_actions, script_file_actions, script_paths,
    FileAction, ScriptAction,
};
use crate::text::{chars_of, concat3, starts_with, string_of, trim, trim_chars};
use vstd::prelude::*;

verus! {

/// What the daemon reads next from the client.
#[derive(Clone, Copy, Debug, PartialEq, Eq, Structural)]
pub enum Input {
    /// The four greeting bytes.
    Greeting,
    /// One presence byte.
    Presence,
    /// The command line, up to its newline.
    Line,
    /// The location flag byte.
    Flag,
    /// The byte of the user's choice.
    Choice,
}

/// Where the daemon stands in a conversation.
pub enum ServerState {
    AwaitGreeting,
    AwaitPresence,
    AwaitCommand,
    AwaitFlag { command: String },
    Inspecting { command: String, preferred: WLocation },
    ChangingScripts {
        command: String,
        preferred: WLocation,
        config_root: String,
        scripts_exist: Vec<bool>,
        in_path: bool,
    },
    AwaitChoice { commands: Vec<WCommand>, preferred: WLocation },
    AwaitLocationPresence { command: WCommand, preferred: WLocation },
    AwaitExit,
    AwaitStatusPresence { code: i32 },
    Done,
}

/// What the daemon received or found out.
pub enum ServerEvent {
    /// The first four bytes the client sent.
    Greeting(Vec<u8>),
    /// A presence byte.
    Presence(u8),
    /// The command line as read (with its newline).
    Line(String),
    /// The location flag byte.
    Flag(u8),
    /// What the machine says for the command line (see `CommandContext`).
    Machine { config_root: String, scripts_exist: Vec<bool>, in_path: bool },
    /// Which of the asked script file changes were carried out.
    ScriptsChanged(Vec<bool>),
    /// The byte of the user's choice.
    Choice(u8),
    /// The exit code of the command the daemon ran.
    Exited(i32),
}

/// What the daemon does.
pub enum ServerAction {
    /// Send these bytes.
    SendBytes(Vec<u8>),
    /// Send this text.
    SendText(String),
    /// Read this from the client, then step with it.
    Receive(Input),
    /// Look up the machine facts for this command line, then step with
    /// `ServerEvent::Machine`.
    Inspect(String),
    /// Carry out these script file changes, then step with
    /// `ServerEvent::ScriptsChanged`.
    ChangeScripts(Vec<ScriptAction>),
    /// Run this command, then step with `ServerEvent::Exited`.
    Run(WCommand),
    /// The conversation is over, normally (`None`) or because the client
    /// broke it.
    End(Option<ProtocolError>),
}

/// The abstract content of a state.
pub enum StateView {
    AwaitGreeting,
    AwaitPresence,
    AwaitCommand,
    AwaitFlag { command: Seq<char> },
    Inspecting { command: Seq<char>, preferred: WLocation },
    ChangingScripts {
        command: Seq<char>,
        preferred: WLocation,
        config_root: Seq<char>,
        scripts_exist: Seq<bool>,
        in_path: bool,
    },
    AwaitChoice { commands: Seq<CommandView>, preferred: WLocation },
    AwaitLocationPresence { command: CommandView, preferred: WLocation },
    AwaitExit,
    AwaitStatusPresence { code: i32 },
    Done,
}

/// The abstract content of an event.
pub enum EventView {
    Greeting(Seq<u8>),
    Presence(u8),
    Line(Seq<char>),
    Flag(u8),
    Machine { config_root: Seq<char>, scripts_exist: Seq<bool>, in_path: bool },
    ScriptsChanged(Seq<bool>),
    Choice(u8),
    Exited(i32),
}

/// The abstract content of an action.
pub enum ActionView {
    SendBytes(Seq<u8>),
    SendText(Seq<char>),
    Receive(Input),
    Inspect(Seq<char>),
    ChangeScripts(Seq<(FileAction, Seq<char>)>),
    Run(CommandView),
    End(Option<ProtocolError>),
}

impl View for ServerState {
    type V = StateView;

    open spec fn view(&self) -> StateView {
        match self {
            ServerState::AwaitGreeting => StateView::AwaitGreeting,
            ServerState::AwaitPresence => StateView::AwaitPresence,
            ServerState::AwaitCommand => StateView::AwaitCommand,
            ServerState::AwaitFlag { command } => StateView::AwaitFlag { command: command@ },
            ServerState::Inspecting { command, preferred } => StateView::Inspecting {
                command: command@,
                preferred: *preferred,
            },
            ServerState::ChangingScripts {
                command,
                preferred,
                config_root,
                scripts_exist,
                in_path,
            } => StateView::ChangingScripts {
                command: command@,
                preferred: *preferred,
                config_root: config_root@,
                scripts_exist: scripts_exist@,
                in_path: *in_path,
            },
            ServerState::AwaitChoice { commands, preferred } => StateView::AwaitChoice {
                commands: crate::command::views(commands@),
                preferred: *preferred,
            },
            ServerState::AwaitLocationPresence { command, preferred } =>
                StateView::AwaitLocationPresence { command: command@, preferred: *preferred },
            ServerState::AwaitExit => StateView::AwaitExit,
            ServerState::AwaitStatusPresence { code } => StateView::AwaitStatusPresence {
                code: *code,
            },
            ServerState::Done => StateView::Done,
        }
    }
}

impl View for ServerEvent {
    type V = EventView;

    open spec fn view(&self) -> EventView {
        match self {
            ServerEvent::Greeting(b) => EventView::Greeting(b@),
            ServerEvent::Presence(p) => EventView::Presence(*p),
            ServerEvent::Line(s) => EventView::Line(s@),
            ServerEvent::Flag(f) => EventView::Flag(*f),
            ServerEvent::Machine { config_root, scripts_exist, in_path } => EventView::Machine {
                config_root: config_root@,
                scripts_exist: scripts_exist@,
                in_path: *in_path,
            },
            ServerEvent::ScriptsChanged(d) => EventView::ScriptsChanged(d@),
            ServerEvent::Choice(c) => EventView::Choice(*c),
            ServerEvent::Exited(c) => EventView::Exited(*c),
        }
    }
}

impl View for ServerAction {
    type V = ActionView;

    open spec fn view(&self) -> ActionView {
        match self {
            ServerAction::SendBytes(b) => ActionView::SendBytes(b@),
            ServerAction::SendText(s) => ActionView::SendText(s@),
            ServerAction::Receive(i) => ActionView::Receive(*i),
            ServerAction::Inspect(s) => ActionView::Inspect(s@),
            ServerAction::ChangeScripts(a) => ActionView::ChangeScripts(action_views(a@)),
            ServerAction::Run(c) => ActionView::Run(c@),
            ServerAction::End(e) => ActionView::End(*e),
        }
    }
}

/// The views of a list of actions.
pub open spec fn action_list_view(a: Seq<ServerAction>) -> Seq<ActionView> {
    a.map_values(|x: ServerAction| x@)
}

/// The line that carries a command to the client: the command line, then
/// its description, each ended by a newline.
pub open spec fn command_text(c: CommandView) -> Seq<char> {
    c.command + "\n"@ + c.desc + "\n"@
}

/// The line that tells the client which command the daemon runs.
pub open spec fn executing_text(c: CommandView) -> Seq<char> {
    "executing \""@ + c.command + "\"\n"@
}

/// The description lines of the offered commands.
pub open spec fn description_actions(cs: Seq<CommandView>) -> Seq<ActionView> {
    cs.map_values(|c: CommandView| ActionView::SendText(c.desc + "\n"@))
}

/// What the daemon does once it knows the commands that the line means:
/// with one, it says so and waits for the presence byte that comes before
/// the location; with several, it sends their number (modulo 256) and
/// descriptions and waits for the choice; with none, it answers 255 and
/// ends.
pub open spec fn answer_commands(cs: Seq<CommandView>, preferred: WLocation) -> (StateView, Seq<ActionView>) {
    if cs.len() == 1 {
        (
            StateView::AwaitLocationPresence { command: cs[0], preferred },
            seq![ActionView::SendBytes(seq![1u8]), ActionView::Receive(Input::Presence)],
        )
    } else if cs.len() > 1 {
        (
            StateView::AwaitChoice { commands: cs, preferred },
            seq![
                ActionView::SendBytes(seq![2u8]),
                ActionView::SendBytes(seq![(cs.len() % 256) as u8]),
            ] + description_actions(cs) + seq![ActionView::Receive(Input::Choice)],
        )
    } else {
        (StateView::Done, seq![ActionView::SendBytes(seq![255u8]), ActionView::End(None)])
    }
}

/// What the daemon does with the presence byte before the location: it
/// answers it, sends the location byte, and then either sends the command
/// to the client and ends, or says what it runs and runs it; a command that
/// cannot run where the client asked ends the conversation with that error.
pub open spec fn answer_location(c: CommandView, preferred: WLocation) -> (StateView, Seq<ActionView>) {
    let loc = location_for(c.loc, preferred);
    let head = seq![
        ActionView::SendBytes(seq![1u8]),
        ActionView::SendBytes(seq![location_byte_of(loc)]),
    ];
    match loc {
        Ok(WLocation::Client) => (
            StateView::Done,
            head + seq![ActionView::SendText(command_text(c)), ActionView::End(None)],
        ),
        Ok(_) => (
            StateView::AwaitExit,
            head + seq![ActionView::SendText(executing_text(c)), ActionView::Run(c)],
        ),
        Err(e) => (StateView::Done, head + seq![ActionView::End(Some(e))]),
    }
}

/// The end of a conversation broken by the client.
pub open spec fn broken(e: ProtocolError) -> (StateView, Seq<ActionView>) {
    (StateView::Done, seq![ActionView::End(Some(e))])
}

/// One step of the daemon: from a state and what it received or found out,
/// the next state and what it does.
pub open spec fn server_next(s: StateView, e: EventView, vars: Seq<(Seq<char>, Seq<char>)>) -> (StateView, Seq<ActionView>) {
    match (s, e) {
        (StateView::AwaitGreeting, EventView::Greeting(b)) => if b == greeting() {
            (
                StateView::AwaitPresence,
                seq![ActionView::SendBytes(greeting()), ActionView::Receive(Input::Presence)],
            )
        } else {
            broken(ProtocolError::WrongConfirmation)
        },
        (StateView::AwaitPresence, EventView::Presence(p)) => if p == 1 {
            (
                StateView::AwaitCommand,
                seq![ActionView::SendBytes(seq![1u8]), ActionView::Receive(Input::Line)],
            )
        } else {
            broken(ProtocolError::PresenceCheckFailed(p))
        },
        (StateView::AwaitCommand, EventView::Line(l)) => (
            StateView::AwaitFlag { command: trim(l) },
            seq![ActionView::Receive(Input::Flag)],
        ),
        (StateView::AwaitFlag { command }, EventView::Flag(f)) => match location_from_flag(f) {
            Ok(preferred) => (
                StateView::Inspecting { command, preferred },
                seq![ActionView::Inspect(command)],
            ),
            Err(err) => broken(err),
        },
        (
            StateView::Inspecting { command, preferred },
            EventView::Machine { config_root, scripts_exist, in_path },
        ) => (
            StateView::ChangingScripts { command, preferred, config_root, scripts_exist, in_path },
            seq![
                ActionView::ChangeScripts(
                    script_file_actions(
                        parse_command_spec(command).0,
                        parse_command_spec(command).1,
                        config_root,
                        scripts_exist,
                    ),
                ),
            ],
        ),
        (
            StateView::ChangingScripts { command, preferred, config_root, scripts_exist, in_path },
            EventView::ScriptsChanged(done),
        ) => answer_commands(
            user_commands(command, vars, config_root, scripts_exist, done, in_path),
            preferred,
        ),
        (StateView::AwaitChoice { commands, preferred }, EventView::Choice(c)) => if picks(
            c,
            commands.len() as int,
        ) {
            (
                StateView::AwaitLocationPresence { command: commands[c - 1], preferred },
                seq![ActionView::Receive(Input::Presence)],
            )
        } else {
            (StateView::Done, seq![ActionView::End(None)])
        },
        (StateView::AwaitLocationPresence { command, preferred }, EventView::Presence(p)) => if p
            == 1 {
            answer_location(command, preferred)
        } else {
            broken(ProtocolError::PresenceCheckFailed(p))
        },
        (StateView::AwaitExit, EventView::Exited(code)) => (
            StateView::AwaitStatusPresence { code },
            seq![ActionView::Receive(Input::Presence)],
        ),
        (StateView::AwaitStatusPresence { code }, EventView::Presence(p)) => if p == 1 {
            (
                StateView::Done,
                seq![
                    ActionView::SendBytes(seq![1u8]),
                    ActionView::SendText(status_line(code as int)),
                    ActionView::End(None),
                ],
            )
        } else {
            broken(ProtocolError::PresenceCheckFailed(p))
        },
        _ => broken(ProtocolError::OutOfOrder),
    }
}

/// The start of a conversation: wait for the greeting.
pub fn server_start() -> (r: (ServerState, Vec<ServerAction>))
    ensures
        r.0@ == StateView::AwaitGreeting,
        action_list_view(r.1@) == seq![ActionView::Receive(Input::Greeting)],
{
    let mut a: Vec<ServerAction> = Vec::new();
    a.push(ServerAction::Receive(Input::Greeting));
    assert(action_list_view(a@) =~= seq![ActionView::Receive(Input::Greeting)]);
    (ServerState::AwaitGreeting, a)
}

fn copy_string(s: &String) -> (r: String)
    ensures
        r@ == s@,
{
    string_of(&chars_of(s.as_str()))
}

fn byte_vec(b: u8) -> (v: Vec<u8>)
    ensures
        v@ == seq![b],
{
    let mut v: Vec<u8> = Vec::new();
    v.push(b);
    assert(v@ =~= seq![b]);
    v
}

fn one_action(a: ServerAction) -> (r: Vec<ServerAction>)
    ensures
        action_list_view(r@) == seq![a@],
{
    let mut v: Vec<ServerAction> = Vec::new();
    v.push(a);
    assert(action_list_view(v@) =~= seq![a@]);
    v
}

fn push_action(v: &mut Vec<ServerAction>, a: ServerAction)
    ensures
        action_list_view(final(v)@) == action_list_view(old(v)@).push(a@),
{
    v.push(a);
    assert(action_list_view(v@) =~= action_list_view(old(v)@).push(a@));
}

fn end_with(e: ProtocolError) -> (r: (ServerState, Vec<ServerAction>))
    ensures
        (r.0@, action_list_view(r.1@)) == broken(e),
{
    let v = one_action(ServerAction::End(Some(e)));
    (ServerState::Done, v)
}

/// The daemon's answer once it knows the commands.
fn answer_commands_exec(commands: Vec<WCommand>, preferred: WLocation) -> (r: (ServerState, Vec<ServerAction>))
    ensures
        (r.0@, action_list_view(r.1@)) == answer_commands(crate::command::views(commands@), preferred),
{
    let ghost cs = crate::command::views(commands@);
    let response = CommandResponse::for_count(commands.len());
    match response {
        CommandResponse::Single => {
            let mut commands = commands;
            let c = commands.remove(0);
            assert(c@ == cs[0]);
            let mut v = one_action(ServerAction::SendBytes(byte_vec(1u8)));
            push_action(&mut v, ServerAction::Receive(Input::Presence));
            assert(action_list_view(v@) =~= seq![
                ActionView::SendBytes(seq![1u8]),
                ActionView::Receive(Input::Presence),
            ]);
            (ServerState::AwaitLocationPresence { command: c, preferred }, v)
        },
        CommandResponse::Multiple => {
            let n: u8 = (commands.len() % 256) as u8;
            let mut v = one_action(ServerAction::SendBytes(byte_vec(2u8)));
            push_action(&mut v, ServerAction::SendBytes(byte_vec(n)));
            let ghost head = action_list_view(v@);
            assert(head =~= seq![
                ActionView::SendBytes(seq![2u8]),
                ActionView::SendBytes(seq![(cs.len() % 256) as u8]),
            ]);
            let mut k: usize = 0;
            while k < commands.len()
                invariant
                    k <= commands.len(),
                    cs == crate::command::views(commands@),
                    action_list_view(v@) == head + description_actions(cs.subrange(0, k as int)),
                decreases commands.len() - k,
            {
                let mut line = String::from_str(commands[k].desc());
                crate::text::push_char(&mut line, '\n');
                proof {
                    reveal_strlit("\n");
                }
                assert(line@ == cs[k as int].desc + "\n"@);
                let ghost before = action_list_view(v@);
                push_action(&mut v, ServerAction::SendText(line));
                assert(cs.subrange(0, k + 1) =~= cs.subrange(0, k as int).push(cs[k as int]));
                assert(description_actions(cs.subrange(0, k + 1)) =~= description_actions(
                    cs.subrange(0, k as int),
                ).push(ActionView::SendText(cs[k as int].desc + "\n"@)));
                k = k + 1;
            }
            assert(cs.subrange(0, cs.len() as int) =~= cs);
            push_action(&mut v, ServerAction::Receive(Input::Choice));
            (ServerState::AwaitChoice { commands, preferred }, v)
        },
        _ => {
            let mut v = one_action(ServerAction::SendBytes(byte_vec(255u8)));
            push_action(&mut v, ServerAction::End(None));
            assert(action_list_view(v@) =~= seq![
                ActionView::SendBytes(seq![255u8]),
                ActionView::End(None),
            ]);
            (ServerState::Done, v)
        },
    }
}

/// The daemon's answer to the presence byte before the location.
fn answer_location_exec(command: WCommand, preferred: WLocation) -> (r: (ServerState, Vec<ServerAction>))
    ensures
        (r.0@, action_list_view(r.1@)) == answer_location(command@, preferred),
{
    let loc = send_command_location(&command, &preferred);
    let mut v = one_action(ServerAction::SendBytes(byte_vec(1u8)));
    push_action(&mut v, ServerAction::SendBytes(byte_vec(location_byte(&loc))));
    let ghost head = action_list_view(v@);
    assert(head =~= seq![
        ActionView::SendBytes(seq![1u8]),
        ActionView::SendBytes(seq![location_byte_of(location_for(command@.loc, preferred))]),
    ]);
    proof {
        reveal_strlit("\n");
        reveal_strlit("executing \"");
        reveal_strlit("\"\n");
    }
    match loc {
        Ok(WLocation::Client) => {
            let mut text = concat3(command.command(), "\n", command.desc());
            crate::text::push_char(&mut text, '\n');
            assert(text@ == command_text(command@));
            push_action(&mut v, ServerAction::SendText(text));
            push_action(&mut v, ServerAction::End(None));
            assert(action_list_view(v@) =~= head + seq![
                ActionView::SendText(command_text(command@)),
                ActionView::End(None),
            ]);
            (ServerState::Done, v)
        },
        Ok(_) => {
            let text = concat3("executing \"", command.command(), "\"\n");
            push_action(&mut v, ServerAction::SendText(text));
            let ghost c = command@;
            push_action(&mut v, ServerAction::Run(command));
            assert(action_list_view(v@) =~= head + seq![
                ActionView::SendText(executing_text(c)),
                ActionView::Run(c),
            ]);
            (ServerState::AwaitExit, v)
        },
        Err(e) => {
            push_action(&mut v, ServerAction::End(Some(e)));
            assert(action_list_view(v@) =~= head + seq![ActionView::End(Some(e))]);
            (ServerState::Done, v)
        },
    }
}

/// One step of the daemon's side of a conversation: from the state and
/// what was received or found out, the next state and what to do, exactly
/// as `server_next` says. `vars` are the user's variables.
pub fn server_step(state: ServerState, event: ServerEvent, vars: &Vars) -> (r: (ServerState, Vec<ServerAction>))
    ensures
        (r.0@, action_list_view(r.1@)) == server_next(state@, event@, vars@),
{
    match (state, event) {
        (ServerState::AwaitGreeting, ServerEvent::Greeting(b)) => {
            if confirmation_process(b.as_slice()).is_ok() {
                let mut v = one_action(ServerAction::SendBytes(greeting_bytes()));
                push_action(&mut v, ServerAction::Receive(Input::Presence));
                assert(action_list_view(v@) =~= seq![
                    ActionView::SendBytes(greeting()),
                    ActionView::Receive(Input::Presence),
                ]);
                (ServerState::AwaitPresence, v)
            } else {
                end_with(ProtocolError::WrongConfirmation)
            }
        },
        (ServerState::AwaitPresence, ServerEvent::Presence(p)) => {
            if presence_check(p).is_ok() {
                let mut v = one_action(ServerAction::SendBytes(byte_vec(1u8)));
                push_action(&mut v, ServerAction::Receive(Input::Line));
                assert(action_list_view(v@) =~= seq![
                    ActionView::SendBytes(seq![1u8]),
                    ActionView::Receive(Input::Line),
                ]);
                (ServerState::AwaitCommand, v)
            } else {
                end_with(ProtocolError::PresenceCheckFailed(p))
            }
        },
        (ServerState::AwaitCommand, ServerEvent::Line(l)) => {
            let command = string_of(&trim_chars(&chars_of(l.as_str())));
            (ServerState::AwaitFlag { command }, one_action(ServerAction::Receive(Input::Flag)))
        },
        (ServerState::AwaitFlag { command }, ServerEvent::Flag(f)) => {
            match receive_location_flag(f) {
                Ok(preferred) => {
                    let v = one_action(ServerAction::Inspect(copy_string(&command)));
                    (ServerState::Inspecting { command, preferred }, v)
                },
                Err(e) => end_with(e),
            }
        },
        (
            ServerState::Inspecting { command, preferred },
            ServerEvent::Machine { config_root, scripts_exist, in_path },
        ) => {
            let parsed = parse_command_str(copy_string(&command));
            let actions = script_actions(&parsed, config_root.as_str(), &scripts_exist);
            let v = one_action(ServerAction::ChangeScripts(actions));
            (
                ServerState::ChangingScripts {
                    command,
                    preferred,
                    config_root,
                    scripts_exist,
                    in_path,
                },
                v,
            )
        },
        (
            ServerState::ChangingScripts { command, preferred, config_root, scripts_exist, in_path },
            ServerEvent::ScriptsChanged(done),
        ) => {
            let context = CommandContext { config_root, scripts_exist, scripts_done: done, in_path };
            let commands = parse_user_command(command, vars, &context);
            answer_commands_exec(commands, preferred)
        },
        (ServerState::AwaitChoice { commands, preferred }, ServerEvent::Choice(c)) => {
            let ghost cs = commands@;
            match choose_command(commands, c) {
                Some(command) => {
                    assert(command@ == crate::command::views(cs)[c - 1]);
                    (
                        ServerState::AwaitLocationPresence { command, preferred },
                        one_action(ServerAction::Receive(Input::Presence)),
                    )
                },
                None => (ServerState::Done, one_action(ServerAction::End(None))),
            }
        },
        (ServerState::AwaitLocationPresence { command, preferred }, ServerEvent::Presence(p)) => {
            if presence_check(p).is_ok() {
                answer_location_exec(command, preferred)
            } else {
                end_with(ProtocolError::PresenceCheckFailed(p))
            }
        },
        (ServerState::AwaitExit, ServerEvent::Exited(code)) => {
            (
                ServerState::AwaitStatusPresence { code },
                one_action(ServerAction::Receive(Input::Presence)),
            )
        },
        (ServerState::AwaitStatusPresence { code }, ServerEvent::Presence(p)) => {
            if presence_check(p).is_ok() {
                let mut v = one_action(ServerAction::SendBytes(byte_vec(1u8)));
                push_action(&mut v, ServerAction::SendText(format_status(code)));
                push_action(&mut v, ServerAction::End(None));
                assert(action_list_view(v@) =~= seq![
                    ActionView::SendBytes(seq![1u8]),
                    ActionView::SendText(status_line(code as int)),
                    ActionView::End(None),
                ]);
                (ServerState::Done, v)
            } else {
                end_with(ProtocolError::PresenceCheckFailed(p))
            }
        },
        _ => end_with(ProtocolError::OutOfOrder),
    }
}

/// The daemon's state and everything it did after the events `evs`, from
/// the state `s`.
pub open spec fn server_run(s: StateView, evs: Seq<EventView>, vars: Seq<(Seq<char>, Seq<char>)>) -> (StateView, Seq<ActionView>)
    decreases evs.len(),
{
    if evs.len() == 0 {
        (s, Seq::empty())
    } else {
        let (s1, a1) = server_next(s, evs[0], vars);
        let (s2, a2) = server_run(s1, evs.drop_first(), vars);
        (s2, a1 + a2)
    }
}

/// Whether `c` is one of the commands that some command line means, with
/// the variables `vars`, whatever the machine said.
pub open spec fn offered(c: CommandView, vars: Seq<(Seq<char>, Seq<char>)>) -> bool {
    exists|line: Seq<char>, root: Seq<char>, ex: Seq<bool>, done: Seq<bool>, in_path: bool, k: int|
        0 <= k < user_commands(line, vars, root, ex, done, in_path).len() && #[trigger] user_commands(
            line,
            vars,
            root,
            ex,
            done,
            in_path,
        )[k] == c
}

/// The commands that a state holds are offered commands.
pub open spec fn holds_offered(s: StateView, vars: Seq<(Seq<char>, Seq<char>)>) -> bool {
    match s {
        StateView::AwaitChoice { commands, .. } => forall|k: int|
            0 <= k < commands.len() ==> offered(#[trigger] commands[k], vars),
        StateView::AwaitLocationPresence { command, .. } => offered(command, vars),
        _ => true,
    }
}

/// Whether every command that `a` runs is an offered command that may run
/// on the server.
pub open spec fn runs_offered_on_server(a: Seq<ActionView>, vars: Seq<(Seq<char>, Seq<char>)>) -> bool {
    forall|j: int|
        0 <= j < a.len() ==> (#[trigger] a[j] matches ActionView::Run(c) ==> offered(c, vars) && (
        c.loc is Server || c.loc is Both))
}

proof fn lemma_server_next_keeps(s: StateView, e: EventView, vars: Seq<(Seq<char>, Seq<char>)>)
    requires
        holds_offered(s, vars),
    ensures
        holds_offered(server_next(s, e, vars).0, vars),
        runs_offered_on_server(server_next(s, e, vars).1, vars),
{
    match (s, e) {
        (
            StateView::ChangingScripts { command, preferred, config_root, scripts_exist, in_path },
            EventView::ScriptsChanged(done),
        ) => {
            let cs = user_commands(command, vars, config_root, scripts_exist, done, in_path);
            assert forall|k: int| 0 <= k < cs.len() implies offered(#[trigger] cs[k], vars) by {
                assert(user_commands(command, vars, config_root, scripts_exist, done, in_path)[k]
                    == cs[k]);
            }
            if cs.len() == 1 {
                assert(offered(cs[0], vars));
            }
        },
        (StateView::AwaitChoice { commands, preferred }, EventView::Choice(c)) => {
            if picks(c, commands.len() as int) {
                assert(offered(commands[c - 1], vars));
            }
        },
        (StateView::AwaitLocationPresence { command, preferred }, EventView::Presence(p)) => {
            if p == 1 {
                let a = answer_location(command, preferred).1;
                assert forall|j: int| 0 <= j < a.len() implies (#[trigger] a[j] matches ActionView::Run(
                    c,
                ) ==> offered(c, vars) && (c.loc is Server || c.loc is Both)) by {}
            }
        },
        _ => {},
    }
}

proof fn lemma_runs_concat(a: Seq<ActionView>, b: Seq<ActionView>, vars: Seq<(Seq<char>, Seq<char>)>)
    requires
        runs_offered_on_server(a, vars),
        runs_offered_on_server(b, vars),
    ensures
        runs_offered_on_server(a + b, vars),
{
    assert forall|j: int| 0 <= j < (a + b).len() implies (#[trigger] (a + b)[j] matches ActionView::Run(
        c,
    ) ==> offered(c, vars) && (c.loc is Server || c.loc is Both)) by {
        if j < a.len() {
            assert((a + b)[j] == a[j]);
        } else {
            assert((a + b)[j] == b[j - a.len()]);
        }
    }
}

/// Over a whole conversation, from its start, the daemon runs only commands
/// that a command line means, and only those that may run on the server.
pub proof fn law_daemon_runs_only_offered_commands(evs: Seq<EventView>, vars: Seq<(Seq<char>, Seq<char>)>)
    ensures
        runs_offered_on_server(server_run(StateView::AwaitGreeting, evs, vars).1, vars),
{
    lemma_server_run_keeps(StateView::AwaitGreeting, evs, vars);
}

proof fn lemma_server_run_keeps(s: StateView, evs: Seq<EventView>, vars: Seq<(Seq<char>, Seq<char>)>)
    requires
        holds_offered(s, vars),
    ensures
        runs_offered_on_server(server_run(s, evs, vars).1, vars),
    decreases evs.len(),
{
    if evs.len() > 0 {
        lemma_server_next_keeps(s, evs[0], vars);
        let (s1, a1) = server_next(s, evs[0], vars);
        lemma_server_run_keeps(s1, evs.drop_first(), vars);
        lemma_runs_concat(a1, server_run(s1, evs.drop_first(), vars).1, vars);
    }
}

/// The events of a conversation with a client that follows the protocol:
/// the greeting, a presence byte, the line, the flag, the machine facts, the
/// script changes made, the choice (only when the line means several
/// commands) and the presence byte before the location.
pub open spec fn protocol_events(
    line: Seq<char>,
    flag: u8,
    root: Seq<char>,
    exists: Seq<bool>,
    in_path: bool,
    done: Seq<bool>,
    several: bool,
    choice: u8,
) -> Seq<EventView> {
    seq![
        EventView::Greeting(greeting()),
        EventView::Presence(1),
        EventView::Line(line),
        EventView::Flag(flag),
        EventView::Machine { config_root: root, scripts_exist: exists, in_path },
        EventView::ScriptsChanged(done),
    ] + (if several {
        seq![EventView::Choice(choice)]
    } else {
        Seq::empty()
    }) + seq![EventView::Presence(1)]
}

/// Whether the run `r` ends in the state of `last` with the actions of
/// `last`.
pub open spec fn ends_as(r: (StateView, Seq<ActionView>), last: (StateView, Seq<ActionView>)) -> bool {
    &&& r.0 == last.0
    &&& r.1.len() >= last.1.len()
    &&& r.1.subrange(r.1.len() - last.1.len(), r.1.len() as int) == last.1
}

proof fn lemma_step_then(
    s: StateView,
    e: EventView,
    rest: Seq<EventView>,
    vars: Seq<(Seq<char>, Seq<char>)>,
    last: (StateView, Seq<ActionView>),
)
    requires
        ends_as(server_run(server_next(s, e, vars).0, rest, vars), last),
    ensures
        ends_as(server_run(s, seq![e] + rest, vars), last),
{
    let evs = seq![e] + rest;
    assert(evs[0] == e);
    assert(evs.drop_first() =~= rest);
    let a = server_next(s, e, vars).1;
    let r = server_run(server_next(s, e, vars).0, rest, vars);
    let all = a + r.1;
    assert(server_run(s, evs, vars).1 == all);
    assert(all.subrange(all.len() - last.1.len(), all.len() as int) =~= r.1.subrange(
        r.1.len() - last.1.len(),
        r.1.len() as int,
    ));
}

/// When the client follows the protocol and the line means at least one
/// command, the conversation ends as the location step says for the command
/// the user chose (the only one, or the `choice`-th of several): the daemon
/// sends that command to the client, runs it, or refuses it where it cannot
/// run where the client asked.
pub proof fn law_chosen_command_is_the_one_carried_out(
    line: Seq<char>,
    flag: u8,
    root: Seq<char>,
    exists: Seq<bool>,
    in_path: bool,
    done: Seq<bool>,
    choice: u8,
    vars: Seq<(Seq<char>, Seq<char>)>,
)
    requires
        location_from_flag(flag) is Ok,
        user_commands(trim(line), vars, root, exists, done, in_path).len() >= 1,
        user_commands(trim(line), vars, root, exists, done, in_path).len() > 1 ==> picks(
            choice,
            user_commands(trim(line), vars, root, exists, done, in_path).len() as int,
        ),
    ensures
        ends_as(
            server_run(
                StateView::AwaitGreeting,
                protocol_events(
                    line,
                    flag,
                    root,
                    exists,
                    in_path,
                    done,
                    user_commands(trim(line), vars, root, exists, done, in_path).len() > 1,
                    choice,
                ),
                vars,
            ),
            answer_location(
                if user_commands(trim(line), vars, root, exists, done, in_path).len() == 1 {
                    user_commands(trim(line), vars, root, exists, done, in_path)[0]
                } else {
                    user_commands(trim(line), vars, root, exists, done, in_path)[choice - 1]
                },
                location_from_flag(flag)->Ok_0,
            ),
        ),
{
    let cs = user_commands(trim(line), vars, root, exists, done, in_path);
    let c = if cs.len() == 1 {
        cs[0]
    } else {
        cs[choice - 1]
    };
    let pref = location_from_flag(flag)->Ok_0;
    let several = cs.len() > 1;
    let last = answer_location(c, pref);
    let s_loc = StateView::AwaitLocationPresence { command: c, preferred: pref };
    let tail = seq![EventView::Presence(1)];
    assert(server_next(s_loc, EventView::Presence(1), vars) == last);
    assert(tail[0] == EventView::Presence(1));
    assert(tail.drop_first() =~= Seq::<EventView>::empty());
    let base = server_run(s_loc, tail, vars);
    assert(server_run(last.0, Seq::<EventView>::empty(), vars) == (last.0, Seq::<ActionView>::empty()));
    assert(base == (last.0, last.1 + Seq::<ActionView>::empty()));
    assert(base.1 =~= last.1);
    assert(base.1.subrange(0, last.1.len() as int) =~= last.1);
    assert(ends_as(base, last));
    let mid = if several {
        seq![EventView::Choice(choice)]
    } else {
        Seq::<EventView>::empty()
    };
    let ans = answer_commands(cs, pref);
    if several {
        assert(server_next(ans.0, EventView::Choice(choice), vars).0 == s_loc);
        lemma_step_then(ans.0, EventView::Choice(choice), tail, vars, last);
    } else {
        assert(ans.0 == s_loc);
        assert(mid + tail =~= tail);
    }
    assert(ends_as(server_run(ans.0, mid + tail, vars), last));
    let s_changing = StateView::ChangingScripts {
        command: trim(line),
        preferred: pref,
        config_root: root,
        scripts_exist: exists,
        in_path,
    };
    assert(server_next(s_changing, EventView::ScriptsChanged(done), vars).0 == ans.0);
    lemma_step_then(s_changing, EventView::ScriptsChanged(done), mid + tail, vars, last);
    let r5 = seq![EventView::ScriptsChanged(done)] + (mid + tail);
    let s4 = StateView::Inspecting { command: trim(line), preferred: pref };
    let e4 = EventView::Machine { config_root: root, scripts_exist: exists, in_path };
    assert(server_next(s4, e4, vars).0 == s_changing);
    lemma_step_then(s4, e4, r5, vars, last);
    let r4 = seq![e4] + r5;
    let s3 = StateView::AwaitFlag { command: trim(line) };
    assert(server_next(s3, EventView::Flag(flag), vars).0 == s4);
    lemma_step_then(s3, EventView::Flag(flag), r4, vars, last);
    let r3 = seq![EventView::Flag(flag)] + r4;
    let s2 = StateView::AwaitCommand;
    assert(server_next(s2, EventView::Line(line), vars).0 == s3);
    lemma_step_then(s2, EventView::Line(line), r3, vars, last);
    let r2 = seq![EventView::Line(line)] + r3;
    let s1 = StateView::AwaitPresence;
    assert(server_next(s1, EventView::Presence(1), vars).0 == s2);
    lemma_step_then(s1, EventView::Presence(1), r2, vars, last);
    let r1 = seq![EventView::Presence(1)] + r2;
    assert(server_next(StateView::AwaitGreeting, EventView::Greeting(greeting()), vars).0 == s1);
    lemma_step_then(StateView::AwaitGreeting, EventView::Greeting(greeting()), r1, vars, last);
    assert(seq![EventView::Greeting(greeting())] + r1 =~= protocol_events(
        line,
        flag,
        root,
        exists,
        in_path,
        done,
        several,
        choice,
    ));
}

/// What the client makes of the daemon's answers: the first byte the daemon
/// sends once it knows the commands reads, on the client, as one command,
/// several, or no valid command, as the number of commands is; and when the
/// location byte reads as the client, the daemon sends the command and ends;
/// as the server, it says what it runs and runs it; as nowhere, it ends with
/// an error.
pub proof fn law_client_reads_daemon_answers(cs: Seq<CommandView>, c: CommandView, preferred: WLocation)
    ensures
        answer_commands(cs, preferred).1[0] matches ActionView::SendBytes(b) && b.len() == 1
            && crate::protocol::response_from_byte(b[0]) == if cs.len() == 1 {
            Ok::<CommandResponse, ProtocolError>(CommandResponse::Single)
        } else if cs.len() > 1 {
            Ok::<CommandResponse, ProtocolError>(CommandResponse::Multiple)
        } else {
            Err::<CommandResponse, ProtocolError>(ProtocolError::InvalidCommand)
        },
        answer_location(c, preferred).1[1] matches ActionView::SendBytes(b) && b.len() == 1 && ({
            let site = crate::protocol::run_site_of(b[0]);
            let acts = answer_location(c, preferred).1;
            &&& site == crate::protocol::RunSite::Client ==> acts[2] == ActionView::SendText(
                command_text(c),
            ) && acts.last() == ActionView::End(None)
            &&& site == crate::protocol::RunSite::Server ==> acts[2] == ActionView::SendText(
                executing_text(c),
            ) && acts.last() == ActionView::Run(c)
            &&& site == crate::protocol::RunSite::Nowhere ==> acts.last() is End && acts.last()
                != ActionView::End(None)
        }),
{
}

/// The user's choice among the offered commands: a byte from 1 to their
/// number picks that command (counting from 1), and the daemon then waits
/// for the presence byte before the location; any other byte means leaving,
/// and the conversation ends normally, with nothing sent or run.
pub proof fn law_choice_picks_or_leaves(
    commands: Seq<CommandView>,
    preferred: WLocation,
    c: u8,
    vars: Seq<(Seq<char>, Seq<char>)>,
)
    ensures
        1 <= c <= commands.len() ==> server_next(
            StateView::AwaitChoice { commands, preferred },
            EventView::Choice(c),
            vars,
        ) == (
            StateView::AwaitLocationPresence { command: commands[c - 1], preferred },
            seq![ActionView::Receive(Input::Presence)],
        ),
        !(1 <= c <= commands.len()) ==> server_next(
            StateView::AwaitChoice { commands, preferred },
            EventView::Choice(c),
            vars,
        ) == (StateView::Done, seq![ActionView::End(None)]),
{
}

/// Whether the file change `a` is the one that `keyword` asks for on one of
/// the script paths: a creation of a path whose script does not exist
/// (`add`), or a removal of one whose script exists (`delete`).
pub open spec fn names_change(
    keyword: WKeyword,
    paths: Seq<Seq<char>>,
    exists: Seq<bool>,
    a: (FileAction, Seq<char>),
) -> bool {
    exists|k: int|
        0 <= k < paths.len() && #[trigger] paths[k] == a.1 && (
        (keyword is Add && a.0 == FileAction::Create && !found(exists, k)) || (keyword is Delete
            && a.0 == FileAction::Remove && found(exists, k)))
}

proof fn lemma_file_actions_upto(
    keyword: WKeyword,
    paths: Seq<Seq<char>>,
    exists: Seq<bool>,
    n: int,
)
    requires
        0 <= n <= paths.len(),
    ensures
        forall|k: int|
            0 <= k < n && keyword is Add && !found(exists, k) ==> file_actions_upto(
                keyword,
                paths,
                exists,
                n,
            ).contains((FileAction::Create, #[trigger] paths[k])),
        forall|k: int|
            0 <= k < n && keyword is Delete && found(exists, k) ==> file_actions_upto(
                keyword,
                paths,
                exists,
                n,
            ).contains((FileAction::Remove, #[trigger] paths[k])),
        forall|j: int|
            0 <= j < file_actions_upto(keyword, paths, exists, n).len() ==> names_change(
                keyword,
                paths,
                exists,
                #[trigger] file_actions_upto(keyword, paths, exists, n)[j],
            ),
    decreases n,
{
    if n > 0 {
        lemma_file_actions_upto(keyword, paths, exists, n - 1);
        let prev = file_actions_upto(keyword, paths, exists, n - 1);
        let cur = file_actions_upto(keyword, paths, exists, n);
        let step = match keyword {
            WKeyword::Add => if found(exists, n - 1) {
                Seq::empty()
            } else {
                seq![(FileAction::Create, paths[n - 1])]
            },
            WKeyword::Delete => if found(exists, n - 1) {
                seq![(FileAction::Remove, paths[n - 1])]
            } else {
                Seq::empty()
            },
            _ => Seq::empty(),
        };
        assert(cur == prev + step);
        assert forall|k: int| 0 <= k < n && keyword is Add && !found(exists, k) implies cur.contains(
            (FileAction::Create, #[trigger] paths[k]),
        ) by {
            if k < n - 1 {
                let i = choose|i: int| 0 <= i < prev.len() && prev[i] == (FileAction::Create, paths[k]);
                assert(cur[i] == prev[i]);
            } else {
                assert(cur[prev.len() as int] == step[0]);
            }
        }
        assert forall|k: int| 0 <= k < n && keyword is Delete && found(exists, k) implies cur.contains(
            (FileAction::Remove, #[trigger] paths[k]),
        ) by {
            if k < n - 1 {
                let i = choose|i: int| 0 <= i < prev.len() && prev[i] == (FileAction::Remove, paths[k]);
                assert(cur[i] == prev[i]);
            } else {
                assert(cur[prev.len() as int] == step[0]);
            }
        }
        assert forall|j: int| 0 <= j < cur.len() implies names_change(
            keyword,
            paths,
            exists,
            #[trigger] cur[j],
        ) by {
            if j < prev.len() {
                assert(cur[j] == prev[j]);
                assert(names_change(keyword, paths, exists, prev[j]));
            } else {
                assert(cur[j] == step[j - prev.len()]);
                assert(paths[n - 1] == cur[j].1);
            }
        }
    }
}

/// On the machine facts for a line, the daemon asks for exactly the script
/// file changes that the line names, and nothing else: after
/// `add script ...`, a creation of each named script path that does not
/// exist; after `delete script ...`, a removal of each one that exists; for
/// any other line, none. It then waits for which changes were made.
pub proof fn law_daemon_asks_for_named_script_changes(
    command: Seq<char>,
    preferred: WLocation,
    root: Seq<char>,
    exists: Seq<bool>,
    in_path: bool,
    vars: Seq<(Seq<char>, Seq<char>)>,
)
    ensures
        ({
            let r = server_next(
                StateView::Inspecting { command, preferred },
                EventView::Machine { config_root: root, scripts_exist: exists, in_path },
                vars,
            );
            let keyword = parse_command_spec(command).0;
            let content = parse_command_spec(command).1;
            let paths = script_paths(content, root);
            let named = starts_with(content, "script"@);
            &&& r.0 == StateView::ChangingScripts {
                command,
                preferred,
                config_root: root,
                scripts_exist: exists,
                in_path,
            }
            &&& r.1.len() == 1
            &&& r.1[0] is ChangeScripts
            &&& forall|k: int|
                0 <= k < paths.len() && keyword is Add && named && !found(exists, k) ==> r.1[0]->ChangeScripts_0.contains(
                    (FileAction::Create, #[trigger] paths[k]),
                )
            &&& forall|k: int|
                0 <= k < paths.len() && keyword is Delete && named && found(exists, k) ==> r.1[0]->ChangeScripts_0.contains(
                    (FileAction::Remove, #[trigger] paths[k]),
                )
            &&& forall|j: int|
                0 <= j < r.1[0]->ChangeScripts_0.len() ==> named && names_change(
                    keyword,
                    paths,
                    exists,
                    #[trigger] r.1[0]->ChangeScripts_0[j],
                )
        }),
{
    let keyword = parse_command_spec(command).0;
    let content = parse_command_spec(command).1;
    let paths = script_paths(content, root);
    lemma_file_actions_upto(keyword, paths, exists, paths.len() as int);
    let acts = script_file_actions(keyword, content, root, exists);
    if !((keyword is Add || keyword is Delete) && starts_with(content, "script"@)) {
        assert(acts.len() == 0);
    }
}

} // verus!
