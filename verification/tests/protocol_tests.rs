use wydy::env::Vars;
use wydy::server::{server_start, server_step, ServerAction, ServerEvent};
use wydy::command::{WCommand, WLocation};
use wydy::protocol::{
    choice_accepted, choose_command, confirmation_process as check_confirmation, format_status, greeting_bytes,
    location_byte, parse_choice, parse_status, presence_check, receive_location_flag, run_site,
    send_command_location, send_location_flag, CommandResponse, ProtocolError, RunSite,
};

fn cmd(name: &str, loc: WLocation) -> WCommand {
    WCommand::new(name.to_string(), format!("desc {}", name), loc)
}

#[test]
fn greeting_is_wydy() {
    assert_eq!(greeting_bytes(), b"WYDY".to_vec());
    assert_eq!(check_confirmation(b"WYDY"), Ok(()));
    assert_eq!(check_confirmation(b"WYDX"), Err(ProtocolError::WrongConfirmation));
    assert_eq!(check_confirmation(b"WYD"), Err(ProtocolError::WrongConfirmation));
}

#[test]
fn presence_byte() {
    assert_eq!(presence_check(1), Ok(()));
    assert_eq!(presence_check(0), Err(ProtocolError::PresenceCheckFailed(0)));
}

#[test]
fn location_flags_roundtrip() {
    assert_eq!(send_location_flag(true), 2);
    assert_eq!(send_location_flag(false), 1);
    assert_eq!(receive_location_flag(send_location_flag(true)), Ok(WLocation::Client));
    assert_eq!(receive_location_flag(send_location_flag(false)), Ok(WLocation::Both));
    assert_eq!(receive_location_flag(7), Err(ProtocolError::UnknownLocationFlag(7)));
}

#[test]
fn response_for_counts() {
    assert_eq!(CommandResponse::for_count(0), CommandResponse::NoCommand);
    assert_eq!(CommandResponse::for_count(1), CommandResponse::Single);
    assert_eq!(CommandResponse::for_count(5), CommandResponse::Multiple);
    assert_eq!(CommandResponse::NoCommand.byte(), 255);
    assert_eq!(CommandResponse::Output.byte(), 3);
    for n in 0..4usize {
        let r = CommandResponse::for_count(n);
        let back = CommandResponse::from_byte(r.byte());
        if n == 0 {
            assert_eq!(back, Err(ProtocolError::InvalidCommand));
        } else {
            assert_eq!(back, Ok(r));
        }
    }
    assert_eq!(CommandResponse::from_byte(3), Ok(CommandResponse::Output));
}

#[test]
fn choosing_a_command() {
    let cs = vec![cmd("a", WLocation::Both), cmd("b", WLocation::Both)];
    assert_eq!(choose_command(cs.clone(), 2).unwrap().command(), "b");
    assert!(choose_command(cs.clone(), 0).is_none());
    assert!(choose_command(cs.clone(), 3).is_none());
    assert!(choose_command(cs, 255).is_none());
    assert!(choice_accepted(1, 2) && choice_accepted(2, 2));
    assert!(!choice_accepted(0, 2) && !choice_accepted(3, 2));
}

#[test]
fn typed_choices() {
    assert_eq!(parse_choice(" 2\n"), 2);
    assert_eq!(parse_choice("+1"), 1);
    assert_eq!(parse_choice("q"), 255);
    assert_eq!(parse_choice(""), 255);
    assert_eq!(parse_choice("256"), 255);
    assert_eq!(parse_choice("-1"), 255);
    assert!(choose_command(vec![cmd("a", WLocation::Both)], parse_choice("1\n")).is_some());
}

#[test]
fn command_locations() {
    let server = cmd("s", WLocation::Server);
    let client = cmd("c", WLocation::Client);
    let both = cmd("b", WLocation::Both);
    assert_eq!(send_command_location(&server, &WLocation::Both), Ok(WLocation::Server));
    assert_eq!(send_command_location(&both, &WLocation::Both), Ok(WLocation::Server));
    assert_eq!(send_command_location(&client, &WLocation::Both), Ok(WLocation::Client));
    assert_eq!(send_command_location(&both, &WLocation::Client), Ok(WLocation::Client));
    assert_eq!(send_command_location(&client, &WLocation::Client), Ok(WLocation::Client));
    assert_eq!(send_command_location(&server, &WLocation::Client), Err(ProtocolError::IncompatibleLocation));
    assert_eq!(location_byte(&Ok(WLocation::Client)), 1);
    assert_eq!(location_byte(&Ok(WLocation::Server)), 2);
    assert_eq!(location_byte(&Err(ProtocolError::IncompatibleLocation)), 3);
    assert_eq!(run_site(location_byte(&send_command_location(&server, &WLocation::Both))), RunSite::Server);
    assert_eq!(run_site(location_byte(&send_command_location(&server, &WLocation::Client))), RunSite::Nowhere);
    assert_eq!(run_site(1), RunSite::Client);
}

#[test]
fn status_lines_roundtrip() {
    for code in [0, 1, -1, 42, 127, i32::MAX, i32::MIN] {
        let line = format_status(code);
        assert_eq!(line, format!("{}\n", code));
        assert_eq!(parse_status(&line), Ok(code));
    }
}

#[test]
fn bad_status_lines() {
    assert_eq!(parse_status("x\n"), Err(ProtocolError::BadStatus));
    assert_eq!(parse_status("2147483648"), Err(ProtocolError::BadStatus));
    assert_eq!(parse_status(""), Err(ProtocolError::BadStatus));
    assert_eq!(parse_status(" -5 "), Ok(-5));
}

fn step_views(actions: &[ServerAction]) -> Vec<String> {
    actions
        .iter()
        .map(|a| match a {
            ServerAction::SendBytes(b) => format!("bytes {:?}", b),
            ServerAction::SendText(t) => format!("text {}", t),
            ServerAction::Receive(i) => format!("receive {:?}", i),
            ServerAction::Inspect(c) => format!("inspect {}", c),
            ServerAction::ChangeScripts(c) => format!("change {}", c.len()),
            ServerAction::Run(c) => format!("run {}", c.command()),
            ServerAction::End(e) => format!("end {:?}", e),
        })
        .collect()
}

#[test]
fn daemon_conversation_runs_the_single_command_on_the_server() {
    let vars = Vars::default();
    let (s, a) = server_start();
    assert_eq!(step_views(&a), vec!["receive Greeting"]);
    let (s, a) = server_step(s, ServerEvent::Greeting(b"WYDY".to_vec()), &vars);
    assert_eq!(step_views(&a), vec!["bytes [87, 89, 68, 89]", "receive Presence"]);
    let (s, a) = server_step(s, ServerEvent::Presence(1), &vars);
    assert_eq!(step_views(&a), vec!["bytes [1]", "receive Line"]);
    let (s, a) = server_step(s, ServerEvent::Line("run ls\n".to_string()), &vars);
    assert_eq!(step_views(&a), vec!["receive Flag"]);
    let (s, a) = server_step(s, ServerEvent::Flag(1), &vars);
    assert_eq!(step_views(&a), vec!["inspect run ls"]);
    let machine = ServerEvent::Machine { config_root: "/cfg".to_string(), scripts_exist: vec![false], in_path: true };
    let (s, a) = server_step(s, machine, &vars);
    assert_eq!(step_views(&a), vec!["change 0"]);
    let (s, a) = server_step(s, ServerEvent::ScriptsChanged(vec![]), &vars);
    assert_eq!(step_views(&a), vec!["bytes [1]", "receive Presence"]);
    let (s, a) = server_step(s, ServerEvent::Presence(1), &vars);
    assert_eq!(step_views(&a), vec!["bytes [1]", "bytes [2]", "text executing \"ls\"\n", "run ls"]);
    let (s, a) = server_step(s, ServerEvent::Exited(-3), &vars);
    assert_eq!(step_views(&a), vec!["receive Presence"]);
    let (_, a) = server_step(s, ServerEvent::Presence(1), &vars);
    assert_eq!(step_views(&a), vec!["bytes [1]", "text -3\n", "end None"]);
}

#[test]
fn daemon_conversation_errors() {
    let vars = Vars::default();
    let (s, _) = server_start();
    let (_, a) = server_step(s, ServerEvent::Greeting(b"HTTP".to_vec()), &vars);
    assert_eq!(step_views(&a), vec!["end Some(WrongConfirmation)"]);
    let (s, _) = server_start();
    let (_, a) = server_step(s, ServerEvent::Presence(1), &vars);
    assert_eq!(step_views(&a), vec!["end Some(OutOfOrder)"]);
    let (s, _) = server_start();
    let (s, _) = server_step(s, ServerEvent::Greeting(b"WYDY".to_vec()), &vars);
    let (_, a) = server_step(s, ServerEvent::Presence(7), &vars);
    assert_eq!(step_views(&a), vec!["end Some(PresenceCheckFailed(7))"]);
}

#[test]
fn daemon_sends_client_commands_to_the_client_and_answers_none_with_255() {
    let vars = Vars::default();
    let (s, _) = server_start();
    let (s, _) = server_step(s, ServerEvent::Greeting(b"WYDY".to_vec()), &vars);
    let (s, _) = server_step(s, ServerEvent::Presence(1), &vars);
    let (s, _) = server_step(s, ServerEvent::Line("edit x\n".to_string()), &vars);
    let (s, _) = server_step(s, ServerEvent::Flag(2), &vars);
    let machine = ServerEvent::Machine { config_root: "/cfg".to_string(), scripts_exist: vec![true], in_path: false };
    let (s, _) = server_step(s, machine, &vars);
    let (s, a) = server_step(s, ServerEvent::ScriptsChanged(vec![]), &vars);
    assert_eq!(step_views(&a)[0], "bytes [2]");
    let (s, _) = server_step(s, ServerEvent::Choice(1), &vars);
    let (_, a) = server_step(s, ServerEvent::Presence(1), &vars);
    assert_eq!(
        step_views(&a),
        vec!["bytes [1]", "bytes [1]", "text vi /cfg/scripts/x\nedit script x\n", "end None"]
    );
    let (s, _) = server_start();
    let (s, _) = server_step(s, ServerEvent::Greeting(b"WYDY".to_vec()), &vars);
    let (s, _) = server_step(s, ServerEvent::Presence(1), &vars);
    let (s, _) = server_step(s, ServerEvent::Line("open nothing\n".to_string()), &vars);
    let (s, _) = server_step(s, ServerEvent::Flag(1), &vars);
    let machine = ServerEvent::Machine { config_root: "/cfg".to_string(), scripts_exist: vec![], in_path: false };
    let (s, _) = server_step(s, machine, &vars);
    let (_, a) = server_step(s, ServerEvent::ScriptsChanged(vec![]), &vars);
    assert_eq!(step_views(&a), vec!["bytes [255]", "end None"]);
}
