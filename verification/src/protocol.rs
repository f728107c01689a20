//! The conversation between the client and the daemon: what each side sends,
//! and what it makes of what it receives. The sockets themselves stay with
//! the caller.
//!
//! One conversation goes: the client sends `WYDY` and the daemon answers
//! `WYDY`; the client sends a presence byte (1), the command line and a
//! location flag; the daemon answers how many commands the line means
//! (1, 2 for several, 255 for none); for several, it sends their descriptions
//! and reads the user's choice; then it says where the command runs, and
//! either sends it to the client or runs it and sends its exit code.
use crate::command::{compatible, WCommand, WLocation};
use crate::number::{format_i32, int_to_dec, parse_i32, parse_int_spec, parse_u8};
use crate::text::{chars_of, string_of, trim, trim_chars};
use vstd::prelude::*;

verus! {

/// The greeting both sides send first: the bytes of `WYDY`.
pub open spec fn greeting() -> Seq<u8> {
    seq![0x57u8, 0x59u8, 0x44u8, 0x59u8]
}

/// The greeting, to send.
pub fn greeting_bytes() -> (b: Vec<u8>)
    ensures
        b@ == greeting(),
{
    vec![0x57u8, 0x59u8, 0x44u8, 0x59u8]
}

/// Checks the four bytes received first: they must be the greeting.
pub fn confirmation_process(received: &[u8]) -> (r: Result<(), ProtocolError>)
    ensures
        r is Ok <==> received@ == greeting(),
        r is Err ==> r == Err::<(), ProtocolError>(ProtocolError::WrongConfirmation),
{
    if received.len() != 4 {
        return Err(ProtocolError::WrongConfirmation);
    }
    let ok = received[0] == 0x57 && received[1] == 0x59 && received[2] == 0x44 && received[3]
        == 0x59;
    assert(ok ==> received@ =~= greeting());
    if ok {
        Ok(())
    } else {
        Err(ProtocolError::WrongConfirmation)
    }
}

/// Something the other side sent that does not follow the conversation.
#[derive(Debug, PartialEq, Eq, Structural)]
pub enum ProtocolError {
    /// The first four bytes were not `WYDY`.
    WrongConfirmation,
    /// A presence byte other than 1.
    PresenceCheckFailed(u8),
    /// A location flag other than 1 or 2.
    UnknownLocationFlag(u8),
    /// The command cannot run where the client asked.
    IncompatibleLocation,
    /// The daemon found no command in the line.
    InvalidCommand,
    /// An exit code that is not an `i32`.
    BadStatus,
    /// A message that does not come at this point of the conversation.
    OutOfOrder,
}

/// The presence byte.
pub const PRESENCE: u8 = 1;

/// Checks a received presence byte.
pub fn presence_check(received: u8) -> (r: Result<(), ProtocolError>)
    ensures
        r is Ok <==> received == 1,
        r matches Err(e) ==> e == ProtocolError::PresenceCheckFailed(received),
{
    if received != PRESENCE {
        Err(ProtocolError::PresenceCheckFailed(received))
    } else {
        Ok(())
    }
}

/// The location flag for a client that asks to run the command itself.
pub open spec fn location_flag_of(locally: bool) -> u8 {
    if locally {
        2
    } else {
        1
    }
}

/// The location that a flag asks for.
pub open spec fn location_from_flag(flag: u8) -> Result<WLocation, ProtocolError> {
    if flag == 1 {
        Ok(WLocation::Both)
    } else if flag == 2 {
        Ok(WLocation::Client)
    } else {
        Err(ProtocolError::UnknownLocationFlag(flag))
    }
}

/// The location flag the client sends: 2 to run the command on the client
/// (`--locally`), 1 to let it run anywhere.
pub fn send_location_flag(locally: bool) -> (flag: u8)
    ensures
        flag == location_flag_of(locally),
{
    if locally {
        2
    } else {
        1
    }
}

/// What the daemon makes of the location flag: 1 lets the command run
/// anywhere, 2 asks for the client.
pub fn receive_location_flag(flag: u8) -> (r: Result<WLocation, ProtocolError>)
    ensures
        r == location_from_flag(flag),
{
    match flag {
        1 => Ok(WLocation::Both),
        2 => Ok(WLocation::Client),
        i => Err(ProtocolError::UnknownLocationFlag(i)),
    }
}

/// How the daemon answers a command line.
#[derive(Clone, Copy, Debug, PartialEq, Eq, Structural)]
pub enum CommandResponse {
    /// The line means one command, which runs now.
    Single,
    /// The line means several commands; the user chooses.
    Multiple,
    /// Output follows.
    Output,
    /// The line means no command.
    NoCommand,
}

/// The answer for a line that means `count` commands.
pub open spec fn response_for(count: int) -> CommandResponse {
    if count == 1 {
        CommandResponse::Single
    } else if count > 1 {
        CommandResponse::Multiple
    } else {
        CommandResponse::NoCommand
    }
}

/// What the client makes of an answer byte.
pub open spec fn response_from_byte(b: u8) -> Result<CommandResponse, ProtocolError> {
    if b == 1 {
        Ok(CommandResponse::Single)
    } else if b == 2 {
        Ok(CommandResponse::Multiple)
    } else if b == 3 {
        Ok(CommandResponse::Output)
    } else {
        Err(ProtocolError::InvalidCommand)
    }
}

/// The byte that carries each answer.
pub open spec fn response_byte_of(r: CommandResponse) -> u8 {
    match r {
        CommandResponse::Single => 1,
        CommandResponse::Multiple => 2,
        CommandResponse::Output => 3,
        CommandResponse::NoCommand => 255,
    }
}

impl CommandResponse {
    /// The daemon's answer for a line that means `count` commands.
    pub fn for_count(count: usize) -> (r: CommandResponse)
        ensures
            r == response_for(count as int),
    {
        if count == 1 {
            CommandResponse::Single
        } else if count > 1 {
            CommandResponse::Multiple
        } else {
            CommandResponse::NoCommand
        }
    }

    /// The byte that carries the answer.
    pub fn byte(&self) -> (b: u8)
        ensures
            b == response_byte_of(*self),
    {
        match self {
            CommandResponse::Single => 1,
            CommandResponse::Multiple => 2,
            CommandResponse::Output => 3,
            CommandResponse::NoCommand => 255,
        }
    }

    /// What the client makes of the answer byte; any byte but 1, 2 and 3
    /// says that the line was no valid command.
    pub fn from_byte(b: u8) -> (r: Result<CommandResponse, ProtocolError>)
        ensures
            r == response_from_byte(b),
    {
        match b {
            1 => Ok(CommandResponse::Single),
            2 => Ok(CommandResponse::Multiple),
            3 => Ok(CommandResponse::Output),
            _ => Err(ProtocolError::InvalidCommand),
        }
    }
}

/// Whether a choice picks one of `count` commands (they count from 1).
pub open spec fn picks(choice: u8, count: int) -> bool {
    1 <= choice <= count
}

/// Whether the client, having sent `choice` for `count` commands, waits for
/// the chosen one to run.
pub fn choice_accepted(choice: u8, count: usize) -> (b: bool)
    ensures
        b == picks(choice, count as int),
{
    choice >= 1 && (choice as usize) <= count
}

/// The command that the user's choice picks: choices count from 1; any other
/// answer means leaving.
pub fn choose_command(commands: Vec<WCommand>, response: u8) -> (r: Option<WCommand>)
    ensures
        picks(response, commands.len() as int) ==> r == Some(commands@[response - 1]),
        !picks(response, commands.len() as int) ==> r is None,
{
    let mut commands = commands;
    let n = commands.len();
    let r = response as usize;
    if r >= 1 && r <= n {
        Some(commands.remove(r - 1))
    } else {
        None
    }
}

/// What the client sends for the user's typed choice: the number, or 255
/// when the text is no `u8`.
pub open spec fn choice_of(input: Seq<char>) -> u8 {
    match parse_int_spec(trim(input), false, 0, 255) {
        Some(v) => v as u8,
        None => 255,
    }
}

/// The choice the client sends for the line the user typed.
pub fn parse_choice(input: &str) -> (choice: u8)
    ensures
        choice == choice_of(input@),
{
    let t = string_of(&trim_chars(&chars_of(input)));
    match parse_u8(t.as_str()) {
        Some(c) => c,
        None => 255,
    }
}

/// Where a command runs: on the client when the client asked for it, else
/// on the server when the command allows it, else on the client. A command
/// that cannot run where the client asked is refused.
pub open spec fn location_for(loc: WLocation, preferred: WLocation) -> Result<WLocation, ProtocolError> {
    if !compatible(preferred, loc) {
        Err(ProtocolError::IncompatibleLocation)
    } else if preferred == WLocation::Client {
        Ok(WLocation::Client)
    } else if loc is Server || loc is Both {
        Ok(WLocation::Server)
    } else {
        Ok(WLocation::Client)
    }
}

/// Where the chosen command runs, given the location the client asked for.
pub fn send_command_location(command: &WCommand, preferred: &WLocation) -> (r: Result<
    WLocation,
    ProtocolError,
>)
    ensures
        r == location_for(command@.loc, *preferred),
{
    let loc = command.location();
    if !preferred.is_compatible(loc) {
        return Err(ProtocolError::IncompatibleLocation);
    }
    if *preferred == WLocation::Client {
        Ok(WLocation::Client)
    } else {
        match loc {
            WLocation::Server | WLocation::Both => Ok(WLocation::Server),
            _ => Ok(WLocation::Client),
        }
    }
}

/// The byte that tells the client where the command runs: 1 for the
/// client, 2 for the server, 3 when it was refused.
pub open spec fn location_byte_of(r: Result<WLocation, ProtocolError>) -> u8 {
    match r {
        Ok(WLocation::Client) => 1,
        Ok(WLocation::Server) => 2,
        Ok(_) => 2,
        Err(_) => 3,
    }
}

/// The byte for an outcome of `send_command_location`.
pub fn location_byte(r: &Result<WLocation, ProtocolError>) -> (b: u8)
    ensures
        b == location_byte_of(*r),
{
    match r {
        Ok(WLocation::Client) => 1,
        Ok(_) => 2,
        Err(_) => 3,
    }
}

/// Where the client runs a command, from the location byte.
#[derive(Clone, Copy, Debug, PartialEq, Eq, Structural)]
pub enum RunSite {
    /// The client runs the command it receives.
    Client,
    /// The daemon runs it and sends the exit code.
    Server,
    /// Nothing runs; the exit code shown is -1.
    Nowhere,
}

/// Where the client runs the command for a location byte.
pub open spec fn run_site_of(location: u8) -> RunSite {
    if location == 1 {
        RunSite::Client
    } else if location == 2 {
        RunSite::Server
    } else {
        RunSite::Nowhere
    }
}

/// What the client does for a location byte.
pub fn run_site(location: u8) -> (s: RunSite)
    ensures
        s == run_site_of(location),
{
    match location {
        1 => RunSite::Client,
        2 => RunSite::Server,
        _ => RunSite::Nowhere,
    }
}

/// The line that carries an exit code: the code in decimal, then a newline.
pub open spec fn status_line(code: int) -> Seq<char> {
    int_to_dec(code) + seq!['\n']
}

/// The line the daemon sends with the exit code of a command.
pub fn format_status(code: i32) -> (line: String)
    ensures
        line@ == status_line(code as int),
{
    let digits = format_i32(code);
    let mut line = String::from_str(digits.as_str());
    crate::text::push_char(&mut line, '\n');
    line
}

/// The exit code the client reads from a status line.
pub fn parse_status(line: &str) -> (r: Result<i32, ProtocolError>)
    ensures
        r matches Ok(c) ==> parse_int_spec(trim(line@), true, i32::MIN as int, i32::MAX as int)
            == Some(c as int),
        r is Err ==> parse_int_spec(trim(line@), true, i32::MIN as int, i32::MAX as int) is None
            && r == Err::<i32, ProtocolError>(ProtocolError::BadStatus),
{
    let t = string_of(&trim_chars(&chars_of(line)));
    match parse_i32(t.as_str()) {
        Some(c) => Ok(c),
        None => Err(ProtocolError::BadStatus),
    }
}


/// The location the client asks for is the one the daemon reads: running
/// locally asks for the client, otherwise for either side.
pub proof fn law_location_flag_roundtrip(locally: bool)
    ensures
        location_from_flag(location_flag_of(locally)) == if locally {
            Ok::<WLocation, ProtocolError>(WLocation::Client)
        } else {
            Ok::<WLocation, ProtocolError>(WLocation::Both)
        },
{
}

/// The client reads the daemon's answer as it was meant: one command, several
/// commands, or, when the line means none, an invalid command.
pub proof fn law_response_roundtrip(count: nat)
    ensures
        response_from_byte(response_byte_of(response_for(count as int))) == if count >= 1 {
            Ok::<CommandResponse, ProtocolError>(response_for(count as int))
        } else {
            Err::<CommandResponse, ProtocolError>(ProtocolError::InvalidCommand)
        },
{
}

/// A command runs only where it may run and where the client allows it: it
/// runs on the server only if it may run there and the client did not ask for
/// itself, and on the client only if it may run there; it is refused exactly
/// when the two share no side.
pub proof fn law_command_runs_where_allowed(loc: WLocation, preferred: WLocation)
    ensures
        location_for(loc, preferred) is Err <==> !compatible(preferred, loc),
        location_for(loc, preferred) matches Ok(l) ==> (l == WLocation::Server && (loc
            is Server || loc is Both) && preferred != WLocation::Client) || (l == WLocation::Client
            && (loc is Client || loc is Both) && (preferred is Client || preferred is Both)),
{
}

/// The client runs the command where the daemon decided, and runs nothing
/// when the daemon refused it.
pub proof fn law_location_byte_roundtrip(loc: WLocation, preferred: WLocation)
    ensures
        run_site_of(location_byte_of(location_for(loc, preferred))) == match location_for(
            loc,
            preferred,
        ) {
            Ok(WLocation::Client) => RunSite::Client,
            Ok(_) => RunSite::Server,
            Err(_) => RunSite::Nowhere,
        },
{
}

/// The exit code the daemon sends is the one the client reads.
pub proof fn law_status_roundtrip(code: i32)
    ensures
        parse_int_spec(trim(status_line(code as int)), true, i32::MIN as int, i32::MAX as int)
            == Some(code as int),
{
    let t = int_to_dec(code as int);
    let m: nat = if code < 0 { (-code) as nat } else { code as nat };
    crate::number::lemma_nat_to_dec(m);
    let d = crate::number::nat_to_dec(m);
    assert(crate::number::is_digit(d[0]));
    assert(crate::number::is_digit(d[d.len() - 1]));
    if code < 0 {
        assert(t[0] == '-');
        assert(t.last() == d.last());
    }
    assert(status_line(code as int) == t.push('\n'));
    crate::text::lemma_trim_newline(t);
    crate::number::law_parse_int_of_format(code as int, i32::MIN as int, i32::MAX as int);
}

} // verus!
