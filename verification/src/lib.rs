//! Wydy: a small command launcher. A client sends a line of text to a daemon,
//! the daemon turns it into candidate commands (run a program, run or edit a
//! script, open a URL, search the web), and one of them is run.
//!
//! This crate holds the decisions of both sides, with their contracts.
use vstd::prelude::*;

pub mod command;
pub mod config;
pub mod env;
pub mod number;
pub mod parser;
pub mod protocol;
pub mod script;
pub mod server;
pub mod text;
pub mod ui;
pub mod url_check;

verus! {

/// How much the daemon logs to the terminal.
#[derive(Clone, Copy, Debug, PartialEq, Eq, Structural)]
pub enum LogLevel {
    Off,
    Error,
    Warn,
    Info,
    Debug,
    Trace,
}

/// The terminal log level for a verbosity from 1 (errors) to 5 (everything);
/// any other value turns the terminal log off.
pub fn log_level(level: u8) -> (l: LogLevel)
    ensures
        l == (if level == 1 {
            LogLevel::Error
        } else if level == 2 {
            LogLevel::Warn
        } else if level == 3 {
            LogLevel::Info
        } else if level == 4 {
            LogLevel::Debug
        } else if level == 5 {
            LogLevel::Trace
        } else {
            LogLevel::Off
        }),
{
    match level {
        1 => LogLevel::Error,
        2 => LogLevel::Warn,
        3 => LogLevel::Info,
        4 => LogLevel::Debug,
        5 => LogLevel::Trace,
        _ => LogLevel::Off,
    }
}

} // verus!
