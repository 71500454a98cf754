//! The decoded commands that callers hand to the cache's front end.

use crate::clock::ttl_nanos;
use std::time::Duration;
use vstd::prelude::*;

verus! {

/// A decoded command. `Literal` is a bare word that has not been recognised
/// as one of the others.
#[derive(Debug)]
pub enum Command {
    Literal(String),
    Ping,
    Echo(String),
    /// Store the value under the key, with an optional time-to-live.
    SetValue(String, String, Option<Duration>),
    /// Read the value under the key.
    Get(String),
}

/// What a command says, in contracts. A time-to-live is in nanoseconds.
pub enum CommandView {
    Literal(Seq<char>),
    Ping,
    Echo(Seq<char>),
    SetValue(Seq<char>, Seq<char>, Option<nat>),
    Get(Seq<char>),
}

impl View for Command {
    type V = CommandView;

    open spec fn view(&self) -> CommandView {
        match self {
            Command::Literal(word) => CommandView::Literal(word@),
            Command::Ping => CommandView::Ping,
            Command::Echo(text) => CommandView::Echo(text@),
            Command::SetValue(key, value, ttl) => CommandView::SetValue(key@, value@, ttl_nanos(*ttl)),
            Command::Get(key) => CommandView::Get(key@),
        }
    }
}

/// Why a command could not be decoded or used as asked.
#[derive(Debug, PartialEq, Eq, Clone, Copy, Structural)]
pub enum CommandError {
    /// The command is not a `Literal`.
    NotLiteral,
    /// The request holds no command: it is neither a text nor a non-empty array.
    NoCommand,
    /// The command needs an argument that the request does not hold.
    MissingArgument,
    /// The time-to-live is not a number of milliseconds.
    InvalidNumber,
}

impl CommandError {
    /// The error in words.
    pub fn message(&self) -> (text: String)
        ensures
            text@ == (match self {
                CommandError::NotLiteral => "not a literal command"@,
                CommandError::NoCommand => "not a command"@,
                CommandError::MissingArgument => "missing argument"@,
                CommandError::InvalidNumber => "invalid number"@,
            }),
    {
        match self {
            CommandError::NotLiteral => "not a literal command".to_owned(),
            CommandError::NoCommand => "not a command".to_owned(),
            CommandError::MissingArgument => "missing argument".to_owned(),
            CommandError::InvalidNumber => "invalid number".to_owned(),
        }
    }
}

impl Command {
    /// The word of a `Literal`; any other command is an error.
    pub fn literal_value(self) -> (r: Result<String, CommandError>)
        ensures
            r == (match self {
                Command::Literal(v) => Ok::<String, CommandError>(v),
                _ => Err::<String, CommandError>(CommandError::NotLiteral),
            }),
    {
        match self {
            Command::Literal(v) => Ok(v),
            _ => Err(CommandError::NotLiteral),
        }
    }
}

} // verus!
