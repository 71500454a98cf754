//! From a value of the wire protocol to the command that it spells.
//!
//! A request is an array of texts: the command's name, in any case, and its
//! arguments. A text alone is a bare word.

use crate::command::Command;
use crate::command::CommandError;
use crate::command::CommandView;
use crate::resp_type::RespType;
use crate::text::lowercase;
use crate::text::lowercase_of;
use crate::text::parse_u64;
use crate::text::parsed_u64;
use crate::text::same_text;
use crate::text::trim_end;
use crate::text::trimmed_end;
use std::time::Duration;
use vstd::prelude::*;

verus! {

/// A decoded request.
pub type Decoded = Result<CommandView, CommandError>;

/// A decoded argument: the word of a bare word.
pub type Argument = Result<Seq<char>, CommandError>;

/// The word of a decoded bare word; any other command is no argument.
pub open spec fn literal_of(decoded: Decoded) -> Argument {
    match decoded {
        Ok(CommandView::Literal(word)) => Ok(word),
        Ok(_) => Err(CommandError::NotLiteral),
        Err(e) => Err(e),
    }
}

/// The command that `echo` or `get` spells with its one argument.
pub open spec fn with_argument(argument: Argument, echo: bool) -> Decoded {
    match argument {
        Ok(text) => if echo {
            Ok(CommandView::Echo(text))
        } else {
            Ok(CommandView::Get(text))
        },
        Err(e) => Err(e),
    }
}

/// The command that `set` spells with its key, its value and, where the
/// request holds at least two more elements, an option with its argument.
/// The option `px` gives the time-to-live in milliseconds; any other option
/// is passed over.
pub open spec fn store_command(
    key: Argument,
    value: Argument,
    option: Option<(Argument, Argument)>,
) -> Decoded {
    match key {
        Err(e) => Err(e),
        Ok(key) => match value {
            Err(e) => Err(e),
            Ok(value) => match option {
                None => Ok(CommandView::SetValue(key, value, None)),
                Some((name, argument)) => match name {
                    Err(e) => Err(e),
                    Ok(name) => if lowercase_of(name) != "px"@ {
                        Ok(CommandView::SetValue(key, value, None))
                    } else {
                        match argument {
                            Err(e) => Err(e),
                            Ok(number) => match parsed_u64(number) {
                                None => Err(CommandError::InvalidNumber),
                                Some(millis) => Ok(
                                    CommandView::SetValue(
                                        key,
                                        value,
                                        Some((millis * 1_000_000) as nat),
                                    ),
                                ),
                            },
                        }
                    },
                },
            },
        },
    }
}

/// The command that an array spells, from what its elements decode to: the
/// first element names the command, the next four are its arguments, as far
/// as the array holds them.
pub open spec fn array_command(
    head: Decoded,
    first: Argument,
    second: Argument,
    option: Option<(Argument, Argument)>,
) -> Decoded {
    match head {
        Err(e) => Err(e),
        Ok(CommandView::Literal(word)) => {
            let name = lowercase_of(word);
            if name == "ping"@ {
                Ok(CommandView::Ping)
            } else if name == "echo"@ {
                with_argument(first, true)
            } else if name == "set"@ {
                store_command(first, second, option)
            } else if name == "get"@ {
                with_argument(first, false)
            } else {
                Ok(CommandView::Literal(word))
            }
        },
        Ok(other) => Ok(other),
    }
}

/// The command that a value spells. A text is a bare word, without its
/// trailing whitespace. A non-empty array is a command with its arguments.
/// Anything else is no command.
pub open spec fn command_of(resp_type: RespType) -> Decoded
    decreases resp_type,
{
    match resp_type {
        RespType::Array(elements) => if elements@.len() == 0 {
            Err(CommandError::NoCommand)
        } else {
            array_command(
                command_of(elements@[0]),
                if elements@.len() > 1 {
                    literal_of(command_of(elements@[1]))
                } else {
                    Err(CommandError::MissingArgument)
                },
                if elements@.len() > 2 {
                    literal_of(command_of(elements@[2]))
                } else {
                    Err(CommandError::MissingArgument)
                },
                if elements@.len() > 4 {
                    Some(
                        (literal_of(command_of(elements@[3])), literal_of(command_of(elements@[4]))),
                    )
                } else {
                    None
                },
            )
        },
        RespType::BulkString(_, text) => Ok(CommandView::Literal(trimmed_end(text@))),
        _ => Err(CommandError::NoCommand),
    }
}

/// What an executable result stands for.
pub open spec fn decoded_view(r: Result<Command, CommandError>) -> Decoded {
    match r {
        Ok(command) => Ok(command@),
        Err(e) => Err(e),
    }
}

/// What an executable argument stands for.
pub open spec fn argument_view(r: Result<String, CommandError>) -> Argument {
    match r {
        Ok(text) => Ok(text@),
        Err(e) => Err(e),
    }
}

/// The word of a decoded bare word; any other command is no argument.
pub fn literal_argument(decoded: Result<Command, CommandError>) -> (r: Result<String, CommandError>)
    ensures
        argument_view(r) == literal_of(decoded_view(decoded)),
{
    match decoded {
        Ok(command) => command.literal_value(),
        Err(e) => Err(e),
    }
}

/// The command that `set` spells with its key, its value and its option.
pub fn store(
    key: Result<String, CommandError>,
    value: Result<String, CommandError>,
    option: Option<(Result<String, CommandError>, Result<String, CommandError>)>,
) -> (r: Result<Command, CommandError>)
    ensures
        decoded_view(r) == store_command(
            argument_view(key),
            argument_view(value),
            match option {
                Some((name, argument)) => Some((argument_view(name), argument_view(argument))),
                None => None,
            },
        ),
{
    let key: String = match key {
        Ok(key) => key,
        Err(e) => { return Err(e); },
    };
    let value: String = match value {
        Ok(value) => value,
        Err(e) => { return Err(e); },
    };
    match option {
        None => Ok(Command::SetValue(key, value, None)),
        Some((name, argument)) => {
            let name: String = match name {
                Ok(name) => name,
                Err(e) => { return Err(e); },
            };
            if !same_text(lowercase(name.as_str()).as_str(), "px") {
                return Ok(Command::SetValue(key, value, None));
            }
            let number: String = match argument {
                Ok(number) => number,
                Err(e) => { return Err(e); },
            };
            match parse_u64(number.as_str()) {
                None => Err(CommandError::InvalidNumber),
                Some(millis) => {
                    let ttl: Duration = Duration::from_millis(millis);
                    Ok(Command::SetValue(key, value, Some(ttl)))
                },
            }
        },
    }
}

/// Decodes a value of the wire protocol into the command that it spells.
pub fn process_resp_type(resp_type: &RespType) -> (r: Result<Command, CommandError>)
    ensures
        decoded_view(r) == command_of(*resp_type),
    decreases resp_type,
{
    match resp_type {
        RespType::Array(elements) => {
            let count: usize = elements.len();
            if count == 0 {
                return Err(CommandError::NoCommand);
            }
            let word: String = match process_resp_type(&elements[0]) {
                Err(e) => { return Err(e); },
                Ok(Command::Literal(word)) => word,
                Ok(other) => { return Ok(other); },
            };
            let name: String = lowercase(word.as_str());
            if same_text(name.as_str(), "ping") {
                Ok(Command::Ping)
            } else if same_text(name.as_str(), "echo") {
                if count > 1 {
                    match literal_argument(process_resp_type(&elements[1])) {
                        Ok(text) => Ok(Command::Echo(text)),
                        Err(e) => Err(e),
                    }
                } else {
                    Err(CommandError::MissingArgument)
                }
            } else if same_text(name.as_str(), "set") {
                let key = if count > 1 {
                    literal_argument(process_resp_type(&elements[1]))
                } else {
                    Err(CommandError::MissingArgument)
                };
                let value = if count > 2 {
                    literal_argument(process_resp_type(&elements[2]))
                } else {
                    Err(CommandError::MissingArgument)
                };
                let option = if count > 4 {
                    Some(
                        (
                            literal_argument(process_resp_type(&elements[3])),
                            literal_argument(process_resp_type(&elements[4])),
                        ),
                    )
                } else {
                    None
                };
                store(key, value, option)
            } else if same_text(name.as_str(), "get") {
                if count > 1 {
                    match literal_argument(process_resp_type(&elements[1])) {
                        Ok(text) => Ok(Command::Get(text)),
                        Err(e) => Err(e),
                    }
                } else {
                    Err(CommandError::MissingArgument)
                }
            } else {
                Ok(Command::Literal(word))
            }
        },
        RespType::BulkString(_, text) => Ok(Command::Literal(trim_end(text.as_str()).to_owned())),
        _ => Err(CommandError::NoCommand),
    }
}

} // verus!
