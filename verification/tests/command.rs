use shard_cache::command::Command;
use shard_cache::command::CommandError;
use std::time::Duration;

#[test]
fn literal_value_of_a_literal_is_its_word() {
    assert_eq!(Command::Literal("ping".to_string()).literal_value(), Ok("ping".to_string()));
    assert_eq!(Command::Literal(String::new()).literal_value(), Ok(String::new()));
}

#[test]
fn literal_value_of_other_commands_is_an_error() {
    assert_eq!(Command::Ping.literal_value(), Err(CommandError::NotLiteral));
    assert_eq!(Command::Echo("x".to_string()).literal_value(), Err(CommandError::NotLiteral));
    assert_eq!(Command::Get("k".to_string()).literal_value(), Err(CommandError::NotLiteral));
    assert_eq!(
        Command::SetValue("k".to_string(), "v".to_string(), Some(Duration::from_millis(10)))
            .literal_value(),
        Err(CommandError::NotLiteral)
    );
    assert_eq!(
        Command::SetValue("k".to_string(), "v".to_string(), None).literal_value(),
        Err(CommandError::NotLiteral)
    );
}

#[test]
fn error_messages_name_the_problem() {
    assert_eq!(CommandError::NotLiteral.message(), "not a literal command");
    assert_eq!(CommandError::NoCommand.message(), "not a command");
    assert_eq!(CommandError::MissingArgument.message(), "missing argument");
    assert_eq!(CommandError::InvalidNumber.message(), "invalid number");
}
