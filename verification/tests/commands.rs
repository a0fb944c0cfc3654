use std::str::FromStr;
use voynich::commands::{Command, CommandError};
use voynich::logger::{Level, Logger, StandardLogger};

#[test]
fn parse_help_string() {
    let help_string = "help connect";
    let parse_result = Command::from_str(help_string);
    assert!(parse_result.is_ok());
}

#[test]
fn parse_connect_command() {
    match Command::parse("connect example.onion:3000") {
        Ok(Command::Connect { address }) => assert_eq!(address, "example.onion:3000"),
        other => panic!("unexpected parse result: {:?}", other),
    }
}

#[test]
fn parse_connect_with_extra_whitespace() {
    match Command::parse("  connect\t example.onion:3000 ") {
        Ok(Command::Connect { address }) => assert_eq!(address, "example.onion:3000"),
        other => panic!("unexpected parse result: {:?}", other),
    }
}

#[test]
fn parse_quit_command() {
    assert!(matches!(Command::parse("quit"), Ok(Command::Quit)));
    // Tokens after `quit` are ignored.
    assert!(matches!(Command::parse("quit now please"), Ok(Command::Quit)));
}

#[test]
fn parse_help_without_argument() {
    match Command::parse("help") {
        Ok(Command::Help { command }) => assert!(command.is_none()),
        other => panic!("unexpected parse result: {:?}", other),
    }
}

#[test]
fn parse_empty_line_fails() {
    assert_eq!(Command::parse("   ").unwrap_err(), CommandError::Empty);
    assert_eq!(Command::parse("").unwrap_err(), CommandError::Empty);
}

#[test]
fn parse_connect_usage_error() {
    assert_eq!(Command::parse("connect").unwrap_err(), CommandError::ConnectUsage);
    assert_eq!(Command::parse("connect a b").unwrap_err(), CommandError::ConnectUsage);
}

#[test]
fn parse_help_usage_error() {
    assert_eq!(Command::parse("help a b").unwrap_err(), CommandError::HelpUsage);
}

#[test]
fn parse_unknown_command() {
    assert_eq!(Command::parse("dance").unwrap_err(), CommandError::Unknown);
}

#[test]
fn get_help_logs_lines() {
    let mut logger = StandardLogger::new(50);
    logger.set_log_level(Level::Debug);
    Command::get_help(None, &mut logger);
    assert_eq!(logger.messages().len(), 4);
    Command::get_help(Some("connect".to_string()), &mut logger);
    assert_eq!(logger.messages().len(), 9);
}
