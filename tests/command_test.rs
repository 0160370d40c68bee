use clipass::command::{listing, Command};
use clipass::error::ClipassError;
use std::str::FromStr;

#[test]
fn parse_get_command_with_arg() {
    let cmd = Command::from_str("get myid").expect("parse ok");
    match cmd {
        Command::Get(arg) => assert_eq!(arg, "myid"),
        _ => panic!("expected Get variant"),
    }
}

#[test]
fn parse_help_and_list() {
    assert!(matches!(Command::from_str("help").unwrap(), Command::Help));
    assert!(matches!(Command::from_str("list").unwrap(), Command::List));
    assert!(matches!(Command::from_str("new").unwrap(), Command::New));
}

#[test]
fn parse_other_plain_commands() {
    assert!(matches!(Command::parse("save").unwrap(), Command::Save));
    assert!(matches!(Command::parse("quit").unwrap(), Command::Quit));
}

#[test]
fn parse_update_and_delete_take_the_id() {
    match Command::parse("update card") {
        Ok(Command::Update(id)) => assert_eq!(id, "card"),
        _ => panic!("expected Update"),
    }
    match Command::parse("delete card") {
        Ok(Command::Delete(id)) => assert_eq!(id, "card"),
        _ => panic!("expected Delete"),
    }
}

#[test]
fn parse_skips_surrounding_white_space() {
    match Command::parse("  \tget \u{a0} mail\u{3000}extra\n") {
        Ok(Command::Get(id)) => assert_eq!(id, "mail"),
        _ => panic!("expected Get"),
    }
    assert!(matches!(Command::parse("\r\nlist   "), Ok(Command::List)));
}

#[test]
fn parse_blank_line_is_invalid() {
    assert!(matches!(Command::parse(""), Err(ClipassError::InvalidCommand(_))));
    assert!(matches!(Command::parse(" \t\n"), Err(ClipassError::InvalidCommand(_))));
}

#[test]
fn parse_missing_id_is_invalid() {
    for line in ["get", "update  ", "delete\t"] {
        assert!(matches!(Command::parse(line), Err(ClipassError::InvalidCommand(_))));
    }
}

#[test]
fn parse_unknown_command_names_the_word() {
    match Command::parse("  fetch thing") {
        Err(ClipassError::InvalidCommand(w)) => assert_eq!(w, "fetch"),
        _ => panic!("expected InvalidCommand"),
    }
    // names are matched exactly, with no case folding
    assert!(matches!(Command::parse("HELP"), Err(ClipassError::InvalidCommand(_))));
}

#[test]
fn listing_masks_values() {
    let ids = vec!["email".to_string(), "pin".to_string()];
    assert_eq!(listing(&ids), "- email: ******\n- pin: ******\n");
    assert_eq!(listing(&Vec::new()), "");
}
