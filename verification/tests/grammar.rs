use termaite::commands::Command;
use termaite::errors::ParseError;

fn parse(line: &str) -> Result<Command, ParseError> {
    termaite::commands::parse(line)
}

#[test]
fn free_text_is_prompt_verbatim() {
    match parse("hello there, how are you?") {
        Ok(Command::Prompt(t)) => assert_eq!(t, "hello there, how are you?"),
        _ => panic!("expected a prompt"),
    }
}

#[test]
fn keyword_match_is_case_sensitive() {
    match parse("Exit") {
        Ok(Command::Prompt(t)) => assert_eq!(t, "Exit"),
        _ => panic!("capitalized keyword must fall through to a prompt"),
    }
}

#[test]
fn exit_and_quit_parse_to_exit() {
    assert!(matches!(parse("exit"), Ok(Command::Exit)));
    assert!(matches!(parse("quit"), Ok(Command::Exit)));
}

#[test]
fn exit_with_argument_is_bad() {
    assert!(matches!(parse("exit now"), Err(ParseError::BadArgument)));
}

#[test]
fn bare_profile_means_list() {
    match parse("profile") {
        Ok(Command::Profile { name }) => assert_eq!(name, "list"),
        _ => panic!("expected a profile command"),
    }
    match parse("profile list") {
        Ok(Command::Profile { name }) => assert_eq!(name, "list"),
        _ => panic!("expected a profile command"),
    }
}

#[test]
fn profile_with_two_arguments_is_bad() {
    assert!(matches!(parse("profile a b"), Err(ParseError::BadArgument)));
}

#[test]
fn set_lowercases_both_tokens() {
    match parse("set FGCOLOR Red") {
        Ok(Command::SetOption { option, value }) => {
            assert_eq!(option, "fgcolor");
            assert_eq!(value, "red");
        }
        _ => panic!("expected a set command"),
    }
}

#[test]
fn set_with_one_argument_is_missing() {
    assert!(matches!(parse("set fg"), Err(ParseError::MissingArgument)));
}

#[test]
fn set_with_no_argument_is_missing() {
    assert!(matches!(parse("set"), Err(ParseError::MissingArgument)));
}

#[test]
fn empty_line_is_command_not_found() {
    assert!(matches!(parse(""), Err(ParseError::CommandNotFound)));
    assert!(matches!(parse("   \t  "), Err(ParseError::CommandNotFound)));
}

#[test]
fn help_takes_an_optional_folded_filter() {
    assert!(matches!(parse("help"), Ok(Command::Help(None))));
    match parse("help PROFILE") {
        Ok(Command::Help(Some(f))) => assert_eq!(f, "profile"),
        _ => panic!("expected a filtered help command"),
    }
}

#[test]
fn help_lines_unfiltered() {
    let lines = Command::help(None);
    assert_eq!(
        lines,
        vec![
            "exit/quit - exit this program".to_string(),
            "help - show this help message".to_string(),
            "profile [name] - list or change profiles".to_string(),
            "set <option> <value> - change different settings".to_string(),
        ]
    );
}

#[test]
fn help_lines_filtered_by_containment() {
    let lines = Command::help(Some("profile".to_string()));
    assert_eq!(lines, vec!["profile [name] - list or change profiles".to_string()]);
    let none = Command::help(Some("no such text".to_string()));
    assert!(none.is_empty());
}

#[test]
fn parse_errors_render_with_prefix() {
    assert_eq!(ParseError::CommandNotFound.message(), "Parse error: command not found");
    assert_eq!(ParseError::BadArgument.message(), "Parse error: bad argument");
    assert_eq!(ParseError::MissingArgument.message(), "Parse error: missing argument");
}
