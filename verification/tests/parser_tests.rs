use shellfs::commands::{CdCmd, Command, CommandBuilder, CommandType, LsCmd, MkdirCmd, RmCmd,
    RmdirCmd, TouchCmd};
use shellfs::lexer::Lexer;
use shellfs::parser::{Argument, NodePathSegment, Parser, SyntaxError};

fn parse_line(input: &str) -> Result<Vec<Command>, SyntaxError> {
    let mut cmd_lexer = Lexer::new(input);
    let tokens = cmd_lexer.tokenize();

    let mut parser = Parser::new(tokens);
    parser.generate_commands()
}

#[test]
fn test_multi_command() {
    let commands = parse_line("cd folder1/folder2 && touch file.png");

    assert!(commands.is_ok());
}

#[test]
fn test_invalid_order() {
    let commands = parse_line("cd .ab//as ls");

    assert!(!commands.is_ok());
}

#[test]
fn test_valid_command() {
    let commands = parse_line("cd abc/def/ghi");

    assert!(commands.is_ok());
}

#[test]
fn test_cd_command_valid() {
    let commands = parse_line("cd abc/def");

    assert!(commands.is_ok());
}

#[test]
fn test_cd_command_invalid() {
    let commands = parse_line("cd abc/def path2");

    assert!(!commands.is_ok());
}

#[test]
fn test_single_verb_line_yields_one_command() {
    let commands = parse_line("touch photos/shot.png 42").unwrap();
    assert_eq!(commands.len(), 1);
    match &commands[0] {
        Command::Touch(t) => {
            assert_eq!(t.file_name, "shot.png");
            assert_eq!(t.size, 42);
            assert_eq!(t.path, vec![NodePathSegment::Dir(String::from("photos"))]);
        },
        _ => panic!("expected a touch command"),
    }
}

#[test]
fn test_empty_line_is_command_not_provided() {
    assert_eq!(parse_line("").unwrap_err(), SyntaxError::CommandNotProvided);
}

#[test]
fn test_unknown_verb_is_invalid_command() {
    assert_eq!(parse_line("hello").unwrap_err(), SyntaxError::InvalidCommand);
}

#[test]
fn test_trailing_dot_is_invalid_path() {
    assert_eq!(parse_line("cd a.").unwrap_err(), SyntaxError::InvalidPath);
}

#[test]
fn test_dot_after_space_is_unexpected_token() {
    assert_eq!(parse_line("cd .a").unwrap_err(), SyntaxError::UnexpectedToken);
}

#[test]
fn test_missing_argument_is_invalid_arguments() {
    assert_eq!(parse_line("cd").unwrap_err(), SyntaxError::InvalidArguments);
}

#[test]
fn test_number_for_path_is_invalid_type() {
    assert_eq!(parse_line("cd 5").unwrap_err(), SyntaxError::InvalidType);
}

#[test]
fn test_cd_to_bare_root_is_invalid_type() {
    assert_eq!(parse_line("cd /").unwrap_err(), SyntaxError::InvalidType);
}

#[test]
fn test_wrong_arity_fails_whatever_the_arguments_hold() {
    // every verb rejects a wrong argument count before looking at anything
    let none: [Argument; 0] = [];
    let two = [
        Argument::Number(7),
        Argument::Path(vec![NodePathSegment::Dir(String::from("x"))]),
    ];
    let three = [Argument::Number(1), Argument::Number(2), Argument::Number(3)];

    assert_eq!(CdCmd::build(&none).unwrap_err(), SyntaxError::InvalidArguments);
    assert_eq!(CdCmd::build(&two).unwrap_err(), SyntaxError::InvalidArguments);
    assert_eq!(LsCmd::build(&two).unwrap_err(), SyntaxError::InvalidArguments);
    assert_eq!(TouchCmd::build(&none).unwrap_err(), SyntaxError::InvalidArguments);
    assert_eq!(TouchCmd::build(&three).unwrap_err(), SyntaxError::InvalidArguments);
    assert_eq!(MkdirCmd::build(&none).unwrap_err(), SyntaxError::InvalidArguments);
    assert_eq!(MkdirCmd::build(&two).unwrap_err(), SyntaxError::InvalidArguments);
    assert_eq!(RmCmd::build(&two).unwrap_err(), SyntaxError::InvalidArguments);
    assert_eq!(RmdirCmd::build(&none).unwrap_err(), SyntaxError::InvalidArguments);
}

#[test]
fn test_builder_collects_arguments() {
    let mut builder = CommandBuilder::new(CommandType::Touch);
    builder.add_argument(Argument::Path(vec![NodePathSegment::File(String::from(
        "note.txt",
    ))]));
    builder.add_argument(Argument::Number(9));
    match builder.build().unwrap() {
        Command::Touch(t) => {
            assert_eq!(t.file_name, "note.txt");
            assert_eq!(t.size, 9);
            assert!(t.path.is_empty());
        },
        _ => panic!("expected a touch command"),
    }
}

#[test]
fn test_quoted_word_keeps_spaces_in_one_segment() {
    let commands = parse_line("mkdir \"my stuff\"").unwrap();
    assert_eq!(commands.len(), 1);
    match &commands[0] {
        Command::Mkdir(m) => assert_eq!(m.dir_name, "my stuff"),
        _ => panic!("expected a mkdir command"),
    }
}
