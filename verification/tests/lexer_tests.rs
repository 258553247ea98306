use shellfs::commands::CommandType;
use shellfs::lexer::{Lexer, Token};

#[test]
fn tokenize_with_file() {
    let input = "touch folder1/folder2/file.png";

    let expected_tokens = vec![
        Token::Command(CommandType::Touch),
        Token::Space,
        Token::Word(String::from("folder1")),
        Token::Slash,
        Token::Word(String::from("folder2")),
        Token::Slash,
        Token::Word(String::from("file")),
        Token::Dot,
        Token::Word(String::from("png")),
    ];

    let mut command_lexer = Lexer::new(input);
    let tokens = command_lexer.tokenize();

    assert_eq!(tokens, expected_tokens);
}

#[test]
fn tokenize_with_trailing_folder() {
    let input = "cd folder1/folder2";

    let expected_tokens = vec![
        Token::Command(CommandType::Cd),
        Token::Space,
        Token::Word(String::from("folder1")),
        Token::Slash,
        Token::Word(String::from("folder2")),
    ];

    let mut command_lexer = Lexer::new(input);
    let tokens = command_lexer.tokenize();

    assert_eq!(tokens, expected_tokens);
}

#[test]
fn tokenize_with_prev_directory() {
    let input = "cd ../folder1/folder2/file.png";

    let expected_tokens = vec![
        Token::Command(CommandType::Cd),
        Token::Space,
        Token::PreviousDir,
        Token::Slash,
        Token::Word(String::from("folder1")),
        Token::Slash,
        Token::Word(String::from("folder2")),
        Token::Slash,
        Token::Word(String::from("file")),
        Token::Dot,
        Token::Word(String::from("png")),
    ];

    let mut command_lexer = Lexer::new(input);
    let tokens = command_lexer.tokenize();

    assert_eq!(tokens, expected_tokens);
}

#[test]
fn tokenize_multiple_commands() {
    let input = "cd folder1/folder2 && touch file.png";

    let expected_tokens = vec![
        Token::Command(CommandType::Cd),
        Token::Space,
        Token::Word(String::from("folder1")),
        Token::Slash,
        Token::Word(String::from("folder2")),
        Token::Space,
        Token::And,
        Token::Space,
        Token::Command(CommandType::Touch),
        Token::Space,
        Token::Word(String::from("file")),
        Token::Dot,
        Token::Word(String::from("png")),
    ];

    let mut command_lexer = Lexer::new(input);
    let tokens = command_lexer.tokenize();

    assert_eq!(tokens, expected_tokens);
}

#[test]
fn tokenize_two_arguments() {
    let input = "rm file1.png folder1/file1.png";

    let expected_tokens = vec![
        Token::Command(CommandType::Rm),
        Token::Space,
        Token::Word(String::from("file1")),
        Token::Dot,
        Token::Word(String::from("png")),
        Token::Space,
        Token::Word(String::from("folder1")),
        Token::Slash,
        Token::Word(String::from("file1")),
        Token::Dot,
        Token::Word(String::from("png")),
    ];

    let mut command_lexer = Lexer::new(input);
    let tokens = command_lexer.tokenize();

    assert_eq!(tokens, expected_tokens);
}

#[test]
fn tokenize_number() {
    let input = "touch file.png 232";

    let expected_tokens = vec![
        Token::Command(CommandType::Touch),
        Token::Space,
        Token::Word(String::from("file")),
        Token::Dot,
        Token::Word(String::from("png")),
        Token::Space,
        Token::Number(232),
    ];

    let mut command_lexer = Lexer::new(input);
    let tokens = command_lexer.tokenize();

    assert_eq!(tokens, expected_tokens);
}

#[test]
fn tokenize_with_quote() {
    let input = "mkdir \"this is a folder\"";

    let expected_tokens = vec![
        Token::Command(CommandType::Mkdir),
        Token::Space,
        Token::Word(String::from("this is a folder")),
    ];

    let mut command_lexer = Lexer::new(input);
    let tokens = command_lexer.tokenize();

    assert_eq!(tokens, expected_tokens);
}

#[test]
fn tokenize_unclosed_quote() {
    let input = "mkdir \"this is a folder";

    let expected_tokens = vec![
        Token::Command(CommandType::Mkdir),
        Token::Space,
        Token::Word(String::from("this is a folder")),
    ];

    let mut command_lexer = Lexer::new(input);
    let tokens = command_lexer.tokenize();

    assert_eq!(tokens, expected_tokens);
}

#[test]
fn tokenize_short_path() {
    let input = "touch a/b.ext";

    let expected_tokens = vec![
        Token::Command(CommandType::Touch),
        Token::Space,
        Token::Word(String::from("a")),
        Token::Slash,
        Token::Word(String::from("b")),
        Token::Dot,
        Token::Word(String::from("ext")),
    ];

    let mut command_lexer = Lexer::new(input);
    let tokens = command_lexer.tokenize();

    assert_eq!(tokens, expected_tokens);
}

#[test]
fn tokenize_unexpected_characters() {
    let input = "cd a!b";

    let expected_tokens = vec![
        Token::Command(CommandType::Cd),
        Token::Space,
        Token::Word(String::from("a!b")),
    ];

    // '!' is not structural, so the word runs over it; a lone '!' or '&'
    // becomes an unexpected-character token
    let mut command_lexer = Lexer::new(input);
    assert_eq!(command_lexer.tokenize(), expected_tokens);

    let mut bang_lexer = Lexer::new("! &");
    assert_eq!(
        bang_lexer.tokenize(),
        vec![
            Token::UnexpectedToken('!'),
            Token::Space,
            Token::UnexpectedToken('&'),
        ]
    );
}

#[test]
fn tokenize_non_ascii_word() {
    // alphabetic characters outside ASCII still open a word
    let mut word_lexer = Lexer::new("déjà");
    assert_eq!(word_lexer.tokenize(), vec![Token::Word(String::from("déjà"))]);
}

#[test]
fn tokenize_keywords_greedily() {
    // keyword matching precedes word scanning, so a keyword prefix is
    // split off even inside a longer word
    let mut lexer = Lexer::new("cdx rmdir rma");
    assert_eq!(
        lexer.tokenize(),
        vec![
            Token::Command(CommandType::Cd),
            Token::Word(String::from("x")),
            Token::Space,
            Token::Command(CommandType::Rmdir),
            Token::Space,
            Token::Command(CommandType::Rm),
            Token::Word(String::from("a")),
        ]
    );
}

#[test]
fn tokenize_huge_number_saturates() {
    // a digit run too large for usize is clipped to usize::MAX
    let mut lexer = Lexer::new("99999999999999999999999999999");
    assert_eq!(lexer.tokenize(), vec![Token::Number(usize::MAX)]);
}
