use bransh::lexer::Token;
use bransh::parser::OutputType;

fn assert_seq(test_str: &str, expected: Vec<(Token, (usize, usize), &str)>) {
    let mut lexer = Token::lexer(test_str);

    for expected in expected {
        assert_eq!(lexer.next(), Some(expected.0));
        assert_eq!(lexer.span(), expected.1);
        assert_eq!(lexer.slice(), expected.2.to_string());
    }

    assert!(lexer.next().is_none());
}

#[test]
fn variables() {
    assert_seq(
        "echo $ENV:HOME; echo $PROMPT",
        vec![
            (Token::Word, (0, 4), "echo"),
            (Token::Whitespace, (4, 5), " "),
            (Token::Variable(String::from("HOME"), true), (5, 14), "$ENV:HOME"),
            (Token::Output(OutputType::Ignore), (14, 15), ";"),
            (Token::Whitespace, (15, 16), " "),
            (Token::Word, (16, 20), "echo"),
            (Token::Whitespace, (20, 21), " "),
            (Token::Variable(String::from("PROMPT"), false), (21, 28), "$PROMPT"),
        ],
    )
}

#[test]
fn piping() {
    assert_seq(
        "> | >> || && ;",
        vec![
            (Token::Output(OutputType::Redirect), (0, 1), ">"),
            (Token::Whitespace, (1, 2), " "),
            (Token::Output(OutputType::Pipe), (2, 3), "|"),
            (Token::Whitespace, (3, 4), " "),
            (Token::Output(OutputType::RedirectAppend), (4, 6), ">>"),
            (Token::Whitespace, (6, 7), " "),
            (Token::Output(OutputType::DependNot), (7, 9), "||"),
            (Token::Whitespace, (9, 10), " "),
            (Token::Output(OutputType::Depend), (10, 12), "&&"),
            (Token::Whitespace, (12, 13), " "),
            (Token::Output(OutputType::Ignore), (13, 14), ";"),
        ],
    )
}

#[test]
fn string_literal_unescapes() {
    assert_seq(
        "echo \"a\\nb\"",
        vec![
            (Token::Word, (0, 4), "echo"),
            (Token::Whitespace, (4, 5), " "),
            (Token::StringLiteral(String::from("a\nb")), (5, 11), "\"a\\nb\""),
        ],
    )
}

#[test]
fn single_quoted_literal() {
    assert_seq(
        "echo 'hi there'",
        vec![
            (Token::Word, (0, 4), "echo"),
            (Token::Whitespace, (4, 5), " "),
            (Token::StringLiteral(String::from("hi there")), (5, 15), "'hi there'"),
        ],
    )
}

#[test]
fn unterminated_quote_error_points_at_quote() {
    // The error lexeme's span starts at the opening quote's byte offset, 5.
    let mut lexer = Token::lexer("echo \"abc");
    assert_eq!(lexer.next(), Some(Token::Word));
    assert_eq!(lexer.next(), Some(Token::Whitespace));
    assert_eq!(lexer.next(), Some(Token::Error));
    assert_eq!(lexer.span(), (5, 9));
    assert!(lexer.next().is_none());
}

#[test]
fn numbers_and_words() {
    assert_seq(
        "123 123abc sleep",
        vec![
            (Token::NumberLiteral, (0, 3), "123"),
            (Token::Whitespace, (3, 4), " "),
            (Token::Word, (4, 10), "123abc"),
            (Token::Whitespace, (10, 11), " "),
            (Token::Word, (11, 16), "sleep"),
        ],
    )
}

#[test]
fn background_and_comment() {
    assert_seq(
        "x & #rest ignored",
        vec![
            (Token::Word, (0, 1), "x"),
            (Token::Whitespace, (1, 2), " "),
            (Token::Background, (2, 3), "&"),
            (Token::Whitespace, (3, 4), " "),
            (Token::Comment, (4, 17), "#rest ignored"),
        ],
    )
}

#[test]
fn stray_dollar_is_error() {
    let mut lexer = Token::lexer("echo $");
    assert_eq!(lexer.next(), Some(Token::Word));
    assert_eq!(lexer.next(), Some(Token::Whitespace));
    assert_eq!(lexer.next(), Some(Token::Error));
    assert_eq!(lexer.span(), (5, 6));
}
