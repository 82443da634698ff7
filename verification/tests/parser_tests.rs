use bransh::context::Context;
use bransh::lexer::{lex_line, Token};
use bransh::parser::{parse_lex, Command, OutputType, ParseError, Span};

fn get_output(command: &str) -> Result<Vec<Command>, ParseError> {
    let lexemes = lex_line(command);
    let ctx = Context::default();
    parse_lex(&lexemes, &ctx, &None)
}

#[test]
fn one_echo() {
    assert_eq!(
        get_output("echo hi"),
        Ok(vec![Command {
            command: String::from("echo"),
            args: vec![String::from("hi")],
            background: false,
            output_type: OutputType::Ignore,
        }])
    );
}

#[test]
fn pipe_depend_not() {
    assert_eq!(
        get_output("echo This || echo \"Not this\""),
        Ok(vec![
            Command {
                command: String::from("echo"),
                args: vec![String::from("This")],
                background: false,
                output_type: OutputType::DependNot,
            },
            Command {
                command: String::from("echo"),
                args: vec![String::from("Not this")],
                background: false,
                output_type: OutputType::Ignore,
            },
        ])
    );
}

#[test]
fn pipe_depend() {
    assert_eq!(
        get_output("echo This && echo \"And this\""),
        Ok(vec![
            Command {
                command: String::from("echo"),
                args: vec![String::from("This")],
                background: false,
                output_type: OutputType::Depend,
            },
            Command {
                command: String::from("echo"),
                args: vec![String::from("And this")],
                background: false,
                output_type: OutputType::Ignore,
            },
        ])
    );
}

#[test]
fn variable_substitution() {
    let mut ctx = Context::default();
    ctx.variables
        .insert(String::from("FOO"), String::from("bar"));
    let lexemes = lex_line("echo $FOO");
    let substituted = parse_lex(&lexemes, &ctx, &None).unwrap();
    assert_eq!(
        substituted,
        vec![Command {
            command: String::from("echo"),
            args: vec![String::from("bar")],
            background: false,
            output_type: OutputType::Ignore,
        }]
    );
    // Parsing the already-substituted literal yields the identical command.
    let literal = parse_lex(&lex_line("echo bar"), &ctx, &None).unwrap();
    assert_eq!(substituted, literal);
}

#[test]
fn missing_variable_contributes_nothing() {
    assert_eq!(
        get_output("echo $NOSUCH"),
        Ok(vec![Command {
            command: String::from("echo"),
            args: vec![],
            background: false,
            output_type: OutputType::Ignore,
        }])
    );
}

#[test]
fn background_flag() {
    assert_eq!(
        get_output("sleep 5 &"),
        Ok(vec![Command {
            command: String::from("sleep"),
            args: vec![String::from("5")],
            background: true,
            output_type: OutputType::Ignore,
        }])
    );
}

#[test]
fn ampersand_mid_argument_is_literal() {
    assert_eq!(
        get_output("echo a&b"),
        Ok(vec![Command {
            command: String::from("echo"),
            args: vec![String::from("a&b")],
            background: false,
            output_type: OutputType::Ignore,
        }])
    );
}

#[test]
fn consecutive_joiners_error() {
    // The second `&&` occupies bytes 10..12.
    assert_eq!(
        get_output("echo a && && echo b"),
        Err(ParseError::UnexpectedValue(
            Span { start: 10, end: 12 },
            String::from("command"),
            String::from("&&"),
        ))
    );
}

#[test]
fn leading_joiner_error() {
    assert_eq!(
        get_output("&& echo b"),
        Err(ParseError::UnexpectedValue(
            Span { start: 0, end: 2 },
            String::from("command"),
            String::from("&&"),
        ))
    );
}

#[test]
fn unterminated_quote_parse_error() {
    // The opening quote sits at byte 5; the error points there.
    assert_eq!(
        get_output("echo \"abc"),
        Err(ParseError::LexError(
            Span { start: 5, end: 9 },
            String::from("\"abc"),
        ))
    );
}

#[test]
fn comment_is_dropped() {
    assert_eq!(
        get_output("echo hi # and more"),
        Ok(vec![Command {
            command: String::from("echo"),
            args: vec![String::from("hi")],
            background: false,
            output_type: OutputType::Ignore,
        }])
    );
}

#[test]
fn concatenated_argument_parts() {
    let mut ctx = Context::default();
    ctx.variables
        .insert(String::from("BAR"), String::from("xyz"));
    let lexemes = lex_line("echo foo$BAR\"!q\"");
    let parsed = parse_lex(&lexemes, &ctx, &None).unwrap();
    assert_eq!(
        parsed,
        vec![Command {
            command: String::from("echo"),
            args: vec![String::from("fooxyz!q")],
            background: false,
            output_type: OutputType::Ignore,
        }]
    );
}

#[test]
fn default_token_is_error() {
    assert_eq!(Token::default(), Token::Error);
}

#[test]
fn empty_line_parses_to_nothing() {
    assert_eq!(get_output(""), Ok(vec![]));
    assert_eq!(get_output("   "), Ok(vec![]));
}

#[test]
fn parse_command_end_to_end() {
    let ctx = Context::default();
    let r = bransh::parser::parse_command("echo hi && ls".to_string(), &ctx).unwrap();
    assert_eq!(r.len(), 2);
    assert_eq!(r[0].command, "echo".to_string());
    assert_eq!(r[0].output_type, OutputType::Depend);
    assert_eq!(r[1].command, "ls".to_string());

    // A tilde word resolves against the host's home directory (or stays as
    // written when none is known); either way one argument comes out and its
    // tail is kept.
    let r = bransh::parser::parse_command("ls ~/sub".to_string(), &ctx).unwrap();
    assert_eq!(r.len(), 1);
    assert_eq!(r[0].args.len(), 1);
    assert!(r[0].args[0].ends_with("/sub"));
}

#[test]
fn dangling_joiner_errors() {
    // A line ending after a joiner that demands a follow-up command is a
    // grammar error at the line's end; the inert redirects demand nothing.
    assert_eq!(
        get_output("echo hi &&"),
        Err(ParseError::UnexpectedValue(
            Span { start: 10, end: 10 },
            String::from("command"),
            String::from("null"),
        ))
    );
    assert_eq!(
        get_output("a |"),
        Err(ParseError::UnexpectedValue(
            Span { start: 3, end: 3 },
            String::from("command"),
            String::from("null"),
        ))
    );
    let trailing_redirect = get_output("echo a >").unwrap();
    assert_eq!(trailing_redirect.len(), 1);
    assert_eq!(trailing_redirect[0].output_type, OutputType::Redirect);
}

#[test]
fn joiner_without_flushed_name_errors() {
    // Only whitespace names the command; a joiner glued to pending argument
    // text finds no name and is rejected at its own span.
    assert_eq!(
        get_output("echo|x"),
        Err(ParseError::UnexpectedValue(
            Span { start: 4, end: 5 },
            String::from("command"),
            String::from("|"),
        ))
    );
}
