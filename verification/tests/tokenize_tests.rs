use bransh::tokenize::{
    args_to_command, tokenize_command, ArgType, Command, OutputType, TokenizationError,
    TokenizeType,
};

#[test]
fn tokenize_simple_command() {
    let r = tokenize_command("echo hi".to_string()).unwrap();
    assert_eq!(r.len(), 1);
    assert_eq!(r[0].command, "echo".to_string());
    assert_eq!(r[0].args, vec!["hi".to_string()]);
    assert!(!r[0].background);
    assert_eq!(r[0].output_type, OutputType::Ignore);
}

#[test]
fn tokenize_pipe_and_sequence() {
    let r = tokenize_command("a one | b ; c".to_string()).unwrap();
    assert_eq!(r.len(), 3);
    assert_eq!(r[0].command, "a".to_string());
    assert_eq!(r[0].args, vec!["one".to_string()]);
    assert_eq!(r[0].output_type, OutputType::Pipe);
    assert_eq!(r[1].command, "b".to_string());
    assert_eq!(r[1].output_type, OutputType::Ignore);
    assert_eq!(r[2].command, "c".to_string());
}

#[test]
fn tokenize_quotes_and_escapes() {
    let r = tokenize_command("say \"a b\" 'c d' x\\ny".to_string()).unwrap();
    assert_eq!(r.len(), 1);
    assert_eq!(r[0].command, "say".to_string());
    assert_eq!(
        r[0].args,
        vec!["a b".to_string(), "c d".to_string(), "x\ny".to_string()]
    );
}

#[test]
fn tokenize_background() {
    let r = tokenize_command("sleep 5 &".to_string()).unwrap();
    assert_eq!(r.len(), 1);
    assert!(r[0].background);
    assert_eq!(r[0].args, vec!["5".to_string()]);
}

#[test]
fn tokenize_unterminated_quote() {
    // The quote opens at byte 5; the position reported is one past it.
    assert_eq!(
        tokenize_command("echo \"abc".to_string()),
        Err(TokenizationError::UnterminateQuote(6, '"'))
    );
}

#[test]
fn tokenize_invalid_escape() {
    assert_eq!(
        tokenize_command("echo a\\qb".to_string()),
        Err(TokenizationError::InvalidEscape(8, 'q'))
    );
}

#[test]
fn tokenize_dangling_separator() {
    assert_eq!(
        tokenize_command("a |".to_string()),
        Err(TokenizationError::UnexpectedValue(
            3,
            "command".to_string(),
            "null".to_string()
        ))
    );
}

#[test]
fn tokenize_separator_without_command() {
    assert_eq!(
        tokenize_command(";".to_string()),
        Err(TokenizationError::UnexpectedValue(
            0,
            "command".to_string(),
            "null".to_string()
        ))
    );
}

#[test]
fn tokenize_empty_line() {
    assert_eq!(tokenize_command(String::new()).unwrap(), vec![]);
    assert_eq!(tokenize_command("   ".to_string()).unwrap(), vec![]);
}

#[test]
fn args_to_command_shapes() {
    // Empty token lists and empty names yield no command.
    assert_eq!(args_to_command(vec![]), None);

    let built = args_to_command(vec![
        TokenizeType::Arg(vec![ArgType::Raw("git".to_string())]),
        TokenizeType::Arg(vec![
            ArgType::Raw("st".to_string()),
            ArgType::Quoted("atus".to_string()),
        ]),
        TokenizeType::Arg(vec![ArgType::Raw("&".to_string())]),
        TokenizeType::End(OutputType::Pipe),
    ])
    .unwrap();
    assert_eq!(built.command, "git".to_string());
    assert_eq!(built.args, vec!["status".to_string()]);
    assert!(built.background);
    assert_eq!(built.output_type, OutputType::Pipe);
}

#[test]
fn output_type_text_forms() {
    assert!(OutputType::is_valid("&&"));
    assert!(OutputType::is_valid(";"));
    assert!(!OutputType::is_valid(">"));
    assert_eq!(OutputType::from_text("&&"), OutputType::Depend);
    assert_eq!(OutputType::from_text("||"), OutputType::DependNot);
    assert_eq!(OutputType::from_text("|"), OutputType::Pipe);
    assert_eq!(OutputType::from_text(";"), OutputType::Ignore);
}

#[test]
fn command_new_keeps_fields() {
    let c = Command::new(
        "x".to_string(),
        vec!["y".to_string()],
        true,
        OutputType::Depend,
    );
    assert_eq!(c.command, "x".to_string());
    assert_eq!(c.args, vec!["y".to_string()]);
    assert!(c.background);
    assert_eq!(c.output_type, OutputType::Depend);
}

#[test]
fn tokenize_quoted_name_then_separator() {
    // A quoted piece enters the argument only at a space; a separator right
    // after the closing quote finds no command and is rejected.
    assert_eq!(
        tokenize_command("\"ab\";echo".to_string()),
        Err(TokenizationError::UnexpectedValue(
            4,
            "command".to_string(),
            "null".to_string()
        ))
    );
}
