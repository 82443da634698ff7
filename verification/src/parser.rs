//! The parser: folds a token stream into an ordered command list, expanding
//! variables and the leading tilde of words along the way.
//!
//! The grammar is stated by [`parse_from`]: adjacent word, literal and
//! variable tokens concatenate into one argument; whitespace flushes the
//! accumulated argument, the first flush naming the command; an output
//! operator seals the current command, and demands that a command name has
//! been accumulated and that the previous token was not itself an output
//! operator; a `&` marks the command as background when it is the last token
//! or an output operator follows, and is literal text otherwise; comments
//! vanish; a lexing error aborts the line; a line whose last joiner demanded
//! a follow-up command that never appeared is rejected.

use vstd::prelude::*;

use crate::chars::byte_len_of;
use crate::chars::chars_to_string;
use crate::chars::copy_char_range;
use crate::chars::str_to_chars;
use crate::context::Context;
use crate::lexer::Lexeme;
use crate::lexer::LexemeView;
use crate::lexer::Token;
use crate::lexer::TokenView;
use crate::lexer::lex_line;
use crate::lexer::lex_spec;
use crate::lexer::lexemes_view;
use crate::sys::home_dir_string;

verus! {

/// The control-flow relation a command bears to the next one: `;` sequences,
/// `|` pipes, `&&`/`||` run it only on (non-)zero exit, and `>`/`>>` are
/// recognized by the grammar but inert in the engine.
#[derive(Debug, Clone, Copy, PartialEq, Eq, Structural, Hash)]
pub enum OutputType {
    Ignore,
    Pipe,
    Depend,
    DependNot,
    Redirect,
    RedirectAppend,
}

impl Default for OutputType {
    fn default() -> (r: Self)
        ensures
            r == OutputType::Ignore,
    {
        OutputType::Ignore
    }
}

/// A byte span in the input line, for diagnostics.
#[derive(Debug, Clone, Copy, PartialEq, Eq, Structural)]
pub struct Span {
    pub start: usize,
    pub end: usize,
}

/// One parsed command: its name, arguments, background flag and the joiner
/// relating it to the next command.
#[derive(Debug, Clone, PartialEq, Eq)]
pub struct Command {
    pub command: String,
    pub args: Vec<String>,
    pub background: bool,
    pub output_type: OutputType,
}

pub struct CommandView {
    pub command: Seq<char>,
    pub args: Seq<Seq<char>>,
    pub background: bool,
    pub output_type: OutputType,
}

impl View for Command {
    type V = CommandView;

    open spec fn view(&self) -> CommandView {
        CommandView {
            command: self.command@,
            args: self.args@.map_values(|a: String| a@),
            background: self.background,
            output_type: self.output_type,
        }
    }
}

impl Default for Command {
    fn default() -> (r: Self)
        ensures
            r@.command == Seq::<char>::empty(),
            r@.args == Seq::<Seq<char>>::empty(),
            r@.background == false,
            r@.output_type == OutputType::Ignore,
    {
        let r = Command {
            command: String::new(),
            args: Vec::new(),
            background: false,
            output_type: OutputType::Ignore,
        };
        proof {
            assert(r@.args =~= Seq::<Seq<char>>::empty());
        }
        r
    }
}

pub type CommandList = Vec<Command>;

/// Why a line was rejected: a grammar violation at a span (with what was
/// expected and what stood there), or input the lexer could not match.
#[derive(Debug, Clone, PartialEq, Eq)]
pub enum ParseError {
    UnexpectedValue(Span, String, String),
    LexError(Span, String),
}

pub enum ParseErrorView {
    UnexpectedValue(int, int, Seq<char>, Seq<char>),
    LexError(int, int, Seq<char>),
}

impl View for ParseError {
    type V = ParseErrorView;

    open spec fn view(&self) -> ParseErrorView {
        match self {
            ParseError::UnexpectedValue(span, expected, got) => ParseErrorView::UnexpectedValue(
                span.start as int,
                span.end as int,
                expected@,
                got@,
            ),
            ParseError::LexError(span, slice) => ParseErrorView::LexError(
                span.start as int,
                span.end as int,
                slice@,
            ),
        }
    }
}

/// The parser's running state: finished commands, the argument being
/// accumulated, the command under construction, and whether the previous
/// token was an output operator.
pub struct ParseState {
    pub cmds: Seq<CommandView>,
    pub arg: Seq<char>,
    pub name: Seq<char>,
    pub args: Seq<Seq<char>>,
    pub background: bool,
    pub last_was_output: bool,
}

pub open spec fn init_parse_state() -> ParseState {
    ParseState {
        cmds: Seq::empty(),
        arg: Seq::empty(),
        name: Seq::empty(),
        args: Seq::empty(),
        background: false,
        last_was_output: false,
    }
}

/// Flushing moves a non-empty accumulated argument into the command under
/// construction: the first flush names it, later ones append arguments.
pub open spec fn flush_arg(st: ParseState) -> ParseState {
    if st.arg.len() > 0 {
        if st.name.len() == 0 {
            ParseState { name: st.arg, arg: Seq::empty(), ..st }
        } else {
            ParseState { args: st.args.push(st.arg), arg: Seq::empty(), ..st }
        }
    } else {
        st
    }
}

/// A word beginning `~` or `~/` resolves to the home directory; with no home
/// directory, or any other leading-tilde form, the word is left as written.
pub open spec fn expand_word(w: Seq<char>, home: Option<Seq<char>>) -> Seq<char> {
    if w.len() > 0 && w[0] == '~' && (w.len() == 1 || w[1] == '/') {
        match home {
            Some(h) => h + w.skip(1),
            None => w,
        }
    } else {
        w
    }
}

/// What a variable token contributes to the argument: the bound value, or
/// nothing when the name is unbound.
pub open spec fn var_value(
    vars: Map<Seq<char>, Seq<char>>,
    env: Map<Seq<char>, Seq<char>>,
    name: Seq<char>,
    is_env: bool,
) -> Seq<char> {
    if is_env {
        if env.contains_key(name) {
            env[name]
        } else {
            Seq::empty()
        }
    } else {
        if vars.contains_key(name) {
            vars[name]
        } else {
            Seq::empty()
        }
    }
}

/// The joiners that demand a following command: the conditional pair and
/// the pipe. The inert `Redirect`/`RedirectAppend` run as sequencing and
/// demand nothing, and `Ignore` is plain sequencing.
pub open spec fn spec_joiner_demands(t: OutputType) -> bool {
    t == OutputType::Pipe || t == OutputType::Depend || t == OutputType::DependNot
}

/// The byte position a stream ends at, for diagnostics.
pub open spec fn spec_end_pos(toks: Seq<LexemeView>) -> int {
    if toks.len() > 0 {
        toks.last().end
    } else {
        0
    }
}

/// End of stream: flush the pending argument and, if a command was named,
/// seal it with the `Ignore` joiner. A line whose last joiner demanded a
/// follow-up command that never appeared is a grammar error at the line's
/// end.
pub open spec fn finish_parse(st: ParseState, end_pos: int) -> Result<
    Seq<CommandView>,
    ParseErrorView,
> {
    let st1 = flush_arg(st);
    if st1.name.len() > 0 {
        Ok(
            st1.cmds.push(
                CommandView {
                    command: st1.name,
                    args: st1.args,
                    background: st1.background,
                    output_type: OutputType::Ignore,
                },
            ),
        )
    } else if st1.cmds.len() > 0 && spec_joiner_demands(st1.cmds.last().output_type) {
        Err(ParseErrorView::UnexpectedValue(end_pos, end_pos, "command"@, "null"@))
    } else {
        Ok(st1.cmds)
    }
}

/// The parse of the tokens from position `i` onward, started in state `st`.
pub open spec fn parse_from(
    toks: Seq<LexemeView>,
    i: int,
    st: ParseState,
    vars: Map<Seq<char>, Seq<char>>,
    env: Map<Seq<char>, Seq<char>>,
    home: Option<Seq<char>>,
) -> Result<Seq<CommandView>, ParseErrorView>
    decreases toks.len() - i,
{
    if i < 0 || i >= toks.len() {
        finish_parse(st, spec_end_pos(toks))
    } else {
        let t = toks[i];
        match t.token {
            TokenView::Background => {
                let is_last = i + 1 >= toks.len() || toks[i + 1].token is Output;
                let st1 = if is_last {
                    ParseState { background: true, last_was_output: false, ..st }
                } else {
                    ParseState { arg: st.arg.push('&'), last_was_output: false, ..st }
                };
                parse_from(toks, i + 1, st1, vars, env, home)
            },
            TokenView::Error => Err(ParseErrorView::LexError(t.start, t.end, t.slice)),
            TokenView::Variable(name, is_env) => parse_from(
                toks,
                i + 1,
                ParseState {
                    arg: st.arg + var_value(vars, env, name, is_env),
                    last_was_output: false,
                    ..st
                },
                vars,
                env,
                home,
            ),
            TokenView::Word => parse_from(
                toks,
                i + 1,
                ParseState {
                    arg: st.arg + expand_word(t.slice, home),
                    last_was_output: false,
                    ..st
                },
                vars,
                env,
                home,
            ),
            TokenView::NumberLiteral => parse_from(
                toks,
                i + 1,
                ParseState { arg: st.arg + t.slice, last_was_output: false, ..st },
                vars,
                env,
                home,
            ),
            TokenView::StringLiteral(val) => parse_from(
                toks,
                i + 1,
                ParseState { arg: st.arg + val, last_was_output: false, ..st },
                vars,
                env,
                home,
            ),
            TokenView::Output(ot) => {
                if st.last_was_output || st.name.len() == 0 {
                    Err(ParseErrorView::UnexpectedValue(t.start, t.end, "command"@, t.slice))
                } else {
                    parse_from(
                        toks,
                        i + 1,
                        ParseState {
                            cmds: st.cmds.push(
                                CommandView {
                                    command: st.name,
                                    args: st.args,
                                    background: st.background,
                                    output_type: ot,
                                },
                            ),
                            name: Seq::empty(),
                            args: Seq::empty(),
                            background: false,
                            last_was_output: true,
                            arg: st.arg,
                        },
                        vars,
                        env,
                        home,
                    )
                }
            },
            TokenView::Whitespace => parse_from(
                toks,
                i + 1,
                ParseState { last_was_output: false, ..flush_arg(st) },
                vars,
                env,
                home,
            ),
            TokenView::Comment => parse_from(
                toks,
                i + 1,
                ParseState { last_was_output: false, ..st },
                vars,
                env,
                home,
            ),
        }
    }
}

/// The parse of a whole token stream.
pub open spec fn parse_spec(
    toks: Seq<LexemeView>,
    vars: Map<Seq<char>, Seq<char>>,
    env: Map<Seq<char>, Seq<char>>,
    home: Option<Seq<char>>,
) -> Result<Seq<CommandView>, ParseErrorView> {
    parse_from(toks, 0, init_parse_state(), vars, env, home)
}

pub open spec fn commands_view(cmds: Seq<Command>) -> Seq<CommandView> {
    cmds.map_values(|c: Command| c@)
}

pub open spec fn parse_result_view(r: Result<Vec<Command>, ParseError>) -> Result<
    Seq<CommandView>,
    ParseErrorView,
> {
    match r {
        Ok(v) => Ok(commands_view(v@)),
        Err(e) => Err(e@),
    }
}

pub open spec fn home_view(h: Option<String>) -> Option<Seq<char>> {
    match h {
        Some(s) => Some(s@),
        None => None,
    }
}

/// Folds a lexed token stream into a command list, reading variables from
/// the context and resolving leading tildes against `home`.
pub fn parse_lex(lexemes: &Vec<Lexeme>, ctx: &Context, home: &Option<String>) -> (r: Result<
    CommandList,
    ParseError,
>)
    requires
        ctx.wf(),
    ensures
        parse_result_view(r) == parse_spec(
            lexemes_view(lexemes@),
            ctx.variables@,
            ctx.env_vars@,
            home_view(*home),
        ),
{
    let ghost toks = lexemes_view(lexemes@);
    let ghost vars = ctx.variables@;
    let ghost env = ctx.env_vars@;
    let ghost homev = home_view(*home);

    let mut cmds: Vec<Command> = Vec::new();
    let mut arg: Vec<char> = Vec::new();
    let mut name: Vec<char> = Vec::new();
    let mut args: Vec<String> = Vec::new();
    let mut bg: bool = false;
    let mut lwo: bool = false;
    let ghost mut st = init_parse_state();

    let n = lexemes.len();
    let mut i: usize = 0;
    while i < n
        invariant
            ctx.wf(),
            n == lexemes@.len(),
            toks == lexemes_view(lexemes@),
            vars == ctx.variables@,
            env == ctx.env_vars@,
            homev == home_view(*home),
            i <= n,
            st.cmds == commands_view(cmds@),
            st.arg == arg@,
            st.name == name@,
            st.args == args@.map_values(|a: String| a@),
            st.background == bg,
            st.last_was_output == lwo,
            parse_spec(toks, vars, env, homev) == parse_from(toks, i as int, st, vars, env, homev),
        decreases n - i,
    {
        proof {
            assert(toks[i as int] == lexemes@[i as int]@);
        }
        let lexeme = &lexemes[i];
        match &lexeme.token {
            Token::Background => {
                let is_last = if i + 1 < n {
                    matches!(lexemes[i + 1].token, Token::Output(_))
                } else {
                    true
                };
                if is_last {
                    bg = true;
                } else {
                    arg.push('&');
                }
                proof {
                    st = if is_last {
                        ParseState { background: true, last_was_output: false, ..st }
                    } else {
                        ParseState { arg: st.arg.push('&'), last_was_output: false, ..st }
                    };
                }
                lwo = false;
            },
            Token::Error => {
                return Err(
                    ParseError::LexError(
                        Span { start: lexeme.start, end: lexeme.end },
                        lexeme.slice.clone(),
                    ),
                );
            },
            Token::Variable(vname, is_env) => {
                let val = ctx.get_variable(vname.as_str(), String::new(), *is_env);
                let mut vc = str_to_chars(val.as_str());
                arg.append(&mut vc);
                proof {
                    st = ParseState {
                        arg: st.arg + var_value(vars, env, vname@, *is_env),
                        last_was_output: false,
                        ..st
                    };
                    assert(st.arg =~= arg@);
                }
                lwo = false;
            },
            Token::Word => {
                let w = str_to_chars(lexeme.slice.as_str());
                let tilde_form = w.len() > 0 && w[0] == '~' && (w.len() == 1 || w[1] == '/');
                if tilde_form {
                    match home {
                        Some(h) => {
                            let mut hc = str_to_chars(h.as_str());
                            let mut rest = copy_char_range(&w, 1, w.len());
                            arg.append(&mut hc);
                            arg.append(&mut rest);
                        },
                        None => {
                            let mut wc = w;
                            arg.append(&mut wc);
                        },
                    }
                } else {
                    let mut wc = w;
                    arg.append(&mut wc);
                }
                proof {
                    st = ParseState {
                        arg: st.arg + expand_word(lexeme.slice@, homev),
                        last_was_output: false,
                        ..st
                    };
                    assert(st.arg =~= arg@);
                }
                lwo = false;
            },
            Token::NumberLiteral => {
                let mut vc = str_to_chars(lexeme.slice.as_str());
                arg.append(&mut vc);
                proof {
                    st = ParseState { arg: st.arg + lexeme.slice@, last_was_output: false, ..st };
                    assert(st.arg =~= arg@);
                }
                lwo = false;
            },
            Token::StringLiteral(val) => {
                let mut vc = str_to_chars(val.as_str());
                arg.append(&mut vc);
                proof {
                    st = ParseState { arg: st.arg + val@, last_was_output: false, ..st };
                    assert(st.arg =~= arg@);
                }
                lwo = false;
            },
            Token::Output(ot) => {
                if lwo || name.len() == 0 {
                    return Err(
                        ParseError::UnexpectedValue(
                            Span { start: lexeme.start, end: lexeme.end },
                            "command".to_owned(),
                            lexeme.slice.clone(),
                        ),
                    );
                }
                let built_args = args;
                args = Vec::new();
                let cmd = Command {
                    command: chars_to_string(&name),
                    args: built_args,
                    background: bg,
                    output_type: *ot,
                };
                let ghost prev_cmds = cmds@;
                cmds.push(cmd);
                name.clear();
                bg = false;
                lwo = true;
                proof {
                    st = ParseState {
                        cmds: st.cmds.push(
                            CommandView {
                                command: st.name,
                                args: st.args,
                                background: st.background,
                                output_type: *ot,
                            },
                        ),
                        name: Seq::empty(),
                        args: Seq::empty(),
                        background: false,
                        last_was_output: true,
                        arg: st.arg,
                    };
                    assert(st.cmds =~= commands_view(cmds@)) by {
                        assert(commands_view(cmds@) =~= commands_view(prev_cmds).push(
                            cmds@.last()@,
                        ));
                    }
                    assert(st.args =~= args@.map_values(|a: String| a@));
                    assert(st.name =~= name@);
                }
            },
            Token::Whitespace => {
                if arg.len() > 0 {
                    if name.len() == 0 {
                        name = arg;
                        arg = Vec::new();
                    } else {
                        args.push(chars_to_string(&arg));
                        arg.clear();
                    }
                }
                proof {
                    let ghost prev = st;
                    st = ParseState { last_was_output: false, ..flush_arg(st) };
                    if prev.arg.len() > 0 && prev.name.len() > 0 {
                        assert(st.args =~= args@.map_values(|a: String| a@));
                    }
                    assert(st.arg =~= arg@);
                }
                lwo = false;
            },
            Token::Comment => {
                proof {
                    st = ParseState { last_was_output: false, ..st };
                }
                lwo = false;
            },
        }
        i = i + 1;
    }
    if arg.len() > 0 {
        if name.len() == 0 {
            name = arg;
        } else {
            args.push(chars_to_string(&arg));
        }
    }
    proof {
        let ghost st1 = flush_arg(st);
        assert(st1.name =~= name@);
        assert(st1.args =~= args@.map_values(|a: String| a@));
    }
    let end_pos: usize = if lexemes.len() > 0 {
        lexemes[lexemes.len() - 1].end
    } else {
        0
    };
    proof {
        assert(end_pos as int == spec_end_pos(toks));
    }
    if name.len() > 0 {
        let cmd = Command {
            command: chars_to_string(&name),
            args,
            background: bg,
            output_type: OutputType::Ignore,
        };
        let ghost prev_cmds = cmds@;
        cmds.push(cmd);
        proof {
            assert(finish_parse(st, end_pos as int) == Ok::<
                Seq<CommandView>,
                ParseErrorView,
            >(commands_view(cmds@))) by {
                assert(commands_view(cmds@) =~= commands_view(prev_cmds).push(cmds@.last()@));
                assert(flush_arg(st).cmds.push(cmds@.last()@) =~= commands_view(cmds@));
            }
        }
        Ok(cmds)
    } else if cmds.len() > 0 && {
        let last_joiner = cmds[cmds.len() - 1].output_type;
        matches!(
            last_joiner,
            OutputType::Pipe | OutputType::Depend | OutputType::DependNot
        )
    } {
        proof {
            assert(commands_view(cmds@).last() == cmds@.last()@);
        }
        Err(
            ParseError::UnexpectedValue(
                Span { start: end_pos, end: end_pos },
                "command".to_owned(),
                "null".to_owned(),
            ),
        )
    } else {
        proof {
            if cmds.len() > 0 {
                assert(commands_view(cmds@).last() == cmds@.last()@);
            }
            assert(finish_parse(st, end_pos as int) == Ok::<
                Seq<CommandView>,
                ParseErrorView,
            >(commands_view(cmds@)));
        }
        Ok(cmds)
    }
}

/// Law: a command list that parses never ends mid-pipeline: on success the
/// last command's joiner is `Ignore` or one of the inert redirects, never a
/// pipe or a conditional, since a demanding joiner with no follow-up command
/// is a grammar error.
pub proof fn lemma_no_dangling_joiner(
    toks: Seq<LexemeView>,
    i: int,
    st: ParseState,
    vars: Map<Seq<char>, Seq<char>>,
    env: Map<Seq<char>, Seq<char>>,
    home: Option<Seq<char>>,
)
    ensures
        match parse_from(toks, i, st, vars, env, home) {
            Ok(cmds) => cmds.len() > 0 ==> !spec_joiner_demands(cmds.last().output_type),
            Err(_) => true,
        },
    decreases toks.len() - i,
{
    if i < 0 || i >= toks.len() {
    } else {
        let t = toks[i];
        match t.token {
            TokenView::Background => {
                let is_last = i + 1 >= toks.len() || toks[i + 1].token is Output;
                let st1 = if is_last {
                    ParseState { background: true, last_was_output: false, ..st }
                } else {
                    ParseState { arg: st.arg.push('&'), last_was_output: false, ..st }
                };
                lemma_no_dangling_joiner(toks, i + 1, st1, vars, env, home);
            },
            TokenView::Error => {},
            TokenView::Variable(name, is_env) => {
                lemma_no_dangling_joiner(
                    toks,
                    i + 1,
                    ParseState {
                        arg: st.arg + var_value(vars, env, name, is_env),
                        last_was_output: false,
                        ..st
                    },
                    vars,
                    env,
                    home,
                );
            },
            TokenView::Word => {
                lemma_no_dangling_joiner(
                    toks,
                    i + 1,
                    ParseState {
                        arg: st.arg + expand_word(t.slice, home),
                        last_was_output: false,
                        ..st
                    },
                    vars,
                    env,
                    home,
                );
            },
            TokenView::NumberLiteral => {
                lemma_no_dangling_joiner(
                    toks,
                    i + 1,
                    ParseState { arg: st.arg + t.slice, last_was_output: false, ..st },
                    vars,
                    env,
                    home,
                );
            },
            TokenView::StringLiteral(val) => {
                lemma_no_dangling_joiner(
                    toks,
                    i + 1,
                    ParseState { arg: st.arg + val, last_was_output: false, ..st },
                    vars,
                    env,
                    home,
                );
            },
            TokenView::Output(ot) => {
                if !(st.last_was_output || st.name.len() == 0) {
                    lemma_no_dangling_joiner(
                        toks,
                        i + 1,
                        ParseState {
                            cmds: st.cmds.push(
                                CommandView {
                                    command: st.name,
                                    args: st.args,
                                    background: st.background,
                                    output_type: ot,
                                },
                            ),
                            name: Seq::empty(),
                            args: Seq::empty(),
                            background: false,
                            last_was_output: true,
                            arg: st.arg,
                        },
                        vars,
                        env,
                        home,
                    );
                }
            },
            TokenView::Whitespace => {
                lemma_no_dangling_joiner(
                    toks,
                    i + 1,
                    ParseState { last_was_output: false, ..flush_arg(st) },
                    vars,
                    env,
                    home,
                );
            },
            TokenView::Comment => {
                lemma_no_dangling_joiner(
                    toks,
                    i + 1,
                    ParseState { last_was_output: false, ..st },
                    vars,
                    env,
                    home,
                );
            },
        }
    }
}

/// Law: the parser stops at a lexing error: wherever the fold reaches an
/// error lexeme, the whole parse is a `LexError` carrying that lexeme's own
/// span and text.
pub proof fn lemma_parse_stops_at_error(
    toks: Seq<LexemeView>,
    k: int,
    st: ParseState,
    vars: Map<Seq<char>, Seq<char>>,
    env: Map<Seq<char>, Seq<char>>,
    home: Option<Seq<char>>,
)
    requires
        0 <= k < toks.len(),
        toks[k].token is Error,
    ensures
        parse_from(toks, k, st, vars, env, home) == Err::<
            Seq<CommandView>,
            ParseErrorView,
        >(ParseErrorView::LexError(toks[k].start, toks[k].end, toks[k].slice)),
{
}

/// Law: an output operator that follows another output operator directly is
/// a grammar error carrying the second operator's own span.
pub proof fn lemma_adjacent_joiners(
    toks: Seq<LexemeView>,
    i: int,
    st: ParseState,
    vars: Map<Seq<char>, Seq<char>>,
    env: Map<Seq<char>, Seq<char>>,
    home: Option<Seq<char>>,
)
    requires
        0 <= i,
        i + 1 < toks.len(),
        toks[i].token is Output,
        toks[i + 1].token is Output,
        !st.last_was_output,
        st.name.len() > 0,
    ensures
        parse_from(toks, i, st, vars, env, home) == Err::<
            Seq<CommandView>,
            ParseErrorView,
        >(
            ParseErrorView::UnexpectedValue(
                toks[i + 1].start,
                toks[i + 1].end,
                "command"@,
                toks[i + 1].slice,
            ),
        ),
{
    match toks[i].token {
        TokenView::Output(ot) => {
            let st1 = ParseState {
                cmds: st.cmds.push(
                    CommandView {
                        command: st.name,
                        args: st.args,
                        background: st.background,
                        output_type: ot,
                    },
                ),
                name: Seq::empty(),
                args: Seq::empty(),
                background: false,
                last_was_output: true,
                arg: st.arg,
            };
            assert(parse_from(toks, i, st, vars, env, home) == parse_from(
                toks,
                i + 1,
                st1,
                vars,
                env,
                home,
            ));
        },
        _ => {
            assert(false);
        },
    }
}

/// Law: two output operators separated only by whitespace are a grammar
/// error carrying the second operator's own span, provided no argument text
/// was pending before the first operator (pending text would name a command
/// in between).
pub proof fn lemma_consecutive_joiners(
    toks: Seq<LexemeView>,
    i: int,
    st: ParseState,
    vars: Map<Seq<char>, Seq<char>>,
    env: Map<Seq<char>, Seq<char>>,
    home: Option<Seq<char>>,
)
    requires
        0 <= i,
        i + 2 < toks.len(),
        toks[i].token is Output,
        toks[i + 1].token is Whitespace,
        toks[i + 2].token is Output,
        !st.last_was_output,
        st.name.len() > 0,
        st.arg.len() == 0,
    ensures
        parse_from(toks, i, st, vars, env, home) == Err::<
            Seq<CommandView>,
            ParseErrorView,
        >(
            ParseErrorView::UnexpectedValue(
                toks[i + 2].start,
                toks[i + 2].end,
                "command"@,
                toks[i + 2].slice,
            ),
        ),
{
    match toks[i].token {
        TokenView::Output(ot) => {
            let st1 = ParseState {
                cmds: st.cmds.push(
                    CommandView {
                        command: st.name,
                        args: st.args,
                        background: st.background,
                        output_type: ot,
                    },
                ),
                name: Seq::empty(),
                args: Seq::empty(),
                background: false,
                last_was_output: true,
                arg: st.arg,
            };
            assert(parse_from(toks, i, st, vars, env, home) == parse_from(
                toks,
                i + 1,
                st1,
                vars,
                env,
                home,
            ));
            let st2 = ParseState { last_was_output: false, ..flush_arg(st1) };
            assert(st2.name.len() == 0);
            assert(parse_from(toks, i + 1, st1, vars, env, home) == parse_from(
                toks,
                i + 2,
                st2,
                vars,
                env,
                home,
            ));
        },
        _ => {
            assert(false);
        },
    }
}

/// Law: a variable token contributes exactly the variable's stored value to
/// the argument it stands in. For a line of the shape `WORD WS $NAME` whose
/// word is not a tilde form, the parse is one command named by the word,
/// whose argument list is the variable's value alone — or empty when the
/// value is empty.
pub proof fn lemma_variable_substitution(
    toks: Seq<LexemeView>,
    name: Seq<char>,
    vars: Map<Seq<char>, Seq<char>>,
    env: Map<Seq<char>, Seq<char>>,
    home: Option<Seq<char>>,
)
    requires
        toks.len() == 3,
        toks[0].token is Word,
        expand_word(toks[0].slice, home) == toks[0].slice,
        toks[0].slice.len() > 0,
        toks[1].token is Whitespace,
        toks[2].token == TokenView::Variable(name, false),
    ensures
        parse_spec(toks, vars, env, home) == Ok::<Seq<CommandView>, ParseErrorView>(
            seq![
                CommandView {
                    command: toks[0].slice,
                    args: if var_value(vars, env, name, false).len() > 0 {
                        seq![var_value(vars, env, name, false)]
                    } else {
                        Seq::empty()
                    },
                    background: false,
                    output_type: OutputType::Ignore,
                },
            ],
        ),
{
    let st0 = init_parse_state();
    assert(Seq::<char>::empty() + toks[0].slice =~= toks[0].slice);
    let st1 = ParseState { arg: toks[0].slice, last_was_output: false, ..st0 };
    assert(parse_from(toks, 0, st0, vars, env, home) == parse_from(toks, 1, st1, vars, env, home));
    let st2 = ParseState { last_was_output: false, ..flush_arg(st1) };
    assert(st2.name == toks[0].slice);
    assert(st2.arg.len() == 0);
    let v = var_value(vars, env, name, false);
    assert(Seq::<char>::empty() + v =~= v);
    let st3 = ParseState { arg: v, last_was_output: false, ..st2 };
    assert(parse_from(toks, 2, st2, vars, env, home) == parse_from(toks, 3, st3, vars, env, home));
    let st4 = flush_arg(st3);
    if v.len() > 0 {
        assert(st4.args =~= Seq::<Seq<char>>::empty().push(v));
        assert(st4.args =~= seq![v]);
    }
    assert(st4.name == toks[0].slice);
    assert(st4.cmds.push(
        CommandView {
            command: st4.name,
            args: st4.args,
            background: st4.background,
            output_type: OutputType::Ignore,
        },
    ) =~= seq![
        CommandView {
            command: toks[0].slice,
            args: if v.len() > 0 {
                seq![v]
            } else {
                Seq::empty()
            },
            background: false,
            output_type: OutputType::Ignore,
        },
    ]);
}

/// Law: substitution is idempotent at the token level: the parse of
/// `WORD WS $NAME` equals the parse of `WORD WS VALUE` where `VALUE` is the
/// variable's stored value written as a literal word, whenever that value is
/// non-empty and no tilde or variable expansion applies to it.
#[verifier::rlimit(50)]
pub proof fn lemma_substitution_idempotent(
    toks_var: Seq<LexemeView>,
    toks_lit: Seq<LexemeView>,
    name: Seq<char>,
    vars: Map<Seq<char>, Seq<char>>,
    env: Map<Seq<char>, Seq<char>>,
    home: Option<Seq<char>>,
)
    requires
        toks_var.len() == 3,
        toks_lit.len() == 3,
        toks_var[0].token is Word,
        toks_lit[0] == toks_var[0],
        expand_word(toks_var[0].slice, home) == toks_var[0].slice,
        toks_var[0].slice.len() > 0,
        toks_var[1].token is Whitespace,
        toks_lit[1].token is Whitespace,
        toks_var[2].token == TokenView::Variable(name, false),
        toks_lit[2].token is Word,
        toks_lit[2].slice == var_value(vars, env, name, false),
        expand_word(toks_lit[2].slice, home) == toks_lit[2].slice,
        var_value(vars, env, name, false).len() > 0,
    ensures
        parse_spec(toks_var, vars, env, home) == parse_spec(toks_lit, vars, env, home),
{
    lemma_variable_substitution(toks_var, name, vars, env, home);
    let v = var_value(vars, env, name, false);
    let st0 = init_parse_state();
    assert(Seq::<char>::empty() + toks_lit[0].slice =~= toks_lit[0].slice);
    let st1 = ParseState { arg: toks_lit[0].slice, last_was_output: false, ..st0 };
    assert(parse_from(toks_lit, 0, st0, vars, env, home) == parse_from(
        toks_lit,
        1,
        st1,
        vars,
        env,
        home,
    ));
    let st2 = ParseState { last_was_output: false, ..flush_arg(st1) };
    assert(st2.name == toks_lit[0].slice);
    assert(Seq::<char>::empty() + v =~= v);
    let st3 = ParseState { arg: v, last_was_output: false, ..st2 };
    assert(parse_from(toks_lit, 2, st2, vars, env, home) == parse_from(
        toks_lit,
        3,
        st3,
        vars,
        env,
        home,
    ));
    let st4 = flush_arg(st3);
    assert(st4.args =~= Seq::<Seq<char>>::empty().push(v));
    assert(st4.args =~= seq![v]);
    assert(st4.name == toks_lit[0].slice);
    assert(st4.cmds.push(
        CommandView {
            command: st4.name,
            args: st4.args,
            background: st4.background,
            output_type: OutputType::Ignore,
        },
    ) =~= seq![
        CommandView {
            command: toks_var[0].slice,
            args: seq![v],
            background: false,
            output_type: OutputType::Ignore,
        },
    ]);
}

/// Lexes and parses one line against the context, resolving tildes through
/// the host's notion of the home directory. The parse is exact for the home
/// value the host supplied.
pub fn parse_command(command: String, ctx: &Context) -> (r: Result<CommandList, ParseError>)
    requires
        ctx.wf(),
        byte_len_of(command@) <= usize::MAX,
    ensures
        exists|h: Option<Seq<char>>|
            parse_result_view(r) == parse_spec(lex_spec(command@), ctx.variables@, ctx.env_vars@, h),
{
    let lexemes = lex_line(command.as_str());
    let home = home_dir_string();
    let r = parse_lex(&lexemes, ctx, &home);
    proof {
        assert(parse_result_view(r) == parse_spec(
            lex_spec(command@),
            ctx.variables@,
            ctx.env_vars@,
            home_view(home),
        ));
    }
    r
}

} // verus!
