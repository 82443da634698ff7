//! The combined tokenizer: a single pass that takes a raw line directly to a
//! command list, resolving quoting and escaping inline. Only `;` and `|`
//! separate commands here; a trailing lone `&` marks a background command.
//! Positions in its errors are byte offsets into the given line.

use vstd::prelude::*;

use crate::chars::byte_len_of;
use crate::chars::char_byte_len;
use crate::chars::chars_to_string;
use crate::chars::exec_char_byte_len;
use crate::chars::lemma_byte_len_prefix_bound;
use crate::chars::lemma_byte_len_take_succ;
use crate::chars::str_to_chars;
use crate::lexer::byte_span_end;

verus! {

/// The relation a command bears to the next: `&&` depend, `||` depend-not,
/// `|` pipe, anything else sequence.
#[derive(Debug, Clone, Copy, PartialEq, Eq, Structural)]
pub enum OutputType {
    Depend,
    DependNot,
    Pipe,
    Ignore,
}

impl Default for OutputType {
    fn default() -> (r: Self)
        ensures
            r == OutputType::Ignore,
    {
        OutputType::Ignore
    }
}

/// The joiner a separator text denotes.
pub open spec fn spec_output_from(s: Seq<char>) -> OutputType {
    if s == "&&"@ {
        OutputType::Depend
    } else if s == "||"@ {
        OutputType::DependNot
    } else if s == "|"@ {
        OutputType::Pipe
    } else {
        OutputType::Ignore
    }
}

impl OutputType {
    /// Whether the text is one of the joiner operators.
    pub open spec fn spec_is_valid(chr: Seq<char>) -> bool {
        chr == "&&"@ || chr == "||"@ || chr == "|"@ || chr == ";"@
    }

    pub fn is_valid(chr: &str) -> (r: bool)
        ensures
            r == Self::spec_is_valid(chr@),
    {
        crate::chars::str_eq(chr, "&&") || crate::chars::str_eq(chr, "||") || crate::chars::str_eq(
            chr,
            "|",
        ) || crate::chars::str_eq(chr, ";")
    }

    pub fn from_text(chr: &str) -> (r: Self)
        ensures
            r == spec_output_from(chr@),
    {
        if crate::chars::str_eq(chr, "&&") {
            OutputType::Depend
        } else if crate::chars::str_eq(chr, "||") {
            OutputType::DependNot
        } else if crate::chars::str_eq(chr, "|") {
            OutputType::Pipe
        } else {
            OutputType::Ignore
        }
    }
}

/// One tokenized command.
#[derive(Debug, Clone, PartialEq)]
pub struct Command {
    pub command: String,
    pub args: Vec<String>,
    pub background: bool,
    pub output_type: OutputType,
}

pub struct CommandView {
    pub command: Seq<char>,
    pub args: Seq<Seq<char>>,
    pub background: bool,
    pub output_type: OutputType,
}

impl View for Command {
    type V = CommandView;

    open spec fn view(&self) -> CommandView {
        CommandView {
            command: self.command@,
            args: self.args@.map_values(|a: String| a@),
            background: self.background,
            output_type: self.output_type,
        }
    }
}

impl Command {
    pub fn new(command: String, args: Vec<String>, background: bool, output_type: OutputType) -> (r:
        Self)
        ensures
            r.command == command,
            r.args == args,
            r.background == background,
            r.output_type == output_type,
    {
        Command { command, args, background, output_type }
    }
}

/// Why tokenizing failed: an unterminated quote (byte position one past the
/// opening quote), an invalid escape (byte position one past the escaped
/// character), or a separator with no command before it (the separator's
/// byte position).
#[derive(Debug, Clone, PartialEq)]
pub enum TokenizationError {
    UnterminateQuote(usize, char),
    InvalidEscape(usize, char),
    UnexpectedValue(usize, String, String),
}

pub enum TokenizationErrorView {
    UnterminateQuote(int, char),
    InvalidEscape(int, char),
    UnexpectedValue(int, Seq<char>, Seq<char>),
}

impl View for TokenizationError {
    type V = TokenizationErrorView;

    open spec fn view(&self) -> TokenizationErrorView {
        match self {
            TokenizationError::UnterminateQuote(p, c) => TokenizationErrorView::UnterminateQuote(
                *p as int,
                *c,
            ),
            TokenizationError::InvalidEscape(p, c) => TokenizationErrorView::InvalidEscape(
                *p as int,
                *c,
            ),
            TokenizationError::UnexpectedValue(p, e, g) => TokenizationErrorView::UnexpectedValue(
                *p as int,
                e@,
                g@,
            ),
        }
    }
}

/// One piece of an argument: quoted pieces keep their text verbatim.
#[derive(Debug, Clone, PartialEq)]
pub enum ArgType {
    Quoted(String),
    Raw(String),
}

pub enum ArgTypeView {
    Quoted(Seq<char>),
    Raw(Seq<char>),
}

impl View for ArgType {
    type V = ArgTypeView;

    open spec fn view(&self) -> ArgTypeView {
        match self {
            ArgType::Quoted(s) => ArgTypeView::Quoted(s@),
            ArgType::Raw(s) => ArgTypeView::Raw(s@),
        }
    }
}

/// One element of the intermediate token list: an argument made of pieces,
/// or a command separator.
#[derive(Debug, Clone, PartialEq)]
pub enum TokenizeType {
    Arg(Vec<ArgType>),
    End(OutputType),
}

pub enum TokenizeTypeView {
    Arg(Seq<ArgTypeView>),
    End(OutputType),
}

pub open spec fn argtypes_view(s: Seq<ArgType>) -> Seq<ArgTypeView> {
    s.map_values(|a: ArgType| a@)
}

impl View for TokenizeType {
    type V = TokenizeTypeView;

    open spec fn view(&self) -> TokenizeTypeView {
        match self {
            TokenizeType::Arg(v) => TokenizeTypeView::Arg(argtypes_view(v@)),
            TokenizeType::End(t) => TokenizeTypeView::End(*t),
        }
    }
}

pub open spec fn toktypes_view(s: Seq<TokenizeType>) -> Seq<TokenizeTypeView> {
    s.map_values(|t: TokenizeType| t@)
}

pub type TokenizedCommands = Vec<Command>;

/// The text of an argument: its pieces concatenated.
pub open spec fn concat_parts(parts: Seq<ArgTypeView>) -> Seq<char>
    decreases parts.len(),
{
    if parts.len() == 0 {
        Seq::empty()
    } else {
        concat_parts(parts.drop_last()) + (match parts.last() {
            ArgTypeView::Quoted(s) => s,
            ArgTypeView::Raw(s) => s,
        })
    }
}

/// Whether a token is the lone literal `&`.
pub open spec fn is_lone_amp(t: TokenizeTypeView) -> bool {
    &&& t matches TokenizeTypeView::Arg(ps)
    &&& ps.len() == 1
    &&& ps[0] matches ArgTypeView::Raw(s)
    &&& s == "&"@
}

/// The non-empty argument texts before the first separator.
pub open spec fn collect_args(rest: Seq<TokenizeTypeView>) -> Seq<Seq<char>>
    decreases rest.len(),
{
    if rest.len() == 0 {
        Seq::empty()
    } else {
        match rest[0] {
            TokenizeTypeView::Arg(ps) => {
                let t = concat_parts(ps);
                if t.len() > 0 {
                    seq![t] + collect_args(rest.skip(1))
                } else {
                    collect_args(rest.skip(1))
                }
            },
            TokenizeTypeView::End(_) => Seq::empty(),
        }
    }
}

/// The command a token list denotes: the first token's text names it (empty
/// names yield nothing); a trailing separator gives the joiner; a then-
/// trailing lone `&` marks background; the remaining argument texts become
/// the arguments.
pub open spec fn spec_args_to_command(args: Seq<TokenizeTypeView>) -> Option<CommandView> {
    if args.len() == 0 {
        None
    } else {
        let name = match args[0] {
            TokenizeTypeView::Arg(ps) => concat_parts(ps),
            TokenizeTypeView::End(_) => Seq::empty(),
        };
        if name.len() == 0 {
            None
        } else {
            let rest0 = args.skip(1);
            let has_end = rest0.len() > 0 && rest0.last() is End;
            let ot = if has_end {
                rest0.last()->End_0
            } else {
                OutputType::Ignore
            };
            let rest1 = if has_end {
                rest0.drop_last()
            } else {
                rest0
            };
            let has_amp = rest1.len() > 0 && is_lone_amp(rest1.last());
            let rest2 = if has_amp {
                rest1.drop_last()
            } else {
                rest1
            };
            Some(
                CommandView {
                    command: name,
                    args: collect_args(rest2),
                    background: has_amp,
                    output_type: ot,
                },
            )
        }
    }
}

/// Concatenates an argument's pieces.
fn concat_parts_exec(parts: &Vec<ArgType>) -> (r: String)
    ensures
        r@ == concat_parts(argtypes_view(parts@)),
{
    let n = parts.len();
    let mut out = String::new();
    let mut i: usize = 0;
    while i < n
        invariant
            n == parts@.len(),
            i <= n,
            out@ == concat_parts(argtypes_view(parts@).take(i as int)),
        decreases n - i,
    {
        match &parts[i] {
            ArgType::Quoted(s) => out.append(s.as_str()),
            ArgType::Raw(s) => out.append(s.as_str()),
        }
        i = i + 1;
        proof {
            let pv = argtypes_view(parts@);
            assert(pv.take(i as int).drop_last() =~= pv.take(i - 1));
            assert(pv.take(i as int).last() == pv[i - 1]);
        }
    }
    proof {
        assert(argtypes_view(parts@).take(n as int) =~= argtypes_view(parts@));
    }
    out
}

/// Builds the command a token list denotes.
pub fn args_to_command(args: Vec<TokenizeType>) -> (r: Option<Command>)
    ensures
        match r {
            Some(c) => spec_args_to_command(toktypes_view(args@)) == Some(c@),
            None => spec_args_to_command(toktypes_view(args@)) is None,
        },
{
    let ghost av = toktypes_view(args@);
    if args.len() == 0 {
        return None;
    }
    let cmd_name = match &args[0] {
        TokenizeType::Arg(ps) => concat_parts_exec(ps),
        TokenizeType::End(_) => String::new(),
    };
    if cmd_name.as_str().unicode_len() == 0 {
        proof {
            assert(cmd_name@ =~= Seq::<char>::empty() ==> cmd_name@.len() == 0);
        }
        return None;
    }
    let mut rest_hi = args.len();
    let ghost rest0 = av.skip(1);
    let mut output_type = OutputType::Ignore;
    let mut has_end = false;
    if rest_hi > 1 {
        match &args[rest_hi - 1] {
            TokenizeType::End(t) => {
                output_type = *t;
                rest_hi = rest_hi - 1;
                has_end = true;
            },
            _ => {},
        }
    }
    proof {
        assert(has_end == (rest0.len() > 0 && rest0.last() is End));
        if has_end {
            assert(rest0.last() == av[av.len() - 1]);
        }
    }
    let ghost rest1 = if has_end {
        rest0.drop_last()
    } else {
        rest0
    };
    let mut background = false;
    if rest_hi > 1 {
        let is_amp = match &args[rest_hi - 1] {
            TokenizeType::Arg(ps) => {
                if ps.len() == 1 {
                    match &ps[0] {
                        ArgType::Raw(s) => crate::chars::str_eq(s.as_str(), "&"),
                        _ => false,
                    }
                } else {
                    false
                }
            },
            _ => false,
        };
        if is_amp {
            background = true;
            rest_hi = rest_hi - 1;
        }
    }
    proof {
        assert(background == (rest1.len() > 0 && is_lone_amp(rest1.last()))) by {
            if rest1.len() > 0 {
                assert(rest1.last() == av[rest1.len() as int]);
            }
        }
    }
    let ghost rest2 = if background {
        rest1.drop_last()
    } else {
        rest1
    };
    let mut output_args: Vec<String> = Vec::new();
    let mut i: usize = 1;
    let mut broke = false;
    proof {
        assert(rest2 =~= av.subrange(1, rest_hi as int));
    }
    while i < rest_hi && !broke
        invariant
            1 <= i <= rest_hi <= args@.len(),
            av == toktypes_view(args@),
            rest2 =~= av.subrange(1, rest_hi as int),
            !broke ==> collect_args(rest2) == output_args@.map_values(|a: String| a@)
                + collect_args(av.subrange(i as int, rest_hi as int)),
            broke ==> collect_args(rest2) == output_args@.map_values(|a: String| a@),
        decreases rest_hi - i + (if broke { 0int } else { 1int }),
    {
        let ghost tail = av.subrange(i as int, rest_hi as int);
        proof {
            assert(tail[0] == av[i as int]);
            assert(tail.skip(1) =~= av.subrange(i as int + 1, rest_hi as int));
        }
        match &args[i] {
            TokenizeType::Arg(ps) => {
                let t = concat_parts_exec(ps);
                if t.as_str().unicode_len() > 0 {
                    let ghost prev = output_args@.map_values(|a: String| a@);
                    output_args.push(t);
                    proof {
                        assert(output_args@.map_values(|a: String| a@) =~= prev.push(
                            concat_parts(av[i as int]->Arg_0),
                        ));
                        assert(prev.push(concat_parts(av[i as int]->Arg_0)) + collect_args(
                            tail.skip(1),
                        ) =~= prev + (seq![concat_parts(av[i as int]->Arg_0)] + collect_args(
                            tail.skip(1),
                        )));
                    }
                }
            },
            TokenizeType::End(_) => {
                broke = true;
                proof {
                    assert(collect_args(tail) =~= Seq::<Seq<char>>::empty());
                    assert(output_args@.map_values(|a: String| a@) + Seq::<Seq<char>>::empty()
                        =~= output_args@.map_values(|a: String| a@));
                }
            },
        }
        if !broke {
            i = i + 1;
        }
    }
    proof {
        if !broke {
            assert(av.subrange(i as int, rest_hi as int) =~= Seq::<TokenizeTypeView>::empty());
            assert(collect_args(Seq::<TokenizeTypeView>::empty()) =~= Seq::<Seq<char>>::empty());
            assert(output_args@.map_values(|a: String| a@) + Seq::<Seq<char>>::empty()
                =~= output_args@.map_values(|a: String| a@));
        }
    }
    let command = Command::new(cmd_name, output_args, background, output_type);
    Some(command)
}

/// The tokenizer's running state.
pub struct TokState {
    pub commands: Seq<CommandView>,
    pub args: Seq<TokenizeTypeView>,
    pub arg: Seq<ArgTypeView>,
    pub arg_part: Seq<char>,
    pub in_quote: Option<char>,
    pub quote_pos: int,
    pub last_buf_char: char,
    pub last_escaped: bool,
}

pub open spec fn init_tok_state() -> TokState {
    TokState {
        commands: Seq::empty(),
        args: Seq::empty(),
        arg: Seq::empty(),
        arg_part: Seq::empty(),
        in_quote: None,
        quote_pos: 0,
        last_buf_char: '\u{0}',
        last_escaped: false,
    }
}

/// The characters an escape passes through unchanged.
pub open spec fn is_escape_passthrough(c: char) -> bool {
    c == '#' || c == ';' || c == '|' || c == '&' || c == '>' || c == '\\' || c == '"' || c == '\''
}

pub open spec fn flush_part_raw(st: TokState) -> TokState {
    if st.arg_part.len() > 0 {
        TokState { arg: st.arg.push(ArgTypeView::Raw(st.arg_part)), arg_part: Seq::empty(), ..st }
    } else {
        st
    }
}

/// One character of the scan. `b` is the character's byte offset in the
/// line.
pub open spec fn tok_step(st: TokState, b: int, c: char) -> Result<TokState, TokenizationErrorView> {
    if st.last_buf_char == '\\' && !st.last_escaped {
        if is_escape_passthrough(c) {
            let st1 = if st.arg_part.len() > 0 && st.in_quote is None {
                TokState {
                    arg: st.arg.push(ArgTypeView::Raw(st.arg_part)),
                    arg_part: seq![c],
                    ..st
                }
            } else {
                st
            };
            Ok(TokState { last_escaped: true, last_buf_char: c, ..st1 })
        } else if c == 'n' {
            Ok(
                TokState {
                    arg_part: st.arg_part.push('\n'),
                    last_escaped: true,
                    last_buf_char: c,
                    ..st
                },
            )
        } else if c == 'r' {
            Ok(
                TokState {
                    arg_part: st.arg_part.push('\r'),
                    last_escaped: true,
                    last_buf_char: c,
                    ..st
                },
            )
        } else if c == 't' {
            Ok(
                TokState {
                    arg_part: st.arg_part.push('\t'),
                    last_escaped: true,
                    last_buf_char: c,
                    ..st
                },
            )
        } else {
            Err(TokenizationErrorView::InvalidEscape(b + char_byte_len(c), c))
        }
    } else if c == '\'' || c == '"' {
        let st1 = match st.in_quote {
            None => {
                let f = flush_part_raw(st);
                TokState { in_quote: Some(c), quote_pos: b + char_byte_len(c), ..f }
            },
            Some(q) => if q == c {
                if st.arg_part.len() > 0 {
                    TokState {
                        arg: st.arg.push(ArgTypeView::Quoted(st.arg_part)),
                        arg_part: Seq::empty(),
                        in_quote: None,
                        ..st
                    }
                } else {
                    TokState { in_quote: None, ..st }
                }
            } else {
                TokState { arg_part: st.arg_part.push(c), ..st }
            },
        };
        Ok(TokState { last_escaped: false, last_buf_char: c, ..st1 })
    } else if c == ' ' && st.in_quote is None {
        let st1 = flush_part_raw(st);
        let st2 = if st1.arg.len() > 0 {
            TokState {
                args: st1.args.push(TokenizeTypeView::Arg(st1.arg)),
                arg: Seq::empty(),
                ..st1
            }
        } else {
            st1
        };
        Ok(TokState { last_escaped: false, last_buf_char: c, ..st2 })
    } else if (c == ';' || c == '|') && st.in_quote is None {
        let st1 = if st.arg_part.len() > 0 {
            TokState {
                args: st.args.push(TokenizeTypeView::Arg(st.arg.push(ArgTypeView::Raw(st.arg_part)))),
                arg: Seq::empty(),
                arg_part: Seq::empty(),
                ..st
            }
        } else {
            st
        };
        let joiner = if c == '|' {
            OutputType::Pipe
        } else {
            OutputType::Ignore
        };
        let with_end = st1.args.push(TokenizeTypeView::End(joiner));
        match spec_args_to_command(with_end) {
            Some(cmd) => Ok(
                TokState {
                    commands: st1.commands.push(cmd),
                    args: Seq::empty(),
                    last_escaped: false,
                    last_buf_char: c,
                    ..st1
                },
            ),
            None => Err(TokenizationErrorView::UnexpectedValue(b, "command"@, "null"@)),
        }
    } else if c != '\\' {
        Ok(TokState { arg_part: st.arg_part.push(c), last_escaped: false, last_buf_char: c, ..st })
    } else {
        Ok(TokState { last_escaped: false, last_buf_char: c, ..st })
    }
}

/// End of line: flush, close the final command if one was named, and report
/// a dangling separator, an unterminated quote or a trailing backslash.
pub open spec fn tok_finish(st: TokState, end_pos: int) -> Result<
    Seq<CommandView>,
    TokenizationErrorView,
> {
    let st1 = flush_part_raw(st);
    let st2 = if st1.arg.len() > 0 {
        TokState { args: st1.args.push(TokenizeTypeView::Arg(st1.arg)), arg: Seq::empty(), ..st1 }
    } else {
        st1
    };
    let commands_res = match spec_args_to_command(st2.args) {
        Some(cmd) => Ok(st2.commands.push(cmd)),
        None => if st2.commands.len() > 0 && st2.commands.last().output_type != OutputType::Ignore {
            Err(TokenizationErrorView::UnexpectedValue(end_pos, "command"@, "null"@))
        } else {
            Ok(st2.commands)
        },
    };
    match commands_res {
        Err(e) => Err(e),
        Ok(cmds) => match st2.in_quote {
            Some(q) => Err(TokenizationErrorView::UnterminateQuote(st2.quote_pos, q)),
            None => if st2.last_buf_char == '\\' && !st2.last_escaped {
                Err(TokenizationErrorView::InvalidEscape(end_pos, '\u{0}'))
            } else {
                Ok(cmds)
            },
        },
    }
}

/// The scan of the characters `i..end`, started in state `st`, with `b` the
/// byte offset of character `i`; at the end of the scan `b` is the byte
/// offset the line's errors report.
pub open spec fn tokenize_from(s: Seq<char>, i: int, end: int, b: int, st: TokState) -> Result<
    Seq<CommandView>,
    TokenizationErrorView,
>
    decreases end - i,
{
    if i < 0 || i >= end || i >= s.len() {
        tok_finish(st, b)
    } else {
        match tok_step(st, b, s[i]) {
            Ok(st2) => tokenize_from(s, i + 1, end, b + char_byte_len(s[i]), st2),
            Err(e) => Err(e),
        }
    }
}

pub open spec fn ws_char(c: char) -> bool {
    c == ' ' || c == '\t' || c == '\n' || c == '\r'
}

/// Length of the whitespace run starting at `i`.
pub open spec fn ws_run(s: Seq<char>, i: int) -> int
    decreases s.len() - i,
{
    if i < s.len() && ws_char(s[i]) {
        1 + ws_run(s, i + 1)
    } else {
        0
    }
}

/// Length of the whitespace run ending just before `e`.
pub open spec fn ws_suffix(s: Seq<char>, e: int) -> int
    decreases e,
{
    if 0 < e <= s.len() && ws_char(s[e - 1]) {
        1 + ws_suffix(s, e - 1)
    } else {
        0
    }
}

/// The scan of a whole line: surrounding whitespace is trimmed away, but
/// positions in errors are byte offsets into the whole line.
pub open spec fn spec_tokenize(s: Seq<char>) -> Result<Seq<CommandView>, TokenizationErrorView> {
    if s.len() == 0 {
        Ok(Seq::empty())
    } else {
        let lt = ws_run(s, 0);
        let e0 = s.len() - ws_suffix(s, s.len() as int);
        let end = if e0 < lt {
            lt
        } else {
            e0
        };
        tokenize_from(s, lt, end, byte_len_of(s.take(lt)), init_tok_state())
    }
}

pub open spec fn commands_view(cmds: Seq<Command>) -> Seq<CommandView> {
    cmds.map_values(|c: Command| c@)
}

pub open spec fn tok_result_view(r: Result<Vec<Command>, TokenizationError>) -> Result<
    Seq<CommandView>,
    TokenizationErrorView,
> {
    match r {
        Ok(v) => Ok(commands_view(v@)),
        Err(e) => Err(e@),
    }
}

proof fn lemma_ws_run_bounds(s: Seq<char>, i: int)
    requires
        0 <= i <= s.len(),
    ensures
        0 <= ws_run(s, i),
        i + ws_run(s, i) <= s.len(),
    decreases s.len() - i,
{
    if i < s.len() && ws_char(s[i]) {
        lemma_ws_run_bounds(s, i + 1);
    }
}

proof fn lemma_ws_suffix_bounds(s: Seq<char>, e: int)
    requires
        0 <= e <= s.len(),
    ensures
        0 <= ws_suffix(s, e) <= e,
    decreases e,
{
    if 0 < e && ws_char(s[e - 1]) {
        lemma_ws_suffix_bounds(s, e - 1);
    }
}

fn ws_run_at(v: &Vec<char>, i: usize) -> (n: usize)
    requires
        i <= v@.len(),
    ensures
        n == ws_run(v@, i as int),
        i + n <= v@.len(),
{
    proof {
        lemma_ws_run_bounds(v@, i as int);
    }
    let mut j: usize = i;
    while j < v.len() && (v[j] == ' ' || v[j] == '\t' || v[j] == '\n' || v[j] == '\r')
        invariant
            i <= j <= v@.len(),
            ws_run(v@, i as int) == (j - i) + ws_run(v@, j as int),
        decreases v@.len() - j,
    {
        j = j + 1;
    }
    j - i
}

fn ws_suffix_at(v: &Vec<char>) -> (n: usize)
    ensures
        n == ws_suffix(v@, v@.len() as int),
        n <= v@.len(),
{
    proof {
        lemma_ws_suffix_bounds(v@, v@.len() as int);
    }
    let mut e: usize = v.len();
    while e > 0 && (v[e - 1] == ' ' || v[e - 1] == '\t' || v[e - 1] == '\n' || v[e - 1] == '\r')
        invariant
            e <= v@.len(),
            ws_suffix(v@, v@.len() as int) == (v@.len() - e) + ws_suffix(v@, e as int),
        decreases e,
    {
        e = e - 1;
    }
    v.len() - e
}

/// Scans a line into its command list. Positions in errors are byte offsets
/// into the given line.
pub fn tokenize_command(command_buffer: String) -> (r: Result<TokenizedCommands, TokenizationError>)
    requires
        byte_len_of(command_buffer@) <= usize::MAX,
    ensures
        tok_result_view(r) == spec_tokenize(command_buffer@),
{
    let v = str_to_chars(command_buffer.as_str());
    if v.len() == 0 {
        let out: Vec<Command> = Vec::new();
        proof {
            assert(commands_view(out@) =~= Seq::<CommandView>::empty());
        }
        return Ok(out);
    }
    let lt = ws_run_at(&v, 0);
    let suf = ws_suffix_at(&v);
    let e0 = v.len() - suf;
    let end = if e0 < lt {
        lt
    } else {
        e0
    };
    proof {
        assert(v@.take(0) =~= Seq::<char>::empty());
    }
    let mut b: usize = byte_span_end(&v, 0, lt, 0);

    let mut commands: Vec<Command> = Vec::new();
    let mut args: Vec<TokenizeType> = Vec::new();
    let mut arg: Vec<ArgType> = Vec::new();
    let mut arg_part: Vec<char> = Vec::new();
    let mut in_quote: Option<char> = None;
    let mut quote_pos: usize = 0;
    let mut last_buf_char: char = '\u{0}';
    let mut last_escaped: bool = false;
    let ghost mut st = init_tok_state();

    let mut i: usize = lt;
    while i < end
        invariant
            lt <= i <= end <= v@.len(),
            v@ == command_buffer@,
            byte_len_of(v@) <= usize::MAX,
            b == byte_len_of(v@.take(i as int)),
            st.commands == commands_view(commands@),
            st.args == toktypes_view(args@),
            st.arg == argtypes_view(arg@),
            st.arg_part == arg_part@,
            st.in_quote == in_quote,
            st.quote_pos == quote_pos as int,
            st.last_buf_char == last_buf_char,
            st.last_escaped == last_escaped,
            spec_tokenize(command_buffer@) == tokenize_from(v@, i as int, end as int, b as int, st),
        decreases end - i,
    {
        let ghost st0 = st;
        let c = v[i];
        let cl = exec_char_byte_len(c);
        proof {
            lemma_byte_len_take_succ(v@, i as int);
            lemma_byte_len_prefix_bound(v@, i as int + 1);
        }
        if last_buf_char == '\\' && !last_escaped {
            if c == '#' || c == ';' || c == '|' || c == '&' || c == '>' || c == '\\' || c == '"'
                || c == '\'' {
                if arg_part.len() > 0 && in_quote.is_none() {
                    let part = chars_to_string(&arg_part);
                    let ghost prev_arg = argtypes_view(arg@);
                    arg.push(ArgType::Raw(part));
                    arg_part = vec![c];
                    proof {
                        assert(argtypes_view(arg@) =~= prev_arg.push(
                            ArgTypeView::Raw(st0.arg_part),
                        ));
                        assert(arg_part@ =~= seq![c]);
                    }
                }
                last_escaped = true;
                last_buf_char = c;
                proof {
                    st = if st0.arg_part.len() > 0 && st0.in_quote is None {
                        TokState {
                            arg: st0.arg.push(ArgTypeView::Raw(st0.arg_part)),
                            arg_part: seq![c],
                            last_escaped: true,
                            last_buf_char: c,
                            ..st0
                        }
                    } else {
                        TokState { last_escaped: true, last_buf_char: c, ..st0 }
                    };
                    assert(tok_step(st0, b as int, c) == Ok::<
                        TokState,
                        TokenizationErrorView,
                    >(st));
                }
            } else if c == 'n' || c == 'r' || c == 't' {
                let e = if c == 'n' {
                    '\n'
                } else if c == 'r' {
                    '\r'
                } else {
                    '\t'
                };
                arg_part.push(e);
                last_escaped = true;
                last_buf_char = c;
                proof {
                    st = TokState {
                        arg_part: st0.arg_part.push(e),
                        last_escaped: true,
                        last_buf_char: c,
                        ..st0
                    };
                    assert(tok_step(st0, b as int, c) == Ok::<
                        TokState,
                        TokenizationErrorView,
                    >(st));
                }
            } else {
                return Err(TokenizationError::InvalidEscape(b + cl, c));
            }
        } else if c == '\'' || c == '"' {
            match in_quote {
                None => {
                    if arg_part.len() > 0 {
                        let part = chars_to_string(&arg_part);
                        let ghost prev_arg = argtypes_view(arg@);
                        arg.push(ArgType::Raw(part));
                        arg_part = Vec::new();
                        proof {
                            assert(argtypes_view(arg@) =~= prev_arg.push(
                                ArgTypeView::Raw(st0.arg_part),
                            ));
                        }
                    }
                    in_quote = Some(c);
                    quote_pos = b + cl;
                },
                Some(q) => {
                    if q == c {
                        if arg_part.len() > 0 {
                            let part = chars_to_string(&arg_part);
                            let ghost prev_arg = argtypes_view(arg@);
                            arg.push(ArgType::Quoted(part));
                            arg_part = Vec::new();
                            proof {
                                assert(argtypes_view(arg@) =~= prev_arg.push(
                                    ArgTypeView::Quoted(st0.arg_part),
                                ));
                            }
                        }
                        in_quote = None;
                    } else {
                        arg_part.push(c);
                    }
                },
            }
            last_escaped = false;
            last_buf_char = c;
            proof {
                st = TokState {
                    commands: st0.commands,
                    args: st0.args,
                    arg: argtypes_view(arg@),
                    arg_part: arg_part@,
                    in_quote: in_quote,
                    quote_pos: quote_pos as int,
                    last_buf_char: c,
                    last_escaped: false,
                };
                assert(st.arg_part =~= arg_part@);
                assert(tok_step(st0, b as int, c) == Ok::<TokState, TokenizationErrorView>(st));
            }
        } else if c == ' ' && in_quote.is_none() {
            if arg_part.len() > 0 {
                let part = chars_to_string(&arg_part);
                let ghost prev_arg = argtypes_view(arg@);
                arg.push(ArgType::Raw(part));
                arg_part = Vec::new();
                proof {
                    assert(argtypes_view(arg@) =~= prev_arg.push(ArgTypeView::Raw(st0.arg_part)));
                }
            }
            if arg.len() > 0 {
                let ghost prev_args = toktypes_view(args@);
                let done_arg = arg;
                arg = Vec::new();
                let ghost done_view = argtypes_view(done_arg@);
                args.push(TokenizeType::Arg(done_arg));
                proof {
                    assert(toktypes_view(args@) =~= prev_args.push(
                        TokenizeTypeView::Arg(done_view),
                    ));
                    assert(argtypes_view(arg@) =~= Seq::<ArgTypeView>::empty());
                }
            }
            last_escaped = false;
            last_buf_char = c;
            proof {
                st = TokState {
                    commands: st0.commands,
                    args: toktypes_view(args@),
                    arg: argtypes_view(arg@),
                    arg_part: arg_part@,
                    in_quote: st0.in_quote,
                    quote_pos: st0.quote_pos,
                    last_buf_char: c,
                    last_escaped: false,
                };
                assert(st.arg_part =~= arg_part@);
                assert(tok_step(st0, b as int, c) == Ok::<TokState, TokenizationErrorView>(st));
            }
        } else if (c == ';' || c == '|') && in_quote.is_none() {
            if arg_part.len() > 0 {
                let part = chars_to_string(&arg_part);
                let ghost prev_arg = argtypes_view(arg@);
                let ghost prev_args = toktypes_view(args@);
                arg.push(ArgType::Raw(part));
                let done_arg = arg;
                arg = Vec::new();
                arg_part = Vec::new();
                let ghost done_view = argtypes_view(done_arg@);
                args.push(TokenizeType::Arg(done_arg));
                proof {
                    assert(done_view =~= prev_arg.push(ArgTypeView::Raw(st0.arg_part)));
                    assert(toktypes_view(args@) =~= prev_args.push(
                        TokenizeTypeView::Arg(done_view),
                    ));
                    assert(argtypes_view(arg@) =~= Seq::<ArgTypeView>::empty());
                }
            }
            let joiner = if c == '|' {
                OutputType::Pipe
            } else {
                OutputType::Ignore
            };
            let ghost args_before_end = toktypes_view(args@);
            args.push(TokenizeType::End(joiner));
            proof {
                assert(toktypes_view(args@) =~= args_before_end.push(
                    TokenizeTypeView::End(joiner),
                ));
            }
            let done_args = args;
            args = Vec::new();
            match args_to_command(done_args) {
                Some(cmd) => {
                    let ghost prev_cmds = commands_view(commands@);
                    let ghost cmdv = cmd@;
                    commands.push(cmd);
                    last_escaped = false;
                    last_buf_char = c;
                    proof {
                        assert(commands_view(commands@) =~= prev_cmds.push(cmdv));
                        st = TokState {
                            commands: commands_view(commands@),
                            args: Seq::empty(),
                            arg: argtypes_view(arg@),
                            arg_part: arg_part@,
                            in_quote: st0.in_quote,
                            quote_pos: st0.quote_pos,
                            last_buf_char: c,
                            last_escaped: false,
                        };
                        assert(toktypes_view(args@) =~= Seq::<TokenizeTypeView>::empty());
                        assert(tok_step(st0, b as int, c) == Ok::<
                            TokState,
                            TokenizationErrorView,
                        >(st));
                    }
                },
                None => {
                    proof {
                        assert(tok_step(st0, b as int, c) == Err::<
                            TokState,
                            TokenizationErrorView,
                        >(TokenizationErrorView::UnexpectedValue(b as int, "command"@, "null"@)));
                    }
                    return Err(
                        TokenizationError::UnexpectedValue(
                            b,
                            "command".to_owned(),
                            "null".to_owned(),
                        ),
                    );
                },
            }
        } else if c != '\\' {
            arg_part.push(c);
            last_escaped = false;
            last_buf_char = c;
            proof {
                st = TokState {
                    arg_part: st0.arg_part.push(c),
                    last_escaped: false,
                    last_buf_char: c,
                    ..st0
                };
                assert(tok_step(st0, b as int, c) == Ok::<TokState, TokenizationErrorView>(st));
            }
        } else {
            last_escaped = false;
            last_buf_char = c;
            proof {
                st = TokState { last_escaped: false, last_buf_char: c, ..st0 };
                assert(tok_step(st0, b as int, c) == Ok::<TokState, TokenizationErrorView>(st));
            }
        }
        i = i + 1;
        b = b + cl;
    }

    let ghost stf = st;
    if arg_part.len() > 0 {
        let part = chars_to_string(&arg_part);
        let ghost prev_arg = argtypes_view(arg@);
        arg.push(ArgType::Raw(part));
        proof {
            assert(argtypes_view(arg@) =~= prev_arg.push(ArgTypeView::Raw(stf.arg_part)));
        }
    }
    proof {
        assert(argtypes_view(arg@) == flush_part_raw(stf).arg);
    }
    let ghost st1 = flush_part_raw(stf);
    if arg.len() > 0 {
        let ghost prev_args = toktypes_view(args@);
        let done_arg = arg;
        let ghost done_view = argtypes_view(done_arg@);
        args.push(TokenizeType::Arg(done_arg));
        proof {
            assert(toktypes_view(args@) =~= prev_args.push(TokenizeTypeView::Arg(done_view)));
        }
    }
    let ghost st2 = if st1.arg.len() > 0 {
        TokState { args: st1.args.push(TokenizeTypeView::Arg(st1.arg)), arg: Seq::empty(), ..st1 }
    } else {
        st1
    };
    proof {
        assert(toktypes_view(args@) == st2.args);
    }
    match args_to_command(args) {
        Some(cmd) => {
            let ghost prev_cmds = commands_view(commands@);
            let ghost cmdv = cmd@;
            commands.push(cmd);
            proof {
                assert(commands_view(commands@) =~= prev_cmds.push(cmdv));
            }
        },
        None => {
            if commands.len() > 0 {
                let tail_joiner = commands[commands.len() - 1].output_type;
                if !matches!(tail_joiner, OutputType::Ignore) {
                    proof {
                        assert(commands_view(commands@).last() == commands@.last()@);
                    }
                    return Err(
                        TokenizationError::UnexpectedValue(
                            b,
                            "command".to_owned(),
                            "null".to_owned(),
                        ),
                    );
                }
            }
            proof {
                assert(commands_view(commands@).len() > 0 ==> commands_view(
                    commands@,
                ).last() == commands@.last()@);
            }
        },
    }
    match in_quote {
        Some(q) => Err(TokenizationError::UnterminateQuote(quote_pos, q)),
        None => {
            if last_buf_char == '\\' && !last_escaped {
                Err(TokenizationError::InvalidEscape(b, '\u{0}'))
            } else {
                Ok(commands)
            }
        },
    }
}

} // verus!
