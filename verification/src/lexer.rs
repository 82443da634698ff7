//! The lexer: a single-pass, maximal-munch scan of an input line into a
//! stream of tokens, each carrying its byte span and slice for diagnostics.
//!
//! The token grammar, stated over character sequences by [`scan_token`]:
//! a `#` starts a comment running to the end of the line; runs of word
//! characters form words, runs of digits form number literals (preferred over
//! words on ties); runs of spaces form whitespace; `"`/`'` pairs delimit
//! string literals whose stored text is unescaped; `&` is a background
//! marker; `; && || | > >>` are output operators; `$NAME` and `$ENV:NAME`
//! are variable references. Anything unmatched is an error token, fatal to
//! lexing.

use vstd::prelude::*;

use crate::chars::byte_len_of;
use crate::chars::chars_to_string;
use crate::chars::copy_char_range;
use crate::chars::digit_char;
use crate::chars::exec_char_byte_len;
use crate::chars::is_digit_char;
use crate::chars::is_name_char;
use crate::chars::is_word_char;
use crate::chars::lemma_byte_len_prefix_bound;
use crate::chars::lemma_byte_len_split;
use crate::chars::lemma_byte_len_take_succ;
use crate::chars::str_to_chars;
use crate::chars::word_char;
use crate::parser::OutputType;

verus! {

#[derive(Debug, Clone, PartialEq, Eq)]
pub enum Token {
    Comment,
    Word,
    Whitespace,
    StringLiteral(String),
    NumberLiteral,
    Background,
    Output(OutputType),
    Variable(String, bool),
    Error,
}

/// The mathematical shape of a token: payloads are character sequences.
pub enum TokenView {
    Comment,
    Word,
    Whitespace,
    StringLiteral(Seq<char>),
    NumberLiteral,
    Background,
    Output(OutputType),
    Variable(Seq<char>, bool),
    Error,
}

impl View for Token {
    type V = TokenView;

    open spec fn view(&self) -> TokenView {
        match self {
            Token::Comment => TokenView::Comment,
            Token::Word => TokenView::Word,
            Token::Whitespace => TokenView::Whitespace,
            Token::StringLiteral(s) => TokenView::StringLiteral(s@),
            Token::NumberLiteral => TokenView::NumberLiteral,
            Token::Background => TokenView::Background,
            Token::Output(t) => TokenView::Output(*t),
            Token::Variable(name, is_env) => TokenView::Variable(name@, *is_env),
            Token::Error => TokenView::Error,
        }
    }
}

impl Token {
    /// A copy of the token; string payloads are cloned.
    pub fn duplicate(&self) -> (r: Token)
        ensures
            r == *self,
    {
        match self {
            Token::Comment => Token::Comment,
            Token::Word => Token::Word,
            Token::Whitespace => Token::Whitespace,
            Token::StringLiteral(s) => Token::StringLiteral(s.clone()),
            Token::NumberLiteral => Token::NumberLiteral,
            Token::Background => Token::Background,
            Token::Output(t) => Token::Output(*t),
            Token::Variable(name, is_env) => Token::Variable(name.clone(), *is_env),
            Token::Error => Token::Error,
        }
    }
}

impl Default for Token {
    /// The default token is the error token.
    fn default() -> (r: Self)
        ensures
            r == Token::Error,
    {
        Token::Error
    }
}

/// One lexed token with its byte span in the input line and the text it
/// covers.
#[derive(Debug, Clone, PartialEq, Eq)]
pub struct Lexeme {
    pub token: Token,
    pub start: usize,
    pub end: usize,
    pub slice: String,
}

pub struct LexemeView {
    pub token: TokenView,
    pub start: int,
    pub end: int,
    pub slice: Seq<char>,
}

impl View for Lexeme {
    type V = LexemeView;

    open spec fn view(&self) -> LexemeView {
        LexemeView {
            token: self.token@,
            start: self.start as int,
            end: self.end as int,
            slice: self.slice@,
        }
    }
}

pub open spec fn lexemes_view(s: Seq<Lexeme>) -> Seq<LexemeView> {
    s.map_values(|l: Lexeme| l@)
}

/// The character classes whose maximal runs form tokens.
#[derive(Clone, Copy, PartialEq, Eq, Structural, Debug)]
pub enum CharClass {
    WordChars,
    DigitChars,
    NameChars,
    SpaceChars,
}

pub open spec fn class_contains(cls: CharClass, c: char) -> bool {
    match cls {
        CharClass::WordChars => is_word_char(c),
        CharClass::DigitChars => is_digit_char(c),
        CharClass::NameChars => is_name_char(c),
        CharClass::SpaceChars => c == ' ',
    }
}

pub fn class_matches(cls: CharClass, c: char) -> (b: bool)
    ensures
        b == class_contains(cls, c),
{
    match cls {
        CharClass::WordChars => word_char(c),
        CharClass::DigitChars => digit_char(c),
        CharClass::NameChars => crate::chars::name_char(c),
        CharClass::SpaceChars => c == ' ',
    }
}

/// Length of the maximal run of `cls` characters starting at `i`.
pub open spec fn run_len(s: Seq<char>, i: int, cls: CharClass) -> int
    decreases s.len() - i,
{
    if i < s.len() && class_contains(cls, s[i]) {
        1 + run_len(s, i + 1, cls)
    } else {
        0
    }
}

pub proof fn lemma_run_len_bounds(s: Seq<char>, i: int, cls: CharClass)
    requires
        0 <= i <= s.len(),
    ensures
        0 <= run_len(s, i, cls),
        i + run_len(s, i, cls) <= s.len(),
    decreases s.len() - i,
{
    if i < s.len() && class_contains(cls, s[i]) {
        lemma_run_len_bounds(s, i + 1, cls);
    }
}

pub fn run_at(v: &Vec<char>, i: usize, cls: CharClass) -> (n: usize)
    requires
        i <= v@.len(),
    ensures
        n == run_len(v@, i as int, cls),
        i + n <= v@.len(),
{
    let mut j: usize = i;
    while j < v.len() && class_matches(cls, v[j])
        invariant
            i <= j <= v@.len(),
            run_len(v@, i as int, cls) == (j - i) + run_len(v@, j as int, cls),
        decreases v@.len() - j,
    {
        j = j + 1;
    }
    j - i
}

/// Which characters an escape may name inside a string literal: `n`, `r`,
/// `t`, the quote and backslash themselves, and the shell's own operator
/// characters, which pass through.
pub open spec fn is_escapable(c: char) -> bool {
    c == 'n' || c == 'r' || c == 't' || c == '"' || c == '\\' || c == '#' || c == ';' || c == '|'
        || c == '&' || c == '>'
}

pub open spec fn escape_value(c: char) -> char {
    if c == 'n' {
        '\n'
    } else if c == 'r' {
        '\r'
    } else if c == 't' {
        '\t'
    } else {
        c
    }
}

pub fn escapable(c: char) -> (b: bool)
    ensures
        b == is_escapable(c),
{
    c == 'n' || c == 'r' || c == 't' || c == '"' || c == '\\' || c == '#' || c == ';' || c == '|'
        || c == '&' || c == '>'
}

pub fn escape_char(c: char) -> (r: char)
    ensures
        r == escape_value(c),
{
    if c == 'n' {
        '\n'
    } else if c == 'r' {
        '\r'
    } else if c == 't' {
        '\t'
    } else {
        c
    }
}

/// Scans a string literal body from `i` (just after the opening quote `q`):
/// on success yields the unescaped content and the position just after the
/// closing quote; an unterminated literal or an invalid escape yields `None`.
pub open spec fn scan_quoted(s: Seq<char>, q: char, i: int) -> Option<(Seq<char>, int)>
    decreases s.len() - i,
{
    if i < 0 || i >= s.len() {
        None
    } else if s[i] == q {
        Some((Seq::empty(), i + 1))
    } else if s[i] == '\\' {
        if i + 1 < s.len() && is_escapable(s[i + 1]) {
            match scan_quoted(s, q, i + 2) {
                Some(p) => Some((seq![escape_value(s[i + 1])] + p.0, p.1)),
                None => None,
            }
        } else {
            None
        }
    } else {
        match scan_quoted(s, q, i + 1) {
            Some(p) => Some((seq![s[i]] + p.0, p.1)),
            None => None,
        }
    }
}

pub proof fn lemma_scan_quoted_bounds(s: Seq<char>, q: char, i: int)
    requires
        0 <= i <= s.len(),
    ensures
        match scan_quoted(s, q, i) {
            Some(p) => i < p.1 <= s.len(),
            None => true,
        },
    decreases s.len() - i,
{
    if i < s.len() {
        if s[i] == q {
        } else if s[i] == '\\' {
            if i + 1 < s.len() && is_escapable(s[i + 1]) {
                lemma_scan_quoted_bounds(s, q, i + 2);
            }
        } else {
            lemma_scan_quoted_bounds(s, q, i + 1);
        }
    }
}

spec fn prepend_scan(c: Seq<char>, r: Option<(Seq<char>, int)>) -> Option<(Seq<char>, int)> {
    match r {
        Some(p) => Some((c + p.0, p.1)),
        None => None,
    }
}

pub fn scan_quoted_at(v: &Vec<char>, q: char, start: usize) -> (r: Option<(Vec<char>, usize)>)
    requires
        start <= v@.len(),
    ensures
        match r {
            Some(p) => scan_quoted(v@, q, start as int) == Some((p.0@, p.1 as int)) && start
                < p.1 <= v@.len(),
            None => scan_quoted(v@, q, start as int) is None,
        },
{
    proof {
        lemma_scan_quoted_bounds(v@, q, start as int);
    }
    let mut content: Vec<char> = Vec::new();
    let mut j: usize = start;
    loop
        invariant
            start <= j <= v@.len(),
            scan_quoted(v@, q, start as int) == prepend_scan(
                content@,
                scan_quoted(v@, q, j as int),
            ),
            match scan_quoted(v@, q, start as int) {
                Some(p) => start < p.1 <= v@.len(),
                None => true,
            },
        decreases v@.len() - j,
    {
        if j >= v.len() {
            return None;
        }
        let c = v[j];
        if c == q {
            proof {
                assert(content@ + Seq::<char>::empty() =~= content@);
            }
            return Some((content, j + 1));
        }
        if c == '\\' {
            if j + 1 < v.len() && escapable(v[j + 1]) {
                let ghost prev = content@;
                let ghost ev = escape_value(v@[j as int + 1]);
                content.push(escape_char(v[j + 1]));
                j = j + 2;
                proof {
                    match scan_quoted(v@, q, j as int) {
                        Some(p) => {
                            assert(prev + (seq![ev] + p.0) =~= content@ + p.0);
                        },
                        None => {},
                    }
                }
            } else {
                return None;
            }
        } else {
            let ghost prev = content@;
            content.push(c);
            j = j + 1;
            proof {
                match scan_quoted(v@, q, j as int) {
                    Some(p) => {
                        assert(prev + (seq![c] + p.0) =~= content@ + p.0);
                    },
                    None => {},
                }
            }
        }
    }
}

/// One scanned token: its shape and how many characters it consumed.
pub struct Scanned {
    pub token: TokenView,
    pub len: int,
}

/// Maximal-munch scan of the token starting at `i`.
pub open spec fn scan_token(s: Seq<char>, i: int) -> Scanned
    recommends
        0 <= i < s.len(),
{
    let c = s[i];
    if c == '#' {
        Scanned { token: TokenView::Comment, len: s.len() - i }
    } else if c == ' ' {
        Scanned { token: TokenView::Whitespace, len: run_len(s, i, CharClass::SpaceChars) }
    } else if c == '"' || c == '\'' {
        match scan_quoted(s, c, i + 1) {
            Some(p) => Scanned { token: TokenView::StringLiteral(p.0), len: p.1 - i },
            None => Scanned { token: TokenView::Error, len: s.len() - i },
        }
    } else if c == '&' {
        if i + 1 < s.len() && s[i + 1] == '&' {
            Scanned { token: TokenView::Output(OutputType::Depend), len: 2 }
        } else {
            Scanned { token: TokenView::Background, len: 1 }
        }
    } else if c == '|' {
        if i + 1 < s.len() && s[i + 1] == '|' {
            Scanned { token: TokenView::Output(OutputType::DependNot), len: 2 }
        } else {
            Scanned { token: TokenView::Output(OutputType::Pipe), len: 1 }
        }
    } else if c == '>' {
        if i + 1 < s.len() && s[i + 1] == '>' {
            Scanned { token: TokenView::Output(OutputType::RedirectAppend), len: 2 }
        } else {
            Scanned { token: TokenView::Output(OutputType::Redirect), len: 1 }
        }
    } else if c == ';' {
        Scanned { token: TokenView::Output(OutputType::Ignore), len: 1 }
    } else if c == '$' {
        if i + 5 <= s.len() && s[i + 1] == 'E' && s[i + 2] == 'N' && s[i + 3] == 'V' && s[i + 4]
            == ':' && run_len(s, i + 5, CharClass::NameChars) > 0 {
            let n = run_len(s, i + 5, CharClass::NameChars);
            Scanned { token: TokenView::Variable(s.subrange(i + 5, i + 5 + n), true), len: 5 + n }
        } else if run_len(s, i + 1, CharClass::NameChars) > 0 {
            let n = run_len(s, i + 1, CharClass::NameChars);
            Scanned { token: TokenView::Variable(s.subrange(i + 1, i + 1 + n), false), len: 1 + n }
        } else {
            Scanned { token: TokenView::Error, len: 1 }
        }
    } else if is_digit_char(c) {
        let d = run_len(s, i, CharClass::DigitChars);
        let w = run_len(s, i, CharClass::WordChars);
        if w > d {
            Scanned { token: TokenView::Word, len: w }
        } else {
            Scanned { token: TokenView::NumberLiteral, len: d }
        }
    } else if is_word_char(c) {
        Scanned { token: TokenView::Word, len: run_len(s, i, CharClass::WordChars) }
    } else {
        Scanned { token: TokenView::Error, len: 1 }
    }
}

pub proof fn lemma_scan_token_len(s: Seq<char>, i: int)
    requires
        0 <= i < s.len(),
    ensures
        1 <= scan_token(s, i).len,
        i + scan_token(s, i).len <= s.len(),
{
    let c = s[i];
    lemma_run_len_bounds(s, i, CharClass::SpaceChars);
    lemma_run_len_bounds(s, i, CharClass::DigitChars);
    lemma_run_len_bounds(s, i, CharClass::WordChars);
    lemma_run_len_bounds(s, i + 1, CharClass::SpaceChars);
    lemma_run_len_bounds(s, i + 1, CharClass::DigitChars);
    lemma_run_len_bounds(s, i + 1, CharClass::WordChars);
    lemma_run_len_bounds(s, i + 1, CharClass::NameChars);
    if i + 5 <= s.len() {
        lemma_run_len_bounds(s, i + 5, CharClass::NameChars);
    }
    if c == '"' || c == '\'' {
        lemma_scan_quoted_bounds(s, c, i + 1);
    }
}

/// The lexeme stream produced from char position `i` at byte position `b`:
/// tokens are scanned one after the other; an error token ends the stream.
pub open spec fn lex_spec_from(s: Seq<char>, i: int, b: int) -> Seq<LexemeView>
    decreases s.len() - i,
    via lex_spec_from_decreases
{
    if i < 0 || i >= s.len() {
        Seq::empty()
    } else {
        let r = scan_token(s, i);
        let lm = LexemeView {
            token: r.token,
            start: b,
            end: b + byte_len_of(s.subrange(i, i + r.len)),
            slice: s.subrange(i, i + r.len),
        };
        if r.token is Error {
            seq![lm]
        } else {
            seq![lm] + lex_spec_from(s, i + r.len, lm.end)
        }
    }
}

#[via_fn]
proof fn lex_spec_from_decreases(s: Seq<char>, i: int, b: int) {
    if 0 <= i < s.len() {
        lemma_scan_token_len(s, i);
    }
}

/// The lexeme stream of a whole line.
pub open spec fn lex_spec(s: Seq<char>) -> Seq<LexemeView> {
    lex_spec_from(s, 0, 0)
}

/// Accumulates the byte length of the characters `i..j`, starting from the
/// byte position `b` of character `i`.
pub(crate) fn byte_span_end(v: &Vec<char>, i: usize, j: usize, b: usize) -> (e: usize)
    requires
        i <= j <= v@.len(),
        b == byte_len_of(v@.take(i as int)),
        byte_len_of(v@) <= usize::MAX,
    ensures
        e == byte_len_of(v@.take(j as int)),
        e == b + byte_len_of(v@.subrange(i as int, j as int)),
{
    let mut e: usize = b;
    let mut k: usize = i;
    while k < j
        invariant
            i <= k <= j <= v@.len(),
            e == byte_len_of(v@.take(k as int)),
            byte_len_of(v@) <= usize::MAX,
        decreases j - k,
    {
        let cl = exec_char_byte_len(v[k]);
        proof {
            lemma_byte_len_take_succ(v@, k as int);
            lemma_byte_len_prefix_bound(v@, k as int + 1);
        }
        e = e + cl;
        k = k + 1;
    }
    proof {
        lemma_byte_len_split(v@, i as int, j as int);
    }
    e
}

/// Scans the token starting at character `i`, yielding the token and the
/// number of characters it consumed.
pub fn scan_at(v: &Vec<char>, i: usize) -> (r: (Token, usize))
    requires
        i < v@.len(),
    ensures
        r.0@ == scan_token(v@, i as int).token,
        r.1 == scan_token(v@, i as int).len,
        1 <= r.1,
        i + r.1 <= v@.len(),
{
    proof {
        lemma_scan_token_len(v@, i as int);
    }
    let n = v.len();
    let c = v[i];
    if c == '#' {
        (Token::Comment, n - i)
    } else if c == ' ' {
        let r = run_at(v, i, CharClass::SpaceChars);
        (Token::Whitespace, r)
    } else if c == '"' || c == '\'' {
        match scan_quoted_at(v, c, i + 1) {
            Some(p) => {
                let content = chars_to_string(&p.0);
                (Token::StringLiteral(content), p.1 - i)
            },
            None => (Token::Error, n - i),
        }
    } else if c == '&' {
        if i + 1 < n && v[i + 1] == '&' {
            (Token::Output(OutputType::Depend), 2)
        } else {
            (Token::Background, 1)
        }
    } else if c == '|' {
        if i + 1 < n && v[i + 1] == '|' {
            (Token::Output(OutputType::DependNot), 2)
        } else {
            (Token::Output(OutputType::Pipe), 1)
        }
    } else if c == '>' {
        if i + 1 < n && v[i + 1] == '>' {
            (Token::Output(OutputType::RedirectAppend), 2)
        } else {
            (Token::Output(OutputType::Redirect), 1)
        }
    } else if c == ';' {
        (Token::Output(OutputType::Ignore), 1)
    } else if c == '$' {
        let env_form = n - i >= 5 && v[i + 1] == 'E' && v[i + 2] == 'N' && v[i + 3] == 'V' && v[i
            + 4] == ':' && run_at(v, i + 5, CharClass::NameChars) > 0;
        if env_form {
            let r = run_at(v, i + 5, CharClass::NameChars);
            let name_chars = copy_char_range(v, i + 5, i + 5 + r);
            let name = chars_to_string(&name_chars);
            (Token::Variable(name, true), 5 + r)
        } else if i + 1 <= n && run_at(v, i + 1, CharClass::NameChars) > 0 {
            let r = run_at(v, i + 1, CharClass::NameChars);
            let name_chars = copy_char_range(v, i + 1, i + 1 + r);
            let name = chars_to_string(&name_chars);
            (Token::Variable(name, false), 1 + r)
        } else {
            (Token::Error, 1)
        }
    } else if digit_char(c) {
        let d = run_at(v, i, CharClass::DigitChars);
        let w = run_at(v, i, CharClass::WordChars);
        if w > d {
            (Token::Word, w)
        } else {
            (Token::NumberLiteral, d)
        }
    } else if word_char(c) {
        let w = run_at(v, i, CharClass::WordChars);
        (Token::Word, w)
    } else {
        (Token::Error, 1)
    }
}

/// Lexes a line given as characters.
pub fn lex_chars(v: &Vec<char>) -> (r: Vec<Lexeme>)
    requires
        byte_len_of(v@) <= usize::MAX,
    ensures
        lexemes_view(r@) == lex_spec(v@),
{
    let mut out: Vec<Lexeme> = Vec::new();
    let mut i: usize = 0;
    let mut b: usize = 0;
    loop
        invariant
            i <= v@.len(),
            b == byte_len_of(v@.take(i as int)),
            byte_len_of(v@) <= usize::MAX,
            lex_spec(v@) == lexemes_view(out@) + lex_spec_from(v@, i as int, b as int),
        decreases v@.len() - i,
    {
        if i >= v.len() {
            proof {
                assert(lex_spec_from(v@, i as int, b as int) =~= Seq::<LexemeView>::empty());
                assert(lexemes_view(out@) + Seq::<LexemeView>::empty() =~= lexemes_view(out@));
            }
            return out;
        }
        let (tok, len) = scan_at(v, i);
        let j = i + len;
        let e = byte_span_end(v, i, j, b);
        let slice_chars = copy_char_range(v, i, j);
        let slice = chars_to_string(&slice_chars);
        let is_err = matches!(tok, Token::Error);
        let ghost prev_out = out@;
        let lexeme = Lexeme { token: tok, start: b, end: e, slice };
        out.push(lexeme);
        proof {
            let lm = LexemeView {
                token: scan_token(v@, i as int).token,
                start: b as int,
                end: b + byte_len_of(v@.subrange(i as int, i as int + scan_token(v@, i as int).len)),
                slice: v@.subrange(i as int, i as int + scan_token(v@, i as int).len),
            };
            assert(lexeme@ == lm);
            assert(lexemes_view(out@) =~= lexemes_view(prev_out).push(lm));
            assert(lexemes_view(prev_out) + (seq![lm] + lex_spec_from(v@, j as int, e as int))
                =~= lexemes_view(prev_out).push(lm) + lex_spec_from(v@, j as int, e as int));
            assert(lexemes_view(prev_out) + seq![lm] =~= lexemes_view(prev_out).push(lm));
        }
        if is_err {
            proof {
                assert(lex_spec_from(v@, i as int, b as int) == seq![lexeme@]);
                assert(lexemes_view(prev_out) + seq![lexeme@] =~= lexemes_view(out@));
            }
            return out;
        }
        i = j;
        b = e;
    }
}

/// Lexes a line.
pub fn lex_line(line: &str) -> (r: Vec<Lexeme>)
    requires
        byte_len_of(line@) <= usize::MAX,
    ensures
        lexemes_view(r@) == lex_spec(line@),
{
    let v = str_to_chars(line);
    lex_chars(&v)
}

/// A lexed line together with a cursor, mirroring an iterator over its
/// tokens: `next` yields the tokens in order, `span` and `slice` describe
/// the token `next` last yielded.
pub struct TokenStream {
    pub items: Vec<Lexeme>,
    pub pos: usize,
}

impl TokenStream {
    pub open spec fn wf(&self) -> bool {
        self.pos <= self.items@.len()
    }

    pub fn next(&mut self) -> (r: Option<Token>)
        requires
            old(self).wf(),
        ensures
            final(self).wf(),
            final(self).items == old(self).items,
            if old(self).pos < old(self).items@.len() {
                r == Some(old(self).items@[old(self).pos as int].token) && final(self).pos == old(
                    self,
                ).pos + 1
            } else {
                r is None && final(self).pos == old(self).pos
            },
    {
        if self.pos < self.items.len() {
            let t = self.items[self.pos].token.duplicate();
            self.pos = self.pos + 1;
            Some(t)
        } else {
            None
        }
    }

    /// Byte span of the token `next` last yielded; `(0, 0)` before the
    /// first call.
    pub fn span(&self) -> (r: (usize, usize))
        requires
            self.wf(),
        ensures
            if self.pos > 0 {
                r.0 == self.items@[self.pos - 1].start && r.1 == self.items@[self.pos - 1].end
            } else {
                r.0 == 0 && r.1 == 0
            },
    {
        if self.pos > 0 {
            (self.items[self.pos - 1].start, self.items[self.pos - 1].end)
        } else {
            (0, 0)
        }
    }

    /// Text of the token `next` last yielded; empty before the first call.
    pub fn slice(&self) -> (r: String)
        requires
            self.wf(),
        ensures
            if self.pos > 0 {
                r@ == self.items@[self.pos - 1].slice@
            } else {
                r@ == Seq::<char>::empty()
            },
    {
        if self.pos > 0 {
            self.items[self.pos - 1].slice.clone()
        } else {
            String::new()
        }
    }
}

/// Law: a string literal that never closes (or closes across an invalid
/// escape) lexes to a single error lexeme whose span starts at the opening
/// quote's own byte offset `b` — not at the end of the line — and runs to
/// the end of the line.
pub proof fn lemma_unterminated_quote(s: Seq<char>, i: int, b: int)
    requires
        0 <= i < s.len(),
        s[i] == '"' || s[i] == '\'',
        scan_quoted(s, s[i], i + 1) is None,
    ensures
        lex_spec_from(s, i, b) =~= seq![
            LexemeView {
                token: TokenView::Error,
                start: b,
                end: b + byte_len_of(s.subrange(i, s.len() as int)),
                slice: s.subrange(i, s.len() as int),
            },
        ],
{
    assert(s[i] != '#' && s[i] != ' ');
}

impl Token {
    /// Lexes a line into a token stream positioned at its start.
    pub fn lexer(line: &str) -> (r: TokenStream)
        requires
            byte_len_of(line@) <= usize::MAX,
        ensures
            r.wf(),
            r.pos == 0,
            lexemes_view(r.items@) == lex_spec(line@),
    {
        TokenStream { items: lex_line(line), pos: 0 }
    }
}

} // verus!
