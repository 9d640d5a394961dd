//! The tokenizer: from source text to a sequence of tokens.
//!
//! Blanks and `//` comments separate tokens and leave none. Every line break
//! leaves one layout token, chosen by comparing the indentation of the new
//! line with a stack of the indentation levels that are open.

use crate::error::{Error, ErrorKind, ErrorKindView, ErrorView};
use crate::span::{line_span, Span, SpanView};
use crate::text::{chars_of, same_text, text_of};
use crate::token::{Token, TokenKind, TokenView};
use vstd::prelude::*;

verus! {

/// Whether a text of `len` characters is short enough for its positions and
/// indentation widths to be counted in `usize`.
pub open spec fn tokenizable(len: nat) -> bool {
    4 * len + 4 <= usize::MAX
}

/// A space, a tab or a carriage return.
pub open spec fn is_blank(c: char) -> bool {
    c == ' ' || c == '\t' || c == '\r'
}

/// A character that may begin an identifier.
pub open spec fn is_identifier_start(c: char) -> bool {
    ('a' <= c && c <= 'z') || ('A' <= c && c <= 'Z') || c == '_'
}

/// A decimal digit.
pub open spec fn is_digit(c: char) -> bool {
    '0' <= c && c <= '9'
}

/// A character that may continue an identifier.
pub open spec fn is_identifier_part(c: char) -> bool {
    is_identifier_start(c) || is_digit(c)
}

/// A character of the margin of a line: a blank or a continuation marker.
pub open spec fn is_margin(c: char) -> bool {
    is_blank(c) || c == '\\'
}

/// The end of the longest run of identifier characters that starts at `i`.
pub open spec fn identifier_end(src: Seq<char>, i: int) -> int
    decreases src.len() - i,
{
    if 0 <= i < src.len() && is_identifier_part(src[i]) {
        identifier_end(src, i + 1)
    } else {
        i
    }
}

/// The end of the longest run of digits that starts at `i`.
pub open spec fn digits_end(src: Seq<char>, i: int) -> int
    decreases src.len() - i,
{
    if 0 <= i < src.len() && is_digit(src[i]) {
        digits_end(src, i + 1)
    } else {
        i
    }
}

/// The index of the first line break at or after `i`, or the length of the
/// text if there is none.
pub open spec fn line_end(src: Seq<char>, i: int) -> int
    decreases src.len() - i,
{
    if 0 <= i < src.len() && src[i] != '\n' {
        line_end(src, i + 1)
    } else {
        i
    }
}

/// The end of the margin that starts at `i`.
pub open spec fn margin_end(src: Seq<char>, i: int) -> int
    decreases src.len() - i,
{
    if 0 <= i < src.len() && is_margin(src[i]) {
        margin_end(src, i + 1)
    } else {
        i
    }
}

/// The indentation that `src[from..to]` amounts to: one column for a space,
/// four for a tab.
pub open spec fn margin_width(src: Seq<char>, from: int, to: int) -> int
    decreases to - from,
{
    if to <= from {
        0
    } else {
        margin_width(src, from, to - 1) + (if src[to - 1] == ' ' {
            1int
        } else if src[to - 1] == '\t' {
            4int
        } else {
            0int
        })
    }
}

/// Whether `src[from..to]` holds a continuation marker.
pub open spec fn margin_continues(src: Seq<char>, from: int, to: int) -> bool
    decreases to - from,
{
    if to <= from {
        false
    } else {
        margin_continues(src, from, to - 1) || src[to - 1] == '\\'
    }
}

/// The kind of a word: that of the keyword it spells, or `Identifier`.
pub open spec fn word_kind(word: Seq<char>) -> TokenKind {
    if word == "as"@ {
        TokenKind::As
    } else if word == "const"@ {
        TokenKind::Const
    } else if word == "fn"@ {
        TokenKind::Fn
    } else if word == "for"@ {
        TokenKind::For
    } else if word == "in"@ {
        TokenKind::In
    } else if word == "import"@ {
        TokenKind::Import
    } else if word == "mut"@ {
        TokenKind::Mut
    } else if word == "return"@ {
        TokenKind::Return
    } else if word == "struct"@ {
        TokenKind::Struct
    } else if word == "var"@ {
        TokenKind::Var
    } else if word == "int"@ {
        TokenKind::Int
    } else if word == "float"@ {
        TokenKind::Float
    } else if word == "bool"@ {
        TokenKind::Bool
    } else if word == "char"@ {
        TokenKind::Char
    } else if word == "true"@ || word == "false"@ {
        TokenKind::Boolean
    } else {
        TokenKind::Identifier
    }
}

/// The character that a backslash followed by `c` stands for inside a
/// literal delimited by `quote`.
pub open spec fn escape(c: char, quote: char) -> Option<char> {
    if c == 'n' {
        Some('\n')
    } else if c == 'r' {
        Some('\r')
    } else if c == 't' {
        Some('\t')
    } else if c == '\\' {
        Some('\\')
    } else if c == quote {
        Some(quote)
    } else {
        None
    }
}

/// The end of the number that starts at `i`: a run of digits, then either a
/// dot and a run of digits, or an exponent mark, an optional sign and a run
/// of digits.
pub open spec fn number_end(src: Seq<char>, i: int) -> int {
    let d = digits_end(src, i);
    if d < src.len() && src[d] == '.' {
        digits_end(src, d + 1)
    } else if d < src.len() && (src[d] == 'e' || src[d] == 'E') {
        if d + 1 < src.len() && (src[d + 1] == '+' || src[d + 1] == '-') {
            digits_end(src, d + 2)
        } else {
            digits_end(src, d + 1)
        }
    } else {
        d
    }
}

/// The kind of the number that starts at `i`: floating point if its digits
/// are followed by a dot or an exponent mark, integer otherwise.
pub open spec fn number_kind(src: Seq<char>, i: int) -> TokenKind {
    let d = digits_end(src, i);
    if d < src.len() && (src[d] == '.' || src[d] == 'e' || src[d] == 'E') {
        TokenKind::FloatingPoint
    } else {
        TokenKind::Integer
    }
}

/// The outcome of reading the body of a string literal.
pub enum Scan {
    /// The literal closes before `end`, and denotes `text`.
    Closed { text: Seq<char>, end: int },
    /// The literal is broken at index `at`.
    Broken { kind: ErrorKindView, at: int },
}

/// Reads the body of a string literal from `i` on, `text` being what the
/// characters before `i` denote.
pub open spec fn scan_string(src: Seq<char>, i: int, text: Seq<char>) -> Scan
    decreases src.len() - i,
{
    if i < 0 || i >= src.len() {
        Scan::Broken { kind: ErrorKindView::UnexpectedEndOfFile, at: src.len() as int }
    } else if src[i] == '"' {
        Scan::Closed { text, end: i + 1 }
    } else if src[i] == '\\' {
        if i + 1 < src.len() && escape(src[i + 1], '"') is Some {
            scan_string(src, i + 2, text.push(escape(src[i + 1], '"')->0))
        } else {
            Scan::Broken { kind: ErrorKindView::IllegalEscapeSequence, at: i + 1 }
        }
    } else {
        scan_string(src, i + 1, text.push(src[i]))
    }
}

/// Reads a character literal whose opening quote stands at `i`.
pub open spec fn scan_character(src: Seq<char>, i: int) -> Scan {
    let len = src.len() as int;
    if i + 1 >= len {
        Scan::Broken { kind: ErrorKindView::UnexpectedEndOfFile, at: len }
    } else if src[i + 1] == '\\' {
        if i + 2 < len && escape(src[i + 2], '\'') is Some {
            if i + 3 >= len {
                Scan::Broken { kind: ErrorKindView::UnexpectedEndOfFile, at: len }
            } else if src[i + 3] == '\'' {
                Scan::Closed { text: seq![escape(src[i + 2], '\'')->0], end: i + 4 }
            } else {
                Scan::Broken { kind: ErrorKindView::IllegalCharacter(src[i + 3]), at: i + 3 }
            }
        } else {
            Scan::Broken { kind: ErrorKindView::IllegalEscapeSequence, at: i + 2 }
        }
    } else if src[i + 1] == '\'' {
        Scan::Broken { kind: ErrorKindView::IllegalCharacter('\''), at: i + 1 }
    } else if i + 2 >= len {
        Scan::Broken { kind: ErrorKindView::UnexpectedEndOfFile, at: len }
    } else if src[i + 2] == '\'' {
        Scan::Closed { text: seq![src[i + 1]], end: i + 3 }
    } else {
        Scan::Broken { kind: ErrorKindView::IllegalCharacter(src[i + 2]), at: i + 2 }
    }
}

/// The operator or punctuation mark that starts at `i`, with its width: the
/// two-character mark if the next character extends the first to one, the
/// one-character mark otherwise.
pub open spec fn mark_at(src: Seq<char>, i: int) -> Option<(TokenKind, int)> {
    let c = src[i];
    let next = if i + 1 < src.len() {
        Some(src[i + 1])
    } else {
        None
    };
    if c == '(' {
        Some((TokenKind::OpenParenthesis, 1int))
    } else if c == ')' {
        Some((TokenKind::CloseParenthesis, 1int))
    } else if c == '{' {
        Some((TokenKind::OpenBrace, 1int))
    } else if c == '}' {
        Some((TokenKind::CloseBrace, 1int))
    } else if c == '[' {
        Some((TokenKind::OpenBracket, 1int))
    } else if c == ']' {
        Some((TokenKind::CloseBracket, 1int))
    } else if c == ',' {
        Some((TokenKind::Comma, 1int))
    } else if c == '.' {
        Some((TokenKind::Dot, 1int))
    } else if c == ':' {
        Some((TokenKind::Colon, 1int))
    } else if c == ';' {
        Some((TokenKind::Semicolon, 1int))
    } else if c == '^' {
        Some((TokenKind::Caret, 1int))
    } else if c == '~' {
        Some((TokenKind::Tilde, 1int))
    } else if c == '-' && next == Some('>') {
        Some((TokenKind::Arrow, 2int))
    } else if c == '+' {
        Some(extended(next, '=', TokenKind::Plus, TokenKind::PlusEquals))
    } else if c == '-' {
        Some(extended(next, '=', TokenKind::Minus, TokenKind::MinusEquals))
    } else if c == '*' {
        Some(extended(next, '=', TokenKind::Asterisk, TokenKind::AsteriskEquals))
    } else if c == '/' {
        Some(extended(next, '=', TokenKind::Slash, TokenKind::SlashEquals))
    } else if c == '%' {
        Some(extended(next, '=', TokenKind::Percent, TokenKind::PercentEquals))
    } else if c == '=' {
        Some(extended(next, '=', TokenKind::Equals, TokenKind::EqualsEquals))
    } else if c == '!' {
        Some(extended(next, '=', TokenKind::Bang, TokenKind::BangEquals))
    } else if c == '<' {
        Some(extended(next, '=', TokenKind::LessThan, TokenKind::LessThanEquals))
    } else if c == '>' {
        Some(extended(next, '=', TokenKind::GreaterThan, TokenKind::GreaterThanEquals))
    } else if c == '&' {
        Some(extended(next, '&', TokenKind::Ampersand, TokenKind::And))
    } else if c == '|' {
        Some(extended(next, '|', TokenKind::Pipe, TokenKind::Or))
    } else {
        None
    }
}

/// `long`, two characters wide, if `next` is the character `second`;
/// `short`, one character wide, otherwise.
pub open spec fn extended(next: Option<char>, second: char, short: TokenKind, long: TokenKind) -> (
    TokenKind,
    int,
) {
    if next == Some(second) {
        (long, 2int)
    } else {
        (short, 1int)
    }
}

/// Where a tokenizer stands: the index of the next character, its line and
/// column, and the indentation levels that are open, innermost last, each
/// with whether a continuation marker opened it.
pub struct LexState {
    pub index: int,
    pub line: int,
    pub column: int,
    pub indents: Seq<(usize, bool)>,
}

impl LexState {
    /// The state before the first character.
    pub open spec fn start() -> LexState {
        LexState { index: 0, line: 1, column: 1, indents: seq![(0usize, false)] }
    }

    /// The state `n` characters further on the same line.
    pub open spec fn forward(self, n: int) -> LexState {
        LexState { index: self.index + n, column: self.column + n, ..self }
    }

    /// The state at the first column of the next line, `n` characters on.
    pub open spec fn next_line(self, n: int) -> LexState {
        LexState { index: self.index + n, line: self.line + 1, column: 1, ..self }
    }

    /// The span of `width` columns that starts where the state stands.
    pub open spec fn span(self, name: Seq<char>, width: int) -> SpanView {
        line_span(name, self.line as nat, self.column as nat, width as nat)
    }

    /// The token of `width` characters that starts where the state stands.
    pub open spec fn token(self, name: Seq<char>, kind: TokenKind, lexeme: Seq<char>, width: int) -> (
        LexState,
        TokenView,
    ) {
        (self.forward(width), TokenView { kind, lexeme, span: self.span(name, width) })
    }

    /// The error of one column, `offset` characters after where the state
    /// stands.
    pub open spec fn error(self, name: Seq<char>, kind: ErrorKindView, offset: int) -> ErrorView {
        ErrorView { kind, span: self.forward(offset).span(name, 1) }
    }
}

/// What tokenizing one step yields: the state after the token and the
/// token, or the error that stops the tokenizer.
pub type Lexed = Result<(LexState, TokenView), ErrorView>;

/// The word (identifier or keyword) that starts where `st` stands.
pub open spec fn word_token(name: Seq<char>, src: Seq<char>, st: LexState) -> Lexed {
    let end = identifier_end(src, st.index + 1);
    let word = src.subrange(st.index, end);
    Ok(st.token(name, word_kind(word), word, end - st.index))
}

/// The number that starts where `st` stands.
pub open spec fn number_token(name: Seq<char>, src: Seq<char>, st: LexState) -> Lexed {
    let end = number_end(src, st.index);
    Ok(st.token(name, number_kind(src, st.index), src.subrange(st.index, end), end - st.index))
}

/// The literal that `scan` read from where `st` stands.
pub open spec fn literal_token(name: Seq<char>, st: LexState, kind: TokenKind, scan: Scan) -> Lexed {
    match scan {
        Scan::Closed { text, end } => Ok(st.token(name, kind, text, end - st.index)),
        Scan::Broken { kind: failure, at } => Err(st.error(name, failure, at - st.index)),
    }
}

/// The operator or punctuation mark that starts where `st` stands; any
/// other character is illegal.
pub open spec fn mark_token(name: Seq<char>, src: Seq<char>, st: LexState) -> Lexed {
    match mark_at(src, st.index) {
        Some((kind, width)) => Ok(
            st.token(name, kind, src.subrange(st.index, st.index + width), width),
        ),
        None => Err(st.error(name, ErrorKindView::IllegalCharacter(src[st.index]), 0)),
    }
}

/// The layout token for the line break where `st` stands. The margin of the
/// new line is measured and compared with the innermost open level: a wider
/// margin opens a level (`Indent`), a narrower one closes the innermost
/// level (`Dedent`) and must not be narrower than the level below, an equal
/// one continues the level (`Linefeed`) and may hold a continuation marker
/// only if a continuation opened the level.
pub open spec fn layout_token(name: Seq<char>, src: Seq<char>, st: LexState) -> Lexed {
    let from = st.index + 1;
    let to = margin_end(src, from);
    let width = margin_width(src, from, to);
    let continues = margin_continues(src, from, to);
    let here = st.next_line(1).forward(to - from);
    let top = st.indents.last();
    if width > top.0 {
        let opened = LexState { indents: st.indents.push((width as usize, continues)), ..here };
        Ok((opened, TokenView { kind: TokenKind::Indent, lexeme: Seq::empty(), span: here.span(name, 1) }))
    } else if width < top.0 {
        let closed = st.indents.drop_last();
        if closed.len() > 0 && width < closed.last().0 {
            Err(here.error(name, ErrorKindView::InconsistentIndentation, 0))
        } else {
            Ok(
                (
                    LexState { indents: closed, ..here },
                    TokenView {
                        kind: TokenKind::Dedent,
                        lexeme: Seq::empty(),
                        span: here.span(name, 1),
                    },
                ),
            )
        }
    } else if continues && !top.1 {
        Err(here.error(name, ErrorKindView::InconsistentContinuation, 0))
    } else {
        Ok((here, TokenView { kind: TokenKind::Linefeed, lexeme: Seq::empty(), span: here.span(name, 1) }))
    }
}

/// The state after the comment that starts where `st` stands: past the line
/// break that ends it, or at the end of the text.
pub open spec fn after_comment(src: Seq<char>, st: LexState) -> LexState {
    let end = line_end(src, st.index + 2);
    if end < src.len() {
        st.next_line(end + 1 - st.index)
    } else {
        st.forward(end - st.index)
    }
}

/// The next token of `src` from `st` on, and the state after it.
pub open spec fn next_token(name: Seq<char>, src: Seq<char>, st: LexState) -> Lexed
    decreases src.len() - st.index,
{
    let i = st.index;
    if i < 0 || i >= src.len() {
        Ok((st, TokenView { kind: TokenKind::Eof, lexeme: Seq::empty(), span: st.span(name, 0) }))
    } else if is_blank(src[i]) {
        next_token(name, src, st.forward(1))
    } else if src[i] == '/' && i + 1 < src.len() && src[i + 1] == '/' {
        proof {
            lemma_run_bounds(src, i + 2);
        }
        next_token(name, src, after_comment(src, st))
    } else if src[i] == '\n' {
        layout_token(name, src, st)
    } else if is_identifier_start(src[i]) {
        word_token(name, src, st)
    } else if is_digit(src[i]) {
        number_token(name, src, st)
    } else if src[i] == '"' {
        literal_token(name, st, TokenKind::String, scan_string(src, i + 1, Seq::empty()))
    } else if src[i] == '\'' {
        literal_token(name, st, TokenKind::Character, scan_character(src, i))
    } else {
        mark_token(name, src, st)
    }
}

/// The tokens of `src` from `st` on, after those of `done`: every token up
/// to and including the first `Eof`, or the first error.
pub open spec fn tokens_from(name: Seq<char>, src: Seq<char>, st: LexState, done: Seq<TokenView>) -> Result<
    Seq<TokenView>,
    ErrorView,
>
    decreases src.len() - st.index,
{
    match next_token(name, src, st) {
        Err(e) => Err(e),
        Ok((after, token)) => if token.kind != TokenKind::Eof {
            proof {
                lemma_only_eof_stands(name, src, st);
            }
            tokens_from(name, src, after, done.push(token))
        } else {
            Ok(done.push(token))
        },
    }
}

/// Whether `tokens` ends with its only `Eof` token.
pub open spec fn ends_with_eof(tokens: Seq<TokenView>) -> bool {
    &&& tokens.len() > 0
    &&& tokens.last().kind == TokenKind::Eof
    &&& forall|i: int| 0 <= i < tokens.len() - 1 ==> (#[trigger] tokens[i]).kind != TokenKind::Eof
}

/// The tokens that tokenizing adds to `done` end with `Eof`, and hold no
/// other `Eof` than `done` does.
pub proof fn lemma_tokens_from_end_with_eof(
    name: Seq<char>,
    src: Seq<char>,
    st: LexState,
    done: Seq<TokenView>,
)
    requires
        forall|i: int| 0 <= i < done.len() ==> (#[trigger] done[i]).kind != TokenKind::Eof,
    ensures
        tokens_from(name, src, st, done) is Ok ==> ends_with_eof(
            tokens_from(name, src, st, done)->Ok_0,
        ),
    decreases src.len() - st.index,
{
    match next_token(name, src, st) {
        Err(_) => {},
        Ok((after, token)) => {
            lemma_only_eof_stands(name, src, st);
            if token.kind != TokenKind::Eof {
                lemma_tokens_from_end_with_eof(name, src, after, done.push(token));
            }
        },
    }
}

/// A token that leaves the tokenizer where it was, or beyond the text, is
/// `Eof`: every other token takes at least one character of the text.
pub proof fn lemma_only_eof_stands(name: Seq<char>, src: Seq<char>, st: LexState)
    ensures
        match next_token(name, src, st) {
            Ok((after, token)) => token.kind == TokenKind::Eof || st.index < after.index
                <= src.len(),
            Err(_) => true,
        },
    decreases src.len() - st.index,
{
    let i = st.index;
    if i < 0 || i >= src.len() {
    } else if is_blank(src[i]) {
        lemma_only_eof_stands(name, src, st.forward(1));
    } else if src[i] == '/' && i + 1 < src.len() && src[i + 1] == '/' {
        lemma_run_bounds(src, i + 2);
        lemma_only_eof_stands(name, src, after_comment(src, st));
    } else if src[i] == '\n' {
        lemma_run_bounds(src, i + 1);
    } else if is_identifier_start(src[i]) {
        lemma_run_bounds(src, i + 1);
    } else if is_digit(src[i]) {
        lemma_run_bounds(src, i);
        let d = digits_end(src, i);
        assert(d == digits_end(src, i + 1));
        lemma_run_bounds(src, i + 1);
        lemma_run_bounds(src, d + 1);
        lemma_run_bounds(src, d + 2);
    } else if src[i] == '"' {
        lemma_scan_string_bounds(src, i + 1, Seq::empty());
    }
}

/// A run ends at or after its start and inside the text.
pub proof fn lemma_run_bounds(src: Seq<char>, i: int)
    requires
        0 <= i,
    ensures
        i <= identifier_end(src, i),
        identifier_end(src, i) <= src.len() || identifier_end(src, i) == i,
        i <= digits_end(src, i),
        digits_end(src, i) <= src.len() || digits_end(src, i) == i,
        i <= line_end(src, i),
        line_end(src, i) <= src.len() || line_end(src, i) == i,
        i <= margin_end(src, i),
        margin_end(src, i) <= src.len() || margin_end(src, i) == i,
    decreases src.len() - i,
{
    if i < src.len() {
        lemma_run_bounds(src, i + 1);
    }
}

/// A string literal that closes, closes after where its body starts and
/// inside the text.
pub proof fn lemma_scan_string_bounds(src: Seq<char>, i: int, text: Seq<char>)
    requires
        0 <= i,
    ensures
        match scan_string(src, i, text) {
            Scan::Closed { end, .. } => i < end <= src.len(),
            Scan::Broken { .. } => true,
        },
    decreases src.len() - i,
{
    if i < src.len() && src[i] != '"' {
        if src[i] == '\\' {
            if i + 1 < src.len() && escape(src[i + 1], '"') is Some {
                lemma_scan_string_bounds(src, i + 2, text.push(escape(src[i + 1], '"')->0));
            }
        } else {
            lemma_scan_string_bounds(src, i + 1, text.push(src[i]));
        }
    }
}

/// The tokens of a text end with `Eof` and hold no other `Eof`.
pub proof fn lemma_tokens_end_with_eof(name: Seq<char>, src: Seq<char>)
    ensures
        tokens_of(name, src) is Ok ==> ends_with_eof(tokens_of(name, src)->Ok_0),
{
    lemma_tokens_from_end_with_eof(name, src, LexState::start(), Seq::empty());
}

/// The tokens of the text `src` named `name`.
pub open spec fn tokens_of(name: Seq<char>, src: Seq<char>) -> Result<Seq<TokenView>, ErrorView> {
    tokens_from(name, src, LexState::start(), Seq::empty())
}

/// Whether the result `r` of a tokenizing step and the state `after` it are
/// what `expected` says.
pub open spec fn lexed(r: Result<Token, Error>, after: LexState, expected: Lexed) -> bool {
    match expected {
        Ok((state, token)) => r is Ok && r->Ok_0@ == token && after == state,
        Err(error) => r is Err && r->Err_0@ == error,
    }
}

/// Whether the result `r` of tokenizing is what `expected` says.
pub open spec fn lexed_all(r: Result<Vec<Token>, Error>, expected: Result<Seq<TokenView>, ErrorView>) -> bool {
    match expected {
        Ok(tokens) => r is Ok && crate::token::token_views(r->Ok_0@) == tokens,
        Err(error) => r is Err && r->Err_0@ == error,
    }
}

/// A tokenizer over one source text.
pub struct Tokenizer {
    pub filename: String,
    pub contents: Vec<char>,
    pub index: usize,
    pub line: usize,
    pub column: usize,
    /// The open indentation levels, innermost last, each with whether a
    /// continuation marker opened it.
    pub indent_stack: Vec<(usize, bool)>,
}

impl Tokenizer {
    /// The invariant of a tokenizer: it stands inside its text, its line and
    /// column are consistent with its index, and the outermost indentation
    /// level is the left edge.
    pub open spec fn wf(&self) -> bool {
        &&& tokenizable(self.contents@.len())
        &&& self.index <= self.contents@.len()
        &&& 1 <= self.column <= self.index + 1
        &&& 1 <= self.line <= self.index + 1
        &&& self.indent_stack@.len() >= 1
        &&& self.indent_stack@[0].0 == 0
    }

    /// Where the tokenizer stands.
    pub open spec fn state(&self) -> LexState {
        LexState {
            index: self.index as int,
            line: self.line as int,
            column: self.column as int,
            indents: self.indent_stack@,
        }
    }

    /// Whether two tokenizers read the same text under the same name.
    pub open spec fn same_source(&self, other: &Tokenizer) -> bool {
        self.filename@ == other.filename@ && self.contents@ == other.contents@
    }

    /// A tokenizer at the start of `contents`.
    pub fn new(filename: String, contents: String) -> (r: Tokenizer)
        requires
            tokenizable(contents@.len()),
        ensures
            r.wf(),
            r.filename@ == filename@,
            r.contents@ == contents@,
            r.state() == LexState::start(),
    {
        let mut indent_stack: Vec<(usize, bool)> = Vec::new();
        indent_stack.push((0, false));
        Tokenizer {
            filename,
            contents: chars_of(contents.as_str()),
            index: 0,
            line: 1,
            column: 1,
            indent_stack,
        }
    }

    /// The character the tokenizer stands at, if any is left.
    pub fn current(&self) -> (r: Option<char>)
        ensures
            r == (if self.index < self.contents@.len() {
                Some(self.contents@[self.index as int])
            } else {
                None
            }),
    {
        self.char_at(self.index)
    }

    fn char_at(&self, i: usize) -> (r: Option<char>)
        ensures
            r == (if i < self.contents@.len() {
                Some(self.contents@[i as int])
            } else {
                None
            }),
    {
        if i < self.contents.len() {
            Some(self.contents[i])
        } else {
            None
        }
    }

    /// The span of `length` columns that starts where the tokenizer stands.
    pub fn construct_span(&self, length: usize) -> (r: Span)
        requires
            self.column + length <= usize::MAX,
        ensures
            r@ == self.state().span(self.filename@, length as int),
    {
        Span::on_line(self.filename.as_str(), self.line, self.column, length)
    }

    fn failure(&self, kind: ErrorKind, offset: usize) -> (r: Error)
        requires
            self.column + offset + 1 <= usize::MAX,
        ensures
            r@ == self.state().error(self.filename@, kind@, offset as int),
    {
        Error::new(
            kind,
            Span::on_line(self.filename.as_str(), self.line, self.column + offset, 1),
        )
    }

    /// Takes the next `width` characters as a token of the given kind and
    /// text.
    fn take(&mut self, kind: TokenKind, lexeme: String, width: usize) -> (r: Token)
        requires
            old(self).wf(),
            old(self).index + width <= old(self).contents@.len(),
        ensures
            final(self).wf(),
            final(self).same_source(old(self)),
            (final(self).state(), r@) == old(self).state().token(
                old(self).filename@,
                kind,
                lexeme@,
                width as int,
            ),
    {
        let span = self.construct_span(width);
        self.index += width;
        self.column += width;
        Token::new(kind, lexeme, span)
    }

    /// Takes the character the tokenizer stands at as a token of kind
    /// `kind`.
    pub fn single_token(&mut self, kind: TokenKind) -> (r: Result<Token, Error>)
        requires
            old(self).wf(),
            old(self).index < old(self).contents@.len(),
        ensures
            final(self).wf(),
            final(self).same_source(old(self)),
            lexed(
                r,
                final(self).state(),
                Ok(
                    old(self).state().token(
                        old(self).filename@,
                        kind,
                        old(self).contents@.subrange(
                            old(self).index as int,
                            old(self).index + 1,
                        ),
                        1,
                    ),
                ),
            ),
    {
        let lexeme = text_of(&self.contents, self.index, self.index + 1);
        Ok(self.take(kind, lexeme, 1))
    }

    /// Takes a token of kind `kind_2` and two characters if `char_2`
    /// follows the character the tokenizer stands at, and a token of kind
    /// `kind_1` and one character otherwise.
    pub fn double_token(
        &mut self,
        char_1: char,
        kind_1: TokenKind,
        char_2: char,
        kind_2: TokenKind,
    ) -> (r: Result<Token, Error>)
        requires
            old(self).wf(),
            old(self).index < old(self).contents@.len(),
            old(self).contents@[old(self).index as int] == char_1,
        ensures
            final(self).wf(),
            final(self).same_source(old(self)),
            ({
                let src = old(self).contents@;
                let i = old(self).index as int;
                let next = if i + 1 < src.len() {
                    Some(src[i + 1])
                } else {
                    None
                };
                let (kind, width) = extended(next, char_2, kind_1, kind_2);
                lexed(
                    r,
                    final(self).state(),
                    Ok(
                        old(self).state().token(
                            old(self).filename@,
                            kind,
                            src.subrange(i, i + width),
                            width,
                        ),
                    ),
                )
            }),
    {
        if self.char_at(self.index + 1) == Some(char_2) {
            let lexeme = text_of(&self.contents, self.index, self.index + 2);
            Ok(self.take(kind_2, lexeme, 2))
        } else {
            let lexeme = text_of(&self.contents, self.index, self.index + 1);
            Ok(self.take(kind_1, lexeme, 1))
        }
    }

    fn lex_mark(&mut self, c: char) -> (r: Result<Token, Error>)
        requires
            old(self).wf(),
            old(self).index < old(self).contents@.len(),
            old(self).contents@[old(self).index as int] == c,
        ensures
            final(self).wf(),
            final(self).same_source(old(self)),
            lexed(
                r,
                final(self).state(),
                mark_token(old(self).filename@, old(self).contents@, old(self).state()),
            ),
    {
        match c {
            '(' => self.single_token(TokenKind::OpenParenthesis),
            ')' => self.single_token(TokenKind::CloseParenthesis),
            '{' => self.single_token(TokenKind::OpenBrace),
            '}' => self.single_token(TokenKind::CloseBrace),
            '[' => self.single_token(TokenKind::OpenBracket),
            ']' => self.single_token(TokenKind::CloseBracket),
            ',' => self.single_token(TokenKind::Comma),
            '.' => self.single_token(TokenKind::Dot),
            ':' => self.single_token(TokenKind::Colon),
            ';' => self.single_token(TokenKind::Semicolon),
            '^' => self.single_token(TokenKind::Caret),
            '~' => self.single_token(TokenKind::Tilde),
            '+' => self.double_token('+', TokenKind::Plus, '=', TokenKind::PlusEquals),
            '-' => {
                if self.char_at(self.index + 1) == Some('>') {
                    self.double_token('-', TokenKind::Minus, '>', TokenKind::Arrow)
                } else {
                    self.double_token('-', TokenKind::Minus, '=', TokenKind::MinusEquals)
                }
            },
            '*' => self.double_token('*', TokenKind::Asterisk, '=', TokenKind::AsteriskEquals),
            '/' => self.double_token('/', TokenKind::Slash, '=', TokenKind::SlashEquals),
            '%' => self.double_token('%', TokenKind::Percent, '=', TokenKind::PercentEquals),
            '=' => self.double_token('=', TokenKind::Equals, '=', TokenKind::EqualsEquals),
            '!' => self.double_token('!', TokenKind::Bang, '=', TokenKind::BangEquals),
            '<' => self.double_token('<', TokenKind::LessThan, '=', TokenKind::LessThanEquals),
            '>' => self.double_token(
                '>',
                TokenKind::GreaterThan,
                '=',
                TokenKind::GreaterThanEquals,
            ),
            '&' => self.double_token('&', TokenKind::Ampersand, '&', TokenKind::And),
            '|' => self.double_token('|', TokenKind::Pipe, '|', TokenKind::Or),
            _ => Err(self.failure(ErrorKind::IllegalCharacter(c), 0)),
        }
    }

    fn identifier_from(&self, from: usize) -> (to: usize)
        requires
            from <= self.contents@.len(),
        ensures
            to == identifier_end(self.contents@, from as int),
            from <= to <= self.contents@.len(),
    {
        let mut j: usize = from;
        while j < self.contents.len() && is_identifier_part_char(self.contents[j])
            invariant
                from <= j <= self.contents@.len(),
                identifier_end(self.contents@, from as int) == identifier_end(
                    self.contents@,
                    j as int,
                ),
            decreases self.contents@.len() - j,
        {
            j += 1;
        }
        j
    }

    fn digits_from(&self, from: usize) -> (to: usize)
        requires
            from <= self.contents@.len(),
        ensures
            to == digits_end(self.contents@, from as int),
            from <= to <= self.contents@.len(),
    {
        let mut j: usize = from;
        while j < self.contents.len() && is_digit_char(self.contents[j])
            invariant
                from <= j <= self.contents@.len(),
                digits_end(self.contents@, from as int) == digits_end(self.contents@, j as int),
            decreases self.contents@.len() - j,
        {
            j += 1;
        }
        j
    }

    fn line_from(&self, from: usize) -> (to: usize)
        requires
            from <= self.contents@.len(),
        ensures
            to == line_end(self.contents@, from as int),
            from <= to <= self.contents@.len(),
    {
        let mut j: usize = from;
        while j < self.contents.len() && self.contents[j] != '\n'
            invariant
                from <= j <= self.contents@.len(),
                line_end(self.contents@, from as int) == line_end(self.contents@, j as int),
            decreases self.contents@.len() - j,
        {
            j += 1;
        }
        j
    }

    fn lex_word(&mut self) -> (r: Result<Token, Error>)
        requires
            old(self).wf(),
            old(self).index < old(self).contents@.len(),
        ensures
            final(self).wf(),
            final(self).same_source(old(self)),
            final(self).index > old(self).index,
            lexed(
                r,
                final(self).state(),
                word_token(old(self).filename@, old(self).contents@, old(self).state()),
            ),
    {
        let end = self.identifier_from(self.index + 1);
        let word = text_of(&self.contents, self.index, end);
        let kind = keyword_kind(word.as_str());
        let width = end - self.index;
        Ok(self.take(kind, word, width))
    }

    fn lex_number(&mut self) -> (r: Result<Token, Error>)
        requires
            old(self).wf(),
            old(self).index < old(self).contents@.len(),
            is_digit(old(self).contents@[old(self).index as int]),
        ensures
            final(self).wf(),
            final(self).same_source(old(self)),
            final(self).index > old(self).index,
            lexed(
                r,
                final(self).state(),
                number_token(old(self).filename@, old(self).contents@, old(self).state()),
            ),
    {
        assert(digits_end(self.contents@, self.index as int) == digits_end(
            self.contents@,
            self.index + 1,
        ));
        let d = self.digits_from(self.index + 1);
        let mut kind = TokenKind::Integer;
        let mut end = d;
        match self.char_at(d) {
            Some('.') => {
                kind = TokenKind::FloatingPoint;
                end = self.digits_from(d + 1);
            },
            Some('e') | Some('E') => {
                kind = TokenKind::FloatingPoint;
                match self.char_at(d + 1) {
                    Some('+') | Some('-') => {
                        end = self.digits_from(d + 2);
                    },
                    _ => {
                        end = self.digits_from(d + 1);
                    },
                }
            },
            _ => {},
        }
        let lexeme = text_of(&self.contents, self.index, end);
        let width = end - self.index;
        Ok(self.take(kind, lexeme, width))
    }

    fn lex_string(&mut self) -> (r: Result<Token, Error>)
        requires
            old(self).wf(),
            old(self).index < old(self).contents@.len(),
        ensures
            final(self).wf(),
            final(self).same_source(old(self)),
            r is Ok ==> final(self).index > old(self).index,
            lexed(
                r,
                final(self).state(),
                literal_token(
                    old(self).filename@,
                    old(self).state(),
                    TokenKind::String,
                    scan_string(old(self).contents@, old(self).index + 1, Seq::empty()),
                ),
            ),
    {
        let mut text = String::new();
        let mut j: usize = self.index + 1;
        loop
            invariant
                *self == *old(self),
                self.wf(),
                self.index < j <= self.contents@.len(),
                scan_string(self.contents@, self.index + 1, Seq::empty()) == scan_string(
                    self.contents@,
                    j as int,
                    text@,
                ),
            decreases self.contents@.len() - j,
        {
            match self.char_at(j) {
                None => {
                    return Err(self.failure(ErrorKind::UnexpectedEndOfFile, j - self.index));
                },
                Some('"') => {
                    let width = j + 1 - self.index;
                    return Ok(self.take(TokenKind::String, text, width));
                },
                Some('\\') => {
                    match unescape(self.char_at(j + 1), '"') {
                        Some(c) => {
                            text.push(c);
                            j += 2;
                        },
                        None => {
                            return Err(
                                self.failure(
                                    ErrorKind::IllegalEscapeSequence,
                                    j + 1 - self.index,
                                ),
                            );
                        },
                    }
                },
                Some(c) => {
                    text.push(c);
                    j += 1;
                },
            }
        }
    }

    fn lex_character(&mut self) -> (r: Result<Token, Error>)
        requires
            old(self).wf(),
            old(self).index < old(self).contents@.len(),
        ensures
            final(self).wf(),
            final(self).same_source(old(self)),
            r is Ok ==> final(self).index > old(self).index,
            lexed(
                r,
                final(self).state(),
                literal_token(
                    old(self).filename@,
                    old(self).state(),
                    TokenKind::Character,
                    scan_character(old(self).contents@, old(self).index as int),
                ),
            ),
    {
        let i = self.index;
        let len = self.contents.len();
        match self.char_at(i + 1) {
            None => Err(self.failure(ErrorKind::UnexpectedEndOfFile, len - i)),
            Some('\\') => match unescape(self.char_at(i + 2), '\'') {
                None => Err(self.failure(ErrorKind::IllegalEscapeSequence, 2)),
                Some(c) => match self.char_at(i + 3) {
                    None => Err(self.failure(ErrorKind::UnexpectedEndOfFile, len - i)),
                    Some('\'') => {
                        let mut text = String::new();
                        text.push(c);
                        Ok(self.take(TokenKind::Character, text, 4))
                    },
                    Some(other) => Err(self.failure(ErrorKind::IllegalCharacter(other), 3)),
                },
            },
            Some('\'') => Err(self.failure(ErrorKind::IllegalCharacter('\''), 1)),
            Some(c) => match self.char_at(i + 2) {
                None => Err(self.failure(ErrorKind::UnexpectedEndOfFile, len - i)),
                Some('\'') => {
                    let mut text = String::new();
                    text.push(c);
                    Ok(self.take(TokenKind::Character, text, 3))
                },
                Some(other) => Err(self.failure(ErrorKind::IllegalCharacter(other), 2)),
            },
        }
    }

    fn lex_layout(&mut self) -> (r: Result<Token, Error>)
        requires
            old(self).wf(),
            old(self).index < old(self).contents@.len(),
        ensures
            final(self).wf(),
            final(self).same_source(old(self)),
            final(self).index > old(self).index,
            lexed(
                r,
                final(self).state(),
                layout_token(old(self).filename@, old(self).contents@, old(self).state()),
            ),
    {
        let from = self.index + 1;
        let mut j: usize = from;
        let mut width: usize = 0;
        let mut continues = false;
        while j < self.contents.len() && is_margin_char(self.contents[j])
            invariant
                self.wf(),
                from <= j <= self.contents@.len(),
                margin_end(self.contents@, from as int) == margin_end(self.contents@, j as int),
                width == margin_width(self.contents@, from as int, j as int),
                continues == margin_continues(self.contents@, from as int, j as int),
                width <= 4 * (j - from),
            decreases self.contents@.len() - j,
        {
            let c = self.contents[j];
            if c == ' ' {
                width += 1;
            } else if c == '\t' {
                width += 4;
            } else if c == '\\' {
                continues = true;
            }
            j += 1;
        }
        self.index = j;
        self.line += 1;
        self.column = 1 + (j - from);
        let span = self.construct_span(1);
        let top = self.indent_stack[self.indent_stack.len() - 1];
        if width > top.0 {
            self.indent_stack.push((width, continues));
            Ok(Token::new(TokenKind::Indent, String::new(), span))
        } else if width < top.0 {
            self.indent_stack.pop();
            if self.indent_stack.len() > 0 && width < self.indent_stack[self.indent_stack.len()
                - 1].0 {
                Err(Error::new(ErrorKind::InconsistentIndentation, span))
            } else {
                Ok(Token::new(TokenKind::Dedent, String::new(), span))
            }
        } else if continues && !top.1 {
            Err(Error::new(ErrorKind::InconsistentContinuation, span))
        } else {
            Ok(Token::new(TokenKind::Linefeed, String::new(), span))
        }
    }

    /// Reads the next token: skips blanks and comments, then takes the
    /// token that starts at the first character left, or `Eof` if none is.
    pub fn next_token(&mut self) -> (r: Result<Token, Error>)
        requires
            old(self).wf(),
        ensures
            final(self).wf(),
            final(self).same_source(old(self)),
            lexed(
                r,
                final(self).state(),
                next_token(old(self).filename@, old(self).contents@, old(self).state()),
            ),
            r is Ok && r->Ok_0.kind != TokenKind::Eof ==> final(self).index > old(self).index,
    {
        loop
            invariant
                self.wf(),
                self.same_source(old(self)),
                self.index >= old(self).index,
                next_token(old(self).filename@, old(self).contents@, old(self).state())
                    == next_token(self.filename@, self.contents@, self.state()),
            decreases self.contents@.len() - self.index,
        {
            match self.current() {
                None => {
                    return Ok(Token::new(TokenKind::Eof, String::new(), self.construct_span(0)));
                },
                Some(c) => {
                    if c == ' ' || c == '\t' || c == '\r' {
                        self.index += 1;
                        self.column += 1;
                    } else if c == '/' && self.char_at(self.index + 1) == Some('/') {
                        let end = self.line_from(self.index + 2);
                        if end < self.contents.len() {
                            self.index = end + 1;
                            self.line += 1;
                            self.column = 1;
                        } else {
                            self.column += end - self.index;
                            self.index = end;
                        }
                    } else if c == '\n' {
                        return self.lex_layout();
                    } else if is_identifier_start_char(c) {
                        return self.lex_word();
                    } else if is_digit_char(c) {
                        return self.lex_number();
                    } else if c == '"' {
                        return self.lex_string();
                    } else if c == '\'' {
                        return self.lex_character();
                    } else {
                        let r = self.lex_mark(c);
                        return r;
                    }
                },
            }
        }
    }

    /// Reads every token that is left, up to and including `Eof`, or stops
    /// at the first error.
    pub fn tokenize(&mut self) -> (r: Result<Vec<Token>, Error>)
        requires
            old(self).wf(),
        ensures
            final(self).wf(),
            final(self).same_source(old(self)),
            lexed_all(
                r,
                tokens_from(
                    old(self).filename@,
                    old(self).contents@,
                    old(self).state(),
                    Seq::empty(),
                ),
            ),
    {
        let mut tokens: Vec<Token> = Vec::new();
        assert(crate::token::token_views(tokens@) =~= Seq::empty());
        loop
            invariant
                self.wf(),
                self.same_source(old(self)),
                tokens_from(
                    old(self).filename@,
                    old(self).contents@,
                    old(self).state(),
                    Seq::empty(),
                ) == tokens_from(
                    self.filename@,
                    self.contents@,
                    self.state(),
                    crate::token::token_views(tokens@),
                ),
            decreases self.contents@.len() - self.index,
        {
            let ghost before = crate::token::token_views(tokens@);
            let token = self.next_token()?;
            let done = token.kind == TokenKind::Eof;
            tokens.push(token);
            assert(crate::token::token_views(tokens@) =~= before.push(token@));
            if done {
                return Ok(tokens);
            }
        }
    }
}

fn is_identifier_start_char(c: char) -> (r: bool)
    ensures
        r == is_identifier_start(c),
{
    (c >= 'a' && c <= 'z') || (c >= 'A' && c <= 'Z') || c == '_'
}

fn is_digit_char(c: char) -> (r: bool)
    ensures
        r == is_digit(c),
{
    c >= '0' && c <= '9'
}

fn is_identifier_part_char(c: char) -> (r: bool)
    ensures
        r == is_identifier_part(c),
{
    is_identifier_start_char(c) || is_digit_char(c)
}

fn is_margin_char(c: char) -> (r: bool)
    ensures
        r == is_margin(c),
{
    c == ' ' || c == '\t' || c == '\r' || c == '\\'
}

fn unescape(c: Option<char>, quote: char) -> (r: Option<char>)
    ensures
        r == (match c {
            Some(c) => escape(c, quote),
            None => None,
        }),
{
    match c {
        Some('n') => Some('\n'),
        Some('r') => Some('\r'),
        Some('t') => Some('\t'),
        Some('\\') => Some('\\'),
        Some(c) => if c == quote {
            Some(quote)
        } else {
            None
        },
        None => None,
    }
}

fn keyword_kind(word: &str) -> (r: TokenKind)
    ensures
        r == word_kind(word@),
{
    if same_text(word, "as") {
        TokenKind::As
    } else if same_text(word, "const") {
        TokenKind::Const
    } else if same_text(word, "fn") {
        TokenKind::Fn
    } else if same_text(word, "for") {
        TokenKind::For
    } else if same_text(word, "in") {
        TokenKind::In
    } else if same_text(word, "import") {
        TokenKind::Import
    } else if same_text(word, "mut") {
        TokenKind::Mut
    } else if same_text(word, "return") {
        TokenKind::Return
    } else if same_text(word, "struct") {
        TokenKind::Struct
    } else if same_text(word, "var") {
        TokenKind::Var
    } else if same_text(word, "int") {
        TokenKind::Int
    } else if same_text(word, "float") {
        TokenKind::Float
    } else if same_text(word, "bool") {
        TokenKind::Bool
    } else if same_text(word, "char") {
        TokenKind::Char
    } else if same_text(word, "true") || same_text(word, "false") {
        TokenKind::Boolean
    } else {
        TokenKind::Identifier
    }
}

/// Tokenizes the text `source` named `source_id`: every token in order,
/// then one `Eof`; or the first error.
pub fn tokenize(source_id: &str, source: &str) -> (r: Result<Vec<Token>, Error>)
    requires
        tokenizable(source@.len()),
    ensures
        lexed_all(r, tokens_of(source_id@, source@)),
        r is Ok ==> ends_with_eof(crate::token::token_views(r->Ok_0@)),
{
    proof {
        lemma_tokens_end_with_eof(source_id@, source@);
    }
    let mut tokenizer = Tokenizer::new(String::from_str(source_id), String::from_str(source));
    tokenizer.tokenize()
}

} // verus!
