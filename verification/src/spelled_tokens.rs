//! What the tokenizer yields is well spelled: every token that is no
//! layout token and not `Eof` is spelled as the tokenizer reads it.

use crate::compiler::significant;
use crate::printer::Piece;
use crate::spelling::{is_mark, is_word, lemma_all_parts, well_spelled};
use crate::token::{TokenKind, TokenView};
use crate::tokenizer::{
    after_comment, digits_end, identifier_end, is_blank, is_digit, is_identifier_part,
    is_identifier_start, layout_token, lemma_run_bounds, mark_at, mark_token, next_token,
    number_end, number_kind, number_token, tokens_from, tokens_of, word_token, LexState,
};
use vstd::prelude::*;

verus! {

/// The piece of a token: its kind and its text.
pub open spec fn piece_of(token: TokenView) -> Piece {
    Piece { kind: token.kind, lexeme: token.lexeme }
}

/// Whether a token is a layout token, `Eof`, or well spelled.
pub open spec fn token_spelled(token: TokenView) -> bool {
    token.kind.is_layout() || token.kind == TokenKind::Eof || well_spelled(piece_of(token))
}

/// Whether tokens are what a parser is given: well spelled tokens, and
/// then `Eof`.
pub open spec fn tokens_spelled(tokens: Seq<TokenView>) -> bool {
    &&& tokens.len() > 0
    &&& tokens.last().kind == TokenKind::Eof
    &&& forall|i: int| 0 <= i < tokens.len() - 1 ==> well_spelled(piece_of(#[trigger] tokens[i]))
}

/// Every character of a run of identifier characters is one.
pub proof fn lemma_identifier_run_parts(src: Seq<char>, from: int, j: int)
    requires
        0 <= from <= j < identifier_end(src, from),
    ensures
        j < src.len(),
        is_identifier_part(src[j]),
    decreases j - from,
{
    if from < j {
        lemma_identifier_run_parts(src, from + 1, j);
    }
}

/// A run of digits of a text ends, in a part of the text that begins
/// before the run and ends in it or after it, where it ends in the text or
/// where the part ends.
pub proof fn lemma_digit_run_in_part(src: Seq<char>, i: int, e: int, a: int)
    requires
        0 <= i <= i + a <= e <= src.len(),
        0 <= a,
    ensures
        digits_end(src.subrange(i, e), a) == (if digits_end(src, i + a) <= e {
            digits_end(src, i + a) - i
        } else {
            e - i
        }),
    decreases e - i - a,
{
    let part = src.subrange(i, e);
    lemma_run_bounds(src, i + a);
    if i + a < e {
        assert(part[a] == src[i + a]);
        if is_digit(src[i + a]) {
            lemma_digit_run_in_part(src, i, e, a + 1);
        }
    }
}

/// The word that the tokenizer reads is well spelled.
pub proof fn lemma_word_spelled(name: Seq<char>, src: Seq<char>, st: LexState)
    requires
        0 <= st.index < src.len(),
        is_identifier_start(src[st.index]),
    ensures
        word_token(name, src, st) is Ok,
        well_spelled(piece_of(word_token(name, src, st)->Ok_0.1)),
{
    let i = st.index;
    let end = identifier_end(src, i + 1);
    lemma_run_bounds(src, i + 1);
    let word = src.subrange(i, end);
    assert(word[0] == src[i]);
    assert forall|j: int| 0 <= j < word.len() implies is_identifier_part(#[trigger] word[j]) by {
        assert(word[j] == src[i + j]);
        if j > 0 {
            lemma_identifier_run_parts(src, i + 1, i + j);
        }
    }
    lemma_all_parts(word, 0);
    assert(is_word(word));
}

/// The number that the tokenizer reads is well spelled.
pub proof fn lemma_number_spelled(name: Seq<char>, src: Seq<char>, st: LexState)
    requires
        0 <= st.index < src.len(),
        is_digit(src[st.index]),
    ensures
        number_token(name, src, st) is Ok,
        well_spelled(piece_of(number_token(name, src, st)->Ok_0.1)),
{
    let i = st.index;
    let d = digits_end(src, i);
    let e = number_end(src, i);
    lemma_run_bounds(src, i);
    lemma_run_bounds(src, i + 1);
    lemma_run_bounds(src, d + 1);
    lemma_run_bounds(src, d + 2);
    assert(d == digits_end(src, i + 1));
    let part = src.subrange(i, e);
    assert(part[0] == src[i]);
    lemma_digit_run_in_part(src, i, e, 0);
    assert(digits_end(part, 0) == d - i);
    if d < src.len() && src[d] == '.' {
        assert(part[d - i] == src[d]);
        lemma_digit_run_in_part(src, i, e, d - i + 1);
    } else if d < src.len() && (src[d] == 'e' || src[d] == 'E') {
        assert(part[d - i] == src[d]);
        if d + 1 < src.len() && (src[d + 1] == '+' || src[d + 1] == '-') {
            assert(part[d - i + 1] == src[d + 1]);
            lemma_digit_run_in_part(src, i, e, d - i + 2);
        } else {
            if d - i + 1 < part.len() {
                assert(part[d - i + 1] == src[d + 1]);
            }
            lemma_digit_run_in_part(src, i, e, d - i + 1);
        }
    } else {
        assert(e == d);
    }
    assert(number_end(part, 0) == part.len());
    assert(number_kind(part, 0) == number_kind(src, i));
}

proof fn lemma_arithmetic_mark_spelled(src: Seq<char>, i: int, kind: TokenKind, width: int)
    requires
        0 <= i < src.len(),
        mark_at(src, i) == Some((kind, width)),
        kind == TokenKind::Plus || kind == TokenKind::PlusEquals || kind == TokenKind::Minus || kind == TokenKind::MinusEquals || kind == TokenKind::Asterisk || kind == TokenKind::AsteriskEquals || kind == TokenKind::Slash || kind == TokenKind::SlashEquals || kind == TokenKind::Percent || kind == TokenKind::PercentEquals,
    ensures
        i + width <= src.len(),
        src.subrange(i, i + width) == kind.spelling(),
{
    reveal_strlit("+");
    reveal_strlit("+=");
    reveal_strlit("-");
    reveal_strlit("-=");
    reveal_strlit("*");
    reveal_strlit("*=");
    reveal_strlit("/");
    reveal_strlit("/=");
    reveal_strlit("%");
    reveal_strlit("%=");
    assert(src.subrange(i, i + width) =~= kind.spelling());
}

proof fn lemma_comparison_mark_spelled(src: Seq<char>, i: int, kind: TokenKind, width: int)
    requires
        0 <= i < src.len(),
        mark_at(src, i) == Some((kind, width)),
        kind == TokenKind::Equals || kind == TokenKind::EqualsEquals || kind == TokenKind::Bang || kind == TokenKind::BangEquals || kind == TokenKind::LessThan || kind == TokenKind::LessThanEquals || kind == TokenKind::GreaterThan || kind == TokenKind::GreaterThanEquals || kind == TokenKind::And || kind == TokenKind::Or,
    ensures
        i + width <= src.len(),
        src.subrange(i, i + width) == kind.spelling(),
{
    reveal_strlit("=");
    reveal_strlit("==");
    reveal_strlit("!");
    reveal_strlit("!=");
    reveal_strlit("<");
    reveal_strlit("<=");
    reveal_strlit(">");
    reveal_strlit(">=");
    reveal_strlit("&&");
    reveal_strlit("||");
    assert(src.subrange(i, i + width) =~= kind.spelling());
}

proof fn lemma_bracket_mark_spelled(src: Seq<char>, i: int, kind: TokenKind, width: int)
    requires
        0 <= i < src.len(),
        mark_at(src, i) == Some((kind, width)),
        kind == TokenKind::Ampersand || kind == TokenKind::Pipe || kind == TokenKind::Caret || kind == TokenKind::Tilde || kind == TokenKind::OpenParenthesis || kind == TokenKind::CloseParenthesis || kind == TokenKind::OpenBrace || kind == TokenKind::CloseBrace || kind == TokenKind::OpenBracket || kind == TokenKind::CloseBracket,
    ensures
        i + width <= src.len(),
        src.subrange(i, i + width) == kind.spelling(),
{
    reveal_strlit("&");
    reveal_strlit("|");
    reveal_strlit("^");
    reveal_strlit("~");
    reveal_strlit("(");
    reveal_strlit(")");
    reveal_strlit("{");
    reveal_strlit("}");
    reveal_strlit("[");
    reveal_strlit("]");
    assert(src.subrange(i, i + width) =~= kind.spelling());
}

proof fn lemma_separator_mark_spelled(src: Seq<char>, i: int, kind: TokenKind, width: int)
    requires
        0 <= i < src.len(),
        mark_at(src, i) == Some((kind, width)),
        kind == TokenKind::Comma || kind == TokenKind::Dot || kind == TokenKind::Colon || kind == TokenKind::Semicolon || kind == TokenKind::Arrow,
    ensures
        i + width <= src.len(),
        src.subrange(i, i + width) == kind.spelling(),
{
    reveal_strlit(",");
    reveal_strlit(".");
    reveal_strlit(":");
    reveal_strlit(";");
    reveal_strlit("->");
    assert(src.subrange(i, i + width) =~= kind.spelling());
}

/// The operator or punctuation mark that the tokenizer reads is well
/// spelled.
pub proof fn lemma_mark_spelled(name: Seq<char>, src: Seq<char>, st: LexState)
    requires
        0 <= st.index < src.len(),
    ensures
        mark_token(name, src, st) is Ok ==> well_spelled(
            piece_of(mark_token(name, src, st)->Ok_0.1),
        ),
{
    let i = st.index;
    match mark_at(src, i) {
        Some((kind, width)) => {
            assert(is_mark(kind));
            if kind == TokenKind::Plus || kind == TokenKind::PlusEquals || kind == TokenKind::Minus || kind == TokenKind::MinusEquals || kind == TokenKind::Asterisk || kind == TokenKind::AsteriskEquals || kind == TokenKind::Slash || kind == TokenKind::SlashEquals || kind == TokenKind::Percent || kind == TokenKind::PercentEquals {
                lemma_arithmetic_mark_spelled(src, i, kind, width);
            }             else if kind == TokenKind::Equals || kind == TokenKind::EqualsEquals || kind == TokenKind::Bang || kind == TokenKind::BangEquals || kind == TokenKind::LessThan || kind == TokenKind::LessThanEquals || kind == TokenKind::GreaterThan || kind == TokenKind::GreaterThanEquals || kind == TokenKind::And || kind == TokenKind::Or {
                lemma_comparison_mark_spelled(src, i, kind, width);
            }             else if kind == TokenKind::Ampersand || kind == TokenKind::Pipe || kind == TokenKind::Caret || kind == TokenKind::Tilde || kind == TokenKind::OpenParenthesis || kind == TokenKind::CloseParenthesis || kind == TokenKind::OpenBrace || kind == TokenKind::CloseBrace || kind == TokenKind::OpenBracket || kind == TokenKind::CloseBracket {
                lemma_bracket_mark_spelled(src, i, kind, width);
            }             else if kind == TokenKind::Comma || kind == TokenKind::Dot || kind == TokenKind::Colon || kind == TokenKind::Semicolon || kind == TokenKind::Arrow {
                lemma_separator_mark_spelled(src, i, kind, width);
            }
        },
        None => {},
    }
}

/// The token that the tokenizer reads next is a layout token, `Eof`, or
/// well spelled.
pub proof fn lemma_next_token_spelled(name: Seq<char>, src: Seq<char>, st: LexState)
    ensures
        next_token(name, src, st) is Ok ==> token_spelled(next_token(name, src, st)->Ok_0.1),
    decreases src.len() - st.index,
{
    let i = st.index;
    if i < 0 || i >= src.len() {
    } else if is_blank(src[i]) {
        lemma_next_token_spelled(name, src, st.forward(1));
    } else if src[i] == '/' && i + 1 < src.len() && src[i + 1] == '/' {
        lemma_run_bounds(src, i + 2);
        lemma_next_token_spelled(name, src, after_comment(src, st));
    } else if src[i] == '\n' {
        assert(layout_token(name, src, st) is Ok ==> layout_token(name, src, st)->Ok_0.1.kind.is_layout());
    } else if is_identifier_start(src[i]) {
        lemma_word_spelled(name, src, st);
    } else if is_digit(src[i]) {
        lemma_number_spelled(name, src, st);
    } else if src[i] == '"' {
    } else if src[i] == '\'' {
    } else {
        lemma_mark_spelled(name, src, st);
    }
}

/// The tokens that tokenizing adds to spelled tokens are spelled.
pub proof fn lemma_tokens_from_spelled(
    name: Seq<char>,
    src: Seq<char>,
    st: LexState,
    done: Seq<TokenView>,
)
    requires
        forall|i: int| 0 <= i < done.len() ==> token_spelled(#[trigger] done[i]),
    ensures
        tokens_from(name, src, st, done) is Ok ==> (forall|i: int|
            0 <= i < tokens_from(name, src, st, done)->Ok_0.len() ==> token_spelled(
                #[trigger] tokens_from(name, src, st, done)->Ok_0[i],
            )),
    decreases src.len() - st.index,
{
    lemma_next_token_spelled(name, src, st);
    match next_token(name, src, st) {
        Err(_) => {},
        Ok((after, token)) => {
            if token.kind != TokenKind::Eof {
                crate::tokenizer::lemma_only_eof_stands(name, src, st);
                lemma_tokens_from_spelled(name, src, after, done.push(token));
            }
        },
    }
}

/// Dropping the layout tokens of spelled tokens that end with their only
/// `Eof` leaves what a parser is given.
pub proof fn lemma_significant_spelled(tokens: Seq<TokenView>)
    requires
        forall|i: int| 0 <= i < tokens.len() ==> token_spelled(#[trigger] tokens[i]),
        forall|i: int| 0 <= i < tokens.len() ==> (#[trigger] tokens[i]).kind != TokenKind::Eof,
    ensures
        forall|i: int|
            0 <= i < significant(tokens).len() ==> well_spelled(
                piece_of(#[trigger] significant(tokens)[i]),
            ),
    decreases tokens.len(),
{
    if tokens.len() > 0 {
        lemma_significant_spelled(tokens.drop_last());
        assert(token_spelled(tokens[tokens.len() - 1]));
    }
}

/// What the tokenizer yields, without its layout tokens, is what a parser
/// is given: well spelled tokens, and then `Eof`.
pub proof fn lemma_tokens_spelled(name: Seq<char>, src: Seq<char>)
    ensures
        tokens_of(name, src) is Ok ==> tokens_spelled(significant(tokens_of(name, src)->Ok_0)),
{
    if tokens_of(name, src) is Ok {
        let tokens = tokens_of(name, src)->Ok_0;
        lemma_tokens_from_spelled(name, src, LexState::start(), Seq::empty());
        crate::tokenizer::lemma_tokens_end_with_eof(name, src);
        let body = tokens.drop_last();
        lemma_significant_spelled(body);
        assert(significant(tokens) == significant(body).push(tokens.last()));
        let kept = significant(tokens);
        assert forall|i: int| 0 <= i < kept.len() - 1 implies well_spelled(
            piece_of(#[trigger] kept[i]),
        ) by {
            assert(kept[i] == significant(body)[i]);
        }
    }
}

} // verus!
