//! Reading back one piece: the tokenizer, run on a text that holds the
//! source text of a piece and a blank after it, yields the token of that
//! piece.

use crate::printer::{escaped, escaped_char, piece_text, Piece};
use crate::token::{TokenKind, TokenView};
use crate::tokenizer::{
    digits_end, identifier_end, is_digit, is_identifier_part, is_identifier_start, mark_at,
    mark_token, next_token, number_end, number_kind, number_token, scan_character, scan_string,
    word_kind, word_token, LexState, Scan,
};
use vstd::prelude::*;

verus! {

/// Whether `src` holds the text `text` at `i`, and a blank after it.
pub open spec fn holds(src: Seq<char>, i: int, text: Seq<char>) -> bool {
    &&& 0 <= i
    &&& i + text.len() < src.len()
    &&& forall|j: int| 0 <= j < text.len() ==> src[i + j] == #[trigger] text[j]
    &&& src[i + text.len()] == ' '
}

/// Whether a text is a word: an identifier or a keyword.
pub open spec fn is_word(text: Seq<char>) -> bool {
    text.len() > 0 && is_identifier_start(text[0]) && identifier_end(text, 0) == text.len()
}

/// Whether a piece is spelled so that the tokenizer reads it as one token
/// of its kind and text:
/// - a name is a word that is no keyword and no boolean literal;
/// - a boolean literal is `true` or `false`;
/// - an integer literal is a run of digits;
/// - a floating-point literal is a number with a fraction or an exponent;
/// - a character literal holds one character;
/// - a string literal holds any text;
/// - a keyword, an operator or a punctuation mark is written as it is
///   spelled.
/// No piece is a layout token or `Eof`.
pub open spec fn well_spelled(piece: Piece) -> bool {
    match piece.kind {
        TokenKind::Identifier => is_word(piece.lexeme) && word_kind(piece.lexeme)
            == TokenKind::Identifier,
        TokenKind::Boolean => piece.lexeme == "true"@ || piece.lexeme == "false"@,
        TokenKind::Integer => piece.lexeme.len() > 0 && digits_end(piece.lexeme, 0)
            == piece.lexeme.len(),
        TokenKind::FloatingPoint => piece.lexeme.len() > 0 && is_digit(piece.lexeme[0])
            && number_end(piece.lexeme, 0) == piece.lexeme.len() && number_kind(piece.lexeme, 0)
            == TokenKind::FloatingPoint,
        TokenKind::String => true,
        TokenKind::Character => piece.lexeme.len() == 1,
        TokenKind::Linefeed => false,
        TokenKind::Indent => false,
        TokenKind::Dedent => false,
        TokenKind::Eof => false,
        _ => piece.lexeme == piece.kind.spelling(),
    }
}

/// Whether every piece of a sequence is well spelled.
pub open spec fn all_well_spelled(pieces: Seq<Piece>) -> bool {
    forall|i: int| 0 <= i < pieces.len() ==> well_spelled(#[trigger] pieces[i])
}

/// What reading the piece `piece` from the state `st` yields: the state
/// after the source text of the piece, and the token of the piece.
pub open spec fn reads(name: Seq<char>, st: LexState, piece: Piece) -> crate::tokenizer::Lexed {
    Ok(st.token(name, piece.kind, piece.lexeme, piece_text(piece).len() as int))
}

/// A run of identifier characters in a text that `src` holds ends in `src`
/// where it ends in the text.
pub proof fn lemma_identifier_run(src: Seq<char>, i: int, text: Seq<char>, a: int)
    requires
        holds(src, i, text),
        0 <= a <= text.len(),
    ensures
        identifier_end(src, i + a) == i + identifier_end(text, a),
        a <= identifier_end(text, a) <= text.len(),
    decreases text.len() - a,
{
    if a < text.len() {
        assert(src[i + a] == text[a]);
        if is_identifier_part(text[a]) {
            lemma_identifier_run(src, i, text, a + 1);
        }
    }
}

/// A run of digits in a text that `src` holds ends in `src` where it ends
/// in the text.
pub proof fn lemma_digit_run(src: Seq<char>, i: int, text: Seq<char>, a: int)
    requires
        holds(src, i, text),
        0 <= a <= text.len(),
    ensures
        digits_end(src, i + a) == i + digits_end(text, a),
        a <= digits_end(text, a) <= text.len(),
    decreases text.len() - a,
{
    if a < text.len() {
        assert(src[i + a] == text[a]);
        if is_digit(text[a]) {
            lemma_digit_run(src, i, text, a + 1);
        }
    }
}

/// Reading a word.
pub proof fn lemma_word_read(name: Seq<char>, src: Seq<char>, st: LexState, text: Seq<char>)
    requires
        holds(src, st.index, text),
        is_word(text),
    ensures
        next_token(name, src, st) == Ok::<(LexState, TokenView), crate::error::ErrorView>(
            st.token(name, word_kind(text), text, text.len() as int),
        ),
{
    let i = st.index;
    assert(src[i + 0] == text[0]);
    lemma_identifier_run(src, i, text, 0);
    lemma_identifier_run(src, i, text, 1);
    assert(identifier_end(text, 0) == identifier_end(text, 1));
    assert(identifier_end(src, i + 1) == i + text.len());
    assert(src.subrange(i, i + text.len()) =~= text);
    assert(word_token(name, src, st) == Ok::<(LexState, TokenView), crate::error::ErrorView>(
        st.token(name, word_kind(text), text, text.len() as int),
    ));
}

/// Reading a number.
pub proof fn lemma_number_read(name: Seq<char>, src: Seq<char>, st: LexState, text: Seq<char>)
    requires
        holds(src, st.index, text),
        text.len() > 0,
        is_digit(text[0]),
        number_end(text, 0) == text.len(),
    ensures
        next_token(name, src, st) == Ok::<(LexState, TokenView), crate::error::ErrorView>(
            st.token(name, number_kind(text, 0), text, text.len() as int),
        ),
{
    let i = st.index;
    assert(src[i + 0] == text[0]);
    lemma_digit_run(src, i, text, 0);
    let d = digits_end(text, 0);
    assert(digits_end(src, i) == i + d);
    if d < text.len() {
        assert(src[i + d] == text[d]);
        lemma_digit_run(src, i, text, d + 1);
        if d + 1 < text.len() {
            assert(src[i + (d + 1)] == text[d + 1]);
            lemma_digit_run(src, i, text, d + 2);
        } else {
            assert(src[i + d + 1] == ' ');
        }
    } else {
        assert(src[i + d] == ' ');
    }
    assert(number_end(src, i) == i + text.len());
    assert(number_kind(src, i) == number_kind(text, 0));
    assert(src.subrange(i, i + text.len()) =~= text);
    assert(number_token(name, src, st) == Ok::<(LexState, TokenView), crate::error::ErrorView>(
        st.token(name, number_kind(text, 0), text, text.len() as int),
    ));
}

/// A text is written inside a literal as its first character is, and then
/// the rest.
pub proof fn lemma_escaped_first(text: Seq<char>, quote: char)
    requires
        text.len() > 0,
    ensures
        escaped(text, quote) == escaped_char(text[0], quote) + escaped(text.skip(1), quote),
    decreases text.len(),
{
    if text.len() == 1 {
        assert(text.drop_last() =~= Seq::<char>::empty());
        assert(text.skip(1) =~= Seq::<char>::empty());
        assert(escaped(text.drop_last(), quote) =~= Seq::<char>::empty());
        assert(escaped(text, quote) =~= escaped_char(text[0], quote) + escaped(
            text.skip(1),
            quote,
        ));
    } else {
        lemma_escaped_first(text.drop_last(), quote);
        assert(text.drop_last().skip(1) =~= text.skip(1).drop_last());
        assert(text.drop_last()[0] == text[0]);
        assert(text.skip(1).last() == text.last());
        assert(escaped(text, quote) =~= escaped_char(text[0], quote) + escaped(
            text.skip(1),
            quote,
        ));
    }
}

/// Reading the body of a string literal: what was written with escapes is
/// read as it was.
pub proof fn lemma_string_scan(src: Seq<char>, j: int, rest: Seq<char>, text: Seq<char>)
    requires
        0 <= j,
        j + escaped(rest, '"').len() < src.len(),
        forall|k: int|
            0 <= k < escaped(rest, '"').len() ==> src[j + k] == #[trigger] escaped(rest, '"')[k],
        src[j + escaped(rest, '"').len()] == '"',
    ensures
        scan_string(src, j, text) == (Scan::Closed {
            text: text + rest,
            end: j + escaped(rest, '"').len() + 1,
        }),
    decreases rest.len(),
{
    if rest.len() == 0 {
        assert(escaped(rest, '"') =~= Seq::<char>::empty());
        assert(text + rest =~= text);
    } else {
        let c = rest[0];
        let first = escaped_char(c, '"');
        let tail = rest.skip(1);
        lemma_escaped_first(rest, '"');
        let all = escaped(rest, '"');
        assert(all.len() == first.len() + escaped(tail, '"').len());
        assert(all[0] == first[0]);
        assert(src[j + 0] == all[0]);
        if first.len() == 2 {
            assert(all[1] == first[1]);
            assert(src[j + 1] == all[1]);
        }
        assert forall|k: int| 0 <= k < escaped(tail, '"').len() implies src[j + first.len() + k]
            == #[trigger] escaped(tail, '"')[k] by {
            assert(all[first.len() + k] == escaped(tail, '"')[k]);
            assert(src[j + (first.len() + k)] == all[first.len() + k]);
        }
        lemma_string_scan(src, j + first.len(), tail, text.push(c));
        assert(text.push(c) + tail =~= text + rest);
    }
}

/// Reading a string literal.
pub proof fn lemma_string_read(name: Seq<char>, src: Seq<char>, st: LexState, piece: Piece)
    requires
        piece.kind == TokenKind::String,
        holds(src, st.index, piece_text(piece)),
    ensures
        next_token(name, src, st) == reads(name, st, piece),
{
    let i = st.index;
    let text = piece_text(piece);
    let body = escaped(piece.lexeme, '"');
    assert(text[0] == '"');
    assert(src[i + 0] == text[0]);
    assert forall|k: int| 0 <= k < body.len() implies src[i + 1 + k] == #[trigger] body[k] by {
        assert(text[1 + k] == body[k]);
        assert(src[i + (1 + k)] == text[1 + k]);
    }
    let last = body.len() as int + 1;
    assert(text[last] == '"');
    assert(src[i + last] == text[last]);
    lemma_string_scan(src, i + 1, piece.lexeme, Seq::empty());
    assert(Seq::<char>::empty() + piece.lexeme =~= piece.lexeme);
}

/// Reading a character literal.
pub proof fn lemma_character_read(name: Seq<char>, src: Seq<char>, st: LexState, piece: Piece)
    requires
        piece.kind == TokenKind::Character,
        piece.lexeme.len() == 1,
        holds(src, st.index, piece_text(piece)),
    ensures
        next_token(name, src, st) == reads(name, st, piece),
{
    let i = st.index;
    let text = piece_text(piece);
    let c = piece.lexeme[0];
    assert(piece.lexeme.drop_last() =~= Seq::<char>::empty());
    assert(escaped(piece.lexeme.drop_last(), '\'') =~= Seq::<char>::empty());
    assert(piece.lexeme.last() == c);
    assert(escaped(piece.lexeme, '\'') =~= escaped_char(c, '\''));
    let body = escaped_char(c, '\'');
    assert(text =~= seq!['\''] + body + seq!['\'']);
    assert(src[i + 0] == text[0]);
    assert(src[i + 1] == text[1]);
    assert(src[i + 2] == text[2]);
    if body.len() == 2 {
        assert(src[i + 3] == text[3]);
    }
    assert(piece.lexeme =~= seq![c]);
    assert(scan_character(src, i) == (Scan::Closed { text: seq![c], end: i + text.len() }));
}

/// Whether a kind is that of a keyword.
pub open spec fn is_keyword(kind: TokenKind) -> bool {
    kind == TokenKind::As || kind == TokenKind::Const || kind == TokenKind::Fn || kind == TokenKind::For || kind == TokenKind::In || kind
        == TokenKind::Import || kind == TokenKind::Mut || kind == TokenKind::Return || kind == TokenKind::Struct || kind == TokenKind::Var || kind
        == TokenKind::Int || kind == TokenKind::Float || kind == TokenKind::Bool || kind == TokenKind::Char
}

/// Whether a kind is that of an operator or a punctuation mark.
pub open spec fn is_mark(kind: TokenKind) -> bool {
    kind == TokenKind::Plus || kind == TokenKind::PlusEquals || kind == TokenKind::Minus || kind == TokenKind::MinusEquals || kind == TokenKind::Asterisk || kind == TokenKind::AsteriskEquals || kind == TokenKind::Slash || kind == TokenKind::SlashEquals || kind == TokenKind::Percent || kind == TokenKind::PercentEquals || kind == TokenKind::Equals || kind == TokenKind::EqualsEquals || kind == TokenKind::Bang || kind == TokenKind::BangEquals || kind == TokenKind::LessThan || kind == TokenKind::LessThanEquals || kind == TokenKind::GreaterThan || kind == TokenKind::GreaterThanEquals || kind == TokenKind::And || kind == TokenKind::Or || kind == TokenKind::Ampersand || kind == TokenKind::Pipe || kind == TokenKind::Caret || kind == TokenKind::Tilde || kind == TokenKind::OpenParenthesis || kind == TokenKind::CloseParenthesis || kind == TokenKind::OpenBrace || kind == TokenKind::CloseBrace || kind == TokenKind::OpenBracket || kind == TokenKind::CloseBracket || kind == TokenKind::Comma || kind == TokenKind::Dot || kind == TokenKind::Colon || kind == TokenKind::Semicolon || kind == TokenKind::Arrow
}

/// A text of identifier characters is one run.
pub proof fn lemma_all_parts(text: Seq<char>, a: int)
    requires
        0 <= a <= text.len(),
        forall|j: int| 0 <= j < text.len() ==> is_identifier_part(#[trigger] text[j]),
    ensures
        identifier_end(text, a) == text.len(),
    decreases text.len() - a,
{
    if a < text.len() {
        lemma_all_parts(text, a + 1);
    }
}

proof fn reveal_words()
    ensures
        "as"@.len() == 2,
        "as"@[0] == 'a',
        "as"@[1] == 's',
        "const"@.len() == 5,
        "const"@[0] == 'c',
        "const"@[1] == 'o',
        "const"@[2] == 'n',
        "const"@[3] == 's',
        "const"@[4] == 't',
        "fn"@.len() == 2,
        "fn"@[0] == 'f',
        "fn"@[1] == 'n',
        "for"@.len() == 3,
        "for"@[0] == 'f',
        "for"@[1] == 'o',
        "for"@[2] == 'r',
        "in"@.len() == 2,
        "in"@[0] == 'i',
        "in"@[1] == 'n',
        "import"@.len() == 6,
        "import"@[0] == 'i',
        "import"@[1] == 'm',
        "import"@[2] == 'p',
        "import"@[3] == 'o',
        "import"@[4] == 'r',
        "import"@[5] == 't',
        "mut"@.len() == 3,
        "mut"@[0] == 'm',
        "mut"@[1] == 'u',
        "mut"@[2] == 't',
        "return"@.len() == 6,
        "return"@[0] == 'r',
        "return"@[1] == 'e',
        "return"@[2] == 't',
        "return"@[3] == 'u',
        "return"@[4] == 'r',
        "return"@[5] == 'n',
        "struct"@.len() == 6,
        "struct"@[0] == 's',
        "struct"@[1] == 't',
        "struct"@[2] == 'r',
        "struct"@[3] == 'u',
        "struct"@[4] == 'c',
        "struct"@[5] == 't',
        "var"@.len() == 3,
        "var"@[0] == 'v',
        "var"@[1] == 'a',
        "var"@[2] == 'r',
        "int"@.len() == 3,
        "int"@[0] == 'i',
        "int"@[1] == 'n',
        "int"@[2] == 't',
        "float"@.len() == 5,
        "float"@[0] == 'f',
        "float"@[1] == 'l',
        "float"@[2] == 'o',
        "float"@[3] == 'a',
        "float"@[4] == 't',
        "bool"@.len() == 4,
        "bool"@[0] == 'b',
        "bool"@[1] == 'o',
        "bool"@[2] == 'o',
        "bool"@[3] == 'l',
        "char"@.len() == 4,
        "char"@[0] == 'c',
        "char"@[1] == 'h',
        "char"@[2] == 'a',
        "char"@[3] == 'r',
        "true"@.len() == 4,
        "true"@[0] == 't',
        "true"@[1] == 'r',
        "true"@[2] == 'u',
        "true"@[3] == 'e',
        "false"@.len() == 5,
        "false"@[0] == 'f',
        "false"@[1] == 'a',
        "false"@[2] == 'l',
        "false"@[3] == 's',
        "false"@[4] == 'e',
{
    reveal_strlit("as");
    reveal_strlit("const");
    reveal_strlit("fn");
    reveal_strlit("for");
    reveal_strlit("in");
    reveal_strlit("import");
    reveal_strlit("mut");
    reveal_strlit("return");
    reveal_strlit("struct");
    reveal_strlit("var");
    reveal_strlit("int");
    reveal_strlit("float");
    reveal_strlit("bool");
    reveal_strlit("char");
    reveal_strlit("true");
    reveal_strlit("false");
}

/// The spelling of a keyword is a word, and the word of that keyword.
pub proof fn lemma_keyword_spelling(kind: TokenKind)
    requires
        is_keyword(kind),
    ensures
        is_word(kind.spelling()),
        word_kind(kind.spelling()) == kind,
{
    reveal_words();
    let text = kind.spelling();
    assert forall|j: int| 0 <= j < text.len() implies is_identifier_part(#[trigger] text[j]) by {
    }
    lemma_all_parts(text, 0);
}

/// `true` and `false` are words, and boolean literals.
pub proof fn lemma_boolean_spelling(text: Seq<char>)
    requires
        text == "true"@ || text == "false"@,
    ensures
        is_word(text),
        word_kind(text) == TokenKind::Boolean,
{
    reveal_words();
    assert forall|j: int| 0 <= j < text.len() implies is_identifier_part(#[trigger] text[j]) by {
    }
    lemma_all_parts(text, 0);
}

proof fn lemma_arithmetic_mark_read(name: Seq<char>, src: Seq<char>, st: LexState, kind: TokenKind)
    requires
        kind == TokenKind::Plus || kind == TokenKind::PlusEquals || kind == TokenKind::Minus || kind == TokenKind::MinusEquals || kind == TokenKind::Asterisk || kind == TokenKind::AsteriskEquals || kind == TokenKind::Slash || kind == TokenKind::SlashEquals || kind == TokenKind::Percent || kind == TokenKind::PercentEquals,
        holds(src, st.index, kind.spelling()),
    ensures
        next_token(name, src, st) == Ok::<(LexState, TokenView), crate::error::ErrorView>(
            st.token(name, kind, kind.spelling(), kind.spelling().len() as int),
        ),
        kind.spelling().len() > 0,
{
    let i = st.index;
    let text = kind.spelling();
    reveal_strlit("+");
    reveal_strlit("+=");
    reveal_strlit("-");
    reveal_strlit("-=");
    reveal_strlit("*");
    reveal_strlit("*=");
    reveal_strlit("/");
    reveal_strlit("/=");
    reveal_strlit("%");
    reveal_strlit("%=");
    assert(src[i + 0] == text[0]);
    if text.len() == 2 {
        assert(src[i + 1] == text[1]);
    }
    assert(src.subrange(i, i + text.len()) =~= text);
    assert(mark_at(src, i) == Some((kind, text.len() as int)));
    assert(mark_token(name, src, st) == Ok::<(LexState, TokenView), crate::error::ErrorView>(
        st.token(name, kind, text, text.len() as int),
    ));
}

proof fn lemma_comparison_mark_read(name: Seq<char>, src: Seq<char>, st: LexState, kind: TokenKind)
    requires
        kind == TokenKind::Equals || kind == TokenKind::EqualsEquals || kind == TokenKind::Bang || kind == TokenKind::BangEquals || kind == TokenKind::LessThan || kind == TokenKind::LessThanEquals || kind == TokenKind::GreaterThan || kind == TokenKind::GreaterThanEquals || kind == TokenKind::And || kind == TokenKind::Or,
        holds(src, st.index, kind.spelling()),
    ensures
        next_token(name, src, st) == Ok::<(LexState, TokenView), crate::error::ErrorView>(
            st.token(name, kind, kind.spelling(), kind.spelling().len() as int),
        ),
        kind.spelling().len() > 0,
{
    let i = st.index;
    let text = kind.spelling();
    reveal_strlit("=");
    reveal_strlit("==");
    reveal_strlit("!");
    reveal_strlit("!=");
    reveal_strlit("<");
    reveal_strlit("<=");
    reveal_strlit(">");
    reveal_strlit(">=");
    reveal_strlit("&&");
    reveal_strlit("||");
    assert(src[i + 0] == text[0]);
    if text.len() == 2 {
        assert(src[i + 1] == text[1]);
    }
    assert(src.subrange(i, i + text.len()) =~= text);
    assert(mark_at(src, i) == Some((kind, text.len() as int)));
    assert(mark_token(name, src, st) == Ok::<(LexState, TokenView), crate::error::ErrorView>(
        st.token(name, kind, text, text.len() as int),
    ));
}

proof fn lemma_bracket_mark_read(name: Seq<char>, src: Seq<char>, st: LexState, kind: TokenKind)
    requires
        kind == TokenKind::Ampersand || kind == TokenKind::Pipe || kind == TokenKind::Caret || kind == TokenKind::Tilde || kind == TokenKind::OpenParenthesis || kind == TokenKind::CloseParenthesis || kind == TokenKind::OpenBrace || kind == TokenKind::CloseBrace || kind == TokenKind::OpenBracket || kind == TokenKind::CloseBracket,
        holds(src, st.index, kind.spelling()),
    ensures
        next_token(name, src, st) == Ok::<(LexState, TokenView), crate::error::ErrorView>(
            st.token(name, kind, kind.spelling(), kind.spelling().len() as int),
        ),
        kind.spelling().len() > 0,
{
    let i = st.index;
    let text = kind.spelling();
    reveal_strlit("&");
    reveal_strlit("|");
    reveal_strlit("^");
    reveal_strlit("~");
    reveal_strlit("(");
    reveal_strlit(")");
    reveal_strlit("{");
    reveal_strlit("}");
    reveal_strlit("[");
    reveal_strlit("]");
    assert(src[i + 0] == text[0]);
    if text.len() == 2 {
        assert(src[i + 1] == text[1]);
    }
    assert(src.subrange(i, i + text.len()) =~= text);
    assert(mark_at(src, i) == Some((kind, text.len() as int)));
    assert(mark_token(name, src, st) == Ok::<(LexState, TokenView), crate::error::ErrorView>(
        st.token(name, kind, text, text.len() as int),
    ));
}

proof fn lemma_separator_mark_read(name: Seq<char>, src: Seq<char>, st: LexState, kind: TokenKind)
    requires
        kind == TokenKind::Comma || kind == TokenKind::Dot || kind == TokenKind::Colon || kind == TokenKind::Semicolon || kind == TokenKind::Arrow,
        holds(src, st.index, kind.spelling()),
    ensures
        next_token(name, src, st) == Ok::<(LexState, TokenView), crate::error::ErrorView>(
            st.token(name, kind, kind.spelling(), kind.spelling().len() as int),
        ),
        kind.spelling().len() > 0,
{
    let i = st.index;
    let text = kind.spelling();
    reveal_strlit(",");
    reveal_strlit(".");
    reveal_strlit(":");
    reveal_strlit(";");
    reveal_strlit("->");
    assert(src[i + 0] == text[0]);
    if text.len() == 2 {
        assert(src[i + 1] == text[1]);
    }
    assert(src.subrange(i, i + text.len()) =~= text);
    assert(mark_at(src, i) == Some((kind, text.len() as int)));
    assert(mark_token(name, src, st) == Ok::<(LexState, TokenView), crate::error::ErrorView>(
        st.token(name, kind, text, text.len() as int),
    ));
}

/// Reading an operator or a punctuation mark.
pub proof fn lemma_mark_read(name: Seq<char>, src: Seq<char>, st: LexState, kind: TokenKind)
    requires
        is_mark(kind),
        holds(src, st.index, kind.spelling()),
    ensures
        next_token(name, src, st) == Ok::<(LexState, TokenView), crate::error::ErrorView>(
            st.token(name, kind, kind.spelling(), kind.spelling().len() as int),
        ),
        kind.spelling().len() > 0,
{
    if kind == TokenKind::Plus || kind == TokenKind::PlusEquals || kind == TokenKind::Minus || kind == TokenKind::MinusEquals || kind == TokenKind::Asterisk || kind == TokenKind::AsteriskEquals || kind == TokenKind::Slash || kind == TokenKind::SlashEquals || kind == TokenKind::Percent || kind == TokenKind::PercentEquals {
        lemma_arithmetic_mark_read(name, src, st, kind);
    }     else if kind == TokenKind::Equals || kind == TokenKind::EqualsEquals || kind == TokenKind::Bang || kind == TokenKind::BangEquals || kind == TokenKind::LessThan || kind == TokenKind::LessThanEquals || kind == TokenKind::GreaterThan || kind == TokenKind::GreaterThanEquals || kind == TokenKind::And || kind == TokenKind::Or {
        lemma_comparison_mark_read(name, src, st, kind);
    }     else if kind == TokenKind::Ampersand || kind == TokenKind::Pipe || kind == TokenKind::Caret || kind == TokenKind::Tilde || kind == TokenKind::OpenParenthesis || kind == TokenKind::CloseParenthesis || kind == TokenKind::OpenBrace || kind == TokenKind::CloseBrace || kind == TokenKind::OpenBracket || kind == TokenKind::CloseBracket {
        lemma_bracket_mark_read(name, src, st, kind);
    }     else if kind == TokenKind::Comma || kind == TokenKind::Dot || kind == TokenKind::Colon || kind == TokenKind::Semicolon || kind == TokenKind::Arrow {
        lemma_separator_mark_read(name, src, st, kind);
    }
}

/// Reading a piece: the tokenizer, where it stands at the source text of
/// a well spelled piece that a blank follows, yields the token of the
/// piece and stands at the blank.
pub proof fn lemma_piece_read(name: Seq<char>, src: Seq<char>, st: LexState, piece: Piece)
    requires
        well_spelled(piece),
        holds(src, st.index, piece_text(piece)),
    ensures
        next_token(name, src, st) == reads(name, st, piece),
        piece_text(piece).len() > 0,
{
    if piece.kind == TokenKind::Identifier {
        lemma_word_read(name, src, st, piece.lexeme);
    } else if piece.kind == TokenKind::Boolean {
        lemma_boolean_spelling(piece.lexeme);
        lemma_word_read(name, src, st, piece.lexeme);
    } else if piece.kind == TokenKind::Integer {
        assert(is_digit(piece.lexeme[0]));
        lemma_number_read(name, src, st, piece.lexeme);
    } else if piece.kind == TokenKind::FloatingPoint {
        lemma_number_read(name, src, st, piece.lexeme);
    } else if piece.kind == TokenKind::String {
        lemma_string_read(name, src, st, piece);
    } else if piece.kind == TokenKind::Character {
        lemma_character_read(name, src, st, piece);
    } else if is_keyword(piece.kind) {
        lemma_keyword_spelling(piece.kind);
        lemma_word_read(name, src, st, piece.lexeme);
    } else {
        assert(is_mark(piece.kind));
        lemma_mark_read(name, src, st, piece.kind);
    }
}

} // verus!
