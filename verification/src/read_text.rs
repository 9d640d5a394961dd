//! Reading back text: the tokenizer, run on the source text of a sequence
//! of pieces, yields the tokens of those pieces, and then `Eof`.

use crate::carry::carries;
use crate::compiler::significant;
use crate::error::ErrorView;
use crate::printer::{piece_text, pieces_text, Piece};
use crate::spelling::{all_well_spelled, holds, lemma_piece_read, reads, well_spelled};
use crate::token::{TokenKind, TokenView};
use crate::tokenizer::{next_token, tokens_from, tokens_of, LexState};
use vstd::prelude::*;

verus! {

/// Where the source text of the piece `k` begins in the source text of
/// `pieces`.
pub open spec fn offset(pieces: Seq<Piece>, k: int) -> int {
    pieces_text(pieces.take(k)).len() as int
}

/// The source text of the first pieces of a sequence begins the source
/// text of the sequence.
pub proof fn lemma_text_prefix(pieces: Seq<Piece>, k: int)
    requires
        0 <= k <= pieces.len(),
    ensures
        offset(pieces, k) <= pieces_text(pieces).len(),
        pieces_text(pieces).take(offset(pieces, k)) == pieces_text(pieces.take(k)),
    decreases pieces.len(),
{
    if k == pieces.len() {
        assert(pieces.take(k) =~= pieces);
        assert(pieces_text(pieces).take(offset(pieces, k)) =~= pieces_text(pieces));
    } else {
        let shorter = pieces.drop_last();
        lemma_text_prefix(shorter, k);
        assert(shorter.take(k) =~= pieces.take(k));
        assert(pieces_text(pieces).take(offset(pieces, k)) =~= pieces_text(shorter).take(
            offset(shorter, k),
        ));
    }
}

/// The source text of a sequence of pieces holds the source text of each
/// piece where that piece begins, and the next piece begins after the
/// blank that follows it.
pub proof fn lemma_text_holds(pieces: Seq<Piece>, k: int)
    requires
        0 <= k < pieces.len(),
    ensures
        holds(pieces_text(pieces), offset(pieces, k), piece_text(pieces[k])),
        offset(pieces, k + 1) == offset(pieces, k) + piece_text(pieces[k]).len() + 1,
        offset(pieces, k + 1) <= pieces_text(pieces).len(),
{
    let src = pieces_text(pieces);
    let text = piece_text(pieces[k]);
    let longer = pieces.take(k + 1);
    assert(longer.drop_last() =~= pieces.take(k));
    assert(longer.last() == pieces[k]);
    let upto = pieces_text(longer);
    assert(upto == pieces_text(pieces.take(k)) + text + seq![' ']);
    lemma_text_prefix(pieces, k + 1);
    let start = offset(pieces, k);
    assert forall|j: int| 0 <= j < text.len() implies src[start + j] == #[trigger] text[j] by {
        assert(src.take(offset(pieces, k + 1))[start + j] == upto[start + j]);
    }
    assert(src.take(offset(pieces, k + 1))[start + text.len()] == upto[start + text.len()]);
}

/// Whether `out`, from its element `m` on, holds the tokens of `pieces`
/// from `k` on, and then `Eof`.
pub open spec fn lexed_from(out: Seq<TokenView>, m: int, pieces: Seq<Piece>, k: int) -> bool
    decreases pieces.len() - k,
{
    if k < 0 || k >= pieces.len() {
        0 <= m && out.len() == m + 1 && out[m].kind == TokenKind::Eof
    } else {
        0 <= m < out.len() && out[m].kind == pieces[k].kind && out[m].lexeme == pieces[k].lexeme
            && lexed_from(out, m + 1, pieces, k + 1)
    }
}

/// What holds the tokens of well spelled pieces, and then `Eof`, carries
/// the pieces, ends with `Eof`, and holds no layout token.
pub proof fn lemma_lexed_from(out: Seq<TokenView>, m: int, pieces: Seq<Piece>, k: int)
    requires
        0 <= k <= pieces.len(),
        all_well_spelled(pieces),
        lexed_from(out, m, pieces, k),
    ensures
        out.len() == m + pieces.len() - k + 1,
        carries(out, m, pieces.skip(k)),
        out.last().kind == TokenKind::Eof,
        forall|j: int| m <= j < out.len() ==> !(#[trigger] out[j]).kind.is_layout(),
    decreases pieces.len() - k,
{
    if k < pieces.len() {
        lemma_lexed_from(out, m + 1, pieces, k + 1);
        assert(well_spelled(pieces[k]));
        let rest = pieces.skip(k);
        let inner = pieces.skip(k + 1);
        assert forall|i: int| 0 <= i < rest.len() implies out[m + i].kind == (
        #[trigger] rest[i]).kind && out[m + i].lexeme == rest[i].lexeme by {
            if i > 0 {
                assert(inner[i - 1] == rest[i]);
                assert(out[m + 1 + (i - 1)].kind == inner[i - 1].kind);
            }
        }
    } else {
        assert(pieces.skip(k) =~= Seq::<Piece>::empty());
    }
}

/// Tokens without layout tokens are all significant.
pub proof fn lemma_all_significant(tokens: Seq<TokenView>)
    requires
        forall|j: int| 0 <= j < tokens.len() ==> !(#[trigger] tokens[j]).kind.is_layout(),
    ensures
        significant(tokens) == tokens,
    decreases tokens.len(),
{
    if tokens.len() > 0 {
        lemma_all_significant(tokens.drop_last());
        assert(!tokens[tokens.len() - 1].kind.is_layout());
        assert(tokens.drop_last().push(tokens.last()) =~= tokens);
    }
}

/// Whether the tokenizer state `st` is ready to read the piece `k` of
/// `pieces`: it stands at the start of the text before the first piece,
/// and at the blank after the piece before, otherwise.
pub open spec fn ready(pieces: Seq<Piece>, k: int, st: LexState) -> bool {
    if k == 0 {
        st.index == 0
    } else {
        st.index == offset(pieces, k) - 1
    }
}

/// Reading the pieces from `k` on: the tokenizer yields their tokens, and
/// then `Eof`.
pub proof fn lemma_pieces_lexed(
    name: Seq<char>,
    pieces: Seq<Piece>,
    k: int,
    st: LexState,
    done: Seq<TokenView>,
) -> (out: Seq<TokenView>)
    requires
        all_well_spelled(pieces),
        0 <= k <= pieces.len(),
        ready(pieces, k, st),
    ensures
        tokens_from(name, pieces_text(pieces), st, done) == Ok::<Seq<TokenView>, ErrorView>(out),
        out.len() >= done.len(),
        out.take(done.len() as int) == done,
        lexed_from(out, done.len() as int, pieces, k),
    decreases pieces.len() - k,
{
    let src = pieces_text(pieces);
    assert(offset(pieces, 0) == 0) by {
        assert(pieces.take(0) =~= Seq::<Piece>::empty());
    }
    assert(offset(pieces, pieces.len() as int) == src.len()) by {
        assert(pieces.take(pieces.len() as int) =~= pieces);
    }
    if k > 0 {
        lemma_text_holds(pieces, k - 1);
        assert(src[st.index] == ' ');
        assert(next_token(name, src, st) == next_token(name, src, st.forward(1)));
    }
    let at = if k > 0 {
        st.forward(1)
    } else {
        st
    };
    assert(at.index == offset(pieces, k));
    if k >= pieces.len() {
        let token = TokenView { kind: TokenKind::Eof, lexeme: Seq::empty(), span: at.span(name, 0) };
        assert(next_token(name, src, at) == Ok::<(LexState, TokenView), ErrorView>((at, token)));
        let out = done.push(token);
        assert(out.take(done.len() as int) =~= done);
        out
    } else {
        let piece = pieces[k];
        lemma_text_holds(pieces, k);
        assert(well_spelled(piece));
        lemma_piece_read(name, src, at, piece);
        let width = piece_text(piece).len() as int;
        let after = at.forward(width);
        let token = TokenView {
            kind: piece.kind,
            lexeme: piece.lexeme,
            span: at.span(name, width),
        };
        assert(next_token(name, src, st) == Ok::<(LexState, TokenView), ErrorView>(
            (after, token),
        ));
        assert(after.index == offset(pieces, k + 1) - 1);
        let longer = done.push(token);
        let out = lemma_pieces_lexed(name, pieces, k + 1, after, longer);
        assert(tokens_from(name, src, st, done) == tokens_from(name, src, after, longer));
        assert(out.take(done.len() as int) == done) by {
            assert(out.take(longer.len() as int).take(done.len() as int) =~= out.take(
                done.len() as int,
            ));
            assert(longer.take(done.len() as int) =~= done);
        }
        assert(out[done.len() as int] == token) by {
            assert(out.take(longer.len() as int)[done.len() as int] == longer[done.len() as int]);
        }
        out
    }
}

/// The tokenizer reads back what the printer wrote: run on the source text
/// of well spelled pieces, it yields tokens that carry the pieces, then
/// `Eof`, and no layout token.
pub proof fn lemma_text_read_back(name: Seq<char>, pieces: Seq<Piece>)
    requires
        all_well_spelled(pieces),
    ensures
        tokens_of(name, pieces_text(pieces)) is Ok,
        ({
            let tokens = tokens_of(name, pieces_text(pieces))->Ok_0;
            &&& tokens.len() == pieces.len() + 1
            &&& carries(tokens, 0, pieces)
            &&& tokens.last().kind == TokenKind::Eof
            &&& significant(tokens) == tokens
        }),
{
    let out = lemma_pieces_lexed(name, pieces, 0, LexState::start(), Seq::empty());
    lemma_lexed_from(out, 0, pieces, 0);
    assert(pieces.skip(0) =~= pieces);
    lemma_all_significant(out);
}

} // verus!
