//! Tokens that carry the pieces of a tree.

use crate::printer::{mark, wrapped, Piece};
use crate::token::{TokenKind, TokenView};
use vstd::prelude::*;

verus! {

/// Whether the tokens from `pos` on carry `pieces`: each has the kind and
/// the text of its piece.
pub open spec fn carries(tokens: Seq<TokenView>, pos: int, pieces: Seq<Piece>) -> bool {
    &&& 0 <= pos
    &&& pos + pieces.len() <= tokens.len()
    &&& forall|i: int|
        0 <= i < pieces.len() ==> tokens[pos + i].kind == (#[trigger] pieces[i]).kind
            && tokens[pos + i].lexeme == pieces[i].lexeme
}

/// Tokens that carry a sequence of pieces carry each part of it.
pub proof fn lemma_carries_split(
    tokens: Seq<TokenView>,
    pos: int,
    first: Seq<Piece>,
    second: Seq<Piece>,
)
    requires
        carries(tokens, pos, first + second),
    ensures
        carries(tokens, pos, first),
        carries(tokens, pos + first.len(), second),
{
    let all = first + second;
    assert forall|i: int| 0 <= i < first.len() implies tokens[pos + i].kind == (
    #[trigger] first[i]).kind && tokens[pos + i].lexeme == first[i].lexeme by {
        assert(all[i] == first[i]);
    }
    assert forall|i: int| 0 <= i < second.len() implies tokens[pos + first.len() + i].kind == (
    #[trigger] second[i]).kind && tokens[pos + first.len() + i].lexeme == second[i].lexeme by {
        assert(all[first.len() + i] == second[i]);
    }
}

/// The token that carries the only piece of a sequence of one.
pub proof fn lemma_carries_one(tokens: Seq<TokenView>, pos: int, piece: Piece)
    requires
        carries(tokens, pos, seq![piece]),
    ensures
        0 <= pos < tokens.len(),
        tokens[pos].kind == piece.kind,
        tokens[pos].lexeme == piece.lexeme,
{
    assert(seq![piece][0] == piece);
}

/// What tokens that carry pieces in parentheses hold.
pub proof fn lemma_carries_wrapped(tokens: Seq<TokenView>, pos: int, inner: Seq<Piece>)
    requires
        carries(tokens, pos, wrapped(inner)),
    ensures
        0 <= pos,
        pos + inner.len() + 2 <= tokens.len(),
        tokens[pos].kind == TokenKind::OpenParenthesis,
        carries(tokens, pos + 1, inner),
        tokens[pos + 1 + inner.len()].kind == TokenKind::CloseParenthesis,
        wrapped(inner).len() == inner.len() + 2,
{
    let open = seq![mark(TokenKind::OpenParenthesis)];
    let close = seq![mark(TokenKind::CloseParenthesis)];
    assert(wrapped(inner) =~= open + (inner + close));
    lemma_carries_split(tokens, pos, open, inner + close);
    lemma_carries_split(tokens, pos + 1, inner, close);
    lemma_carries_one(tokens, pos, mark(TokenKind::OpenParenthesis));
    lemma_carries_one(tokens, pos + 1 + inner.len(), mark(TokenKind::CloseParenthesis));
}

} // verus!
