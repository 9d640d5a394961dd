//! What the parser yields for a type can be written: it has a shape of the
//! grammar, and its pieces are well spelled.

use crate::ast::TypeView;
use crate::grammar::{
    advanced, check, consume, kind_at, name_of, parse_reference, parse_type, remaining,
    type_list, type_members, Source,
};
use crate::printer::{mark, name_piece, type_list_pieces, type_pieces, Piece};
use crate::shape::{ends_in_function, reference_shaped, type_shaped, types_shaped};
use crate::spelled_tokens::{piece_of, tokens_spelled};
use crate::spelling::{all_well_spelled, is_keyword, is_mark, well_spelled};
use crate::token::TokenKind;
use vstd::prelude::*;

verus! {

/// Whether every piece of both of two sequences being well spelled makes
/// every piece of the two together well spelled.
pub proof fn lemma_spelled_together(first: Seq<Piece>, second: Seq<Piece>)
    requires
        all_well_spelled(first),
        all_well_spelled(second),
    ensures
        all_well_spelled(first + second),
{
    assert forall|i: int| 0 <= i < (first + second).len() implies well_spelled(
        #[trigger] (first + second)[i],
    ) by {
        if i < first.len() {
            assert((first + second)[i] == first[i]);
        } else {
            assert((first + second)[i] == second[i - first.len()]);
        }
    }
}

/// A keyword, an operator or a punctuation mark is well spelled as it is
/// written.
pub proof fn lemma_mark_is_spelled(kind: TokenKind)
    requires
        is_keyword(kind) || is_mark(kind),
    ensures
        well_spelled(mark(kind)),
        all_well_spelled(seq![mark(kind)]),
{
}

/// What the token at `pos`, which is of the kind `kind` and not `Eof`,
/// tells: it stands before `Eof`, and it is well spelled.
pub proof fn lemma_token_taken(src: Source, pos: int, kind: TokenKind)
    requires
        tokens_spelled(src.tokens),
        check(src, pos, kind),
        kind != TokenKind::Eof,
    ensures
        0 <= pos < src.tokens.len() - 1,
        well_spelled(piece_of(src.tokens[pos])),
{
}

/// The name that a well spelled identifier token carries is well spelled.
pub proof fn lemma_name_is_spelled(src: Source, pos: int)
    requires
        tokens_spelled(src.tokens),
        check(src, pos, TokenKind::Identifier),
    ensures
        0 <= pos < src.tokens.len() - 1,
        well_spelled(name_piece(name_of(src.tokens[pos]))),
        all_well_spelled(seq![name_piece(name_of(src.tokens[pos]))]),
{
    lemma_token_taken(src, pos, TokenKind::Identifier);
    assert(name_piece(name_of(src.tokens[pos])) == piece_of(src.tokens[pos]));
}

/// Whether a type can be written: it has a shape of the grammar, and its
/// pieces are well spelled.
pub open spec fn type_good(ty: TypeView) -> bool {
    type_shaped(ty) && all_well_spelled(type_pieces(ty))
}

/// Whether a type can be written without member steps at its top.
pub open spec fn reference_good(ty: TypeView) -> bool {
    reference_shaped(ty) && all_well_spelled(type_pieces(ty))
}

/// Whether every type of a sequence can be written.
pub open spec fn types_good(types: Seq<TypeView>) -> bool {
    forall|i: int| 0 <= i < types.len() ==> type_good(#[trigger] types[i])
}

/// Types that can be written can be written as a list.
pub proof fn lemma_types_good(types: Seq<TypeView>, from: int)
    requires
        types_good(types),
        0 <= from <= types.len(),
    ensures
        types_shaped(types, from),
        all_well_spelled(type_list_pieces(types, from)),
    decreases types.len() - from,
{
    if from < types.len() {
        lemma_types_good(types, from + 1);
        assert(type_good(types[from]));
        lemma_mark_is_spelled(TokenKind::Comma);
        lemma_spelled_together(type_pieces(types[from]), seq![mark(TokenKind::Comma)]);
        lemma_spelled_together(
            type_pieces(types[from]) + seq![mark(TokenKind::Comma)],
            type_list_pieces(types, from + 1),
        );
    }
}

/// What the parser yields for a type can be written, ends before `Eof`,
/// and no member step follows it.
pub proof fn lemma_parse_type_good(src: Source, pos: int)
    requires
        tokens_spelled(src.tokens),
        0 <= pos,
    ensures
        match parse_type(src, pos).result {
            Ok(ty) => type_good(ty) && pos < parse_type(src, pos).next <= src.tokens.len() - 1
                && !check(src, parse_type(src, pos).next, TokenKind::Dot),
            Err(_) => true,
        },
    decreases remaining(src, pos), 1nat,
{
    lemma_parse_reference_good(src, pos);
    let head = parse_reference(src, pos);
    match head.result {
        Ok(ty) => {
            lemma_type_members_good(src, head.next, ty);
        },
        Err(_) => {},
    }
}

/// What the parser yields for the member steps after a type that can be
/// written can be written.
pub proof fn lemma_type_members_good(src: Source, pos: int, inner: TypeView)
    requires
        tokens_spelled(src.tokens),
        0 <= pos <= src.tokens.len() - 1,
        type_good(inner),
        ends_in_function(inner) ==> !check(src, pos, TokenKind::Dot),
    ensures
        match type_members(src, pos, inner).result {
            Ok(ty) => type_good(ty) && pos <= type_members(src, pos, inner).next
                <= src.tokens.len() - 1 && !check(
                src,
                type_members(src, pos, inner).next,
                TokenKind::Dot,
            ),
            Err(_) => true,
        },
    decreases remaining(src, pos),
{
    if check(src, pos, TokenKind::Dot) {
        lemma_token_taken(src, pos, TokenKind::Dot);
        let name = consume(src, pos + 1, TokenKind::Identifier);
        if name.result is Ok {
            lemma_name_is_spelled(src, pos + 1);
            let outer = TypeView::Member(Box::new(inner), name_of(src.tokens[pos + 1]));
            lemma_mark_is_spelled(TokenKind::Dot);
            let tail = seq![mark(TokenKind::Dot), name_piece(name_of(src.tokens[pos + 1]))];
            assert(all_well_spelled(tail)) by {
                assert forall|i: int| 0 <= i < tail.len() implies well_spelled(
                    #[trigger] tail[i],
                ) by {}
            }
            lemma_spelled_together(type_pieces(inner), tail);
            lemma_type_members_good(src, pos + 2, outer);
        }
    }
}

/// What the parser yields for a type without member steps can be written;
/// where it ends in a function type, no member step follows it.
pub proof fn lemma_parse_reference_good(src: Source, pos: int)
    requires
        tokens_spelled(src.tokens),
        0 <= pos,
    ensures
        match parse_reference(src, pos).result {
            Ok(ty) => reference_good(ty) && pos < parse_reference(src, pos).next
                <= src.tokens.len() - 1 && (ends_in_function(ty) ==> !check(
                src,
                parse_reference(src, pos).next,
                TokenKind::Dot,
            )),
            Err(_) => true,
        },
    decreases remaining(src, pos), 0nat,
{
    match kind_at(src, pos) {
        Some(TokenKind::Ampersand) => {
            lemma_token_taken(src, pos, TokenKind::Ampersand);
            lemma_mark_is_spelled(TokenKind::Ampersand);
            if check(src, pos + 1, TokenKind::Mut) {
                lemma_token_taken(src, pos + 1, TokenKind::Mut);
                lemma_mark_is_spelled(TokenKind::Mut);
                lemma_parse_reference_good(src, pos + 2);
                let inner = parse_reference(src, pos + 2);
                if inner.result is Ok {
                    let head = seq![mark(TokenKind::Ampersand), mark(TokenKind::Mut)];
                    assert(all_well_spelled(head)) by {
                        assert forall|i: int| 0 <= i < head.len() implies well_spelled(
                            #[trigger] head[i],
                        ) by {}
                    }
                    lemma_spelled_together(head, type_pieces(inner.result->Ok_0));
                }
            } else {
                lemma_parse_reference_good(src, pos + 1);
                let inner = parse_reference(src, pos + 1);
                if inner.result is Ok {
                    lemma_spelled_together(
                        seq![mark(TokenKind::Ampersand)],
                        type_pieces(inner.result->Ok_0),
                    );
                }
            }
        },
        Some(TokenKind::Identifier) => {
            lemma_name_is_spelled(src, pos);
            if check(src, pos + 1, TokenKind::OpenBracket) {
                lemma_token_taken(src, pos + 1, TokenKind::OpenBracket);
                lemma_type_list_good(src, pos + 2, TokenKind::CloseBracket, Seq::empty());
                let arguments = type_list(src, pos + 2, TokenKind::CloseBracket, Seq::empty());
                if arguments.result is Ok {
                    let list = arguments.result->Ok_0;
                    lemma_types_good(list, 0);
                    let head = seq![
                        name_piece(name_of(src.tokens[pos])),
                        mark(TokenKind::OpenBracket),
                    ];
                    assert(all_well_spelled(head)) by {
                        assert forall|i: int| 0 <= i < head.len() implies well_spelled(
                            #[trigger] head[i],
                        ) by {}
                    }
                    lemma_mark_is_spelled(TokenKind::CloseBracket);
                    lemma_spelled_together(head, type_list_pieces(list, 0));
                    lemma_spelled_together(
                        head + type_list_pieces(list, 0),
                        seq![mark(TokenKind::CloseBracket)],
                    );
                }
            }
        },
        Some(TokenKind::Fn) => {
            lemma_token_taken(src, pos, TokenKind::Fn);
            let open = consume(src, pos + 1, TokenKind::OpenParenthesis);
            if open.result is Ok {
                lemma_token_taken(src, pos + 1, TokenKind::OpenParenthesis);
                lemma_type_list_good(src, pos + 2, TokenKind::CloseParenthesis, Seq::empty());
                let parameters = type_list(
                    src,
                    pos + 2,
                    TokenKind::CloseParenthesis,
                    Seq::empty(),
                );
                if parameters.result is Ok {
                    let list = parameters.result->Ok_0;
                    let at = advanced(parameters.next, pos);
                    if consume(src, at, TokenKind::Arrow).result is Ok {
                        lemma_token_taken(src, at, TokenKind::Arrow);
                        lemma_parse_type_good(src, at + 1);
                        let result = parse_type(src, at + 1);
                        if result.result is Ok {
                            let ty = result.result->Ok_0;
                            lemma_types_good(list, 0);
                            let head = seq![
                                mark(TokenKind::Fn),
                                mark(TokenKind::OpenParenthesis),
                            ];
                            let middle = seq![
                                mark(TokenKind::CloseParenthesis),
                                mark(TokenKind::Arrow),
                            ];
                            assert(all_well_spelled(head)) by {
                                assert forall|i: int| 0 <= i < head.len() implies well_spelled(
                                    #[trigger] head[i],
                                ) by {}
                            }
                            assert(all_well_spelled(middle)) by {
                                assert forall|i: int| 0 <= i < middle.len() implies well_spelled(
                                    #[trigger] middle[i],
                                ) by {}
                            }
                            lemma_spelled_together(head, type_list_pieces(list, 0));
                            lemma_spelled_together(head + type_list_pieces(list, 0), middle);
                            lemma_spelled_together(
                                head + type_list_pieces(list, 0) + middle,
                                type_pieces(ty),
                            );
                        }
                    }
                }
            }
        },
        Some(TokenKind::Int) => {
            lemma_token_taken(src, pos, TokenKind::Int);
        },
        Some(TokenKind::Float) => {
            lemma_token_taken(src, pos, TokenKind::Float);
        },
        Some(TokenKind::Bool) => {
            lemma_token_taken(src, pos, TokenKind::Bool);
        },
        Some(TokenKind::Char) => {
            lemma_token_taken(src, pos, TokenKind::Char);
        },
        _ => {},
    }
}

/// What the parser yields for the rest of a list of types, after types
/// that can be written, are types that can be written.
pub proof fn lemma_type_list_good(src: Source, pos: int, close: TokenKind, list: Seq<TypeView>)
    requires
        tokens_spelled(src.tokens),
        0 <= pos,
        types_good(list),
        close == TokenKind::CloseBracket || close == TokenKind::CloseParenthesis,
    ensures
        match type_list(src, pos, close, list).result {
            Ok(out) => types_good(out) && pos < type_list(src, pos, close, list).next
                <= src.tokens.len() - 1,
            Err(_) => true,
        },
    decreases remaining(src, pos), 2nat,
{
    if check(src, pos, close) {
        lemma_token_taken(src, pos, close);
    } else {
        lemma_parse_type_good(src, pos);
        let item = parse_type(src, pos);
        if item.result is Ok {
            let ty = item.result->Ok_0;
            let at = advanced(item.next, pos);
            let longer = list.push(ty);
            assert(types_good(longer)) by {
                assert forall|i: int| 0 <= i < longer.len() implies type_good(
                    #[trigger] longer[i],
                ) by {
                    if i < list.len() {
                        assert(longer[i] == list[i]);
                    }
                }
            }
            if check(src, at, close) {
                lemma_token_taken(src, at, close);
            } else if consume(src, at, TokenKind::Comma).result is Ok {
                lemma_token_taken(src, at, TokenKind::Comma);
                lemma_type_list_good(src, at + 1, close, longer);
            }
        }
    }
}

} // verus!
