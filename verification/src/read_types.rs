//! Reading back types: the parser, run on tokens that carry the pieces of
//! a type, yields that type again, up to spans.

use crate::ast::TypeView;
use crate::carry::{carries, lemma_carries_one, lemma_carries_split};
use crate::grammar::{
    advanced, check, done, name_of, parse_reference, parse_type, type_list, type_members, Source,
};
use crate::printer::{mark, name_piece, type_list_pieces, type_pieces};
use crate::shape::{
    bare_type, bare_types, ends_in_function, reference_shaped, type_shaped, types_shaped,
};
use crate::token::TokenKind;
use vstd::prelude::*;

verus! {

/// The pieces of a type begin with a token that can begin a type.
pub proof fn lemma_type_begins(ty: TypeView)
    ensures
        type_pieces(ty).len() > 0,
        begins_type(type_pieces(ty)[0].kind),
    decreases ty,
{
    match ty {
        TypeView::Member(inner, _) => {
            lemma_type_begins(*inner);
        },
        _ => {},
    }
}

/// The kinds of the tokens that begin a type.
pub open spec fn begins_type(kind: TokenKind) -> bool {
    kind == TokenKind::Int || kind == TokenKind::Float || kind == TokenKind::Bool || kind
        == TokenKind::Char || kind == TokenKind::Ampersand || kind == TokenKind::Identifier
        || kind == TokenKind::Fn
}

/// Reading back a type without member steps at its top.
pub proof fn lemma_reference_read_back(src: Source, pos: int, ty: TypeView) -> (out: TypeView)
    requires
        reference_shaped(ty),
        carries(src.tokens, pos, type_pieces(ty)),
        !check(src, pos + type_pieces(ty).len(), TokenKind::OpenBracket),
        ends_in_function(ty) ==> !check(src, pos + type_pieces(ty).len(), TokenKind::Dot),
    ensures
        parse_reference(src, pos) == done(out, pos + type_pieces(ty).len()),
        bare_type(out) == bare_type(ty),
    decreases ty, 0nat,
{
    let tokens = src.tokens;
    let pieces = type_pieces(ty);
    assert(pieces[0].kind == tokens[pos + 0].kind);
    match ty {
        TypeView::Reference(inner) => {
            lemma_carries_split(tokens, pos, seq![mark(TokenKind::Ampersand)], type_pieces(*inner));
            lemma_type_begins(*inner);
            assert(type_pieces(*inner)[0].kind == tokens[pos + 1 + 0].kind);
            assert(!check(src, pos + 1, TokenKind::Mut));
            let inner_out = lemma_reference_read_back(src, pos + 1, *inner);
            TypeView::Reference(Box::new(inner_out))
        },
        TypeView::MutableReference(inner) => {
            let head = seq![mark(TokenKind::Ampersand), mark(TokenKind::Mut)];
            lemma_carries_split(tokens, pos, head, type_pieces(*inner));
            assert(head[1].kind == tokens[pos + 1].kind);
            let inner_out = lemma_reference_read_back(src, pos + 2, *inner);
            TypeView::MutableReference(Box::new(inner_out))
        },
        TypeView::Identifier(name) => TypeView::Identifier(name_of(tokens[pos])),
        TypeView::Polymorphic(name, arguments) => {
            let head = seq![name_piece(name), mark(TokenKind::OpenBracket)];
            let close = seq![mark(TokenKind::CloseBracket)];
            assert(pieces == head + (type_list_pieces(arguments, 0) + close)) by {
                assert(pieces =~= head + (type_list_pieces(arguments, 0) + close));
            }
            lemma_carries_split(tokens, pos, head, type_list_pieces(arguments, 0) + close);
            assert(head[1].kind == tokens[pos + 1].kind);
            let list = lemma_type_list_read_back(
                src,
                pos + 2,
                TokenKind::CloseBracket,
                arguments,
                0,
                Seq::empty(),
            );
            assert(list =~= list.skip(0));
            assert(arguments =~= arguments.skip(0));
            TypeView::Polymorphic(name_of(tokens[pos]), list)
        },
        TypeView::Function(parameters, result) => {
            let head = seq![mark(TokenKind::Fn), mark(TokenKind::OpenParenthesis)];
            let middle = seq![mark(TokenKind::CloseParenthesis), mark(TokenKind::Arrow)];
            let list_pieces = type_list_pieces(parameters, 0);
            assert(pieces == head + ((list_pieces + seq![mark(TokenKind::CloseParenthesis)])
                + (seq![mark(TokenKind::Arrow)] + type_pieces(*result)))) by {
                assert(pieces =~= head + ((list_pieces + seq![mark(TokenKind::CloseParenthesis)])
                    + (seq![mark(TokenKind::Arrow)] + type_pieces(*result))));
            }
            lemma_carries_split(
                tokens,
                pos,
                head,
                (list_pieces + seq![mark(TokenKind::CloseParenthesis)]) + (seq![
                    mark(TokenKind::Arrow),
                ] + type_pieces(*result)),
            );
            assert(head[1].kind == tokens[pos + 1].kind);
            lemma_carries_split(
                tokens,
                pos + 2,
                list_pieces + seq![mark(TokenKind::CloseParenthesis)],
                seq![mark(TokenKind::Arrow)] + type_pieces(*result),
            );
            let list = lemma_type_list_read_back(
                src,
                pos + 2,
                TokenKind::CloseParenthesis,
                parameters,
                0,
                Seq::empty(),
            );
            let at = pos + 2 + list_pieces.len() + 1;
            lemma_carries_split(tokens, at, seq![mark(TokenKind::Arrow)], type_pieces(*result));
            lemma_carries_one(tokens, at, mark(TokenKind::Arrow));
            let result_out = lemma_type_read_back(src, at + 1, *result);
            assert(list =~= list.skip(0));
            assert(parameters =~= parameters.skip(0));
            TypeView::Function(list, Box::new(result_out))
        },
        _ => ty,
    }
}

/// Reading back a list of types, each followed by a comma, and the token
/// `close` that ends it.
pub proof fn lemma_type_list_read_back(
    src: Source,
    pos: int,
    close: TokenKind,
    types: Seq<TypeView>,
    from: int,
    list: Seq<TypeView>,
) -> (out: Seq<TypeView>)
    requires
        0 <= from <= types.len(),
        types_shaped(types, from),
        close == TokenKind::CloseBracket || close == TokenKind::CloseParenthesis,
        carries(src.tokens, pos, type_list_pieces(types, from) + seq![mark(close)]),
    ensures
        type_list(src, pos, close, list) == done(
            out,
            pos + type_list_pieces(types, from).len() + 1,
        ),
        out.len() == list.len() + types.len() - from,
        out.take(list.len() as int) == list,
        bare_types(out.skip(list.len() as int)) == bare_types(types.skip(from)),
    decreases types, types.len() - from,
{
    let tokens = src.tokens;
    let rest = type_list_pieces(types, from);
    lemma_carries_split(tokens, pos, rest, seq![mark(close)]);
    if from >= types.len() {
        lemma_carries_one(tokens, pos, mark(close));
        assert(list.take(list.len() as int) == list);
        assert(bare_types(list.skip(list.len() as int)) =~= bare_types(types.skip(from)));
        list
    } else {
        let item = type_pieces(types[from]);
        let comma = seq![mark(TokenKind::Comma)];
        let tail = type_list_pieces(types, from + 1);
        assert(rest + seq![mark(close)] == item + (comma + (tail + seq![mark(close)]))) by {
            assert(rest + seq![mark(close)] =~= item + (comma + (tail + seq![mark(close)])));
        }
        lemma_carries_split(tokens, pos, item, comma + (tail + seq![mark(close)]));
        lemma_carries_split(tokens, pos + item.len(), comma, tail + seq![mark(close)]);
        lemma_carries_one(tokens, pos + item.len(), mark(TokenKind::Comma));
        lemma_type_begins(types[from]);
        assert(item[0].kind == tokens[pos + 0].kind);
        assert(!check(src, pos, close));
        let first = lemma_type_read_back(src, pos, types[from]);
        let at = pos + item.len();
        assert(advanced(at, pos) == at);
        assert(!check(src, at, close));
        let out = lemma_type_list_read_back(src, at + 1, close, types, from + 1, list.push(first));
        assert(out.take(list.len() as int) == list) by {
            assert(out.take(list.len() as int) =~= out.take(list.len() + 1 as int).take(
                list.len() as int,
            ));
            assert(list.push(first).take(list.len() as int) =~= list);
        }
        assert(out[list.len() as int] == first) by {
            assert(out.take(list.len() + 1 as int)[list.len() as int] == first);
        }
        let mine = bare_types(out.skip(list.len() as int));
        let theirs = bare_types(types.skip(from));
        let inner_mine = bare_types(out.skip(list.len() + 1 as int));
        let inner_theirs = bare_types(types.skip(from + 1));
        assert forall|j: int| 0 <= j < mine.len() implies mine[j] == theirs[j] by {
            if j > 0 {
                assert(out.skip(list.len() as int)[j] == out.skip(list.len() + 1 as int)[j - 1]);
                assert(types.skip(from)[j] == types.skip(from + 1)[j - 1]);
                assert(inner_mine[j - 1] == inner_theirs[j - 1]);
            }
        }
        assert(mine =~= theirs);
        out
    }
}

/// Reading back a type that does not end in a function type, whatever
/// follows it: the parser goes on to look for member steps.
pub proof fn lemma_type_read_on(src: Source, pos: int, ty: TypeView) -> (out: TypeView)
    requires
        type_shaped(ty),
        !ends_in_function(ty),
        carries(src.tokens, pos, type_pieces(ty)),
        !check(src, pos + type_pieces(ty).len(), TokenKind::OpenBracket),
    ensures
        parse_type(src, pos) == type_members(src, pos + type_pieces(ty).len(), out),
        bare_type(out) == bare_type(ty),
    decreases ty, 1nat,
{
    let tokens = src.tokens;
    match ty {
        TypeView::Member(inner, name) => {
            let tail = seq![mark(TokenKind::Dot), name_piece(name)];
            lemma_carries_split(tokens, pos, type_pieces(*inner), tail);
            let at = pos + type_pieces(*inner).len();
            assert(tail[0].kind == tokens[at + 0].kind);
            assert(tail[1].kind == tokens[at + 1].kind);
            let inner_out = lemma_type_read_on(src, pos, *inner);
            TypeView::Member(Box::new(inner_out), name_of(tokens[at + 1]))
        },
        _ => {
            lemma_reference_read_back(src, pos, ty)
        },
    }
}

/// Reading back a type.
pub proof fn lemma_type_read_back(src: Source, pos: int, ty: TypeView) -> (out: TypeView)
    requires
        type_shaped(ty),
        carries(src.tokens, pos, type_pieces(ty)),
        !check(src, pos + type_pieces(ty).len(), TokenKind::OpenBracket),
        !check(src, pos + type_pieces(ty).len(), TokenKind::Dot),
    ensures
        parse_type(src, pos) == done(out, pos + type_pieces(ty).len()),
        bare_type(out) == bare_type(ty),
    decreases ty, 2nat,
{
    if ends_in_function(ty) {
        lemma_reference_read_back(src, pos, ty)
    } else {
        lemma_type_read_on(src, pos, ty)
    }
}

} // verus!
