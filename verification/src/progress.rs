//! Every construct that the grammar reads holds at least one token: the
//! position after it lies after the position where it began. So the
//! grammar's `advanced` never moves a position.

use crate::ast::{ExpressionView, NameView, StatementView, TypeView};
use crate::grammar::{
    advanced, binary_tail, block_items, check, consume, expression_list, function_body,
    initializers, kind_at, name_of, operator_at, parse_assignment, parse_binary, parse_binding,
    parse_block, parse_call, parse_expression, parse_expression_statement, parse_for,
    parse_function, parse_import, parse_operand, parse_primary, parse_reference, parse_return,
    parse_statement, parse_struct, parse_type, parse_unary, postfix_tail, remaining,
    type_annotation, type_list, type_members, typed_names, Parsed, Source,
};
use crate::token::TokenKind;
use vstd::prelude::*;

verus! {

/// Whether what was read from `pos` on, if anything was, holds a token.
pub open spec fn moved<T>(pos: int, r: Parsed<T>) -> bool {
    r.result is Ok ==> r.next > pos
}

/// Whether what was read from `pos` on, if anything was, ends at `pos` or
/// after it.
pub open spec fn held<T>(pos: int, r: Parsed<T>) -> bool {
    r.result is Ok ==> r.next >= pos
}

/// A position after the one where a construct began is what `advanced`
/// gives for it.
pub proof fn lemma_advanced(next: int, pos: int)
    requires
        next > pos,
    ensures
        advanced(next, pos) == next,
{
}

/// A type holds a token.
pub proof fn lemma_type_moves(src: Source, pos: int)
    ensures
        moved(pos, parse_type(src, pos)),
    decreases remaining(src, pos), 1nat,
{
    lemma_reference_moves(src, pos);
    let head = parse_reference(src, pos);
    if head.result is Ok {
        lemma_type_members_hold(src, head.next, head.result->Ok_0);
    }
}

/// The member steps after a type end where they began, or after.
pub proof fn lemma_type_members_hold(src: Source, pos: int, inner: TypeView)
    ensures
        held(pos, type_members(src, pos, inner)),
    decreases remaining(src, pos),
{
    if check(src, pos, TokenKind::Dot) && consume(src, pos + 1, TokenKind::Identifier).result
        is Ok {
        lemma_type_members_hold(
            src,
            pos + 2,
            TypeView::Member(Box::new(inner), name_of(src.tokens[pos + 1])),
        );
    }
}

/// A type without member steps holds a token.
pub proof fn lemma_reference_moves(src: Source, pos: int)
    ensures
        moved(pos, parse_reference(src, pos)),
    decreases remaining(src, pos), 0nat,
{
    match kind_at(src, pos) {
        Some(TokenKind::Ampersand) => {
            if check(src, pos + 1, TokenKind::Mut) {
                lemma_reference_moves(src, pos + 2);
            } else {
                lemma_reference_moves(src, pos + 1);
            }
        },
        Some(TokenKind::Identifier) => {
            if check(src, pos + 1, TokenKind::OpenBracket) {
                lemma_type_list_moves(src, pos + 2, TokenKind::CloseBracket, Seq::empty());
            }
        },
        Some(TokenKind::Fn) => {
            if consume(src, pos + 1, TokenKind::OpenParenthesis).result is Ok {
                lemma_type_list_moves(src, pos + 2, TokenKind::CloseParenthesis, Seq::empty());
                let parameters = type_list(
                    src,
                    pos + 2,
                    TokenKind::CloseParenthesis,
                    Seq::empty(),
                );
                if parameters.result is Ok {
                    let at = advanced(parameters.next, pos);
                    if consume(src, at, TokenKind::Arrow).result is Ok {
                        lemma_type_moves(src, at + 1);
                    }
                }
            }
        },
        _ => {},
    }
}

/// The rest of a list of types holds a token.
pub proof fn lemma_type_list_moves(src: Source, pos: int, close: TokenKind, list: Seq<TypeView>)
    ensures
        moved(pos, type_list(src, pos, close, list)),
    decreases remaining(src, pos), 2nat,
{
    if !check(src, pos, close) {
        lemma_type_moves(src, pos);
        let item = parse_type(src, pos);
        if item.result is Ok {
            let at = advanced(item.next, pos);
            if !check(src, at, close) && consume(src, at, TokenKind::Comma).result is Ok {
                lemma_type_list_moves(src, at + 1, close, list.push(item.result->Ok_0));
            }
        }
    }
}

/// An expression holds a token.
pub proof fn lemma_expression_moves(src: Source, pos: int)
    ensures
        moved(pos, parse_expression(src, pos)),
    decreases remaining(src, pos), 18nat,
{
    lemma_assignment_moves(src, pos);
}

/// An assignment holds a token.
pub proof fn lemma_assignment_moves(src: Source, pos: int)
    ensures
        moved(pos, parse_assignment(src, pos)),
    decreases remaining(src, pos), 17nat,
{
    lemma_binary_moves(src, pos, 0);
    let target = parse_binary(src, pos, 0);
    if target.result is Ok {
        let at = advanced(target.next, pos);
        if check(src, at, TokenKind::Equals) {
            lemma_assignment_moves(src, at + 1);
        }
    }
}

/// An operand of a binary level holds a token.
pub proof fn lemma_operand_moves(src: Source, pos: int, level: nat)
    ensures
        moved(pos, parse_operand(src, pos, level)),
    decreases remaining(src, pos), (if level < 5 {
        15 - 2 * level
    } else {
        5
    }) as nat,
{
    if level < 5 {
        lemma_binary_moves(src, pos, level + 1);
    } else {
        lemma_unary_moves(src, pos);
    }
}

/// An expression of a binary level holds a token.
pub proof fn lemma_binary_moves(src: Source, pos: int, level: nat)
    ensures
        moved(pos, parse_binary(src, pos, level)),
    decreases remaining(src, pos), (if level < 5 {
        16 - 2 * level
    } else {
        6
    }) as nat,
{
    lemma_operand_moves(src, pos, level);
    let first = parse_operand(src, pos, level);
    if first.result is Ok {
        lemma_binary_tail_holds(src, advanced(first.next, pos), level, first.result->Ok_0);
    }
}

/// The operators and operands after an expression end where they began,
/// or after.
pub proof fn lemma_binary_tail_holds(src: Source, pos: int, level: nat, lhs: ExpressionView)
    ensures
        held(pos, binary_tail(src, pos, level, lhs)),
    decreases remaining(src, pos), 0nat,
{
    match operator_at(src, pos, level) {
        Some(operator) => {
            lemma_operand_moves(src, pos + 1, level);
            let second = parse_operand(src, pos + 1, level);
            if second.result is Ok {
                lemma_binary_tail_holds(
                    src,
                    advanced(second.next, pos + 1),
                    level,
                    ExpressionView::Binary(Box::new(lhs), operator, Box::new(second.result->Ok_0)),
                );
            }
        },
        None => {},
    }
}

/// A unary expression holds a token.
pub proof fn lemma_unary_moves(src: Source, pos: int)
    ensures
        moved(pos, parse_unary(src, pos)),
    decreases remaining(src, pos), 3nat,
{
    match kind_at(src, pos) {
        Some(TokenKind::Plus) => {
            lemma_unary_moves(src, pos + 1);
        },
        Some(TokenKind::Minus) => {
            lemma_unary_moves(src, pos + 1);
        },
        Some(TokenKind::Bang) => {
            lemma_unary_moves(src, pos + 1);
        },
        Some(TokenKind::Ampersand) => {
            if check(src, pos + 1, TokenKind::Mut) {
                lemma_unary_moves(src, pos + 2);
            } else {
                lemma_unary_moves(src, pos + 1);
            }
        },
        _ => {
            lemma_call_moves(src, pos);
        },
    }
}

/// A postfix expression holds a token.
pub proof fn lemma_call_moves(src: Source, pos: int)
    ensures
        moved(pos, parse_call(src, pos)),
    decreases remaining(src, pos), 2nat,
{
    lemma_primary_moves(src, pos);
    let head = parse_primary(src, pos);
    if head.result is Ok {
        lemma_postfix_tail_holds(src, advanced(head.next, pos), head.result->Ok_0);
    }
}

/// The postfix operations after an expression end where they began, or
/// after.
pub proof fn lemma_postfix_tail_holds(src: Source, pos: int, inner: ExpressionView)
    ensures
        held(pos, postfix_tail(src, pos, inner)),
    decreases remaining(src, pos), 0nat,
{
    match kind_at(src, pos) {
        Some(TokenKind::OpenParenthesis) => {
            let arguments = expression_list(
                src,
                pos + 1,
                TokenKind::CloseParenthesis,
                Seq::empty(),
            );
            if arguments.result is Ok {
                lemma_postfix_tail_holds(
                    src,
                    advanced(arguments.next, pos + 1),
                    ExpressionView::Call(Box::new(inner), arguments.result->Ok_0),
                );
            }
        },
        Some(TokenKind::OpenBracket) => {
            let index = parse_expression(src, pos + 1);
            if index.result is Ok {
                let at = advanced(index.next, pos + 1);
                if consume(src, at, TokenKind::CloseBracket).result is Ok {
                    lemma_postfix_tail_holds(
                        src,
                        at + 1,
                        ExpressionView::Index(Box::new(inner), Box::new(index.result->Ok_0)),
                    );
                }
            }
        },
        Some(TokenKind::OpenBrace) => {
            let fields = initializers(src, pos + 1, Seq::empty());
            if fields.result is Ok {
                lemma_postfix_tail_holds(
                    src,
                    advanced(fields.next, pos + 1),
                    ExpressionView::StructLiteral(Box::new(inner), fields.result->Ok_0),
                );
            }
        },
        Some(TokenKind::Dot) => {
            if consume(src, pos + 1, TokenKind::Identifier).result is Ok {
                lemma_postfix_tail_holds(
                    src,
                    pos + 2,
                    ExpressionView::Member(Box::new(inner), name_of(src.tokens[pos + 1])),
                );
            }
        },
        _ => {},
    }
}

/// The rest of a list of expressions holds a token.
pub proof fn lemma_expression_list_moves(
    src: Source,
    pos: int,
    close: TokenKind,
    list: Seq<ExpressionView>,
)
    ensures
        moved(pos, expression_list(src, pos, close, list)),
    decreases remaining(src, pos), 19nat,
{
    if !check(src, pos, close) {
        lemma_expression_moves(src, pos);
        let item = parse_expression(src, pos);
        if item.result is Ok {
            let at = advanced(item.next, pos);
            if !check(src, at, close) && consume(src, at, TokenKind::Comma).result is Ok {
                lemma_expression_list_moves(src, at + 1, close, list.push(item.result->Ok_0));
            }
        }
    }
}

/// The rest of the field initializers of a struct literal holds a token.
pub proof fn lemma_initializers_move(
    src: Source,
    pos: int,
    list: Seq<(Option<NameView>, ExpressionView)>,
)
    ensures
        moved(pos, initializers(src, pos, list)),
    decreases remaining(src, pos), 19nat,
{
    if !check(src, pos, TokenKind::CloseBrace) {
        let named = check(src, pos, TokenKind::Identifier);
        let name = if named {
            Some(name_of(src.tokens[pos]))
        } else {
            None
        };
        let start = if named {
            pos + 1
        } else {
            pos
        };
        if consume(src, start, TokenKind::Equals).result is Ok {
            let value = parse_expression(src, start + 1);
            if value.result is Ok {
                let at = advanced(value.next, start + 1);
                if !check(src, at, TokenKind::CloseBrace) && consume(
                    src,
                    at,
                    TokenKind::Comma,
                ).result is Ok {
                    lemma_initializers_move(src, at + 1, list.push((name, value.result->Ok_0)));
                }
            }
        }
    }
}

/// A primary expression holds a token.
pub proof fn lemma_primary_moves(src: Source, pos: int)
    ensures
        moved(pos, parse_primary(src, pos)),
    decreases remaining(src, pos), 1nat,
{
    match kind_at(src, pos) {
        Some(TokenKind::OpenBracket) => {
            lemma_expression_list_moves(src, pos + 1, TokenKind::CloseBracket, Seq::empty());
        },
        Some(TokenKind::OpenParenthesis) => {
            lemma_expression_moves(src, pos + 1);
        },
        _ => {},
    }
}

/// The rest of a list of names with types holds a token.
pub proof fn lemma_typed_names_move(
    src: Source,
    pos: int,
    close: TokenKind,
    list: Seq<(NameView, TypeView)>,
)
    ensures
        moved(pos, typed_names(src, pos, close, list)),
    decreases remaining(src, pos),
{
    if !check(src, pos, close) && consume(src, pos, TokenKind::Identifier).result is Ok
        && consume(src, pos + 1, TokenKind::Colon).result is Ok {
        lemma_type_moves(src, pos + 2);
        let ty = parse_type(src, pos + 2);
        if ty.result is Ok {
            let at = advanced(ty.next, pos + 2);
            if !check(src, at, close) && consume(src, at, TokenKind::Comma).result is Ok {
                lemma_typed_names_move(
                    src,
                    at + 1,
                    close,
                    list.push((name_of(src.tokens[pos]), ty.result->Ok_0)),
                );
            }
        }
    }
}

/// A variable or a constant holds a token.
pub proof fn lemma_binding_moves(src: Source, pos: int, constant: bool)
    ensures
        moved(pos, parse_binding(src, pos, constant)),
{
    if check(src, pos + 2, TokenKind::Colon) {
        lemma_type_moves(src, pos + 3);
    }
    let ty = type_annotation(src, pos + 2);
    if ty.result is Ok {
        lemma_expression_moves(src, ty.next + 1);
    }
}

/// A struct holds a token.
pub proof fn lemma_struct_moves(src: Source, pos: int)
    ensures
        moved(pos, parse_struct(src, pos)),
{
    lemma_typed_names_move(src, pos + 3, TokenKind::CloseBrace, Seq::empty());
}

/// A `return` holds a token.
pub proof fn lemma_return_moves(src: Source, pos: int)
    ensures
        moved(pos, parse_return(src, pos)),
{
    lemma_expression_moves(src, pos + 1);
}

/// An expression statement holds a token.
pub proof fn lemma_expression_statement_moves(src: Source, pos: int)
    ensures
        moved(pos, parse_expression_statement(src, pos)),
{
    lemma_expression_moves(src, pos);
}

/// A statement holds a token.
pub proof fn lemma_statement_moves(src: Source, pos: int)
    ensures
        moved(pos, parse_statement(src, pos)),
    decreases remaining(src, pos), 1nat,
{
    match kind_at(src, pos) {
        Some(TokenKind::OpenBrace) => {
            lemma_block_moves(src, pos);
        },
        Some(TokenKind::Import) => {
            assert(moved(pos, parse_import(src, pos)));
        },
        Some(TokenKind::Struct) => {
            lemma_struct_moves(src, pos);
        },
        Some(TokenKind::Fn) => {
            lemma_function_moves(src, pos);
        },
        Some(TokenKind::Var) => {
            lemma_binding_moves(src, pos, false);
        },
        Some(TokenKind::Const) => {
            lemma_binding_moves(src, pos, true);
        },
        Some(TokenKind::For) => {
            lemma_for_moves(src, pos);
        },
        Some(TokenKind::Return) => {
            lemma_return_moves(src, pos);
        },
        Some(TokenKind::Eof) => {},
        Some(_) => {
            lemma_expression_statement_moves(src, pos);
        },
        None => {},
    }
}

/// A block holds a token.
pub proof fn lemma_block_moves(src: Source, pos: int)
    ensures
        moved(pos, parse_block(src, pos)),
    decreases remaining(src, pos), 0nat,
{
    if consume(src, pos, TokenKind::OpenBrace).result is Ok {
        lemma_block_items_hold(src, pos + 1, Seq::empty());
    }
}

/// The rest of a block holds a token.
pub proof fn lemma_block_items_hold(src: Source, pos: int, list: Seq<StatementView>)
    ensures
        moved(pos, block_items(src, pos, list)),
    decreases remaining(src, pos), 2nat,
{
    match kind_at(src, pos) {
        None => {},
        Some(TokenKind::CloseBrace) => {},
        Some(TokenKind::Semicolon) => {
            lemma_block_items_hold(src, pos + 1, list);
        },
        Some(_) => {
            let item = parse_statement(src, pos);
            if item.result is Ok {
                lemma_block_items_hold(
                    src,
                    advanced(item.next, pos),
                    list.push(item.result->Ok_0),
                );
            }
        },
    }
}

/// A function holds a token.
pub proof fn lemma_function_moves(src: Source, pos: int)
    ensures
        moved(pos, parse_function(src, pos)),
    decreases remaining(src, pos), 0nat,
{
    if consume(src, pos, TokenKind::Fn).result is Ok && consume(
        src,
        pos + 1,
        TokenKind::Identifier,
    ).result is Ok && consume(src, pos + 2, TokenKind::OpenParenthesis).result is Ok {
        let parameters = typed_names(src, pos + 3, TokenKind::CloseParenthesis, Seq::empty());
        if parameters.result is Ok {
            let list = parameters.result->Ok_0;
            let name = name_of(src.tokens[pos + 1]);
            let at = advanced(parameters.next, pos + 3);
            if check(src, at, TokenKind::Arrow) {
                let ty = parse_type(src, at + 1);
                if ty.result is Ok {
                    lemma_function_body_moves(
                        src,
                        advanced(ty.next, at + 1),
                        name,
                        list,
                        Some(ty.result->Ok_0),
                    );
                }
            } else {
                lemma_function_body_moves(src, at, name, list, None);
            }
        }
    }
}

/// The body of a function holds a token.
pub proof fn lemma_function_body_moves(
    src: Source,
    pos: int,
    name: NameView,
    parameters: Seq<(NameView, TypeView)>,
    result: Option<TypeView>,
)
    ensures
        moved(pos, function_body(src, pos, name, parameters, result)),
    decreases remaining(src, pos), 2nat,
{
    lemma_statement_moves(src, pos);
}

/// A loop holds a token.
pub proof fn lemma_for_moves(src: Source, pos: int)
    ensures
        moved(pos, parse_for(src, pos)),
    decreases remaining(src, pos), 0nat,
{
    if consume(src, pos, TokenKind::For).result is Ok && consume(
        src,
        pos + 1,
        TokenKind::OpenParenthesis,
    ).result is Ok && consume(src, pos + 2, TokenKind::Identifier).result is Ok && consume(
        src,
        pos + 3,
        TokenKind::In,
    ).result is Ok {
        let range = parse_expression(src, pos + 4);
        if range.result is Ok {
            let at = advanced(range.next, pos + 4);
            if consume(src, at, TokenKind::CloseParenthesis).result is Ok {
                lemma_statement_moves(src, at + 1);
            }
        }
    }
}

} // verus!
