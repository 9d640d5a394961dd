//! What the parser yields for an expression can be written: no integer
//! literal in it is negative, and its pieces are well spelled.

use crate::ast::{BinaryOperator, ExpressionView, NameView, UnaryOperator};
use crate::grammar::{
    advanced, binary_operator, binary_tail, check, consume, expression_list, initializers,
    kind_at, name_of, operator_at, parse_assignment, parse_binary, parse_call, parse_expression,
    parse_operand, parse_primary, parse_unary, postfix_tail, remaining, Parsed, Source,
};
use crate::parsed_types::{
    lemma_mark_is_spelled, lemma_name_is_spelled, lemma_spelled_together, lemma_token_taken,
};
use crate::printer::{
    binary_kind, expression_list_pieces, expression_pieces, initializer_pieces, mark, name_piece,
    optional_name_pieces, unary_pieces, wrapped, Piece,
};
use crate::shape::{expression_shaped, expressions_shaped, initializers_shaped};
use crate::spelled_tokens::{piece_of, tokens_spelled};
use crate::spelling::{all_well_spelled, is_mark, well_spelled};
use crate::text::{decimal, integer_value, signed_decimal};
use crate::token::TokenKind;
use crate::tokenizer::{digits_end, is_digit};
use vstd::prelude::*;

verus! {

/// A text of digits is one run.
pub proof fn lemma_all_digits(text: Seq<char>, a: int)
    requires
        0 <= a <= text.len(),
        forall|j: int| 0 <= j < text.len() ==> is_digit(#[trigger] text[j]),
    ensures
        digits_end(text, a) == text.len(),
    decreases text.len() - a,
{
    if a < text.len() {
        lemma_all_digits(text, a + 1);
    }
}

/// The decimal numeral of a number is a run of digits.
pub proof fn lemma_decimal_digits(n: nat)
    ensures
        decimal(n).len() > 0,
        forall|j: int| 0 <= j < decimal(n).len() ==> is_digit(#[trigger] decimal(n)[j]),
    decreases n,
{
    if n >= 10 {
        lemma_decimal_digits(n / 10);
        let text = decimal(n);
        assert forall|j: int| 0 <= j < text.len() implies is_digit(#[trigger] text[j]) by {
            if j < text.len() - 1 {
                assert(text[j] == decimal(n / 10)[j]);
            }
        }
    }
}

/// The piece of an integer literal that is not negative is well spelled.
pub proof fn lemma_integer_spelled(value: i64)
    requires
        value >= 0,
    ensures
        well_spelled(Piece { kind: TokenKind::Integer, lexeme: signed_decimal(value as int) }),
{
    lemma_decimal_digits(value as nat);
    lemma_all_digits(decimal(value as nat), 0);
}

/// Pieces that are well spelled are well spelled in parentheses.
pub proof fn lemma_wrapped_spelled(inner: Seq<Piece>)
    requires
        all_well_spelled(inner),
    ensures
        all_well_spelled(wrapped(inner)),
{
    lemma_mark_is_spelled(TokenKind::OpenParenthesis);
    lemma_mark_is_spelled(TokenKind::CloseParenthesis);
    lemma_spelled_together(seq![mark(TokenKind::OpenParenthesis)], inner);
    lemma_spelled_together(
        seq![mark(TokenKind::OpenParenthesis)] + inner,
        seq![mark(TokenKind::CloseParenthesis)],
    );
}

/// Whether an expression can be written: no integer literal in it is
/// negative, and its pieces are well spelled.
pub open spec fn expression_good(e: ExpressionView) -> bool {
    expression_shaped(e) && all_well_spelled(expression_pieces(e))
}

/// Whether every expression of a sequence can be written.
pub open spec fn expressions_good(items: Seq<ExpressionView>) -> bool {
    forall|i: int| 0 <= i < items.len() ==> expression_good(#[trigger] items[i])
}

/// Whether every field initializer of a sequence can be written.
pub open spec fn initializers_good(fields: Seq<(Option<NameView>, ExpressionView)>) -> bool {
    forall|i: int|
        0 <= i < fields.len() ==> expression_good((#[trigger] fields[i]).1) && all_well_spelled(
            optional_name_pieces(fields[i].0),
        )
}

/// Whether `r` is the outcome of reading an expression from `pos` on that
/// this module promises: what was read can be written, holds a token, and
/// ends before `Eof`.
pub open spec fn expression_outcome(src: Source, pos: int, r: Parsed<ExpressionView>) -> bool {
    match r.result {
        Ok(e) => expression_good(e) && pos < r.next <= src.tokens.len() - 1,
        Err(_) => true,
    }
}

/// Whether `r` is the outcome of reading what follows an expression that
/// this module promises: as for an expression, but it may hold no token.
pub open spec fn tail_outcome(src: Source, pos: int, r: Parsed<ExpressionView>) -> bool {
    match r.result {
        Ok(e) => expression_good(e) && pos <= r.next <= src.tokens.len() - 1,
        Err(_) => true,
    }
}

/// Expressions that can be written can be written as a list.
pub proof fn lemma_expressions_good(items: Seq<ExpressionView>, from: int)
    requires
        expressions_good(items),
        0 <= from <= items.len(),
    ensures
        expressions_shaped(items, from),
        all_well_spelled(expression_list_pieces(items, from)),
    decreases items.len() - from,
{
    if from < items.len() {
        lemma_expressions_good(items, from + 1);
        assert(expression_good(items[from]));
        lemma_mark_is_spelled(TokenKind::Comma);
        lemma_spelled_together(expression_pieces(items[from]), seq![mark(TokenKind::Comma)]);
        lemma_spelled_together(
            expression_pieces(items[from]) + seq![mark(TokenKind::Comma)],
            expression_list_pieces(items, from + 1),
        );
    }
}

/// Field initializers that can be written can be written as a list.
pub proof fn lemma_initializers_good(fields: Seq<(Option<NameView>, ExpressionView)>, from: int)
    requires
        initializers_good(fields),
        0 <= from <= fields.len(),
    ensures
        initializers_shaped(fields, from),
        all_well_spelled(initializer_pieces(fields, from)),
    decreases fields.len() - from,
{
    if from < fields.len() {
        lemma_initializers_good(fields, from + 1);
        assert(expression_good(fields[from].1));
        lemma_mark_is_spelled(TokenKind::Comma);
        lemma_mark_is_spelled(TokenKind::Equals);
        let name = optional_name_pieces(fields[from].0);
        let equals = seq![mark(TokenKind::Equals)];
        let value = expression_pieces(fields[from].1);
        let comma = seq![mark(TokenKind::Comma)];
        lemma_spelled_together(name, equals);
        lemma_spelled_together(name + equals, value);
        lemma_spelled_together(name + equals + value, comma);
        lemma_spelled_together(
            name + equals + value + comma,
            initializer_pieces(fields, from + 1),
        );
    }
}

/// One more expression that can be written, after expressions that can.
pub proof fn lemma_expressions_pushed(list: Seq<ExpressionView>, e: ExpressionView)
    requires
        expressions_good(list),
        expression_good(e),
    ensures
        expressions_good(list.push(e)),
{
    let longer = list.push(e);
    assert forall|i: int| 0 <= i < longer.len() implies expression_good(#[trigger] longer[i]) by {
        if i < list.len() {
            assert(longer[i] == list[i]);
        }
    }
}

/// The token of a binary operator is the one that the printer writes for
/// it.
pub proof fn lemma_operator_token(level: nat, kind: TokenKind)
    requires
        binary_operator(level, kind) is Some,
    ensures
        binary_kind(binary_operator(level, kind)->0) == kind,
        is_mark(kind),
        kind != TokenKind::Eof,
{
}

/// A binary operation on expressions that can be written can be written.
pub proof fn lemma_binary_good(lhs: ExpressionView, operator: BinaryOperator, rhs: ExpressionView)
    requires
        expression_good(lhs),
        expression_good(rhs),
        is_mark(binary_kind(operator)),
    ensures
        expression_good(ExpressionView::Binary(Box::new(lhs), operator, Box::new(rhs))),
{
    lemma_wrapped_spelled(expression_pieces(lhs));
    lemma_wrapped_spelled(expression_pieces(rhs));
    lemma_mark_is_spelled(binary_kind(operator));
    let left = wrapped(expression_pieces(lhs));
    let middle = seq![mark(binary_kind(operator))];
    lemma_spelled_together(left, middle);
    lemma_spelled_together(left + middle, wrapped(expression_pieces(rhs)));
}

/// An assignment between expressions that can be written can be written.
pub proof fn lemma_assignment_good(target: ExpressionView, value: ExpressionView)
    requires
        expression_good(target),
        expression_good(value),
    ensures
        expression_good(ExpressionView::Assignment(Box::new(target), Box::new(value))),
{
    lemma_wrapped_spelled(expression_pieces(target));
    lemma_wrapped_spelled(expression_pieces(value));
    lemma_mark_is_spelled(TokenKind::Equals);
    let left = wrapped(expression_pieces(target));
    let middle = seq![mark(TokenKind::Equals)];
    lemma_spelled_together(left, middle);
    lemma_spelled_together(left + middle, wrapped(expression_pieces(value)));
}

/// A prefix operation on an expression that can be written can be
/// written.
pub proof fn lemma_unary_good(operator: UnaryOperator, operand: ExpressionView)
    requires
        expression_good(operand),
    ensures
        expression_good(ExpressionView::Unary(operator, Box::new(operand))),
{
    lemma_wrapped_spelled(expression_pieces(operand));
    let head = unary_pieces(operator);
    assert(all_well_spelled(head)) by {
        assert forall|i: int| 0 <= i < head.len() implies well_spelled(#[trigger] head[i]) by {}
    }
    lemma_spelled_together(head, wrapped(expression_pieces(operand)));
}

/// A call of an expression that can be written, with arguments that can,
/// can be written.
pub proof fn lemma_call_good(callee: ExpressionView, arguments: Seq<ExpressionView>)
    requires
        expression_good(callee),
        expressions_good(arguments),
    ensures
        expression_good(ExpressionView::Call(Box::new(callee), arguments)),
{
    lemma_wrapped_spelled(expression_pieces(callee));
    lemma_expressions_good(arguments, 0);
    lemma_mark_is_spelled(TokenKind::OpenParenthesis);
    lemma_mark_is_spelled(TokenKind::CloseParenthesis);
    let head = wrapped(expression_pieces(callee));
    let open = seq![mark(TokenKind::OpenParenthesis)];
    let list = expression_list_pieces(arguments, 0);
    lemma_spelled_together(head, open);
    lemma_spelled_together(head + open, list);
    lemma_spelled_together(head + open + list, seq![mark(TokenKind::CloseParenthesis)]);
}

/// An indexing of an expression that can be written, by one that can, can
/// be written.
pub proof fn lemma_index_good(base: ExpressionView, index: ExpressionView)
    requires
        expression_good(base),
        expression_good(index),
    ensures
        expression_good(ExpressionView::Index(Box::new(base), Box::new(index))),
{
    lemma_wrapped_spelled(expression_pieces(base));
    lemma_mark_is_spelled(TokenKind::OpenBracket);
    lemma_mark_is_spelled(TokenKind::CloseBracket);
    let head = wrapped(expression_pieces(base));
    let open = seq![mark(TokenKind::OpenBracket)];
    lemma_spelled_together(head, open);
    lemma_spelled_together(head + open, expression_pieces(index));
    lemma_spelled_together(
        head + open + expression_pieces(index),
        seq![mark(TokenKind::CloseBracket)],
    );
}

/// An access to a member with a well spelled name, of an expression that
/// can be written, can be written.
pub proof fn lemma_member_good(base: ExpressionView, name: NameView)
    requires
        expression_good(base),
        well_spelled(name_piece(name)),
    ensures
        expression_good(ExpressionView::Member(Box::new(base), name)),
{
    lemma_wrapped_spelled(expression_pieces(base));
    lemma_mark_is_spelled(TokenKind::Dot);
    let tail = seq![mark(TokenKind::Dot), name_piece(name)];
    assert(all_well_spelled(tail)) by {
        assert forall|i: int| 0 <= i < tail.len() implies well_spelled(#[trigger] tail[i]) by {}
    }
    lemma_spelled_together(wrapped(expression_pieces(base)), tail);
}

/// A struct literal of an expression that can be written, with field
/// initializers that can, can be written.
pub proof fn lemma_struct_literal_good(
    ty: ExpressionView,
    fields: Seq<(Option<NameView>, ExpressionView)>,
)
    requires
        expression_good(ty),
        initializers_good(fields),
    ensures
        expression_good(ExpressionView::StructLiteral(Box::new(ty), fields)),
{
    lemma_wrapped_spelled(expression_pieces(ty));
    lemma_initializers_good(fields, 0);
    lemma_mark_is_spelled(TokenKind::OpenBrace);
    lemma_mark_is_spelled(TokenKind::CloseBrace);
    let head = wrapped(expression_pieces(ty));
    let open = seq![mark(TokenKind::OpenBrace)];
    let list = initializer_pieces(fields, 0);
    lemma_spelled_together(head, open);
    lemma_spelled_together(head + open, list);
    lemma_spelled_together(head + open + list, seq![mark(TokenKind::CloseBrace)]);
}

/// An array literal of expressions that can be written can be written.
pub proof fn lemma_array_good(elements: Seq<ExpressionView>)
    requires
        expressions_good(elements),
    ensures
        expression_good(ExpressionView::ArrayLiteral(elements)),
{
    lemma_expressions_good(elements, 0);
    lemma_mark_is_spelled(TokenKind::OpenBracket);
    lemma_mark_is_spelled(TokenKind::CloseBracket);
    let open = seq![mark(TokenKind::OpenBracket)];
    let list = expression_list_pieces(elements, 0);
    lemma_spelled_together(open, list);
    lemma_spelled_together(open + list, seq![mark(TokenKind::CloseBracket)]);
}

/// What the parser yields for an expression can be written.
pub proof fn lemma_parse_expression_good(src: Source, pos: int)
    requires
        tokens_spelled(src.tokens),
        0 <= pos,
    ensures
        expression_outcome(src, pos, parse_expression(src, pos)),
    decreases remaining(src, pos), 18nat,
{
    lemma_parse_assignment_good(src, pos);
}

/// What the parser yields for an assignment can be written.
pub proof fn lemma_parse_assignment_good(src: Source, pos: int)
    requires
        tokens_spelled(src.tokens),
        0 <= pos,
    ensures
        expression_outcome(src, pos, parse_assignment(src, pos)),
    decreases remaining(src, pos), 17nat,
{
    lemma_parse_binary_good(src, pos, 0);
    let target = parse_binary(src, pos, 0);
    if target.result is Ok {
        let at = advanced(target.next, pos);
        if check(src, at, TokenKind::Equals) {
            lemma_token_taken(src, at, TokenKind::Equals);
            lemma_parse_assignment_good(src, at + 1);
            let value = parse_assignment(src, at + 1);
            if value.result is Ok {
                lemma_assignment_good(target.result->Ok_0, value.result->Ok_0);
            }
        }
    }
}

/// What the parser yields for an operand of a binary level can be
/// written.
pub proof fn lemma_parse_operand_good(src: Source, pos: int, level: nat)
    requires
        tokens_spelled(src.tokens),
        0 <= pos,
    ensures
        expression_outcome(src, pos, parse_operand(src, pos, level)),
    decreases remaining(src, pos), (if level < 5 {
        15 - 2 * level
    } else {
        5
    }) as nat,
{
    if level < 5 {
        lemma_parse_binary_good(src, pos, level + 1);
    } else {
        lemma_parse_unary_good(src, pos);
    }
}

/// What the parser yields for an expression of a binary level can be
/// written.
pub proof fn lemma_parse_binary_good(src: Source, pos: int, level: nat)
    requires
        tokens_spelled(src.tokens),
        0 <= pos,
    ensures
        expression_outcome(src, pos, parse_binary(src, pos, level)),
    decreases remaining(src, pos), (if level < 5 {
        16 - 2 * level
    } else {
        6
    }) as nat,
{
    lemma_parse_operand_good(src, pos, level);
    let first = parse_operand(src, pos, level);
    if first.result is Ok {
        lemma_binary_tail_good(src, advanced(first.next, pos), level, first.result->Ok_0);
    }
}

/// What the parser yields for the operators and operands after an
/// expression that can be written can be written.
pub proof fn lemma_binary_tail_good(src: Source, pos: int, level: nat, lhs: ExpressionView)
    requires
        tokens_spelled(src.tokens),
        0 <= pos <= src.tokens.len() - 1,
        expression_good(lhs),
    ensures
        tail_outcome(src, pos, binary_tail(src, pos, level, lhs)),
    decreases remaining(src, pos), 0nat,
{
    match operator_at(src, pos, level) {
        Some(operator) => {
            let kind = kind_at(src, pos)->0;
            lemma_operator_token(level, kind);
            lemma_token_taken(src, pos, kind);
            lemma_parse_operand_good(src, pos + 1, level);
            let second = parse_operand(src, pos + 1, level);
            if second.result is Ok {
                let rhs = second.result->Ok_0;
                lemma_binary_good(lhs, operator, rhs);
                lemma_binary_tail_good(
                    src,
                    advanced(second.next, pos + 1),
                    level,
                    ExpressionView::Binary(Box::new(lhs), operator, Box::new(rhs)),
                );
            }
        },
        None => {},
    }
}

/// What the parser yields for a unary expression can be written.
pub proof fn lemma_parse_unary_good(src: Source, pos: int)
    requires
        tokens_spelled(src.tokens),
        0 <= pos,
    ensures
        expression_outcome(src, pos, parse_unary(src, pos)),
    decreases remaining(src, pos), 3nat,
{
    match kind_at(src, pos) {
        Some(TokenKind::Plus) => {
            lemma_token_taken(src, pos, TokenKind::Plus);
            lemma_parse_unary_good(src, pos + 1);
            if parse_unary(src, pos + 1).result is Ok {
                lemma_unary_good(UnaryOperator::Plus, parse_unary(src, pos + 1).result->Ok_0);
            }
        },
        Some(TokenKind::Minus) => {
            lemma_token_taken(src, pos, TokenKind::Minus);
            lemma_parse_unary_good(src, pos + 1);
            if parse_unary(src, pos + 1).result is Ok {
                lemma_unary_good(UnaryOperator::Minus, parse_unary(src, pos + 1).result->Ok_0);
            }
        },
        Some(TokenKind::Bang) => {
            lemma_token_taken(src, pos, TokenKind::Bang);
            lemma_parse_unary_good(src, pos + 1);
            if parse_unary(src, pos + 1).result is Ok {
                lemma_unary_good(UnaryOperator::Bang, parse_unary(src, pos + 1).result->Ok_0);
            }
        },
        Some(TokenKind::Ampersand) => {
            lemma_token_taken(src, pos, TokenKind::Ampersand);
            if check(src, pos + 1, TokenKind::Mut) {
                lemma_token_taken(src, pos + 1, TokenKind::Mut);
                lemma_parse_unary_good(src, pos + 2);
                if parse_unary(src, pos + 2).result is Ok {
                    lemma_unary_good(
                        UnaryOperator::MutableAddressOf,
                        parse_unary(src, pos + 2).result->Ok_0,
                    );
                }
            } else {
                lemma_parse_unary_good(src, pos + 1);
                if parse_unary(src, pos + 1).result is Ok {
                    lemma_unary_good(
                        UnaryOperator::AddressOf,
                        parse_unary(src, pos + 1).result->Ok_0,
                    );
                }
            }
        },
        _ => {
            lemma_parse_call_good(src, pos);
        },
    }
}

/// What the parser yields for a postfix expression can be written.
pub proof fn lemma_parse_call_good(src: Source, pos: int)
    requires
        tokens_spelled(src.tokens),
        0 <= pos,
    ensures
        expression_outcome(src, pos, parse_call(src, pos)),
    decreases remaining(src, pos), 2nat,
{
    lemma_parse_primary_good(src, pos);
    let head = parse_primary(src, pos);
    if head.result is Ok {
        lemma_postfix_tail_good(src, advanced(head.next, pos), head.result->Ok_0);
    }
}

/// What the parser yields for the postfix operations after an expression
/// that can be written can be written.
pub proof fn lemma_postfix_tail_good(src: Source, pos: int, inner: ExpressionView)
    requires
        tokens_spelled(src.tokens),
        0 <= pos <= src.tokens.len() - 1,
        expression_good(inner),
    ensures
        tail_outcome(src, pos, postfix_tail(src, pos, inner)),
    decreases remaining(src, pos), 0nat,
{
    match kind_at(src, pos) {
        Some(TokenKind::OpenParenthesis) => {
            lemma_token_taken(src, pos, TokenKind::OpenParenthesis);
            lemma_expression_list_good(src, pos + 1, TokenKind::CloseParenthesis, Seq::empty());
            let arguments = expression_list(
                src,
                pos + 1,
                TokenKind::CloseParenthesis,
                Seq::empty(),
            );
            if arguments.result is Ok {
                let list = arguments.result->Ok_0;
                lemma_call_good(inner, list);
                lemma_postfix_tail_good(
                    src,
                    advanced(arguments.next, pos + 1),
                    ExpressionView::Call(Box::new(inner), list),
                );
            }
        },
        Some(TokenKind::OpenBracket) => {
            lemma_token_taken(src, pos, TokenKind::OpenBracket);
            lemma_parse_expression_good(src, pos + 1);
            let index = parse_expression(src, pos + 1);
            if index.result is Ok {
                let at = advanced(index.next, pos + 1);
                if consume(src, at, TokenKind::CloseBracket).result is Ok {
                    lemma_token_taken(src, at, TokenKind::CloseBracket);
                    lemma_index_good(inner, index.result->Ok_0);
                    lemma_postfix_tail_good(
                        src,
                        at + 1,
                        ExpressionView::Index(Box::new(inner), Box::new(index.result->Ok_0)),
                    );
                }
            }
        },
        Some(TokenKind::OpenBrace) => {
            lemma_token_taken(src, pos, TokenKind::OpenBrace);
            lemma_parse_initializers_good(src, pos + 1, Seq::empty());
            let fields = initializers(src, pos + 1, Seq::empty());
            if fields.result is Ok {
                let list = fields.result->Ok_0;
                lemma_struct_literal_good(inner, list);
                lemma_postfix_tail_good(
                    src,
                    advanced(fields.next, pos + 1),
                    ExpressionView::StructLiteral(Box::new(inner), list),
                );
            }
        },
        Some(TokenKind::Dot) => {
            lemma_token_taken(src, pos, TokenKind::Dot);
            if consume(src, pos + 1, TokenKind::Identifier).result is Ok {
                lemma_name_is_spelled(src, pos + 1);
                let name = name_of(src.tokens[pos + 1]);
                lemma_member_good(inner, name);
                lemma_postfix_tail_good(
                    src,
                    pos + 2,
                    ExpressionView::Member(Box::new(inner), name),
                );
            }
        },
        _ => {},
    }
}

/// What the parser yields for the rest of a list of expressions, after
/// expressions that can be written, are expressions that can be written.
pub proof fn lemma_expression_list_good(
    src: Source,
    pos: int,
    close: TokenKind,
    list: Seq<ExpressionView>,
)
    requires
        tokens_spelled(src.tokens),
        0 <= pos,
        expressions_good(list),
        close == TokenKind::CloseBracket || close == TokenKind::CloseParenthesis,
    ensures
        match expression_list(src, pos, close, list).result {
            Ok(out) => expressions_good(out) && pos < expression_list(src, pos, close, list).next
                <= src.tokens.len() - 1,
            Err(_) => true,
        },
    decreases remaining(src, pos), 19nat,
{
    if check(src, pos, close) {
        lemma_token_taken(src, pos, close);
    } else {
        lemma_parse_expression_good(src, pos);
        let item = parse_expression(src, pos);
        if item.result is Ok {
            let at = advanced(item.next, pos);
            lemma_expressions_pushed(list, item.result->Ok_0);
            if check(src, at, close) {
                lemma_token_taken(src, at, close);
            } else if consume(src, at, TokenKind::Comma).result is Ok {
                lemma_token_taken(src, at, TokenKind::Comma);
                lemma_expression_list_good(src, at + 1, close, list.push(item.result->Ok_0));
            }
        }
    }
}

/// What the parser yields for the rest of the field initializers of a
/// struct literal, after ones that can be written, can be written.
pub proof fn lemma_parse_initializers_good(
    src: Source,
    pos: int,
    list: Seq<(Option<NameView>, ExpressionView)>,
)
    requires
        tokens_spelled(src.tokens),
        0 <= pos,
        initializers_good(list),
    ensures
        match initializers(src, pos, list).result {
            Ok(out) => initializers_good(out) && pos < initializers(src, pos, list).next
                <= src.tokens.len() - 1,
            Err(_) => true,
        },
    decreases remaining(src, pos), 19nat,
{
    if check(src, pos, TokenKind::CloseBrace) {
        lemma_token_taken(src, pos, TokenKind::CloseBrace);
    } else {
        let named = check(src, pos, TokenKind::Identifier);
        let name = if named {
            Some(name_of(src.tokens[pos]))
        } else {
            None
        };
        let start = if named {
            pos + 1
        } else {
            pos
        };
        if named {
            lemma_name_is_spelled(src, pos);
        }
        if consume(src, start, TokenKind::Equals).result is Ok {
            lemma_token_taken(src, start, TokenKind::Equals);
            lemma_parse_expression_good(src, start + 1);
            let value = parse_expression(src, start + 1);
            if value.result is Ok {
                let at = advanced(value.next, start + 1);
                let longer = list.push((name, value.result->Ok_0));
                assert(initializers_good(longer)) by {
                    assert forall|i: int| 0 <= i < longer.len() implies expression_good(
                        (#[trigger] longer[i]).1,
                    ) && all_well_spelled(optional_name_pieces(longer[i].0)) by {
                        if i < list.len() {
                            assert(longer[i] == list[i]);
                        }
                    }
                }
                if check(src, at, TokenKind::CloseBrace) {
                    lemma_token_taken(src, at, TokenKind::CloseBrace);
                } else if consume(src, at, TokenKind::Comma).result is Ok {
                    lemma_token_taken(src, at, TokenKind::Comma);
                    lemma_parse_initializers_good(src, at + 1, longer);
                }
            }
        }
    }
}

/// What the parser yields for a primary expression can be written.
pub proof fn lemma_parse_primary_good(src: Source, pos: int)
    requires
        tokens_spelled(src.tokens),
        0 <= pos,
    ensures
        expression_outcome(src, pos, parse_primary(src, pos)),
    decreases remaining(src, pos), 1nat,
{
    match kind_at(src, pos) {
        Some(TokenKind::Identifier) => {
            lemma_name_is_spelled(src, pos);
        },
        Some(TokenKind::String) => {
            lemma_token_taken(src, pos, TokenKind::String);
            assert(expression_pieces(parse_primary(src, pos).result->Ok_0)[0] == piece_of(
                src.tokens[pos],
            ));
        },
        Some(TokenKind::Character) => {
            lemma_token_taken(src, pos, TokenKind::Character);
        },
        Some(TokenKind::Integer) => {
            lemma_token_taken(src, pos, TokenKind::Integer);
            match integer_value(src.tokens[pos].lexeme) {
                Some(value) => {
                    lemma_integer_spelled(value);
                },
                None => {},
            }
        },
        Some(TokenKind::FloatingPoint) => {
            lemma_token_taken(src, pos, TokenKind::FloatingPoint);
            assert(expression_pieces(parse_primary(src, pos).result->Ok_0)[0] == piece_of(
                src.tokens[pos],
            ));
        },
        Some(TokenKind::Boolean) => {
            lemma_token_taken(src, pos, TokenKind::Boolean);
        },
        Some(TokenKind::OpenBracket) => {
            lemma_token_taken(src, pos, TokenKind::OpenBracket);
            lemma_expression_list_good(src, pos + 1, TokenKind::CloseBracket, Seq::empty());
            let elements = expression_list(src, pos + 1, TokenKind::CloseBracket, Seq::empty());
            if elements.result is Ok {
                lemma_array_good(elements.result->Ok_0);
            }
        },
        Some(TokenKind::OpenParenthesis) => {
            lemma_token_taken(src, pos, TokenKind::OpenParenthesis);
            lemma_parse_expression_good(src, pos + 1);
            let inner = parse_expression(src, pos + 1);
            if inner.result is Ok {
                let at = advanced(inner.next, pos + 1);
                if consume(src, at, TokenKind::CloseParenthesis).result is Ok {
                    lemma_token_taken(src, at, TokenKind::CloseParenthesis);
                }
            }
        },
        _ => {},
    }
}

} // verus!
