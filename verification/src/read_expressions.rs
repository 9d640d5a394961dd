//! Reading back expressions: the parser, run on tokens that carry the
//! pieces of an expression, yields that expression again, up to spans.

use crate::ast::{BinaryOperator, ExpressionView, NameView, UnaryOperator};
use crate::carry::{carries, lemma_carries_one, lemma_carries_split, lemma_carries_wrapped};
use crate::grammar::{
    advanced, binary_operator, binary_tail, check, done, expression_list, initializers, kind_at,
    name_of, operator_at, parse_assignment, parse_binary, parse_call, parse_expression,
    parse_operand, parse_primary, parse_unary, postfix_tail, Source,
};
use crate::printer::{
    binary_kind, expression_list_pieces, expression_pieces, initializer_pieces, mark, name_piece,
    optional_name_pieces, unary_pieces, wrapped,
};
use crate::shape::{
    bare_expression, bare_expressions, bare_initializers, expression_shaped, expressions_shaped,
    initializers_shaped,
};
use crate::text::{integer_value, lemma_decimal_value};
use crate::token::TokenKind;
use vstd::prelude::*;

verus! {

/// Whether a token of kind `kind` goes on with a postfix operation.
pub open spec fn opens_postfix(kind: TokenKind) -> bool {
    kind == TokenKind::OpenParenthesis || kind == TokenKind::OpenBracket || kind
        == TokenKind::OpenBrace || kind == TokenKind::Dot
}

/// Whether a token of kind `kind` ends the expression before it: it goes
/// on with no postfix operation, no binary operator and no assignment.
pub open spec fn stops(kind: TokenKind) -> bool {
    !opens_postfix(kind) && kind != TokenKind::Equals && !kind.is_binary_operator()
}

/// Whether no postfix operation begins at `p`.
pub open spec fn quiet_at(src: Source, p: int) -> bool {
    match kind_at(src, p) {
        Some(kind) => !opens_postfix(kind),
        None => true,
    }
}

/// Whether the token at `p`, if there is one, ends the expression before
/// it.
pub open spec fn stops_at(src: Source, p: int) -> bool {
    match kind_at(src, p) {
        Some(kind) => stops(kind),
        None => true,
    }
}

/// Whether no binary operator of a level tighter than `level` stands at
/// `p`.
pub open spec fn none_above(src: Source, p: int, level: nat) -> bool {
    forall|j: nat| level < j ==> (#[trigger] operator_at(src, p, j)) is None
}

/// Whether no binary operator of the level `level` or of a looser one
/// stands at `p`.
pub open spec fn none_up_to(src: Source, p: int, level: nat) -> bool {
    forall|j: nat| j <= level ==> (#[trigger] operator_at(src, p, j)) is None
}

/// The precedence level of a binary operator.
pub open spec fn level_of(operator: BinaryOperator) -> nat {
    match operator {
        BinaryOperator::Or => 0,
        BinaryOperator::And => 1,
        BinaryOperator::EqualsEquals => 2,
        BinaryOperator::BangEquals => 2,
        BinaryOperator::LessThan => 3,
        BinaryOperator::LessThanEquals => 3,
        BinaryOperator::GreaterThan => 3,
        BinaryOperator::GreaterThanEquals => 3,
        BinaryOperator::Plus => 4,
        BinaryOperator::Minus => 4,
        BinaryOperator::Asterisk => 5,
        BinaryOperator::Slash => 5,
        BinaryOperator::Percent => 5,
    }
}

/// The token of a binary operator writes that operator at its level, and
/// no operator at any other level.
pub proof fn lemma_operator_level(operator: BinaryOperator, level: nat)
    ensures
        binary_operator(level, binary_kind(operator)) == (if level == level_of(operator) {
            Some(operator)
        } else {
            None
        }),
        binary_kind(operator).is_binary_operator(),
        !opens_postfix(binary_kind(operator)),
        binary_kind(operator) != TokenKind::Equals,
        level_of(operator) <= 5,
{
}

/// A token that is no binary operator writes none at any level.
pub proof fn lemma_not_operator(kind: TokenKind, level: nat)
    requires
        !kind.is_binary_operator(),
    ensures
        binary_operator(level, kind) is None,
{
}

/// Where nothing that follows belongs to a tighter level, a unary
/// expression is an operand of the level `level`.
pub proof fn lemma_operand_from_unary(
    src: Source,
    pos: int,
    level: nat,
    x: ExpressionView,
    p: int,
)
    requires
        parse_unary(src, pos) == done(x, p),
        p > pos,
        none_above(src, p, level),
    ensures
        parse_operand(src, pos, level) == done(x, p),
    decreases 5 - level,
{
    if level < 5 {
        lemma_operand_from_unary(src, pos, level + 1, x, p);
        assert(operator_at(src, p, level + 1) is None);
        assert(parse_binary(src, pos, level + 1) == binary_tail(src, p, level + 1, x));
    }
}

/// Where nothing that follows belongs to the level `level` or to a looser
/// one, an operand of that level is an expression.
pub proof fn lemma_expression_from_operand(
    src: Source,
    pos: int,
    level: nat,
    x: ExpressionView,
    p: int,
)
    requires
        parse_operand(src, pos, level) == done(x, p),
        p > pos,
        none_up_to(src, p, level),
        !check(src, p, TokenKind::Equals),
    ensures
        parse_expression(src, pos) == done(x, p),
    decreases level,
{
    assert(operator_at(src, p, level) is None);
    assert(parse_binary(src, pos, level) == binary_tail(src, p, level, x));
    if level > 0 {
        assert(parse_operand(src, pos, (level - 1) as nat) == parse_binary(src, pos, level));
        lemma_expression_from_operand(src, pos, (level - 1) as nat, x, p);
    }
}

/// A token that ends an expression is a binary operator of no level.
pub proof fn lemma_stops_quiet(src: Source, p: int)
    requires
        stops_at(src, p),
    ensures
        forall|level: nat| none_above(src, p, level),
        forall|level: nat| none_up_to(src, p, level),
        quiet_at(src, p),
        !check(src, p, TokenKind::Equals),
{
    assert forall|j: nat| (#[trigger] operator_at(src, p, j)) is None by {
        if kind_at(src, p) is Some {
            lemma_not_operator(kind_at(src, p)->0, j);
        }
    }
}

/// Where what follows ends the expression, a unary expression is an
/// expression.
pub proof fn lemma_expression_from_unary(src: Source, pos: int, x: ExpressionView, p: int)
    requires
        parse_unary(src, pos) == done(x, p),
        p > pos,
        stops_at(src, p),
    ensures
        parse_expression(src, pos) == done(x, p),
{
    lemma_stops_quiet(src, p);
    lemma_operand_from_unary(src, pos, 5, x, p);
    lemma_expression_from_operand(src, pos, 5, x, p);
}

/// The kinds of the tokens that begin an expression as the printer writes
/// it.
pub open spec fn begins_expression(kind: TokenKind) -> bool {
    kind == TokenKind::Identifier || kind == TokenKind::String || kind == TokenKind::Character
        || kind == TokenKind::Integer || kind == TokenKind::FloatingPoint || kind
        == TokenKind::Boolean || kind == TokenKind::OpenParenthesis || kind
        == TokenKind::OpenBracket || kind == TokenKind::Plus || kind == TokenKind::Minus || kind
        == TokenKind::Bang || kind == TokenKind::Ampersand
}

/// The pieces of an expression begin with a token that begins an
/// expression.
pub proof fn lemma_expression_begins(e: ExpressionView)
    ensures
        expression_pieces(e).len() > 0,
        begins_expression(expression_pieces(e)[0].kind),
{
    match e {
        ExpressionView::Unary(operator, _) => {
            assert(unary_pieces(operator).len() > 0);
            assert(expression_pieces(e)[0] == unary_pieces(operator)[0]);
        },
        _ => {},
    }
}

/// Reading back an expression in parentheses.
pub proof fn lemma_wrapped_read_back(src: Source, pos: int, e: ExpressionView) -> (out:
    ExpressionView)
    requires
        expression_shaped(e),
        carries(src.tokens, pos, wrapped(expression_pieces(e))),
    ensures
        parse_primary(src, pos) == done(out, pos + expression_pieces(e).len() + 2),
        bare_expression(out) == bare_expression(e),
    decreases e, 3nat,
{
    lemma_carries_wrapped(src.tokens, pos, expression_pieces(e));
    lemma_expression_begins(e);
    let out = lemma_expression_read_back(src, pos + 1, e);
    out
}

/// Reading back an expression in parentheses as an operand of the level
/// `level`, where nothing that follows belongs to a tighter level.
pub proof fn lemma_operand_read_back(src: Source, pos: int, e: ExpressionView, level: nat) -> (out:
    ExpressionView)
    requires
        expression_shaped(e),
        carries(src.tokens, pos, wrapped(expression_pieces(e))),
        quiet_at(src, pos + expression_pieces(e).len() + 2),
        none_above(src, pos + expression_pieces(e).len() + 2, level),
    ensures
        parse_operand(src, pos, level) == done(out, pos + expression_pieces(e).len() + 2),
        parse_unary(src, pos) == done(out, pos + expression_pieces(e).len() + 2),
        bare_expression(out) == bare_expression(e),
    decreases e, 4nat,
{
    let p = pos + expression_pieces(e).len() + 2;
    lemma_carries_wrapped(src.tokens, pos, expression_pieces(e));
    let out = lemma_wrapped_read_back(src, pos, e);
    assert(postfix_tail(src, p, out) == done(out, p));
    assert(parse_call(src, pos) == done(out, p));
    assert(parse_unary(src, pos) == done(out, p));
    lemma_operand_from_unary(src, pos, level, out, p);
    out
}

/// Reading back an expression in parentheses as an expression.
pub proof fn lemma_wrapped_expression_read_back(src: Source, pos: int, e: ExpressionView) -> (out:
    ExpressionView)
    requires
        expression_shaped(e),
        carries(src.tokens, pos, wrapped(expression_pieces(e))),
        stops_at(src, pos + expression_pieces(e).len() + 2),
    ensures
        parse_expression(src, pos) == done(out, pos + expression_pieces(e).len() + 2),
        bare_expression(out) == bare_expression(e),
    decreases e, 5nat,
{
    let p = pos + expression_pieces(e).len() + 2;
    lemma_stops_quiet(src, p);
    let out = lemma_operand_read_back(src, pos, e, 5);
    lemma_expression_from_unary(src, pos, out, p);
    out
}

/// Reading back a binary operation.
pub proof fn lemma_binary_read_back(src: Source, pos: int, e: ExpressionView) -> (out:
    ExpressionView)
    requires
        e is Binary,
        expression_shaped(e),
        carries(src.tokens, pos, expression_pieces(e)),
        stops_at(src, pos + expression_pieces(e).len()),
    ensures
        parse_expression(src, pos) == done(out, pos + expression_pieces(e).len()),
        bare_expression(out) == bare_expression(e),
    decreases e, 0nat,
{
    let tokens = src.tokens;
    let pieces = expression_pieces(e);
    let end = pos + pieces.len();
    lemma_stops_quiet(src, end);
    match e {
        ExpressionView::Binary(lhs, operator, rhs) => {
            let level = level_of(operator);
            let left = wrapped(expression_pieces(*lhs));
            let middle = seq![mark(binary_kind(operator))];
            let right = wrapped(expression_pieces(*rhs));
            assert(pieces =~= left + (middle + right));
            lemma_carries_split(tokens, pos, left, middle + right);
            let mid = pos + left.len();
            lemma_carries_split(tokens, mid, middle, right);
            lemma_carries_one(tokens, mid, mark(binary_kind(operator)));
            lemma_carries_wrapped(tokens, pos, expression_pieces(*lhs));
            lemma_carries_wrapped(tokens, mid + 1, expression_pieces(*rhs));
            assert forall|j: nat| (#[trigger] operator_at(src, mid, j)) == (if j == level {
                Some(operator)
            } else {
                None
            }) by {
                lemma_operator_level(operator, j);
            }
            lemma_operator_level(operator, level);
            let l = lemma_operand_read_back(src, pos, *lhs, level);
            let r = lemma_operand_read_back(src, mid + 1, *rhs, level);
            let both = ExpressionView::Binary(Box::new(l), operator, Box::new(r));
            assert(end == mid + 1 + right.len());
            assert(binary_tail(src, end, level, both) == done(both, end));
            assert(binary_tail(src, mid, level, l) == done(both, end));
            assert(parse_binary(src, pos, level) == done(both, end));
            if level == 0 {
                assert(parse_assignment(src, pos) == done(both, end));
            } else {
                assert(parse_operand(src, pos, (level - 1) as nat) == parse_binary(
                    src,
                    pos,
                    level,
                ));
                lemma_expression_from_operand(src, pos, (level - 1) as nat, both, end);
            }
            both
        },
        _ => e,
    }
}

/// Reading back an assignment.
pub proof fn lemma_assignment_read_back(src: Source, pos: int, e: ExpressionView) -> (out:
    ExpressionView)
    requires
        e is Assignment,
        expression_shaped(e),
        carries(src.tokens, pos, expression_pieces(e)),
        stops_at(src, pos + expression_pieces(e).len()),
    ensures
        parse_expression(src, pos) == done(out, pos + expression_pieces(e).len()),
        bare_expression(out) == bare_expression(e),
    decreases e, 0nat,
{
    let tokens = src.tokens;
    let pieces = expression_pieces(e);
    let end = pos + pieces.len();
    lemma_stops_quiet(src, end);
    match e {
        ExpressionView::Assignment(target, value) => {
            let left = wrapped(expression_pieces(*target));
            let middle = seq![mark(TokenKind::Equals)];
            let right = wrapped(expression_pieces(*value));
            assert(pieces =~= left + (middle + right));
            lemma_carries_split(tokens, pos, left, middle + right);
            let mid = pos + left.len();
            lemma_carries_split(tokens, mid, middle, right);
            lemma_carries_one(tokens, mid, mark(TokenKind::Equals));
            lemma_carries_wrapped(tokens, pos, expression_pieces(*target));
            lemma_carries_wrapped(tokens, mid + 1, expression_pieces(*value));
            assert forall|j: nat| (#[trigger] operator_at(src, mid, j)) is None by {
                lemma_not_operator(TokenKind::Equals, j);
            }
            let t = lemma_operand_read_back(src, pos, *target, 0);
            assert(parse_binary(src, pos, 0) == binary_tail(src, mid, 0, t));
            assert(parse_binary(src, pos, 0) == done(t, mid));
            let v = lemma_wrapped_expression_read_back(src, mid + 1, *value);
            assert(end == mid + 1 + right.len());
            let both = ExpressionView::Assignment(Box::new(t), Box::new(v));
            assert(parse_assignment(src, mid + 1) == done(v, end));
            assert(parse_assignment(src, pos) == done(both, end));
            both
        },
        _ => e,
    }
}

/// Reading back an expression.
pub proof fn lemma_expression_read_back(src: Source, pos: int, e: ExpressionView) -> (out:
    ExpressionView)
    requires
        expression_shaped(e),
        carries(src.tokens, pos, expression_pieces(e)),
        stops_at(src, pos + expression_pieces(e).len()),
    ensures
        parse_expression(src, pos) == done(out, pos + expression_pieces(e).len()),
        bare_expression(out) == bare_expression(e),
    decreases e, 2nat,
{
    match e {
        ExpressionView::Binary(..) => lemma_binary_read_back(src, pos, e),
        ExpressionView::Assignment(..) => lemma_assignment_read_back(src, pos, e),
        _ => {
            lemma_stops_quiet(src, pos + expression_pieces(e).len());
            let out = lemma_unary_read_back(src, pos, e);
            lemma_expression_from_unary(src, pos, out, pos + expression_pieces(e).len());
            out
        },
    }
}

/// Reading back a name, where no postfix operation follows it.
pub proof fn lemma_identifier_read_back(src: Source, pos: int, e: ExpressionView) -> (out: ExpressionView)
    requires
        expression_shaped(e),
        e is Identifier,
        carries(src.tokens, pos, expression_pieces(e)),
        quiet_at(src, pos + expression_pieces(e).len()),
    ensures
        parse_unary(src, pos) == done(out, pos + expression_pieces(e).len()),
        expression_pieces(e).len() > 0,
        bare_expression(out) == bare_expression(e),
    decreases e, 0nat,
{
    let tokens = src.tokens;
    let pieces = expression_pieces(e);
    let end = pos + pieces.len();
    lemma_expression_begins(e);
    assert(tokens[pos + 0].kind == pieces[0].kind);
    assert(tokens[pos + 0].lexeme == pieces[0].lexeme);
    match e {
        ExpressionView::Identifier(name) => {
            let out = ExpressionView::Identifier(name_of(tokens[pos]));
            assert(parse_primary(src, pos) == done(out, pos + 1));
            assert(postfix_tail(src, pos + 1, out) == done(out, pos + 1));
            assert(parse_call(src, pos) == done(out, pos + 1));
            out
        },
        _ => e,
    }
}

/// Reading back a string literal, where no postfix operation follows it.
pub proof fn lemma_string_read_back(src: Source, pos: int, e: ExpressionView) -> (out: ExpressionView)
    requires
        expression_shaped(e),
        e is String,
        carries(src.tokens, pos, expression_pieces(e)),
        quiet_at(src, pos + expression_pieces(e).len()),
    ensures
        parse_unary(src, pos) == done(out, pos + expression_pieces(e).len()),
        expression_pieces(e).len() > 0,
        bare_expression(out) == bare_expression(e),
    decreases e, 0nat,
{
    let tokens = src.tokens;
    let pieces = expression_pieces(e);
    let end = pos + pieces.len();
    lemma_expression_begins(e);
    assert(tokens[pos + 0].kind == pieces[0].kind);
    assert(tokens[pos + 0].lexeme == pieces[0].lexeme);
    match e {
        ExpressionView::String(text) => {
            let out = ExpressionView::String(name_of(tokens[pos]));
            assert(parse_primary(src, pos) == done(out, pos + 1));
            assert(postfix_tail(src, pos + 1, out) == done(out, pos + 1));
            assert(parse_call(src, pos) == done(out, pos + 1));
            out
        },
        _ => e,
    }
}

/// Reading back a floating-point literal, where no postfix operation follows it.
pub proof fn lemma_floating_point_read_back(src: Source, pos: int, e: ExpressionView) -> (out: ExpressionView)
    requires
        expression_shaped(e),
        e is FloatingPoint,
        carries(src.tokens, pos, expression_pieces(e)),
        quiet_at(src, pos + expression_pieces(e).len()),
    ensures
        parse_unary(src, pos) == done(out, pos + expression_pieces(e).len()),
        expression_pieces(e).len() > 0,
        bare_expression(out) == bare_expression(e),
    decreases e, 0nat,
{
    let tokens = src.tokens;
    let pieces = expression_pieces(e);
    let end = pos + pieces.len();
    lemma_expression_begins(e);
    assert(tokens[pos + 0].kind == pieces[0].kind);
    assert(tokens[pos + 0].lexeme == pieces[0].lexeme);
    match e {
        ExpressionView::FloatingPoint(text) => {
            let out = ExpressionView::FloatingPoint(name_of(tokens[pos]));
            assert(parse_primary(src, pos) == done(out, pos + 1));
            assert(postfix_tail(src, pos + 1, out) == done(out, pos + 1));
            assert(parse_call(src, pos) == done(out, pos + 1));
            out
        },
        _ => e,
    }
}

/// Reading back a character literal, where no postfix operation follows it.
pub proof fn lemma_character_read_back(src: Source, pos: int, e: ExpressionView) -> (out: ExpressionView)
    requires
        expression_shaped(e),
        e is Character,
        carries(src.tokens, pos, expression_pieces(e)),
        quiet_at(src, pos + expression_pieces(e).len()),
    ensures
        parse_unary(src, pos) == done(out, pos + expression_pieces(e).len()),
        expression_pieces(e).len() > 0,
        bare_expression(out) == bare_expression(e),
    decreases e, 0nat,
{
    let tokens = src.tokens;
    let pieces = expression_pieces(e);
    let end = pos + pieces.len();
    lemma_expression_begins(e);
    assert(tokens[pos + 0].kind == pieces[0].kind);
    assert(tokens[pos + 0].lexeme == pieces[0].lexeme);
    match e {
        ExpressionView::Character(c) => {
            let out = ExpressionView::Character((c.0, tokens[pos].span));
            assert(tokens[pos].lexeme =~= seq![c.0]);
            assert(parse_primary(src, pos) == done(out, pos + 1));
            assert(postfix_tail(src, pos + 1, out) == done(out, pos + 1));
            assert(parse_call(src, pos) == done(out, pos + 1));
            out
        },
        _ => e,
    }
}

/// Reading back an integer literal, where no postfix operation follows it.
pub proof fn lemma_integer_read_back(src: Source, pos: int, e: ExpressionView) -> (out: ExpressionView)
    requires
        expression_shaped(e),
        e is Integer,
        carries(src.tokens, pos, expression_pieces(e)),
        quiet_at(src, pos + expression_pieces(e).len()),
    ensures
        parse_unary(src, pos) == done(out, pos + expression_pieces(e).len()),
        expression_pieces(e).len() > 0,
        bare_expression(out) == bare_expression(e),
    decreases e, 0nat,
{
    let tokens = src.tokens;
    let pieces = expression_pieces(e);
    let end = pos + pieces.len();
    lemma_expression_begins(e);
    assert(tokens[pos + 0].kind == pieces[0].kind);
    assert(tokens[pos + 0].lexeme == pieces[0].lexeme);
    match e {
        ExpressionView::Integer(n) => {
            let out = ExpressionView::Integer((n.0, tokens[pos].span));
            lemma_decimal_value(n.0 as nat);
            assert(integer_value(tokens[pos].lexeme) == Some(n.0));
            assert(parse_primary(src, pos) == done(out, pos + 1));
            assert(postfix_tail(src, pos + 1, out) == done(out, pos + 1));
            assert(parse_call(src, pos) == done(out, pos + 1));
            out
        },
        _ => e,
    }
}

/// Reading back a boolean literal, where no postfix operation follows it.
pub proof fn lemma_boolean_read_back(src: Source, pos: int, e: ExpressionView) -> (out: ExpressionView)
    requires
        expression_shaped(e),
        e is Boolean,
        carries(src.tokens, pos, expression_pieces(e)),
        quiet_at(src, pos + expression_pieces(e).len()),
    ensures
        parse_unary(src, pos) == done(out, pos + expression_pieces(e).len()),
        expression_pieces(e).len() > 0,
        bare_expression(out) == bare_expression(e),
    decreases e, 0nat,
{
    let tokens = src.tokens;
    let pieces = expression_pieces(e);
    let end = pos + pieces.len();
    lemma_expression_begins(e);
    assert(tokens[pos + 0].kind == pieces[0].kind);
    assert(tokens[pos + 0].lexeme == pieces[0].lexeme);
    match e {
        ExpressionView::Boolean(b) => {
            let out = ExpressionView::Boolean((b.0, tokens[pos].span));
            reveal_strlit("true");
            reveal_strlit("false");
            assert((tokens[pos].lexeme == "true"@) == b.0) by {
                if !b.0 {
                    assert("false"@.len() != "true"@.len());
                }
            }
            assert(parse_primary(src, pos) == done(out, pos + 1));
            assert(postfix_tail(src, pos + 1, out) == done(out, pos + 1));
            assert(parse_call(src, pos) == done(out, pos + 1));
            out
        },
        _ => e,
    }
}

/// Reading back an array literal, where no postfix operation follows it.
pub proof fn lemma_array_literal_read_back(src: Source, pos: int, e: ExpressionView) -> (out: ExpressionView)
    requires
        expression_shaped(e),
        e is ArrayLiteral,
        carries(src.tokens, pos, expression_pieces(e)),
        quiet_at(src, pos + expression_pieces(e).len()),
    ensures
        parse_unary(src, pos) == done(out, pos + expression_pieces(e).len()),
        expression_pieces(e).len() > 0,
        bare_expression(out) == bare_expression(e),
    decreases e, 0nat,
{
    let tokens = src.tokens;
    let pieces = expression_pieces(e);
    let end = pos + pieces.len();
    lemma_expression_begins(e);
    assert(tokens[pos + 0].kind == pieces[0].kind);
    assert(tokens[pos + 0].lexeme == pieces[0].lexeme);
    match e {
        ExpressionView::ArrayLiteral(elements) => {
            let open = seq![mark(TokenKind::OpenBracket)];
            let close = seq![mark(TokenKind::CloseBracket)];
            let list_pieces = expression_list_pieces(elements, 0);
            assert(pieces =~= open + (list_pieces + close));
            lemma_carries_split(tokens, pos, open, list_pieces + close);
            let list = lemma_expression_list_read_back(
                src,
                pos + 1,
                TokenKind::CloseBracket,
                elements,
                0,
                Seq::empty(),
            );
            assert(list =~= list.skip(0));
            assert(elements =~= elements.skip(0));
            let out = ExpressionView::ArrayLiteral(list);
            assert(parse_primary(src, pos) == done(out, end));
            assert(postfix_tail(src, end, out) == done(out, end));
            assert(parse_call(src, pos) == done(out, end));
            out
        },
        _ => e,
    }
}

/// Reading back a prefix operation, where no postfix operation follows it.
pub proof fn lemma_prefix_read_back(src: Source, pos: int, e: ExpressionView) -> (out: ExpressionView)
    requires
        expression_shaped(e),
        e is Unary,
        carries(src.tokens, pos, expression_pieces(e)),
        quiet_at(src, pos + expression_pieces(e).len()),
    ensures
        parse_unary(src, pos) == done(out, pos + expression_pieces(e).len()),
        expression_pieces(e).len() > 0,
        bare_expression(out) == bare_expression(e),
    decreases e, 0nat,
{
    let tokens = src.tokens;
    let pieces = expression_pieces(e);
    let end = pos + pieces.len();
    lemma_expression_begins(e);
    assert(tokens[pos + 0].kind == pieces[0].kind);
    assert(tokens[pos + 0].lexeme == pieces[0].lexeme);
    match e {
        ExpressionView::Unary(operator, operand) => {
            let head = unary_pieces(operator);
            let body = wrapped(expression_pieces(*operand));
            lemma_carries_split(tokens, pos, head, body);
            let at = pos + head.len();
            lemma_carries_wrapped(tokens, at, expression_pieces(*operand));
            let inner = lemma_wrapped_read_back(src, at, *operand);
            assert(postfix_tail(src, end, inner) == done(inner, end));
            assert(parse_call(src, at) == done(inner, end));
            assert(parse_unary(src, at) == done(inner, end));
            let out = ExpressionView::Unary(operator, Box::new(inner));
            match operator {
                UnaryOperator::MutableAddressOf => {
                    assert(tokens[pos + 1].kind == head[1].kind);
                    assert(check(src, pos + 1, TokenKind::Mut));
                },
                UnaryOperator::AddressOf => {
                    assert(!check(src, pos + 1, TokenKind::Mut));
                },
                _ => {},
            }
            assert(parse_unary(src, pos) == done(out, end));
            out
        },
        _ => e,
    }
}

/// Reading back a call, where no postfix operation follows it.
pub proof fn lemma_call_read_back(src: Source, pos: int, e: ExpressionView) -> (out: ExpressionView)
    requires
        expression_shaped(e),
        e is Call,
        carries(src.tokens, pos, expression_pieces(e)),
        quiet_at(src, pos + expression_pieces(e).len()),
    ensures
        parse_unary(src, pos) == done(out, pos + expression_pieces(e).len()),
        expression_pieces(e).len() > 0,
        bare_expression(out) == bare_expression(e),
    decreases e, 0nat,
{
    let tokens = src.tokens;
    let pieces = expression_pieces(e);
    let end = pos + pieces.len();
    lemma_expression_begins(e);
    assert(tokens[pos + 0].kind == pieces[0].kind);
    assert(tokens[pos + 0].lexeme == pieces[0].lexeme);
    match e {
        ExpressionView::Call(callee, arguments) => {
            let head = wrapped(expression_pieces(*callee));
            let open = seq![mark(TokenKind::OpenParenthesis)];
            let close = seq![mark(TokenKind::CloseParenthesis)];
            let list_pieces = expression_list_pieces(arguments, 0);
            assert(pieces =~= head + (open + (list_pieces + close)));
            lemma_carries_split(tokens, pos, head, open + (list_pieces + close));
            let mid = pos + head.len();
            lemma_carries_split(tokens, mid, open, list_pieces + close);
            lemma_carries_one(tokens, mid, mark(TokenKind::OpenParenthesis));
            lemma_carries_wrapped(tokens, pos, expression_pieces(*callee));
            let c = lemma_wrapped_read_back(src, pos, *callee);
            let list = lemma_expression_list_read_back(
                src,
                mid + 1,
                TokenKind::CloseParenthesis,
                arguments,
                0,
                Seq::empty(),
            );
            assert(list =~= list.skip(0));
            assert(arguments =~= arguments.skip(0));
            let out = ExpressionView::Call(Box::new(c), list);
            assert(postfix_tail(src, end, out) == done(out, end));
            assert(postfix_tail(src, mid, c) == done(out, end));
            assert(parse_call(src, pos) == done(out, end));
            out
        },
        _ => e,
    }
}

/// Reading back an indexing, where no postfix operation follows it.
pub proof fn lemma_index_read_back(src: Source, pos: int, e: ExpressionView) -> (out: ExpressionView)
    requires
        expression_shaped(e),
        e is Index,
        carries(src.tokens, pos, expression_pieces(e)),
        quiet_at(src, pos + expression_pieces(e).len()),
    ensures
        parse_unary(src, pos) == done(out, pos + expression_pieces(e).len()),
        expression_pieces(e).len() > 0,
        bare_expression(out) == bare_expression(e),
    decreases e, 0nat,
{
    let tokens = src.tokens;
    let pieces = expression_pieces(e);
    let end = pos + pieces.len();
    lemma_expression_begins(e);
    assert(tokens[pos + 0].kind == pieces[0].kind);
    assert(tokens[pos + 0].lexeme == pieces[0].lexeme);
    match e {
        ExpressionView::Index(base, index) => {
            let head = wrapped(expression_pieces(*base));
            let open = seq![mark(TokenKind::OpenBracket)];
            let close = seq![mark(TokenKind::CloseBracket)];
            let inner = expression_pieces(*index);
            assert(pieces =~= head + (open + (inner + close)));
            lemma_carries_split(tokens, pos, head, open + (inner + close));
            let mid = pos + head.len();
            lemma_carries_split(tokens, mid, open, inner + close);
            lemma_carries_split(tokens, mid + 1, inner, close);
            lemma_carries_one(tokens, mid, mark(TokenKind::OpenBracket));
            lemma_carries_one(tokens, mid + 1 + inner.len(), mark(TokenKind::CloseBracket));
            lemma_carries_wrapped(tokens, pos, expression_pieces(*base));
            let b = lemma_wrapped_read_back(src, pos, *base);
            let i = lemma_expression_read_back(src, mid + 1, *index);
            let out = ExpressionView::Index(Box::new(b), Box::new(i));
            assert(postfix_tail(src, end, out) == done(out, end));
            assert(postfix_tail(src, mid, b) == done(out, end));
            assert(parse_call(src, pos) == done(out, end));
            out
        },
        _ => e,
    }
}

/// Reading back an access to a member, where no postfix operation follows it.
pub proof fn lemma_member_read_back(src: Source, pos: int, e: ExpressionView) -> (out: ExpressionView)
    requires
        expression_shaped(e),
        e is Member,
        carries(src.tokens, pos, expression_pieces(e)),
        quiet_at(src, pos + expression_pieces(e).len()),
    ensures
        parse_unary(src, pos) == done(out, pos + expression_pieces(e).len()),
        expression_pieces(e).len() > 0,
        bare_expression(out) == bare_expression(e),
    decreases e, 0nat,
{
    let tokens = src.tokens;
    let pieces = expression_pieces(e);
    let end = pos + pieces.len();
    lemma_expression_begins(e);
    assert(tokens[pos + 0].kind == pieces[0].kind);
    assert(tokens[pos + 0].lexeme == pieces[0].lexeme);
    match e {
        ExpressionView::Member(base, name) => {
            let head = wrapped(expression_pieces(*base));
            let tail = seq![mark(TokenKind::Dot), name_piece(name)];
            lemma_carries_split(tokens, pos, head, tail);
            let mid = pos + head.len();
            assert(tokens[mid + 0].kind == tail[0].kind);
            assert(tokens[mid + 1].kind == tail[1].kind);
            assert(tokens[mid + 1].lexeme == tail[1].lexeme);
            lemma_carries_wrapped(tokens, pos, expression_pieces(*base));
            let b = lemma_wrapped_read_back(src, pos, *base);
            let out = ExpressionView::Member(Box::new(b), name_of(tokens[mid + 1]));
            assert(postfix_tail(src, end, out) == done(out, end));
            assert(postfix_tail(src, mid, b) == done(out, end));
            assert(parse_call(src, pos) == done(out, end));
            out
        },
        _ => e,
    }
}

/// Reading back a struct literal, where no postfix operation follows it.
pub proof fn lemma_struct_literal_read_back(src: Source, pos: int, e: ExpressionView) -> (out: ExpressionView)
    requires
        expression_shaped(e),
        e is StructLiteral,
        carries(src.tokens, pos, expression_pieces(e)),
        quiet_at(src, pos + expression_pieces(e).len()),
    ensures
        parse_unary(src, pos) == done(out, pos + expression_pieces(e).len()),
        expression_pieces(e).len() > 0,
        bare_expression(out) == bare_expression(e),
    decreases e, 0nat,
{
    let tokens = src.tokens;
    let pieces = expression_pieces(e);
    let end = pos + pieces.len();
    lemma_expression_begins(e);
    assert(tokens[pos + 0].kind == pieces[0].kind);
    assert(tokens[pos + 0].lexeme == pieces[0].lexeme);
    match e {
        ExpressionView::StructLiteral(ty, fields) => {
            let head = wrapped(expression_pieces(*ty));
            let open = seq![mark(TokenKind::OpenBrace)];
            let close = seq![mark(TokenKind::CloseBrace)];
            let list_pieces = initializer_pieces(fields, 0);
            assert(pieces =~= head + (open + (list_pieces + close)));
            lemma_carries_split(tokens, pos, head, open + (list_pieces + close));
            let mid = pos + head.len();
            lemma_carries_split(tokens, mid, open, list_pieces + close);
            lemma_carries_one(tokens, mid, mark(TokenKind::OpenBrace));
            lemma_carries_wrapped(tokens, pos, expression_pieces(*ty));
            let t = lemma_wrapped_read_back(src, pos, *ty);
            let list = lemma_initializers_read_back(src, mid + 1, fields, 0, Seq::empty());
            assert(list =~= list.skip(0));
            assert(fields =~= fields.skip(0));
            let out = ExpressionView::StructLiteral(Box::new(t), list);
            assert(postfix_tail(src, end, out) == done(out, end));
            assert(postfix_tail(src, mid, t) == done(out, end));
            assert(parse_call(src, pos) == done(out, end));
            out
        },
        _ => e,
    }
}

/// Reading back an expression that is no binary operation and no
/// assignment, where no postfix operation follows it.
pub proof fn lemma_unary_read_back(src: Source, pos: int, e: ExpressionView) -> (out:
    ExpressionView)
    requires
        expression_shaped(e),
        !(e is Binary),
        !(e is Assignment),
        carries(src.tokens, pos, expression_pieces(e)),
        quiet_at(src, pos + expression_pieces(e).len()),
    ensures
        parse_unary(src, pos) == done(out, pos + expression_pieces(e).len()),
        expression_pieces(e).len() > 0,
        bare_expression(out) == bare_expression(e),
    decreases e, 1nat,
{
    match e {
        ExpressionView::Identifier(..) => lemma_identifier_read_back(src, pos, e),
        ExpressionView::String(..) => lemma_string_read_back(src, pos, e),
        ExpressionView::FloatingPoint(..) => lemma_floating_point_read_back(src, pos, e),
        ExpressionView::Character(..) => lemma_character_read_back(src, pos, e),
        ExpressionView::Integer(..) => lemma_integer_read_back(src, pos, e),
        ExpressionView::Boolean(..) => lemma_boolean_read_back(src, pos, e),
        ExpressionView::ArrayLiteral(..) => lemma_array_literal_read_back(src, pos, e),
        ExpressionView::Unary(..) => lemma_prefix_read_back(src, pos, e),
        ExpressionView::Call(..) => lemma_call_read_back(src, pos, e),
        ExpressionView::Index(..) => lemma_index_read_back(src, pos, e),
        ExpressionView::Member(..) => lemma_member_read_back(src, pos, e),
        ExpressionView::StructLiteral(..) => lemma_struct_literal_read_back(src, pos, e),
        _ => e,
    }
}

/// Reading back a list of expressions, each followed by a comma, and the
/// token `close` that ends it.
pub proof fn lemma_expression_list_read_back(
    src: Source,
    pos: int,
    close: TokenKind,
    items: Seq<ExpressionView>,
    from: int,
    list: Seq<ExpressionView>,
) -> (out: Seq<ExpressionView>)
    requires
        0 <= from <= items.len(),
        expressions_shaped(items, from),
        close == TokenKind::CloseBracket || close == TokenKind::CloseParenthesis,
        carries(src.tokens, pos, expression_list_pieces(items, from) + seq![mark(close)]),
    ensures
        expression_list(src, pos, close, list) == done(
            out,
            pos + expression_list_pieces(items, from).len() + 1,
        ),
        out.len() == list.len() + items.len() - from,
        out.take(list.len() as int) == list,
        bare_expressions(out.skip(list.len() as int)) == bare_expressions(items.skip(from)),
    decreases items, items.len() - from,
{
    let tokens = src.tokens;
    let rest = expression_list_pieces(items, from);
    lemma_carries_split(tokens, pos, rest, seq![mark(close)]);
    if from >= items.len() {
        lemma_carries_one(tokens, pos, mark(close));
        assert(list.take(list.len() as int) == list);
        assert(bare_expressions(list.skip(list.len() as int)) =~= bare_expressions(
            items.skip(from),
        ));
        list
    } else {
        let item = expression_pieces(items[from]);
        let comma = seq![mark(TokenKind::Comma)];
        let tail = expression_list_pieces(items, from + 1);
        assert(rest + seq![mark(close)] =~= item + (comma + (tail + seq![mark(close)])));
        lemma_carries_split(tokens, pos, item, comma + (tail + seq![mark(close)]));
        lemma_carries_split(tokens, pos + item.len(), comma, tail + seq![mark(close)]);
        lemma_carries_one(tokens, pos + item.len(), mark(TokenKind::Comma));
        lemma_expression_begins(items[from]);
        assert(item[0].kind == tokens[pos + 0].kind);
        assert(!check(src, pos, close));
        let first = lemma_expression_read_back(src, pos, items[from]);
        let at = pos + item.len();
        assert(advanced(at, pos) == at);
        assert(!check(src, at, close));
        let out = lemma_expression_list_read_back(
            src,
            at + 1,
            close,
            items,
            from + 1,
            list.push(first),
        );
        assert(out.take(list.len() as int) == list) by {
            assert(out.take(list.len() as int) =~= out.take(list.len() + 1 as int).take(
                list.len() as int,
            ));
            assert(list.push(first).take(list.len() as int) =~= list);
        }
        assert(out[list.len() as int] == first) by {
            assert(out.take(list.len() + 1 as int)[list.len() as int] == first);
        }
        let mine = bare_expressions(out.skip(list.len() as int));
        let theirs = bare_expressions(items.skip(from));
        let inner_mine = bare_expressions(out.skip(list.len() + 1 as int));
        let inner_theirs = bare_expressions(items.skip(from + 1));
        assert forall|j: int| 0 <= j < mine.len() implies mine[j] == theirs[j] by {
            if j > 0 {
                assert(out.skip(list.len() as int)[j] == out.skip(list.len() + 1 as int)[j - 1]);
                assert(items.skip(from)[j] == items.skip(from + 1)[j - 1]);
                assert(inner_mine[j - 1] == inner_theirs[j - 1]);
            }
        }
        assert(mine =~= theirs);
        out
    }
}

/// Reading back the field initializers of a struct literal, each followed
/// by a comma, and the closing brace.
pub proof fn lemma_initializers_read_back(
    src: Source,
    pos: int,
    fields: Seq<(Option<NameView>, ExpressionView)>,
    from: int,
    list: Seq<(Option<NameView>, ExpressionView)>,
) -> (out: Seq<(Option<NameView>, ExpressionView)>)
    requires
        0 <= from <= fields.len(),
        initializers_shaped(fields, from),
        carries(
            src.tokens,
            pos,
            initializer_pieces(fields, from) + seq![mark(TokenKind::CloseBrace)],
        ),
    ensures
        initializers(src, pos, list) == done(
            out,
            pos + initializer_pieces(fields, from).len() + 1,
        ),
        out.len() == list.len() + fields.len() - from,
        out.take(list.len() as int) == list,
        bare_initializers(out.skip(list.len() as int)) == bare_initializers(fields.skip(from)),
    decreases fields, fields.len() - from,
{
    let tokens = src.tokens;
    let close = seq![mark(TokenKind::CloseBrace)];
    let rest = initializer_pieces(fields, from);
    lemma_carries_split(tokens, pos, rest, close);
    if from >= fields.len() {
        lemma_carries_one(tokens, pos, mark(TokenKind::CloseBrace));
        assert(list.take(list.len() as int) == list);
        assert(bare_initializers(list.skip(list.len() as int)) =~= bare_initializers(
            fields.skip(from),
        ));
        list
    } else {
        let name = optional_name_pieces(fields[from].0);
        let equals = seq![mark(TokenKind::Equals)];
        let value = expression_pieces(fields[from].1);
        let comma = seq![mark(TokenKind::Comma)];
        let tail = initializer_pieces(fields, from + 1);
        assert(rest + close =~= name + (equals + (value + (comma + (tail + close)))));
        lemma_carries_split(tokens, pos, name, equals + (value + (comma + (tail + close))));
        let after_name = pos + name.len();
        lemma_carries_split(tokens, after_name, equals, value + (comma + (tail + close)));
        lemma_carries_one(tokens, after_name, mark(TokenKind::Equals));
        lemma_carries_split(tokens, after_name + 1, value, comma + (tail + close));
        let at = after_name + 1 + value.len();
        lemma_carries_split(tokens, at, comma, tail + close);
        lemma_carries_one(tokens, at, mark(TokenKind::Comma));
        if fields[from].0 is Some {
            lemma_carries_one(tokens, pos, name_piece(fields[from].0->0));
        }
        assert(!check(src, pos, TokenKind::CloseBrace));
        let read_name = if fields[from].0 is Some {
            Some(name_of(tokens[pos]))
        } else {
            None
        };
        assert(check(src, pos, TokenKind::Identifier) == (fields[from].0 is Some));
        let v = lemma_expression_read_back(src, after_name + 1, fields[from].1);
        assert(advanced(at, after_name + 1) == at);
        assert(!check(src, at, TokenKind::CloseBrace));
        let out = lemma_initializers_read_back(
            src,
            at + 1,
            fields,
            from + 1,
            list.push((read_name, v)),
        );
        assert(out.take(list.len() as int) == list) by {
            assert(out.take(list.len() as int) =~= out.take(list.len() + 1 as int).take(
                list.len() as int,
            ));
            assert(list.push((read_name, v)).take(list.len() as int) =~= list);
        }
        assert(out[list.len() as int] == (read_name, v)) by {
            assert(out.take(list.len() + 1 as int)[list.len() as int] == (read_name, v));
        }
        let mine = bare_initializers(out.skip(list.len() as int));
        let theirs = bare_initializers(fields.skip(from));
        let inner_mine = bare_initializers(out.skip(list.len() + 1 as int));
        let inner_theirs = bare_initializers(fields.skip(from + 1));
        assert forall|j: int| 0 <= j < mine.len() implies mine[j] == theirs[j] by {
            if j > 0 {
                assert(out.skip(list.len() as int)[j] == out.skip(list.len() + 1 as int)[j - 1]);
                assert(fields.skip(from)[j] == fields.skip(from + 1)[j - 1]);
                assert(inner_mine[j - 1] == inner_theirs[j - 1]);
            }
        }
        assert(mine =~= theirs);
        out
    }
}

} // verus!
