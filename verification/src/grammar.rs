//! The grammar, as functions from a token sequence and a position to what
//! stands there and the position after it.
//!
//! Every function returns a [`Parsed`]: the tree that was read and the
//! position after it, or the first error and the position at which it was
//! met. A construct that was read holds at least one token; where one
//! construct follows another, [`advanced`] makes that visible to the
//! termination measure. It never moves a position: see the module
//! `progress`.

use crate::ast::{
    BinaryOperator, ExpressionView, NameView, StatementView, TypeView, UnaryOperator,
};
use crate::error::{ErrorKindView, ErrorView, Expected};
use crate::span::{Position, SpanView};
use crate::text::integer_value;
use crate::token::{TokenKind, TokenView};
use vstd::prelude::*;

verus! {

/// What a parser reads: a sequence of tokens and the name of the text that
/// they came from.
pub struct Source {
    pub name: Seq<char>,
    pub tokens: Seq<TokenView>,
}

/// The outcome of reading one construct.
pub struct Parsed<T> {
    pub result: Result<T, ErrorView>,
    /// The position after the construct, or the one at which it failed.
    pub next: int,
}

/// The construct `value`, which ends before `next`.
pub open spec fn done<T>(value: T, next: int) -> Parsed<T> {
    Parsed { result: Ok(value), next }
}

/// The failure `error`, met at `next`.
pub open spec fn fail<T>(error: ErrorView, next: int) -> Parsed<T> {
    Parsed { result: Err(error), next }
}

/// The number of tokens from `pos` on.
pub open spec fn remaining(src: Source, pos: int) -> nat {
    if pos <= src.tokens.len() {
        (src.tokens.len() - pos) as nat
    } else {
        0
    }
}

/// The position after a construct that began at `pos` and was read up to
/// `next`: `next` itself, since a construct holds at least one token.
pub open spec fn advanced(next: int, pos: int) -> int {
    if next > pos {
        next
    } else {
        pos + 1
    }
}

/// The kind of the token at `pos`, if there is one.
pub open spec fn kind_at(src: Source, pos: int) -> Option<TokenKind> {
    if 0 <= pos < src.tokens.len() {
        Some(src.tokens[pos].kind)
    } else {
        None
    }
}

/// Whether the token at `pos` is of kind `kind`.
pub open spec fn check(src: Source, pos: int, kind: TokenKind) -> bool {
    kind_at(src, pos) == Some(kind)
}

/// The name that an identifier token or a literal token carries.
pub open spec fn name_of(token: TokenView) -> NameView {
    (token.lexeme, token.span)
}

/// The empty span at the start of the text called `name`.
pub open spec fn origin(name: Seq<char>) -> SpanView {
    SpanView {
        source: name,
        start: Position { line: 0, column: 0 },
        end: Position { line: 0, column: 0 },
    }
}

/// The error for tokens that end too early: it points at the last token.
pub open spec fn end_error(src: Source) -> ErrorView {
    ErrorView {
        kind: ErrorKindView::UnexpectedEndOfFile,
        span: if src.tokens.len() > 0 {
            src.tokens.last().span
        } else {
            origin(src.name)
        },
    }
}

/// The error for a token at `pos` that is not what the grammar expects.
pub open spec fn unexpected(src: Source, pos: int, expected: Expected) -> ErrorView {
    if 0 <= pos < src.tokens.len() {
        ErrorView {
            kind: ErrorKindView::ExpectedToken(expected, src.tokens[pos].kind),
            span: src.tokens[pos].span,
        }
    } else {
        end_error(src)
    }
}

/// The token at `pos` if it is of kind `kind`; the cursor stays where it is
/// otherwise.
pub open spec fn consume(src: Source, pos: int, kind: TokenKind) -> Parsed<TokenView> {
    if check(src, pos, kind) {
        done(src.tokens[pos], pos + 1)
    } else {
        fail(unexpected(src, pos, Expected::Kind(kind)), pos)
    }
}

// Types

/// A type: a reference type followed by any number of `.Member` steps.
pub open spec fn parse_type(src: Source, pos: int) -> Parsed<TypeView>
    decreases remaining(src, pos), 1nat,
{
    let head = parse_reference(src, pos);
    match head.result {
        Err(_) => head,
        Ok(ty) => type_members(src, head.next, ty),
    }
}

/// The `.Member` steps that follow the type `inner`.
pub open spec fn type_members(src: Source, pos: int, inner: TypeView) -> Parsed<TypeView>
    decreases remaining(src, pos),
{
    if check(src, pos, TokenKind::Dot) {
        let name = consume(src, pos + 1, TokenKind::Identifier);
        match name.result {
            Err(e) => fail(e, name.next),
            Ok(token) => type_members(
                src,
                pos + 2,
                TypeView::Member(Box::new(inner), name_of(token)),
            ),
        }
    } else {
        done(inner, pos)
    }
}

/// A type without member steps: `&T`, `&mut T`, a name with optional
/// arguments in brackets, a function type, or a primitive type.
pub open spec fn parse_reference(src: Source, pos: int) -> Parsed<TypeView>
    decreases remaining(src, pos), 0nat,
{
    match kind_at(src, pos) {
        Some(TokenKind::Ampersand) => {
            if check(src, pos + 1, TokenKind::Mut) {
                let inner = parse_reference(src, pos + 2);
                match inner.result {
                    Err(_) => inner,
                    Ok(ty) => done(TypeView::MutableReference(Box::new(ty)), inner.next),
                }
            } else {
                let inner = parse_reference(src, pos + 1);
                match inner.result {
                    Err(_) => inner,
                    Ok(ty) => done(TypeView::Reference(Box::new(ty)), inner.next),
                }
            }
        },
        Some(TokenKind::Identifier) => {
            let name = name_of(src.tokens[pos]);
            if check(src, pos + 1, TokenKind::OpenBracket) {
                let arguments = type_list(src, pos + 2, TokenKind::CloseBracket, Seq::empty());
                match arguments.result {
                    Err(e) => fail(e, arguments.next),
                    Ok(list) => done(TypeView::Polymorphic(name, list), arguments.next),
                }
            } else {
                done(TypeView::Identifier(name), pos + 1)
            }
        },
        Some(TokenKind::Fn) => {
            let open = consume(src, pos + 1, TokenKind::OpenParenthesis);
            match open.result {
                Err(e) => fail(e, open.next),
                Ok(_) => {
                    let parameters = type_list(
                        src,
                        pos + 2,
                        TokenKind::CloseParenthesis,
                        Seq::empty(),
                    );
                    match parameters.result {
                        Err(e) => fail(e, parameters.next),
                        Ok(list) => {
                            let at = advanced(parameters.next, pos);
                            let arrow = consume(src, at, TokenKind::Arrow);
                            match arrow.result {
                                Err(e) => fail(e, arrow.next),
                                Ok(_) => {
                                    let result = parse_type(src, at + 1);
                                    match result.result {
                                        Err(_) => result,
                                        Ok(ty) => done(
                                            TypeView::Function(list, Box::new(ty)),
                                            result.next,
                                        ),
                                    }
                                },
                            }
                        },
                    }
                },
            }
        },
        Some(TokenKind::Int) => done(TypeView::Integer, pos + 1),
        Some(TokenKind::Float) => done(TypeView::FloatingPoint, pos + 1),
        Some(TokenKind::Bool) => done(TypeView::Boolean, pos + 1),
        Some(TokenKind::Char) => done(TypeView::Character, pos + 1),
        _ => fail(unexpected(src, pos, Expected::Type), pos),
    }
}

/// The rest of a list of types separated by commas, up to and including
/// the token `close`; `list` holds the types already read. A comma may
/// stand before `close`.
pub open spec fn type_list(src: Source, pos: int, close: TokenKind, list: Seq<TypeView>) -> Parsed<
    Seq<TypeView>,
>
    decreases remaining(src, pos), 2nat,
{
    if check(src, pos, close) {
        done(list, pos + 1)
    } else {
        let item = parse_type(src, pos);
        match item.result {
            Err(e) => fail(e, item.next),
            Ok(ty) => {
                let at = advanced(item.next, pos);
                if check(src, at, close) {
                    done(list.push(ty), at + 1)
                } else {
                    let comma = consume(src, at, TokenKind::Comma);
                    match comma.result {
                        Err(e) => fail(e, comma.next),
                        Ok(_) => type_list(src, at + 1, close, list.push(ty)),
                    }
                }
            },
        }
    }
}

// Expressions

/// The binary operator that a token of kind `kind` writes at precedence
/// level `level`, if it writes one there. There are six levels, from `||`
/// at level 0, which binds loosest, to `*`, `/` and `%` at level 5, which
/// bind tightest.
pub open spec fn binary_operator(level: nat, kind: TokenKind) -> Option<BinaryOperator> {
    if level == 0 {
        match kind {
            TokenKind::Or => Some(BinaryOperator::Or),
            _ => None,
        }
    } else if level == 1 {
        match kind {
            TokenKind::And => Some(BinaryOperator::And),
            _ => None,
        }
    } else if level == 2 {
        match kind {
            TokenKind::EqualsEquals => Some(BinaryOperator::EqualsEquals),
            TokenKind::BangEquals => Some(BinaryOperator::BangEquals),
            _ => None,
        }
    } else if level == 3 {
        match kind {
            TokenKind::LessThan => Some(BinaryOperator::LessThan),
            TokenKind::LessThanEquals => Some(BinaryOperator::LessThanEquals),
            TokenKind::GreaterThan => Some(BinaryOperator::GreaterThan),
            TokenKind::GreaterThanEquals => Some(BinaryOperator::GreaterThanEquals),
            _ => None,
        }
    } else if level == 4 {
        match kind {
            TokenKind::Plus => Some(BinaryOperator::Plus),
            TokenKind::Minus => Some(BinaryOperator::Minus),
            _ => None,
        }
    } else if level == 5 {
        match kind {
            TokenKind::Asterisk => Some(BinaryOperator::Asterisk),
            TokenKind::Slash => Some(BinaryOperator::Slash),
            TokenKind::Percent => Some(BinaryOperator::Percent),
            _ => None,
        }
    } else {
        None
    }
}

/// The binary operator at `pos` for level `level`, if one stands there.
pub open spec fn operator_at(src: Source, pos: int, level: nat) -> Option<BinaryOperator> {
    match kind_at(src, pos) {
        Some(kind) => binary_operator(level, kind),
        None => None,
    }
}

/// An expression: an assignment.
pub open spec fn parse_expression(src: Source, pos: int) -> Parsed<ExpressionView>
    decreases remaining(src, pos), 18nat,
{
    parse_assignment(src, pos)
}

/// An assignment `target = value`, which groups to the right, or an
/// expression of the loosest binary level.
pub open spec fn parse_assignment(src: Source, pos: int) -> Parsed<ExpressionView>
    decreases remaining(src, pos), 17nat,
{
    let target = parse_binary(src, pos, 0);
    match target.result {
        Err(_) => target,
        Ok(lhs) => {
            let at = advanced(target.next, pos);
            if check(src, at, TokenKind::Equals) {
                let value = parse_assignment(src, at + 1);
                match value.result {
                    Err(_) => value,
                    Ok(rhs) => done(
                        ExpressionView::Assignment(Box::new(lhs), Box::new(rhs)),
                        value.next,
                    ),
                }
            } else {
                done(lhs, at)
            }
        },
    }
}

/// An operand of the binary operators of level `level`: an expression of
/// the next tighter level, or a unary expression at the tightest.
pub open spec fn parse_operand(src: Source, pos: int, level: nat) -> Parsed<ExpressionView>
    decreases remaining(src, pos), (if level < 5 {
        15 - 2 * level
    } else {
        5
    }) as nat,
{
    if level < 5 {
        parse_binary(src, pos, level + 1)
    } else {
        parse_unary(src, pos)
    }
}

/// An expression of binary level `level`: operands joined by operators of
/// that level, grouped to the left.
pub open spec fn parse_binary(src: Source, pos: int, level: nat) -> Parsed<ExpressionView>
    decreases remaining(src, pos), (if level < 5 {
        16 - 2 * level
    } else {
        6
    }) as nat,
{
    let first = parse_operand(src, pos, level);
    match first.result {
        Err(_) => first,
        Ok(lhs) => binary_tail(src, advanced(first.next, pos), level, lhs),
    }
}

/// The operators of level `level` and their right operands that follow the
/// expression `lhs`.
pub open spec fn binary_tail(src: Source, pos: int, level: nat, lhs: ExpressionView) -> Parsed<
    ExpressionView,
>
    decreases remaining(src, pos), 0nat,
{
    match operator_at(src, pos, level) {
        Some(operator) => {
            let second = parse_operand(src, pos + 1, level);
            match second.result {
                Err(_) => second,
                Ok(rhs) => binary_tail(
                    src,
                    advanced(second.next, pos + 1),
                    level,
                    ExpressionView::Binary(Box::new(lhs), operator, Box::new(rhs)),
                ),
            }
        },
        None => done(lhs, pos),
    }
}

/// The operand `operand.result`, if any, under the prefix operator
/// `operator`.
pub open spec fn prefixed(operator: UnaryOperator, operand: Parsed<ExpressionView>) -> Parsed<
    ExpressionView,
> {
    match operand.result {
        Err(_) => operand,
        Ok(e) => done(ExpressionView::Unary(operator, Box::new(e)), operand.next),
    }
}

/// A unary expression: any number of the prefixes `+`, `-`, `!`, `&` and
/// `&mut` before a postfix expression.
pub open spec fn parse_unary(src: Source, pos: int) -> Parsed<ExpressionView>
    decreases remaining(src, pos), 3nat,
{
    match kind_at(src, pos) {
        Some(TokenKind::Plus) => prefixed(UnaryOperator::Plus, parse_unary(src, pos + 1)),
        Some(TokenKind::Minus) => prefixed(UnaryOperator::Minus, parse_unary(src, pos + 1)),
        Some(TokenKind::Bang) => prefixed(UnaryOperator::Bang, parse_unary(src, pos + 1)),
        Some(TokenKind::Ampersand) => {
            if check(src, pos + 1, TokenKind::Mut) {
                prefixed(UnaryOperator::MutableAddressOf, parse_unary(src, pos + 2))
            } else {
                prefixed(UnaryOperator::AddressOf, parse_unary(src, pos + 1))
            }
        },
        _ => parse_call(src, pos),
    }
}

/// A postfix expression: a primary expression followed by any number of
/// calls, indexings, struct literals and member accesses.
pub open spec fn parse_call(src: Source, pos: int) -> Parsed<ExpressionView>
    decreases remaining(src, pos), 2nat,
{
    let head = parse_primary(src, pos);
    match head.result {
        Err(_) => head,
        Ok(e) => postfix_tail(src, advanced(head.next, pos), e),
    }
}

/// The postfix operations that follow the expression `inner`.
pub open spec fn postfix_tail(src: Source, pos: int, inner: ExpressionView) -> Parsed<
    ExpressionView,
>
    decreases remaining(src, pos), 0nat,
{
    match kind_at(src, pos) {
        Some(TokenKind::OpenParenthesis) => {
            let arguments = expression_list(
                src,
                pos + 1,
                TokenKind::CloseParenthesis,
                Seq::empty(),
            );
            match arguments.result {
                Err(e) => fail(e, arguments.next),
                Ok(list) => postfix_tail(
                    src,
                    advanced(arguments.next, pos + 1),
                    ExpressionView::Call(Box::new(inner), list),
                ),
            }
        },
        Some(TokenKind::OpenBracket) => {
            let index = parse_expression(src, pos + 1);
            match index.result {
                Err(_) => index,
                Ok(i) => {
                    let at = advanced(index.next, pos + 1);
                    let close = consume(src, at, TokenKind::CloseBracket);
                    match close.result {
                        Err(e) => fail(e, close.next),
                        Ok(_) => postfix_tail(
                            src,
                            at + 1,
                            ExpressionView::Index(Box::new(inner), Box::new(i)),
                        ),
                    }
                },
            }
        },
        Some(TokenKind::OpenBrace) => {
            let fields = initializers(src, pos + 1, Seq::empty());
            match fields.result {
                Err(e) => fail(e, fields.next),
                Ok(list) => postfix_tail(
                    src,
                    advanced(fields.next, pos + 1),
                    ExpressionView::StructLiteral(Box::new(inner), list),
                ),
            }
        },
        Some(TokenKind::Dot) => {
            let name = consume(src, pos + 1, TokenKind::Identifier);
            match name.result {
                Err(e) => fail(e, name.next),
                Ok(token) => postfix_tail(
                    src,
                    pos + 2,
                    ExpressionView::Member(Box::new(inner), name_of(token)),
                ),
            }
        },
        _ => done(inner, pos),
    }
}

/// The rest of a list of expressions separated by commas, up to and
/// including the token `close`; `list` holds the expressions already read.
/// A comma may stand before `close`.
pub open spec fn expression_list(
    src: Source,
    pos: int,
    close: TokenKind,
    list: Seq<ExpressionView>,
) -> Parsed<Seq<ExpressionView>>
    decreases remaining(src, pos), 19nat,
{
    if check(src, pos, close) {
        done(list, pos + 1)
    } else {
        let item = parse_expression(src, pos);
        match item.result {
            Err(e) => fail(e, item.next),
            Ok(e) => {
                let at = advanced(item.next, pos);
                if check(src, at, close) {
                    done(list.push(e), at + 1)
                } else {
                    let comma = consume(src, at, TokenKind::Comma);
                    match comma.result {
                        Err(e) => fail(e, comma.next),
                        Ok(_) => expression_list(src, at + 1, close, list.push(e)),
                    }
                }
            },
        }
    }
}

/// The rest of the field initializers of a struct literal, up to and
/// including the closing brace. Each is an optional field name, `=` and an
/// expression.
pub open spec fn initializers(
    src: Source,
    pos: int,
    list: Seq<(Option<NameView>, ExpressionView)>,
) -> Parsed<Seq<(Option<NameView>, ExpressionView)>>
    decreases remaining(src, pos), 19nat,
{
    if check(src, pos, TokenKind::CloseBrace) {
        done(list, pos + 1)
    } else {
        let named = check(src, pos, TokenKind::Identifier);
        let name = if named {
            Some(name_of(src.tokens[pos]))
        } else {
            None
        };
        let start = if named {
            pos + 1
        } else {
            pos
        };
        let equals = consume(src, start, TokenKind::Equals);
        match equals.result {
            Err(e) => fail(e, equals.next),
            Ok(_) => {
                let value = parse_expression(src, start + 1);
                match value.result {
                    Err(e) => fail(e, value.next),
                    Ok(e) => {
                        let at = advanced(value.next, start + 1);
                        if check(src, at, TokenKind::CloseBrace) {
                            done(list.push((name, e)), at + 1)
                        } else {
                            let comma = consume(src, at, TokenKind::Comma);
                            match comma.result {
                                Err(e) => fail(e, comma.next),
                                Ok(_) => initializers(src, at + 1, list.push((name, e))),
                            }
                        }
                    },
                }
            },
        }
    }
}

/// The error for a literal token whose text denotes no value.
pub open spec fn invalid_literal(token: TokenView) -> ErrorView {
    ErrorView { kind: ErrorKindView::InvalidLiteral(token.kind), span: token.span }
}

/// A primary expression: a name, a literal, an array literal in brackets,
/// or an expression in parentheses.
pub open spec fn parse_primary(src: Source, pos: int) -> Parsed<ExpressionView>
    decreases remaining(src, pos), 1nat,
{
    match kind_at(src, pos) {
        Some(TokenKind::Identifier) => done(
            ExpressionView::Identifier(name_of(src.tokens[pos])),
            pos + 1,
        ),
        Some(TokenKind::String) => done(ExpressionView::String(name_of(src.tokens[pos])), pos + 1),
        Some(TokenKind::Character) => {
            let token = src.tokens[pos];
            if token.lexeme.len() > 0 {
                done(ExpressionView::Character((token.lexeme[0], token.span)), pos + 1)
            } else {
                fail(invalid_literal(token), pos)
            }
        },
        Some(TokenKind::Integer) => {
            let token = src.tokens[pos];
            match integer_value(token.lexeme) {
                Some(value) => done(ExpressionView::Integer((value, token.span)), pos + 1),
                None => fail(invalid_literal(token), pos),
            }
        },
        Some(TokenKind::FloatingPoint) => done(
            ExpressionView::FloatingPoint(name_of(src.tokens[pos])),
            pos + 1,
        ),
        Some(TokenKind::Boolean) => {
            let token = src.tokens[pos];
            done(ExpressionView::Boolean((token.lexeme == "true"@, token.span)), pos + 1)
        },
        Some(TokenKind::OpenBracket) => {
            let elements = expression_list(src, pos + 1, TokenKind::CloseBracket, Seq::empty());
            match elements.result {
                Err(e) => fail(e, elements.next),
                Ok(list) => done(ExpressionView::ArrayLiteral(list), elements.next),
            }
        },
        Some(TokenKind::OpenParenthesis) => {
            let inner = parse_expression(src, pos + 1);
            match inner.result {
                Err(_) => inner,
                Ok(e) => {
                    let at = advanced(inner.next, pos + 1);
                    let close = consume(src, at, TokenKind::CloseParenthesis);
                    match close.result {
                        Err(e) => fail(e, close.next),
                        Ok(_) => done(e, at + 1),
                    }
                },
            }
        },
        _ => fail(unexpected(src, pos, Expected::Expression), pos),
    }
}

// Statements

/// The rest of a list of names with their types, separated by commas, up
/// to and including the token `close`: the fields of a struct or the
/// parameters of a function. A comma may stand before `close`.
pub open spec fn typed_names(
    src: Source,
    pos: int,
    close: TokenKind,
    list: Seq<(NameView, TypeView)>,
) -> Parsed<Seq<(NameView, TypeView)>>
    decreases remaining(src, pos),
{
    if check(src, pos, close) {
        done(list, pos + 1)
    } else {
        let name = consume(src, pos, TokenKind::Identifier);
        match name.result {
            Err(e) => fail(e, name.next),
            Ok(token) => {
                let colon = consume(src, pos + 1, TokenKind::Colon);
                match colon.result {
                    Err(e) => fail(e, colon.next),
                    Ok(_) => {
                        let ty = parse_type(src, pos + 2);
                        match ty.result {
                            Err(e) => fail(e, ty.next),
                            Ok(t) => {
                                let at = advanced(ty.next, pos + 2);
                                let all = list.push((name_of(token), t));
                                if check(src, at, close) {
                                    done(all, at + 1)
                                } else {
                                    let comma = consume(src, at, TokenKind::Comma);
                                    match comma.result {
                                        Err(e) => fail(e, comma.next),
                                        Ok(_) => typed_names(src, at + 1, close, all),
                                    }
                                }
                            },
                        }
                    },
                }
            },
        }
    }
}

/// `import Name`
pub open spec fn parse_import(src: Source, pos: int) -> Parsed<StatementView> {
    let keyword = consume(src, pos, TokenKind::Import);
    match keyword.result {
        Err(e) => fail(e, keyword.next),
        Ok(_) => {
            let name = consume(src, pos + 1, TokenKind::Identifier);
            match name.result {
                Err(e) => fail(e, name.next),
                Ok(token) => done(StatementView::Import(name_of(token)), pos + 2),
            }
        },
    }
}

/// `struct Name { field: Type, ... }`
pub open spec fn parse_struct(src: Source, pos: int) -> Parsed<StatementView> {
    let keyword = consume(src, pos, TokenKind::Struct);
    match keyword.result {
        Err(e) => fail(e, keyword.next),
        Ok(_) => {
            let name = consume(src, pos + 1, TokenKind::Identifier);
            match name.result {
                Err(e) => fail(e, name.next),
                Ok(token) => {
                    let open = consume(src, pos + 2, TokenKind::OpenBrace);
                    match open.result {
                        Err(e) => fail(e, open.next),
                        Ok(_) => {
                            let fields = typed_names(
                                src,
                                pos + 3,
                                TokenKind::CloseBrace,
                                Seq::empty(),
                            );
                            match fields.result {
                                Err(e) => fail(e, fields.next),
                                Ok(list) => done(
                                    StatementView::Struct {
                                        spanned_id: name_of(token),
                                        generic_parameters: Seq::empty(),
                                        fields: list,
                                    },
                                    fields.next,
                                ),
                            }
                        },
                    }
                },
            }
        },
    }
}

/// The optional `: Type` at `pos`.
pub open spec fn type_annotation(src: Source, pos: int) -> Parsed<Option<TypeView>> {
    if check(src, pos, TokenKind::Colon) {
        let ty = parse_type(src, pos + 1);
        match ty.result {
            Err(e) => fail(e, ty.next),
            Ok(t) => done(Some(t), ty.next),
        }
    } else {
        done(None, pos)
    }
}

/// `var Name [: Type] = Expr ;`, or the same with `const` where `constant`
/// holds.
pub open spec fn parse_binding(src: Source, pos: int, constant: bool) -> Parsed<StatementView> {
    let keyword = consume(
        src,
        pos,
        if constant {
            TokenKind::Const
        } else {
            TokenKind::Var
        },
    );
    match keyword.result {
        Err(e) => fail(e, keyword.next),
        Ok(_) => {
            let name = consume(src, pos + 1, TokenKind::Identifier);
            match name.result {
                Err(e) => fail(e, name.next),
                Ok(token) => {
                    let ty = type_annotation(src, pos + 2);
                    match ty.result {
                        Err(e) => fail(e, ty.next),
                        Ok(annotation) => {
                            let equals = consume(src, ty.next, TokenKind::Equals);
                            match equals.result {
                                Err(e) => fail(e, equals.next),
                                Ok(_) => {
                                    let value = parse_expression(src, ty.next + 1);
                                    match value.result {
                                        Err(e) => fail(e, value.next),
                                        Ok(e) => {
                                            let end = consume(
                                                src,
                                                value.next,
                                                TokenKind::Semicolon,
                                            );
                                            match end.result {
                                                Err(e) => fail(e, end.next),
                                                Ok(_) => done(
                                                    if constant {
                                                        StatementView::Constant(
                                                            name_of(token),
                                                            annotation,
                                                            e,
                                                        )
                                                    } else {
                                                        StatementView::Variable(
                                                            name_of(token),
                                                            annotation,
                                                            e,
                                                        )
                                                    },
                                                    value.next + 1,
                                                ),
                                            }
                                        },
                                    }
                                },
                            }
                        },
                    }
                },
            }
        },
    }
}

/// `return [Expr]`: the expression is absent where a semicolon follows.
pub open spec fn parse_return(src: Source, pos: int) -> Parsed<StatementView> {
    let keyword = consume(src, pos, TokenKind::Return);
    match keyword.result {
        Err(e) => fail(e, keyword.next),
        Ok(_) => {
            if check(src, pos + 1, TokenKind::Semicolon) {
                done(StatementView::Return(None), pos + 1)
            } else {
                let value = parse_expression(src, pos + 1);
                match value.result {
                    Err(e) => fail(e, value.next),
                    Ok(e) => done(StatementView::Return(Some(e)), value.next),
                }
            }
        },
    }
}

/// An expression followed by a semicolon.
pub open spec fn parse_expression_statement(src: Source, pos: int) -> Parsed<StatementView> {
    let value = parse_expression(src, pos);
    match value.result {
        Err(e) => fail(e, value.next),
        Ok(e) => {
            let end = consume(src, value.next, TokenKind::Semicolon);
            match end.result {
                Err(e) => fail(e, end.next),
                Ok(_) => done(StatementView::Expression(e), value.next + 1),
            }
        },
    }
}

/// A statement, chosen by the kind of its first token.
pub open spec fn parse_statement(src: Source, pos: int) -> Parsed<StatementView>
    decreases remaining(src, pos), 1nat,
{
    match kind_at(src, pos) {
        None => fail(end_error(src), pos),
        Some(TokenKind::OpenBrace) => parse_block(src, pos),
        Some(TokenKind::Import) => parse_import(src, pos),
        Some(TokenKind::Struct) => parse_struct(src, pos),
        Some(TokenKind::Fn) => parse_function(src, pos),
        Some(TokenKind::Var) => parse_binding(src, pos, false),
        Some(TokenKind::Const) => parse_binding(src, pos, true),
        Some(TokenKind::For) => parse_for(src, pos),
        Some(TokenKind::Return) => parse_return(src, pos),
        Some(TokenKind::Eof) => done(StatementView::Garbage(src.tokens[pos].span), pos + 1),
        Some(_) => parse_expression_statement(src, pos),
    }
}

/// `{ statement ... }`: semicolons between the statements are skipped.
pub open spec fn parse_block(src: Source, pos: int) -> Parsed<StatementView>
    decreases remaining(src, pos), 0nat,
{
    let open = consume(src, pos, TokenKind::OpenBrace);
    match open.result {
        Err(e) => fail(e, open.next),
        Ok(_) => block_items(src, pos + 1, Seq::empty()),
    }
}

/// The rest of a block, up to and including its closing brace; `list`
/// holds the statements already read.
pub open spec fn block_items(src: Source, pos: int, list: Seq<StatementView>) -> Parsed<
    StatementView,
>
    decreases remaining(src, pos), 2nat,
{
    match kind_at(src, pos) {
        None => fail(end_error(src), pos),
        Some(TokenKind::CloseBrace) => done(StatementView::Block(list), pos + 1),
        Some(TokenKind::Semicolon) => block_items(src, pos + 1, list),
        Some(_) => {
            let item = parse_statement(src, pos);
            match item.result {
                Err(_) => item,
                Ok(s) => block_items(src, advanced(item.next, pos), list.push(s)),
            }
        },
    }
}

/// `fn Name(param: Type, ...) [-> Type] body`
pub open spec fn parse_function(src: Source, pos: int) -> Parsed<StatementView>
    decreases remaining(src, pos), 0nat,
{
    let keyword = consume(src, pos, TokenKind::Fn);
    match keyword.result {
        Err(e) => fail(e, keyword.next),
        Ok(_) => {
            let name = consume(src, pos + 1, TokenKind::Identifier);
            match name.result {
                Err(e) => fail(e, name.next),
                Ok(token) => {
                    let open = consume(src, pos + 2, TokenKind::OpenParenthesis);
                    match open.result {
                        Err(e) => fail(e, open.next),
                        Ok(_) => {
                            let parameters = typed_names(
                                src,
                                pos + 3,
                                TokenKind::CloseParenthesis,
                                Seq::empty(),
                            );
                            match parameters.result {
                                Err(e) => fail(e, parameters.next),
                                Ok(list) => {
                                    let at = advanced(parameters.next, pos + 3);
                                    if check(src, at, TokenKind::Arrow) {
                                        let ty = parse_type(src, at + 1);
                                        match ty.result {
                                            Err(e) => fail(e, ty.next),
                                            Ok(t) => function_body(
                                                src,
                                                advanced(ty.next, at + 1),
                                                name_of(token),
                                                list,
                                                Some(t),
                                            ),
                                        }
                                    } else {
                                        function_body(src, at, name_of(token), list, None)
                                    }
                                },
                            }
                        },
                    }
                },
            }
        },
    }
}

/// The body of the function with the given name, parameters and return
/// type, and the function that it completes.
pub open spec fn function_body(
    src: Source,
    pos: int,
    name: NameView,
    parameters: Seq<(NameView, TypeView)>,
    result: Option<TypeView>,
) -> Parsed<StatementView>
    decreases remaining(src, pos), 2nat,
{
    let body = parse_statement(src, pos);
    match body.result {
        Err(_) => body,
        Ok(s) => done(StatementView::Function(name, parameters, result, Box::new(s)), body.next),
    }
}

/// `for (Name in Expr) body`
pub open spec fn parse_for(src: Source, pos: int) -> Parsed<StatementView>
    decreases remaining(src, pos), 0nat,
{
    let keyword = consume(src, pos, TokenKind::For);
    match keyword.result {
        Err(e) => fail(e, keyword.next),
        Ok(_) => {
            let open = consume(src, pos + 1, TokenKind::OpenParenthesis);
            match open.result {
                Err(e) => fail(e, open.next),
                Ok(_) => {
                    let name = consume(src, pos + 2, TokenKind::Identifier);
                    match name.result {
                        Err(e) => fail(e, name.next),
                        Ok(token) => {
                            let word = consume(src, pos + 3, TokenKind::In);
                            match word.result {
                                Err(e) => fail(e, word.next),
                                Ok(_) => {
                                    let range = parse_expression(src, pos + 4);
                                    match range.result {
                                        Err(e) => fail(e, range.next),
                                        Ok(e) => {
                                            let at = advanced(range.next, pos + 4);
                                            let close = consume(
                                                src,
                                                at,
                                                TokenKind::CloseParenthesis,
                                            );
                                            match close.result {
                                                Err(e) => fail(e, close.next),
                                                Ok(_) => {
                                                    let body = parse_statement(src, at + 1);
                                                    match body.result {
                                                        Err(_) => body,
                                                        Ok(s) => done(
                                                            StatementView::For(
                                                                name_of(token),
                                                                e,
                                                                Box::new(s),
                                                            ),
                                                            body.next,
                                                        ),
                                                    }
                                                },
                                            }
                                        },
                                    }
                                },
                            }
                        },
                    }
                },
            }
        },
    }
}

/// Where parsing resumes after a statement that began at `pos` failed at
/// `next`: one token after the failure, or at the end of the tokens.
pub open spec fn resumed(src: Source, next: int, pos: int) -> int {
    let at = if next > pos {
        next
    } else {
        pos
    };
    if at < src.tokens.len() {
        at + 1
    } else {
        at
    }
}

/// The statements and the errors of the tokens from `pos` on, after the
/// statements `done` and the errors `failed`: every statement is tried, and
/// one that fails leaves its error and is skipped.
pub open spec fn program(
    src: Source,
    pos: int,
    statements: Seq<StatementView>,
    errors: Seq<ErrorView>,
) -> (Seq<StatementView>, Seq<ErrorView>)
    decreases remaining(src, pos),
{
    if 0 <= pos < src.tokens.len() {
        let item = parse_statement(src, pos);
        match item.result {
            Ok(s) => program(src, advanced(item.next, pos), statements.push(s), errors),
            Err(e) => program(src, resumed(src, item.next, pos), statements, errors.push(e)),
        }
    } else {
        (statements, errors)
    }
}

/// What parsing the tokens from `pos` on yields: the statements if none
/// failed, every error otherwise.
pub open spec fn parse_from(src: Source, pos: int) -> Result<Seq<StatementView>, Seq<ErrorView>> {
    let (statements, errors) = program(src, pos, Seq::empty(), Seq::empty());
    if errors.len() == 0 {
        Ok(statements)
    } else {
        Err(errors)
    }
}

} // verus!
