//! The parser: from tokens to statements, by recursive descent.
//!
//! Each method reads the construct of the grammar that it is named after
//! and leaves the cursor behind it, or returns the first error and leaves
//! the cursor where the error was met. [`Parser::parse`] reads a whole
//! sequence of tokens and recovers from a statement that fails by skipping
//! one token.

use crate::ast::{BinaryOperator, Expression, SpannedString, Statement, Type, UnaryOperator};
use crate::error::{yields, Error, ErrorKind, Expected};
use crate::grammar;
use crate::grammar::{Parsed, Source};
use crate::span::{Position, Span};
use crate::text::{parse_integer, same_text};
use crate::token::{token_views, Token, TokenKind};
use vstd::prelude::*;

verus! {

/// A cursor over a sequence of tokens.
#[derive(Clone, Debug)]
pub struct Parser {
    pub filename: String,
    pub tokens: Vec<Token>,
    pub index: usize,
}

impl Parser {
    /// What the parser reads.
    pub open spec fn source(&self) -> Source {
        Source { name: self.filename@, tokens: token_views(self.tokens@) }
    }

    /// The invariant of a parser: its cursor is at a token or just past
    /// the last one.
    pub open spec fn wf(&self) -> bool {
        self.index <= self.tokens@.len() <= usize::MAX
    }

    /// Whether this parser is `pre` after the step that `expected`
    /// describes: the tokens are the same and the cursor stands at
    /// `expected.next`, not before where it was, and past it after a
    /// success.
    pub open spec fn follows<T>(&self, pre: &Parser, expected: Parsed<T>) -> bool {
        &&& self.wf()
        &&& self.filename@ == pre.filename@
        &&& self.tokens@ == pre.tokens@
        &&& self.index == expected.next
        &&& self.index >= pre.index
        &&& expected.result is Ok ==> self.index > pre.index
    }

    /// Whether this parser and the result `r` are what the step
    /// `expected`, taken from `pre`, leaves.
    pub open spec fn parsed<T: View>(
        &self,
        pre: &Parser,
        r: Result<T, Error>,
        expected: Parsed<T::V>,
    ) -> bool {
        self.follows(pre, expected) && yields(r, expected.result)
    }

    /// A parser at the first of `tokens`, which came from the text called
    /// `filename`.
    pub fn new(filename: String, tokens: Vec<Token>) -> (r: Parser)
        ensures
            r.wf(),
            r.index == 0,
            r.filename@ == filename@,
            r.tokens@ == tokens@,
    {
        let _ = tokens.len();
        Parser { filename, tokens, index: 0 }
    }

    /// Whether the cursor is past the last token.
    pub fn is_at_end(&self) -> (r: bool)
        ensures
            r == (self.index >= self.tokens@.len()),
    {
        self.index >= self.tokens.len()
    }

    /// The token before the cursor.
    pub fn previous(&self) -> (r: &Token)
        requires
            0 < self.index <= self.tokens@.len(),
        ensures
            *r == self.tokens@[self.index - 1],
    {
        &self.tokens[self.index - 1]
    }

    fn end_of_tokens(&self) -> (r: Error)
        ensures
            r@ == grammar::end_error(self.source()),
    {
        let span = if self.tokens.len() > 0 {
            self.tokens[self.tokens.len() - 1].span.clone()
        } else {
            Span::new(
                self.filename.as_str(),
                Position { line: 0, column: 0 },
                Position { line: 0, column: 0 },
            )
        };
        Error::new(ErrorKind::UnexpectedEndOfFile, span)
    }

    /// The error for the token at the cursor, which is not what the
    /// grammar expects there; past the last token, the error for tokens
    /// that end too early.
    pub fn error(&self, expected: Expected) -> (r: Error)
        ensures
            r@ == grammar::unexpected(self.source(), self.index as int, expected),
    {
        if self.index < self.tokens.len() {
            let token = &self.tokens[self.index];
            Error::new(ErrorKind::ExpectedToken(expected, token.kind), token.span.clone())
        } else {
            self.end_of_tokens()
        }
    }

    /// The token at the cursor, or an error past the last token.
    pub fn current(&self) -> (r: Result<Token, Error>)
        ensures
            yields(
                r,
                if self.index < self.tokens@.len() {
                    Ok(self.tokens@[self.index as int]@)
                } else {
                    Err(grammar::end_error(self.source()))
                },
            ),
    {
        if self.index < self.tokens.len() {
            Ok(self.tokens[self.index].clone())
        } else {
            Err(self.end_of_tokens())
        }
    }

    /// Moves the cursor past the token it is at, if it is at one, and
    /// returns the token before the cursor; an error if there is none.
    pub fn advance(&mut self) -> (r: Result<Token, Error>)
        requires
            old(self).wf(),
        ensures
            final(self).wf(),
            final(self).filename@ == old(self).filename@,
            final(self).tokens@ == old(self).tokens@,
            final(self).index == (if old(self).index < old(self).tokens@.len() {
                old(self).index + 1
            } else {
                old(self).index as int
            }),
            yields(
                r,
                if final(self).index > 0 {
                    Ok(final(self).tokens@[final(self).index - 1]@)
                } else {
                    Err(grammar::end_error(old(self).source()))
                },
            ),
    {
        if self.index < self.tokens.len() {
            self.index += 1;
        }
        if self.index > 0 {
            Ok(self.tokens[self.index - 1].clone())
        } else {
            Err(self.end_of_tokens())
        }
    }

    /// The kind of the token at the cursor, if the cursor is at one.
    fn kind(&self) -> (r: Option<TokenKind>)
        ensures
            r == grammar::kind_at(self.source(), self.index as int),
    {
        self.kind_after(0)
    }

    /// The kind of the token `n` places after the cursor, if there is one.
    fn kind_after(&self, n: usize) -> (r: Option<TokenKind>)
        requires
            self.index + n <= usize::MAX,
        ensures
            r == grammar::kind_at(self.source(), self.index + n),
    {
        if self.index + n < self.tokens.len() {
            Some(self.tokens[self.index + n].kind)
        } else {
            None
        }
    }

    /// Whether the token at the cursor is of kind `kind`.
    pub fn check(&self, kind: TokenKind) -> (r: bool)
        ensures
            r == grammar::check(self.source(), self.index as int, kind),
    {
        if self.index < self.tokens.len() {
            self.tokens[self.index].kind == kind
        } else {
            false
        }
    }

    /// Returns the token at the cursor and moves past it if it is of kind
    /// `kind`; an error otherwise.
    pub fn consume(&mut self, kind: TokenKind) -> (r: Result<Token, Error>)
        requires
            old(self).wf(),
        ensures
            final(self).parsed(
                old(self),
                r,
                grammar::consume(old(self).source(), old(self).index as int, kind),
            ),
    {
        if self.check(kind) {
            let token = self.tokens[self.index].clone();
            self.index += 1;
            Ok(token)
        } else {
            Err(self.error(Expected::Kind(kind)))
        }
    }

    /// Returns the name that the token at the cursor carries and moves past
    /// it.
    fn take_name(&mut self) -> (r: SpannedString)
        requires
            old(self).wf(),
            old(self).index < old(self).tokens@.len(),
        ensures
            final(self).wf(),
            final(self).filename@ == old(self).filename@,
            final(self).tokens@ == old(self).tokens@,
            final(self).index == old(self).index + 1,
            r@ == grammar::name_of(old(self).source().tokens[old(self).index as int]),
    {
        let token = self.tokens[self.index].clone();
        self.index += 1;
        (token.lexeme, token.span)
    }

    /// Reads a type.
    pub fn parse_type(&mut self) -> (r: Result<Type, Error>)
        requires
            old(self).wf(),
        ensures
            final(self).parsed(
                old(self),
                r,
                grammar::parse_type(old(self).source(), old(self).index as int),
            ),
        decreases old(self).tokens@.len() - old(self).index, 1nat,
    {
        let mut ty = self.parse_reference()?;
        loop
            invariant
                self.wf(),
                self.filename@ == old(self).filename@,
                self.tokens@ == old(self).tokens@,
                self.index > old(self).index,
                grammar::type_members(self.source(), self.index as int, ty@)
                    == grammar::parse_type(old(self).source(), old(self).index as int),
            decreases self.tokens@.len() - self.index,
        {
            if !self.check(TokenKind::Dot) {
                return Ok(ty);
            }
            self.index += 1;
            let name = self.consume(TokenKind::Identifier)?;
            ty = Type::Member(Box::new(ty), (name.lexeme, name.span));
        }
    }

    /// Reads a type; the same as [`Parser::parse_type`].
    pub fn type_(&mut self) -> (r: Result<Type, Error>)
        requires
            old(self).wf(),
        ensures
            final(self).parsed(
                old(self),
                r,
                grammar::parse_type(old(self).source(), old(self).index as int),
            ),
    {
        self.parse_type()
    }

    /// Reads a type without member steps.
    pub fn parse_reference(&mut self) -> (r: Result<Type, Error>)
        requires
            old(self).wf(),
        ensures
            final(self).parsed(
                old(self),
                r,
                grammar::parse_reference(old(self).source(), old(self).index as int),
            ),
        decreases old(self).tokens@.len() - old(self).index, 0nat,
    {
        match self.kind() {
            Some(TokenKind::Ampersand) => {
                self.index += 1;
                if self.check(TokenKind::Mut) {
                    self.index += 1;
                    let inner = self.parse_reference()?;
                    Ok(Type::MutableReference(Box::new(inner)))
                } else {
                    let inner = self.parse_reference()?;
                    Ok(Type::Reference(Box::new(inner)))
                }
            },
            Some(TokenKind::Identifier) => {
                let name = self.take_name();
                if self.check(TokenKind::OpenBracket) {
                    self.index += 1;
                    let arguments = self.type_list(TokenKind::CloseBracket)?;
                    Ok(Type::Polymorphic(name, arguments))
                } else {
                    Ok(Type::Identifier(name))
                }
            },
            Some(TokenKind::Fn) => {
                self.index += 1;
                self.consume(TokenKind::OpenParenthesis)?;
                let parameters = self.type_list(TokenKind::CloseParenthesis)?;
                self.consume(TokenKind::Arrow)?;
                let result = self.parse_type()?;
                Ok(Type::Function(parameters, Box::new(result)))
            },
            Some(TokenKind::Int) => {
                self.index += 1;
                Ok(Type::Integer)
            },
            Some(TokenKind::Float) => {
                self.index += 1;
                Ok(Type::FloatingPoint)
            },
            Some(TokenKind::Bool) => {
                self.index += 1;
                Ok(Type::Boolean)
            },
            Some(TokenKind::Char) => {
                self.index += 1;
                Ok(Type::Character)
            },
            _ => Err(self.error(Expected::Type)),
        }
    }

    /// Reads a list of types up to and including the token `close`.
    fn type_list(&mut self, close: TokenKind) -> (r: Result<Vec<Type>, Error>)
        requires
            old(self).wf(),
        ensures
            ({
                let expected = grammar::type_list(
                    old(self).source(),
                    old(self).index as int,
                    close,
                    Seq::empty(),
                );
                &&& final(self).follows(old(self), expected)
                &&& match expected.result {
                    Ok(list) => r is Ok && crate::ast::type_models(r->Ok_0@) == list,
                    Err(e) => r is Err && r->Err_0@ == e,
                }
            }),
        decreases old(self).tokens@.len() - old(self).index, 2nat,
    {
        let mut list: Vec<Type> = Vec::new();
        proof {
            crate::ast::lemma_models_push();
        }
        loop
            invariant
                self.wf(),
                self.filename@ == old(self).filename@,
                self.tokens@ == old(self).tokens@,
                self.index >= old(self).index,
                grammar::type_list(
                    self.source(),
                    self.index as int,
                    close,
                    crate::ast::type_models(list@),
                ) == grammar::type_list(
                    old(self).source(),
                    old(self).index as int,
                    close,
                    Seq::empty(),
                ),
            decreases self.tokens@.len() - self.index,
        {
            proof {
                crate::ast::lemma_models_push();
            }
            if self.check(close) {
                self.index += 1;
                return Ok(list);
            }
            let item = self.parse_type()?;
            list.push(item);
            if self.check(close) {
                self.index += 1;
                return Ok(list);
            }
            self.consume(TokenKind::Comma)?;
        }
    }

    /// Reads an expression.
    pub fn parse_expression(&mut self) -> (r: Result<Expression, Error>)
        requires
            old(self).wf(),
        ensures
            final(self).parsed(
                old(self),
                r,
                grammar::parse_expression(old(self).source(), old(self).index as int),
            ),
        decreases old(self).tokens@.len() - old(self).index, 18nat,
    {
        self.parse_assignment()
    }

    /// Reads an assignment, or an expression of the loosest binary level.
    pub fn parse_assignment(&mut self) -> (r: Result<Expression, Error>)
        requires
            old(self).wf(),
        ensures
            final(self).parsed(
                old(self),
                r,
                grammar::parse_assignment(old(self).source(), old(self).index as int),
            ),
        decreases old(self).tokens@.len() - old(self).index, 17nat,
    {
        let target = self.parse_binary(0)?;
        if self.check(TokenKind::Equals) {
            self.index += 1;
            let value = self.parse_assignment()?;
            Ok(Expression::Assignment(Box::new(target), Box::new(value)))
        } else {
            Ok(target)
        }
    }

    /// The binary operator of level `level` at the cursor, if one stands
    /// there.
    fn operator(&self, level: u8) -> (r: Option<BinaryOperator>)
        ensures
            r == grammar::operator_at(self.source(), self.index as int, level as nat),
    {
        match self.kind() {
            None => None,
            Some(kind) => {
                if level == 0 {
                    match kind {
                        TokenKind::Or => Some(BinaryOperator::Or),
                        _ => None,
                    }
                } else if level == 1 {
                    match kind {
                        TokenKind::And => Some(BinaryOperator::And),
                        _ => None,
                    }
                } else if level == 2 {
                    match kind {
                        TokenKind::EqualsEquals => Some(BinaryOperator::EqualsEquals),
                        TokenKind::BangEquals => Some(BinaryOperator::BangEquals),
                        _ => None,
                    }
                } else if level == 3 {
                    match kind {
                        TokenKind::LessThan => Some(BinaryOperator::LessThan),
                        TokenKind::LessThanEquals => Some(BinaryOperator::LessThanEquals),
                        TokenKind::GreaterThan => Some(BinaryOperator::GreaterThan),
                        TokenKind::GreaterThanEquals => Some(BinaryOperator::GreaterThanEquals),
                        _ => None,
                    }
                } else if level == 4 {
                    match kind {
                        TokenKind::Plus => Some(BinaryOperator::Plus),
                        TokenKind::Minus => Some(BinaryOperator::Minus),
                        _ => None,
                    }
                } else if level == 5 {
                    match kind {
                        TokenKind::Asterisk => Some(BinaryOperator::Asterisk),
                        TokenKind::Slash => Some(BinaryOperator::Slash),
                        TokenKind::Percent => Some(BinaryOperator::Percent),
                        _ => None,
                    }
                } else {
                    None
                }
            },
        }
    }

    /// Reads an operand of the binary operators of level `level`.
    fn parse_operand(&mut self, level: u8) -> (r: Result<Expression, Error>)
        requires
            old(self).wf(),
        ensures
            final(self).parsed(
                old(self),
                r,
                grammar::parse_operand(old(self).source(), old(self).index as int, level as nat),
            ),
        decreases old(self).tokens@.len() - old(self).index, (if level < 5 {
            15 - 2 * level
        } else {
            5
        }) as nat,
    {
        if level < 5 {
            self.parse_binary(level + 1)
        } else {
            self.parse_unary()
        }
    }

    /// Reads an expression of binary level `level`: level 0 is `||`, 1 is
    /// `&&`, 2 is equality, 3 is comparison, 4 is addition and 5 is
    /// multiplication.
    pub fn parse_binary(&mut self, level: u8) -> (r: Result<Expression, Error>)
        requires
            old(self).wf(),
        ensures
            final(self).parsed(
                old(self),
                r,
                grammar::parse_binary(old(self).source(), old(self).index as int, level as nat),
            ),
        decreases old(self).tokens@.len() - old(self).index, (if level < 5 {
            16 - 2 * level
        } else {
            6
        }) as nat,
    {
        let mut lhs = self.parse_operand(level)?;
        loop
            invariant
                self.wf(),
                self.filename@ == old(self).filename@,
                self.tokens@ == old(self).tokens@,
                self.index > old(self).index,
                grammar::binary_tail(self.source(), self.index as int, level as nat, lhs@)
                    == grammar::parse_binary(
                    old(self).source(),
                    old(self).index as int,
                    level as nat,
                ),
            decreases self.tokens@.len() - self.index,
        {
            match self.operator(level) {
                None => {
                    return Ok(lhs);
                },
                Some(operator) => {
                    self.index += 1;
                    let rhs = self.parse_operand(level)?;
                    lhs = Expression::Binary(Box::new(lhs), operator, Box::new(rhs));
                },
            }
        }
    }

    /// Reads operands joined by `||`.
    pub fn parse_or(&mut self) -> (r: Result<Expression, Error>)
        requires
            old(self).wf(),
        ensures
            final(self).parsed(
                old(self),
                r,
                grammar::parse_binary(old(self).source(), old(self).index as int, 0),
            ),
    {
        self.parse_binary(0)
    }

    /// Reads operands joined by `&&`.
    pub fn parse_and(&mut self) -> (r: Result<Expression, Error>)
        requires
            old(self).wf(),
        ensures
            final(self).parsed(
                old(self),
                r,
                grammar::parse_binary(old(self).source(), old(self).index as int, 1),
            ),
    {
        self.parse_binary(1)
    }

    /// Reads operands joined by `==` and `!=`.
    pub fn parse_equality(&mut self) -> (r: Result<Expression, Error>)
        requires
            old(self).wf(),
        ensures
            final(self).parsed(
                old(self),
                r,
                grammar::parse_binary(old(self).source(), old(self).index as int, 2),
            ),
    {
        self.parse_binary(2)
    }

    /// Reads operands joined by `<`, `<=`, `>` and `>=`.
    pub fn parse_comparison(&mut self) -> (r: Result<Expression, Error>)
        requires
            old(self).wf(),
        ensures
            final(self).parsed(
                old(self),
                r,
                grammar::parse_binary(old(self).source(), old(self).index as int, 3),
            ),
    {
        self.parse_binary(3)
    }

    /// Reads operands joined by `+` and `-`.
    pub fn parse_term(&mut self) -> (r: Result<Expression, Error>)
        requires
            old(self).wf(),
        ensures
            final(self).parsed(
                old(self),
                r,
                grammar::parse_binary(old(self).source(), old(self).index as int, 4),
            ),
    {
        self.parse_binary(4)
    }

    /// Reads operands joined by `*`, `/` and `%`.
    pub fn parse_factor(&mut self) -> (r: Result<Expression, Error>)
        requires
            old(self).wf(),
        ensures
            final(self).parsed(
                old(self),
                r,
                grammar::parse_binary(old(self).source(), old(self).index as int, 5),
            ),
    {
        self.parse_binary(5)
    }

    /// Reads a unary expression.
    pub fn parse_unary(&mut self) -> (r: Result<Expression, Error>)
        requires
            old(self).wf(),
        ensures
            final(self).parsed(
                old(self),
                r,
                grammar::parse_unary(old(self).source(), old(self).index as int),
            ),
        decreases old(self).tokens@.len() - old(self).index, 3nat,
    {
        let operator = match self.kind() {
            Some(TokenKind::Plus) => UnaryOperator::Plus,
            Some(TokenKind::Minus) => UnaryOperator::Minus,
            Some(TokenKind::Bang) => UnaryOperator::Bang,
            Some(TokenKind::Ampersand) => {
                if self.kind_after(1) == Some(TokenKind::Mut) {
                    self.index += 1;
                    UnaryOperator::MutableAddressOf
                } else {
                    UnaryOperator::AddressOf
                }
            },
            _ => {
                return self.parse_call();
            },
        };
        self.index += 1;
        let operand = self.parse_unary()?;
        Ok(Expression::Unary(operator, Box::new(operand)))
    }

    /// Reads a postfix expression: a primary expression and the calls,
    /// indexings, struct literals and member accesses that follow it.
    pub fn parse_call(&mut self) -> (r: Result<Expression, Error>)
        requires
            old(self).wf(),
        ensures
            final(self).parsed(
                old(self),
                r,
                grammar::parse_call(old(self).source(), old(self).index as int),
            ),
        decreases old(self).tokens@.len() - old(self).index, 2nat,
    {
        let mut inner = self.parse_primary()?;
        loop
            invariant
                self.wf(),
                self.filename@ == old(self).filename@,
                self.tokens@ == old(self).tokens@,
                self.index > old(self).index,
                grammar::postfix_tail(self.source(), self.index as int, inner@)
                    == grammar::parse_call(old(self).source(), old(self).index as int),
            decreases self.tokens@.len() - self.index,
        {
            match self.kind() {
                Some(TokenKind::OpenParenthesis) => {
                    self.index += 1;
                    let arguments = self.expression_list(TokenKind::CloseParenthesis)?;
                    inner = Expression::Call(Box::new(inner), arguments);
                },
                Some(TokenKind::OpenBracket) => {
                    self.index += 1;
                    let index = self.parse_expression()?;
                    self.consume(TokenKind::CloseBracket)?;
                    inner = Expression::Index(Box::new(inner), Box::new(index));
                },
                Some(TokenKind::OpenBrace) => {
                    self.index += 1;
                    let fields = self.initializers()?;
                    inner = Expression::StructLiteral(Box::new(inner), fields);
                },
                Some(TokenKind::Dot) => {
                    self.index += 1;
                    let name = self.consume(TokenKind::Identifier)?;
                    inner = Expression::Member(Box::new(inner), (name.lexeme, name.span));
                },
                _ => {
                    return Ok(inner);
                },
            }
        }
    }

    /// Reads a list of expressions up to and including the token `close`.
    fn expression_list(&mut self, close: TokenKind) -> (r: Result<Vec<Expression>, Error>)
        requires
            old(self).wf(),
        ensures
            ({
                let expected = grammar::expression_list(
                    old(self).source(),
                    old(self).index as int,
                    close,
                    Seq::empty(),
                );
                &&& final(self).follows(old(self), expected)
                &&& match expected.result {
                    Ok(list) => r is Ok && crate::ast::expression_models(r->Ok_0@) == list,
                    Err(e) => r is Err && r->Err_0@ == e,
                }
            }),
        decreases old(self).tokens@.len() - old(self).index, 19nat,
    {
        let mut list: Vec<Expression> = Vec::new();
        proof {
            crate::ast::lemma_models_push();
        }
        loop
            invariant
                self.wf(),
                self.filename@ == old(self).filename@,
                self.tokens@ == old(self).tokens@,
                self.index >= old(self).index,
                grammar::expression_list(
                    self.source(),
                    self.index as int,
                    close,
                    crate::ast::expression_models(list@),
                ) == grammar::expression_list(
                    old(self).source(),
                    old(self).index as int,
                    close,
                    Seq::empty(),
                ),
            decreases self.tokens@.len() - self.index,
        {
            proof {
                crate::ast::lemma_models_push();
            }
            if self.check(close) {
                self.index += 1;
                return Ok(list);
            }
            let item = self.parse_expression()?;
            list.push(item);
            if self.check(close) {
                self.index += 1;
                return Ok(list);
            }
            self.consume(TokenKind::Comma)?;
        }
    }

    /// Reads the field initializers of a struct literal up to and
    /// including the closing brace.
    fn initializers(&mut self) -> (r: Result<Vec<(Option<SpannedString>, Expression)>, Error>)
        requires
            old(self).wf(),
        ensures
            ({
                let expected = grammar::initializers(
                    old(self).source(),
                    old(self).index as int,
                    Seq::empty(),
                );
                &&& final(self).follows(old(self), expected)
                &&& match expected.result {
                    Ok(list) => r is Ok && crate::ast::initializer_models(r->Ok_0@) == list,
                    Err(e) => r is Err && r->Err_0@ == e,
                }
            }),
        decreases old(self).tokens@.len() - old(self).index, 19nat,
    {
        let mut list: Vec<(Option<SpannedString>, Expression)> = Vec::new();
        proof {
            crate::ast::lemma_models_push();
        }
        loop
            invariant
                self.wf(),
                self.filename@ == old(self).filename@,
                self.tokens@ == old(self).tokens@,
                self.index >= old(self).index,
                grammar::initializers(
                    self.source(),
                    self.index as int,
                    crate::ast::initializer_models(list@),
                ) == grammar::initializers(
                    old(self).source(),
                    old(self).index as int,
                    Seq::empty(),
                ),
            decreases self.tokens@.len() - self.index,
        {
            proof {
                crate::ast::lemma_models_push();
            }
            if self.check(TokenKind::CloseBrace) {
                self.index += 1;
                return Ok(list);
            }
            let name = if self.check(TokenKind::Identifier) {
                Some(self.take_name())
            } else {
                None
            };
            self.consume(TokenKind::Equals)?;
            let value = self.parse_expression()?;
            list.push((name, value));
            if self.check(TokenKind::CloseBrace) {
                self.index += 1;
                return Ok(list);
            }
            self.consume(TokenKind::Comma)?;
        }
    }

    /// Reads a primary expression: a name, a literal, an array literal or
    /// an expression in parentheses.
    pub fn parse_primary(&mut self) -> (r: Result<Expression, Error>)
        requires
            old(self).wf(),
        ensures
            final(self).parsed(
                old(self),
                r,
                grammar::parse_primary(old(self).source(), old(self).index as int),
            ),
        decreases old(self).tokens@.len() - old(self).index, 1nat,
    {
        match self.kind() {
            Some(TokenKind::Identifier) => Ok(Expression::Identifier(self.take_name())),
            Some(TokenKind::String) => Ok(Expression::String(self.take_name())),
            Some(TokenKind::FloatingPoint) => Ok(Expression::FloatingPoint(self.take_name())),
            Some(TokenKind::Character) => {
                let token = &self.tokens[self.index];
                if token.lexeme.as_str().is_empty() {
                    Err(Error::new(ErrorKind::InvalidLiteral(token.kind), token.span.clone()))
                } else {
                    let c = token.lexeme.as_str().get_char(0);
                    let span = token.span.clone();
                    self.index += 1;
                    Ok(Expression::Character((c, span)))
                }
            },
            Some(TokenKind::Integer) => {
                let token = &self.tokens[self.index];
                match parse_integer(token.lexeme.as_str()) {
                    None => Err(
                        Error::new(ErrorKind::InvalidLiteral(token.kind), token.span.clone()),
                    ),
                    Some(value) => {
                        let span = token.span.clone();
                        self.index += 1;
                        Ok(Expression::Integer((value, span)))
                    },
                }
            },
            Some(TokenKind::Boolean) => {
                let token = &self.tokens[self.index];
                let value = same_text(token.lexeme.as_str(), "true");
                let span = token.span.clone();
                self.index += 1;
                Ok(Expression::Boolean((value, span)))
            },
            Some(TokenKind::OpenBracket) => {
                self.index += 1;
                let elements = self.expression_list(TokenKind::CloseBracket)?;
                Ok(Expression::ArrayLiteral(elements))
            },
            Some(TokenKind::OpenParenthesis) => {
                self.index += 1;
                let inner = self.parse_expression()?;
                self.consume(TokenKind::CloseParenthesis)?;
                Ok(inner)
            },
            _ => Err(self.error(Expected::Expression)),
        }
    }

    /// Reads a list of names with their types up to and including the
    /// token `close`.
    fn typed_names(&mut self, close: TokenKind) -> (r: Result<Vec<(SpannedString, Type)>, Error>)
        requires
            old(self).wf(),
        ensures
            ({
                let expected = grammar::typed_names(
                    old(self).source(),
                    old(self).index as int,
                    close,
                    Seq::empty(),
                );
                &&& final(self).follows(old(self), expected)
                &&& match expected.result {
                    Ok(list) => r is Ok && crate::ast::field_models(r->Ok_0@) == list,
                    Err(e) => r is Err && r->Err_0@ == e,
                }
            }),
    {
        let mut list: Vec<(SpannedString, Type)> = Vec::new();
        proof {
            crate::ast::lemma_models_push();
        }
        loop
            invariant
                self.wf(),
                self.filename@ == old(self).filename@,
                self.tokens@ == old(self).tokens@,
                self.index >= old(self).index,
                grammar::typed_names(
                    self.source(),
                    self.index as int,
                    close,
                    crate::ast::field_models(list@),
                ) == grammar::typed_names(
                    old(self).source(),
                    old(self).index as int,
                    close,
                    Seq::empty(),
                ),
            decreases self.tokens@.len() - self.index,
        {
            proof {
                crate::ast::lemma_models_push();
            }
            if self.check(close) {
                self.index += 1;
                return Ok(list);
            }
            let name = self.consume(TokenKind::Identifier)?;
            self.consume(TokenKind::Colon)?;
            let ty = self.parse_type()?;
            list.push(((name.lexeme, name.span), ty));
            if self.check(close) {
                self.index += 1;
                return Ok(list);
            }
            self.consume(TokenKind::Comma)?;
        }
    }

    /// Reads `import Name`.
    pub fn parse_import(&mut self) -> (r: Result<Statement, Error>)
        requires
            old(self).wf(),
        ensures
            final(self).parsed(
                old(self),
                r,
                grammar::parse_import(old(self).source(), old(self).index as int),
            ),
    {
        self.consume(TokenKind::Import)?;
        let name = self.consume(TokenKind::Identifier)?;
        Ok(Statement::Import((name.lexeme, name.span)))
    }

    /// Reads `struct Name { field: Type, ... }`.
    pub fn parse_struct(&mut self) -> (r: Result<Statement, Error>)
        requires
            old(self).wf(),
        ensures
            final(self).parsed(
                old(self),
                r,
                grammar::parse_struct(old(self).source(), old(self).index as int),
            ),
    {
        self.consume(TokenKind::Struct)?;
        let name = self.consume(TokenKind::Identifier)?;
        self.consume(TokenKind::OpenBrace)?;
        let fields = self.typed_names(TokenKind::CloseBrace)?;
        proof {
            crate::ast::lemma_models_push();
        }
        Ok(
            Statement::Struct {
                spanned_id: (name.lexeme, name.span),
                generic_parameters: Vec::new(),
                fields,
            },
        )
    }

    /// Reads the optional `: Type` of a variable or constant.
    fn type_annotation(&mut self) -> (r: Result<Option<Type>, Error>)
        requires
            old(self).wf(),
        ensures
            ({
                let expected = grammar::type_annotation(
                    old(self).source(),
                    old(self).index as int,
                );
                &&& final(self).wf()
                &&& final(self).filename@ == old(self).filename@
                &&& final(self).tokens@ == old(self).tokens@
                &&& final(self).index == expected.next
                &&& final(self).index >= old(self).index
                &&& match expected.result {
                    Ok(ty) => r is Ok && crate::ast::optional_type_model(r->Ok_0) == ty,
                    Err(e) => r is Err && r->Err_0@ == e,
                }
            }),
    {
        if self.check(TokenKind::Colon) {
            self.index += 1;
            let ty = self.parse_type()?;
            Ok(Some(ty))
        } else {
            Ok(None)
        }
    }

    /// Reads a variable or a constant, after its keyword `keyword`.
    fn parse_binding(&mut self, constant: bool) -> (r: Result<Statement, Error>)
        requires
            old(self).wf(),
        ensures
            final(self).parsed(
                old(self),
                r,
                grammar::parse_binding(old(self).source(), old(self).index as int, constant),
            ),
    {
        self.consume(
            if constant {
                TokenKind::Const
            } else {
                TokenKind::Var
            },
        )?;
        let name = self.consume(TokenKind::Identifier)?;
        let ty = self.type_annotation()?;
        self.consume(TokenKind::Equals)?;
        let value = self.parse_expression()?;
        self.consume(TokenKind::Semicolon)?;
        if constant {
            Ok(Statement::Constant((name.lexeme, name.span), ty, value))
        } else {
            Ok(Statement::Variable((name.lexeme, name.span), ty, value))
        }
    }

    /// Reads `var Name [: Type] = Expr ;`.
    pub fn parse_variable(&mut self) -> (r: Result<Statement, Error>)
        requires
            old(self).wf(),
        ensures
            final(self).parsed(
                old(self),
                r,
                grammar::parse_binding(old(self).source(), old(self).index as int, false),
            ),
    {
        self.parse_binding(false)
    }

    /// Reads `const Name [: Type] = Expr ;`.
    pub fn parse_constant(&mut self) -> (r: Result<Statement, Error>)
        requires
            old(self).wf(),
        ensures
            final(self).parsed(
                old(self),
                r,
                grammar::parse_binding(old(self).source(), old(self).index as int, true),
            ),
    {
        self.parse_binding(true)
    }

    /// Reads `return [Expr]`.
    pub fn parse_return(&mut self) -> (r: Result<Statement, Error>)
        requires
            old(self).wf(),
        ensures
            final(self).parsed(
                old(self),
                r,
                grammar::parse_return(old(self).source(), old(self).index as int),
            ),
    {
        self.consume(TokenKind::Return)?;
        if self.check(TokenKind::Semicolon) {
            Ok(Statement::Return(None))
        } else {
            let value = self.parse_expression()?;
            Ok(Statement::Return(Some(value)))
        }
    }

    /// Reads an expression followed by a semicolon.
    fn parse_expression_statement(&mut self) -> (r: Result<Statement, Error>)
        requires
            old(self).wf(),
        ensures
            final(self).parsed(
                old(self),
                r,
                grammar::parse_expression_statement(old(self).source(), old(self).index as int),
            ),
    {
        let value = self.parse_expression()?;
        self.consume(TokenKind::Semicolon)?;
        Ok(Statement::Expression(value))
    }

    /// Reads a statement.
    pub fn parse_statement(&mut self) -> (r: Result<Statement, Error>)
        requires
            old(self).wf(),
        ensures
            final(self).parsed(
                old(self),
                r,
                grammar::parse_statement(old(self).source(), old(self).index as int),
            ),
        decreases old(self).tokens@.len() - old(self).index, 1nat,
    {
        match self.kind() {
            None => Err(self.end_of_tokens()),
            Some(TokenKind::OpenBrace) => self.parse_block(),
            Some(TokenKind::Import) => self.parse_import(),
            Some(TokenKind::Struct) => self.parse_struct(),
            Some(TokenKind::Fn) => self.parse_function(),
            Some(TokenKind::Var) => self.parse_variable(),
            Some(TokenKind::Const) => self.parse_constant(),
            Some(TokenKind::For) => self.parse_for(),
            Some(TokenKind::Return) => self.parse_return(),
            Some(TokenKind::Eof) => {
                let span = self.tokens[self.index].span.clone();
                self.index += 1;
                Ok(Statement::Garbage(span))
            },
            Some(_) => self.parse_expression_statement(),
        }
    }

    /// Reads `{ statement ... }`.
    pub fn parse_block(&mut self) -> (r: Result<Statement, Error>)
        requires
            old(self).wf(),
        ensures
            final(self).parsed(
                old(self),
                r,
                grammar::parse_block(old(self).source(), old(self).index as int),
            ),
        decreases old(self).tokens@.len() - old(self).index, 0nat,
    {
        self.consume(TokenKind::OpenBrace)?;
        let mut statements: Vec<Statement> = Vec::new();
        proof {
            crate::ast::lemma_models_push();
        }
        loop
            invariant
                self.wf(),
                self.filename@ == old(self).filename@,
                self.tokens@ == old(self).tokens@,
                self.index > old(self).index,
                grammar::block_items(
                    self.source(),
                    self.index as int,
                    crate::ast::statement_models(statements@),
                ) == grammar::parse_block(old(self).source(), old(self).index as int),
            decreases self.tokens@.len() - self.index,
        {
            proof {
                crate::ast::lemma_models_push();
            }
            match self.kind() {
                None => {
                    return Err(self.end_of_tokens());
                },
                Some(TokenKind::CloseBrace) => {
                    self.index += 1;
                    return Ok(Statement::Block(statements));
                },
                Some(TokenKind::Semicolon) => {
                    self.index += 1;
                },
                Some(_) => {
                    let statement = self.parse_statement()?;
                    statements.push(statement);
                },
            }
        }
    }

    /// Reads a block; the same as [`Parser::parse_block`].
    pub fn block(&mut self) -> (r: Result<Statement, Error>)
        requires
            old(self).wf(),
        ensures
            final(self).parsed(
                old(self),
                r,
                grammar::parse_block(old(self).source(), old(self).index as int),
            ),
    {
        self.parse_block()
    }

    /// Reads `fn Name(param: Type, ...) [-> Type] body`.
    pub fn parse_function(&mut self) -> (r: Result<Statement, Error>)
        requires
            old(self).wf(),
        ensures
            final(self).parsed(
                old(self),
                r,
                grammar::parse_function(old(self).source(), old(self).index as int),
            ),
        decreases old(self).tokens@.len() - old(self).index, 0nat,
    {
        self.consume(TokenKind::Fn)?;
        let name = self.consume(TokenKind::Identifier)?;
        self.consume(TokenKind::OpenParenthesis)?;
        let parameters = self.typed_names(TokenKind::CloseParenthesis)?;
        let result = if self.check(TokenKind::Arrow) {
            self.index += 1;
            Some(self.parse_type()?)
        } else {
            None
        };
        let body = self.parse_statement()?;
        Ok(Statement::Function((name.lexeme, name.span), parameters, result, Box::new(body)))
    }

    /// Reads `for (Name in Expr) body`.
    pub fn parse_for(&mut self) -> (r: Result<Statement, Error>)
        requires
            old(self).wf(),
        ensures
            final(self).parsed(
                old(self),
                r,
                grammar::parse_for(old(self).source(), old(self).index as int),
            ),
        decreases old(self).tokens@.len() - old(self).index, 0nat,
    {
        self.consume(TokenKind::For)?;
        self.consume(TokenKind::OpenParenthesis)?;
        let name = self.consume(TokenKind::Identifier)?;
        self.consume(TokenKind::In)?;
        let range = self.parse_expression()?;
        self.consume(TokenKind::CloseParenthesis)?;
        let body = self.parse_statement()?;
        Ok(Statement::For((name.lexeme, name.span), range, Box::new(body)))
    }

    /// Reads every statement from the cursor to the end of the tokens. A
    /// statement that fails leaves its error, and reading resumes one
    /// token after the place of the failure. The result is the statements
    /// if none failed, and every error, in order, otherwise.
    pub fn parse(&mut self) -> (r: Result<Vec<Statement>, Vec<Error>>)
        requires
            old(self).wf(),
        ensures
            final(self).wf(),
            final(self).filename@ == old(self).filename@,
            final(self).tokens@ == old(self).tokens@,
            final(self).index == final(self).tokens@.len(),
            match grammar::parse_from(old(self).source(), old(self).index as int) {
                Ok(statements) => r is Ok && crate::ast::statement_models(r->Ok_0@) == statements,
                Err(errors) => r is Err && crate::error::error_views(r->Err_0@) == errors,
            },
    {
        let mut statements: Vec<Statement> = Vec::new();
        let mut errors: Vec<Error> = Vec::new();
        proof {
            crate::ast::lemma_models_push();
            assert(crate::error::error_views(errors@) =~= Seq::empty());
        }
        while !self.is_at_end()
            invariant
                self.wf(),
                self.filename@ == old(self).filename@,
                self.tokens@ == old(self).tokens@,
                grammar::program(
                    self.source(),
                    self.index as int,
                    crate::ast::statement_models(statements@),
                    crate::error::error_views(errors@),
                ) == grammar::program(
                    old(self).source(),
                    old(self).index as int,
                    Seq::empty(),
                    Seq::empty(),
                ),
            decreases self.tokens@.len() - self.index,
        {
            proof {
                crate::ast::lemma_models_push();
            }
            match self.parse_statement() {
                Ok(statement) => {
                    statements.push(statement);
                },
                Err(error) => {
                    let ghost before = crate::error::error_views(errors@);
                    errors.push(error);
                    assert(crate::error::error_views(errors@) =~= before.push(error@));
                    if !self.is_at_end() {
                        self.index += 1;
                    }
                },
            }
        }
        if errors.len() == 0 {
            Ok(statements)
        } else {
            Err(errors)
        }
    }
}

} // verus!
