//! The printer: from the syntax tree back to source text.
//!
//! A tree is first laid out as a sequence of pieces, one for each token
//! that the parser is to read, and the pieces are written one after another
//! with a blank after each. The layout is minimal: every operand stands in
//! parentheses, every element of a list and every statement of a block is
//! followed by its separator. What the grammar has no syntax for is left
//! out: enumerations, unions, garbage and the generic parameters of a
//! struct; an unsigned integer type is written as `int`.

use crate::ast::{
    BinaryOperator, Expression, ExpressionView, NameView, SpannedString, Statement, StatementView,
    Type, TypeView, UnaryOperator,
};
use crate::text::{integer_text, signed_decimal};
use crate::token::TokenKind;
use vstd::prelude::*;

verus! {

/// What the printer writes for one token: the kind of the token and its
/// text, as a tokenizer reports them.
pub struct Piece {
    pub kind: TokenKind,
    pub lexeme: Seq<char>,
}

/// The piece of a keyword, an operator or a punctuation mark.
pub open spec fn mark(kind: TokenKind) -> Piece {
    Piece { kind, lexeme: kind.spelling() }
}

/// The piece of a name.
pub open spec fn name_piece(name: NameView) -> Piece {
    Piece { kind: TokenKind::Identifier, lexeme: name.0 }
}

/// `inner` in parentheses.
pub open spec fn wrapped(inner: Seq<Piece>) -> Seq<Piece> {
    seq![mark(TokenKind::OpenParenthesis)] + inner + seq![mark(TokenKind::CloseParenthesis)]
}

/// The pieces of a type.
pub open spec fn type_pieces(ty: TypeView) -> Seq<Piece>
    decreases ty, 0nat,
{
    match ty {
        TypeView::Integer => seq![mark(TokenKind::Int)],
        TypeView::UnsignedInteger => seq![mark(TokenKind::Int)],
        TypeView::FloatingPoint => seq![mark(TokenKind::Float)],
        TypeView::Boolean => seq![mark(TokenKind::Bool)],
        TypeView::Character => seq![mark(TokenKind::Char)],
        TypeView::Reference(inner) => seq![mark(TokenKind::Ampersand)] + type_pieces(*inner),
        TypeView::MutableReference(inner) => seq![
            mark(TokenKind::Ampersand),
            mark(TokenKind::Mut),
        ] + type_pieces(*inner),
        TypeView::Identifier(name) => seq![name_piece(name)],
        TypeView::Polymorphic(name, arguments) => seq![
            name_piece(name),
            mark(TokenKind::OpenBracket),
        ] + type_list_pieces(arguments, 0) + seq![mark(TokenKind::CloseBracket)],
        TypeView::Member(inner, name) => type_pieces(*inner) + seq![
            mark(TokenKind::Dot),
            name_piece(name),
        ],
        TypeView::Function(parameters, result) => seq![
            mark(TokenKind::Fn),
            mark(TokenKind::OpenParenthesis),
        ] + type_list_pieces(parameters, 0) + seq![
            mark(TokenKind::CloseParenthesis),
            mark(TokenKind::Arrow),
        ] + type_pieces(*result),
    }
}

/// The pieces of the types of `types` from `from` on, each followed by a
/// comma.
pub open spec fn type_list_pieces(types: Seq<TypeView>, from: int) -> Seq<Piece>
    decreases types, types.len() - from,
{
    if from < 0 || from >= types.len() {
        Seq::empty()
    } else {
        type_pieces(types[from]) + seq![mark(TokenKind::Comma)] + type_list_pieces(
            types,
            from + 1,
        )
    }
}

/// The kind of the token that writes a binary operator.
pub open spec fn binary_kind(operator: BinaryOperator) -> TokenKind {
    match operator {
        BinaryOperator::Plus => TokenKind::Plus,
        BinaryOperator::Minus => TokenKind::Minus,
        BinaryOperator::Asterisk => TokenKind::Asterisk,
        BinaryOperator::Slash => TokenKind::Slash,
        BinaryOperator::Percent => TokenKind::Percent,
        BinaryOperator::EqualsEquals => TokenKind::EqualsEquals,
        BinaryOperator::BangEquals => TokenKind::BangEquals,
        BinaryOperator::LessThan => TokenKind::LessThan,
        BinaryOperator::LessThanEquals => TokenKind::LessThanEquals,
        BinaryOperator::GreaterThan => TokenKind::GreaterThan,
        BinaryOperator::GreaterThanEquals => TokenKind::GreaterThanEquals,
        BinaryOperator::And => TokenKind::And,
        BinaryOperator::Or => TokenKind::Or,
    }
}

/// The pieces of a prefix operator.
pub open spec fn unary_pieces(operator: UnaryOperator) -> Seq<Piece> {
    match operator {
        UnaryOperator::Plus => seq![mark(TokenKind::Plus)],
        UnaryOperator::Minus => seq![mark(TokenKind::Minus)],
        UnaryOperator::Bang => seq![mark(TokenKind::Bang)],
        UnaryOperator::AddressOf => seq![mark(TokenKind::Ampersand)],
        UnaryOperator::MutableAddressOf => seq![mark(TokenKind::Ampersand), mark(TokenKind::Mut)],
    }
}

/// The pieces of an expression.
pub open spec fn expression_pieces(e: ExpressionView) -> Seq<Piece>
    decreases e, 0nat,
{
    match e {
        ExpressionView::Identifier(name) => seq![name_piece(name)],
        ExpressionView::String(text) => seq![Piece { kind: TokenKind::String, lexeme: text.0 }],
        ExpressionView::Character(c) => seq![
            Piece { kind: TokenKind::Character, lexeme: seq![c.0] },
        ],
        ExpressionView::Integer(n) => seq![
            Piece { kind: TokenKind::Integer, lexeme: signed_decimal(n.0 as int) },
        ],
        ExpressionView::FloatingPoint(text) => seq![
            Piece { kind: TokenKind::FloatingPoint, lexeme: text.0 },
        ],
        ExpressionView::Boolean(b) => seq![
            Piece {
                kind: TokenKind::Boolean,
                lexeme: if b.0 {
                    "true"@
                } else {
                    "false"@
                },
            },
        ],
        ExpressionView::Binary(lhs, operator, rhs) => wrapped(expression_pieces(*lhs)) + seq![
            mark(binary_kind(operator)),
        ] + wrapped(expression_pieces(*rhs)),
        ExpressionView::Unary(operator, operand) => unary_pieces(operator) + wrapped(
            expression_pieces(*operand),
        ),
        ExpressionView::Call(callee, arguments) => wrapped(expression_pieces(*callee)) + seq![
            mark(TokenKind::OpenParenthesis),
        ] + expression_list_pieces(arguments, 0) + seq![mark(TokenKind::CloseParenthesis)],
        ExpressionView::Index(base, index) => wrapped(expression_pieces(*base)) + seq![
            mark(TokenKind::OpenBracket),
        ] + expression_pieces(*index) + seq![mark(TokenKind::CloseBracket)],
        ExpressionView::Member(base, name) => wrapped(expression_pieces(*base)) + seq![
            mark(TokenKind::Dot),
            name_piece(name),
        ],
        ExpressionView::Assignment(target, value) => wrapped(expression_pieces(*target)) + seq![
            mark(TokenKind::Equals),
        ] + wrapped(expression_pieces(*value)),
        ExpressionView::StructLiteral(ty, fields) => wrapped(expression_pieces(*ty)) + seq![
            mark(TokenKind::OpenBrace),
        ] + initializer_pieces(fields, 0) + seq![mark(TokenKind::CloseBrace)],
        ExpressionView::ArrayLiteral(elements) => seq![mark(TokenKind::OpenBracket)]
            + expression_list_pieces(elements, 0) + seq![mark(TokenKind::CloseBracket)],
    }
}

/// The pieces of the expressions of `items` from `from` on, each followed
/// by a comma.
pub open spec fn expression_list_pieces(items: Seq<ExpressionView>, from: int) -> Seq<Piece>
    decreases items, items.len() - from,
{
    if from < 0 || from >= items.len() {
        Seq::empty()
    } else {
        expression_pieces(items[from]) + seq![mark(TokenKind::Comma)] + expression_list_pieces(
            items,
            from + 1,
        )
    }
}

/// The pieces of an optional name.
pub open spec fn optional_name_pieces(name: Option<NameView>) -> Seq<Piece> {
    match name {
        Some(name) => seq![name_piece(name)],
        None => Seq::empty(),
    }
}

/// The pieces of the field initializers of `fields` from `from` on: the
/// name where there is one, `=`, the value and a comma.
pub open spec fn initializer_pieces(
    fields: Seq<(Option<NameView>, ExpressionView)>,
    from: int,
) -> Seq<Piece>
    decreases fields, fields.len() - from,
{
    if from < 0 || from >= fields.len() {
        Seq::empty()
    } else {
        optional_name_pieces(fields[from].0) + seq![mark(TokenKind::Equals)] + expression_pieces(
            fields[from].1,
        ) + seq![mark(TokenKind::Comma)] + initializer_pieces(fields, from + 1)
    }
}

/// The pieces of the typed names of `fields` from `from` on: the name, a
/// colon, the type and a comma.
pub open spec fn typed_name_pieces(fields: Seq<(NameView, TypeView)>, from: int) -> Seq<Piece>
    decreases fields.len() - from,
{
    if from < 0 || from >= fields.len() {
        Seq::empty()
    } else {
        seq![name_piece(fields[from].0), mark(TokenKind::Colon)] + type_pieces(fields[from].1)
            + seq![mark(TokenKind::Comma)] + typed_name_pieces(fields, from + 1)
    }
}

/// The pieces of an optional type after the mark `before`.
pub open spec fn annotation_pieces(before: TokenKind, ty: Option<TypeView>) -> Seq<Piece> {
    match ty {
        Some(ty) => seq![mark(before)] + type_pieces(ty),
        None => Seq::empty(),
    }
}

/// The pieces of a statement.
pub open spec fn statement_pieces(s: StatementView) -> Seq<Piece>
    decreases s, 0nat,
{
    match s {
        StatementView::Block(items) => seq![mark(TokenKind::OpenBrace)] + block_pieces(items, 0)
            + seq![mark(TokenKind::CloseBrace)],
        StatementView::Import(name) => seq![mark(TokenKind::Import), name_piece(name)],
        StatementView::Struct { spanned_id, generic_parameters, fields } => seq![
            mark(TokenKind::Struct),
            name_piece(spanned_id),
            mark(TokenKind::OpenBrace),
        ] + typed_name_pieces(fields, 0) + seq![mark(TokenKind::CloseBrace)],
        StatementView::Function(name, parameters, result, body) => seq![
            mark(TokenKind::Fn),
            name_piece(name),
            mark(TokenKind::OpenParenthesis),
        ] + typed_name_pieces(parameters, 0) + seq![mark(TokenKind::CloseParenthesis)]
            + annotation_pieces(TokenKind::Arrow, result) + statement_pieces(*body),
        StatementView::Variable(name, ty, value) => seq![mark(TokenKind::Var), name_piece(name)]
            + annotation_pieces(TokenKind::Colon, ty) + seq![mark(TokenKind::Equals)]
            + expression_pieces(value) + seq![mark(TokenKind::Semicolon)],
        StatementView::Constant(name, ty, value) => seq![
            mark(TokenKind::Const),
            name_piece(name),
        ] + annotation_pieces(TokenKind::Colon, ty) + seq![mark(TokenKind::Equals)]
            + expression_pieces(value) + seq![mark(TokenKind::Semicolon)],
        StatementView::For(name, range, body) => seq![
            mark(TokenKind::For),
            mark(TokenKind::OpenParenthesis),
            name_piece(name),
            mark(TokenKind::In),
        ] + expression_pieces(range) + seq![mark(TokenKind::CloseParenthesis)] + statement_pieces(
            *body,
        ),
        StatementView::Return(value) => match value {
            None => seq![mark(TokenKind::Return)],
            Some(e) => seq![mark(TokenKind::Return)] + expression_pieces(e),
        },
        StatementView::Expression(e) => wrapped(expression_pieces(e)) + seq![
            mark(TokenKind::Semicolon),
        ],
        StatementView::Enum { .. } => Seq::empty(),
        StatementView::Union { .. } => Seq::empty(),
        StatementView::Garbage(_) => Seq::empty(),
    }
}

/// The pieces of the statements of a block from `from` on, each followed
/// by a semicolon.
pub open spec fn block_pieces(items: Seq<StatementView>, from: int) -> Seq<Piece>
    decreases items, items.len() - from,
{
    if from < 0 || from >= items.len() {
        Seq::empty()
    } else {
        statement_pieces(items[from]) + seq![mark(TokenKind::Semicolon)] + block_pieces(
            items,
            from + 1,
        )
    }
}

/// The pieces of the statements of a unit from `from` on.
pub open spec fn program_pieces(statements: Seq<StatementView>, from: int) -> Seq<Piece>
    decreases statements.len() - from,
{
    if from < 0 || from >= statements.len() {
        Seq::empty()
    } else {
        statement_pieces(statements[from]) + program_pieces(statements, from + 1)
    }
}

/// How a character is written inside a literal delimited by `quote`: with
/// a backslash where it is the quote, a backslash, a line break, a
/// carriage return or a tab, and as it is otherwise.
pub open spec fn escaped_char(c: char, quote: char) -> Seq<char> {
    if c == '\n' {
        seq!['\\', 'n']
    } else if c == '\r' {
        seq!['\\', 'r']
    } else if c == '\t' {
        seq!['\\', 't']
    } else if c == '\\' {
        seq!['\\', '\\']
    } else if c == quote {
        seq!['\\', quote]
    } else {
        seq![c]
    }
}

/// How a text is written inside a literal delimited by `quote`.
pub open spec fn escaped(text: Seq<char>, quote: char) -> Seq<char>
    decreases text.len(),
{
    if text.len() == 0 {
        Seq::empty()
    } else {
        escaped(text.drop_last(), quote) + escaped_char(text.last(), quote)
    }
}

/// The source text of a piece: a string or a character between its quotes,
/// with escapes; the lexeme for every other kind.
pub open spec fn piece_text(piece: Piece) -> Seq<char> {
    match piece.kind {
        TokenKind::String => seq!['"'] + escaped(piece.lexeme, '"') + seq!['"'],
        TokenKind::Character => seq!['\''] + escaped(piece.lexeme, '\'') + seq!['\''],
        _ => piece.lexeme,
    }
}

/// The source text of a sequence of pieces: each piece, followed by a
/// blank.
pub open spec fn pieces_text(pieces: Seq<Piece>) -> Seq<char>
    decreases pieces.len(),
{
    if pieces.len() == 0 {
        Seq::empty()
    } else {
        pieces_text(pieces.drop_last()) + piece_text(pieces.last()) + seq![' ']
    }
}

/// The source text of a unit.
pub open spec fn program_text(statements: Seq<StatementView>) -> Seq<char> {
    pieces_text(program_pieces(statements, 0))
}

/// A piece as the printer holds it.
#[derive(Debug, PartialEq, Eq)]
pub struct Fragment {
    pub kind: TokenKind,
    pub lexeme: String,
}

impl View for Fragment {
    type V = Piece;

    open spec fn view(&self) -> Piece {
        Piece { kind: self.kind, lexeme: self.lexeme@ }
    }
}

/// The pieces that a sequence of fragments holds.
pub open spec fn pieces_of(fragments: Seq<Fragment>) -> Seq<Piece> {
    Seq::new(fragments.len(), |i: int| fragments[i]@)
}

fn put(out: &mut Vec<Fragment>, kind: TokenKind, lexeme: String)
    ensures
        pieces_of(final(out)@) == pieces_of(old(out)@).push(Piece { kind, lexeme: lexeme@ }),
{
    out.push(Fragment { kind, lexeme });
    assert(pieces_of(out@) =~= pieces_of(old(out)@).push(Piece { kind, lexeme: lexeme@ }));
}

fn put_mark(out: &mut Vec<Fragment>, kind: TokenKind)
    ensures
        pieces_of(final(out)@) == pieces_of(old(out)@) + seq![mark(kind)],
{
    put(out, kind, String::from_str(kind.text()));
    assert(pieces_of(out@) =~= pieces_of(old(out)@) + seq![mark(kind)]);
}

fn put_name(out: &mut Vec<Fragment>, name: &SpannedString)
    ensures
        pieces_of(final(out)@) == pieces_of(old(out)@) + seq![name_piece(name@)],
{
    put(out, TokenKind::Identifier, name.0.clone());
    assert(pieces_of(out@) =~= pieces_of(old(out)@) + seq![name_piece(name@)]);
}

/// Lays out a type.
pub fn lay_out_type(ty: &Type, out: &mut Vec<Fragment>)
    ensures
        pieces_of(final(out)@) == pieces_of(old(out)@) + type_pieces(ty@),
    decreases ty,
{
    match ty {
        Type::Integer => put_mark(out, TokenKind::Int),
        Type::UnsignedInteger => put_mark(out, TokenKind::Int),
        Type::FloatingPoint => put_mark(out, TokenKind::Float),
        Type::Boolean => put_mark(out, TokenKind::Bool),
        Type::Character => put_mark(out, TokenKind::Char),
        Type::Reference(inner) => {
            put_mark(out, TokenKind::Ampersand);
            lay_out_type(inner, out);
            assert(pieces_of(out@) =~= pieces_of(old(out)@) + type_pieces(ty@));
        },
        Type::MutableReference(inner) => {
            put_mark(out, TokenKind::Ampersand);
            put_mark(out, TokenKind::Mut);
            lay_out_type(inner, out);
            assert(pieces_of(out@) =~= pieces_of(old(out)@) + type_pieces(ty@));
        },
        Type::Identifier(name) => put_name(out, name),
        Type::Polymorphic(name, arguments) => {
            put_name(out, name);
            put_mark(out, TokenKind::OpenBracket);
            lay_out_types(arguments, out);
            put_mark(out, TokenKind::CloseBracket);
            assert(pieces_of(out@) =~= pieces_of(old(out)@) + type_pieces(ty@));
        },
        Type::Member(inner, name) => {
            lay_out_type(inner, out);
            put_mark(out, TokenKind::Dot);
            put_name(out, name);
            assert(pieces_of(out@) =~= pieces_of(old(out)@) + type_pieces(ty@));
        },
        Type::Function(parameters, result) => {
            put_mark(out, TokenKind::Fn);
            put_mark(out, TokenKind::OpenParenthesis);
            lay_out_types(parameters, out);
            put_mark(out, TokenKind::CloseParenthesis);
            put_mark(out, TokenKind::Arrow);
            lay_out_type(result, out);
            assert(pieces_of(out@) =~= pieces_of(old(out)@) + type_pieces(ty@));
        },
    }
}

fn lay_out_types(types: &Vec<Type>, out: &mut Vec<Fragment>)
    ensures
        pieces_of(final(out)@) == pieces_of(old(out)@) + type_list_pieces(
            crate::ast::type_models(types@),
            0,
        ),
    decreases types,
{
    let ghost all = crate::ast::type_models(types@);
    let ghost start = pieces_of(out@);
    let mut i: usize = 0;
    assert(pieces_of(out@) + type_list_pieces(all, 0) == start + type_list_pieces(all, 0));
    while i < types.len()
        invariant
            i <= types@.len(),
            all == crate::ast::type_models(types@),
            pieces_of(out@) + type_list_pieces(all, i as int) == start + type_list_pieces(all, 0),
        decreases types@.len() - i,
    {
        let ghost before = pieces_of(out@);
        lay_out_type(&types[i], out);
        put_mark(out, TokenKind::Comma);
        assert(pieces_of(out@) + type_list_pieces(all, i + 1) =~= before + type_list_pieces(
            all,
            i as int,
        ));
        i += 1;
    }
    assert(pieces_of(out@) =~= pieces_of(out@) + type_list_pieces(all, i as int));
}

fn binary_kind_of(operator: &BinaryOperator) -> (r: TokenKind)
    ensures
        r == binary_kind(*operator),
{
    match operator {
        BinaryOperator::Plus => TokenKind::Plus,
        BinaryOperator::Minus => TokenKind::Minus,
        BinaryOperator::Asterisk => TokenKind::Asterisk,
        BinaryOperator::Slash => TokenKind::Slash,
        BinaryOperator::Percent => TokenKind::Percent,
        BinaryOperator::EqualsEquals => TokenKind::EqualsEquals,
        BinaryOperator::BangEquals => TokenKind::BangEquals,
        BinaryOperator::LessThan => TokenKind::LessThan,
        BinaryOperator::LessThanEquals => TokenKind::LessThanEquals,
        BinaryOperator::GreaterThan => TokenKind::GreaterThan,
        BinaryOperator::GreaterThanEquals => TokenKind::GreaterThanEquals,
        BinaryOperator::And => TokenKind::And,
        BinaryOperator::Or => TokenKind::Or,
    }
}

fn lay_out_wrapped(e: &Expression, out: &mut Vec<Fragment>)
    ensures
        pieces_of(final(out)@) == pieces_of(old(out)@) + wrapped(expression_pieces(e@)),
    decreases e, 1nat,
{
    put_mark(out, TokenKind::OpenParenthesis);
    lay_out_expression(e, out);
    put_mark(out, TokenKind::CloseParenthesis);
    assert(pieces_of(out@) =~= pieces_of(old(out)@) + wrapped(expression_pieces(e@)));
}

/// Lays out an expression.
pub fn lay_out_expression(e: &Expression, out: &mut Vec<Fragment>)
    ensures
        pieces_of(final(out)@) == pieces_of(old(out)@) + expression_pieces(e@),
    decreases e, 0nat,
{
    match e {
        Expression::Identifier(name) => put_name(out, name),
        Expression::String(text) => {
            put(out, TokenKind::String, text.0.clone());
            assert(pieces_of(out@) =~= pieces_of(old(out)@) + expression_pieces(e@));
        },
        Expression::Character(c) => {
            let mut text = String::new();
            text.push(c.0);
            assert(text@ =~= seq![c.0]);
            put(out, TokenKind::Character, text);
            assert(pieces_of(out@) =~= pieces_of(old(out)@) + expression_pieces(e@));
        },
        Expression::Integer(n) => {
            put(out, TokenKind::Integer, integer_text(n.0));
            assert(pieces_of(out@) =~= pieces_of(old(out)@) + expression_pieces(e@));
        },
        Expression::FloatingPoint(text) => {
            put(out, TokenKind::FloatingPoint, text.0.clone());
            assert(pieces_of(out@) =~= pieces_of(old(out)@) + expression_pieces(e@));
        },
        Expression::Boolean(b) => {
            put(
                out,
                TokenKind::Boolean,
                String::from_str(
                    if b.0 {
                        "true"
                    } else {
                        "false"
                    },
                ),
            );
            assert(pieces_of(out@) =~= pieces_of(old(out)@) + expression_pieces(e@));
        },
        Expression::Binary(lhs, operator, rhs) => {
            lay_out_wrapped(lhs, out);
            put_mark(out, binary_kind_of(operator));
            lay_out_wrapped(rhs, out);
            assert(pieces_of(out@) =~= pieces_of(old(out)@) + expression_pieces(e@));
        },
        Expression::Unary(operator, operand) => {
            match operator {
                UnaryOperator::Plus => put_mark(out, TokenKind::Plus),
                UnaryOperator::Minus => put_mark(out, TokenKind::Minus),
                UnaryOperator::Bang => put_mark(out, TokenKind::Bang),
                UnaryOperator::AddressOf => put_mark(out, TokenKind::Ampersand),
                UnaryOperator::MutableAddressOf => {
                    put_mark(out, TokenKind::Ampersand);
                    put_mark(out, TokenKind::Mut);
                },
            }
            assert(pieces_of(out@) =~= pieces_of(old(out)@) + unary_pieces(*operator));
            lay_out_wrapped(operand, out);
            assert(pieces_of(out@) =~= pieces_of(old(out)@) + expression_pieces(e@));
        },
        Expression::Call(callee, arguments) => {
            lay_out_wrapped(callee, out);
            put_mark(out, TokenKind::OpenParenthesis);
            lay_out_expressions(arguments, out);
            put_mark(out, TokenKind::CloseParenthesis);
            assert(pieces_of(out@) =~= pieces_of(old(out)@) + expression_pieces(e@));
        },
        Expression::Index(base, index) => {
            lay_out_wrapped(base, out);
            put_mark(out, TokenKind::OpenBracket);
            lay_out_expression(index, out);
            put_mark(out, TokenKind::CloseBracket);
            assert(pieces_of(out@) =~= pieces_of(old(out)@) + expression_pieces(e@));
        },
        Expression::Member(base, name) => {
            lay_out_wrapped(base, out);
            put_mark(out, TokenKind::Dot);
            put_name(out, name);
            assert(pieces_of(out@) =~= pieces_of(old(out)@) + expression_pieces(e@));
        },
        Expression::Assignment(target, value) => {
            lay_out_wrapped(target, out);
            put_mark(out, TokenKind::Equals);
            lay_out_wrapped(value, out);
            assert(pieces_of(out@) =~= pieces_of(old(out)@) + expression_pieces(e@));
        },
        Expression::StructLiteral(ty, fields) => {
            lay_out_wrapped(ty, out);
            put_mark(out, TokenKind::OpenBrace);
            lay_out_initializers(fields, out);
            put_mark(out, TokenKind::CloseBrace);
            assert(pieces_of(out@) =~= pieces_of(old(out)@) + expression_pieces(e@));
        },
        Expression::ArrayLiteral(elements) => {
            put_mark(out, TokenKind::OpenBracket);
            lay_out_expressions(elements, out);
            put_mark(out, TokenKind::CloseBracket);
            assert(pieces_of(out@) =~= pieces_of(old(out)@) + expression_pieces(e@));
        },
    }
}

fn lay_out_expressions(items: &Vec<Expression>, out: &mut Vec<Fragment>)
    ensures
        pieces_of(final(out)@) == pieces_of(old(out)@) + expression_list_pieces(
            crate::ast::expression_models(items@),
            0,
        ),
    decreases items,
{
    let ghost all = crate::ast::expression_models(items@);
    let ghost start = pieces_of(out@);
    let mut i: usize = 0;
    while i < items.len()
        invariant
            i <= items@.len(),
            all == crate::ast::expression_models(items@),
            pieces_of(out@) + expression_list_pieces(all, i as int) == start
                + expression_list_pieces(all, 0),
        decreases items@.len() - i,
    {
        let ghost before = pieces_of(out@);
        lay_out_expression(&items[i], out);
        put_mark(out, TokenKind::Comma);
        assert(pieces_of(out@) + expression_list_pieces(all, i + 1) =~= before
            + expression_list_pieces(all, i as int));
        i += 1;
    }
    assert(pieces_of(out@) =~= pieces_of(out@) + expression_list_pieces(all, i as int));
}

fn lay_out_initializers(fields: &Vec<(Option<SpannedString>, Expression)>, out: &mut Vec<Fragment>)
    ensures
        pieces_of(final(out)@) == pieces_of(old(out)@) + initializer_pieces(
            crate::ast::initializer_models(fields@),
            0,
        ),
    decreases fields,
{
    let ghost all = crate::ast::initializer_models(fields@);
    let ghost start = pieces_of(out@);
    let mut i: usize = 0;
    while i < fields.len()
        invariant
            i <= fields@.len(),
            all == crate::ast::initializer_models(fields@),
            pieces_of(out@) + initializer_pieces(all, i as int) == start + initializer_pieces(
                all,
                0,
            ),
        decreases fields@.len() - i,
    {
        let ghost before = pieces_of(out@);
        match &fields[i].0 {
            Some(name) => put_name(out, name),
            None => {},
        }
        assert(pieces_of(out@) =~= before + optional_name_pieces(all[i as int].0));
        put_mark(out, TokenKind::Equals);
        lay_out_expression(&fields[i].1, out);
        put_mark(out, TokenKind::Comma);
        assert(pieces_of(out@) + initializer_pieces(all, i + 1) =~= before + initializer_pieces(
            all,
            i as int,
        ));
        i += 1;
    }
    assert(pieces_of(out@) =~= pieces_of(out@) + initializer_pieces(all, i as int));
}

fn lay_out_typed_names(fields: &Vec<(SpannedString, Type)>, out: &mut Vec<Fragment>)
    ensures
        pieces_of(final(out)@) == pieces_of(old(out)@) + typed_name_pieces(
            crate::ast::field_models(fields@),
            0,
        ),
{
    let ghost all = crate::ast::field_models(fields@);
    let ghost start = pieces_of(out@);
    let mut i: usize = 0;
    while i < fields.len()
        invariant
            i <= fields@.len(),
            all == crate::ast::field_models(fields@),
            pieces_of(out@) + typed_name_pieces(all, i as int) == start + typed_name_pieces(all, 0),
        decreases fields@.len() - i,
    {
        let ghost before = pieces_of(out@);
        put_name(out, &fields[i].0);
        put_mark(out, TokenKind::Colon);
        lay_out_type(&fields[i].1, out);
        put_mark(out, TokenKind::Comma);
        assert(pieces_of(out@) + typed_name_pieces(all, i + 1) =~= before + typed_name_pieces(
            all,
            i as int,
        ));
        i += 1;
    }
    assert(pieces_of(out@) =~= pieces_of(out@) + typed_name_pieces(all, i as int));
}

fn lay_out_annotation(before: TokenKind, ty: &Option<Type>, out: &mut Vec<Fragment>)
    ensures
        pieces_of(final(out)@) == pieces_of(old(out)@) + annotation_pieces(
            before,
            crate::ast::optional_type_model(*ty),
        ),
{
    match ty {
        Some(ty) => {
            put_mark(out, before);
            lay_out_type(ty, out);
            assert(pieces_of(out@) =~= pieces_of(old(out)@) + annotation_pieces(
                before,
                Some(ty@),
            ));
        },
        None => {
            assert(pieces_of(out@) =~= pieces_of(old(out)@) + Seq::<Piece>::empty());
        },
    }
}

/// Lays out a statement.
pub fn lay_out_statement(s: &Statement, out: &mut Vec<Fragment>)
    ensures
        pieces_of(final(out)@) == pieces_of(old(out)@) + statement_pieces(s@),
    decreases s,
{
    match s {
        Statement::Block(items) => {
            put_mark(out, TokenKind::OpenBrace);
            let ghost all = crate::ast::statement_models(items@);
            let ghost start = pieces_of(out@);
            let mut i: usize = 0;
            while i < items.len()
                invariant
                    i <= items@.len(),
                    decreases_to!(s => items),
                    all == crate::ast::statement_models(items@),
                    pieces_of(out@) + block_pieces(all, i as int) == start + block_pieces(all, 0),
                decreases items@.len() - i,
            {
                let ghost before = pieces_of(out@);
                lay_out_statement(&items[i], out);
                put_mark(out, TokenKind::Semicolon);
                assert(pieces_of(out@) + block_pieces(all, i + 1) =~= before + block_pieces(
                    all,
                    i as int,
                ));
                i += 1;
            }
            assert(pieces_of(out@) =~= pieces_of(out@) + block_pieces(all, i as int));
            put_mark(out, TokenKind::CloseBrace);
            assert(pieces_of(out@) =~= pieces_of(old(out)@) + statement_pieces(s@));
        },
        Statement::Import(name) => {
            put_mark(out, TokenKind::Import);
            put_name(out, name);
            assert(pieces_of(out@) =~= pieces_of(old(out)@) + statement_pieces(s@));
        },
        Statement::Struct { spanned_id, generic_parameters, fields } => {
            put_mark(out, TokenKind::Struct);
            put_name(out, spanned_id);
            put_mark(out, TokenKind::OpenBrace);
            lay_out_typed_names(fields, out);
            put_mark(out, TokenKind::CloseBrace);
            assert(pieces_of(out@) =~= pieces_of(old(out)@) + statement_pieces(s@));
        },
        Statement::Function(name, parameters, result, body) => {
            put_mark(out, TokenKind::Fn);
            put_name(out, name);
            put_mark(out, TokenKind::OpenParenthesis);
            lay_out_typed_names(parameters, out);
            put_mark(out, TokenKind::CloseParenthesis);
            lay_out_annotation(TokenKind::Arrow, result, out);
            lay_out_statement(body, out);
            assert(pieces_of(out@) =~= pieces_of(old(out)@) + statement_pieces(s@));
        },
        Statement::Variable(name, ty, value) => {
            put_mark(out, TokenKind::Var);
            put_name(out, name);
            lay_out_annotation(TokenKind::Colon, ty, out);
            put_mark(out, TokenKind::Equals);
            lay_out_expression(value, out);
            put_mark(out, TokenKind::Semicolon);
            assert(pieces_of(out@) =~= pieces_of(old(out)@) + statement_pieces(s@));
        },
        Statement::Constant(name, ty, value) => {
            put_mark(out, TokenKind::Const);
            put_name(out, name);
            lay_out_annotation(TokenKind::Colon, ty, out);
            put_mark(out, TokenKind::Equals);
            lay_out_expression(value, out);
            put_mark(out, TokenKind::Semicolon);
            assert(pieces_of(out@) =~= pieces_of(old(out)@) + statement_pieces(s@));
        },
        Statement::For(name, range, body) => {
            put_mark(out, TokenKind::For);
            put_mark(out, TokenKind::OpenParenthesis);
            put_name(out, name);
            put_mark(out, TokenKind::In);
            lay_out_expression(range, out);
            put_mark(out, TokenKind::CloseParenthesis);
            lay_out_statement(body, out);
            assert(pieces_of(out@) =~= pieces_of(old(out)@) + statement_pieces(s@));
        },
        Statement::Return(value) => {
            put_mark(out, TokenKind::Return);
            match value {
                Some(e) => {
                    lay_out_expression(e, out);
                },
                None => {},
            }
            assert(pieces_of(out@) =~= pieces_of(old(out)@) + statement_pieces(s@));
        },
        Statement::Expression(e) => {
            lay_out_wrapped(e, out);
            put_mark(out, TokenKind::Semicolon);
            assert(pieces_of(out@) =~= pieces_of(old(out)@) + statement_pieces(s@));
        },
        Statement::Enum { .. } => {
            assert(pieces_of(out@) =~= pieces_of(old(out)@) + statement_pieces(s@));
        },
        Statement::Union { .. } => {
            assert(pieces_of(out@) =~= pieces_of(old(out)@) + statement_pieces(s@));
        },
        Statement::Garbage(_) => {
            assert(pieces_of(out@) =~= pieces_of(old(out)@) + statement_pieces(s@));
        },
    }
}

/// Lays out the statements of a unit.
pub fn lay_out_program(statements: &Vec<Statement>) -> (r: Vec<Fragment>)
    ensures
        pieces_of(r@) == program_pieces(crate::ast::statement_models(statements@), 0),
{
    let mut out: Vec<Fragment> = Vec::new();
    let ghost all = crate::ast::statement_models(statements@);
    assert(pieces_of(out@) =~= Seq::<Piece>::empty());
    let mut i: usize = 0;
    while i < statements.len()
        invariant
            i <= statements@.len(),
            all == crate::ast::statement_models(statements@),
            pieces_of(out@) + program_pieces(all, i as int) == program_pieces(all, 0),
        decreases statements@.len() - i,
    {
        let ghost before = pieces_of(out@);
        lay_out_statement(&statements[i], &mut out);
        assert(pieces_of(out@) + program_pieces(all, i + 1) =~= before + program_pieces(
            all,
            i as int,
        ));
        i += 1;
    }
    assert(pieces_of(out@) =~= pieces_of(out@) + program_pieces(all, i as int));
    out
}

fn push_escaped(out: &mut String, text: &str, quote: char)
    ensures
        final(out)@ == old(out)@ + escaped(text@, quote),
{
    let chars = crate::text::chars_of(text);
    let mut i: usize = 0;
    assert(chars@.take(0) =~= Seq::<char>::empty());
    assert(out@ =~= old(out)@ + escaped(chars@.take(0), quote));
    while i < chars.len()
        invariant
            i <= chars@.len(),
            chars@ == text@,
            out@ == old(out)@ + escaped(chars@.take(i as int), quote),
        decreases chars@.len() - i,
    {
        let c = chars[i];
        let ghost before = out@;
        proof {
            let next = chars@.take(i + 1);
            assert(next.drop_last() =~= chars@.take(i as int));
            assert(next.last() == c);
        }
        if c == '\n' {
            out.push('\\');
            out.push('n');
        } else if c == '\r' {
            out.push('\\');
            out.push('r');
        } else if c == '\t' {
            out.push('\\');
            out.push('t');
        } else if c == '\\' {
            out.push('\\');
            out.push('\\');
        } else if c == quote {
            out.push('\\');
            out.push(quote);
        } else {
            out.push(c);
        }
        assert(out@ =~= before + escaped_char(c, quote));
        i += 1;
        assert(out@ =~= old(out)@ + escaped(chars@.take(i as int), quote));
    }
    assert(chars@.take(i as int) =~= chars@);
}

/// Writes the source text of laid out pieces: each piece, then a blank.
pub fn write_pieces(fragments: &Vec<Fragment>) -> (r: String)
    ensures
        r@ == pieces_text(pieces_of(fragments@)),
{
    let mut out = String::new();
    let ghost all = pieces_of(fragments@);
    let mut i: usize = 0;
    assert(all.take(0) =~= Seq::<Piece>::empty());
    while i < fragments.len()
        invariant
            i <= fragments@.len(),
            all == pieces_of(fragments@),
            out@ == pieces_text(all.take(i as int)),
        decreases fragments@.len() - i,
    {
        let ghost before = out@;
        proof {
            let next = all.take(i + 1);
            assert(next.drop_last() =~= all.take(i as int));
            assert(next.last() == fragments@[i as int]@);
        }
        let fragment = &fragments[i];
        match fragment.kind {
            TokenKind::String => {
                out.push('"');
                push_escaped(&mut out, fragment.lexeme.as_str(), '"');
                out.push('"');
                assert(out@ =~= before + piece_text(fragment@));
            },
            TokenKind::Character => {
                out.push('\'');
                push_escaped(&mut out, fragment.lexeme.as_str(), '\'');
                out.push('\'');
                assert(out@ =~= before + piece_text(fragment@));
            },
            _ => {
                out.append(fragment.lexeme.as_str());
            },
        }
        out.push(' ');
        i += 1;
        assert(out@ =~= pieces_text(all.take(i as int)));
    }
    assert(all.take(i as int) =~= all);
    out
}

/// Prints the statements of a unit as source text.
pub fn print_program(statements: &Vec<Statement>) -> (r: String)
    ensures
        r@ == program_text(crate::ast::statement_models(statements@)),
{
    let fragments = lay_out_program(statements);
    write_pieces(&fragments)
}

} // verus!
