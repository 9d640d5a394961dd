//! Trees without their spans, and the trees that the printer can write so
//! that the parser reads them back.

use crate::ast::{ExpressionView, NameView, StatementView, TypeView};
use crate::grammar::origin;
use crate::span::SpanView;
use vstd::prelude::*;

verus! {

/// The span that stands for no place.
pub open spec fn nowhere() -> SpanView {
    origin(Seq::empty())
}

/// A name without its span.
pub open spec fn bare_name(name: NameView) -> NameView {
    (name.0, nowhere())
}

/// A type without its spans.
pub open spec fn bare_type(ty: TypeView) -> TypeView
    decreases ty,
{
    match ty {
        TypeView::Reference(inner) => TypeView::Reference(Box::new(bare_type(*inner))),
        TypeView::MutableReference(inner) => TypeView::MutableReference(
            Box::new(bare_type(*inner)),
        ),
        TypeView::Identifier(name) => TypeView::Identifier(bare_name(name)),
        TypeView::Polymorphic(name, arguments) => TypeView::Polymorphic(
            bare_name(name),
            bare_types(arguments),
        ),
        TypeView::Member(inner, name) => TypeView::Member(
            Box::new(bare_type(*inner)),
            bare_name(name),
        ),
        TypeView::Function(parameters, result) => TypeView::Function(
            bare_types(parameters),
            Box::new(bare_type(*result)),
        ),
        _ => ty,
    }
}

/// The types of a sequence without their spans.
pub open spec fn bare_types(types: Seq<TypeView>) -> Seq<TypeView>
    decreases types,
{
    Seq::new(
        types.len(),
        |i: int|
            if 0 <= i < types.len() {
                bare_type(types[i])
            } else {
                TypeView::Integer
            },
    )
}

/// Whether a type ends with the result of a function type, so that a
/// member step written after it would belong to that result.
pub open spec fn ends_in_function(ty: TypeView) -> bool
    decreases ty,
{
    match ty {
        TypeView::Function(_, _) => true,
        TypeView::Reference(inner) => ends_in_function(*inner),
        TypeView::MutableReference(inner) => ends_in_function(*inner),
        _ => false,
    }
}

/// Whether a type can be written without member steps at its top: as a
/// primitive type, a name with or without arguments, a function type, or
/// a reference to such a type.
pub open spec fn reference_shaped(ty: TypeView) -> bool
    decreases ty, 0nat,
{
    match ty {
        TypeView::Integer => true,
        TypeView::FloatingPoint => true,
        TypeView::Boolean => true,
        TypeView::Character => true,
        TypeView::Identifier(_) => true,
        TypeView::Polymorphic(_, arguments) => types_shaped(arguments, 0),
        TypeView::Function(parameters, result) => types_shaped(parameters, 0) && type_shaped(
            *result,
        ),
        TypeView::Reference(inner) => reference_shaped(*inner),
        TypeView::MutableReference(inner) => reference_shaped(*inner),
        TypeView::Member(_, _) => false,
        TypeView::UnsignedInteger => false,
    }
}

/// Whether a type can be written in the grammar: a type without member
/// steps at its top, or a member of a type that does not end in a function
/// type.
pub open spec fn type_shaped(ty: TypeView) -> bool
    decreases ty, 1nat,
{
    match ty {
        TypeView::Member(inner, _) => type_shaped(*inner) && !ends_in_function(*inner),
        _ => reference_shaped(ty),
    }
}

/// Whether the types of `types` from `from` on can be written in the
/// grammar.
pub open spec fn types_shaped(types: Seq<TypeView>, from: int) -> bool
    decreases types, types.len() - from,
{
    if from < 0 || from >= types.len() {
        true
    } else {
        type_shaped(types[from]) && types_shaped(types, from + 1)
    }
}

/// An optional name without its span.
pub open spec fn bare_optional_name(name: Option<NameView>) -> Option<NameView> {
    match name {
        Some(name) => Some(bare_name(name)),
        None => None,
    }
}

/// An expression without its spans.
pub open spec fn bare_expression(e: ExpressionView) -> ExpressionView
    decreases e,
{
    match e {
        ExpressionView::Identifier(name) => ExpressionView::Identifier(bare_name(name)),
        ExpressionView::String(text) => ExpressionView::String(bare_name(text)),
        ExpressionView::Character(c) => ExpressionView::Character((c.0, nowhere())),
        ExpressionView::Integer(n) => ExpressionView::Integer((n.0, nowhere())),
        ExpressionView::FloatingPoint(text) => ExpressionView::FloatingPoint(bare_name(text)),
        ExpressionView::Boolean(b) => ExpressionView::Boolean((b.0, nowhere())),
        ExpressionView::Binary(lhs, operator, rhs) => ExpressionView::Binary(
            Box::new(bare_expression(*lhs)),
            operator,
            Box::new(bare_expression(*rhs)),
        ),
        ExpressionView::Unary(operator, operand) => ExpressionView::Unary(
            operator,
            Box::new(bare_expression(*operand)),
        ),
        ExpressionView::Call(callee, arguments) => ExpressionView::Call(
            Box::new(bare_expression(*callee)),
            bare_expressions(arguments),
        ),
        ExpressionView::Index(base, index) => ExpressionView::Index(
            Box::new(bare_expression(*base)),
            Box::new(bare_expression(*index)),
        ),
        ExpressionView::Member(base, name) => ExpressionView::Member(
            Box::new(bare_expression(*base)),
            bare_name(name),
        ),
        ExpressionView::Assignment(target, value) => ExpressionView::Assignment(
            Box::new(bare_expression(*target)),
            Box::new(bare_expression(*value)),
        ),
        ExpressionView::StructLiteral(ty, fields) => ExpressionView::StructLiteral(
            Box::new(bare_expression(*ty)),
            bare_initializers(fields),
        ),
        ExpressionView::ArrayLiteral(elements) => ExpressionView::ArrayLiteral(
            bare_expressions(elements),
        ),
    }
}

/// The expressions of a sequence without their spans.
pub open spec fn bare_expressions(items: Seq<ExpressionView>) -> Seq<ExpressionView>
    decreases items,
{
    Seq::new(
        items.len(),
        |i: int|
            if 0 <= i < items.len() {
                bare_expression(items[i])
            } else {
                ExpressionView::ArrayLiteral(Seq::empty())
            },
    )
}

/// The field initializers of a sequence without their spans.
pub open spec fn bare_initializers(fields: Seq<(Option<NameView>, ExpressionView)>) -> Seq<
    (Option<NameView>, ExpressionView),
>
    decreases fields,
{
    Seq::new(
        fields.len(),
        |i: int|
            if 0 <= i < fields.len() {
                (bare_optional_name(fields[i].0), bare_expression(fields[i].1))
            } else {
                (None, ExpressionView::ArrayLiteral(Seq::empty()))
            },
    )
}

/// Whether an expression can be written in the grammar: no integer
/// literal in it is negative, since a minus sign is an operator.
pub open spec fn expression_shaped(e: ExpressionView) -> bool
    decreases e, 0nat,
{
    match e {
        ExpressionView::Integer(n) => n.0 >= 0,
        ExpressionView::Binary(lhs, _, rhs) => expression_shaped(*lhs) && expression_shaped(*rhs),
        ExpressionView::Unary(_, operand) => expression_shaped(*operand),
        ExpressionView::Call(callee, arguments) => expression_shaped(*callee)
            && expressions_shaped(arguments, 0),
        ExpressionView::Index(base, index) => expression_shaped(*base) && expression_shaped(
            *index,
        ),
        ExpressionView::Member(base, _) => expression_shaped(*base),
        ExpressionView::Assignment(target, value) => expression_shaped(*target)
            && expression_shaped(*value),
        ExpressionView::StructLiteral(ty, fields) => expression_shaped(*ty)
            && initializers_shaped(fields, 0),
        ExpressionView::ArrayLiteral(elements) => expressions_shaped(elements, 0),
        _ => true,
    }
}

/// Whether the expressions of `items` from `from` on can be written in the
/// grammar.
pub open spec fn expressions_shaped(items: Seq<ExpressionView>, from: int) -> bool
    decreases items, items.len() - from,
{
    if from < 0 || from >= items.len() {
        true
    } else {
        expression_shaped(items[from]) && expressions_shaped(items, from + 1)
    }
}

/// Whether the values of the field initializers of `fields` from `from`
/// on can be written in the grammar.
pub open spec fn initializers_shaped(
    fields: Seq<(Option<NameView>, ExpressionView)>,
    from: int,
) -> bool
    decreases fields, fields.len() - from,
{
    if from < 0 || from >= fields.len() {
        true
    } else {
        expression_shaped(fields[from].1) && initializers_shaped(fields, from + 1)
    }
}

/// An optional type without its spans.
pub open spec fn bare_optional_type(ty: Option<TypeView>) -> Option<TypeView> {
    match ty {
        Some(ty) => Some(bare_type(ty)),
        None => None,
    }
}

/// An optional expression without its spans.
pub open spec fn bare_optional_expression(e: Option<ExpressionView>) -> Option<ExpressionView> {
    match e {
        Some(e) => Some(bare_expression(e)),
        None => None,
    }
}

/// The names of a sequence without their spans.
pub open spec fn bare_names(names: Seq<NameView>) -> Seq<NameView> {
    Seq::new(names.len(), |i: int| bare_name(names[i]))
}

/// The typed names of a sequence without their spans.
pub open spec fn bare_typed_names(fields: Seq<(NameView, TypeView)>) -> Seq<(NameView, TypeView)> {
    Seq::new(fields.len(), |i: int| (bare_name(fields[i].0), bare_type(fields[i].1)))
}

/// The variants of an enumeration without their spans.
pub open spec fn bare_variants(variants: Seq<(NameView, Option<ExpressionView>)>) -> Seq<
    (NameView, Option<ExpressionView>),
> {
    Seq::new(
        variants.len(),
        |i: int| (bare_name(variants[i].0), bare_optional_expression(variants[i].1)),
    )
}

/// The members of a union without their spans.
pub open spec fn bare_members(members: Seq<(Option<NameView>, TypeView)>) -> Seq<
    (Option<NameView>, TypeView),
> {
    Seq::new(
        members.len(),
        |i: int| (bare_optional_name(members[i].0), bare_type(members[i].1)),
    )
}

/// A statement without its spans.
pub open spec fn bare_statement(s: StatementView) -> StatementView
    decreases s,
{
    match s {
        StatementView::Block(items) => StatementView::Block(bare_statements(items)),
        StatementView::Import(name) => StatementView::Import(bare_name(name)),
        StatementView::Struct { spanned_id, generic_parameters, fields } => StatementView::Struct {
            spanned_id: bare_name(spanned_id),
            generic_parameters: bare_names(generic_parameters),
            fields: bare_typed_names(fields),
        },
        StatementView::Enum {
            spanned_id,
            generic_parameters,
            base_type,
            variants,
        } => StatementView::Enum {
            spanned_id: bare_name(spanned_id),
            generic_parameters: bare_names(generic_parameters),
            base_type: bare_optional_type(base_type),
            variants: bare_variants(variants),
        },
        StatementView::Union {
            spanned_id,
            generic_parameters,
            tagged,
            variants,
        } => StatementView::Union {
            spanned_id: bare_name(spanned_id),
            generic_parameters: bare_names(generic_parameters),
            tagged,
            variants: bare_members(variants),
        },
        StatementView::Function(name, parameters, result, body) => StatementView::Function(
            bare_name(name),
            bare_typed_names(parameters),
            bare_optional_type(result),
            Box::new(bare_statement(*body)),
        ),
        StatementView::Variable(name, ty, value) => StatementView::Variable(
            bare_name(name),
            bare_optional_type(ty),
            bare_expression(value),
        ),
        StatementView::Constant(name, ty, value) => StatementView::Constant(
            bare_name(name),
            bare_optional_type(ty),
            bare_expression(value),
        ),
        StatementView::For(name, range, body) => StatementView::For(
            bare_name(name),
            bare_expression(range),
            Box::new(bare_statement(*body)),
        ),
        StatementView::Return(value) => StatementView::Return(bare_optional_expression(value)),
        StatementView::Expression(e) => StatementView::Expression(bare_expression(e)),
        StatementView::Garbage(_) => StatementView::Garbage(nowhere()),
    }
}

/// The statements of a sequence without their spans.
pub open spec fn bare_statements(items: Seq<StatementView>) -> Seq<StatementView>
    decreases items,
{
    Seq::new(
        items.len(),
        |i: int|
            if 0 <= i < items.len() {
                bare_statement(items[i])
            } else {
                StatementView::Garbage(nowhere())
            },
    )
}

/// Whether the types of the typed names of `fields` from `from` on can be
/// written in the grammar.
pub open spec fn typed_names_shaped(fields: Seq<(NameView, TypeView)>, from: int) -> bool
    decreases fields.len() - from,
{
    if from < 0 || from >= fields.len() {
        true
    } else {
        type_shaped(fields[from].1) && typed_names_shaped(fields, from + 1)
    }
}

/// Whether an optional type can be written in the grammar.
pub open spec fn optional_type_shaped(ty: Option<TypeView>) -> bool {
    match ty {
        Some(ty) => type_shaped(ty),
        None => true,
    }
}

/// Whether a statement can be written in the grammar: it is no
/// enumeration, no union and no garbage, a struct has no generic
/// parameters, and the types and expressions in it can be written.
pub open spec fn statement_shaped(s: StatementView) -> bool
    decreases s, 0nat,
{
    match s {
        StatementView::Block(items) => statements_shaped(items, 0),
        StatementView::Import(_) => true,
        StatementView::Struct { generic_parameters, fields, .. } => generic_parameters.len() == 0
            && typed_names_shaped(fields, 0),
        StatementView::Function(_, parameters, result, body) => typed_names_shaped(parameters, 0)
            && optional_type_shaped(result) && statement_shaped(*body),
        StatementView::Variable(_, ty, value) => optional_type_shaped(ty) && expression_shaped(
            value,
        ),
        StatementView::Constant(_, ty, value) => optional_type_shaped(ty) && expression_shaped(
            value,
        ),
        StatementView::For(_, range, body) => expression_shaped(range) && statement_shaped(*body),
        StatementView::Return(value) => match value {
            Some(e) => expression_shaped(e),
            None => true,
        },
        StatementView::Expression(e) => expression_shaped(e),
        StatementView::Enum { .. } => false,
        StatementView::Union { .. } => false,
        StatementView::Garbage(_) => false,
    }
}

/// Whether the statements of `items` from `from` on can be written in the
/// grammar.
pub open spec fn statements_shaped(items: Seq<StatementView>, from: int) -> bool
    decreases items, items.len() - from,
{
    if from < 0 || from >= items.len() {
        true
    } else {
        statement_shaped(items[from]) && statements_shaped(items, from + 1)
    }
}

/// What a statement asks of the token after it.
pub enum Need {
    /// Nothing: the statement ends with a token of its own.
    Nothing,
    /// The statement ends with an expression, which the next token must
    /// not continue.
    Stop,
    /// The statement ends with `return`, which only a semicolon keeps from
    /// taking what follows as its value.
    Semicolon,
}

/// What a statement asks of the token after it.
pub open spec fn need_of(s: StatementView) -> Need
    decreases s,
{
    match s {
        StatementView::Return(value) => match value {
            Some(_) => Need::Stop,
            None => Need::Semicolon,
        },
        StatementView::Function(_, _, _, body) => need_of(*body),
        StatementView::For(_, _, body) => need_of(*body),
        _ => Need::Nothing,
    }
}

/// Whether a statement begins with a keyword.
pub open spec fn begins_with_keyword(s: StatementView) -> bool {
    s is Import || s is Struct || s is Function || s is Variable || s is Constant || s is For
        || s is Return
}

/// Whether a statement can end a unit: it is the garbage that stands for
/// the end of the text, or a function or a loop whose body can end a unit.
pub open spec fn closing(s: StatementView) -> bool
    decreases s,
{
    match s {
        StatementView::Garbage(_) => true,
        StatementView::Function(_, parameters, result, body) => typed_names_shaped(
            parameters,
            0,
        ) && optional_type_shaped(result) && closing(*body),
        StatementView::For(_, range, body) => expression_shaped(range) && closing(*body),
        _ => false,
    }
}

/// Whether the statements of a unit from `from` on can be written one
/// after another: the last can end a unit, and each of the others can be
/// written in the grammar, does not end with a bare `return`, and, if it
/// ends with an expression, stands before a statement that begins with a
/// keyword or before the garbage at the end.
pub open spec fn unit_shaped(statements: Seq<StatementView>, from: int) -> bool
    decreases statements.len() - from,
{
    if from < 0 || from >= statements.len() {
        false
    } else if from == statements.len() - 1 {
        closing(statements[from])
    } else {
        &&& statement_shaped(statements[from])
        &&& match need_of(statements[from]) {
            Need::Nothing => true,
            Need::Stop => begins_with_keyword(statements[from + 1]) || statements[from + 1]
                is Garbage,
            Need::Semicolon => false,
        }
        &&& unit_shaped(statements, from + 1)
    }
}

} // verus!
