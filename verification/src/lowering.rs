//! What code generation writes, as functions from the syntax tree to text.
//!
//! A unit becomes two texts of C++: an implementation unit, which holds
//! what is executed, and a declaration unit, which holds types and
//! prototypes. Lowering fails only where the checked type of an expression
//! is needed and a name in it was not declared.

use crate::ast::{
    BinaryOperator, ExpressionView, NameView, StatementView, TypeView, UnaryOperator,
};
use crate::checked::{checked_type, CheckedTypeView};
use crate::error::{ErrorKindView, ErrorView};
use crate::symbols::{kind_of, Declaration, SymbolType};
use crate::text::{concat, join, signed_decimal};
use vstd::prelude::*;

verus! {

/// The C++ text of a type.
pub open spec fn lower_type(ty: TypeView) -> Seq<char>
    decreases ty,
{
    match ty {
        TypeView::Integer => "int"@,
        TypeView::UnsignedInteger => "unsigned int"@,
        TypeView::FloatingPoint => "float"@,
        TypeView::Character => "char"@,
        TypeView::Boolean => "bool"@,
        TypeView::Reference(inner) => "const "@ + lower_type(*inner) + "&"@,
        TypeView::MutableReference(inner) => lower_type(*inner) + "&"@,
        TypeView::Function(parameters, result) => lower_type(*result) + "("@ + join(
            type_texts(parameters),
            ", "@,
        ) + ")"@,
        TypeView::Member(inner, name) => lower_type(*inner) + "::"@ + name.0,
        TypeView::Identifier(name) => name.0,
        TypeView::Polymorphic(name, arguments) => name.0 + "<"@ + join(
            type_texts(arguments),
            ", "@,
        ) + ">"@,
    }
}

/// The C++ texts of a sequence of types.
pub open spec fn type_texts(types: Seq<TypeView>) -> Seq<Seq<char>>
    decreases types,
{
    Seq::new(
        types.len(),
        |i: int|
            if 0 <= i < types.len() {
                lower_type(types[i])
            } else {
                Seq::empty()
            },
    )
}

/// How a binary operator is written in C++.
pub open spec fn binary_text(operator: BinaryOperator) -> Seq<char> {
    match operator {
        BinaryOperator::Plus => "+"@,
        BinaryOperator::Minus => "-"@,
        BinaryOperator::Asterisk => "*"@,
        BinaryOperator::Slash => "/"@,
        BinaryOperator::Percent => "%"@,
        BinaryOperator::EqualsEquals => "=="@,
        BinaryOperator::BangEquals => "!="@,
        BinaryOperator::LessThan => "<"@,
        BinaryOperator::LessThanEquals => "<="@,
        BinaryOperator::GreaterThan => ">"@,
        BinaryOperator::GreaterThanEquals => ">="@,
        BinaryOperator::And => "&&"@,
        BinaryOperator::Or => "||"@,
    }
}

/// The C++ text of `operand` under a prefix operator. Taking an address
/// writes nothing: a C++ reference binds to the operand itself.
pub open spec fn unary_text(operator: UnaryOperator, operand: Seq<char>) -> Seq<char> {
    match operator {
        UnaryOperator::Minus => "-"@ + operand,
        UnaryOperator::Bang => "!"@ + operand,
        UnaryOperator::Plus => "+"@ + operand,
        UnaryOperator::AddressOf => operand,
        UnaryOperator::MutableAddressOf => operand,
    }
}

/// What stands between an expression of checked type `base` and the name
/// of a member of it: `::` after an enumeration, `.` after anything else.
pub open spec fn member_separator(base: CheckedTypeView) -> Seq<char> {
    match base {
        CheckedTypeView::Enum(_) => "::"@,
        _ => "."@,
    }
}

/// The C++ text of an expression under the declarations `symbols`, or the
/// first error met, going from left to right.
pub open spec fn lower_expression(symbols: Seq<Declaration>, e: ExpressionView) -> Result<
    Seq<char>,
    ErrorView,
>
    decreases e, 0nat,
{
    match e {
        ExpressionView::Integer(n) => Ok(signed_decimal(n.0 as int)),
        ExpressionView::FloatingPoint(text) => Ok(text.0),
        ExpressionView::Character(c) => Ok(seq![c.0]),
        ExpressionView::String(text) => Ok("\""@ + text.0 + "\""@),
        ExpressionView::Boolean(b) => Ok(
            if b.0 {
                "true"@
            } else {
                "false"@
            },
        ),
        ExpressionView::Identifier(name) => Ok(name.0),
        ExpressionView::ArrayLiteral(elements) => match lower_list(
            symbols,
            elements,
            0,
            Seq::empty(),
        ) {
            Err(e) => Err(e),
            Ok(parts) => Ok("{"@ + join(parts, ", "@) + "}"@),
        },
        ExpressionView::StructLiteral(ty, fields) => match lower_expression(symbols, *ty) {
            Err(e) => Err(e),
            Ok(head) => match lower_values(symbols, fields, 0, Seq::empty()) {
                Err(e) => Err(e),
                Ok(parts) => Ok(head + "{"@ + join(parts, ", "@) + "}"@),
            },
        },
        ExpressionView::Call(callee, arguments) => match lower_expression(symbols, *callee) {
            Err(e) => Err(e),
            Ok(head) => match lower_list(symbols, arguments, 0, Seq::empty()) {
                Err(e) => Err(e),
                Ok(parts) => Ok(head + "("@ + join(parts, ", "@) + ")"@),
            },
        },
        ExpressionView::Member(base, name) => match lower_expression(symbols, *base) {
            Err(e) => Err(e),
            Ok(head) => match checked_type(symbols, *base) {
                Err(e) => Err(e),
                Ok(ty) => Ok(head + member_separator(ty) + name.0),
            },
        },
        ExpressionView::Unary(operator, operand) => match lower_expression(symbols, *operand) {
            Err(e) => Err(e),
            Ok(text) => Ok(unary_text(operator, text)),
        },
        ExpressionView::Binary(lhs, operator, rhs) => match lower_expression(symbols, *lhs) {
            Err(e) => Err(e),
            Ok(left) => match lower_expression(symbols, *rhs) {
                Err(e) => Err(e),
                Ok(right) => Ok(left + " "@ + binary_text(operator) + " "@ + right),
            },
        },
        ExpressionView::Index(base, index) => match lower_expression(symbols, *base) {
            Err(e) => Err(e),
            Ok(head) => match lower_expression(symbols, *index) {
                Err(e) => Err(e),
                Ok(inner) => Ok(head + "["@ + inner + "]"@),
            },
        },
        ExpressionView::Assignment(target, value) => match lower_expression(symbols, *target) {
            Err(e) => Err(e),
            Ok(left) => match lower_expression(symbols, *value) {
                Err(e) => Err(e),
                Ok(right) => Ok(left + " = "@ + right),
            },
        },
    }
}

/// The C++ texts of the expressions of `items` from `k` on, after those of
/// `done`; or the first error.
pub open spec fn lower_list(
    symbols: Seq<Declaration>,
    items: Seq<ExpressionView>,
    k: int,
    done: Seq<Seq<char>>,
) -> Result<Seq<Seq<char>>, ErrorView>
    decreases items, items.len() - k,
{
    if k < 0 || k >= items.len() {
        Ok(done)
    } else {
        match lower_expression(symbols, items[k]) {
            Err(e) => Err(e),
            Ok(text) => lower_list(symbols, items, k + 1, done.push(text)),
        }
    }
}

/// The C++ texts of the values of the field initializers `fields` from `k`
/// on, after those of `done`; or the first error. The names of the fields
/// are not written: the values are taken by position.
pub open spec fn lower_values(
    symbols: Seq<Declaration>,
    fields: Seq<(Option<NameView>, ExpressionView)>,
    k: int,
    done: Seq<Seq<char>>,
) -> Result<Seq<Seq<char>>, ErrorView>
    decreases fields, fields.len() - k,
{
    if k < 0 || k >= fields.len() {
        Ok(done)
    } else {
        match lower_expression(symbols, fields[k].1) {
            Err(e) => Err(e),
            Ok(text) => lower_values(symbols, fields, k + 1, done.push(text)),
        }
    }
}

/// The names of `names`, each after `prefix`.
pub open spec fn prefixed_names(prefix: Seq<char>, names: Seq<NameView>) -> Seq<Seq<char>> {
    Seq::new(names.len(), |i: int| prefix + names[i].0)
}

/// The line that makes the declaration after it a template over
/// `generics`; nothing where there are none.
pub open spec fn template_preamble(generics: Seq<NameView>) -> Seq<char> {
    if generics.len() == 0 {
        Seq::empty()
    } else {
        "template <"@ + join(prefixed_names("typename "@, generics), ", "@) + ">\n"@
    }
}

/// The generic parameters `generics` as template arguments; nothing where
/// there are none.
pub open spec fn template_arguments(generics: Seq<NameView>) -> Seq<char> {
    if generics.len() == 0 {
        Seq::empty()
    } else {
        "<"@ + join(prefixed_names(Seq::empty(), generics), ", "@) + ">"@
    }
}

/// A name with its type, as C++ declares it: the type, then the name.
pub open spec fn typed_name(field: (NameView, TypeView)) -> Seq<char> {
    lower_type(field.1) + " "@ + field.0.0
}

/// The parameters `fields` of a function or of a constructor.
pub open spec fn parameter_list(fields: Seq<(NameView, TypeView)>) -> Seq<char> {
    join(Seq::new(fields.len(), |i: int| typed_name(fields[i])), ", "@)
}

/// The fields of a struct, one line each.
pub open spec fn field_lines(fields: Seq<(NameView, TypeView)>) -> Seq<char> {
    concat(Seq::new(fields.len(), |i: int| "    "@ + typed_name(fields[i]) + ";\n"@))
}

/// The constructor of the struct `name`, which takes one argument for each
/// field and initializes the field with it, followed by the defaulted
/// destructor.
pub open spec fn constructor(name: Seq<char>, fields: Seq<(NameView, TypeView)>) -> Seq<char> {
    name + "("@ + parameter_list(fields) + ") "@ + (if fields.len() == 0 {
        Seq::<char>::empty()
    } else {
        ": "@
    }) + join(
        Seq::new(fields.len(), |i: int| fields[i].0.0 + "("@ + fields[i].0.0 + ")"@),
        ", "@,
    ) + " {}\n"@ + "    ~"@ + name + "() = default;\n"@
}

/// The method `format` of the struct `name`, which writes the name of the
/// struct and, in braces, the name and the value of each field.
pub open spec fn formatter(name: Seq<char>, fields: Seq<(NameView, TypeView)>) -> Seq<char> {
    "std::string format() const {\n"@ + "    std::stringstream ss;\n"@ + "    ss << \""@ + name
        + "{\""@ + join(
        Seq::new(fields.len(), |i: int| " << \""@ + fields[i].0.0 + " = \" << "@ + fields[i].0.0),
        " << \", \""@,
    ) + " << \"}\";\n"@ + "    return ss.str();\n"@ + "}\n"@
}

/// The declaration of a struct: its fields in order, its constructor and
/// destructor, and its formatter.
pub open spec fn struct_text(
    name: Seq<char>,
    generics: Seq<NameView>,
    fields: Seq<(NameView, TypeView)>,
) -> Seq<char> {
    template_preamble(generics) + "struct "@ + name + " : public Formatter<"@ + name
        + template_arguments(generics) + "> {\n"@ + field_lines(fields) + "\n"@ + constructor(
        name,
        fields,
    ) + "\n"@ + formatter(name, fields) + "\n};\n"@
}

/// The variants of an enumeration from `k` on, one line each, after the
/// text `done`: the name and, where the variant has one, its initializer.
pub open spec fn variant_lines(
    symbols: Seq<Declaration>,
    variants: Seq<(NameView, Option<ExpressionView>)>,
    k: int,
    done: Seq<char>,
) -> Result<Seq<char>, ErrorView>
    decreases variants.len() - k,
{
    if k < 0 || k >= variants.len() {
        Ok(done)
    } else {
        match variants[k].1 {
            None => variant_lines(
                symbols,
                variants,
                k + 1,
                done + "    "@ + variants[k].0.0 + ",\n"@,
            ),
            Some(e) => match lower_expression(symbols, e) {
                Err(e) => Err(e),
                Ok(value) => variant_lines(
                    symbols,
                    variants,
                    k + 1,
                    done + "    "@ + variants[k].0.0 + " = "@ + value + ",\n"@,
                ),
            },
        }
    }
}

/// The declaration of an enumeration: a scoped enumeration, with its
/// backing type where it has one, and its variants in order.
pub open spec fn enum_text(
    symbols: Seq<Declaration>,
    name: Seq<char>,
    generics: Seq<NameView>,
    base: Option<TypeView>,
    variants: Seq<(NameView, Option<ExpressionView>)>,
) -> Result<Seq<char>, ErrorView> {
    match variant_lines(symbols, variants, 0, Seq::empty()) {
        Err(e) => Err(e),
        Ok(lines) => Ok(
            template_preamble(generics) + "enum class "@ + name + (match base {
                None => Seq::<char>::empty(),
                Some(ty) => " : "@ + lower_type(ty),
            }) + " {\n"@ + lines + "};\n"@,
        ),
    }
}

/// The types of the members of a union.
pub open spec fn member_types(members: Seq<(Option<NameView>, TypeView)>) -> Seq<Seq<char>> {
    Seq::new(members.len(), |i: int| lower_type(members[i].1))
}

/// The members of an untagged union, one line each: the type and, where
/// the member has one, its name.
pub open spec fn member_lines(members: Seq<(Option<NameView>, TypeView)>) -> Seq<Seq<char>> {
    Seq::new(
        members.len(),
        |i: int|
            "    "@ + lower_type(members[i].1) + (match members[i].0 {
                Some(name) => " "@ + name.0,
                None => Seq::<char>::empty(),
            }) + ";\n"@,
    )
}

/// The declaration of a union: a tagged union names an instance of
/// `TaggedUnion` over the types of its members, an untagged one is a C++
/// union of its members.
pub open spec fn union_text(
    name: Seq<char>,
    generics: Seq<NameView>,
    tagged: bool,
    members: Seq<(Option<NameView>, TypeView)>,
) -> Seq<char> {
    if tagged {
        template_preamble(generics) + ("using "@ + name + " = TaggedUnion<"@ + join(
            member_types(members),
            ", "@,
        ) + ">;\n"@)
    } else {
        template_preamble(generics) + "union "@ + name + " {\n"@ + concat(member_lines(members))
            + "};\n"@
    }
}

/// The C++ text of an optional type: `otherwise` where it is absent.
pub open spec fn type_or(ty: Option<TypeView>, otherwise: Seq<char>) -> Seq<char> {
    match ty {
        None => otherwise,
        Some(ty) => lower_type(ty),
    }
}

/// The head of a function: its return type, `void` where it has none, its
/// name and its parameters.
pub open spec fn signature(
    name: Seq<char>,
    parameters: Seq<(NameView, TypeView)>,
    result: Option<TypeView>,
) -> Seq<char> {
    type_or(result, "void"@) + " "@ + name + "("@ + parameter_list(parameters) + ")"@
}

/// The definition of a variable or a constant with the value `value`; the
/// type is left to C++ (`auto`) where none was written.
pub open spec fn binding_text(
    constant: bool,
    name: Seq<char>,
    ty: Option<TypeView>,
    value: Seq<char>,
) -> Seq<char> {
    (if constant {
        "const "@
    } else {
        Seq::<char>::empty()
    }) + type_or(ty, "auto"@) + " "@ + name + " = "@ + value + ";\n"@
}

/// The two texts that a statement adds: to the implementation unit and to
/// the declaration unit, in that order.
///
/// An import, a struct, an enumeration and a union add to the declaration
/// unit only; a function adds its prototype there and its definition to the
/// implementation unit; every other statement adds to the implementation
/// unit only.
pub open spec fn lower_statement(symbols: Seq<Declaration>, s: StatementView) -> Result<
    (Seq<char>, Seq<char>),
    ErrorView,
>
    decreases s, 0nat,
{
    match s {
        StatementView::Import(name) => Ok((Seq::empty(), "#include <"@ + name.0 + ".hpp>\n"@)),
        StatementView::Struct { spanned_id, generic_parameters, fields } => Ok(
            (Seq::empty(), struct_text(spanned_id.0, generic_parameters, fields)),
        ),
        StatementView::Enum { spanned_id, generic_parameters, base_type, variants } => match enum_text(
            symbols,
            spanned_id.0,
            generic_parameters,
            base_type,
            variants,
        ) {
            Err(e) => Err(e),
            Ok(text) => Ok((Seq::empty(), text)),
        },
        StatementView::Union { spanned_id, generic_parameters, tagged, variants } => Ok(
            (Seq::empty(), union_text(spanned_id.0, generic_parameters, tagged, variants)),
        ),
        StatementView::Function(name, parameters, result, body) => match lower_body(
            symbols,
            *body,
        ) {
            Err(e) => Err(e),
            Ok(text) => Ok(
                (
                    signature(name.0, parameters, result) + " "@ + text,
                    signature(name.0, parameters, result) + ";\n"@,
                ),
            ),
        },
        StatementView::Constant(name, ty, value) => match lower_expression(symbols, value) {
            Err(e) => Err(e),
            Ok(text) => Ok((binding_text(true, name.0, ty, text), Seq::empty())),
        },
        StatementView::Variable(name, ty, value) => match lower_expression(symbols, value) {
            Err(e) => Err(e),
            Ok(text) => Ok((binding_text(false, name.0, ty, text), Seq::empty())),
        },
        StatementView::Block(statements) => match lower_items(
            symbols,
            statements,
            0,
            "{\n"@,
        ) {
            Err(e) => Err(e),
            Ok(text) => Ok((text + "}\n"@, Seq::empty())),
        },
        StatementView::Return(value) => match value {
            None => Ok(("return;\n"@, Seq::empty())),
            Some(e) => match lower_expression(symbols, e) {
                Err(e) => Err(e),
                Ok(text) => Ok(("return "@ + text + ";\n"@, Seq::empty())),
            },
        },
        StatementView::For(name, range, body) => match lower_expression(symbols, range) {
            Err(e) => Err(e),
            Ok(text) => match lower_body(symbols, *body) {
                Err(e) => Err(e),
                Ok(inner) => Ok(
                    ("for (auto "@ + name.0 + " : "@ + text + ") "@ + inner, Seq::empty()),
                ),
            },
        },
        StatementView::Expression(e) => match lower_expression(symbols, e) {
            Err(e) => Err(e),
            Ok(text) => Ok((text + ";\n"@, Seq::empty())),
        },
        StatementView::Garbage(_) => Ok((Seq::empty(), Seq::empty())),
    }
}

/// The body of a function or of a loop: a block as it is, any other
/// statement in braces.
pub open spec fn lower_body(symbols: Seq<Declaration>, s: StatementView) -> Result<
    Seq<char>,
    ErrorView,
>
    decreases s, 1nat,
{
    match lower_statement(symbols, s) {
        Err(e) => Err(e),
        Ok(texts) => Ok(
            if s is Block {
                texts.0
            } else {
                "{\n"@ + texts.0 + "}\n"@
            },
        ),
    }
}

/// What the statements of a block add to the implementation unit, from the
/// statement `k` on, after the text `done`; or the first error.
pub open spec fn lower_items(
    symbols: Seq<Declaration>,
    items: Seq<StatementView>,
    k: int,
    done: Seq<char>,
) -> Result<Seq<char>, ErrorView>
    decreases items, items.len() - k,
{
    if k < 0 || k >= items.len() {
        Ok(done)
    } else {
        match lower_statement(symbols, items[k]) {
            Err(e) => Err(e),
            Ok(texts) => lower_items(symbols, items, k + 1, done + texts.0),
        }
    }
}

/// The two units after the statements of `items` from `k` on have added to
/// the texts `done`; or the first error.
pub open spec fn lower_all(
    symbols: Seq<Declaration>,
    items: Seq<StatementView>,
    k: int,
    done: (Seq<char>, Seq<char>),
) -> Result<(Seq<char>, Seq<char>), ErrorView>
    decreases items.len() - k,
{
    if k < 0 || k >= items.len() {
        Ok(done)
    } else {
        match lower_statement(symbols, items[k]) {
            Err(e) => Err(e),
            Ok(texts) => lower_all(symbols, items, k + 1, (done.0 + texts.0, done.1 + texts.1)),
        }
    }
}

/// How the implementation unit of the unit `name` begins: it includes the
/// prelude and the declaration unit.
pub open spec fn implementation_head(name: Seq<char>) -> Seq<char> {
    "#include <prelude.hpp>\n#include \""@ + name + ".hpp\"\n"@
}

/// How every declaration unit begins: with its include guard and the
/// prelude.
pub open spec fn declaration_head() -> Seq<char> {
    "#pragma once\n#include <prelude.hpp>\n"@
}

/// The implementation unit and the declaration unit of the unit `name`,
/// in that order; or the first error.
pub open spec fn lower_unit(
    symbols: Seq<Declaration>,
    name: Seq<char>,
    statements: Seq<StatementView>,
) -> Result<(Seq<char>, Seq<char>), ErrorView> {
    lower_all(symbols, statements, 0, (implementation_head(name), declaration_head()))
}

/// An access to a member of a name that was declared as an enumeration is
/// written with `::`.
pub proof fn lemma_member_of_enumeration(
    symbols: Seq<Declaration>,
    base: NameView,
    member: NameView,
)
    requires
        kind_of(symbols, base.0) == Some(SymbolType::Enum),
    ensures
        lower_expression(
            symbols,
            ExpressionView::Member(Box::new(ExpressionView::Identifier(base)), member),
        ) == Ok::<Seq<char>, ErrorView>(base.0 + "::"@ + member.0),
{
    let inner = ExpressionView::Identifier(base);
    assert(lower_expression(symbols, inner) == Ok::<Seq<char>, ErrorView>(base.0));
    assert(checked_type(symbols, inner) == Ok::<CheckedTypeView, ErrorView>(
        CheckedTypeView::Enum(base.0),
    ));
}

/// An access to a member of a name that was declared, but not as an
/// enumeration, is written with `.`.
pub proof fn lemma_member_of_value(symbols: Seq<Declaration>, base: NameView, member: NameView)
    requires
        kind_of(symbols, base.0) is Some,
        kind_of(symbols, base.0) != Some(SymbolType::Enum),
    ensures
        lower_expression(
            symbols,
            ExpressionView::Member(Box::new(ExpressionView::Identifier(base)), member),
        ) == Ok::<Seq<char>, ErrorView>(base.0 + "."@ + member.0),
{
    let inner = ExpressionView::Identifier(base);
    assert(lower_expression(symbols, inner) == Ok::<Seq<char>, ErrorView>(base.0));
    assert(checked_type(symbols, inner) == Ok::<CheckedTypeView, ErrorView>(
        CheckedTypeView::Identifier(base.0),
    ));
}

/// An access to a member of a name that was not declared fails: the error
/// is `UndefinedSymbol`, with the name, at the span of the name.
pub proof fn lemma_member_of_undeclared(
    symbols: Seq<Declaration>,
    base: NameView,
    member: NameView,
)
    requires
        kind_of(symbols, base.0) is None,
    ensures
        lower_expression(
            symbols,
            ExpressionView::Member(Box::new(ExpressionView::Identifier(base)), member),
        ) == Err::<Seq<char>, ErrorView>(
            ErrorView { kind: ErrorKindView::UndefinedSymbol(base.0), span: base.1 },
        ),
{
    let inner = ExpressionView::Identifier(base);
    assert(lower_expression(symbols, inner) == Ok::<Seq<char>, ErrorView>(base.0));
    assert(checked_type(symbols, inner) is Err);
}

} // verus!
