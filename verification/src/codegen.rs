//! The code generator: from the syntax tree and its symbols to the
//! implementation unit and the declaration unit.

use crate::ast::{
    field_models, member_models, name_models, statement_models, variant_models, BinaryOperator,
    Expression, SpannedString, Statement, Type, UnaryOperator,
};
use crate::checked::{get_checked_type_of_expression, CheckedType};
use crate::error::{yields, Error};
use crate::lowering;
use crate::symbols::CodegenState;
use crate::text::{concat_texts, integer_text, join_texts, texts};
use vstd::prelude::*;

verus! {

/// Writes a type in C++.
pub fn codegen_type(state: &CodegenState, ty: &Type) -> (r: String)
    ensures
        r@ == lowering::lower_type(ty@),
    decreases ty,
{
    match ty {
        Type::Integer => String::from_str("int"),
        Type::UnsignedInteger => String::from_str("unsigned int"),
        Type::FloatingPoint => String::from_str("float"),
        Type::Character => String::from_str("char"),
        Type::Boolean => String::from_str("bool"),
        Type::Reference(inner) => {
            let mut out = String::from_str("const ");
            out.append(codegen_type(state, inner).as_str());
            out.append("&");
            out
        },
        Type::MutableReference(inner) => {
            let mut out = codegen_type(state, inner);
            out.append("&");
            out
        },
        Type::Function(parameters, result) => {
            let mut out = codegen_type(state, result);
            out.append("(");
            out.append(codegen_types(state, parameters).as_str());
            out.append(")");
            out
        },
        Type::Member(inner, name) => {
            let mut out = codegen_type(state, inner);
            out.append("::");
            out.append(name.0.as_str());
            out
        },
        Type::Identifier(name) => name.0.clone(),
        Type::Polymorphic(name, arguments) => {
            let mut out = name.0.clone();
            out.append("<");
            out.append(codegen_types(state, arguments).as_str());
            out.append(">");
            out
        },
    }
}

/// Writes a list of types in C++, separated by commas.
fn codegen_types(state: &CodegenState, types: &Vec<Type>) -> (r: String)
    ensures
        r@ == crate::text::join(lowering::type_texts(crate::ast::type_models(types@)), ", "@),
    decreases types,
{
    let mut parts: Vec<String> = Vec::new();
    let mut i: usize = 0;
    while i < types.len()
        invariant
            i <= types@.len(),
            parts@.len() == i,
            forall|j: int| 0 <= j < i ==> (#[trigger] parts@[j])@ == lowering::lower_type(types@[j]@),
        decreases types@.len() - i,
    {
        parts.push(codegen_type(state, &types[i]));
        i += 1;
    }
    assert(texts(parts@) =~= lowering::type_texts(crate::ast::type_models(types@)));
    join_texts(&parts, ", ")
}

fn binary_operator_text(operator: &BinaryOperator) -> (r: &'static str)
    ensures
        r@ == lowering::binary_text(*operator),
{
    match operator {
        BinaryOperator::Plus => "+",
        BinaryOperator::Minus => "-",
        BinaryOperator::Asterisk => "*",
        BinaryOperator::Slash => "/",
        BinaryOperator::Percent => "%",
        BinaryOperator::EqualsEquals => "==",
        BinaryOperator::BangEquals => "!=",
        BinaryOperator::LessThan => "<",
        BinaryOperator::LessThanEquals => "<=",
        BinaryOperator::GreaterThan => ">",
        BinaryOperator::GreaterThanEquals => ">=",
        BinaryOperator::And => "&&",
        BinaryOperator::Or => "||",
    }
}

/// Writes an expression in C++. The one place that needs the symbols is
/// the access to a member: `::` stands after a base whose checked type is
/// an enumeration, `.` after any other. It fails, with `UndefinedSymbol`,
/// exactly if the checked type of such a base depends on a name that was
/// not declared.
pub fn codegen_expression(state: &CodegenState, expr: &Expression) -> (r: Result<String, Error>)
    requires
        state.wf(),
    ensures
        yields(r, lowering::lower_expression(state.entries(), expr@)),
    decreases expr,
{
    match expr {
        Expression::Integer(n) => Ok(integer_text(n.0)),
        Expression::FloatingPoint(text) => Ok(text.0.clone()),
        Expression::Character(c) => {
            let mut out = String::new();
            out.push(c.0);
            assert(out@ =~= seq![c.0]);
            Ok(out)
        },
        Expression::String(text) => {
            let mut out = String::from_str("\"");
            out.append(text.0.as_str());
            out.append("\"");
            Ok(out)
        },
        Expression::Boolean(b) => Ok(
            String::from_str(
                if b.0 {
                    "true"
                } else {
                    "false"
                },
            ),
        ),
        Expression::Identifier(name) => Ok(name.0.clone()),
        Expression::ArrayLiteral(elements) => {
            let parts = codegen_expressions(state, elements)?;
            let mut out = String::from_str("{");
            out.append(join_texts(&parts, ", ").as_str());
            out.append("}");
            Ok(out)
        },
        Expression::StructLiteral(ty, fields) => {
            let mut out = codegen_expression(state, ty)?;
            let parts = codegen_values(state, fields)?;
            out.append("{");
            out.append(join_texts(&parts, ", ").as_str());
            out.append("}");
            Ok(out)
        },
        Expression::Call(callee, arguments) => {
            let mut out = codegen_expression(state, callee)?;
            let parts = codegen_expressions(state, arguments)?;
            out.append("(");
            out.append(join_texts(&parts, ", ").as_str());
            out.append(")");
            Ok(out)
        },
        Expression::Member(base, name) => {
            let mut out = codegen_expression(state, base)?;
            let ty = get_checked_type_of_expression(state, base)?;
            match ty {
                CheckedType::Enum(_) => out.append("::"),
                _ => out.append("."),
            }
            out.append(name.0.as_str());
            Ok(out)
        },
        Expression::Unary(operator, operand) => {
            let text = codegen_expression(state, operand)?;
            match operator {
                UnaryOperator::Minus => {
                    let mut out = String::from_str("-");
                    out.append(text.as_str());
                    Ok(out)
                },
                UnaryOperator::Bang => {
                    let mut out = String::from_str("!");
                    out.append(text.as_str());
                    Ok(out)
                },
                UnaryOperator::Plus => {
                    let mut out = String::from_str("+");
                    out.append(text.as_str());
                    Ok(out)
                },
                UnaryOperator::AddressOf => Ok(text),
                UnaryOperator::MutableAddressOf => Ok(text),
            }
        },
        Expression::Binary(lhs, operator, rhs) => {
            let mut out = codegen_expression(state, lhs)?;
            let right = codegen_expression(state, rhs)?;
            out.append(" ");
            out.append(binary_operator_text(operator));
            out.append(" ");
            out.append(right.as_str());
            Ok(out)
        },
        Expression::Index(base, index) => {
            let mut out = codegen_expression(state, base)?;
            let inner = codegen_expression(state, index)?;
            out.append("[");
            out.append(inner.as_str());
            out.append("]");
            Ok(out)
        },
        Expression::Assignment(target, value) => {
            let mut out = codegen_expression(state, target)?;
            let right = codegen_expression(state, value)?;
            out.append(" = ");
            out.append(right.as_str());
            Ok(out)
        },
    }
}

/// Writes each expression of a list in C++.
fn codegen_expressions(state: &CodegenState, items: &Vec<Expression>) -> (r: Result<
    Vec<String>,
    Error,
>)
    requires
        state.wf(),
    ensures
        match lowering::lower_list(
            state.entries(),
            crate::ast::expression_models(items@),
            0,
            Seq::empty(),
        ) {
            Ok(parts) => r is Ok && texts(r->Ok_0@) == parts,
            Err(e) => r is Err && r->Err_0@ == e,
        },
    decreases items,
{
    let mut parts: Vec<String> = Vec::new();
    let mut k: usize = 0;
    assert(texts(parts@) =~= Seq::empty());
    while k < items.len()
        invariant
            k <= items@.len(),
            state.wf(),
            lowering::lower_list(
                state.entries(),
                crate::ast::expression_models(items@),
                k as int,
                texts(parts@),
            ) == lowering::lower_list(
                state.entries(),
                crate::ast::expression_models(items@),
                0,
                Seq::empty(),
            ),
        decreases items@.len() - k,
    {
        let ghost before = texts(parts@);
        let text = codegen_expression(state, &items[k])?;
        parts.push(text);
        assert(texts(parts@) =~= before.push(text@));
        k += 1;
    }
    Ok(parts)
}

/// Writes the value of each field initializer of a struct literal in C++.
fn codegen_values(state: &CodegenState, fields: &Vec<(Option<SpannedString>, Expression)>) -> (r:
    Result<Vec<String>, Error>)
    requires
        state.wf(),
    ensures
        match lowering::lower_values(
            state.entries(),
            crate::ast::initializer_models(fields@),
            0,
            Seq::empty(),
        ) {
            Ok(parts) => r is Ok && texts(r->Ok_0@) == parts,
            Err(e) => r is Err && r->Err_0@ == e,
        },
    decreases fields,
{
    let mut parts: Vec<String> = Vec::new();
    let mut k: usize = 0;
    assert(texts(parts@) =~= Seq::empty());
    while k < fields.len()
        invariant
            k <= fields@.len(),
            state.wf(),
            lowering::lower_values(
                state.entries(),
                crate::ast::initializer_models(fields@),
                k as int,
                texts(parts@),
            ) == lowering::lower_values(
                state.entries(),
                crate::ast::initializer_models(fields@),
                0,
                Seq::empty(),
            ),
        decreases fields@.len() - k,
    {
        let ghost before = texts(parts@);
        let text = codegen_expression(state, &fields[k].1)?;
        parts.push(text);
        assert(texts(parts@) =~= before.push(text@));
        k += 1;
    }
    Ok(parts)
}

/// Writes the names of `names`, each after `prefix`, separated by commas.
fn codegen_names(prefix: &str, names: &Vec<SpannedString>) -> (r: String)
    ensures
        r@ == crate::text::join(lowering::prefixed_names(prefix@, name_models(names@)), ", "@),
{
    let mut parts: Vec<String> = Vec::new();
    let mut i: usize = 0;
    while i < names.len()
        invariant
            i <= names@.len(),
            parts@.len() == i,
            forall|j: int| 0 <= j < i ==> (#[trigger] parts@[j])@ == prefix@ + names@[j].0@,
        decreases names@.len() - i,
    {
        let mut part = String::from_str(prefix);
        part.append(names[i].0.as_str());
        parts.push(part);
        i += 1;
    }
    assert(texts(parts@) =~= lowering::prefixed_names(prefix@, name_models(names@)));
    join_texts(&parts, ", ")
}

fn codegen_preamble(generics: &Vec<SpannedString>) -> (r: String)
    ensures
        r@ == lowering::template_preamble(name_models(generics@)),
{
    if generics.len() == 0 {
        String::new()
    } else {
        let mut out = String::from_str("template <");
        out.append(codegen_names("typename ", generics).as_str());
        out.append(">\n");
        out
    }
}

fn codegen_arguments(generics: &Vec<SpannedString>) -> (r: String)
    ensures
        r@ == lowering::template_arguments(name_models(generics@)),
{
    if generics.len() == 0 {
        String::new()
    } else {
        let mut out = String::from_str("<");
        proof {
            reveal_strlit("");
            assert(""@ =~= Seq::<char>::empty());
        }
        out.append(codegen_names("", generics).as_str());
        out.append(">");
        out
    }
}

fn codegen_typed_name(state: &CodegenState, field: &(SpannedString, Type)) -> (r: String)
    ensures
        r@ == lowering::typed_name((field.0@, field.1@)),
{
    let mut out = codegen_type(state, &field.1);
    out.append(" ");
    out.append(field.0.0.as_str());
    out
}

fn codegen_parameters(state: &CodegenState, fields: &Vec<(SpannedString, Type)>) -> (r: String)
    ensures
        r@ == lowering::parameter_list(field_models(fields@)),
{
    let mut parts: Vec<String> = Vec::new();
    let mut i: usize = 0;
    while i < fields.len()
        invariant
            i <= fields@.len(),
            parts@.len() == i,
            forall|j: int|
                0 <= j < i ==> (#[trigger] parts@[j])@ == lowering::typed_name(
                    (fields@[j].0@, fields@[j].1@),
                ),
        decreases fields@.len() - i,
    {
        parts.push(codegen_typed_name(state, &fields[i]));
        i += 1;
    }
    assert(texts(parts@) =~= Seq::new(
        field_models(fields@).len(),
        |i: int| lowering::typed_name(field_models(fields@)[i]),
    ));
    join_texts(&parts, ", ")
}

fn codegen_field_lines(state: &CodegenState, fields: &Vec<(SpannedString, Type)>) -> (r: String)
    ensures
        r@ == lowering::field_lines(field_models(fields@)),
{
    let mut parts: Vec<String> = Vec::new();
    let mut i: usize = 0;
    while i < fields.len()
        invariant
            i <= fields@.len(),
            parts@.len() == i,
            forall|j: int|
                0 <= j < i ==> (#[trigger] parts@[j])@ == "    "@ + lowering::typed_name(
                    (fields@[j].0@, fields@[j].1@),
                ) + ";\n"@,
        decreases fields@.len() - i,
    {
        let mut part = String::from_str("    ");
        part.append(codegen_typed_name(state, &fields[i]).as_str());
        part.append(";\n");
        parts.push(part);
        i += 1;
    }
    assert(texts(parts@) =~= Seq::new(
        field_models(fields@).len(),
        |i: int| "    "@ + lowering::typed_name(field_models(fields@)[i]) + ";\n"@,
    ));
    concat_texts(&parts)
}

fn codegen_constructor(state: &CodegenState, name: &str, fields: &Vec<(SpannedString, Type)>) -> (r:
    String)
    ensures
        r@ == lowering::constructor(name@, field_models(fields@)),
{
    let mut parts: Vec<String> = Vec::new();
    let mut i: usize = 0;
    while i < fields.len()
        invariant
            i <= fields@.len(),
            parts@.len() == i,
            forall|j: int|
                0 <= j < i ==> (#[trigger] parts@[j])@ == fields@[j].0.0@ + "("@ + fields@[j].0.0@
                    + ")"@,
        decreases fields@.len() - i,
    {
        let mut part = fields[i].0.0.clone();
        part.append("(");
        part.append(fields[i].0.0.as_str());
        part.append(")");
        parts.push(part);
        i += 1;
    }
    assert(texts(parts@) =~= Seq::new(
        field_models(fields@).len(),
        |i: int| field_models(fields@)[i].0.0 + "("@ + field_models(fields@)[i].0.0 + ")"@,
    ));
    let mut out = String::from_str(name);
    out.append("(");
    out.append(codegen_parameters(state, fields).as_str());
    out.append(") ");
    if fields.len() != 0 {
        out.append(": ");
    } else {
        assert(out@ + Seq::<char>::empty() =~= out@);
    }
    out.append(join_texts(&parts, ", ").as_str());
    out.append(" {}\n");
    out.append("    ~");
    out.append(name);
    out.append("() = default;\n");
    out
}

fn codegen_formatter(name: &str, fields: &Vec<(SpannedString, Type)>) -> (r: String)
    ensures
        r@ == lowering::formatter(name@, field_models(fields@)),
{
    let mut parts: Vec<String> = Vec::new();
    let mut i: usize = 0;
    while i < fields.len()
        invariant
            i <= fields@.len(),
            parts@.len() == i,
            forall|j: int|
                0 <= j < i ==> (#[trigger] parts@[j])@ == " << \""@ + fields@[j].0.0@
                    + " = \" << "@ + fields@[j].0.0@,
        decreases fields@.len() - i,
    {
        let mut part = String::from_str(" << \"");
        part.append(fields[i].0.0.as_str());
        part.append(" = \" << ");
        part.append(fields[i].0.0.as_str());
        parts.push(part);
        i += 1;
    }
    assert(texts(parts@) =~= Seq::new(
        field_models(fields@).len(),
        |i: int|
            " << \""@ + field_models(fields@)[i].0.0 + " = \" << "@ + field_models(
                fields@,
            )[i].0.0,
    ));
    let mut out = String::from_str("std::string format() const {\n");
    out.append("    std::stringstream ss;\n");
    out.append("    ss << \"");
    out.append(name);
    out.append("{\"");
    out.append(join_texts(&parts, " << \", \"").as_str());
    out.append(" << \"}\";\n");
    out.append("    return ss.str();\n");
    out.append("}\n");
    out
}

fn codegen_struct(
    state: &CodegenState,
    name: &str,
    generics: &Vec<SpannedString>,
    fields: &Vec<(SpannedString, Type)>,
) -> (r: String)
    ensures
        r@ == lowering::struct_text(name@, name_models(generics@), field_models(fields@)),
{
    let mut out = codegen_preamble(generics);
    out.append("struct ");
    out.append(name);
    out.append(" : public Formatter<");
    out.append(name);
    out.append(codegen_arguments(generics).as_str());
    out.append("> {\n");
    out.append(codegen_field_lines(state, fields).as_str());
    out.append("\n");
    out.append(codegen_constructor(state, name, fields).as_str());
    out.append("\n");
    out.append(codegen_formatter(name, fields).as_str());
    out.append("\n};\n");
    out
}

fn codegen_variants(state: &CodegenState, variants: &Vec<(SpannedString, Option<Expression>)>) -> (r:
    Result<String, Error>)
    requires
        state.wf(),
    ensures
        yields(
            r,
            lowering::variant_lines(state.entries(), variant_models(variants@), 0, Seq::empty()),
        ),
{
    let mut out = String::new();
    let mut k: usize = 0;
    while k < variants.len()
        invariant
            k <= variants@.len(),
            state.wf(),
            lowering::variant_lines(state.entries(), variant_models(variants@), k as int, out@)
                == lowering::variant_lines(
                state.entries(),
                variant_models(variants@),
                0,
                Seq::empty(),
            ),
        decreases variants@.len() - k,
    {
        out.append("    ");
        out.append(variants[k].0.0.as_str());
        match &variants[k].1 {
            None => {},
            Some(e) => {
                let value = codegen_expression(state, e)?;
                out.append(" = ");
                out.append(value.as_str());
            },
        }
        out.append(",\n");
        k += 1;
    }
    Ok(out)
}

fn codegen_enum(
    state: &CodegenState,
    name: &str,
    generics: &Vec<SpannedString>,
    base: &Option<Type>,
    variants: &Vec<(SpannedString, Option<Expression>)>,
) -> (r: Result<String, Error>)
    requires
        state.wf(),
    ensures
        yields(
            r,
            lowering::enum_text(
                state.entries(),
                name@,
                name_models(generics@),
                crate::ast::optional_type_model(*base),
                variant_models(variants@),
            ),
        ),
{
    let lines = codegen_variants(state, variants)?;
    let mut out = codegen_preamble(generics);
    out.append("enum class ");
    out.append(name);
    match base {
        None => {
            assert(out@ + Seq::<char>::empty() =~= out@);
        },
        Some(ty) => {
            let mut backing = String::from_str(" : ");
            backing.append(codegen_type(state, ty).as_str());
            out.append(backing.as_str());
        },
    }
    out.append(" {\n");
    out.append(lines.as_str());
    out.append("};\n");
    Ok(out)
}

fn codegen_union(
    state: &CodegenState,
    name: &str,
    generics: &Vec<SpannedString>,
    tagged: bool,
    members: &Vec<(Option<SpannedString>, Type)>,
) -> (r: String)
    ensures
        r@ == lowering::union_text(
            name@,
            name_models(generics@),
            tagged,
            member_models(members@),
        ),
{
    let mut parts: Vec<String> = Vec::new();
    let mut i: usize = 0;
    while i < members.len()
        invariant
            i <= members@.len(),
            parts@.len() == i,
            forall|j: int|
                0 <= j < i ==> (#[trigger] parts@[j])@ == (if tagged {
                    lowering::member_types(member_models(members@))[j]
                } else {
                    lowering::member_lines(member_models(members@))[j]
                }),
        decreases members@.len() - i,
    {
        let ty = codegen_type(state, &members[i].1);
        if tagged {
            parts.push(ty);
        } else {
            let mut part = String::from_str("    ");
            part.append(ty.as_str());
            match &members[i].0 {
                Some(name) => {
                    let mut named = String::from_str(" ");
                    named.append(name.0.as_str());
                    part.append(named.as_str());
                },
                None => {
                    assert(part@ + Seq::<char>::empty() =~= part@);
                },
            }
            part.append(";\n");
            parts.push(part);
        }
        i += 1;
    }
    let mut out = codegen_preamble(generics);
    if tagged {
        assert(texts(parts@) =~= lowering::member_types(member_models(members@)));
        let mut code = String::from_str("using ");
        code.append(name);
        code.append(" = TaggedUnion<");
        code.append(join_texts(&parts, ", ").as_str());
        code.append(">;\n");
        out.append(code.as_str());
    } else {
        assert(texts(parts@) =~= lowering::member_lines(member_models(members@)));
        out.append("union ");
        out.append(name);
        out.append(" {\n");
        out.append(concat_texts(&parts).as_str());
        out.append("};\n");
    }
    out
}

fn codegen_type_or(state: &CodegenState, ty: &Option<Type>, otherwise: &str) -> (r: String)
    ensures
        r@ == lowering::type_or(crate::ast::optional_type_model(*ty), otherwise@),
{
    match ty {
        None => String::from_str(otherwise),
        Some(ty) => codegen_type(state, ty),
    }
}

fn codegen_signature(
    state: &CodegenState,
    name: &str,
    parameters: &Vec<(SpannedString, Type)>,
    result: &Option<Type>,
) -> (r: String)
    ensures
        r@ == lowering::signature(
            name@,
            field_models(parameters@),
            crate::ast::optional_type_model(*result),
        ),
{
    let mut out = codegen_type_or(state, result, "void");
    out.append(" ");
    out.append(name);
    out.append("(");
    out.append(codegen_parameters(state, parameters).as_str());
    out.append(")");
    out
}

fn codegen_binding(
    state: &CodegenState,
    constant: bool,
    name: &str,
    ty: &Option<Type>,
    value: &str,
) -> (r: String)
    ensures
        r@ == lowering::binding_text(
            constant,
            name@,
            crate::ast::optional_type_model(*ty),
            value@,
        ),
{
    let mut out = if constant {
        String::from_str("const ")
    } else {
        String::new()
    };
    out.append(codegen_type_or(state, ty, "auto").as_str());
    out.append(" ");
    out.append(name);
    out.append(" = ");
    out.append(value);
    out.append(";\n");
    out
}

/// Writes a statement as the body of a function or of a loop.
fn codegen_body(state: &CodegenState, statement: &Statement) -> (r: Result<String, Error>)
    requires
        state.wf(),
    ensures
        yields(r, lowering::lower_body(state.entries(), statement@)),
    decreases statement, 1nat,
{
    let (cpp, _) = codegen_statement(state, statement)?;
    match statement {
        Statement::Block(_) => Ok(cpp),
        _ => {
            let mut out = String::from_str("{\n");
            out.append(cpp.as_str());
            out.append("}\n");
            Ok(out)
        },
    }
}

/// Writes a statement in C++: what it adds to the implementation unit and
/// what it adds to the declaration unit, in that order.
pub fn codegen_statement(state: &CodegenState, statement: &Statement) -> (r: Result<
    (String, String),
    Error,
>)
    requires
        state.wf(),
    ensures
        yields(r, lowering::lower_statement(state.entries(), statement@)),
    decreases statement, 0nat,
{
    match statement {
        Statement::Import(name) => {
            let mut hpp = String::from_str("#include <");
            hpp.append(name.0.as_str());
            hpp.append(".hpp>\n");
            Ok((String::new(), hpp))
        },
        Statement::Struct { spanned_id, generic_parameters, fields } => Ok(
            (
                String::new(),
                codegen_struct(state, spanned_id.0.as_str(), generic_parameters, fields),
            ),
        ),
        Statement::Enum { spanned_id, generic_parameters, base_type, variants } => {
            let hpp = codegen_enum(
                state,
                spanned_id.0.as_str(),
                generic_parameters,
                base_type,
                variants,
            )?;
            Ok((String::new(), hpp))
        },
        Statement::Union { spanned_id, generic_parameters, tagged, variants } => Ok(
            (
                String::new(),
                codegen_union(
                    state,
                    spanned_id.0.as_str(),
                    generic_parameters,
                    *tagged,
                    variants,
                ),
            ),
        ),
        Statement::Function(name, parameters, result, body) => {
            let text = codegen_body(state, body)?;
            let mut cpp = codegen_signature(state, name.0.as_str(), parameters, result);
            let mut hpp = cpp.clone();
            cpp.append(" ");
            cpp.append(text.as_str());
            hpp.append(";\n");
            Ok((cpp, hpp))
        },
        Statement::Constant(name, ty, value) => {
            let text = codegen_expression(state, value)?;
            Ok((codegen_binding(state, true, name.0.as_str(), ty, text.as_str()), String::new()))
        },
        Statement::Variable(name, ty, value) => {
            let text = codegen_expression(state, value)?;
            Ok(
                (
                    codegen_binding(state, false, name.0.as_str(), ty, text.as_str()),
                    String::new(),
                ),
            )
        },
        Statement::Block(statements) => {
            let mut cpp = String::from_str("{\n");
            let mut k: usize = 0;
            while k < statements.len()
                invariant
                    k <= statements@.len(),
                    state.wf(),
                    decreases_to!(statement => statements),
                    statement@ == crate::ast::StatementView::Block(statement_models(statements@)),
                    lowering::lower_items(
                        state.entries(),
                        statement_models(statements@),
                        k as int,
                        cpp@,
                    ) == lowering::lower_items(
                        state.entries(),
                        statement_models(statements@),
                        0,
                        "{\n"@,
                    ),
                decreases statements@.len() - k,
            {
                let (text, _) = codegen_statement(state, &statements[k])?;
                cpp.append(text.as_str());
                k += 1;
            }
            cpp.append("}\n");
            Ok((cpp, String::new()))
        },
        Statement::Return(value) => match value {
            None => Ok((String::from_str("return;\n"), String::new())),
            Some(e) => {
                let text = codegen_expression(state, e)?;
                let mut cpp = String::from_str("return ");
                cpp.append(text.as_str());
                cpp.append(";\n");
                Ok((cpp, String::new()))
            },
        },
        Statement::For(name, range, body) => {
            let text = codegen_expression(state, range)?;
            let inner = codegen_body(state, body)?;
            let mut cpp = String::from_str("for (auto ");
            cpp.append(name.0.as_str());
            cpp.append(" : ");
            cpp.append(text.as_str());
            cpp.append(") ");
            cpp.append(inner.as_str());
            Ok((cpp, String::new()))
        },
        Statement::Expression(e) => {
            let mut cpp = codegen_expression(state, e)?;
            cpp.append(";\n");
            Ok((cpp, String::new()))
        },
        Statement::Garbage(_) => Ok((String::new(), String::new())),
    }
}

/// Generates the two units of the unit called `filename`: the
/// implementation unit, which includes the prelude and the declaration
/// unit, and the declaration unit, which begins with its include guard and
/// the prelude. Each statement adds to them in turn. The first statement
/// that fails ends the generation with its error.
pub fn codegen(state: &CodegenState, filename: &str, statements: Vec<Statement>) -> (r: Result<
    (String, String),
    Error,
>)
    requires
        state.wf(),
    ensures
        yields(
            r,
            lowering::lower_unit(state.entries(), filename@, statement_models(statements@)),
        ),
{
    let mut cpp = String::from_str("#include <prelude.hpp>\n#include \"");
    cpp.append(filename);
    cpp.append(".hpp\"\n");
    let mut hpp = String::from_str("#pragma once\n#include <prelude.hpp>\n");
    let mut k: usize = 0;
    while k < statements.len()
        invariant
            k <= statements@.len(),
            state.wf(),
            lowering::lower_all(
                state.entries(),
                statement_models(statements@),
                k as int,
                (cpp@, hpp@),
            ) == lowering::lower_unit(state.entries(), filename@, statement_models(statements@)),
        decreases statements@.len() - k,
    {
        let (cpp_statement, hpp_statement) = codegen_statement(state, &statements[k])?;
        cpp.append(cpp_statement.as_str());
        hpp.append(hpp_statement.as_str());
        k += 1;
    }
    Ok((cpp, hpp))
}

} // verus!
