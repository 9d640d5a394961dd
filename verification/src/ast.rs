//! The syntax tree: statements, expressions and types, each with its
//! mathematical model.

use crate::span::{Position, Span, SpanView, Spanned};
use vstd::prelude::*;

verus! {

/// A name with the span it was written at.
pub type SpannedString = Spanned<String>;

/// The mathematical model of a [`SpannedString`].
pub type NameView = (Seq<char>, SpanView);

/// An operator between two operands.
#[derive(Clone, Copy, Debug, PartialEq, Eq, Structural)]
pub enum BinaryOperator {
    Plus,
    Minus,
    Asterisk,
    Slash,
    Percent,
    EqualsEquals,
    BangEquals,
    LessThan,
    LessThanEquals,
    GreaterThan,
    GreaterThanEquals,
    And,
    Or,
}

/// An operator before one operand.
#[derive(Clone, Copy, Debug, PartialEq, Eq, Structural)]
pub enum UnaryOperator {
    Plus,
    Minus,
    Bang,
    AddressOf,
    MutableAddressOf,
}

/// A type as written in the source.
#[derive(Debug, PartialEq, Eq)]
pub enum Type {
    Integer,
    UnsignedInteger,
    FloatingPoint,
    Boolean,
    Character,
    /// `&T`
    Reference(Box<Type>),
    /// `&mut T`
    MutableReference(Box<Type>),
    /// `T`
    Identifier(SpannedString),
    /// `T[A, ...]`
    Polymorphic(SpannedString, Vec<Type>),
    /// `T.M`
    Member(Box<Type>, SpannedString),
    /// `fn(A, ...) -> R`
    Function(Vec<Type>, Box<Type>),
}

/// The mathematical model of a [`Type`].
pub enum TypeView {
    Integer,
    UnsignedInteger,
    FloatingPoint,
    Boolean,
    Character,
    Reference(Box<TypeView>),
    MutableReference(Box<TypeView>),
    Identifier(NameView),
    Polymorphic(NameView, Seq<TypeView>),
    Member(Box<TypeView>, NameView),
    Function(Seq<TypeView>, Box<TypeView>),
}

impl Type {
    /// The model of the type.
    pub open spec fn model(self) -> TypeView
        decreases self,
    {
        match self {
            Type::Integer => TypeView::Integer,
            Type::UnsignedInteger => TypeView::UnsignedInteger,
            Type::FloatingPoint => TypeView::FloatingPoint,
            Type::Boolean => TypeView::Boolean,
            Type::Character => TypeView::Character,
            Type::Reference(inner) => TypeView::Reference(Box::new(inner.model())),
            Type::MutableReference(inner) => TypeView::MutableReference(Box::new(inner.model())),
            Type::Identifier(name) => TypeView::Identifier(name@),
            Type::Polymorphic(name, arguments) => TypeView::Polymorphic(
                name@,
                type_models(arguments@),
            ),
            Type::Member(inner, name) => TypeView::Member(Box::new(inner.model()), name@),
            Type::Function(parameters, result) => TypeView::Function(
                type_models(parameters@),
                Box::new(result.model()),
            ),
        }
    }
}

/// The models of a sequence of types.
pub open spec fn type_models(types: Seq<Type>) -> Seq<TypeView>
    decreases types,
{
    Seq::new(
        types.len(),
        |i: int|
            if 0 <= i < types.len() {
                types[i].model()
            } else {
                TypeView::Integer
            },
    )
}

impl View for Type {
    type V = TypeView;

    open spec fn view(&self) -> TypeView {
        self.model()
    }
}

/// An expression.
#[derive(Debug, PartialEq, Eq)]
pub enum Expression {
    Identifier(SpannedString),
    String(SpannedString),
    Character(Spanned<char>),
    Integer(Spanned<i64>),
    /// A floating-point literal, kept as it was written.
    FloatingPoint(SpannedString),
    Boolean(Spanned<bool>),
    Binary(Box<Expression>, BinaryOperator, Box<Expression>),
    Unary(UnaryOperator, Box<Expression>),
    Call(Box<Expression>, Vec<Expression>),
    Index(Box<Expression>, Box<Expression>),
    Member(Box<Expression>, SpannedString),
    Assignment(Box<Expression>, Box<Expression>),
    /// A type expression and its field initializers, each with an optional
    /// field name.
    StructLiteral(Box<Expression>, Vec<(Option<SpannedString>, Expression)>),
    ArrayLiteral(Vec<Expression>),
}

/// The mathematical model of an [`Expression`].
pub enum ExpressionView {
    Identifier(NameView),
    String(NameView),
    Character((char, SpanView)),
    Integer((i64, SpanView)),
    FloatingPoint(NameView),
    Boolean((bool, SpanView)),
    Binary(Box<ExpressionView>, BinaryOperator, Box<ExpressionView>),
    Unary(UnaryOperator, Box<ExpressionView>),
    Call(Box<ExpressionView>, Seq<ExpressionView>),
    Index(Box<ExpressionView>, Box<ExpressionView>),
    Member(Box<ExpressionView>, NameView),
    Assignment(Box<ExpressionView>, Box<ExpressionView>),
    StructLiteral(Box<ExpressionView>, Seq<(Option<NameView>, ExpressionView)>),
    ArrayLiteral(Seq<ExpressionView>),
}

/// The model of an optional name.
pub open spec fn name_model(name: Option<SpannedString>) -> Option<NameView> {
    match name {
        Some(name) => Some(name@),
        None => None,
    }
}

impl Expression {
    /// The model of the expression.
    pub open spec fn model(self) -> ExpressionView
        decreases self,
    {
        match self {
            Expression::Identifier(name) => ExpressionView::Identifier(name@),
            Expression::String(text) => ExpressionView::String(text@),
            Expression::Character(c) => ExpressionView::Character(c@),
            Expression::Integer(n) => ExpressionView::Integer(n@),
            Expression::FloatingPoint(text) => ExpressionView::FloatingPoint(text@),
            Expression::Boolean(b) => ExpressionView::Boolean(b@),
            Expression::Binary(lhs, operator, rhs) => ExpressionView::Binary(
                Box::new(lhs.model()),
                operator,
                Box::new(rhs.model()),
            ),
            Expression::Unary(operator, operand) => ExpressionView::Unary(
                operator,
                Box::new(operand.model()),
            ),
            Expression::Call(callee, arguments) => ExpressionView::Call(
                Box::new(callee.model()),
                expression_models(arguments@),
            ),
            Expression::Index(base, index) => ExpressionView::Index(
                Box::new(base.model()),
                Box::new(index.model()),
            ),
            Expression::Member(base, name) => ExpressionView::Member(
                Box::new(base.model()),
                name@,
            ),
            Expression::Assignment(target, value) => ExpressionView::Assignment(
                Box::new(target.model()),
                Box::new(value.model()),
            ),
            Expression::StructLiteral(ty, fields) => ExpressionView::StructLiteral(
                Box::new(ty.model()),
                initializer_models(fields@),
            ),
            Expression::ArrayLiteral(elements) => ExpressionView::ArrayLiteral(
                expression_models(elements@),
            ),
        }
    }
}

/// The models of a sequence of expressions.
pub open spec fn expression_models(expressions: Seq<Expression>) -> Seq<ExpressionView>
    decreases expressions,
{
    Seq::new(
        expressions.len(),
        |i: int|
            if 0 <= i < expressions.len() {
                expressions[i].model()
            } else {
                ExpressionView::ArrayLiteral(Seq::empty())
            },
    )
}

/// The models of the field initializers of a struct literal.
pub open spec fn initializer_models(fields: Seq<(Option<SpannedString>, Expression)>) -> Seq<
    (Option<NameView>, ExpressionView),
>
    decreases fields,
{
    Seq::new(
        fields.len(),
        |i: int|
            if 0 <= i < fields.len() {
                (name_model(fields[i].0), fields[i].1.model())
            } else {
                (None, ExpressionView::ArrayLiteral(Seq::empty()))
            },
    )
}

impl View for Expression {
    type V = ExpressionView;

    open spec fn view(&self) -> ExpressionView {
        self.model()
    }
}

/// The span of the leftmost name or literal of an expression, if the
/// expression does not begin with an array literal.
pub open spec fn leftmost(e: ExpressionView) -> Option<SpanView>
    decreases e,
{
    match e {
        ExpressionView::Identifier(name) => Some(name.1),
        ExpressionView::String(text) => Some(text.1),
        ExpressionView::Character(c) => Some(c.1),
        ExpressionView::Integer(n) => Some(n.1),
        ExpressionView::FloatingPoint(text) => Some(text.1),
        ExpressionView::Boolean(b) => Some(b.1),
        ExpressionView::Binary(lhs, _, _) => leftmost(*lhs),
        ExpressionView::Unary(_, operand) => leftmost(*operand),
        ExpressionView::Call(callee, _) => leftmost(*callee),
        ExpressionView::Index(base, _) => leftmost(*base),
        ExpressionView::Member(base, _) => leftmost(*base),
        ExpressionView::Assignment(target, _) => leftmost(*target),
        ExpressionView::StructLiteral(ty, _) => leftmost(*ty),
        ExpressionView::ArrayLiteral(_) => None,
    }
}

impl Expression {
    /// The span of the leftmost name or literal of the expression. An
    /// array literal carries no span, so the expression may not begin with
    /// one.
    pub fn span(&self) -> (r: Span)
        requires
            leftmost(self@) is Some,
        ensures
            Some(r@) == leftmost(self@),
        decreases self,
    {
        match self {
            Expression::Identifier(name) => name.1.clone(),
            Expression::String(text) => text.1.clone(),
            Expression::Character(c) => c.1.clone(),
            Expression::Integer(n) => n.1.clone(),
            Expression::FloatingPoint(text) => text.1.clone(),
            Expression::Boolean(b) => b.1.clone(),
            Expression::Binary(lhs, _, _) => lhs.span(),
            Expression::Unary(_, operand) => operand.span(),
            Expression::Call(callee, _) => callee.span(),
            Expression::Index(base, _) => base.span(),
            Expression::Member(base, _) => base.span(),
            Expression::Assignment(target, _) => target.span(),
            Expression::StructLiteral(ty, _) => ty.span(),
            Expression::ArrayLiteral(_) => Span::new(
                "",
                Position { line: 0, column: 0 },
                Position { line: 0, column: 0 },
            ),
        }
    }
}

/// A statement.
#[derive(Debug, PartialEq, Eq)]
#[allow(inconsistent_fields)]
pub enum Statement {
    Block(Vec<Statement>),
    Import(SpannedString),
    Struct {
        spanned_id: SpannedString,
        generic_parameters: Vec<SpannedString>,
        fields: Vec<(SpannedString, Type)>,
    },
    Enum {
        spanned_id: SpannedString,
        generic_parameters: Vec<SpannedString>,
        base_type: Option<Type>,
        variants: Vec<(SpannedString, Option<Expression>)>,
    },
    Union {
        spanned_id: SpannedString,
        generic_parameters: Vec<SpannedString>,
        tagged: bool,
        variants: Vec<(Option<SpannedString>, Type)>,
    },
    /// A function: its name, parameters, return type and body.
    Function(SpannedString, Vec<(SpannedString, Type)>, Option<Type>, Box<Statement>),
    Variable(SpannedString, Option<Type>, Expression),
    Constant(SpannedString, Option<Type>, Expression),
    /// A loop: its variable, what it runs over, and its body.
    For(SpannedString, Expression, Box<Statement>),
    Return(Option<Expression>),
    Expression(Expression),
    /// What stands for a statement that could not be parsed.
    Garbage(Span),
}

/// The mathematical model of a [`Statement`].
#[allow(inconsistent_fields)]
pub enum StatementView {
    Block(Seq<StatementView>),
    Import(NameView),
    Struct {
        spanned_id: NameView,
        generic_parameters: Seq<NameView>,
        fields: Seq<(NameView, TypeView)>,
    },
    Enum {
        spanned_id: NameView,
        generic_parameters: Seq<NameView>,
        base_type: Option<TypeView>,
        variants: Seq<(NameView, Option<ExpressionView>)>,
    },
    Union {
        spanned_id: NameView,
        generic_parameters: Seq<NameView>,
        tagged: bool,
        variants: Seq<(Option<NameView>, TypeView)>,
    },
    Function(NameView, Seq<(NameView, TypeView)>, Option<TypeView>, Box<StatementView>),
    Variable(NameView, Option<TypeView>, ExpressionView),
    Constant(NameView, Option<TypeView>, ExpressionView),
    For(NameView, ExpressionView, Box<StatementView>),
    Return(Option<ExpressionView>),
    Expression(ExpressionView),
    Garbage(SpanView),
}

/// The model of an optional type.
pub open spec fn optional_type_model(ty: Option<Type>) -> Option<TypeView> {
    match ty {
        Some(ty) => Some(ty@),
        None => None,
    }
}

/// The model of an optional expression.
pub open spec fn optional_expression_model(e: Option<Expression>) -> Option<ExpressionView> {
    match e {
        Some(e) => Some(e@),
        None => None,
    }
}

/// The models of a sequence of names.
pub open spec fn name_models(names: Seq<SpannedString>) -> Seq<NameView> {
    Seq::new(names.len(), |i: int| names[i]@)
}

/// The models of a sequence of typed names: fields or parameters.
pub open spec fn field_models(fields: Seq<(SpannedString, Type)>) -> Seq<(NameView, TypeView)> {
    Seq::new(fields.len(), |i: int| (fields[i].0@, fields[i].1@))
}

/// The models of the variants of an enumeration.
pub open spec fn variant_models(variants: Seq<(SpannedString, Option<Expression>)>) -> Seq<
    (NameView, Option<ExpressionView>),
> {
    Seq::new(variants.len(), |i: int| (variants[i].0@, optional_expression_model(variants[i].1)))
}

/// The models of the members of a union.
pub open spec fn member_models(members: Seq<(Option<SpannedString>, Type)>) -> Seq<
    (Option<NameView>, TypeView),
> {
    Seq::new(members.len(), |i: int| (name_model(members[i].0), members[i].1@))
}

impl Statement {
    /// The model of the statement.
    pub open spec fn model(self) -> StatementView
        decreases self,
    {
        match self {
            Statement::Block(statements) => StatementView::Block(statement_models(statements@)),
            Statement::Import(name) => StatementView::Import(name@),
            Statement::Struct { spanned_id, generic_parameters, fields } => StatementView::Struct {
                spanned_id: spanned_id@,
                generic_parameters: name_models(generic_parameters@),
                fields: field_models(fields@),
            },
            Statement::Enum {
                spanned_id,
                generic_parameters,
                base_type,
                variants,
            } => StatementView::Enum {
                spanned_id: spanned_id@,
                generic_parameters: name_models(generic_parameters@),
                base_type: optional_type_model(base_type),
                variants: variant_models(variants@),
            },
            Statement::Union {
                spanned_id,
                generic_parameters,
                tagged,
                variants,
            } => StatementView::Union {
                spanned_id: spanned_id@,
                generic_parameters: name_models(generic_parameters@),
                tagged,
                variants: member_models(variants@),
            },
            Statement::Function(name, parameters, result, body) => StatementView::Function(
                name@,
                field_models(parameters@),
                optional_type_model(result),
                Box::new(body.model()),
            ),
            Statement::Variable(name, ty, value) => StatementView::Variable(
                name@,
                optional_type_model(ty),
                value@,
            ),
            Statement::Constant(name, ty, value) => StatementView::Constant(
                name@,
                optional_type_model(ty),
                value@,
            ),
            Statement::For(name, range, body) => StatementView::For(
                name@,
                range@,
                Box::new(body.model()),
            ),
            Statement::Return(value) => StatementView::Return(optional_expression_model(value)),
            Statement::Expression(e) => StatementView::Expression(e@),
            Statement::Garbage(span) => StatementView::Garbage(span@),
        }
    }
}

/// The models of a sequence of statements.
pub open spec fn statement_models(statements: Seq<Statement>) -> Seq<StatementView>
    decreases statements,
{
    Seq::new(
        statements.len(),
        |i: int|
            if 0 <= i < statements.len() {
                statements[i].model()
            } else {
                StatementView::Block(Seq::empty())
            },
    )
}

impl View for Statement {
    type V = StatementView;

    open spec fn view(&self) -> StatementView {
        self.model()
    }
}

/// Appending an element to a vector appends its model to the models.
pub proof fn lemma_models_push()
    ensures
        forall|s: Seq<Type>, t: Type| #[trigger] type_models(s.push(t)) == type_models(s).push(t@),
        forall|s: Seq<Expression>, e: Expression| #[trigger]
            expression_models(s.push(e)) == expression_models(s).push(e@),
        forall|s: Seq<(Option<SpannedString>, Expression)>, f: (Option<SpannedString>, Expression)| #[trigger]
            initializer_models(s.push(f)) == initializer_models(s).push((name_model(f.0), f.1@)),
        forall|s: Seq<Statement>, t: Statement| #[trigger]
            statement_models(s.push(t)) == statement_models(s).push(t@),
        forall|s: Seq<(SpannedString, Type)>, f: (SpannedString, Type)| #[trigger]
            field_models(s.push(f)) == field_models(s).push((f.0@, f.1@)),
        type_models(Seq::empty()) == Seq::<TypeView>::empty(),
        expression_models(Seq::empty()) == Seq::<ExpressionView>::empty(),
        initializer_models(Seq::empty()) == Seq::<(Option<NameView>, ExpressionView)>::empty(),
        statement_models(Seq::empty()) == Seq::<StatementView>::empty(),
        field_models(Seq::empty()) == Seq::<(NameView, TypeView)>::empty(),
        name_models(Seq::empty()) == Seq::<NameView>::empty(),
{
    assert forall|s: Seq<Type>, t: Type| #[trigger]
        type_models(s.push(t)) == type_models(s).push(t@) by {
        assert(type_models(s.push(t)) =~= type_models(s).push(t@));
    }
    assert forall|s: Seq<Expression>, e: Expression| #[trigger]
        expression_models(s.push(e)) == expression_models(s).push(e@) by {
        assert(expression_models(s.push(e)) =~= expression_models(s).push(e@));
    }
    assert forall|s: Seq<(Option<SpannedString>, Expression)>, f: (Option<SpannedString>, Expression)| #[trigger]
        initializer_models(s.push(f)) == initializer_models(s).push((name_model(f.0), f.1@)) by {
        assert(initializer_models(s.push(f)) =~= initializer_models(s).push(
            (name_model(f.0), f.1@),
        ));
    }
    assert forall|s: Seq<Statement>, t: Statement| #[trigger]
        statement_models(s.push(t)) == statement_models(s).push(t@) by {
        assert(statement_models(s.push(t)) =~= statement_models(s).push(t@));
    }
    assert forall|s: Seq<(SpannedString, Type)>, f: (SpannedString, Type)| #[trigger]
        field_models(s.push(f)) == field_models(s).push((f.0@, f.1@)) by {
        assert(field_models(s.push(f)) =~= field_models(s).push((f.0@, f.1@)));
    }
    assert(type_models(Seq::empty()) =~= Seq::<TypeView>::empty());
    assert(expression_models(Seq::empty()) =~= Seq::<ExpressionView>::empty());
    assert(initializer_models(Seq::empty()) =~= Seq::<(Option<NameView>, ExpressionView)>::empty());
    assert(statement_models(Seq::empty()) =~= Seq::<StatementView>::empty());
    assert(field_models(Seq::empty()) =~= Seq::<(NameView, TypeView)>::empty());
    assert(name_models(Seq::empty()) =~= Seq::<NameView>::empty());
}

} // verus!
