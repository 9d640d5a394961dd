//! Checked types: the classification of an expression that code
//! generation computes on demand.

use crate::ast::{Expression, ExpressionView, UnaryOperator};
use crate::error::{yields, Error, ErrorKind, ErrorKindView, ErrorView};
use crate::symbols::{kind_of, CodegenState, Declaration, SymbolType};
use crate::text::same_text;
use vstd::prelude::*;

verus! {

/// The classification of an expression.
#[derive(Debug, PartialEq, Eq)]
pub enum CheckedType {
    Integer,
    UnsignedInteger,
    FloatingPoint,
    Boolean,
    Character,
    /// `&T`
    Reference(Box<CheckedType>),
    /// `&mut T`
    MutableReference(Box<CheckedType>),
    /// A value of the type, or the thing, that the name stands for.
    Identifier(String),
    /// The enumeration that the name stands for.
    Enum(String),
    /// `T[A, ...]`
    Polymorphic(String, Vec<CheckedType>),
    /// `T.M`
    Member(Box<CheckedType>, String),
    /// `fn(A, ...) -> R`
    Function(Vec<CheckedType>, Box<CheckedType>),
}

/// The mathematical model of a [`CheckedType`].
pub enum CheckedTypeView {
    Integer,
    UnsignedInteger,
    FloatingPoint,
    Boolean,
    Character,
    Reference(Box<CheckedTypeView>),
    MutableReference(Box<CheckedTypeView>),
    Identifier(Seq<char>),
    Enum(Seq<char>),
    Polymorphic(Seq<char>, Seq<CheckedTypeView>),
    Member(Box<CheckedTypeView>, Seq<char>),
    Function(Seq<CheckedTypeView>, Box<CheckedTypeView>),
}

impl CheckedType {
    /// The model of the checked type.
    pub open spec fn model(self) -> CheckedTypeView
        decreases self,
    {
        match self {
            CheckedType::Integer => CheckedTypeView::Integer,
            CheckedType::UnsignedInteger => CheckedTypeView::UnsignedInteger,
            CheckedType::FloatingPoint => CheckedTypeView::FloatingPoint,
            CheckedType::Boolean => CheckedTypeView::Boolean,
            CheckedType::Character => CheckedTypeView::Character,
            CheckedType::Reference(inner) => CheckedTypeView::Reference(Box::new(inner.model())),
            CheckedType::MutableReference(inner) => CheckedTypeView::MutableReference(
                Box::new(inner.model()),
            ),
            CheckedType::Identifier(name) => CheckedTypeView::Identifier(name@),
            CheckedType::Enum(name) => CheckedTypeView::Enum(name@),
            CheckedType::Polymorphic(name, arguments) => CheckedTypeView::Polymorphic(
                name@,
                checked_models(arguments@),
            ),
            CheckedType::Member(inner, name) => CheckedTypeView::Member(
                Box::new(inner.model()),
                name@,
            ),
            CheckedType::Function(parameters, result) => CheckedTypeView::Function(
                checked_models(parameters@),
                Box::new(result.model()),
            ),
        }
    }
}

/// The models of a sequence of checked types.
pub open spec fn checked_models(types: Seq<CheckedType>) -> Seq<CheckedTypeView>
    decreases types,
{
    Seq::new(
        types.len(),
        |i: int|
            if 0 <= i < types.len() {
                types[i].model()
            } else {
                CheckedTypeView::Integer
            },
    )
}

impl View for CheckedType {
    type V = CheckedTypeView;

    open spec fn view(&self) -> CheckedTypeView {
        self.model()
    }
}

/// Whether the checked types of `a` and `b` are the same, one by one.
fn same_list(a: &Vec<CheckedType>, b: &Vec<CheckedType>) -> (r: bool)
    ensures
        r == (checked_models(a@) == checked_models(b@)),
    decreases a,
{
    if a.len() != b.len() {
        assert(checked_models(a@).len() != checked_models(b@).len());
        return false;
    }
    let mut i: usize = 0;
    while i < a.len()
        invariant
            i <= a@.len(),
            a@.len() == b@.len(),
            forall|j: int| 0 <= j < i ==> (#[trigger] a@[j]).model() == b@[j].model(),
        decreases a@.len() - i,
    {
        if !a[i].same_as(&b[i]) {
            assert(checked_models(a@)[i as int] != checked_models(b@)[i as int]);
            return false;
        }
        i += 1;
    }
    assert(checked_models(a@) =~= checked_models(b@));
    true
}

impl CheckedType {
    /// Whether two checked types are the same.
    pub fn same_as(&self, other: &CheckedType) -> (r: bool)
        ensures
            r == (self@ == other@),
        decreases self,
    {
        match (self, other) {
            (CheckedType::Integer, CheckedType::Integer) => true,
            (CheckedType::UnsignedInteger, CheckedType::UnsignedInteger) => true,
            (CheckedType::FloatingPoint, CheckedType::FloatingPoint) => true,
            (CheckedType::Boolean, CheckedType::Boolean) => true,
            (CheckedType::Character, CheckedType::Character) => true,
            (CheckedType::Reference(a), CheckedType::Reference(b)) => a.same_as(b),
            (CheckedType::MutableReference(a), CheckedType::MutableReference(b)) => a.same_as(b),
            (CheckedType::Identifier(a), CheckedType::Identifier(b)) => same_text(
                a.as_str(),
                b.as_str(),
            ),
            (CheckedType::Enum(a), CheckedType::Enum(b)) => same_text(a.as_str(), b.as_str()),
            (CheckedType::Polymorphic(a, x), CheckedType::Polymorphic(b, y)) => same_text(
                a.as_str(),
                b.as_str(),
            ) && same_list(x, y),
            (CheckedType::Member(x, a), CheckedType::Member(y, b)) => x.same_as(y) && same_text(
                a.as_str(),
                b.as_str(),
            ),
            (CheckedType::Function(x, a), CheckedType::Function(y, b)) => same_list(x, y)
                && a.same_as(b),
            _ => false,
        }
    }
}

/// The checked type of an array whose elements have the one checked type
/// `element`.
pub open spec fn array_of(element: CheckedTypeView) -> CheckedTypeView {
    CheckedTypeView::Polymorphic("Array"@, seq![element])
}

/// The checked type of a value that is of one of two checked types.
pub open spec fn variant_of(first: CheckedTypeView, second: CheckedTypeView) -> CheckedTypeView {
    CheckedTypeView::Polymorphic("Variant"@, seq![first, second])
}

/// The checked type of what `name` stands for: an enumeration where it was
/// declared as one, a value named after it where it was declared as
/// anything else, and an error where it was not declared.
pub open spec fn name_type(symbols: Seq<Declaration>, name: crate::ast::NameView) -> Result<
    CheckedTypeView,
    ErrorView,
> {
    match kind_of(symbols, name.0) {
        None => Err(ErrorView { kind: ErrorKindView::UndefinedSymbol(name.0), span: name.1 }),
        Some(SymbolType::Enum) => Ok(CheckedTypeView::Enum(name.0)),
        Some(_) => Ok(CheckedTypeView::Identifier(name.0)),
    }
}

/// The checked type of an expression under the declarations `symbols`.
///
/// A literal has the type of its kind, a string being a reference to
/// characters. A name has the type that [`name_type`] gives. An array
/// literal has the type that [`element_type`] finds for its elements,
/// wrapped as an array. `&e` and `&mut e` are references to the type of
/// `e`, and `e.m` is the member `m` of the type of `e`. Any other expression
/// has the type of its first operand.
pub open spec fn checked_type(symbols: Seq<Declaration>, e: ExpressionView) -> Result<
    CheckedTypeView,
    ErrorView,
>
    decreases e, 0nat,
{
    match e {
        ExpressionView::Integer(_) => Ok(CheckedTypeView::Integer),
        ExpressionView::FloatingPoint(_) => Ok(CheckedTypeView::FloatingPoint),
        ExpressionView::Character(_) => Ok(CheckedTypeView::Character),
        ExpressionView::Boolean(_) => Ok(CheckedTypeView::Boolean),
        ExpressionView::String(_) => Ok(
            CheckedTypeView::Reference(Box::new(CheckedTypeView::Character)),
        ),
        ExpressionView::Identifier(name) => name_type(symbols, name),
        ExpressionView::ArrayLiteral(elements) => {
            if elements.len() == 0 {
                Ok(CheckedTypeView::Polymorphic("Array"@, Seq::empty()))
            } else {
                match checked_type(symbols, elements[0]) {
                    Err(e) => Err(e),
                    Ok(first) => match element_type(symbols, elements, 1, first) {
                        Err(e) => Err(e),
                        Ok(element) => Ok(array_of(element)),
                    },
                }
            }
        },
        ExpressionView::Unary(operator, operand) => match checked_type(symbols, *operand) {
            Err(e) => Err(e),
            Ok(inner) => Ok(
                match operator {
                    UnaryOperator::AddressOf => CheckedTypeView::Reference(Box::new(inner)),
                    UnaryOperator::MutableAddressOf => CheckedTypeView::MutableReference(
                        Box::new(inner),
                    ),
                    _ => inner,
                },
            ),
        },
        ExpressionView::Member(base, name) => match checked_type(symbols, *base) {
            Err(e) => Err(e),
            Ok(inner) => Ok(CheckedTypeView::Member(Box::new(inner), name.0)),
        },
        ExpressionView::Binary(lhs, _, _) => checked_type(symbols, *lhs),
        ExpressionView::Call(callee, _) => checked_type(symbols, *callee),
        ExpressionView::Index(base, _) => checked_type(symbols, *base),
        ExpressionView::Assignment(target, _) => checked_type(symbols, *target),
        ExpressionView::StructLiteral(ty, _) => checked_type(symbols, *ty),
    }
}

/// The one checked type of the elements of an array literal, from the
/// element `k` on, `so_far` being that of the elements before: an element
/// of another type than `so_far` makes it a variant of the two.
pub open spec fn element_type(
    symbols: Seq<Declaration>,
    elements: Seq<ExpressionView>,
    k: int,
    so_far: CheckedTypeView,
) -> Result<CheckedTypeView, ErrorView>
    decreases elements, elements.len() - k,
{
    if k < 0 || k >= elements.len() {
        Ok(so_far)
    } else {
        match checked_type(symbols, elements[k]) {
            Err(e) => Err(e),
            Ok(next) => element_type(
                symbols,
                elements,
                k + 1,
                if next == so_far {
                    so_far
                } else {
                    variant_of(so_far, next)
                },
            ),
        }
    }
}

/// Computes the checked type of `expression` under the symbols of `state`.
/// It fails, with `UndefinedSymbol` at the span of the name, exactly if a
/// name that the type depends on was not declared.
pub fn get_checked_type_of_expression(state: &CodegenState, expression: &Expression) -> (r: Result<
    CheckedType,
    Error,
>)
    requires
        state.wf(),
    ensures
        yields(r, checked_type(state.entries(), expression@)),
    decreases expression,
{
    match expression {
        Expression::Integer(_) => Ok(CheckedType::Integer),
        Expression::FloatingPoint(_) => Ok(CheckedType::FloatingPoint),
        Expression::Character(_) => Ok(CheckedType::Character),
        Expression::Boolean(_) => Ok(CheckedType::Boolean),
        Expression::String(_) => {
            let inner = CheckedType::Character;
            assert(inner@ == CheckedTypeView::Character);
            Ok(CheckedType::Reference(Box::new(inner)))
        },
        Expression::Identifier(name) => {
            match state.lookup(name.0.as_str()) {
                None => Err(
                    Error::new(ErrorKind::UndefinedSymbol(name.0.clone()), name.1.clone()),
                ),
                Some(id) => match state.kind(id) {
                    SymbolType::Enum => Ok(CheckedType::Enum(name.0.clone())),
                    _ => Ok(CheckedType::Identifier(name.0.clone())),
                },
            }
        },
        Expression::ArrayLiteral(elements) => {
            if elements.len() == 0 {
                let r = CheckedType::Polymorphic(String::from_str("Array"), Vec::new());
                assert(r@ == CheckedTypeView::Polymorphic("Array"@, Seq::empty())) by {
                    assert(checked_models(Seq::empty()) =~= Seq::<CheckedTypeView>::empty());
                }
                return Ok(r);
            }
            let mut so_far = get_checked_type_of_expression(state, &elements[0])?;
            let mut k: usize = 1;
            while k < elements.len()
                invariant
                    1 <= k <= elements@.len(),
                    state.wf(),
                    decreases_to!(expression => elements),
                    expression@ == ExpressionView::ArrayLiteral(
                        crate::ast::expression_models(elements@),
                    ),
                    checked_type(state.entries(), elements@[0]@) is Ok,
                    element_type(
                        state.entries(),
                        crate::ast::expression_models(elements@),
                        k as int,
                        so_far@,
                    ) == element_type(
                        state.entries(),
                        crate::ast::expression_models(elements@),
                        1,
                        checked_type(state.entries(), elements@[0]@)->Ok_0,
                    ),
                decreases elements@.len() - k,
            {
                let next = get_checked_type_of_expression(state, &elements[k])?;
                if !next.same_as(&so_far) {
                    so_far = pair_of(so_far, next);
                }
                k += 1;
            }
            Ok(wrap_array(so_far))
        },
        Expression::Unary(operator, operand) => {
            let inner = get_checked_type_of_expression(state, operand)?;
            match operator {
                UnaryOperator::AddressOf => Ok(CheckedType::Reference(Box::new(inner))),
                UnaryOperator::MutableAddressOf => Ok(
                    CheckedType::MutableReference(Box::new(inner)),
                ),
                _ => Ok(inner),
            }
        },
        Expression::Member(base, name) => {
            let inner = get_checked_type_of_expression(state, base)?;
            Ok(CheckedType::Member(Box::new(inner), name.0.clone()))
        },
        Expression::Binary(lhs, _, _) => get_checked_type_of_expression(state, lhs),
        Expression::Call(callee, _) => get_checked_type_of_expression(state, callee),
        Expression::Index(base, _) => get_checked_type_of_expression(state, base),
        Expression::Assignment(target, _) => get_checked_type_of_expression(state, target),
        Expression::StructLiteral(ty, _) => get_checked_type_of_expression(state, ty),
    }
}

fn wrap_array(element: CheckedType) -> (r: CheckedType)
    ensures
        r@ == array_of(element@),
{
    let mut arguments: Vec<CheckedType> = Vec::new();
    arguments.push(element);
    assert(checked_models(arguments@) =~= seq![element@]);
    CheckedType::Polymorphic(String::from_str("Array"), arguments)
}

fn pair_of(first: CheckedType, second: CheckedType) -> (r: CheckedType)
    ensures
        r@ == variant_of(first@, second@),
{
    let mut arguments: Vec<CheckedType> = Vec::new();
    arguments.push(first);
    arguments.push(second);
    assert(checked_models(arguments@) =~= seq![first@, second@]);
    CheckedType::Polymorphic(String::from_str("Variant"), arguments)
}

} // verus!
