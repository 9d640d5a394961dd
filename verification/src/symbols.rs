//! The symbol table: which names a unit declares, and as what.
//!
//! Symbols are numbered in the order of their declarations. A name stands
//! for the latest symbol that was declared with it.

use crate::ast::{Statement, StatementView};
use crate::error::Error;
use vstd::prelude::*;

verus! {

/// The number of a symbol: its place in the order of the declarations.
pub type SymbolId = usize;

/// What a declared name stands for.
#[derive(Clone, Copy, Debug, PartialEq, Eq, Structural)]
pub enum SymbolType {
    Variable,
    Function,
    Struct,
    Enum,
    Union,
}

/// A declaration: the name and what it stands for.
pub type Declaration = (Seq<char>, SymbolType);

/// The symbol that `name` stands for among `declarations`: the latest one
/// declared with that name.
pub open spec fn resolve(declarations: Seq<Declaration>, name: Seq<char>) -> Option<int>
    decreases declarations.len(),
{
    if declarations.len() == 0 {
        None
    } else if declarations.last().0 == name {
        Some(declarations.len() - 1)
    } else {
        resolve(declarations.drop_last(), name)
    }
}

/// What `name` stands for among `declarations`, if it was declared.
pub open spec fn kind_of(declarations: Seq<Declaration>, name: Seq<char>) -> Option<SymbolType> {
    match resolve(declarations, name) {
        Some(id) => Some(declarations[id].1),
        None => None,
    }
}

/// The declarations that a statement makes, in order: its own, then those
/// of the body of a function, or of the statements of a block.
pub open spec fn declarations(statement: StatementView) -> Seq<Declaration>
    decreases statement,
{
    match statement {
        StatementView::Variable(name, _, _) => seq![(name.0, SymbolType::Variable)],
        StatementView::Constant(name, _, _) => seq![(name.0, SymbolType::Variable)],
        StatementView::Enum { spanned_id, .. } => seq![(spanned_id.0, SymbolType::Enum)],
        StatementView::Struct { spanned_id, .. } => seq![(spanned_id.0, SymbolType::Struct)],
        StatementView::Union { spanned_id, .. } => seq![(spanned_id.0, SymbolType::Union)],
        StatementView::Function(name, _, _, body) => seq![(name.0, SymbolType::Function)]
            + declarations(*body),
        StatementView::Block(statements) => declarations_of(statements, statements.len() as int),
        _ => Seq::empty(),
    }
}

/// The declarations that the first `n` of `statements` make, in order.
pub open spec fn declarations_of(statements: Seq<StatementView>, n: int) -> Seq<Declaration>
    decreases statements, n,
{
    if n <= 0 || n > statements.len() {
        Seq::empty()
    } else {
        declarations_of(statements, n - 1) + declarations(statements[n - 1])
    }
}

/// The symbols of a unit.
#[derive(Clone, Debug)]
pub struct CodegenState {
    /// The name that each symbol was declared with, by symbol id.
    pub names: Vec<String>,
    /// For each symbol, the symbol that defines it and what it stands for.
    pub symbols: Vec<(SymbolId, SymbolType)>,
}

impl CodegenState {
    /// The invariant of a symbol table: every symbol has a name and
    /// defines itself.
    pub open spec fn wf(&self) -> bool {
        &&& self.names@.len() == self.symbols@.len()
        &&& forall|i: int| 0 <= i < self.symbols@.len() ==> (#[trigger] self.symbols@[i]).0 == i
    }

    /// The declarations that the table holds, in order.
    pub open spec fn entries(&self) -> Seq<Declaration> {
        Seq::new(self.names@.len(), |i: int| (self.names@[i]@, self.symbols@[i].1))
    }

    /// The table as a map from each declared name to its symbol.
    pub open spec fn table(&self) -> Map<Seq<char>, SymbolId> {
        Map::new(
            |name: Seq<char>| resolve(self.entries(), name) is Some,
            |name: Seq<char>| resolve(self.entries(), name)->0 as usize,
        )
    }

    /// A table without symbols.
    pub fn new() -> (r: Self)
        ensures
            r.wf(),
            r.entries() == Seq::<Declaration>::empty(),
    {
        let r = CodegenState { names: Vec::new(), symbols: Vec::new() };
        assert(r.entries() =~= Seq::<Declaration>::empty());
        r
    }

    /// Declares `name` as `kind`, under the next symbol id.
    pub fn declare(&mut self, name: String, kind: SymbolType) -> (id: SymbolId)
        requires
            old(self).wf(),
        ensures
            final(self).wf(),
            id == old(self).entries().len(),
            final(self).entries() == old(self).entries().push((name@, kind)),
    {
        let id = self.symbols.len();
        self.names.push(name);
        self.symbols.push((id, kind));
        assert(self.entries() =~= old(self).entries().push((name@, kind)));
        id
    }

    /// The symbol that `name` stands for, if it was declared.
    pub fn lookup(&self, name: &str) -> (r: Option<SymbolId>)
        requires
            self.wf(),
        ensures
            match resolve(self.entries(), name@) {
                Some(id) => r == Some(id as usize) && 0 <= id < self.entries().len(),
                None => r.is_none(),
            },
            r is Some <==> self.table().dom().contains(name@),
            r is Some ==> self.table()[name@] == r->0,
    {
        let mut i: usize = self.names.len();
        assert(self.entries().take(i as int) == self.entries());
        while i > 0
            invariant
                i <= self.names@.len(),
                self.names@.len() == self.symbols@.len(),
                resolve(self.entries(), name@) == resolve(self.entries().take(i as int), name@),
            decreases i,
        {
            proof {
                let part = self.entries().take(i as int);
                assert(part.drop_last() == self.entries().take(i - 1));
            }
            if crate::text::same_text(self.names[i - 1].as_str(), name) {
                return Some(i - 1);
            }
            i -= 1;
        }
        None
    }

    /// What the symbol `id` stands for.
    pub fn kind(&self, id: SymbolId) -> (r: SymbolType)
        requires
            self.wf(),
            id < self.entries().len(),
        ensures
            r == self.entries()[id as int].1,
    {
        self.symbols[id].1
    }

    /// The name that the symbol `id` was declared with.
    pub fn get_symbol_from_id(&self, id: SymbolId) -> (r: String)
        requires
            self.wf(),
            id < self.entries().len(),
        ensures
            r@ == self.entries()[id as int].0,
    {
        let mut i: usize = 0;
        while i < self.symbols.len()
            invariant
                self.wf(),
                id < self.symbols@.len(),
                i <= id,
            decreases self.symbols@.len() - i,
        {
            if self.symbols[i].0 == id {
                return self.names[i].clone();
            }
            i += 1;
        }
        self.names[id].clone()
    }
}

/// Collects the declarations of `statements` into `state`.
pub fn get_symbols(state: &mut CodegenState, statements: &Vec<Statement>) -> (r: Result<(), Error>)
    requires
        old(state).wf(),
    ensures
        r is Ok,
        final(state).wf(),
        final(state).entries() == old(state).entries() + declarations_of(
            crate::ast::statement_models(statements@),
            statements@.len() as int,
        ),
{
    let mut i: usize = 0;
    while i < statements.len()
        invariant
            i <= statements@.len(),
            state.wf(),
            state.entries() == old(state).entries() + declarations_of(
                crate::ast::statement_models(statements@),
                i as int,
            ),
        decreases statements@.len() - i,
    {
        let _ = get_symbol(state, &statements[i]);
        i += 1;
    }
    Ok(())
}

/// Collects the declarations of `statement` into `state`: a variable, a
/// constant, an enumeration, a struct, a union or a function declares its
/// name; the body of a function and the statements of a block are searched
/// in turn.
pub fn get_symbol(state: &mut CodegenState, statement: &Statement) -> (r: Result<(), Error>)
    requires
        old(state).wf(),
    ensures
        r is Ok,
        final(state).wf(),
        final(state).entries() == old(state).entries() + declarations(statement@),
    decreases statement,
{
    match statement {
        Statement::Variable(name, _, _) => {
            state.declare(name.0.clone(), SymbolType::Variable);
        },
        Statement::Constant(name, _, _) => {
            state.declare(name.0.clone(), SymbolType::Variable);
        },
        Statement::Enum { spanned_id, .. } => {
            state.declare(spanned_id.0.clone(), SymbolType::Enum);
        },
        Statement::Struct { spanned_id, .. } => {
            state.declare(spanned_id.0.clone(), SymbolType::Struct);
        },
        Statement::Union { spanned_id, .. } => {
            state.declare(spanned_id.0.clone(), SymbolType::Union);
        },
        Statement::Function(name, _, _, body) => {
            state.declare(name.0.clone(), SymbolType::Function);
            let _ = get_symbol(state, body);
        },
        Statement::Block(statements) => {
            let mut i: usize = 0;
            while i < statements.len()
                invariant
                    i <= statements@.len(),
                    state.wf(),
                    statement == Statement::Block(*statements),
                    decreases_to!(statement => statements),
                    state.entries() == old(state).entries() + declarations_of(
                        crate::ast::statement_models(statements@),
                        i as int,
                    ),
                decreases statements@.len() - i,
            {
                let _ = get_symbol(state, &statements[i]);
                i += 1;
            }
        },
        _ => {},
    }
    Ok(())
}

} // verus!
