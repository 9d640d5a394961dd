//! The pipeline: from the text of a unit to its two generated units.

use crate::ast::{statement_models, Statement};
use crate::codegen::codegen;
use crate::error::{error_views, Error, ErrorView};
use crate::grammar::{parse_from, Source};
use crate::lowering::lower_unit;
use crate::parser::Parser;
use crate::symbols::{declarations_of, get_symbols, CodegenState};
use crate::token::{token_views, Token, TokenView};
use crate::tokenizer::{tokenizable, tokenize, tokens_of};
use vstd::prelude::*;

verus! {

/// The tokens of `tokens` that the grammar reads: all but the layout
/// tokens, since blocks are delimited by braces.
pub open spec fn significant(tokens: Seq<TokenView>) -> Seq<TokenView>
    decreases tokens.len(),
{
    if tokens.len() == 0 {
        Seq::empty()
    } else if tokens.last().kind.is_layout() {
        significant(tokens.drop_last())
    } else {
        significant(tokens.drop_last()).push(tokens.last())
    }
}

/// Drops the layout tokens.
pub fn significant_tokens(tokens: Vec<Token>) -> (r: Vec<Token>)
    ensures
        token_views(r@) == significant(token_views(tokens@)),
{
    let mut kept: Vec<Token> = Vec::new();
    let mut i: usize = 0;
    assert(token_views(kept@) =~= Seq::empty());
    assert(token_views(tokens@).take(0) =~= Seq::empty());
    while i < tokens.len()
        invariant
            i <= tokens@.len(),
            token_views(kept@) == significant(token_views(tokens@).take(i as int)),
        decreases tokens@.len() - i,
    {
        proof {
            let next = token_views(tokens@).take(i + 1);
            assert(next.drop_last() =~= token_views(tokens@).take(i as int));
            assert(next.last() == tokens@[i as int]@);
        }
        if !tokens[i].kind.is_layout() {
            let ghost before = token_views(kept@);
            kept.push(tokens[i].clone());
            assert(token_views(kept@) =~= before.push(tokens@[i as int]@));
        }
        i += 1;
    }
    assert(token_views(tokens@).take(i as int) =~= token_views(tokens@));
    kept
}

/// What compiling the text `source` of the unit `name` yields: the
/// implementation unit and the declaration unit, or the errors of the
/// first stage that failed. Tokenizing and generating stop at their first
/// error; parsing reports every statement that failed.
pub open spec fn compiled(name: Seq<char>, source: Seq<char>) -> Result<
    (Seq<char>, Seq<char>),
    Seq<ErrorView>,
> {
    match tokens_of(name, source) {
        Err(e) => Err(seq![e]),
        Ok(tokens) => match parse_from(Source { name, tokens: significant(tokens) }, 0) {
            Err(errors) => Err(errors),
            Ok(statements) => match lower_unit(
                declarations_of(statements, statements.len() as int),
                name,
                statements,
            ) {
                Err(e) => Err(seq![e]),
                Ok(units) => Ok(units),
            },
        },
    }
}

fn only(error: Error) -> (r: Vec<Error>)
    ensures
        error_views(r@) == seq![error@],
{
    let mut errors: Vec<Error> = Vec::new();
    errors.push(error);
    assert(error_views(errors@) =~= seq![error@]);
    errors
}

/// A compiler: the units that it was asked to compile.
#[derive(Debug)]
pub struct Compiler {
    pub files: Vec<String>,
}

impl Compiler {
    /// A compiler without units.
    pub fn new() -> (r: Compiler)
        ensures
            r.files@ == Seq::<String>::empty(),
    {
        Compiler { files: Vec::new() }
    }

    /// Adds the unit in the file `filename`.
    pub fn add_file(&mut self, filename: String)
        ensures
            final(self).files@ == old(self).files@.push(filename),
    {
        self.files.push(filename);
    }

    /// Tokenizes the text `contents` of the unit `filename` and parses the
    /// tokens that are not layout.
    pub fn parse_source(filename: &str, contents: &str) -> (r: Result<Vec<Statement>, Vec<Error>>)
        requires
            tokenizable(contents@.len()),
        ensures
            match tokens_of(filename@, contents@) {
                Err(e) => r is Err && error_views(r->Err_0@) == seq![e],
                Ok(tokens) => match parse_from(
                    Source { name: filename@, tokens: significant(tokens) },
                    0,
                ) {
                    Err(errors) => r is Err && error_views(r->Err_0@) == errors,
                    Ok(statements) => r is Ok && statement_models(r->Ok_0@) == statements,
                },
            },
    {
        let tokens = match tokenize(filename, contents) {
            Ok(tokens) => tokens,
            Err(e) => {
                return Err(only(e));
            },
        };
        let mut parser = Parser::new(String::from_str(filename), significant_tokens(tokens));
        parser.parse()
    }

    /// Compiles the text `contents` of the unit `filename`: tokenizes it,
    /// parses the tokens that are not layout, collects the symbols and
    /// generates the two units.
    pub fn compile_source(filename: &str, contents: &str) -> (r: Result<
        (String, String),
        Vec<Error>,
    >)
        requires
            tokenizable(contents@.len()),
        ensures
            match compiled(filename@, contents@) {
                Ok(units) => r is Ok && r->Ok_0@ == units,
                Err(errors) => r is Err && error_views(r->Err_0@) == errors,
            },
    {
        let statements = match Compiler::parse_source(filename, contents) {
            Ok(statements) => statements,
            Err(errors) => {
                return Err(errors);
            },
        };
        let mut state = CodegenState::new();
        let _ = get_symbols(&mut state, &statements);
        match codegen(&state, filename, statements) {
            Ok(units) => Ok(units),
            Err(e) => Err(only(e)),
        }
    }
}

} // verus!
