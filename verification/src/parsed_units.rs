//! What the parser yields for a unit: statements that can be written, and
//! at the end one that can end a unit.

use crate::ast::StatementView;
use crate::compiler::significant;
use crate::error::ErrorView;
use crate::grammar::{advanced, parse_statement, program, remaining, resumed, Source};
use crate::parsed_statements::{
    closing_good, lemma_parse_statement_good, lemma_statements_pushed, statement_good,
    statements_good,
};
use crate::parsed_types::lemma_spelled_together;
use crate::printer::{program_pieces, statement_pieces};
use crate::round_trip::{parsed, writable};
use crate::shape::{begins_with_keyword, need_of, unit_shaped, Need};
use crate::spelled_tokens::{lemma_tokens_spelled, tokens_spelled};
use crate::spelling::all_well_spelled;
use crate::tokenizer::tokens_of;
use vstd::prelude::*;

verus! {

/// Whether the statements of a unit are as the parser yields them: the
/// last can be written at the end of a unit, each of the others can be
/// written.
pub open spec fn regular(statements: Seq<StatementView>) -> bool {
    &&& statements.len() > 0
    &&& forall|i: int|
        0 <= i < statements.len() - 1 ==> statement_good(#[trigger] statements[i])
    &&& closing_good(statements.last())
}

/// Whether every statement of a unit that ends with an expression, from
/// `from` on, stands before a statement that begins with a keyword or
/// before the garbage at the end, and none but the last ends with a bare
/// `return`.
pub open spec fn sequenced(statements: Seq<StatementView>, from: int) -> bool
    decreases statements.len() - from,
{
    if from < 0 || from >= statements.len() - 1 {
        true
    } else {
        &&& match need_of(statements[from]) {
            Need::Nothing => true,
            Need::Stop => begins_with_keyword(statements[from + 1]) || statements[from + 1]
                is Garbage,
            Need::Semicolon => false,
        }
        &&& sequenced(statements, from + 1)
    }
}

/// The statements that the parser yields where no statement fails are
/// regular; where a statement fails, an error is added.
pub proof fn lemma_program_regular(
    src: Source,
    pos: int,
    list: Seq<StatementView>,
    errors: Seq<ErrorView>,
)
    requires
        tokens_spelled(src.tokens),
        0 <= pos,
        statements_good(list),
    ensures
        program(src, pos, list, errors).1.len() >= errors.len(),
        program(src, pos, list, errors).1.len() == errors.len() ==> (if pos < src.tokens.len() {
            regular(program(src, pos, list, errors).0)
        } else {
            program(src, pos, list, errors).0 == list
        }),
    decreases remaining(src, pos),
{
    if pos < src.tokens.len() {
        lemma_parse_statement_good(src, pos);
        let item = parse_statement(src, pos);
        match item.result {
            Ok(s) => {
                let at = advanced(item.next, pos);
                let longer = list.push(s);
                if at <= src.tokens.len() - 1 {
                    lemma_statements_pushed(list, s);
                    lemma_program_regular(src, at, longer, errors);
                } else {
                    assert(program(src, at, longer, errors) == (longer, errors));
                    assert forall|i: int| 0 <= i < longer.len() - 1 implies statement_good(
                        #[trigger] longer[i],
                    ) by {
                        assert(longer[i] == list[i]);
                    }
                }
            },
            Err(e) => {
                lemma_program_regular(src, resumed(src, item.next, pos), list, errors.push(e));
            },
        }
    }
}

/// What tokenizing and parsing a text yields, where both succeed, is
/// regular.
pub proof fn lemma_parsed_regular(name: Seq<char>, source: Seq<char>)
    requires
        parsed(name, source) is Some,
    ensures
        regular(parsed(name, source)->0),
{
    lemma_tokens_spelled(name, source);
    let tokens = significant(tokens_of(name, source)->Ok_0);
    let src = Source { name, tokens };
    lemma_program_regular(src, 0, Seq::empty(), Seq::empty());
}

/// Regular statements of a unit can be written from `from` on, where
/// they are sequenced.
pub proof fn lemma_regular_shaped(statements: Seq<StatementView>, from: int)
    requires
        regular(statements),
        sequenced(statements, from),
        0 <= from < statements.len(),
    ensures
        unit_shaped(statements, from),
        all_well_spelled(program_pieces(statements, from)),
    decreases statements.len() - from,
{
    if from < statements.len() - 1 {
        lemma_regular_shaped(statements, from + 1);
        assert(statement_good(statements[from]));
        lemma_spelled_together(
            statement_pieces(statements[from]),
            program_pieces(statements, from + 1),
        );
    } else {
        assert(program_pieces(statements, from + 1) =~= Seq::empty());
        assert(program_pieces(statements, from) =~= statement_pieces(statements[from]));
    }
}

/// What tokenizing and parsing a text yields, where both succeed, is
/// writable, if it is sequenced.
pub proof fn lemma_parsed_writable(name: Seq<char>, source: Seq<char>)
    requires
        parsed(name, source) is Some,
        sequenced(parsed(name, source)->0, 0),
    ensures
        writable(parsed(name, source)->0),
{
    lemma_parsed_regular(name, source);
    lemma_regular_shaped(parsed(name, source)->0, 0);
}

} // verus!
