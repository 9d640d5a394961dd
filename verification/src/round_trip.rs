//! The round trip: a unit that is printed and then tokenized and parsed
//! again comes back as it was, up to spans.

use crate::ast::StatementView;
use crate::compiler::significant;
use crate::grammar::{parse_from, Source};
use crate::parsed_follow::{lemma_program_sequenced, lemma_sequenced, loosely_sequenced, no_clash};
use crate::parsed_units::lemma_parsed_writable;
use crate::printer::{program_pieces, program_text};
use crate::read_text::lemma_text_read_back;
use crate::read_units::{lemma_pieces_read_back, read_back};
use crate::shape::{bare_statements, unit_shaped};
use crate::spelled_tokens::lemma_tokens_spelled;
use crate::spelling::all_well_spelled;
use crate::tokenizer::tokens_of;
use vstd::prelude::*;

verus! {

/// The statements that tokenizing and then parsing the text `source`
/// yields, if both succeed.
pub open spec fn parsed(name: Seq<char>, source: Seq<char>) -> Option<Seq<StatementView>> {
    match tokens_of(name, source) {
        Err(_) => None,
        Ok(tokens) => match parse_from(Source { name, tokens: significant(tokens) }, 0) {
            Err(_) => None,
            Ok(statements) => Some(statements),
        },
    }
}

/// Whether the statements of a unit can be written so that they are read
/// back: the grammar has a way to write them one after another, and every
/// piece of their layout is spelled as the tokenizer reads it.
pub open spec fn writable(statements: Seq<StatementView>) -> bool {
    unit_shaped(statements, 0) && all_well_spelled(program_pieces(statements, 0))
}

/// Printing, tokenizing and parsing give back what was printed: the text of
/// writable statements is tokenized and parsed without error, into the
/// same statements up to spans.
pub proof fn lemma_round_trip(name: Seq<char>, statements: Seq<StatementView>)
    requires
        writable(statements),
    ensures
        parsed(name, program_text(statements)) is Some,
        read_back(parsed(name, program_text(statements))->0, statements),
{
    let pieces = program_pieces(statements, 0);
    lemma_text_read_back(name, pieces);
    let tokens = tokens_of(name, program_text(statements))->Ok_0;
    lemma_pieces_read_back(name, tokens, statements);
}

/// What tokenizing and parsing a text yields, where both succeed, is
/// writable, unless an expression statement in it stands directly after a
/// statement that ends with an expression.
pub proof fn lemma_parsed_is_writable(name: Seq<char>, source: Seq<char>)
    requires
        parsed(name, source) is Some,
        no_clash(parsed(name, source)->0),
    ensures
        writable(parsed(name, source)->0),
{
    lemma_tokens_spelled(name, source);
    let tokens = significant(tokens_of(name, source)->Ok_0);
    let src = Source { name, tokens };
    assert(loosely_sequenced(Seq::<StatementView>::empty()));
    lemma_program_sequenced(src, 0, Seq::empty(), Seq::empty());
    lemma_sequenced(parsed(name, source)->0, 0);
    lemma_parsed_writable(name, source);
}

/// A second parse gives what the first gave. Let a text be tokenized and
/// parsed without error, and let no expression statement of what was
/// parsed stand directly after a statement that ends with an expression.
/// Then what was parsed, printed, is tokenized and parsed without error as
/// well, into the same statements up to spans.
///
/// The exception is needed: the grammar does not end a `return` with a
/// token of its own, so in `return a` followed by `b;` the two statements
/// are told apart only by the line break between them, and the printer,
/// which puts every expression statement in parentheses, writes what reads
/// as the call `a(b)`.
pub proof fn lemma_second_parse(name: Seq<char>, source: Seq<char>, again: Seq<char>)
    requires
        parsed(name, source) is Some,
        no_clash(parsed(name, source)->0),
    ensures
        parsed(again, program_text(parsed(name, source)->0)) is Some,
        bare_statements(parsed(again, program_text(parsed(name, source)->0))->0)
            == bare_statements(parsed(name, source)->0),
{
    lemma_parsed_is_writable(name, source);
    lemma_round_trip(again, parsed(name, source)->0);
}

} // verus!
