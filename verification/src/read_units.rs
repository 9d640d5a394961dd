//! Reading back units: the parser, run on tokens that carry the pieces of
//! the statements of a unit, yields those statements again, up to spans.

use crate::ast::StatementView;
use crate::carry::{carries, lemma_carries_split};
use crate::error::ErrorView;
use crate::grammar::{advanced, parse_from, program, Source};
use crate::printer::{program_pieces, statement_pieces};
use crate::read_expressions::stops;
use crate::read_statements::{
    follows_well, lemma_closing_begins, lemma_closing_read_back, lemma_pushed,
    lemma_statement_begins, lemma_statement_read_back, statement_read,
};
use crate::shape::{
    bare_statement, bare_statements, closing, need_of, statement_shaped, unit_shaped, Need,
};
use crate::token::{TokenKind, TokenView};
use vstd::prelude::*;

verus! {

/// Whether `out` is what reading back `statements` yields: the same
/// statements, up to spans.
pub open spec fn read_back(out: Seq<StatementView>, statements: Seq<StatementView>) -> bool {
    bare_statements(out) == bare_statements(statements)
}

/// Whether `out`, from its element `k` on, is what reading back
/// `statements` from `from` on yields.
pub open spec fn read_back_from(
    out: Seq<StatementView>,
    k: int,
    statements: Seq<StatementView>,
    from: int,
) -> bool
    decreases statements.len() - from,
{
    if from < 0 || from >= statements.len() {
        out.len() == k
    } else {
        0 <= k < out.len() && bare_statement(out[k]) == bare_statement(statements[from])
            && read_back_from(out, k + 1, statements, from + 1)
    }
}

/// What is read back element by element is read back as a whole.
pub proof fn lemma_read_back_from(
    out: Seq<StatementView>,
    k: int,
    statements: Seq<StatementView>,
    from: int,
)
    requires
        0 <= from <= statements.len(),
        read_back_from(out, k, statements, from),
    ensures
        out.len() == k + statements.len() - from,
        forall|j: int|
            from <= j < statements.len() ==> bare_statement(#[trigger] statements[j])
                == bare_statement(out[k + j - from]),
    decreases statements.len() - from,
{
    if from < statements.len() {
        lemma_read_back_from(out, k + 1, statements, from + 1);
    }
}

/// The token after a statement of a unit, which is not the last, is what
/// the statement asks for.
pub proof fn lemma_unit_follows(src: Source, pos: int, statements: Seq<StatementView>, from: int)
    requires
        0 <= from < statements.len() - 1,
        unit_shaped(statements, from),
        carries(src.tokens, pos, program_pieces(statements, from)),
        src.tokens.len() == pos + program_pieces(statements, from).len() + 1,
        src.tokens.last().kind == TokenKind::Eof,
    ensures
        statement_shaped(statements[from]),
        unit_shaped(statements, from + 1),
        carries(src.tokens, pos, statement_pieces(statements[from])),
        carries(
            src.tokens,
            pos + statement_pieces(statements[from]).len(),
            program_pieces(statements, from + 1),
        ),
        program_pieces(statements, from).len() == statement_pieces(statements[from]).len()
            + program_pieces(statements, from + 1).len(),
        follows_well(src, pos + statement_pieces(statements[from]).len(), statements[from]),
{
    let tokens = src.tokens;
    let s = statements[from];
    let next = statements[from + 1];
    let item = statement_pieces(s);
    let tail = program_pieces(statements, from + 1);
    lemma_carries_split(tokens, pos, item, tail);
    let at = pos + item.len();
    if need_of(s) == Need::Stop {
        assert(unit_shaped(statements, from + 1));
        assert(tail == statement_pieces(next) + program_pieces(statements, from + 2));
        if from + 1 == statements.len() - 1 {
            assert(closing(next));
            lemma_closing_begins(next);
            assert(program_pieces(statements, from + 2).len() == 0);
            if next is Garbage {
                assert(tail.len() == 0);
                assert(stops(TokenKind::Eof));
            } else {
                assert(tail[0] == statement_pieces(next)[0]);
                assert(tokens[at + 0].kind == tail[0].kind);
            }
        } else {
            assert(statement_shaped(next));
            lemma_statement_begins(next);
            assert(tail[0] == statement_pieces(next)[0]);
            assert(tokens[at + 0].kind == tail[0].kind);
        }
    }
}

/// Whether the statements of a unit are read from `pos` on without error,
/// after the statements `list`: they are the statements `out`.
#[verifier::opaque]
pub open spec fn unit_read(
    src: Source,
    pos: int,
    list: Seq<StatementView>,
    errors: Seq<ErrorView>,
    out: Seq<StatementView>,
) -> bool {
    program(src, pos, list, errors) == (out, errors)
}

/// Reading back the statements of a unit from `from` on, up to the end of
/// the tokens.
pub proof fn lemma_unit_read_back(
    src: Source,
    pos: int,
    statements: Seq<StatementView>,
    from: int,
    list: Seq<StatementView>,
    errors: Seq<ErrorView>,
) -> (out: Seq<StatementView>)
    requires
        0 <= from < statements.len(),
        0 <= pos,
        unit_shaped(statements, from),
        carries(src.tokens, pos, program_pieces(statements, from)),
        src.tokens.len() == pos + program_pieces(statements, from).len() + 1,
        src.tokens.last().kind == TokenKind::Eof,
    ensures
        unit_read(src, pos, list, errors, out),
        out.len() >= list.len(),
        out.take(list.len() as int) == list,
        read_back_from(out, list.len() as int, statements, from),
    decreases statements.len() - from,
{
    let tokens = src.tokens;
    let s = statements[from];
    if from == statements.len() - 1 {
        assert(program_pieces(statements, from + 1).len() == 0);
        assert(program_pieces(statements, from) =~= statement_pieces(s));
        let last = lemma_closing_read_back(src, pos, s);
        let out = list.push(last);
        lemma_program_ends(src, pos, list, last, errors);
        assert(out.take(list.len() as int) =~= list);
        assert(out[list.len() as int] == last);
        assert(read_back_from(out, list.len() as int + 1, statements, from + 1));
        out
    } else {
        lemma_unit_follows(src, pos, statements, from);
        let at = pos + statement_pieces(s).len();
        let first = lemma_statement_read_back(src, pos, s);
        let longer = list.push(first);
        let out = lemma_unit_read_back(src, at, statements, from + 1, longer, errors);
        lemma_program_step(src, pos, list, first, at, errors, out);
        assert(out.len() > list.len()) by {
            lemma_read_back_from(out, list.len() as int + 1, statements, from + 1);
        }
        lemma_pushed(out, list, first);
        out
    }
}

/// The statements of a unit end where a statement is read up to the end
/// of the tokens.
pub proof fn lemma_program_ends(
    src: Source,
    pos: int,
    list: Seq<StatementView>,
    last: StatementView,
    errors: Seq<ErrorView>,
)
    requires
        0 <= pos < src.tokens.len(),
        statement_read(src, pos, last, src.tokens.len() as int),
    ensures
        unit_read(src, pos, list, errors, list.push(last)),
{
    reveal(statement_read);
    reveal(unit_read);
    let end = src.tokens.len() as int;
    assert(advanced(end, pos) == end);
    assert(program(src, end, list.push(last), errors) == (list.push(last), errors));
}

/// The statements of a unit go on after a statement that is read.
pub proof fn lemma_program_step(
    src: Source,
    pos: int,
    list: Seq<StatementView>,
    first: StatementView,
    at: int,
    errors: Seq<ErrorView>,
    out: Seq<StatementView>,
)
    requires
        0 <= pos < src.tokens.len(),
        statement_read(src, pos, first, at),
        at > pos,
        unit_read(src, at, list.push(first), errors, out),
    ensures
        unit_read(src, pos, list, errors, out),
{
    reveal(statement_read);
    reveal(unit_read);
}

/// The parser reads back what the printer laid out: run on tokens that
/// carry the pieces of the statements of a unit and end with `Eof`, it
/// yields those statements, up to spans.
pub proof fn lemma_pieces_read_back(
    name: Seq<char>,
    tokens: Seq<TokenView>,
    statements: Seq<StatementView>,
)
    requires
        unit_shaped(statements, 0),
        carries(tokens, 0, program_pieces(statements, 0)),
        tokens.len() == program_pieces(statements, 0).len() + 1,
        tokens.last().kind == TokenKind::Eof,
    ensures
        parse_from(Source { name, tokens }, 0) is Ok,
        read_back(parse_from(Source { name, tokens }, 0)->Ok_0, statements),
{
    let src = Source { name, tokens };
    let out = lemma_unit_read_back(src, 0, statements, 0, Seq::empty(), Seq::empty());
    assert(parse_from(src, 0) == Ok::<Seq<StatementView>, Seq<ErrorView>>(out)) by {
        reveal(unit_read);
    }
    lemma_read_back_from(out, 0, statements, 0);
    assert(bare_statements(out) =~= bare_statements(statements)) by {
        assert forall|j: int| 0 <= j < statements.len() implies bare_statements(out)[j]
            == bare_statements(statements)[j] by {
            assert(bare_statement(statements[j]) == bare_statement(out[0 + j - 0]));
        }
    }
}

} // verus!
