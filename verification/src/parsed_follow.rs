//! What follows what the parser reads: an expression ends where no token
//! continues it, and a statement is followed by what it asks for.

use crate::ast::{ExpressionView, StatementView};
use crate::error::ErrorView;
use crate::grammar::{
    advanced, binary_operator, binary_tail, block_items, check, consume, kind_at, operator_at,
    parse_assignment, parse_binary, parse_binding, parse_call, parse_expression,
    parse_expression_statement, parse_for, parse_function, parse_import, parse_operand,
    parse_primary, parse_return, parse_statement, parse_struct, parse_type, parse_unary,
    postfix_tail, program, remaining, resumed, typed_names, Source,
};
use crate::parsed_expressions::{lemma_parse_binary_good, lemma_parse_operand_good};
use crate::parsed_statements::lemma_parse_statement_good;
use crate::parsed_units::sequenced;
use crate::read_expressions::{quiet_at, stops_at};
use crate::read_statements::follows_well;
use crate::shape::{begins_with_keyword, need_of, Need};
use crate::spelled_tokens::tokens_spelled;
use crate::token::TokenKind;
use vstd::prelude::*;

verus! {

/// Whether no binary operator of the level `level` or of a tighter one
/// stands at `p`.
pub open spec fn none_from(src: Source, p: int, level: nat) -> bool {
    forall|j: nat| level <= j ==> (#[trigger] operator_at(src, p, j)) is None
}

/// A binary operator is one of some level.
pub proof fn lemma_operator_has_level(kind: TokenKind)
    requires
        kind.is_binary_operator(),
    ensures
        exists|level: nat| (#[trigger] binary_operator(level, kind)) is Some,
{
    if kind == TokenKind::Or {
        assert(binary_operator(0, kind) is Some);
    } else if kind == TokenKind::And {
        assert(binary_operator(1, kind) is Some);
    } else if kind == TokenKind::EqualsEquals || kind == TokenKind::BangEquals {
        assert(binary_operator(2, kind) is Some);
    } else if kind == TokenKind::Plus || kind == TokenKind::Minus {
        assert(binary_operator(4, kind) is Some);
    } else if kind == TokenKind::Asterisk || kind == TokenKind::Slash || kind
        == TokenKind::Percent {
        assert(binary_operator(5, kind) is Some);
    } else {
        assert(binary_operator(3, kind) is Some);
    }
}

/// Where no postfix operation, no binary operator and no `=` stands, the
/// expression before ends.
pub proof fn lemma_quiet_stops(src: Source, p: int)
    requires
        quiet_at(src, p),
        none_from(src, p, 0),
        !check(src, p, TokenKind::Equals),
    ensures
        stops_at(src, p),
{
    if kind_at(src, p) is Some {
        let kind = kind_at(src, p)->0;
        if kind.is_binary_operator() {
            lemma_operator_has_level(kind);
            let level = choose|level: nat| (#[trigger] binary_operator(level, kind)) is Some;
            assert(operator_at(src, p, level) is Some);
        }
    }
}

/// No postfix operation follows what the parser yields for the postfix
/// operations after an expression.
pub proof fn lemma_postfix_tail_quiet(src: Source, pos: int, inner: ExpressionView)
    ensures
        postfix_tail(src, pos, inner).result is Ok ==> quiet_at(
            src,
            postfix_tail(src, pos, inner).next,
        ),
    decreases remaining(src, pos),
{
    match kind_at(src, pos) {
        Some(TokenKind::OpenParenthesis) => {
            let arguments = crate::grammar::expression_list(
                src,
                pos + 1,
                TokenKind::CloseParenthesis,
                Seq::empty(),
            );
            if arguments.result is Ok {
                lemma_postfix_tail_quiet(
                    src,
                    advanced(arguments.next, pos + 1),
                    ExpressionView::Call(Box::new(inner), arguments.result->Ok_0),
                );
            }
        },
        Some(TokenKind::OpenBracket) => {
            let index = parse_expression(src, pos + 1);
            if index.result is Ok {
                let at = advanced(index.next, pos + 1);
                if consume(src, at, TokenKind::CloseBracket).result is Ok {
                    lemma_postfix_tail_quiet(
                        src,
                        at + 1,
                        ExpressionView::Index(Box::new(inner), Box::new(index.result->Ok_0)),
                    );
                }
            }
        },
        Some(TokenKind::OpenBrace) => {
            let fields = crate::grammar::initializers(src, pos + 1, Seq::empty());
            if fields.result is Ok {
                lemma_postfix_tail_quiet(
                    src,
                    advanced(fields.next, pos + 1),
                    ExpressionView::StructLiteral(Box::new(inner), fields.result->Ok_0),
                );
            }
        },
        Some(TokenKind::Dot) => {
            if consume(src, pos + 1, TokenKind::Identifier).result is Ok {
                lemma_postfix_tail_quiet(
                    src,
                    pos + 2,
                    ExpressionView::Member(
                        Box::new(inner),
                        crate::grammar::name_of(src.tokens[pos + 1]),
                    ),
                );
            }
        },
        _ => {},
    }
}

/// No postfix operation follows what the parser yields for a unary
/// expression.
pub proof fn lemma_parse_unary_quiet(src: Source, pos: int)
    ensures
        parse_unary(src, pos).result is Ok ==> quiet_at(src, parse_unary(src, pos).next),
    decreases remaining(src, pos),
{
    match kind_at(src, pos) {
        Some(TokenKind::Plus) => {
            lemma_parse_unary_quiet(src, pos + 1);
        },
        Some(TokenKind::Minus) => {
            lemma_parse_unary_quiet(src, pos + 1);
        },
        Some(TokenKind::Bang) => {
            lemma_parse_unary_quiet(src, pos + 1);
        },
        Some(TokenKind::Ampersand) => {
            if check(src, pos + 1, TokenKind::Mut) {
                lemma_parse_unary_quiet(src, pos + 2);
            } else {
                lemma_parse_unary_quiet(src, pos + 1);
            }
        },
        _ => {
            lemma_parse_call_quiet(src, pos);
        },
    }
}

/// No postfix operation follows what the parser yields for a postfix
/// expression.
pub proof fn lemma_parse_call_quiet(src: Source, pos: int)
    ensures
        parse_call(src, pos).result is Ok ==> quiet_at(src, parse_call(src, pos).next),
{
    let head = parse_primary(src, pos);
    if head.result is Ok {
        lemma_postfix_tail_quiet(src, advanced(head.next, pos), head.result->Ok_0);
    }
}

/// What follows what the parser yields for an operand of a binary level
/// belongs to no tighter level.
pub proof fn lemma_parse_operand_ends(src: Source, pos: int, level: nat)
    requires
        tokens_spelled(src.tokens),
        0 <= pos,
    ensures
        parse_operand(src, pos, level).result is Ok ==> quiet_at(
            src,
            parse_operand(src, pos, level).next,
        ) && none_from(src, parse_operand(src, pos, level).next, level + 1),
    decreases remaining(src, pos), (if level < 5 {
        15 - 2 * level
    } else {
        5
    }) as nat,
{
    if level < 5 {
        lemma_parse_binary_ends(src, pos, level + 1);
    } else {
        lemma_parse_unary_quiet(src, pos);
    }
}

/// What follows what the parser yields for an expression of a binary
/// level belongs neither to that level nor to a tighter one.
pub proof fn lemma_parse_binary_ends(src: Source, pos: int, level: nat)
    requires
        tokens_spelled(src.tokens),
        0 <= pos,
    ensures
        parse_binary(src, pos, level).result is Ok ==> quiet_at(
            src,
            parse_binary(src, pos, level).next,
        ) && none_from(src, parse_binary(src, pos, level).next, level),
    decreases remaining(src, pos), (if level < 5 {
        16 - 2 * level
    } else {
        6
    }) as nat,
{
    lemma_parse_operand_ends(src, pos, level);
    lemma_parse_operand_good(src, pos, level);
    let first = parse_operand(src, pos, level);
    if first.result is Ok {
        lemma_binary_tail_ends(src, first.next, level, first.result->Ok_0);
    }
}

/// What follows what the parser yields for the operators and operands
/// after an expression belongs neither to their level nor to a tighter
/// one.
pub proof fn lemma_binary_tail_ends(src: Source, pos: int, level: nat, lhs: ExpressionView)
    requires
        tokens_spelled(src.tokens),
        0 <= pos,
        quiet_at(src, pos),
        none_from(src, pos, level + 1),
    ensures
        binary_tail(src, pos, level, lhs).result is Ok ==> quiet_at(
            src,
            binary_tail(src, pos, level, lhs).next,
        ) && none_from(src, binary_tail(src, pos, level, lhs).next, level),
    decreases remaining(src, pos), 0nat,
{
    match operator_at(src, pos, level) {
        Some(operator) => {
            lemma_parse_operand_ends(src, pos + 1, level);
            lemma_parse_operand_good(src, pos + 1, level);
            let second = parse_operand(src, pos + 1, level);
            if second.result is Ok {
                lemma_binary_tail_ends(
                    src,
                    second.next,
                    level,
                    ExpressionView::Binary(Box::new(lhs), operator, Box::new(second.result->Ok_0)),
                );
            }
        },
        None => {
            assert forall|j: nat| level <= j implies (#[trigger] operator_at(src, pos, j))
                is None by {
                if j > level {
                    assert(level + 1 <= j);
                }
            }
        },
    }
}

/// What the parser yields for an expression ends where no token
/// continues it.
pub proof fn lemma_parse_expression_stops(src: Source, pos: int)
    requires
        tokens_spelled(src.tokens),
        0 <= pos,
    ensures
        parse_expression(src, pos).result is Ok ==> stops_at(
            src,
            parse_expression(src, pos).next,
        ),
    decreases remaining(src, pos),
{
    lemma_parse_assignment_stops(src, pos);
}

/// What the parser yields for an assignment ends where no token continues
/// it.
pub proof fn lemma_parse_assignment_stops(src: Source, pos: int)
    requires
        tokens_spelled(src.tokens),
        0 <= pos,
    ensures
        parse_assignment(src, pos).result is Ok ==> stops_at(
            src,
            parse_assignment(src, pos).next,
        ),
    decreases remaining(src, pos),
{
    lemma_parse_binary_ends(src, pos, 0);
    lemma_parse_binary_good(src, pos, 0);
    let target = parse_binary(src, pos, 0);
    if target.result is Ok {
        let at = target.next;
        if check(src, at, TokenKind::Equals) {
            lemma_parse_assignment_stops(src, at + 1);
        } else {
            lemma_quiet_stops(src, at);
        }
    }
}

/// No unary expression begins with a semicolon.
pub proof fn lemma_unary_fails(src: Source, pos: int)
    requires
        check(src, pos, TokenKind::Semicolon),
    ensures
        parse_unary(src, pos).result is Err,
{
    assert(parse_primary(src, pos).result is Err);
    assert(parse_call(src, pos).result is Err);
}

/// Where no unary expression can be read, no operand of a binary level
/// and no expression of one can.
pub proof fn lemma_operand_fails(src: Source, pos: int, level: nat)
    requires
        parse_unary(src, pos).result is Err,
    ensures
        parse_operand(src, pos, level).result is Err,
        parse_binary(src, pos, level).result is Err,
    decreases 5 - level,
{
    if level < 5 {
        lemma_operand_fails(src, pos, level + 1);
    }
}

/// Where no expression of the loosest binary level can be read, no
/// expression can.
pub proof fn lemma_expression_fails(src: Source, pos: int)
    requires
        parse_binary(src, pos, 0).result is Err,
    ensures
        parse_expression(src, pos).result is Err,
{
    assert(parse_assignment(src, pos).result is Err);
}

/// A statement cannot begin with a semicolon.
pub proof fn lemma_semicolon_fails(src: Source, pos: int)
    requires
        check(src, pos, TokenKind::Semicolon),
    ensures
        parse_statement(src, pos).result is Err,
{
    lemma_unary_fails(src, pos);
    lemma_operand_fails(src, pos, 0);
    lemma_expression_fails(src, pos);
    lemma_statement_fails(src, pos);
}

/// Where no expression can be read, and what stands there begins no other
/// statement, no statement can be read.
pub proof fn lemma_statement_fails(src: Source, pos: int)
    requires
        check(src, pos, TokenKind::Semicolon),
        parse_expression(src, pos).result is Err,
    ensures
        parse_statement(src, pos).result is Err,
{
    assert(parse_expression_statement(src, pos).result is Err);
}

/// What the parser yields for the rest of a block is a block.
pub proof fn lemma_block_items_is_block(src: Source, pos: int, list: Seq<StatementView>)
    ensures
        block_items(src, pos, list).result is Ok ==> block_items(src, pos, list).result->Ok_0
            is Block,
    decreases remaining(src, pos),
{
    match kind_at(src, pos) {
        None => {},
        Some(TokenKind::CloseBrace) => {},
        Some(TokenKind::Semicolon) => {
            lemma_block_items_is_block(src, pos + 1, list);
        },
        Some(_) => {
            let item = parse_statement(src, pos);
            if item.result is Ok {
                lemma_block_items_is_block(
                    src,
                    advanced(item.next, pos),
                    list.push(item.result->Ok_0),
                );
            }
        },
    }
}

/// What kind of statement the parser yields for each first token.
pub proof fn lemma_statement_kind(src: Source, pos: int)
    ensures
        parse_statement(src, pos).result is Ok ==> ({
            let s = parse_statement(src, pos).result->Ok_0;
            match kind_at(src, pos) {
                None => false,
                Some(TokenKind::OpenBrace) => s is Block,
                Some(TokenKind::Import) => s is Import,
                Some(TokenKind::Struct) => s is Struct,
                Some(TokenKind::Fn) => s is Function,
                Some(TokenKind::Var) => s is Variable,
                Some(TokenKind::Const) => s is Constant,
                Some(TokenKind::For) => s is For,
                Some(TokenKind::Return) => s is Return,
                Some(TokenKind::Eof) => s is Garbage,
                Some(_) => s is Expression,
            }
        }),
{
    match kind_at(src, pos) {
        Some(TokenKind::OpenBrace) => {
            lemma_block_items_is_block(src, pos + 1, Seq::empty());
        },
        Some(TokenKind::Import) => {
            assert(parse_import(src, pos).result is Ok ==> parse_import(src, pos).result->Ok_0
                is Import);
        },
        Some(TokenKind::Struct) => {
            assert(parse_struct(src, pos).result is Ok ==> parse_struct(src, pos).result->Ok_0
                is Struct);
        },
        Some(TokenKind::Fn) => {
            lemma_function_is_function(src, pos);
        },
        Some(TokenKind::Var) => {
            lemma_binding_kind(src, pos, false);
        },
        Some(TokenKind::Const) => {
            lemma_binding_kind(src, pos, true);
        },
        Some(TokenKind::For) => {
            assert(parse_for(src, pos).result is Ok ==> parse_for(src, pos).result->Ok_0 is For);
        },
        Some(TokenKind::Return) => {
            assert(parse_return(src, pos).result is Ok ==> parse_return(src, pos).result->Ok_0
                is Return);
        },
        Some(TokenKind::Eof) => {},
        Some(_) => {
            assert(parse_expression_statement(src, pos).result is Ok
                ==> parse_expression_statement(src, pos).result->Ok_0 is Expression);
        },
        None => {},
    }
}

/// What the parser yields for a function is a function.
pub proof fn lemma_function_is_function(src: Source, pos: int)
    ensures
        parse_function(src, pos).result is Ok ==> parse_function(src, pos).result->Ok_0
            is Function,
{
}

/// What the parser yields for a variable is a variable, and for a
/// constant, a constant.
pub proof fn lemma_binding_kind(src: Source, pos: int, constant: bool)
    ensures
        parse_binding(src, pos, constant).result is Ok ==> (if constant {
            parse_binding(src, pos, constant).result->Ok_0 is Constant
        } else {
            parse_binding(src, pos, constant).result->Ok_0 is Variable
        }),
{
}

/// The statement that the parser yields where a token ends the expression
/// before begins with a keyword, is the garbage at the end, or is an
/// expression statement.
pub proof fn lemma_statement_after_stop(src: Source, pos: int)
    requires
        stops_at(src, pos),
        parse_statement(src, pos).result is Ok,
    ensures
        begins_with_keyword(parse_statement(src, pos).result->Ok_0) || parse_statement(
            src,
            pos,
        ).result->Ok_0 is Garbage || parse_statement(src, pos).result->Ok_0 is Expression,
{
    lemma_statement_kind(src, pos);
}

/// What follows what the parser yields for a `return` is what it asks
/// for.
pub proof fn lemma_parse_return_follows(src: Source, pos: int)
    requires
        tokens_spelled(src.tokens),
        0 <= pos,
    ensures
        parse_return(src, pos).result is Ok ==> follows_well(
            src,
            parse_return(src, pos).next,
            parse_return(src, pos).result->Ok_0,
        ),
{
    if consume(src, pos, TokenKind::Return).result is Ok {
        if !check(src, pos + 1, TokenKind::Semicolon) {
            lemma_parse_expression_stops(src, pos + 1);
        }
    }
}

/// What follows what the parser yields for a function is what its body
/// asks for.
pub proof fn lemma_function_follows(src: Source, pos: int)
    requires
        tokens_spelled(src.tokens),
        0 <= pos,
    ensures
        parse_function(src, pos).result is Ok ==> follows_well(
            src,
            parse_function(src, pos).next,
            parse_function(src, pos).result->Ok_0,
        ),
    decreases remaining(src, pos), 0nat,
{
    if consume(src, pos, TokenKind::Fn).result is Ok && consume(
        src,
        pos + 1,
        TokenKind::Identifier,
    ).result is Ok && consume(src, pos + 2, TokenKind::OpenParenthesis).result is Ok {
        let parameters = typed_names(src, pos + 3, TokenKind::CloseParenthesis, Seq::empty());
        if parameters.result is Ok {
            let at = advanced(parameters.next, pos + 3);
            if check(src, at, TokenKind::Arrow) {
                let ty = parse_type(src, at + 1);
                if ty.result is Ok {
                    lemma_parse_statement_follows(src, advanced(ty.next, at + 1));
                }
            } else {
                lemma_parse_statement_follows(src, at);
            }
        }
    }
}

/// What follows what the parser yields for a loop is what its body asks
/// for.
pub proof fn lemma_for_follows(src: Source, pos: int)
    requires
        tokens_spelled(src.tokens),
        0 <= pos,
    ensures
        parse_for(src, pos).result is Ok ==> follows_well(
            src,
            parse_for(src, pos).next,
            parse_for(src, pos).result->Ok_0,
        ),
    decreases remaining(src, pos), 0nat,
{
    if consume(src, pos, TokenKind::For).result is Ok && consume(
        src,
        pos + 1,
        TokenKind::OpenParenthesis,
    ).result is Ok && consume(src, pos + 2, TokenKind::Identifier).result is Ok && consume(
        src,
        pos + 3,
        TokenKind::In,
    ).result is Ok {
        let range = parse_expression(src, pos + 4);
        if range.result is Ok {
            let at = advanced(range.next, pos + 4);
            if consume(src, at, TokenKind::CloseParenthesis).result is Ok {
                lemma_parse_statement_follows(src, at + 1);
            }
        }
    }
}

/// What follows what the parser yields for a statement is what the
/// statement asks for.
pub proof fn lemma_parse_statement_follows(src: Source, pos: int)
    requires
        tokens_spelled(src.tokens),
        0 <= pos,
    ensures
        parse_statement(src, pos).result is Ok ==> follows_well(
            src,
            parse_statement(src, pos).next,
            parse_statement(src, pos).result->Ok_0,
        ),
    decreases remaining(src, pos), 1nat,
{
    lemma_statement_kind(src, pos);
    match kind_at(src, pos) {
        Some(TokenKind::Fn) => {
            lemma_function_follows(src, pos);
        },
        Some(TokenKind::For) => {
            lemma_for_follows(src, pos);
        },
        Some(TokenKind::Return) => {
            lemma_parse_return_follows(src, pos);
        },
        _ => {},
    }
}

/// Whether the statement `second` may stand after the statement `first`
/// in what the parser yields: after one that ends with an expression, one
/// that begins with a keyword, the garbage at the end, or an expression
/// statement; after one that ends with a bare `return`, none.
pub open spec fn pair_read(first: StatementView, second: StatementView) -> bool {
    match need_of(first) {
        Need::Nothing => true,
        Need::Stop => begins_with_keyword(second) || second is Garbage || second is Expression,
        Need::Semicolon => false,
    }
}

/// Whether every statement of a unit may stand after the one before it in
/// what the parser yields.
pub open spec fn loosely_sequenced(statements: Seq<StatementView>) -> bool {
    forall|i: int|
        0 <= i < statements.len() - 1 ==> pair_read(#[trigger] statements[i], statements[i + 1])
}

/// Whether no expression statement of a unit stands directly after a
/// statement that ends with an expression.
pub open spec fn no_clash(statements: Seq<StatementView>) -> bool {
    forall|i: int|
        0 <= i < statements.len() - 1 ==> !(need_of(#[trigger] statements[i]) == Need::Stop
            && statements[i + 1] is Expression)
}

/// Parsing adds errors, and takes none away.
pub proof fn lemma_errors_grow(
    src: Source,
    pos: int,
    list: Seq<StatementView>,
    errors: Seq<ErrorView>,
)
    ensures
        program(src, pos, list, errors).1.len() >= errors.len(),
    decreases remaining(src, pos),
{
    if 0 <= pos < src.tokens.len() {
        let item = parse_statement(src, pos);
        match item.result {
            Ok(s) => {
                lemma_errors_grow(src, advanced(item.next, pos), list.push(s), errors);
            },
            Err(e) => {
                lemma_errors_grow(src, resumed(src, item.next, pos), list, errors.push(e));
            },
        }
    }
}

/// The statements that the parser yields where no statement fails may
/// each stand after the one before.
pub proof fn lemma_program_sequenced(
    src: Source,
    pos: int,
    list: Seq<StatementView>,
    errors: Seq<ErrorView>,
)
    requires
        tokens_spelled(src.tokens),
        0 <= pos,
        loosely_sequenced(list),
        list.len() > 0 ==> follows_well(src, pos, list.last()),
    ensures
        program(src, pos, list, errors).1.len() == errors.len() ==> loosely_sequenced(
            program(src, pos, list, errors).0,
        ),
    decreases remaining(src, pos),
{
    if pos < src.tokens.len() {
        let item = parse_statement(src, pos);
        match item.result {
            Ok(s) => {
                lemma_parse_statement_good(src, pos);
                lemma_parse_statement_follows(src, pos);
                let longer = list.push(s);
                if list.len() > 0 {
                    if need_of(list.last()) == Need::Stop {
                        lemma_statement_after_stop(src, pos);
                    } else if need_of(list.last()) == Need::Semicolon {
                        lemma_semicolon_fails(src, pos);
                    }
                }
                assert(loosely_sequenced(longer)) by {
                    assert forall|i: int| 0 <= i < longer.len() - 1 implies pair_read(
                        #[trigger] longer[i],
                        longer[i + 1],
                    ) by {
                        if i < list.len() - 1 {
                            assert(longer[i] == list[i]);
                            assert(longer[i + 1] == list[i + 1]);
                        } else {
                            assert(longer[i] == list.last());
                            assert(longer[i + 1] == s);
                        }
                    }
                }
                lemma_program_sequenced(src, item.next, longer, errors);
            },
            Err(e) => {
                lemma_errors_grow(src, resumed(src, item.next, pos), list, errors.push(e));
            },
        }
    }
}

/// Statements that may each stand after the one before, without a clash,
/// are sequenced.
pub proof fn lemma_sequenced(statements: Seq<StatementView>, from: int)
    requires
        loosely_sequenced(statements),
        no_clash(statements),
        0 <= from,
    ensures
        sequenced(statements, from),
    decreases statements.len() - from,
{
    if from < statements.len() - 1 {
        lemma_sequenced(statements, from + 1);
        assert(pair_read(statements[from], statements[from + 1]));
    }
}

} // verus!
