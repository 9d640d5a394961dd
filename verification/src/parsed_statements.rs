//! What the parser yields for a statement can be written: it has a shape
//! of the grammar, and its pieces are well spelled.

use crate::ast::{ExpressionView, NameView, StatementView, TypeView};
use crate::grammar::{
    advanced, block_items, check, consume, function_body, kind_at, name_of, parse_binding,
    parse_block, parse_expression, parse_expression_statement, parse_for, parse_function,
    parse_import, parse_return, parse_statement, parse_struct, parse_type, remaining,
    type_annotation, typed_names, Parsed, Source,
};
use crate::parsed_expressions::{
    expression_good, lemma_parse_expression_good, lemma_wrapped_spelled,
};
use crate::parsed_types::{
    lemma_mark_is_spelled, lemma_name_is_spelled, lemma_parse_type_good, lemma_spelled_together,
    lemma_token_taken, type_good,
};
use crate::printer::{
    annotation_pieces, block_pieces, expression_pieces, mark, name_piece, statement_pieces,
    type_pieces, typed_name_pieces, wrapped,
};
use crate::shape::{
    closing, optional_type_shaped, statement_shaped, statements_shaped, typed_names_shaped,
};
use crate::spelled_tokens::tokens_spelled;
use crate::spelling::{all_well_spelled, well_spelled};
use crate::token::TokenKind;
use vstd::prelude::*;

verus! {

/// Whether a statement can be written: it has a shape of the grammar, and
/// its pieces are well spelled.
pub open spec fn statement_good(s: StatementView) -> bool {
    statement_shaped(s) && all_well_spelled(statement_pieces(s))
}

/// Whether a statement can be written at the end of a unit.
pub open spec fn closing_good(s: StatementView) -> bool {
    closing(s) && all_well_spelled(statement_pieces(s))
}

/// Whether every statement of a sequence can be written.
pub open spec fn statements_good(items: Seq<StatementView>) -> bool {
    forall|i: int| 0 <= i < items.len() ==> statement_good(#[trigger] items[i])
}

/// Whether every name with its type of a sequence can be written.
pub open spec fn typed_names_good(fields: Seq<(NameView, TypeView)>) -> bool {
    forall|i: int|
        0 <= i < fields.len() ==> type_good((#[trigger] fields[i]).1) && well_spelled(
            name_piece(fields[i].0),
        )
}

/// Whether an optional type can be written.
pub open spec fn optional_type_good(ty: Option<TypeView>) -> bool {
    match ty {
        Some(ty) => type_good(ty),
        None => true,
    }
}

/// Whether `r` is the outcome of reading a statement from `pos` on that
/// this module promises: what was read holds a token, and either ends
/// before `Eof` and can be written, or takes `Eof` and can be written at
/// the end of a unit.
pub open spec fn statement_outcome(src: Source, pos: int, r: Parsed<StatementView>) -> bool {
    match r.result {
        Ok(s) => pos < r.next && ((r.next <= src.tokens.len() - 1 && statement_good(s)) || (r.next
            == src.tokens.len() && closing_good(s))),
        Err(_) => true,
    }
}

/// Whether `r` is the outcome of reading a statement that cannot take
/// `Eof`: what was read holds a token, ends before `Eof`, and can be
/// written.
pub open spec fn inner_outcome(src: Source, pos: int, r: Parsed<StatementView>) -> bool {
    match r.result {
        Ok(s) => pos < r.next <= src.tokens.len() - 1 && statement_good(s),
        Err(_) => true,
    }
}

/// Names with types that can be written can be written as a list.
pub proof fn lemma_typed_names_good(fields: Seq<(NameView, TypeView)>, from: int)
    requires
        typed_names_good(fields),
        0 <= from <= fields.len(),
    ensures
        typed_names_shaped(fields, from),
        all_well_spelled(typed_name_pieces(fields, from)),
    decreases fields.len() - from,
{
    if from < fields.len() {
        lemma_typed_names_good(fields, from + 1);
        assert(type_good(fields[from].1));
        lemma_mark_is_spelled(TokenKind::Comma);
        lemma_mark_is_spelled(TokenKind::Colon);
        let head = seq![name_piece(fields[from].0), mark(TokenKind::Colon)];
        assert(all_well_spelled(head)) by {
            assert forall|i: int| 0 <= i < head.len() implies well_spelled(#[trigger] head[i]) by {}
        }
        let ty = type_pieces(fields[from].1);
        let comma = seq![mark(TokenKind::Comma)];
        lemma_spelled_together(head, ty);
        lemma_spelled_together(head + ty, comma);
        lemma_spelled_together(head + ty + comma, typed_name_pieces(fields, from + 1));
    }
}

/// Statements that can be written can be written as the statements of a
/// block.
pub proof fn lemma_statements_good(items: Seq<StatementView>, from: int)
    requires
        statements_good(items),
        0 <= from <= items.len(),
    ensures
        statements_shaped(items, from),
        all_well_spelled(block_pieces(items, from)),
    decreases items.len() - from,
{
    if from < items.len() {
        lemma_statements_good(items, from + 1);
        assert(statement_good(items[from]));
        lemma_mark_is_spelled(TokenKind::Semicolon);
        let semicolon = seq![mark(TokenKind::Semicolon)];
        lemma_spelled_together(statement_pieces(items[from]), semicolon);
        lemma_spelled_together(
            statement_pieces(items[from]) + semicolon,
            block_pieces(items, from + 1),
        );
    }
}

/// One more statement that can be written, after statements that can.
pub proof fn lemma_statements_pushed(list: Seq<StatementView>, s: StatementView)
    requires
        statements_good(list),
        statement_good(s),
    ensures
        statements_good(list.push(s)),
{
    let longer = list.push(s);
    assert forall|i: int| 0 <= i < longer.len() implies statement_good(#[trigger] longer[i]) by {
        if i < list.len() {
            assert(longer[i] == list[i]);
        }
    }
}

/// The pieces of an optional type that can be written, after its mark,
/// are well spelled.
pub proof fn lemma_annotation_spelled(before: TokenKind, ty: Option<TypeView>)
    requires
        optional_type_good(ty),
        before == TokenKind::Colon || before == TokenKind::Arrow,
    ensures
        all_well_spelled(annotation_pieces(before, ty)),
        optional_type_shaped(ty),
{
    match ty {
        Some(t) => {
            lemma_mark_is_spelled(before);
            lemma_spelled_together(seq![mark(before)], type_pieces(t));
        },
        None => {},
    }
}

/// A block of statements that can be written can be written.
pub proof fn lemma_block_good(items: Seq<StatementView>)
    requires
        statements_good(items),
    ensures
        statement_good(StatementView::Block(items)),
{
    lemma_statements_good(items, 0);
    lemma_mark_is_spelled(TokenKind::OpenBrace);
    lemma_mark_is_spelled(TokenKind::CloseBrace);
    let open = seq![mark(TokenKind::OpenBrace)];
    lemma_spelled_together(open, block_pieces(items, 0));
    lemma_spelled_together(open + block_pieces(items, 0), seq![mark(TokenKind::CloseBrace)]);
}

/// A struct with a well spelled name and fields that can be written can
/// be written.
pub proof fn lemma_struct_good(name: NameView, fields: Seq<(NameView, TypeView)>)
    requires
        well_spelled(name_piece(name)),
        typed_names_good(fields),
    ensures
        statement_good(
            StatementView::Struct {
                spanned_id: name,
                generic_parameters: Seq::empty(),
                fields,
            },
        ),
{
    lemma_typed_names_good(fields, 0);
    lemma_mark_is_spelled(TokenKind::Struct);
    lemma_mark_is_spelled(TokenKind::OpenBrace);
    lemma_mark_is_spelled(TokenKind::CloseBrace);
    let head = seq![mark(TokenKind::Struct), name_piece(name), mark(TokenKind::OpenBrace)];
    assert(all_well_spelled(head)) by {
        assert forall|i: int| 0 <= i < head.len() implies well_spelled(#[trigger] head[i]) by {}
    }
    lemma_spelled_together(head, typed_name_pieces(fields, 0));
    lemma_spelled_together(
        head + typed_name_pieces(fields, 0),
        seq![mark(TokenKind::CloseBrace)],
    );
}

/// A variable or a constant with a well spelled name, a type and a value
/// that can be written can be written.
pub proof fn lemma_binding_good(
    constant: bool,
    name: NameView,
    ty: Option<TypeView>,
    value: ExpressionView,
)
    requires
        well_spelled(name_piece(name)),
        optional_type_good(ty),
        expression_good(value),
    ensures
        statement_good(
            if constant {
                StatementView::Constant(name, ty, value)
            } else {
                StatementView::Variable(name, ty, value)
            },
        ),
{
    let keyword = if constant {
        TokenKind::Const
    } else {
        TokenKind::Var
    };
    lemma_mark_is_spelled(keyword);
    lemma_mark_is_spelled(TokenKind::Equals);
    lemma_mark_is_spelled(TokenKind::Semicolon);
    lemma_annotation_spelled(TokenKind::Colon, ty);
    let head = seq![mark(keyword), name_piece(name)];
    assert(all_well_spelled(head)) by {
        assert forall|i: int| 0 <= i < head.len() implies well_spelled(#[trigger] head[i]) by {}
    }
    let annotation = annotation_pieces(TokenKind::Colon, ty);
    let equals = seq![mark(TokenKind::Equals)];
    lemma_spelled_together(head, annotation);
    lemma_spelled_together(head + annotation, equals);
    lemma_spelled_together(head + annotation + equals, expression_pieces(value));
    lemma_spelled_together(
        head + annotation + equals + expression_pieces(value),
        seq![mark(TokenKind::Semicolon)],
    );
}

/// The pieces of the head of a function with a well spelled name,
/// parameters and a return type that can be written are well spelled; so
/// are the pieces of the function, if those of its body are.
pub proof fn lemma_function_spelled(
    name: NameView,
    parameters: Seq<(NameView, TypeView)>,
    result: Option<TypeView>,
    body: StatementView,
)
    requires
        well_spelled(name_piece(name)),
        typed_names_good(parameters),
        optional_type_good(result),
        all_well_spelled(statement_pieces(body)),
    ensures
        all_well_spelled(
            statement_pieces(StatementView::Function(name, parameters, result, Box::new(body))),
        ),
        typed_names_shaped(parameters, 0),
        optional_type_shaped(result),
{
    lemma_typed_names_good(parameters, 0);
    lemma_mark_is_spelled(TokenKind::Fn);
    lemma_mark_is_spelled(TokenKind::OpenParenthesis);
    lemma_mark_is_spelled(TokenKind::CloseParenthesis);
    lemma_annotation_spelled(TokenKind::Arrow, result);
    let head = seq![mark(TokenKind::Fn), name_piece(name), mark(TokenKind::OpenParenthesis)];
    assert(all_well_spelled(head)) by {
        assert forall|i: int| 0 <= i < head.len() implies well_spelled(#[trigger] head[i]) by {}
    }
    let list = typed_name_pieces(parameters, 0);
    let close = seq![mark(TokenKind::CloseParenthesis)];
    let annotation = annotation_pieces(TokenKind::Arrow, result);
    lemma_spelled_together(head, list);
    lemma_spelled_together(head + list, close);
    lemma_spelled_together(head + list + close, annotation);
    lemma_spelled_together(head + list + close + annotation, statement_pieces(body));
}

/// The pieces of a loop with a well spelled variable over an expression
/// that can be written are well spelled, if those of its body are.
pub proof fn lemma_for_spelled(name: NameView, range: ExpressionView, body: StatementView)
    requires
        well_spelled(name_piece(name)),
        expression_good(range),
        all_well_spelled(statement_pieces(body)),
    ensures
        all_well_spelled(statement_pieces(StatementView::For(name, range, Box::new(body)))),
{
    lemma_mark_is_spelled(TokenKind::For);
    lemma_mark_is_spelled(TokenKind::OpenParenthesis);
    lemma_mark_is_spelled(TokenKind::In);
    lemma_mark_is_spelled(TokenKind::CloseParenthesis);
    let head = seq![
        mark(TokenKind::For),
        mark(TokenKind::OpenParenthesis),
        name_piece(name),
        mark(TokenKind::In),
    ];
    assert(all_well_spelled(head)) by {
        assert forall|i: int| 0 <= i < head.len() implies well_spelled(#[trigger] head[i]) by {}
    }
    let close = seq![mark(TokenKind::CloseParenthesis)];
    lemma_spelled_together(head, expression_pieces(range));
    lemma_spelled_together(head + expression_pieces(range), close);
    lemma_spelled_together(head + expression_pieces(range) + close, statement_pieces(body));
}

/// What the parser yields for the rest of a list of names with types,
/// after ones that can be written, can be written.
pub proof fn lemma_parse_typed_names_good(
    src: Source,
    pos: int,
    close: TokenKind,
    list: Seq<(NameView, TypeView)>,
)
    requires
        tokens_spelled(src.tokens),
        0 <= pos,
        typed_names_good(list),
        close == TokenKind::CloseBrace || close == TokenKind::CloseParenthesis,
    ensures
        match typed_names(src, pos, close, list).result {
            Ok(out) => typed_names_good(out) && pos < typed_names(src, pos, close, list).next
                <= src.tokens.len() - 1,
            Err(_) => true,
        },
    decreases remaining(src, pos),
{
    if check(src, pos, close) {
        lemma_token_taken(src, pos, close);
    } else if consume(src, pos, TokenKind::Identifier).result is Ok {
        lemma_name_is_spelled(src, pos);
        if consume(src, pos + 1, TokenKind::Colon).result is Ok {
            lemma_token_taken(src, pos + 1, TokenKind::Colon);
            lemma_parse_type_good(src, pos + 2);
            let ty = parse_type(src, pos + 2);
            if ty.result is Ok {
                let at = advanced(ty.next, pos + 2);
                let longer = list.push((name_of(src.tokens[pos]), ty.result->Ok_0));
                assert(typed_names_good(longer)) by {
                    assert forall|i: int| 0 <= i < longer.len() implies type_good(
                        (#[trigger] longer[i]).1,
                    ) && well_spelled(name_piece(longer[i].0)) by {
                        if i < list.len() {
                            assert(longer[i] == list[i]);
                        }
                    }
                }
                if check(src, at, close) {
                    lemma_token_taken(src, at, close);
                } else if consume(src, at, TokenKind::Comma).result is Ok {
                    lemma_token_taken(src, at, TokenKind::Comma);
                    lemma_parse_typed_names_good(src, at + 1, close, longer);
                }
            }
        }
    }
}

/// What the parser yields for an import can be written.
pub proof fn lemma_parse_import_good(src: Source, pos: int)
    requires
        tokens_spelled(src.tokens),
        0 <= pos,
    ensures
        inner_outcome(src, pos, parse_import(src, pos)),
{
    if consume(src, pos, TokenKind::Import).result is Ok {
        lemma_token_taken(src, pos, TokenKind::Import);
        if consume(src, pos + 1, TokenKind::Identifier).result is Ok {
            lemma_name_is_spelled(src, pos + 1);
            lemma_mark_is_spelled(TokenKind::Import);
            let pieces = statement_pieces(parse_import(src, pos).result->Ok_0);
            assert forall|i: int| 0 <= i < pieces.len() implies well_spelled(
                #[trigger] pieces[i],
            ) by {}
        }
    }
}

/// What the parser yields for a struct can be written.
pub proof fn lemma_parse_struct_good(src: Source, pos: int)
    requires
        tokens_spelled(src.tokens),
        0 <= pos,
    ensures
        inner_outcome(src, pos, parse_struct(src, pos)),
{
    if consume(src, pos, TokenKind::Struct).result is Ok {
        lemma_token_taken(src, pos, TokenKind::Struct);
        if consume(src, pos + 1, TokenKind::Identifier).result is Ok {
            lemma_name_is_spelled(src, pos + 1);
            if consume(src, pos + 2, TokenKind::OpenBrace).result is Ok {
                lemma_token_taken(src, pos + 2, TokenKind::OpenBrace);
                lemma_parse_typed_names_good(src, pos + 3, TokenKind::CloseBrace, Seq::empty());
                let fields = typed_names(src, pos + 3, TokenKind::CloseBrace, Seq::empty());
                if fields.result is Ok {
                    lemma_struct_good(name_of(src.tokens[pos + 1]), fields.result->Ok_0);
                }
            }
        }
    }
}

/// What the parser yields for a variable or a constant can be written.
pub proof fn lemma_parse_binding_good(src: Source, pos: int, constant: bool)
    requires
        tokens_spelled(src.tokens),
        0 <= pos,
    ensures
        inner_outcome(src, pos, parse_binding(src, pos, constant)),
{
    let keyword = if constant {
        TokenKind::Const
    } else {
        TokenKind::Var
    };
    if consume(src, pos, keyword).result is Ok {
        lemma_token_taken(src, pos, keyword);
        if consume(src, pos + 1, TokenKind::Identifier).result is Ok {
            lemma_name_is_spelled(src, pos + 1);
            let ty = type_annotation(src, pos + 2);
            if check(src, pos + 2, TokenKind::Colon) {
                lemma_token_taken(src, pos + 2, TokenKind::Colon);
                lemma_parse_type_good(src, pos + 3);
            }
            if ty.result is Ok {
                if consume(src, ty.next, TokenKind::Equals).result is Ok {
                    lemma_token_taken(src, ty.next, TokenKind::Equals);
                    lemma_parse_expression_good(src, ty.next + 1);
                    let value = parse_expression(src, ty.next + 1);
                    if value.result is Ok {
                        if consume(src, value.next, TokenKind::Semicolon).result is Ok {
                            lemma_token_taken(src, value.next, TokenKind::Semicolon);
                            lemma_binding_good(
                                constant,
                                name_of(src.tokens[pos + 1]),
                                ty.result->Ok_0,
                                value.result->Ok_0,
                            );
                        }
                    }
                }
            }
        }
    }
}

/// What the parser yields for a `return` can be written.
pub proof fn lemma_parse_return_good(src: Source, pos: int)
    requires
        tokens_spelled(src.tokens),
        0 <= pos,
    ensures
        inner_outcome(src, pos, parse_return(src, pos)),
{
    if consume(src, pos, TokenKind::Return).result is Ok {
        lemma_token_taken(src, pos, TokenKind::Return);
        lemma_mark_is_spelled(TokenKind::Return);
        if check(src, pos + 1, TokenKind::Semicolon) {
            lemma_token_taken(src, pos + 1, TokenKind::Semicolon);
        } else {
            lemma_parse_expression_good(src, pos + 1);
            let value = parse_expression(src, pos + 1);
            if value.result is Ok {
                lemma_spelled_together(
                    seq![mark(TokenKind::Return)],
                    expression_pieces(value.result->Ok_0),
                );
            }
        }
    }
}

/// What the parser yields for an expression statement can be written.
pub proof fn lemma_parse_expression_statement_good(src: Source, pos: int)
    requires
        tokens_spelled(src.tokens),
        0 <= pos,
    ensures
        inner_outcome(src, pos, parse_expression_statement(src, pos)),
{
    lemma_parse_expression_good(src, pos);
    let value = parse_expression(src, pos);
    if value.result is Ok {
        if consume(src, value.next, TokenKind::Semicolon).result is Ok {
            lemma_token_taken(src, value.next, TokenKind::Semicolon);
            lemma_mark_is_spelled(TokenKind::Semicolon);
            lemma_wrapped_spelled(expression_pieces(value.result->Ok_0));
            lemma_spelled_together(
                wrapped(expression_pieces(value.result->Ok_0)),
                seq![mark(TokenKind::Semicolon)],
            );
        }
    }
}

/// A function whose head can be written, and whose body can be written
/// or can end a unit, can be written or can end a unit as its body does.
pub proof fn lemma_function_good(
    name: NameView,
    parameters: Seq<(NameView, TypeView)>,
    result: Option<TypeView>,
    body: StatementView,
)
    requires
        well_spelled(name_piece(name)),
        typed_names_good(parameters),
        optional_type_good(result),
        statement_good(body) || closing_good(body),
    ensures
        statement_good(body) ==> statement_good(
            StatementView::Function(name, parameters, result, Box::new(body)),
        ),
        closing_good(body) ==> closing_good(
            StatementView::Function(name, parameters, result, Box::new(body)),
        ),
{
    lemma_function_spelled(name, parameters, result, body);
}

/// A loop whose head can be written, and whose body can be written or can
/// end a unit, can be written or can end a unit as its body does.
pub proof fn lemma_for_good(name: NameView, range: ExpressionView, body: StatementView)
    requires
        well_spelled(name_piece(name)),
        expression_good(range),
        statement_good(body) || closing_good(body),
    ensures
        statement_good(body) ==> statement_good(StatementView::For(name, range, Box::new(body))),
        closing_good(body) ==> closing_good(StatementView::For(name, range, Box::new(body))),
{
    lemma_for_spelled(name, range, body);
}

/// What the parser yields for a statement can be written, or can end a
/// unit.
pub proof fn lemma_parse_statement_good(src: Source, pos: int)
    requires
        tokens_spelled(src.tokens),
        0 <= pos,
    ensures
        statement_outcome(src, pos, parse_statement(src, pos)),
    decreases remaining(src, pos), 1nat,
{
    match kind_at(src, pos) {
        None => {},
        Some(TokenKind::OpenBrace) => {
            lemma_parse_block_good(src, pos);
        },
        Some(TokenKind::Import) => {
            lemma_parse_import_good(src, pos);
        },
        Some(TokenKind::Struct) => {
            lemma_parse_struct_good(src, pos);
        },
        Some(TokenKind::Fn) => {
            lemma_parse_function_good(src, pos);
        },
        Some(TokenKind::Var) => {
            lemma_parse_binding_good(src, pos, false);
        },
        Some(TokenKind::Const) => {
            lemma_parse_binding_good(src, pos, true);
        },
        Some(TokenKind::For) => {
            lemma_parse_for_good(src, pos);
        },
        Some(TokenKind::Return) => {
            lemma_parse_return_good(src, pos);
        },
        Some(TokenKind::Eof) => {
            assert(pos == src.tokens.len() - 1) by {
                if pos < src.tokens.len() - 1 {
                    assert(well_spelled(crate::spelled_tokens::piece_of(src.tokens[pos])));
                }
            }
        },
        Some(_) => {
            lemma_parse_expression_statement_good(src, pos);
        },
    }
}

/// What the parser yields for a block can be written.
pub proof fn lemma_parse_block_good(src: Source, pos: int)
    requires
        tokens_spelled(src.tokens),
        0 <= pos,
    ensures
        inner_outcome(src, pos, parse_block(src, pos)),
    decreases remaining(src, pos), 0nat,
{
    if consume(src, pos, TokenKind::OpenBrace).result is Ok {
        lemma_token_taken(src, pos, TokenKind::OpenBrace);
        lemma_block_items_good(src, pos + 1, Seq::empty());
    }
}

/// What the parser yields for the rest of a block, after statements that
/// can be written, can be written.
pub proof fn lemma_block_items_good(src: Source, pos: int, list: Seq<StatementView>)
    requires
        tokens_spelled(src.tokens),
        0 <= pos,
        statements_good(list),
    ensures
        inner_outcome(src, pos - 1, block_items(src, pos, list)),
    decreases remaining(src, pos), 2nat,
{
    match kind_at(src, pos) {
        None => {},
        Some(TokenKind::CloseBrace) => {
            lemma_token_taken(src, pos, TokenKind::CloseBrace);
            lemma_block_good(list);
        },
        Some(TokenKind::Semicolon) => {
            lemma_token_taken(src, pos, TokenKind::Semicolon);
            lemma_block_items_good(src, pos + 1, list);
        },
        Some(_) => {
            lemma_parse_statement_good(src, pos);
            let item = parse_statement(src, pos);
            if item.result is Ok {
                let at = advanced(item.next, pos);
                if at <= src.tokens.len() - 1 {
                    lemma_statements_pushed(list, item.result->Ok_0);
                    lemma_block_items_good(src, at, list.push(item.result->Ok_0));
                } else {
                    assert(kind_at(src, at) is None);
                    assert(block_items(src, at, list.push(item.result->Ok_0)).result is Err);
                }
            }
        },
    }
}

/// What the parser yields for a function can be written, or can end a
/// unit.
pub proof fn lemma_parse_function_good(src: Source, pos: int)
    requires
        tokens_spelled(src.tokens),
        0 <= pos,
    ensures
        statement_outcome(src, pos, parse_function(src, pos)),
    decreases remaining(src, pos), 0nat,
{
    if consume(src, pos, TokenKind::Fn).result is Ok {
        lemma_token_taken(src, pos, TokenKind::Fn);
        if consume(src, pos + 1, TokenKind::Identifier).result is Ok {
            lemma_name_is_spelled(src, pos + 1);
            let name = name_of(src.tokens[pos + 1]);
            if consume(src, pos + 2, TokenKind::OpenParenthesis).result is Ok {
                lemma_token_taken(src, pos + 2, TokenKind::OpenParenthesis);
                lemma_parse_typed_names_good(
                    src,
                    pos + 3,
                    TokenKind::CloseParenthesis,
                    Seq::empty(),
                );
                let parameters = typed_names(
                    src,
                    pos + 3,
                    TokenKind::CloseParenthesis,
                    Seq::empty(),
                );
                if parameters.result is Ok {
                    let list = parameters.result->Ok_0;
                    let at = advanced(parameters.next, pos + 3);
                    if check(src, at, TokenKind::Arrow) {
                        lemma_token_taken(src, at, TokenKind::Arrow);
                        lemma_parse_type_good(src, at + 1);
                        let ty = parse_type(src, at + 1);
                        if ty.result is Ok {
                            lemma_function_body_good(
                                src,
                                advanced(ty.next, at + 1),
                                name,
                                list,
                                Some(ty.result->Ok_0),
                            );
                        }
                    } else {
                        lemma_function_body_good(src, at, name, list, None);
                    }
                }
            }
        }
    }
}

/// What the parser yields for a function whose head can be written can be
/// written, or can end a unit.
pub proof fn lemma_function_body_good(
    src: Source,
    pos: int,
    name: NameView,
    parameters: Seq<(NameView, TypeView)>,
    result: Option<TypeView>,
)
    requires
        tokens_spelled(src.tokens),
        0 <= pos,
        well_spelled(name_piece(name)),
        typed_names_good(parameters),
        optional_type_good(result),
    ensures
        statement_outcome(src, pos, function_body(src, pos, name, parameters, result)),
    decreases remaining(src, pos), 2nat,
{
    lemma_parse_statement_good(src, pos);
    let body = parse_statement(src, pos);
    if body.result is Ok {
        lemma_function_good(name, parameters, result, body.result->Ok_0);
    }
}

/// What the parser yields for a loop can be written, or can end a unit.
pub proof fn lemma_parse_for_good(src: Source, pos: int)
    requires
        tokens_spelled(src.tokens),
        0 <= pos,
    ensures
        statement_outcome(src, pos, parse_for(src, pos)),
    decreases remaining(src, pos), 0nat,
{
    if consume(src, pos, TokenKind::For).result is Ok {
        lemma_token_taken(src, pos, TokenKind::For);
        if consume(src, pos + 1, TokenKind::OpenParenthesis).result is Ok {
            lemma_token_taken(src, pos + 1, TokenKind::OpenParenthesis);
            if consume(src, pos + 2, TokenKind::Identifier).result is Ok {
                lemma_name_is_spelled(src, pos + 2);
                if consume(src, pos + 3, TokenKind::In).result is Ok {
                    lemma_token_taken(src, pos + 3, TokenKind::In);
                    lemma_parse_expression_good(src, pos + 4);
                    let range = parse_expression(src, pos + 4);
                    if range.result is Ok {
                        let at = advanced(range.next, pos + 4);
                        if consume(src, at, TokenKind::CloseParenthesis).result is Ok {
                            lemma_token_taken(src, at, TokenKind::CloseParenthesis);
                            lemma_parse_statement_good(src, at + 1);
                            let body = parse_statement(src, at + 1);
                            if body.result is Ok {
                                lemma_for_good(
                                    name_of(src.tokens[pos + 2]),
                                    range.result->Ok_0,
                                    body.result->Ok_0,
                                );
                            }
                        }
                    }
                }
            }
        }
    }
}

} // verus!
