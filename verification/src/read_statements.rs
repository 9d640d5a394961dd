//! Reading back statements: the parser, run on tokens that carry the
//! pieces of a statement, yields that statement again, up to spans.

use crate::ast::{ExpressionView, NameView, StatementView, TypeView};
use crate::carry::{carries, lemma_carries_one, lemma_carries_split, lemma_carries_wrapped};
use crate::grammar::{
    advanced, block_items, check, done, function_body, kind_at, name_of, parse_binding,
    parse_expression, parse_expression_statement, parse_for, parse_function, parse_import,
    parse_return, parse_statement, parse_struct, parse_type, type_annotation, typed_names, Parsed,
    Source,
};
use crate::printer::{
    annotation_pieces, block_pieces, expression_pieces, mark, name_piece, statement_pieces,
    type_pieces, typed_name_pieces, wrapped, Piece,
};
use crate::read_expressions::{
    lemma_expression_begins, lemma_expression_read_back, lemma_wrapped_expression_read_back, stops,
    stops_at,
};
use crate::read_types::{lemma_type_begins, lemma_type_read_back};
use crate::shape::{
    bare_expression, bare_name, bare_names, bare_optional_type, bare_statement, bare_statements,
    bare_typed_names, begins_with_keyword, closing, expression_shaped, need_of,
    optional_type_shaped, statement_shaped, statements_shaped, typed_names_shaped, Need,
};
use crate::token::TokenKind;
use vstd::prelude::*;

verus! {

/// Whether the token at `p` is what the statement `s`, which ends before
/// it, asks for.
pub open spec fn follows_well(src: Source, p: int, s: StatementView) -> bool {
    match need_of(s) {
        Need::Nothing => true,
        Need::Stop => stops_at(src, p),
        Need::Semicolon => check(src, p, TokenKind::Semicolon),
    }
}

/// The kinds of the tokens that begin a statement as the printer writes
/// it.
pub open spec fn begins_statement(kind: TokenKind) -> bool {
    kind == TokenKind::Import || kind == TokenKind::Struct || kind == TokenKind::Fn || kind
        == TokenKind::Var || kind == TokenKind::Const || kind == TokenKind::For || kind
        == TokenKind::Return || kind == TokenKind::OpenBrace || kind
        == TokenKind::OpenParenthesis
}

/// The pieces of a statement begin with a token that begins a statement;
/// those of a statement that begins with a keyword, with a token that ends
/// the expression before it.
pub proof fn lemma_statement_begins(s: StatementView)
    requires
        statement_shaped(s),
    ensures
        statement_pieces(s).len() > 0,
        begins_statement(statement_pieces(s)[0].kind),
        begins_with_keyword(s) ==> stops(statement_pieces(s)[0].kind),
{
}

/// A semicolon is what every statement asks for after it.
pub proof fn lemma_semicolon_follows(src: Source, p: int, s: StatementView)
    requires
        check(src, p, TokenKind::Semicolon),
    ensures
        follows_well(src, p, s),
{
    assert(stops(TokenKind::Semicolon));
}

/// Reading back a list of names with their types, each followed by a
/// comma, and the token `close` that ends it.
pub proof fn lemma_typed_names_read_back(
    src: Source,
    pos: int,
    close: TokenKind,
    fields: Seq<(NameView, TypeView)>,
    from: int,
    list: Seq<(NameView, TypeView)>,
) -> (out: Seq<(NameView, TypeView)>)
    requires
        0 <= from <= fields.len(),
        typed_names_shaped(fields, from),
        close == TokenKind::CloseBrace || close == TokenKind::CloseParenthesis,
        carries(src.tokens, pos, typed_name_pieces(fields, from) + seq![mark(close)]),
    ensures
        typed_names(src, pos, close, list) == done(
            out,
            pos + typed_name_pieces(fields, from).len() + 1,
        ),
        out.len() == list.len() + fields.len() - from,
        out.take(list.len() as int) == list,
        bare_typed_names(out.skip(list.len() as int)) == bare_typed_names(fields.skip(from)),
    decreases fields.len() - from,
{
    let tokens = src.tokens;
    let end = seq![mark(close)];
    let rest = typed_name_pieces(fields, from);
    lemma_carries_split(tokens, pos, rest, end);
    if from >= fields.len() {
        lemma_carries_one(tokens, pos, mark(close));
        assert(list.take(list.len() as int) == list);
        assert(bare_typed_names(list.skip(list.len() as int)) =~= bare_typed_names(
            fields.skip(from),
        ));
        list
    } else {
        let head = seq![name_piece(fields[from].0), mark(TokenKind::Colon)];
        let ty = type_pieces(fields[from].1);
        let comma = seq![mark(TokenKind::Comma)];
        let tail = typed_name_pieces(fields, from + 1);
        assert(rest + end =~= head + (ty + (comma + (tail + end))));
        lemma_carries_split(tokens, pos, head, ty + (comma + (tail + end)));
        assert(tokens[pos + 0].kind == head[0].kind);
        assert(tokens[pos + 0].lexeme == head[0].lexeme);
        assert(tokens[pos + 1].kind == head[1].kind);
        lemma_carries_split(tokens, pos + 2, ty, comma + (tail + end));
        let at = pos + 2 + ty.len();
        lemma_carries_split(tokens, at, comma, tail + end);
        lemma_carries_one(tokens, at, mark(TokenKind::Comma));
        let t = lemma_type_read_back(src, pos + 2, fields[from].1);
        let first = (name_of(tokens[pos]), t);
        assert(advanced(at, pos + 2) == at);
        let out = lemma_typed_names_read_back(src, at + 1, close, fields, from + 1, list.push(first));
        assert(out.take(list.len() as int) == list) by {
            assert(out.take(list.len() as int) =~= out.take(list.len() + 1 as int).take(
                list.len() as int,
            ));
            assert(list.push(first).take(list.len() as int) =~= list);
        }
        assert(out[list.len() as int] == first) by {
            assert(out.take(list.len() + 1 as int)[list.len() as int] == first);
        }
        let mine = bare_typed_names(out.skip(list.len() as int));
        let theirs = bare_typed_names(fields.skip(from));
        let inner_mine = bare_typed_names(out.skip(list.len() + 1 as int));
        let inner_theirs = bare_typed_names(fields.skip(from + 1));
        assert forall|j: int| 0 <= j < mine.len() implies mine[j] == theirs[j] by {
            if j > 0 {
                assert(out.skip(list.len() as int)[j] == out.skip(list.len() + 1 as int)[j - 1]);
                assert(fields.skip(from)[j] == fields.skip(from + 1)[j - 1]);
                assert(inner_mine[j - 1] == inner_theirs[j - 1]);
            }
        }
        assert(mine =~= theirs);
        out
    }
}

/// Reading back an import.
pub proof fn lemma_import_read_back(src: Source, pos: int, s: StatementView) -> (out:
    StatementView)
    requires
        s is Import,
        carries(src.tokens, pos, statement_pieces(s)),
    ensures
        parse_statement(src, pos) == done(out, pos + statement_pieces(s).len()),
        bare_statement(out) == bare_statement(s),
{
    let tokens = src.tokens;
    let pieces = statement_pieces(s);
    assert(tokens[pos + 0].kind == pieces[0].kind);
    assert(tokens[pos + 1].kind == pieces[1].kind);
    assert(tokens[pos + 1].lexeme == pieces[1].lexeme);
    let out = StatementView::Import(name_of(tokens[pos + 1]));
    assert(parse_import(src, pos) == done(out, pos + 2));
    out
}

/// Reading back a struct.
pub proof fn lemma_struct_read_back(src: Source, pos: int, s: StatementView) -> (out:
    StatementView)
    requires
        s is Struct,
        statement_shaped(s),
        carries(src.tokens, pos, statement_pieces(s)),
    ensures
        parse_statement(src, pos) == done(out, pos + statement_pieces(s).len()),
        bare_statement(out) == bare_statement(s),
{
    let tokens = src.tokens;
    let pieces = statement_pieces(s);
    match s {
        StatementView::Struct { spanned_id, generic_parameters, fields } => {
            let head = seq![
                mark(TokenKind::Struct),
                name_piece(spanned_id),
                mark(TokenKind::OpenBrace),
            ];
            let close = seq![mark(TokenKind::CloseBrace)];
            let list_pieces = typed_name_pieces(fields, 0);
            assert(pieces =~= head + (list_pieces + close));
            lemma_carries_split(tokens, pos, head, list_pieces + close);
            assert(tokens[pos + 0].kind == head[0].kind);
            assert(tokens[pos + 1].kind == head[1].kind);
            assert(tokens[pos + 1].lexeme == head[1].lexeme);
            assert(tokens[pos + 2].kind == head[2].kind);
            let list = lemma_typed_names_read_back(
                src,
                pos + 3,
                TokenKind::CloseBrace,
                fields,
                0,
                Seq::empty(),
            );
            assert(list =~= list.skip(0));
            assert(fields =~= fields.skip(0));
            let out = StatementView::Struct {
                spanned_id: name_of(tokens[pos + 1]),
                generic_parameters: Seq::empty(),
                fields: list,
            };
            assert(parse_struct(src, pos) == done(out, pos + pieces.len()));
            assert(bare_names(Seq::empty()) =~= bare_names(generic_parameters));
            out
        },
        _ => s,
    }
}

/// Reading back the optional type of a variable or a constant, before the
/// `=`.
pub proof fn lemma_annotation_read_back(src: Source, pos: int, ty: Option<TypeView>) -> (out:
    Option<TypeView>)
    requires
        optional_type_shaped(ty),
        carries(src.tokens, pos, annotation_pieces(TokenKind::Colon, ty)),
        check(src, pos + annotation_pieces(TokenKind::Colon, ty).len(), TokenKind::Equals),
    ensures
        type_annotation(src, pos) == done(
            out,
            pos + annotation_pieces(TokenKind::Colon, ty).len(),
        ),
        bare_optional_type(out) == bare_optional_type(ty),
{
    let tokens = src.tokens;
    match ty {
        Some(t) => {
            lemma_carries_split(tokens, pos, seq![mark(TokenKind::Colon)], type_pieces(t));
            lemma_carries_one(tokens, pos, mark(TokenKind::Colon));
            let out = lemma_type_read_back(src, pos + 1, t);
            Some(out)
        },
        None => None,
    }
}

/// Reading back a variable or a constant.
pub proof fn lemma_binding_read_back(src: Source, pos: int, s: StatementView) -> (out:
    StatementView)
    requires
        s is Variable || s is Constant,
        statement_shaped(s),
        carries(src.tokens, pos, statement_pieces(s)),
    ensures
        parse_statement(src, pos) == done(out, pos + statement_pieces(s).len()),
        bare_statement(out) == bare_statement(s),
{
    let tokens = src.tokens;
    let pieces = statement_pieces(s);
    let constant = s is Constant;
    let (name, ty, value) = match s {
        StatementView::Variable(name, ty, value) => (name, ty, value),
        StatementView::Constant(name, ty, value) => (name, ty, value),
        _ => arbitrary(),
    };
    let keyword = if constant {
        TokenKind::Const
    } else {
        TokenKind::Var
    };
    let head = seq![mark(keyword), name_piece(name)];
    let annotation = annotation_pieces(TokenKind::Colon, ty);
    let equals = seq![mark(TokenKind::Equals)];
    let body = expression_pieces(value);
    let end = seq![mark(TokenKind::Semicolon)];
    assert(pieces =~= head + (annotation + (equals + (body + end))));
    lemma_carries_split(tokens, pos, head, annotation + (equals + (body + end)));
    assert(tokens[pos + 0].kind == head[0].kind);
    assert(tokens[pos + 1].kind == head[1].kind);
    assert(tokens[pos + 1].lexeme == head[1].lexeme);
    lemma_carries_split(tokens, pos + 2, annotation, equals + (body + end));
    let mid = pos + 2 + annotation.len();
    lemma_carries_split(tokens, mid, equals, body + end);
    lemma_carries_one(tokens, mid, mark(TokenKind::Equals));
    lemma_carries_split(tokens, mid + 1, body, end);
    let far = mid + 1 + body.len();
    lemma_carries_one(tokens, far, mark(TokenKind::Semicolon));
    let t = lemma_annotation_read_back(src, pos + 2, ty);
    let v = lemma_expression_read_back(src, mid + 1, value);
    let out = if constant {
        StatementView::Constant(name_of(tokens[pos + 1]), t, v)
    } else {
        StatementView::Variable(name_of(tokens[pos + 1]), t, v)
    };
    assert(parse_binding(src, pos, constant) == done(out, far + 1));
    out
}

/// Reading back a `return`.
pub proof fn lemma_return_read_back(src: Source, pos: int, s: StatementView) -> (out:
    StatementView)
    requires
        s is Return,
        statement_shaped(s),
        carries(src.tokens, pos, statement_pieces(s)),
        follows_well(src, pos + statement_pieces(s).len(), s),
    ensures
        parse_statement(src, pos) == done(out, pos + statement_pieces(s).len()),
        bare_statement(out) == bare_statement(s),
{
    let tokens = src.tokens;
    let pieces = statement_pieces(s);
    assert(tokens[pos + 0].kind == pieces[0].kind);
    match s {
        StatementView::Return(Some(e)) => {
            lemma_carries_split(tokens, pos, seq![mark(TokenKind::Return)], expression_pieces(e));
            lemma_expression_begins(e);
            assert(tokens[pos + 1 + 0].kind == expression_pieces(e)[0].kind);
            let v = lemma_expression_read_back(src, pos + 1, e);
            let out = StatementView::Return(Some(v));
            assert(parse_return(src, pos) == done(out, pos + pieces.len()));
            out
        },
        _ => {
            let out = StatementView::Return(None);
            assert(parse_return(src, pos) == done(out, pos + 1));
            out
        },
    }
}

/// Reading back an expression statement.
pub proof fn lemma_expression_statement_read_back(src: Source, pos: int, s: StatementView) -> (out:
    StatementView)
    requires
        s is Expression,
        statement_shaped(s),
        carries(src.tokens, pos, statement_pieces(s)),
    ensures
        parse_statement(src, pos) == done(out, pos + statement_pieces(s).len()),
        bare_statement(out) == bare_statement(s),
{
    let tokens = src.tokens;
    let pieces = statement_pieces(s);
    match s {
        StatementView::Expression(e) => {
            let body = wrapped(expression_pieces(e));
            let end = seq![mark(TokenKind::Semicolon)];
            lemma_carries_split(tokens, pos, body, end);
            lemma_carries_wrapped(tokens, pos, expression_pieces(e));
            let p = pos + body.len();
            lemma_carries_one(tokens, p, mark(TokenKind::Semicolon));
            let v = lemma_wrapped_expression_read_back(src, pos, e);
            let out = StatementView::Expression(v);
            assert(parse_expression_statement(src, pos) == done(out, p + 1));
            out
        },
        _ => s,
    }
}

/// Whether the statement `out` is read at `pos`, and ends before `end`.
#[verifier::opaque]
pub open spec fn statement_read(src: Source, pos: int, out: StatementView, end: int) -> bool {
    parse_statement(src, pos) == done(out, end)
}

/// Whether the rest of a block is read at `pos`, after the statements
/// `list`: the block holds the statements `out` and ends before `end`.
#[verifier::opaque]
pub open spec fn items_read(
    src: Source,
    pos: int,
    list: Seq<StatementView>,
    out: Seq<StatementView>,
    end: int,
) -> bool {
    block_items(src, pos, list) == done(StatementView::Block(out), end)
}

/// What reading back the head of a function gives: the name, the
/// parameters and the return type.
pub struct FunctionHead {
    pub name: NameView,
    pub parameters: Seq<(NameView, TypeView)>,
    pub result: Option<TypeView>,
}

/// What reading back the head of a loop gives: the variable and what it
/// runs over.
pub struct ForHead {
    pub name: NameView,
    pub range: ExpressionView,
}

/// What a loop with the head `head` is, given what its body was read as.
pub open spec fn for_body(head: ForHead, body: Parsed<StatementView>) -> Parsed<StatementView> {
    match body.result {
        Err(_) => body,
        Ok(s) => done(StatementView::For(head.name, head.range, Box::new(s)), body.next),
    }
}

/// Whether the head `head` of a function is read at `pos`, and its body
/// begins at `start`.
#[verifier::opaque]
pub open spec fn function_head_read(src: Source, pos: int, start: int, head: FunctionHead) -> bool {
    check(src, pos, TokenKind::Fn) && parse_function(src, pos) == function_body(
        src,
        start,
        head.name,
        head.parameters,
        head.result,
    )
}

/// Whether the head `head` of a loop is read at `pos`, and its body
/// begins at `start`.
#[verifier::opaque]
pub open spec fn for_head_read(src: Source, pos: int, start: int, head: ForHead) -> bool {
    check(src, pos, TokenKind::For) && parse_for(src, pos) == for_body(
        head,
        parse_statement(src, start),
    )
}

/// A block is read where its opening brace stands and the rest of it is
/// read.
pub proof fn lemma_block_opens(src: Source, pos: int, out: Seq<StatementView>, end: int)
    requires
        check(src, pos, TokenKind::OpenBrace),
        items_read(src, pos + 1, Seq::empty(), out, end),
    ensures
        statement_read(src, pos, StatementView::Block(out), end),
{
    reveal(statement_read);
    reveal(items_read);
}

/// The rest of a block is read where its closing brace stands.
pub proof fn lemma_items_close(src: Source, pos: int, list: Seq<StatementView>)
    requires
        check(src, pos, TokenKind::CloseBrace),
    ensures
        items_read(src, pos, list, list, pos + 1),
{
    reveal(items_read);
}

/// The rest of a block is read where a statement is read, a semicolon
/// follows it, and the rest of the block is read after that.
pub proof fn lemma_items_step(
    src: Source,
    pos: int,
    list: Seq<StatementView>,
    first: StatementView,
    at: int,
    out: Seq<StatementView>,
    end: int,
)
    requires
        statement_read(src, pos, first, at),
        at > pos,
        kind_at(src, pos) is Some,
        begins_statement(kind_at(src, pos)->0),
        check(src, at, TokenKind::Semicolon),
        items_read(src, at + 1, list.push(first), out, end),
    ensures
        items_read(src, pos, list, out, end),
{
    reveal(statement_read);
    reveal(items_read);
    assert(block_items(src, at, list.push(first)) == block_items(src, at + 1, list.push(first)));
}

/// A function is what its head and its body are read as.
pub proof fn lemma_function_unfolds(
    src: Source,
    pos: int,
    parameters: Seq<(NameView, TypeView)>,
    result: Option<TypeView>,
    at: int,
    start: int,
)
    requires
        check(src, pos, TokenKind::Fn),
        check(src, pos + 1, TokenKind::Identifier),
        check(src, pos + 2, TokenKind::OpenParenthesis),
        typed_names(src, pos + 3, TokenKind::CloseParenthesis, Seq::empty()) == done(
            parameters,
            at,
        ),
        at > pos + 3,
        match result {
            Some(r) => check(src, at, TokenKind::Arrow) && parse_type(src, at + 1) == done(
                r,
                start,
            ) && start > at + 1,
            None => !check(src, at, TokenKind::Arrow) && start == at,
        },
    ensures
        function_head_read(
            src,
            pos,
            start,
            FunctionHead { name: name_of(src.tokens[pos + 1]), parameters, result },
        ),
{
    reveal(function_head_read);
}

/// A loop is what its head and its body are read as.
pub proof fn lemma_for_unfolds(src: Source, pos: int, range: ExpressionView, at: int)
    requires
        check(src, pos, TokenKind::For),
        check(src, pos + 1, TokenKind::OpenParenthesis),
        check(src, pos + 2, TokenKind::Identifier),
        check(src, pos + 3, TokenKind::In),
        parse_expression(src, pos + 4) == done(range, at),
        at > pos + 4,
        check(src, at, TokenKind::CloseParenthesis),
    ensures
        for_head_read(
            src,
            pos,
            at + 1,
            ForHead { name: name_of(src.tokens[pos + 2]), range },
        ),
{
    reveal(for_head_read);
}

/// A function whose head and body were read is read.
pub proof fn lemma_function_assembles(
    src: Source,
    pos: int,
    start: int,
    head: FunctionHead,
    body: StatementView,
    end: int,
)
    requires
        function_head_read(src, pos, start, head),
        statement_read(src, start, body, end),
    ensures
        statement_read(
            src,
            pos,
            StatementView::Function(head.name, head.parameters, head.result, Box::new(body)),
            end,
        ),
{
    reveal(function_head_read);
    reveal(statement_read);
}

/// A loop whose head and body were read is read.
pub proof fn lemma_for_assembles(
    src: Source,
    pos: int,
    start: int,
    head: ForHead,
    body: StatementView,
    end: int,
)
    requires
        for_head_read(src, pos, start, head),
        statement_read(src, start, body, end),
    ensures
        statement_read(
            src,
            pos,
            StatementView::For(head.name, head.range, Box::new(body)),
            end,
        ),
{
    reveal(for_head_read);
    reveal(statement_read);
}

/// Reading the token `Eof` as a statement.
pub proof fn lemma_garbage_read_back(src: Source, pos: int) -> (out: StatementView)
    requires
        check(src, pos, TokenKind::Eof),
    ensures
        statement_read(src, pos, out, pos + 1),
        out is Garbage,
{
    reveal(statement_read);
    StatementView::Garbage(src.tokens[pos].span)
}

/// Whether a token that can begin the body of a function or of a loop
/// stands at `p`: one that begins a statement, or `Eof`.
pub open spec fn body_begins_at(src: Source, p: int) -> bool {
    match kind_at(src, p) {
        Some(kind) => begins_statement(kind) || kind == TokenKind::Eof,
        None => false,
    }
}

/// The pieces of the parameters and of the return type of a function:
/// what stands after the opening parenthesis, before the body.
pub open spec fn signature_pieces(
    parameters: Seq<(NameView, TypeView)>,
    result: Option<TypeView>,
) -> Seq<Piece> {
    typed_name_pieces(parameters, 0) + seq![mark(TokenKind::CloseParenthesis)] + annotation_pieces(
        TokenKind::Arrow,
        result,
    )
}

/// The pieces of a function before its body.
pub open spec fn function_head(
    name: NameView,
    parameters: Seq<(NameView, TypeView)>,
    result: Option<TypeView>,
) -> Seq<Piece> {
    seq![mark(TokenKind::Fn), name_piece(name), mark(TokenKind::OpenParenthesis)]
        + signature_pieces(parameters, result)
}

/// The pieces of a loop before its body.
pub open spec fn for_head(name: NameView, range: ExpressionView) -> Seq<Piece> {
    seq![
        mark(TokenKind::For),
        mark(TokenKind::OpenParenthesis),
        name_piece(name),
        mark(TokenKind::In),
    ] + expression_pieces(range) + seq![mark(TokenKind::CloseParenthesis)]
}

/// Reading back the head of a function from its parameters on.
pub proof fn lemma_signature_read_back(
    src: Source,
    pos: int,
    parameters: Seq<(NameView, TypeView)>,
    result: Option<TypeView>,
) -> (out: FunctionHead)
    requires
        typed_names_shaped(parameters, 0),
        optional_type_shaped(result),
        check(src, pos, TokenKind::Fn),
        check(src, pos + 1, TokenKind::Identifier),
        check(src, pos + 2, TokenKind::OpenParenthesis),
        carries(src.tokens, pos + 3, signature_pieces(parameters, result)),
        body_begins_at(src, pos + 3 + signature_pieces(parameters, result).len()),
    ensures
        function_head_read(src, pos, pos + 3 + signature_pieces(parameters, result).len(), out),
        out.name == name_of(src.tokens[pos + 1]),
        bare_typed_names(out.parameters) == bare_typed_names(parameters),
        bare_optional_type(out.result) == bare_optional_type(result),
{
    let tokens = src.tokens;
    let close = seq![mark(TokenKind::CloseParenthesis)];
    let list_pieces = typed_name_pieces(parameters, 0);
    let annotation = annotation_pieces(TokenKind::Arrow, result);
    lemma_carries_split(tokens, pos + 3, list_pieces + close, annotation);
    let list = lemma_typed_names_read_back(
        src,
        pos + 3,
        TokenKind::CloseParenthesis,
        parameters,
        0,
        Seq::empty(),
    );
    assert(list =~= list.skip(0));
    assert(parameters =~= parameters.skip(0));
    let at = pos + 3 + list_pieces.len() + 1;
    let start = at + annotation.len();
    match result {
        Some(t) => {
            lemma_carries_split(tokens, at, seq![mark(TokenKind::Arrow)], type_pieces(t));
            lemma_carries_one(tokens, at, mark(TokenKind::Arrow));
            let r = lemma_type_read_back(src, at + 1, t);
            lemma_type_begins(t);
            lemma_function_unfolds(src, pos, list, Some(r), at, start);
            FunctionHead { name: name_of(tokens[pos + 1]), parameters: list, result: Some(r) }
        },
        None => {
            lemma_function_unfolds(src, pos, list, None, at, start);
            FunctionHead { name: name_of(tokens[pos + 1]), parameters: list, result: None }
        },
    }
}

/// Reading back a function up to its body.
pub proof fn lemma_function_head_read_back(
    src: Source,
    pos: int,
    name: NameView,
    parameters: Seq<(NameView, TypeView)>,
    result: Option<TypeView>,
) -> (out: FunctionHead)
    requires
        typed_names_shaped(parameters, 0),
        optional_type_shaped(result),
        carries(src.tokens, pos, function_head(name, parameters, result)),
        body_begins_at(src, pos + function_head(name, parameters, result).len()),
    ensures
        function_head_read(src, pos, pos + function_head(name, parameters, result).len(), out),
        bare_name(out.name) == bare_name(name),
        bare_typed_names(out.parameters) == bare_typed_names(parameters),
        bare_optional_type(out.result) == bare_optional_type(result),
{
    let tokens = src.tokens;
    let head = seq![mark(TokenKind::Fn), name_piece(name), mark(TokenKind::OpenParenthesis)];
    let rest = signature_pieces(parameters, result);
    lemma_carries_split(tokens, pos, head, rest);
    assert(tokens[pos + 0].kind == head[0].kind);
    assert(tokens[pos + 1].kind == head[1].kind);
    assert(tokens[pos + 1].lexeme == head[1].lexeme);
    assert(tokens[pos + 2].kind == head[2].kind);
    lemma_signature_read_back(src, pos, parameters, result)
}

/// Reading back a loop up to its body.
pub proof fn lemma_for_head_read_back(
    src: Source,
    pos: int,
    name: NameView,
    range: ExpressionView,
) -> (out: ForHead)
    requires
        expression_shaped(range),
        carries(src.tokens, pos, for_head(name, range)),
    ensures
        for_head_read(src, pos, pos + for_head(name, range).len(), out),
        bare_name(out.name) == bare_name(name),
        bare_expression(out.range) == bare_expression(range),
{
    let tokens = src.tokens;
    let pieces = for_head(name, range);
    let head = seq![
        mark(TokenKind::For),
        mark(TokenKind::OpenParenthesis),
        name_piece(name),
        mark(TokenKind::In),
    ];
    let close = seq![mark(TokenKind::CloseParenthesis)];
    let middle = expression_pieces(range);
    assert(pieces =~= head + (middle + close));
    lemma_carries_split(tokens, pos, head, middle + close);
    assert(tokens[pos + 0].kind == head[0].kind);
    assert(tokens[pos + 1].kind == head[1].kind);
    assert(tokens[pos + 2].kind == head[2].kind);
    assert(tokens[pos + 2].lexeme == head[2].lexeme);
    assert(tokens[pos + 3].kind == head[3].kind);
    lemma_carries_split(tokens, pos + 4, middle, close);
    let at = pos + 4 + middle.len();
    lemma_carries_one(tokens, at, mark(TokenKind::CloseParenthesis));
    lemma_expression_begins(range);
    let r = lemma_expression_read_back(src, pos + 4, range);
    lemma_for_unfolds(src, pos, r, at);
    ForHead { name: name_of(tokens[pos + 2]), range: r }
}

/// Reading back a block.
pub proof fn lemma_block_read_back(src: Source, pos: int, s: StatementView) -> (out:
    StatementView)
    requires
        s is Block,
        statement_shaped(s),
        carries(src.tokens, pos, statement_pieces(s)),
    ensures
        statement_read(src, pos, out, pos + statement_pieces(s).len()),
        bare_statement(out) == bare_statement(s),
    decreases s, 0nat,
{
    let tokens = src.tokens;
    let pieces = statement_pieces(s);
    match s {
        StatementView::Block(items) => {
            let open = seq![mark(TokenKind::OpenBrace)];
            let close = seq![mark(TokenKind::CloseBrace)];
            let inner = block_pieces(items, 0);
            assert(pieces =~= open + (inner + close));
            lemma_carries_split(tokens, pos, open, inner + close);
            lemma_carries_one(tokens, pos, mark(TokenKind::OpenBrace));
            let list = lemma_block_items_read_back(src, pos + 1, items, 0, Seq::empty());
            assert(list =~= list.skip(0));
            assert(items =~= items.skip(0));
            lemma_block_opens(src, pos, list, pos + pieces.len());
            StatementView::Block(list)
        },
        _ => s,
    }
}

/// Reading back the statements of a block, each followed by a semicolon,
/// and the closing brace.
pub proof fn lemma_block_items_read_back(
    src: Source,
    pos: int,
    items: Seq<StatementView>,
    from: int,
    list: Seq<StatementView>,
) -> (out: Seq<StatementView>)
    requires
        0 <= from <= items.len(),
        statements_shaped(items, from),
        carries(src.tokens, pos, block_pieces(items, from) + seq![mark(TokenKind::CloseBrace)]),
    ensures
        items_read(src, pos, list, out, pos + block_pieces(items, from).len() + 1),
        out.len() == list.len() + items.len() - from,
        out.take(list.len() as int) == list,
        bare_statements(out.skip(list.len() as int)) == bare_statements(items.skip(from)),
    decreases items, items.len() - from,
{
    let tokens = src.tokens;
    let close = seq![mark(TokenKind::CloseBrace)];
    let rest = block_pieces(items, from);
    lemma_carries_split(tokens, pos, rest, close);
    if from >= items.len() {
        lemma_carries_one(tokens, pos, mark(TokenKind::CloseBrace));
        lemma_items_close(src, pos, list);
        assert(list.take(list.len() as int) == list);
        assert(bare_statements(list.skip(list.len() as int)) =~= bare_statements(
            items.skip(from),
        ));
        list
    } else {
        let item = statement_pieces(items[from]);
        let semicolon = seq![mark(TokenKind::Semicolon)];
        let tail = block_pieces(items, from + 1);
        assert(rest + close =~= item + (semicolon + (tail + close)));
        lemma_carries_split(tokens, pos, item, semicolon + (tail + close));
        let at = pos + item.len();
        lemma_carries_split(tokens, at, semicolon, tail + close);
        lemma_carries_one(tokens, at, mark(TokenKind::Semicolon));
        lemma_statement_begins(items[from]);
        assert(item[0].kind == tokens[pos + 0].kind);
        lemma_semicolon_follows(src, at, items[from]);
        let first = lemma_statement_read_back(src, pos, items[from]);
        let out = lemma_block_items_read_back(src, at + 1, items, from + 1, list.push(first));
        lemma_items_step(src, pos, list, first, at, out, at + 1 + tail.len() + 1);
        lemma_pushed(out, list, first);
        let mine = bare_statements(out.skip(list.len() as int));
        let theirs = bare_statements(items.skip(from));
        let inner_mine = bare_statements(out.skip(list.len() + 1 as int));
        let inner_theirs = bare_statements(items.skip(from + 1));
        assert forall|j: int| 0 <= j < mine.len() implies mine[j] == theirs[j] by {
            if j > 0 {
                assert(out.skip(list.len() as int)[j] == out.skip(list.len() + 1 as int)[j - 1]);
                assert(items.skip(from)[j] == items.skip(from + 1)[j - 1]);
                assert(inner_mine[j - 1] == inner_theirs[j - 1]);
            }
        }
        assert(mine =~= theirs);
        out
    }
}

/// A sequence that begins with `list` and one more element begins with
/// `list`, and holds that element next.
pub proof fn lemma_pushed<T>(out: Seq<T>, list: Seq<T>, first: T)
    requires
        out.len() > list.len(),
        out.take(list.len() as int + 1) == list.push(first),
    ensures
        out.take(list.len() as int) == list,
        out[list.len() as int] == first,
{
    let longer = out.take(list.len() as int + 1);
    assert(out.take(list.len() as int) =~= longer.take(list.len() as int));
    assert(list.push(first).take(list.len() as int) =~= list);
    assert(longer[list.len() as int] == first);
}

/// Reading back a function.
pub proof fn lemma_function_read_back(src: Source, pos: int, s: StatementView) -> (out:
    StatementView)
    requires
        s is Function,
        statement_shaped(s),
        carries(src.tokens, pos, statement_pieces(s)),
        follows_well(src, pos + statement_pieces(s).len(), s),
    ensures
        statement_read(src, pos, out, pos + statement_pieces(s).len()),
        bare_statement(out) == bare_statement(s),
    decreases s, 0nat,
{
    let tokens = src.tokens;
    match s {
        StatementView::Function(name, parameters, result, body) => {
            let head = function_head(name, parameters, result);
            let inner = statement_pieces(*body);
            assert(statement_pieces(s) =~= head + inner);
            lemma_carries_split(tokens, pos, head, inner);
            let start = pos + head.len();
            lemma_statement_begins(*body);
            assert(tokens[start + 0].kind == inner[0].kind);
            let h = lemma_function_head_read_back(src, pos, name, parameters, result);
            let b = lemma_statement_read_back(src, start, *body);
            lemma_function_assembles(src, pos, start, h, b, start + inner.len());
            StatementView::Function(h.name, h.parameters, h.result, Box::new(b))
        },
        _ => s,
    }
}

/// Reading back a loop.
pub proof fn lemma_for_read_back(src: Source, pos: int, s: StatementView) -> (out: StatementView)
    requires
        s is For,
        statement_shaped(s),
        carries(src.tokens, pos, statement_pieces(s)),
        follows_well(src, pos + statement_pieces(s).len(), s),
    ensures
        statement_read(src, pos, out, pos + statement_pieces(s).len()),
        bare_statement(out) == bare_statement(s),
    decreases s, 0nat,
{
    let tokens = src.tokens;
    match s {
        StatementView::For(name, range, body) => {
            let head = for_head(name, range);
            let inner = statement_pieces(*body);
            assert(statement_pieces(s) =~= head + inner);
            lemma_carries_split(tokens, pos, head, inner);
            let start = pos + head.len();
            let h = lemma_for_head_read_back(src, pos, name, range);
            let b = lemma_statement_read_back(src, start, *body);
            lemma_for_assembles(src, pos, start, h, b, start + inner.len());
            StatementView::For(h.name, h.range, Box::new(b))
        },
        _ => s,
    }
}

/// The pieces of a statement that can end a unit are none, or begin with
/// a keyword.
pub proof fn lemma_closing_begins(s: StatementView)
    requires
        closing(s),
    ensures
        s is Garbage ==> statement_pieces(s).len() == 0,
        !(s is Garbage) ==> statement_pieces(s).len() > 0 && begins_statement(
            statement_pieces(s)[0].kind,
        ) && stops(statement_pieces(s)[0].kind),
{
}

/// Reading back a statement that ends a unit: it takes the token `Eof`
/// that follows its pieces.
pub proof fn lemma_closing_read_back(src: Source, pos: int, s: StatementView) -> (out:
    StatementView)
    requires
        closing(s),
        carries(src.tokens, pos, statement_pieces(s)),
        src.tokens.len() == pos + statement_pieces(s).len() + 1,
        src.tokens.last().kind == TokenKind::Eof,
    ensures
        statement_read(src, pos, out, src.tokens.len() as int),
        bare_statement(out) == bare_statement(s),
    decreases s,
{
    let tokens = src.tokens;
    match s {
        StatementView::Function(name, parameters, result, body) => {
            let head = function_head(name, parameters, result);
            let inner = statement_pieces(*body);
            assert(statement_pieces(s) =~= head + inner);
            lemma_carries_split(tokens, pos, head, inner);
            let start = pos + head.len();
            lemma_closing_begins(*body);
            if !(*body is Garbage) {
                assert(tokens[start + 0].kind == inner[0].kind);
            }
            let h = lemma_function_head_read_back(src, pos, name, parameters, result);
            let b = lemma_closing_read_back(src, start, *body);
            lemma_function_assembles(src, pos, start, h, b, tokens.len() as int);
            StatementView::Function(h.name, h.parameters, h.result, Box::new(b))
        },
        StatementView::For(name, range, body) => {
            let head = for_head(name, range);
            let inner = statement_pieces(*body);
            assert(statement_pieces(s) =~= head + inner);
            lemma_carries_split(tokens, pos, head, inner);
            let start = pos + head.len();
            let h = lemma_for_head_read_back(src, pos, name, range);
            let b = lemma_closing_read_back(src, start, *body);
            lemma_for_assembles(src, pos, start, h, b, tokens.len() as int);
            StatementView::For(h.name, h.range, Box::new(b))
        },
        _ => lemma_garbage_read_back(src, pos),
    }
}

/// Reading back a statement that is no block, no function and no loop.
pub proof fn lemma_simple_read_back(src: Source, pos: int, s: StatementView) -> (out:
    StatementView)
    requires
        statement_shaped(s),
        !(s is Block),
        !(s is Function),
        !(s is For),
        carries(src.tokens, pos, statement_pieces(s)),
        follows_well(src, pos + statement_pieces(s).len(), s),
    ensures
        statement_read(src, pos, out, pos + statement_pieces(s).len()),
        bare_statement(out) == bare_statement(s),
{
    reveal(statement_read);
    match s {
        StatementView::Import(..) => lemma_import_read_back(src, pos, s),
        StatementView::Struct { .. } => lemma_struct_read_back(src, pos, s),
        StatementView::Variable(..) => lemma_binding_read_back(src, pos, s),
        StatementView::Constant(..) => lemma_binding_read_back(src, pos, s),
        StatementView::Return(..) => lemma_return_read_back(src, pos, s),
        StatementView::Expression(..) => lemma_expression_statement_read_back(src, pos, s),
        _ => s,
    }
}

/// Reading back a statement.
pub proof fn lemma_statement_read_back(src: Source, pos: int, s: StatementView) -> (out:
    StatementView)
    requires
        statement_shaped(s),
        carries(src.tokens, pos, statement_pieces(s)),
        follows_well(src, pos + statement_pieces(s).len(), s),
    ensures
        statement_read(src, pos, out, pos + statement_pieces(s).len()),
        statement_pieces(s).len() > 0,
        bare_statement(out) == bare_statement(s),
    decreases s, 1nat,
{
    lemma_statement_begins(s);
    match s {
        StatementView::Block(..) => lemma_block_read_back(src, pos, s),
        StatementView::Function(..) => lemma_function_read_back(src, pos, s),
        StatementView::For(..) => lemma_for_read_back(src, pos, s),
        _ => lemma_simple_read_back(src, pos, s),
    }
}

} // verus!
