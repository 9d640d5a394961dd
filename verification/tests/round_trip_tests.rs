use velocity::ast::{Expression, Statement, Type};
use velocity::compiler::Compiler;
use velocity::printer::{lay_out_expression, lay_out_program, print_program, write_pieces, Fragment};
use velocity::span::{Position, Span};
use velocity::token::TokenKind;

fn blank() -> Span {
    Span { source: String::new(), start: Position { line: 0, column: 0 }, end: Position { line: 0, column: 0 } }
}

fn bare_type(ty: &Type) -> Type {
    match ty {
        Type::Integer => Type::Integer,
        Type::UnsignedInteger => Type::UnsignedInteger,
        Type::FloatingPoint => Type::FloatingPoint,
        Type::Boolean => Type::Boolean,
        Type::Character => Type::Character,
        Type::Reference(inner) => Type::Reference(Box::new(bare_type(inner))),
        Type::MutableReference(inner) => Type::MutableReference(Box::new(bare_type(inner))),
        Type::Identifier(name) => Type::Identifier((name.0.clone(), blank())),
        Type::Polymorphic(name, arguments) => {
            Type::Polymorphic((name.0.clone(), blank()), arguments.iter().map(bare_type).collect())
        }
        Type::Member(inner, name) => {
            Type::Member(Box::new(bare_type(inner)), (name.0.clone(), blank()))
        }
        Type::Function(parameters, result) => Type::Function(
            parameters.iter().map(bare_type).collect(),
            Box::new(bare_type(result)),
        ),
    }
}

fn bare_expression(e: &Expression) -> Expression {
    match e {
        Expression::Identifier(name) => Expression::Identifier((name.0.clone(), blank())),
        Expression::String(text) => Expression::String((text.0.clone(), blank())),
        Expression::Character(c) => Expression::Character((c.0, blank())),
        Expression::Integer(n) => Expression::Integer((n.0, blank())),
        Expression::FloatingPoint(text) => Expression::FloatingPoint((text.0.clone(), blank())),
        Expression::Boolean(b) => Expression::Boolean((b.0, blank())),
        Expression::Binary(lhs, operator, rhs) => Expression::Binary(
            Box::new(bare_expression(lhs)),
            *operator,
            Box::new(bare_expression(rhs)),
        ),
        Expression::Unary(operator, operand) => {
            Expression::Unary(*operator, Box::new(bare_expression(operand)))
        }
        Expression::Call(callee, arguments) => Expression::Call(
            Box::new(bare_expression(callee)),
            arguments.iter().map(bare_expression).collect(),
        ),
        Expression::Index(base, index) => {
            Expression::Index(Box::new(bare_expression(base)), Box::new(bare_expression(index)))
        }
        Expression::Member(base, name) => {
            Expression::Member(Box::new(bare_expression(base)), (name.0.clone(), blank()))
        }
        Expression::Assignment(target, value) => Expression::Assignment(
            Box::new(bare_expression(target)),
            Box::new(bare_expression(value)),
        ),
        Expression::StructLiteral(ty, fields) => Expression::StructLiteral(
            Box::new(bare_expression(ty)),
            fields
                .iter()
                .map(|f| (f.0.as_ref().map(|n| (n.0.clone(), blank())), bare_expression(&f.1)))
                .collect(),
        ),
        Expression::ArrayLiteral(elements) => {
            Expression::ArrayLiteral(elements.iter().map(bare_expression).collect())
        }
    }
}

fn bare_statement(s: &Statement) -> Statement {
    match s {
        Statement::Block(items) => Statement::Block(items.iter().map(bare_statement).collect()),
        Statement::Import(name) => Statement::Import((name.0.clone(), blank())),
        Statement::Struct { spanned_id, generic_parameters, fields } => Statement::Struct {
            spanned_id: (spanned_id.0.clone(), blank()),
            generic_parameters: generic_parameters.iter().map(|n| (n.0.clone(), blank())).collect(),
            fields: fields.iter().map(|f| ((f.0 .0.clone(), blank()), bare_type(&f.1))).collect(),
        },
        Statement::Enum { spanned_id, .. } => Statement::Import((spanned_id.0.clone(), blank())),
        Statement::Union { spanned_id, .. } => Statement::Import((spanned_id.0.clone(), blank())),
        Statement::Function(name, parameters, result, body) => Statement::Function(
            (name.0.clone(), blank()),
            parameters.iter().map(|f| ((f.0 .0.clone(), blank()), bare_type(&f.1))).collect(),
            result.as_ref().map(bare_type),
            Box::new(bare_statement(body)),
        ),
        Statement::Variable(name, ty, value) => Statement::Variable(
            (name.0.clone(), blank()),
            ty.as_ref().map(bare_type),
            bare_expression(value),
        ),
        Statement::Constant(name, ty, value) => Statement::Constant(
            (name.0.clone(), blank()),
            ty.as_ref().map(bare_type),
            bare_expression(value),
        ),
        Statement::For(name, range, body) => Statement::For(
            (name.0.clone(), blank()),
            bare_expression(range),
            Box::new(bare_statement(body)),
        ),
        Statement::Return(value) => Statement::Return(value.as_ref().map(bare_expression)),
        Statement::Expression(e) => Statement::Expression(bare_expression(e)),
        Statement::Garbage(_) => Statement::Garbage(blank()),
    }
}

fn bare_unit(statements: &[Statement]) -> Vec<Statement> {
    statements.iter().map(bare_statement).collect()
}

fn comes_back(source: &str) -> String {
    let first = Compiler::parse_source("first", source).unwrap();
    let text = print_program(&first);
    let second = Compiler::parse_source("second", &text).unwrap();
    assert_eq!(bare_unit(&second), bare_unit(&first));
    let third = Compiler::parse_source("third", &print_program(&second)).unwrap();
    assert_eq!(bare_unit(&third), bare_unit(&first));
    assert_eq!(print_program(&second), text);
    text
}

#[test]
fn printed_text_of_a_function() {
    assert_eq!(
        comes_back("fn add(a: int, b: int) -> int { return a + b; }"),
        "fn add ( a : int , b : int , ) -> int { return ( a ) + ( b ) ; } "
    );
}

#[test]
fn printed_text_of_declarations() {
    assert_eq!(comes_back("import io"), "import io ");
    assert_eq!(
        comes_back("struct Point { x: int, y: &mut List[int] }"),
        "struct Point { x : int , y : & mut List [ int , ] , } "
    );
    assert_eq!(comes_back("var x = 1;"), "var x = 1 ; ");
    assert_eq!(comes_back("const k: A.B = f(1, 2);"), "const k : A . B = ( f ) ( 1 , 2 , ) ; ");
    assert_eq!(comes_back(""), "");
}

#[test]
fn printed_text_of_expressions() {
    assert_eq!(comes_back("a + b * c;"), "( ( a ) + ( ( b ) * ( c ) ) ) ; ");
    assert_eq!(comes_back("(a + b) * c;"), "( ( ( a ) + ( b ) ) * ( c ) ) ; ");
    assert_eq!(comes_back("x = -y;"), "( ( x ) = ( - ( y ) ) ) ; ");
    assert_eq!(comes_back("p.q[0](&mut r);"), "( ( ( ( p ) . q ) [ 0 ] ) ( & mut ( r ) , ) ) ; ");
    assert_eq!(comes_back("P { x = 1, = 2 };"), "( ( P ) { x = 1 , = 2 , } ) ; ");
    assert_eq!(comes_back("[1, 2.5, true, 'c'];"), "( [ 1 , 2.5 , true , 'c' , ] ) ; ");
}

#[test]
fn strings_and_characters_come_back_with_their_escapes() {
    assert_eq!(
        comes_back("var s = \"a\\n\\t\\\"b\\\\\";"),
        "var s = \"a\\n\\t\\\"b\\\\\" ; "
    );
    assert_eq!(comes_back("var c = '\\'';"), "var c = '\\'' ; ");
    assert_eq!(comes_back("var c = '\"';"), "var c = '\"' ; ");
    assert_eq!(comes_back("var s = \"it's\";"), "var s = \"it's\" ; ");
    assert_eq!(comes_back("var n = '\\n';"), "var n = '\\n' ; ");
}

#[test]
fn whole_units_come_back() {
    comes_back(
        "import io\n\nstruct Point { x: int, y: int }\n\nfn norm(p: &Point) -> int {\n    var total = p;\n    for (i in [1, 2]) { use(i); }\n    return total.x * total.x + total.y * total.y;\n}\n",
    );
    comes_back("fn f(g: fn(int, bool) -> &T, h: fn() -> A.B) { { } { return; } }");
    comes_back("for (i in xs) for (j in ys) { var k = i == j || !(i < j) && i >= 0; }");
    comes_back("const a = 1e9; const b = 12.; var c = 7E-3; var d = 9223372036854775807;");
    comes_back("fn f() { return g(a = b = c, [[1], []], T[U] { }); } var z = f;");
    comes_back("// only a comment\n");
    comes_back("fn last() return 1 + 2");
    comes_back("return x var y = 1;");
}

#[test]
fn comments_and_layout_do_not_come_back() {
    let plain = comes_back("var x = 1;\nvar y = 2;\n");
    let noisy = comes_back("// first\nvar x = 1; // one\n\n\n    var   y =\t2;\n");
    assert_eq!(plain, noisy);
}

#[test]
fn a_statement_after_a_return_may_be_taken_into_it() {
    let first = Compiler::parse_source("first", "return a\nb;").unwrap();
    assert_eq!(first.len(), 3);
    let text = print_program(&first);
    assert_eq!(text, "return a ( b ) ; ");
    assert!(Compiler::parse_source("second", &text).is_err());
}

#[test]
fn what_has_no_syntax_is_left_out() {
    let n = |text: &str| (text.to_string(), blank());
    let statements = vec![
        Statement::Enum {
            spanned_id: n("E"),
            generic_parameters: vec![],
            base_type: None,
            variants: vec![],
        },
        Statement::Struct {
            spanned_id: n("S"),
            generic_parameters: vec![n("T")],
            fields: vec![(n("x"), Type::UnsignedInteger)],
        },
        Statement::Union {
            spanned_id: n("U"),
            generic_parameters: vec![],
            tagged: true,
            variants: vec![],
        },
        Statement::Garbage(blank()),
        Statement::Expression(Expression::Integer((-5, blank()))),
    ];
    assert_eq!(print_program(&statements), "struct S { x : int , } ( -5 ) ; ");
}

#[test]
fn pieces_are_written_with_a_blank_after_each() {
    let mut fragments = Vec::new();
    let e = Expression::Member(
        Box::new(Expression::Identifier(("a".to_string(), blank()))),
        ("b".to_string(), blank()),
    );
    lay_out_expression(&e, &mut fragments);
    assert_eq!(
        fragments,
        vec![
            Fragment { kind: TokenKind::OpenParenthesis, lexeme: "(".to_string() },
            Fragment { kind: TokenKind::Identifier, lexeme: "a".to_string() },
            Fragment { kind: TokenKind::CloseParenthesis, lexeme: ")".to_string() },
            Fragment { kind: TokenKind::Dot, lexeme: ".".to_string() },
            Fragment { kind: TokenKind::Identifier, lexeme: "b".to_string() },
        ]
    );
    assert_eq!(write_pieces(&fragments), "( a ) . b ");
    assert_eq!(lay_out_program(&vec![Statement::Return(None)]).len(), 1);
}
