use velocity::ast::{BinaryOperator, Expression, Statement, Type, UnaryOperator};
use velocity::compiler::significant_tokens;
use velocity::error::{Error, ErrorKind, Expected};
use velocity::parser::Parser;
use velocity::span::{Position, Span};
use velocity::token::{Token, TokenKind};
use velocity::tokenizer::tokenize;

fn parser_for(source: &str) -> Parser {
    Parser::new("test".to_string(), significant_tokens(tokenize("test", source).unwrap()))
}

fn here(line: usize, from: usize, to: usize) -> Span {
    Span {
        source: "test".to_string(),
        start: Position { line, column: from },
        end: Position { line, column: to },
    }
}

fn type_shape(ty: &Type) -> String {
    match ty {
        Type::Integer => "int".to_string(),
        Type::UnsignedInteger => "uint".to_string(),
        Type::FloatingPoint => "float".to_string(),
        Type::Boolean => "bool".to_string(),
        Type::Character => "char".to_string(),
        Type::Reference(inner) => format!("(ref {})", type_shape(inner)),
        Type::MutableReference(inner) => format!("(refmut {})", type_shape(inner)),
        Type::Identifier(name) => name.0.clone(),
        Type::Polymorphic(name, arguments) => {
            let list: Vec<String> = arguments.iter().map(type_shape).collect();
            format!("({} [{}])", name.0, list.join(" "))
        }
        Type::Member(inner, name) => format!("(member {} {})", type_shape(inner), name.0),
        Type::Function(parameters, result) => {
            let list: Vec<String> = parameters.iter().map(type_shape).collect();
            format!("(fn [{}] {})", list.join(" "), type_shape(result))
        }
    }
}

fn shape(e: &Expression) -> String {
    match e {
        Expression::Identifier(name) => name.0.clone(),
        Expression::String(text) => format!("{:?}", text.0),
        Expression::Character(c) => format!("{:?}", c.0),
        Expression::Integer(n) => format!("{}", n.0),
        Expression::FloatingPoint(text) => format!("f{}", text.0),
        Expression::Boolean(b) => format!("{}", b.0),
        Expression::Binary(lhs, operator, rhs) => {
            format!("({:?} {} {})", operator, shape(lhs), shape(rhs))
        }
        Expression::Unary(operator, operand) => format!("({:?} {})", operator, shape(operand)),
        Expression::Call(callee, arguments) => {
            let list: Vec<String> = arguments.iter().map(shape).collect();
            format!("(call {} [{}])", shape(callee), list.join(" "))
        }
        Expression::Index(base, index) => format!("(index {} {})", shape(base), shape(index)),
        Expression::Member(base, name) => format!("(member {} {})", shape(base), name.0),
        Expression::Assignment(target, value) => {
            format!("(assign {} {})", shape(target), shape(value))
        }
        Expression::StructLiteral(ty, fields) => {
            let list: Vec<String> = fields
                .iter()
                .map(|f| match &f.0 {
                    Some(name) => format!("{}={}", name.0, shape(&f.1)),
                    None => format!("={}", shape(&f.1)),
                })
                .collect();
            format!("(new {} [{}])", shape(ty), list.join(" "))
        }
        Expression::ArrayLiteral(elements) => {
            let list: Vec<String> = elements.iter().map(shape).collect();
            format!("[{}]", list.join(" "))
        }
    }
}

fn optional_type_shape(ty: &Option<Type>) -> String {
    match ty {
        Some(ty) => type_shape(ty),
        None => "_".to_string(),
    }
}

fn statement_shape(s: &Statement) -> String {
    match s {
        Statement::Block(statements) => {
            let list: Vec<String> = statements.iter().map(statement_shape).collect();
            format!("{{{}}}", list.join(" "))
        }
        Statement::Import(name) => format!("(import {})", name.0),
        Statement::Struct { spanned_id, generic_parameters, fields } => {
            let list: Vec<String> =
                fields.iter().map(|f| format!("{}:{}", f.0 .0, type_shape(&f.1))).collect();
            format!("(struct {} <{}> [{}])", spanned_id.0, generic_parameters.len(), list.join(" "))
        }
        Statement::Enum { spanned_id, .. } => format!("(enum {})", spanned_id.0),
        Statement::Union { spanned_id, .. } => format!("(union {})", spanned_id.0),
        Statement::Function(name, parameters, result, body) => {
            let list: Vec<String> =
                parameters.iter().map(|f| format!("{}:{}", f.0 .0, type_shape(&f.1))).collect();
            format!(
                "(fn {} [{}] {} {})",
                name.0,
                list.join(" "),
                optional_type_shape(result),
                statement_shape(body)
            )
        }
        Statement::Variable(name, ty, value) => {
            format!("(var {} {} {})", name.0, optional_type_shape(ty), shape(value))
        }
        Statement::Constant(name, ty, value) => {
            format!("(const {} {} {})", name.0, optional_type_shape(ty), shape(value))
        }
        Statement::For(name, range, body) => {
            format!("(for {} {} {})", name.0, shape(range), statement_shape(body))
        }
        Statement::Return(value) => match value {
            Some(e) => format!("(return {})", shape(e)),
            None => "(return)".to_string(),
        },
        Statement::Expression(e) => format!("(do {})", shape(e)),
        Statement::Garbage(_) => "garbage".to_string(),
    }
}

fn expression_of(source: &str) -> String {
    shape(&parser_for(source).parse_expression().unwrap())
}

fn type_of(source: &str) -> String {
    type_shape(&parser_for(source).parse_type().unwrap())
}

fn statement_of(source: &str) -> String {
    statement_shape(&parser_for(source).parse_statement().unwrap())
}

fn program_of(source: &str) -> Vec<String> {
    parser_for(source).parse().unwrap().iter().map(statement_shape).collect()
}

fn errors_of(source: &str) -> Vec<Error> {
    parser_for(source).parse().unwrap_err()
}

#[test]
fn multiplication_binds_tighter_than_addition() {
    assert_eq!(expression_of("a + b * c"), "(Plus a (Asterisk b c))");
    assert_eq!(expression_of("a * b + c"), "(Plus (Asterisk a b) c)");
}

#[test]
fn binary_operators_group_to_the_left() {
    assert_eq!(expression_of("a - b - c"), "(Minus (Minus a b) c)");
    assert_eq!(expression_of("a / b * c % d"), "(Percent (Asterisk (Slash a b) c) d)");
    assert_eq!(expression_of("a || b || c"), "(Or (Or a b) c)");
    assert_eq!(expression_of("a == b != c"), "(BangEquals (EqualsEquals a b) c)");
}

#[test]
fn precedence_from_loosest_to_tightest() {
    assert_eq!(
        expression_of("a || b && c == d < e + f * g"),
        "(Or a (And b (EqualsEquals c (LessThan d (Plus e (Asterisk f g))))))"
    );
    assert_eq!(
        expression_of("a * b + c < d == e && f || g"),
        "(Or (And (EqualsEquals (LessThan (Plus (Asterisk a b) c) d) e) f) g)"
    );
}

#[test]
fn comparison_operators() {
    assert_eq!(expression_of("a < b"), "(LessThan a b)");
    assert_eq!(expression_of("a <= b"), "(LessThanEquals a b)");
    assert_eq!(expression_of("a > b"), "(GreaterThan a b)");
    assert_eq!(expression_of("a >= b"), "(GreaterThanEquals a b)");
}

#[test]
fn assignment_groups_to_the_right() {
    assert_eq!(expression_of("a = b = c"), "(assign a (assign b c))");
    assert_eq!(expression_of("a = b + c"), "(assign a (Plus b c))");
}

#[test]
fn parentheses_override_precedence() {
    assert_eq!(expression_of("(a + b) * c"), "(Asterisk (Plus a b) c)");
    assert_eq!(expression_of("a - (b - c)"), "(Minus a (Minus b c))");
    assert_eq!(expression_of("((a))"), "a");
}

#[test]
fn prefix_operators() {
    assert_eq!(expression_of("-a"), "(Minus a)");
    assert_eq!(expression_of("+a"), "(Plus a)");
    assert_eq!(expression_of("!a"), "(Bang a)");
    assert_eq!(expression_of("&a"), "(AddressOf a)");
    assert_eq!(expression_of("&mut a"), "(MutableAddressOf a)");
    assert_eq!(expression_of("- - a"), "(Minus (Minus a))");
    assert_eq!(expression_of("-a * b"), "(Asterisk (Minus a) b)");
    assert_eq!(expression_of("!a.b"), "(Bang (member a b))");
}

#[test]
fn postfix_operations_chain_from_left_to_right() {
    assert_eq!(expression_of("f(a, b)"), "(call f [a b])");
    assert_eq!(expression_of("f()"), "(call f [])");
    assert_eq!(expression_of("a[i]"), "(index a i)");
    assert_eq!(expression_of("a.b.c"), "(member (member a b) c)");
    assert_eq!(expression_of("a.f(x)[0].g"), "(member (index (call (member a f) [x]) 0) g)");
    assert_eq!(expression_of("f(a,)"), "(call f [a])");
}

#[test]
fn struct_literals() {
    assert_eq!(expression_of("Point { x = 1, y = 2 }"), "(new Point [x=1 y=2])");
    assert_eq!(expression_of("Point { = 1, = 2 }"), "(new Point [=1 =2])");
    assert_eq!(expression_of("Point { }"), "(new Point [])");
}

#[test]
fn literals() {
    assert_eq!(expression_of("42"), "42");
    assert_eq!(expression_of("4.25"), "f4.25");
    assert_eq!(expression_of("true"), "true");
    assert_eq!(expression_of("false"), "false");
    assert_eq!(expression_of("\"hi\""), "\"hi\"");
    assert_eq!(expression_of("'c'"), "'c'");
    assert_eq!(expression_of("[1, 2, 3]"), "[1 2 3]");
    assert_eq!(expression_of("[]"), "[]");
    assert_eq!(expression_of("9223372036854775807"), "9223372036854775807");
}

#[test]
fn literal_spans_are_those_of_their_tokens() {
    let e = parser_for("  abc").parse_expression().unwrap();
    assert_eq!(e, Expression::Identifier(("abc".to_string(), here(1, 3, 6))));
    assert_eq!(e.span(), here(1, 3, 6));
    let sum = parser_for("x + 12").parse_expression().unwrap();
    assert_eq!(
        sum,
        Expression::Binary(
            Box::new(Expression::Identifier(("x".to_string(), here(1, 1, 2)))),
            BinaryOperator::Plus,
            Box::new(Expression::Integer((12, here(1, 5, 7)))),
        )
    );
    assert_eq!(sum.span(), here(1, 1, 2));
}

#[test]
fn expression_span_is_that_of_the_leftmost_leaf() {
    let e = parser_for("-f(x).y").parse_expression().unwrap();
    assert_eq!(
        e,
        Expression::Unary(
            UnaryOperator::Minus,
            Box::new(Expression::Member(
                Box::new(Expression::Call(
                    Box::new(Expression::Identifier(("f".to_string(), here(1, 2, 3)))),
                    vec![Expression::Identifier(("x".to_string(), here(1, 4, 5)))],
                )),
                ("y".to_string(), here(1, 7, 8)),
            )),
        )
    );
    assert_eq!(e.span(), here(1, 2, 3));
}

#[test]
fn an_integer_above_the_largest_is_an_invalid_literal() {
    let mut parser = parser_for("9223372036854775808");
    let error = parser.parse_expression().unwrap_err();
    assert_eq!(error.kind, ErrorKind::InvalidLiteral(TokenKind::Integer));
    assert_eq!(error.span, here(1, 1, 20));
    assert_eq!(parser.index, 0);
}

#[test]
fn a_character_token_without_text_is_an_invalid_literal() {
    let token = Token::new(TokenKind::Character, String::new(), here(1, 1, 3));
    let mut parser = Parser::new("test".to_string(), vec![token]);
    let error = parser.parse_primary().unwrap_err();
    assert_eq!(error.kind, ErrorKind::InvalidLiteral(TokenKind::Character));
}

#[test]
fn a_malformed_operand_fails_the_expression() {
    let error = parser_for("a + ;").parse_expression().unwrap_err();
    assert_eq!(
        error.kind,
        ErrorKind::ExpectedToken(Expected::Expression, TokenKind::Semicolon)
    );
    assert_eq!(error.span, here(1, 5, 6));
    let error = parser_for("f(a").parse_expression().unwrap_err();
    assert_eq!(
        error.kind,
        ErrorKind::ExpectedToken(Expected::Kind(TokenKind::Comma), TokenKind::Eof)
    );
    let error = parser_for("(a").parse_expression().unwrap_err();
    assert_eq!(
        error.kind,
        ErrorKind::ExpectedToken(Expected::Kind(TokenKind::CloseParenthesis), TokenKind::Eof)
    );
}

#[test]
fn types() {
    assert_eq!(type_of("int"), "int");
    assert_eq!(type_of("float"), "float");
    assert_eq!(type_of("bool"), "bool");
    assert_eq!(type_of("char"), "char");
    assert_eq!(type_of("Point"), "Point");
    assert_eq!(type_of("&int"), "(ref int)");
    assert_eq!(type_of("&mut Point"), "(refmut Point)");
    assert_eq!(type_of("& &mut int"), "(ref (refmut int))");
    assert_eq!(type_of("Map[K, V]"), "(Map [K V])");
    assert_eq!(type_of("List[List[int]]"), "(List [(List [int])])");
    assert_eq!(type_of("A.B.C"), "(member (member A B) C)");
    assert_eq!(type_of("&A.B"), "(member (ref A) B)");
    assert_eq!(type_of("fn(int, &T) -> bool"), "(fn [int (ref T)] bool)");
    assert_eq!(type_of("fn() -> fn() -> int"), "(fn [] (fn [] int))");
}

#[test]
fn something_else_than_a_type() {
    let error = parser_for("123").parse_type().unwrap_err();
    assert_eq!(error.kind, ErrorKind::ExpectedToken(Expected::Type, TokenKind::Integer));
    let error = parser_for("fn(int) T").parse_type().unwrap_err();
    assert_eq!(
        error.kind,
        ErrorKind::ExpectedToken(Expected::Kind(TokenKind::Arrow), TokenKind::Identifier)
    );
}

#[test]
fn statements() {
    assert_eq!(statement_of("import io"), "(import io)");
    assert_eq!(statement_of("var x = 1;"), "(var x _ 1)");
    assert_eq!(statement_of("var x: int = 1;"), "(var x int 1)");
    assert_eq!(statement_of("const y: &T = z;"), "(const y (ref T) z)");
    assert_eq!(statement_of("return;"), "(return)");
    assert_eq!(statement_of("return a + b;"), "(return (Plus a b))");
    assert_eq!(statement_of("f(x);"), "(do (call f [x]))");
    assert_eq!(statement_of("{ }"), "{}");
    assert_eq!(statement_of("{ a; ; b; }"), "{(do a) (do b)}");
    assert_eq!(statement_of("for (x in xs) { f(x); }"), "(for x xs {(do (call f [x]))})");
    assert_eq!(
        statement_of("struct Point { x: int, y: int }"),
        "(struct Point <0> [x:int y:int])"
    );
    assert_eq!(statement_of("struct Empty { }"), "(struct Empty <0> [])");
}

#[test]
fn functions() {
    assert_eq!(
        statement_of("fn add(a: int, b: int) -> int { return a + b; }"),
        "(fn add [a:int b:int] int {(return (Plus a b))})"
    );
    assert_eq!(statement_of("fn main() { }"), "(fn main [] _ {})");
    assert_eq!(statement_of("fn id(x: T,) return x;"), "(fn id [x:T] _ (return x))");
    assert_eq!(
        statement_of("fn outer() { fn inner() { } }"),
        "(fn outer [] _ {(fn inner [] _ {})})"
    );
}

#[test]
fn the_end_of_the_tokens_is_a_garbage_statement() {
    assert_eq!(program_of(""), vec!["garbage"]);
    assert_eq!(program_of("import a import b"), vec!["(import a)", "(import b)", "garbage"]);
    let statements = parser_for("import a").parse().unwrap();
    assert_eq!(statements[1], Statement::Garbage(here(1, 9, 9)));
}

#[test]
fn layout_is_dropped_before_parsing() {
    assert_eq!(
        program_of("fn f() {\n    var x = 1;\n    return x;\n}\n"),
        vec!["(fn f [] _ {(var x _ 1) (return x)})", "garbage"]
    );
}

#[test]
fn a_layout_token_is_unexpected() {
    let tokens = tokenize("test", "a\nb;").unwrap();
    let errors = Parser::new("test".to_string(), tokens).parse().unwrap_err();
    assert_eq!(
        errors[0].kind,
        ErrorKind::ExpectedToken(Expected::Kind(TokenKind::Semicolon), TokenKind::Linefeed)
    );
}

#[test]
fn a_statement_without_terminator_is_an_error() {
    let errors = errors_of("f(x)");
    assert_eq!(errors.len(), 1);
    assert_eq!(
        errors[0].kind,
        ErrorKind::ExpectedToken(Expected::Kind(TokenKind::Semicolon), TokenKind::Eof)
    );
    assert_eq!(errors[0].span, here(1, 5, 5));
}

#[test]
fn every_failing_statement_is_reported() {
    let errors = errors_of("var = 1; var y = ; var z = 3;");
    assert_eq!(
        errors.iter().map(|e| e.kind.clone()).collect::<Vec<ErrorKind>>(),
        vec![
            ErrorKind::ExpectedToken(Expected::Kind(TokenKind::Identifier), TokenKind::Equals),
            ErrorKind::ExpectedToken(Expected::Expression, TokenKind::Semicolon),
        ]
    );
    assert_eq!(errors[0].span, here(1, 5, 6));
    assert_eq!(errors[1].span, here(1, 18, 19));
}

#[test]
fn parsing_resumes_one_token_after_the_failure() {
    let mut parser = parser_for("var 1 import a");
    let errors = parser.parse().unwrap_err();
    assert_eq!(errors.len(), 1);
    assert_eq!(parser.index, parser.tokens.len());
    let mut parser = parser_for("var 1 import a");
    assert!(parser.parse_statement().is_err());
    assert_eq!(parser.index, 1);
}

#[test]
fn a_block_that_does_not_close_ends_too_early() {
    let tokens = vec![Token::new(TokenKind::OpenBrace, "{".to_string(), here(1, 1, 2))];
    let mut parser = Parser::new("test".to_string(), tokens);
    let error = parser.parse_block().unwrap_err();
    assert_eq!(error.kind, ErrorKind::UnexpectedEndOfFile);
    assert_eq!(error.span, here(1, 1, 2));
}

#[test]
fn no_tokens_parse_to_no_statements() {
    let mut parser = Parser::new("test".to_string(), vec![]);
    assert_eq!(parser.parse().unwrap(), vec![]);
    let error = parser.parse_statement().unwrap_err();
    assert_eq!(error.kind, ErrorKind::UnexpectedEndOfFile);
    assert_eq!(
        error.span,
        Span {
            source: "test".to_string(),
            start: Position { line: 0, column: 0 },
            end: Position { line: 0, column: 0 }
        }
    );
}

#[test]
fn cursor() {
    let mut parser = parser_for("a b");
    assert!(!parser.is_at_end());
    assert!(parser.check(TokenKind::Identifier));
    assert!(!parser.check(TokenKind::Eof));
    assert_eq!(parser.current().unwrap().lexeme, "a");
    assert_eq!(parser.advance().unwrap().lexeme, "a");
    assert_eq!(parser.previous().lexeme, "a");
    assert_eq!(parser.consume(TokenKind::Identifier).unwrap().lexeme, "b");
    let error = parser.consume(TokenKind::Identifier).unwrap_err();
    assert_eq!(
        error.kind,
        ErrorKind::ExpectedToken(Expected::Kind(TokenKind::Identifier), TokenKind::Eof)
    );
    assert_eq!(parser.index, 2);
    assert_eq!(parser.advance().unwrap().kind, TokenKind::Eof);
    assert!(parser.is_at_end());
    assert_eq!(parser.advance().unwrap().kind, TokenKind::Eof);
    assert_eq!(parser.index, 3);
    assert_eq!(parser.current().unwrap_err().kind, ErrorKind::UnexpectedEndOfFile);
    assert_eq!(parser.error(Expected::Type).kind, ErrorKind::UnexpectedEndOfFile);
    assert!(!parser.check(TokenKind::Eof));
}

#[test]
fn named_levels() {
    assert_eq!(shape(&parser_for("a || b && c").parse_or().unwrap()), "(Or a (And b c))");
    assert_eq!(shape(&parser_for("a && b || c").parse_and().unwrap()), "(And a b)");
    assert_eq!(shape(&parser_for("a == b && c").parse_equality().unwrap()), "(EqualsEquals a b)");
    assert_eq!(shape(&parser_for("a < b == c").parse_comparison().unwrap()), "(LessThan a b)");
    assert_eq!(shape(&parser_for("a + b < c").parse_term().unwrap()), "(Plus a b)");
    assert_eq!(shape(&parser_for("a * b + c").parse_factor().unwrap()), "(Asterisk a b)");
    assert_eq!(shape(&parser_for("-a * b").parse_unary().unwrap()), "(Minus a)");
    assert_eq!(shape(&parser_for("a.b + c").parse_call().unwrap()), "(member a b)");
    assert_eq!(shape(&parser_for("a.b").parse_primary().unwrap()), "a");
    assert_eq!(shape(&parser_for("a = b").parse_assignment().unwrap()), "(assign a b)");
    assert_eq!(shape(&parser_for("a + b * c").parse_binary(4).unwrap()), "(Plus a (Asterisk b c))");
    assert_eq!(type_shape(&parser_for("&A.B").parse_reference().unwrap()), "(ref A)");
}

#[test]
fn named_statements() {
    assert_eq!(statement_shape(&parser_for("import a").parse_import().unwrap()), "(import a)");
    assert_eq!(
        statement_shape(&parser_for("struct S { a: int }").parse_struct().unwrap()),
        "(struct S <0> [a:int])"
    );
    assert_eq!(statement_shape(&parser_for("fn f() {}").parse_function().unwrap()), "(fn f [] _ {})");
    assert_eq!(statement_shape(&parser_for("var a = 1;").parse_variable().unwrap()), "(var a _ 1)");
    assert_eq!(
        statement_shape(&parser_for("const a = 1;").parse_constant().unwrap()),
        "(const a _ 1)"
    );
    assert_eq!(
        statement_shape(&parser_for("for (i in r) {}").parse_for().unwrap()),
        "(for i r {})"
    );
    assert_eq!(statement_shape(&parser_for("return 1").parse_return().unwrap()), "(return 1)");
    assert_eq!(statement_shape(&parser_for("{ return; }").parse_block().unwrap()), "{(return)}");
    assert_eq!(
        parser_for("var a = 1;").parse_constant().unwrap_err().kind,
        ErrorKind::ExpectedToken(Expected::Kind(TokenKind::Const), TokenKind::Var)
    );
}

#[test]
fn short_names_of_type_and_block() {
    assert_eq!(type_shape(&parser_for("&A.B").type_().unwrap()), "(member (ref A) B)");
    assert_eq!(statement_shape(&parser_for("{ a; }").block().unwrap()), "{(do a)}");
}
