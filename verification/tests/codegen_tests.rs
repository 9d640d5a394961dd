use velocity::ast::{BinaryOperator, Expression, Statement, Type, UnaryOperator};
use velocity::checked::{get_checked_type_of_expression, CheckedType};
use velocity::codegen::{codegen, codegen_expression, codegen_statement, codegen_type};
use velocity::compiler::{significant_tokens, Compiler};
use velocity::error::ErrorKind;
use velocity::parser::Parser;
use velocity::span::{Position, Span};
use velocity::symbols::{get_symbol, get_symbols, CodegenState, SymbolType};
use velocity::tokenizer::tokenize;

fn at(line: usize, from: usize, to: usize) -> Span {
    Span {
        source: "unit".to_string(),
        start: Position { line, column: from },
        end: Position { line, column: to },
    }
}

fn nowhere() -> Span {
    at(0, 0, 0)
}

fn name(text: &str) -> (String, Span) {
    (text.to_string(), nowhere())
}

fn id(text: &str) -> Expression {
    Expression::Identifier(name(text))
}

fn number(value: i64) -> Expression {
    Expression::Integer((value, nowhere()))
}

fn parse_unit(source: &str) -> Vec<Statement> {
    Parser::new("unit".to_string(), significant_tokens(tokenize("unit", source).unwrap()))
        .parse()
        .unwrap()
}

fn parse_one_expression(source: &str) -> Expression {
    Parser::new("unit".to_string(), significant_tokens(tokenize("unit", source).unwrap()))
        .parse_expression()
        .unwrap()
}

fn state_with(declarations: &[(&str, SymbolType)]) -> CodegenState {
    let mut state = CodegenState::new();
    for (text, kind) in declarations {
        state.declare(text.to_string(), *kind);
    }
    state
}

fn lower(state: &CodegenState, source: &str) -> String {
    codegen_expression(state, &parse_one_expression(source)).unwrap()
}

fn declaration_of(statement: &Statement) -> String {
    let (cpp, hpp) = codegen_statement(&CodegenState::new(), statement).unwrap();
    assert_eq!(cpp, "");
    hpp
}

fn parse_one_statement(source: &str) -> Statement {
    Parser::new("unit".to_string(), significant_tokens(tokenize("unit", source).unwrap()))
        .parse_statement()
        .unwrap()
}

fn implementation_of(source: &str) -> String {
    let statement = parse_one_statement(source);
    let mut state = CodegenState::new();
    get_symbol(&mut state, &statement).unwrap();
    let (cpp, hpp) = codegen_statement(&state, &statement).unwrap();
    assert_eq!(hpp, "");
    cpp
}

#[test]
fn function_gives_a_prototype_and_a_definition() {
    let (cpp, hpp) =
        Compiler::compile_source("unit", "fn add(a: int, b: int) -> int { return a + b; }")
            .unwrap();
    assert_eq!(hpp, "#pragma once\n#include <prelude.hpp>\nint add(int a, int b);\n");
    assert_eq!(
        cpp,
        "#include <prelude.hpp>\n#include \"unit.hpp\"\nint add(int a, int b) {\nreturn a + b;\n}\n"
    );
}

#[test]
fn function_without_return_type_is_void() {
    let statements = parse_unit("fn run() { }");
    let (cpp, hpp) = codegen_statement(&CodegenState::new(), &statements[0]).unwrap();
    assert_eq!(hpp, "void run();\n");
    assert_eq!(cpp, "void run() {\n}\n");
}

#[test]
fn a_body_that_is_no_block_is_put_in_braces() {
    let statements = parse_unit("fn one() -> int return 1");
    let (cpp, hpp) = codegen_statement(&CodegenState::new(), &statements[0]).unwrap();
    assert_eq!(hpp, "int one();\n");
    assert_eq!(cpp, "int one() {\nreturn 1;\n}\n");
}

#[test]
fn struct_gives_fields_constructor_and_formatter() {
    let statements = parse_unit("struct Point { x: int, y: int }");
    assert_eq!(
        declaration_of(&statements[0]),
        "struct Point : public Formatter<Point> {\n    int x;\n    int y;\n\nPoint(int x, int y) : x(x), y(y) {}\n    ~Point() = default;\n\nstd::string format() const {\n    std::stringstream ss;\n    ss << \"Point{\" << \"x = \" << x << \", \" << \"y = \" << y << \"}\";\n    return ss.str();\n}\n\n};\n"
    );
}

#[test]
fn struct_without_fields() {
    let statements = parse_unit("struct Unit { }");
    assert_eq!(
        declaration_of(&statements[0]),
        "struct Unit : public Formatter<Unit> {\n\nUnit()  {}\n    ~Unit() = default;\n\nstd::string format() const {\n    std::stringstream ss;\n    ss << \"Unit{\" << \"}\";\n    return ss.str();\n}\n\n};\n"
    );
}

#[test]
fn generic_struct_is_a_template() {
    let statement = Statement::Struct {
        spanned_id: name("Pair"),
        generic_parameters: vec![name("A"), name("B")],
        fields: vec![
            (name("first"), Type::Identifier(name("A"))),
            (name("second"), Type::Identifier(name("B"))),
        ],
    };
    assert_eq!(
        declaration_of(&statement),
        "template <typename A, typename B>\nstruct Pair : public Formatter<Pair<A, B>> {\n    A first;\n    B second;\n\nPair(A first, B second) : first(first), second(second) {}\n    ~Pair() = default;\n\nstd::string format() const {\n    std::stringstream ss;\n    ss << \"Pair{\" << \"first = \" << first << \", \" << \"second = \" << second << \"}\";\n    return ss.str();\n}\n\n};\n"
    );
}

#[test]
fn enum_variants_stand_in_declaration_order() {
    let statement = Statement::Enum {
        spanned_id: name("Color"),
        generic_parameters: vec![],
        base_type: Some(Type::Integer),
        variants: vec![(name("Red"), Some(number(0))), (name("Green"), None), (name("Blue"), None)],
    };
    assert_eq!(
        declaration_of(&statement),
        "enum class Color : int {\n    Red = 0,\n    Green,\n    Blue,\n};\n"
    );
}

#[test]
fn enum_without_backing_type() {
    let statement = Statement::Enum {
        spanned_id: name("Mode"),
        generic_parameters: vec![],
        base_type: None,
        variants: vec![(name("On"), None), (name("Off"), Some(number(7)))],
    };
    assert_eq!(declaration_of(&statement), "enum class Mode {\n    On,\n    Off = 7,\n};\n");
}

#[test]
fn enum_initializer_with_an_undeclared_base_fails() {
    let statement = Statement::Enum {
        spanned_id: name("Mode"),
        generic_parameters: vec![],
        base_type: None,
        variants: vec![(
            name("On"),
            Some(Expression::Member(Box::new(id("missing")), name("value"))),
        )],
    };
    let error = codegen_statement(&CodegenState::new(), &statement).unwrap_err();
    assert_eq!(error.kind, ErrorKind::UndefinedSymbol("missing".to_string()));
}

#[test]
fn tagged_union_names_an_instance_of_the_variant_type() {
    let statement = Statement::Union {
        spanned_id: name("Value"),
        generic_parameters: vec![],
        tagged: true,
        variants: vec![(Some(name("i")), Type::Integer), (None, Type::FloatingPoint)],
    };
    assert_eq!(declaration_of(&statement), "using Value = TaggedUnion<int, float>;\n");
}

#[test]
fn generic_tagged_union() {
    let statement = Statement::Union {
        spanned_id: name("Maybe"),
        generic_parameters: vec![name("T")],
        tagged: true,
        variants: vec![(None, Type::Identifier(name("T"))), (None, Type::Boolean)],
    };
    assert_eq!(
        declaration_of(&statement),
        "template <typename T>\nusing Maybe = TaggedUnion<T, bool>;\n"
    );
}

#[test]
fn untagged_union_is_a_union_of_its_members() {
    let statement = Statement::Union {
        spanned_id: name("Bits"),
        generic_parameters: vec![],
        tagged: false,
        variants: vec![(Some(name("i")), Type::Integer), (None, Type::Character)],
    };
    assert_eq!(declaration_of(&statement), "union Bits {\n    int i;\n    char;\n};\n");
}

#[test]
fn import_includes_the_unit() {
    let statements = parse_unit("import io");
    assert_eq!(declaration_of(&statements[0]), "#include <io.hpp>\n");
}

#[test]
fn variables_and_constants() {
    assert_eq!(implementation_of("var x = 1;"), "auto x = 1;\n");
    assert_eq!(implementation_of("var x: int = 1;"), "int x = 1;\n");
    assert_eq!(implementation_of("const y = 2;"), "const auto y = 2;\n");
    assert_eq!(implementation_of("const y: &T = z;"), "const const T& y = z;\n");
}

#[test]
fn executable_statements() {
    assert_eq!(implementation_of("f(1, 2);"), "f(1, 2);\n");
    assert_eq!(implementation_of("return;"), "return;\n");
    assert_eq!(implementation_of("return x"), "return x;\n");
    assert_eq!(implementation_of("{ a; { b; } }"), "{\na;\n{\nb;\n}\n}\n");
    assert_eq!(
        implementation_of("for (x in xs) { f(x); }"),
        "for (auto x : xs) {\nf(x);\n}\n"
    );
    assert_eq!(implementation_of("for (x in xs) f(x);"), "for (auto x : xs) {\nf(x);\n}\n");
}

#[test]
fn declarations_inside_a_block_add_nothing_to_the_declaration_unit() {
    let statements = parse_unit("{ struct S { } fn f() { } }");
    let (cpp, hpp) = codegen_statement(&CodegenState::new(), &statements[0]).unwrap();
    assert_eq!(hpp, "");
    assert_eq!(cpp, "{\nvoid f() {\n}\n}\n");
}

#[test]
fn garbage_adds_nothing() {
    let (cpp, hpp) =
        codegen_statement(&CodegenState::new(), &Statement::Garbage(nowhere())).unwrap();
    assert_eq!(cpp, "");
    assert_eq!(hpp, "");
}

#[test]
fn units_begin_with_their_heads() {
    let (cpp, hpp) = codegen(&CodegenState::new(), "main", vec![]).unwrap();
    assert_eq!(cpp, "#include <prelude.hpp>\n#include \"main.hpp\"\n");
    assert_eq!(hpp, "#pragma once\n#include <prelude.hpp>\n");
}

#[test]
fn unit_collects_both_texts_in_order() {
    let (cpp, hpp) = Compiler::compile_source(
        "m",
        "import io\nvar n = 3;\nfn twice(x: int) -> int { return x * 2; }\nstruct E { }\n",
    )
    .unwrap();
    assert_eq!(
        cpp,
        "#include <prelude.hpp>\n#include \"m.hpp\"\nauto n = 3;\nint twice(int x) {\nreturn x * 2;\n}\n"
    );
    assert_eq!(
        hpp,
        "#pragma once\n#include <prelude.hpp>\n#include <io.hpp>\nint twice(int x);\nstruct E : public Formatter<E> {\n\nE()  {}\n    ~E() = default;\n\nstd::string format() const {\n    std::stringstream ss;\n    ss << \"E{\" << \"}\";\n    return ss.str();\n}\n\n};\n"
    );
}

#[test]
fn types_in_cpp() {
    let state = CodegenState::new();
    assert_eq!(codegen_type(&state, &Type::Integer), "int");
    assert_eq!(codegen_type(&state, &Type::UnsignedInteger), "unsigned int");
    assert_eq!(codegen_type(&state, &Type::FloatingPoint), "float");
    assert_eq!(codegen_type(&state, &Type::Character), "char");
    assert_eq!(codegen_type(&state, &Type::Boolean), "bool");
    assert_eq!(codegen_type(&state, &Type::Reference(Box::new(Type::Integer))), "const int&");
    assert_eq!(codegen_type(&state, &Type::MutableReference(Box::new(Type::Integer))), "int&");
    assert_eq!(codegen_type(&state, &Type::Identifier(name("Point"))), "Point");
    assert_eq!(
        codegen_type(
            &state,
            &Type::Polymorphic(name("Map"), vec![Type::Identifier(name("K")), Type::Integer])
        ),
        "Map<K, int>"
    );
    assert_eq!(codegen_type(&state, &Type::Polymorphic(name("Box"), vec![])), "Box<>");
    assert_eq!(
        codegen_type(&state, &Type::Member(Box::new(Type::Identifier(name("A"))), name("B"))),
        "A::B"
    );
    assert_eq!(
        codegen_type(
            &state,
            &Type::Function(vec![Type::Integer, Type::Boolean], Box::new(Type::Character))
        ),
        "char(int, bool)"
    );
}

#[test]
fn expressions_in_cpp() {
    let state = CodegenState::new();
    assert_eq!(lower(&state, "42"), "42");
    assert_eq!(lower(&state, "4.50"), "4.50");
    assert_eq!(lower(&state, "true"), "true");
    assert_eq!(lower(&state, "false"), "false");
    assert_eq!(lower(&state, "\"hi\""), "\"hi\"");
    assert_eq!(lower(&state, "'c'"), "c");
    assert_eq!(lower(&state, "x"), "x");
    assert_eq!(lower(&state, "[1, 2]"), "{1, 2}");
    assert_eq!(lower(&state, "[]"), "{}");
    assert_eq!(lower(&state, "f(a, g(b))"), "f(a, g(b))");
    assert_eq!(lower(&state, "Point { x = 1, y = 2 }"), "Point{1, 2}");
    assert_eq!(lower(&state, "a[i + 1]"), "a[i + 1]");
    assert_eq!(lower(&state, "a = b = c"), "a = b = c");
    assert_eq!(lower(&state, "-a"), "-a");
    assert_eq!(lower(&state, "!a"), "!a");
    assert_eq!(lower(&state, "+a"), "+a");
    assert_eq!(lower(&state, "&a"), "a");
    assert_eq!(lower(&state, "&mut a"), "a");
}

#[test]
fn binary_operators_in_cpp() {
    let state = CodegenState::new();
    assert_eq!(lower(&state, "a + b - c * d / e % f"), "a + b - c * d / e % f");
    assert_eq!(lower(&state, "a == b"), "a == b");
    assert_eq!(lower(&state, "a != b"), "a != b");
    assert_eq!(lower(&state, "a < b"), "a < b");
    assert_eq!(lower(&state, "a <= b"), "a <= b");
    assert_eq!(lower(&state, "a > b"), "a > b");
    assert_eq!(lower(&state, "a >= b"), "a >= b");
    assert_eq!(lower(&state, "a && b || c"), "a && b || c");
}

#[test]
fn negative_integer_literal() {
    let state = CodegenState::new();
    assert_eq!(codegen_expression(&state, &number(-17)).unwrap(), "-17");
    assert_eq!(codegen_expression(&state, &number(i64::MIN)).unwrap(), "-9223372036854775808");
    assert_eq!(codegen_expression(&state, &number(i64::MAX)).unwrap(), "9223372036854775807");
    assert_eq!(codegen_expression(&state, &number(0)).unwrap(), "0");
}

#[test]
fn member_of_an_enumeration_uses_scope_resolution() {
    let state = state_with(&[("MyEnum", SymbolType::Enum)]);
    assert_eq!(lower(&state, "MyEnum.Variant"), "MyEnum::Variant");
}

#[test]
fn member_of_a_variable_uses_the_dot() {
    let state = state_with(&[("instance", SymbolType::Variable)]);
    assert_eq!(lower(&state, "instance.field"), "instance.field");
    assert_eq!(lower(&state, "instance.a.b"), "instance.a.b");
}

#[test]
fn member_of_anything_else_declared_uses_the_dot() {
    let state = state_with(&[
        ("f", SymbolType::Function),
        ("S", SymbolType::Struct),
        ("U", SymbolType::Union),
    ]);
    assert_eq!(lower(&state, "f.x"), "f.x");
    assert_eq!(lower(&state, "S.x"), "S.x");
    assert_eq!(lower(&state, "U.x"), "U.x");
    assert_eq!(lower(&state, "f(1).x"), "f(1).x");
    assert_eq!(lower(&state, "\"s\".length"), "\"s\".length");
}

#[test]
fn the_latest_declaration_of_a_name_decides() {
    let state = state_with(&[("T", SymbolType::Enum), ("T", SymbolType::Variable)]);
    assert_eq!(lower(&state, "T.x"), "T.x");
    let state = state_with(&[("T", SymbolType::Variable), ("T", SymbolType::Enum)]);
    assert_eq!(lower(&state, "T.x"), "T::x");
}

#[test]
fn member_of_an_undeclared_name_is_an_undefined_symbol() {
    let state = state_with(&[("other", SymbolType::Variable)]);
    let error =
        codegen_expression(&state, &parse_one_expression("  undeclared_name.field")).unwrap_err();
    assert_eq!(error.kind, ErrorKind::UndefinedSymbol("undeclared_name".to_string()));
    assert_eq!(error.span, at(1, 3, 18));
    assert_eq!(error.message(), "undefined symbol `undeclared_name`");
}

#[test]
fn the_first_undefined_symbol_is_reported() {
    let state = CodegenState::new();
    let error = codegen_expression(&state, &parse_one_expression("f(a.x, b.y)")).unwrap_err();
    assert_eq!(error.kind, ErrorKind::UndefinedSymbol("a".to_string()));
    let error = codegen_expression(&state, &parse_one_expression("p.x + q.y")).unwrap_err();
    assert_eq!(error.kind, ErrorKind::UndefinedSymbol("p".to_string()));
}

#[test]
fn undefined_symbol_ends_the_generation_of_the_unit() {
    let errors = Compiler::compile_source("unit", "var a = 1;\nreturn missing.x\n").unwrap_err();
    assert_eq!(errors.len(), 1);
    assert_eq!(errors[0].kind, ErrorKind::UndefinedSymbol("missing".to_string()));
    assert_eq!(errors[0].span, at(2, 8, 15));
}

#[test]
fn a_declared_variable_resolves_in_the_unit() {
    let (cpp, _) = Compiler::compile_source("unit", "var p = q;\nreturn p.x\n").unwrap();
    assert_eq!(cpp, "#include <prelude.hpp>\n#include \"unit.hpp\"\nauto p = q;\nreturn p.x;\n");
}

#[test]
fn checked_types_of_literals_and_names() {
    let state = state_with(&[("E", SymbolType::Enum), ("v", SymbolType::Variable)]);
    let check = |source: &str| {
        get_checked_type_of_expression(&state, &parse_one_expression(source)).unwrap()
    };
    assert_eq!(check("1"), CheckedType::Integer);
    assert_eq!(check("1.5"), CheckedType::FloatingPoint);
    assert_eq!(check("'c'"), CheckedType::Character);
    assert_eq!(check("true"), CheckedType::Boolean);
    assert_eq!(check("\"s\""), CheckedType::Reference(Box::new(CheckedType::Character)));
    assert_eq!(check("E"), CheckedType::Enum("E".to_string()));
    assert_eq!(check("v"), CheckedType::Identifier("v".to_string()));
    assert_eq!(check("&v"), CheckedType::Reference(Box::new(CheckedType::Identifier("v".to_string()))));
    assert_eq!(
        check("&mut v"),
        CheckedType::MutableReference(Box::new(CheckedType::Identifier("v".to_string())))
    );
    assert_eq!(
        check("v.x"),
        CheckedType::Member(Box::new(CheckedType::Identifier("v".to_string())), "x".to_string())
    );
    assert_eq!(check("-1"), CheckedType::Integer);
    assert_eq!(check("1 + v"), CheckedType::Integer);
    assert_eq!(check("v(1)"), CheckedType::Identifier("v".to_string()));
    assert_eq!(check("v[1]"), CheckedType::Identifier("v".to_string()));
    assert_eq!(check("v = 1"), CheckedType::Identifier("v".to_string()));
    assert_eq!(check("E { }"), CheckedType::Enum("E".to_string()));
}

#[test]
fn checked_type_of_an_array_literal() {
    let state = CodegenState::new();
    let check = |source: &str| {
        get_checked_type_of_expression(&state, &parse_one_expression(source)).unwrap()
    };
    assert_eq!(check("[]"), CheckedType::Polymorphic("Array".to_string(), vec![]));
    assert_eq!(
        check("[1, 2, 3]"),
        CheckedType::Polymorphic("Array".to_string(), vec![CheckedType::Integer])
    );
    assert_eq!(
        check("[1, 2.5, 3]"),
        CheckedType::Polymorphic(
            "Array".to_string(),
            vec![CheckedType::Polymorphic(
                "Variant".to_string(),
                vec![
                    CheckedType::Polymorphic(
                        "Variant".to_string(),
                        vec![CheckedType::Integer, CheckedType::FloatingPoint]
                    ),
                    CheckedType::Integer
                ]
            )]
        )
    );
    assert_eq!(
        check("[[1], [2]]"),
        CheckedType::Polymorphic(
            "Array".to_string(),
            vec![CheckedType::Polymorphic("Array".to_string(), vec![CheckedType::Integer])]
        )
    );
}

#[test]
fn checked_type_of_an_undeclared_name() {
    let state = CodegenState::new();
    let error =
        get_checked_type_of_expression(&state, &parse_one_expression("[1, nope]")).unwrap_err();
    assert_eq!(error.kind, ErrorKind::UndefinedSymbol("nope".to_string()));
    assert_eq!(error.span, at(1, 5, 9));
}

#[test]
fn checked_types_compare_by_structure() {
    let a = CheckedType::Polymorphic(
        "Array".to_string(),
        vec![CheckedType::Integer, CheckedType::Enum("E".to_string())],
    );
    let b = CheckedType::Polymorphic(
        "Array".to_string(),
        vec![CheckedType::Integer, CheckedType::Enum("E".to_string())],
    );
    let c = CheckedType::Polymorphic(
        "Array".to_string(),
        vec![CheckedType::Integer, CheckedType::Identifier("E".to_string())],
    );
    assert!(a.same_as(&b));
    assert!(!a.same_as(&c));
    assert!(!CheckedType::Integer.same_as(&CheckedType::UnsignedInteger));
    assert!(
        CheckedType::Function(vec![CheckedType::Boolean], Box::new(CheckedType::Character)).same_as(
            &CheckedType::Function(vec![CheckedType::Boolean], Box::new(CheckedType::Character))
        )
    );
    assert!(
        !CheckedType::Function(vec![], Box::new(CheckedType::Character)).same_as(
            &CheckedType::Function(vec![CheckedType::Boolean], Box::new(CheckedType::Character))
        )
    );
    assert!(!CheckedType::Reference(Box::new(CheckedType::Integer))
        .same_as(&CheckedType::MutableReference(Box::new(CheckedType::Integer))));
}

#[test]
fn symbols_are_collected_in_declaration_order() {
    let statements = parse_unit(
        "var a = 1;\nconst b = 2;\nfn f() { var c = 3; { var d = 4; } }\nstruct S { }\nfor (i in a) { var e = 5; }\n",
    );
    let mut state = CodegenState::new();
    get_symbols(&mut state, &statements).unwrap();
    assert_eq!(state.names, vec!["a", "b", "f", "c", "d", "S"]);
    assert_eq!(
        state.symbols,
        vec![
            (0, SymbolType::Variable),
            (1, SymbolType::Variable),
            (2, SymbolType::Function),
            (3, SymbolType::Variable),
            (4, SymbolType::Variable),
            (5, SymbolType::Struct),
        ]
    );
    assert_eq!(state.lookup("d"), Some(4));
    assert_eq!(state.lookup("e"), None);
    assert_eq!(state.kind(2), SymbolType::Function);
    assert_eq!(state.get_symbol_from_id(5), "S");
}

#[test]
fn enumerations_and_unions_are_symbols() {
    let mut state = CodegenState::new();
    get_symbol(
        &mut state,
        &Statement::Enum {
            spanned_id: name("Color"),
            generic_parameters: vec![],
            base_type: None,
            variants: vec![],
        },
    )
    .unwrap();
    get_symbol(
        &mut state,
        &Statement::Union {
            spanned_id: name("Value"),
            generic_parameters: vec![],
            tagged: true,
            variants: vec![],
        },
    )
    .unwrap();
    get_symbol(&mut state, &Statement::Return(None)).unwrap();
    assert_eq!(state.names, vec!["Color", "Value"]);
    assert_eq!(state.symbols, vec![(0, SymbolType::Enum), (1, SymbolType::Union)]);
}

#[test]
fn a_name_declared_twice_stands_for_the_later_symbol() {
    let mut state = CodegenState::new();
    assert_eq!(state.declare("x".to_string(), SymbolType::Variable), 0);
    assert_eq!(state.declare("y".to_string(), SymbolType::Function), 1);
    assert_eq!(state.declare("x".to_string(), SymbolType::Enum), 2);
    assert_eq!(state.lookup("x"), Some(2));
    assert_eq!(state.lookup("y"), Some(1));
    assert_eq!(state.get_symbol_from_id(0), "x");
}

#[test]
fn an_enumeration_in_the_unit_decides_the_separator() {
    let statements = vec![
        Statement::Enum {
            spanned_id: name("Color"),
            generic_parameters: vec![],
            base_type: None,
            variants: vec![(name("Red"), None)],
        },
        Statement::Return(Some(Expression::Member(Box::new(id("Color")), name("Red")))),
    ];
    let mut state = CodegenState::new();
    get_symbols(&mut state, &statements).unwrap();
    let (cpp, hpp) = codegen(&state, "unit", statements).unwrap();
    assert_eq!(cpp, "#include <prelude.hpp>\n#include \"unit.hpp\"\nreturn Color::Red;\n");
    assert_eq!(hpp, "#pragma once\n#include <prelude.hpp>\nenum class Color {\n    Red,\n};\n");
}

#[test]
fn hand_built_expressions() {
    let state = CodegenState::new();
    let e = Expression::Binary(
        Box::new(Expression::Unary(UnaryOperator::Minus, Box::new(id("a")))),
        BinaryOperator::Asterisk,
        Box::new(Expression::Index(Box::new(id("b")), Box::new(number(0)))),
    );
    assert_eq!(codegen_expression(&state, &e).unwrap(), "-a * b[0]");
    let s = Expression::String(("a\"b".to_string(), nowhere()));
    assert_eq!(codegen_expression(&state, &s).unwrap(), "\"a\"b\"");
}
