use velocity::compiler::{significant_tokens, Compiler};
use velocity::error::{ErrorKind, Expected};
use velocity::token::TokenKind;
use velocity::tokenizer::tokenize;

#[test]
fn compiler_collects_its_files() {
    let mut compiler = Compiler::new();
    assert!(compiler.files.is_empty());
    compiler.add_file("a.vel".to_string());
    compiler.add_file("b.vel".to_string());
    assert_eq!(compiler.files, vec!["a.vel", "b.vel"]);
}

#[test]
fn layout_tokens_are_dropped_and_the_others_kept_in_order() {
    let tokens = tokenize("t", "a\n  b\n  c\nd").unwrap();
    let all = tokens.len();
    let kept = significant_tokens(tokens);
    assert_eq!(all, 8);
    assert_eq!(
        kept.iter().map(|t| t.kind).collect::<Vec<TokenKind>>(),
        vec![
            TokenKind::Identifier,
            TokenKind::Identifier,
            TokenKind::Identifier,
            TokenKind::Identifier,
            TokenKind::Eof
        ]
    );
    assert_eq!(
        kept.iter().map(|t| t.lexeme.clone()).collect::<Vec<String>>(),
        vec!["a", "b", "c", "d", ""]
    );
    assert_eq!(kept[1].span.start.line, 2);
    assert_eq!(kept[1].span.start.column, 3);
}

#[test]
fn a_lexical_error_is_the_only_error() {
    let errors = Compiler::compile_source("u", "var = ;\nvar x = \"abc").unwrap_err();
    assert_eq!(errors.len(), 1);
    assert_eq!(errors[0].kind, ErrorKind::UnexpectedEndOfFile);
}

#[test]
fn every_syntax_error_is_reported_in_source_order() {
    let errors = Compiler::compile_source("u", "var = 1;\nfn () { }\nvar ok = 2;\n").unwrap_err();
    assert_eq!(
        errors.iter().map(|e| e.kind.clone()).collect::<Vec<ErrorKind>>(),
        vec![
            ErrorKind::ExpectedToken(Expected::Kind(TokenKind::Identifier), TokenKind::Equals),
            ErrorKind::ExpectedToken(
                Expected::Kind(TokenKind::Identifier),
                TokenKind::OpenParenthesis
            ),
            ErrorKind::ExpectedToken(Expected::Expression, TokenKind::CloseParenthesis),
        ]
    );
    assert_eq!(errors[0].span.start.line, 1);
    assert_eq!(errors[1].span.start.line, 2);
    assert_eq!(errors[2].span.start.column, 5);
}

#[test]
fn an_empty_unit_has_only_its_heads() {
    let (cpp, hpp) = Compiler::compile_source("empty", "").unwrap();
    assert_eq!(cpp, "#include <prelude.hpp>\n#include \"empty.hpp\"\n");
    assert_eq!(hpp, "#pragma once\n#include <prelude.hpp>\n");
}

#[test]
fn comments_and_blank_lines_change_nothing() {
    let plain = Compiler::compile_source("u", "var x = 1;\nvar y = 2;\n").unwrap();
    let noisy =
        Compiler::compile_source("u", "// first\nvar x = 1; // one\n\n\nvar   y =\t2;\n").unwrap();
    assert_eq!(plain, noisy);
}

#[test]
fn a_whole_unit() {
    let source = "import io\n\nstruct Point { x: int, y: int }\n\nfn norm(p: &Point) -> int {\n    var total = p;\n    for (i in [1, 2]) { use(i); }\n    return total.x * total.x + total.y * total.y;\n}\n";
    let (cpp, hpp) = Compiler::compile_source("geometry", source).unwrap();
    assert_eq!(
        cpp,
        "#include <prelude.hpp>\n#include \"geometry.hpp\"\nint norm(const Point& p) {\nauto total = p;\nfor (auto i : {1, 2}) {\nuse(i);\n}\nreturn total.x * total.x + total.y * total.y;\n}\n"
    );
    assert!(hpp.starts_with("#pragma once\n#include <prelude.hpp>\n#include <io.hpp>\nstruct Point : public Formatter<Point> {\n    int x;\n    int y;\n"));
    assert!(hpp.ends_with("};\nint norm(const Point& p);\n"));
}
