use velocity::error::{Error, ErrorKind, Expected};
use velocity::report::{assemble_report, source_line};
use velocity::span::{spanned, Position, Span};
use velocity::token::TokenKind;
use velocity::tokenizer::tokenize;

fn place(line: usize, from: usize, to: usize) -> Span {
    Span {
        source: "main.vel".to_string(),
        start: Position { line, column: from },
        end: Position { line, column: to },
    }
}

#[test]
fn span_constructors() {
    let start = Position { line: 2, column: 3 };
    let end = Position { line: 2, column: 7 };
    assert_eq!(Span::new("main.vel", start, end), place(2, 3, 7));
    assert_eq!(Span::on_line("main.vel", 2, 3, 4), place(2, 3, 7));
    assert_eq!(place(2, 3, 7).clone(), place(2, 3, 7));
    assert_eq!(spanned(5, place(1, 1, 2)), (5, place(1, 1, 2)));
}

#[test]
fn messages() {
    assert_eq!(ErrorKind::IllegalCharacter('$').message(), "illegal character '$'");
    assert_eq!(ErrorKind::IllegalEscapeSequence.message(), "illegal escape sequence");
    assert_eq!(ErrorKind::UnexpectedEndOfFile.message(), "unexpected end of file");
    assert_eq!(ErrorKind::InconsistentIndentation.message(), "inconsistent indentation");
    assert_eq!(ErrorKind::InconsistentContinuation.message(), "inconsistent continuation");
    assert_eq!(
        ErrorKind::ExpectedToken(Expected::Kind(TokenKind::Semicolon), TokenKind::Eof).message(),
        "expected ';', but got <eof>"
    );
    assert_eq!(
        ErrorKind::ExpectedToken(Expected::Expression, TokenKind::CloseBrace).message(),
        "expected an expression, but got }"
    );
    assert_eq!(
        ErrorKind::ExpectedToken(Expected::Type, TokenKind::Integer).message(),
        "expected a type, but got <integer>"
    );
    assert_eq!(
        ErrorKind::InvalidLiteral(TokenKind::Integer).message(),
        "invalid literal <integer>"
    );
    assert_eq!(ErrorKind::UndefinedSymbol("x".to_string()).message(), "undefined symbol `x`");
    let error = Error::new(ErrorKind::UnexpectedEndOfFile, place(1, 1, 2));
    assert_eq!(error.message(), "unexpected end of file");
    assert_eq!(error.kind, ErrorKind::UnexpectedEndOfFile);
    assert_eq!(error.span, place(1, 1, 2));
}

#[test]
fn lines_of_a_source() {
    let source = "first\nsecond\r\n\nfourth";
    assert_eq!(source_line(source, 1), "first");
    assert_eq!(source_line(source, 2), "second");
    assert_eq!(source_line(source, 3), "");
    assert_eq!(source_line(source, 4), "fourth");
    assert_eq!(source_line(source, 5), "");
    assert_eq!(source_line(source, 0), "first");
    assert_eq!(source_line("", 1), "");
    assert_eq!(source_line("a\n", 2), "");
}

#[test]
fn header_and_underline() {
    let error = Error::new(ErrorKind::UnexpectedEndOfFile, place(12, 5, 9));
    assert_eq!(error.header(), "main.vel:12:5: ");
    assert_eq!(error.underline(), "    ^~~~");
    let narrow = Error::new(ErrorKind::UnexpectedEndOfFile, place(1, 1, 2));
    assert_eq!(narrow.underline(), "^");
    let empty = Error::new(ErrorKind::UnexpectedEndOfFile, place(1, 3, 3));
    assert_eq!(empty.underline(), "  ^");
    let origin = Error::new(ErrorKind::UnexpectedEndOfFile, place(0, 0, 0));
    assert_eq!(origin.header(), "main.vel:0:0: ");
    assert_eq!(origin.underline(), "^");
}

#[test]
fn parts_are_laid_out_on_three_lines() {
    assert_eq!(assemble_report("h: ", "l: ", "m", "line", "  ^"), "h: l: m\nline\n  ^");
}

#[test]
fn plain_report() {
    let source = "var x = 1;\nvar y = $;\n";
    let error = tokenize("main.vel", source).unwrap_err();
    assert_eq!(
        error.render_plain(source),
        "main.vel:2:9: error: illegal character '$'\nvar y = $;\n        ^"
    );
}

#[test]
fn styled_report() {
    let source = "unit total\n";
    let error = Error::new(ErrorKind::UndefinedSymbol("total".to_string()), place(1, 6, 11));
    colored::control::set_override(false);
    assert_eq!(error.render(source), error.render_plain(source));
    assert_eq!(
        error.render(source),
        "main.vel:1:6: error: undefined symbol `total`\nunit total\n     ^~~~~"
    );
    colored::control::set_override(true);
    assert_eq!(
        error.render(source),
        "\u{1b}[1;37mmain.vel:1:6: \u{1b}[0m\u{1b}[1;31merror: \u{1b}[0m\u{1b}[1;37mundefined symbol `total`\u{1b}[0m\nunit total\n\u{1b}[32m     ^~~~~\u{1b}[0m"
    );
    colored::control::unset_override();
}
