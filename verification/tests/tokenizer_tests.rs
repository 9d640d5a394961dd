use velocity::error::ErrorKind;
use velocity::span::{Position, Span};
use velocity::token::{Token, TokenKind};
use velocity::tokenizer::{tokenize, Tokenizer};

fn kinds_of(source: &str) -> Vec<TokenKind> {
    tokenize("test", source).unwrap().iter().map(|t| t.kind).collect()
}

fn lexemes_of(source: &str) -> Vec<String> {
    tokenize("test", source).unwrap().iter().map(|t| t.lexeme.clone()).collect()
}

fn span_at(line: usize, from: usize, to: usize) -> Span {
    Span {
        source: "test".to_string(),
        start: Position { line, column: from },
        end: Position { line, column: to },
    }
}

#[test]
fn empty_source_is_one_eof() {
    let tokens = tokenize("test", "").unwrap();
    assert_eq!(tokens.len(), 1);
    assert_eq!(tokens[0].kind, TokenKind::Eof);
    assert_eq!(tokens[0].lexeme, "");
    assert_eq!(tokens[0].span, span_at(1, 1, 1));
}

#[test]
fn tokens_end_with_exactly_one_eof() {
    let kinds = kinds_of("var x = 1; x = x + 2;");
    assert_eq!(kinds.iter().filter(|k| **k == TokenKind::Eof).count(), 1);
    assert_eq!(*kinds.last().unwrap(), TokenKind::Eof);
}

#[test]
fn function_declaration_tokens() {
    assert_eq!(
        kinds_of("fn add(a: int, b: int) -> int { return a + b; }"),
        vec![
            TokenKind::Fn,
            TokenKind::Identifier,
            TokenKind::OpenParenthesis,
            TokenKind::Identifier,
            TokenKind::Colon,
            TokenKind::Int,
            TokenKind::Comma,
            TokenKind::Identifier,
            TokenKind::Colon,
            TokenKind::Int,
            TokenKind::CloseParenthesis,
            TokenKind::Arrow,
            TokenKind::Int,
            TokenKind::OpenBrace,
            TokenKind::Return,
            TokenKind::Identifier,
            TokenKind::Plus,
            TokenKind::Identifier,
            TokenKind::Semicolon,
            TokenKind::CloseBrace,
            TokenKind::Eof,
        ]
    );
}

#[test]
fn spans_cover_the_token() {
    let tokens = tokenize("test", "ab  cde").unwrap();
    assert_eq!(tokens[0].span, span_at(1, 1, 3));
    assert_eq!(tokens[1].span, span_at(1, 5, 8));
    assert_eq!(tokens[2].span, span_at(1, 8, 8));
}

#[test]
fn every_keyword_has_its_kind() {
    assert_eq!(
        kinds_of("as const fn for in import mut return struct var int float bool char"),
        vec![
            TokenKind::As,
            TokenKind::Const,
            TokenKind::Fn,
            TokenKind::For,
            TokenKind::In,
            TokenKind::Import,
            TokenKind::Mut,
            TokenKind::Return,
            TokenKind::Struct,
            TokenKind::Var,
            TokenKind::Int,
            TokenKind::Float,
            TokenKind::Bool,
            TokenKind::Char,
            TokenKind::Eof,
        ]
    );
}

#[test]
fn words_that_only_begin_like_keywords_are_identifiers() {
    assert_eq!(
        kinds_of("format _x x1 In returns"),
        vec![
            TokenKind::Identifier,
            TokenKind::Identifier,
            TokenKind::Identifier,
            TokenKind::Identifier,
            TokenKind::Identifier,
            TokenKind::Eof,
        ]
    );
    assert_eq!(lexemes_of("format _x x1"), vec!["format", "_x", "x1", ""]);
}

#[test]
fn true_and_false_are_boolean_literals() {
    assert_eq!(kinds_of("true false"), vec![TokenKind::Boolean, TokenKind::Boolean, TokenKind::Eof]);
    assert_eq!(lexemes_of("true false"), vec!["true", "false", ""]);
}

#[test]
fn integers_and_floating_point_numbers() {
    assert_eq!(
        kinds_of("12 12.5 12e3 12e+3 12E-3 7."),
        vec![
            TokenKind::Integer,
            TokenKind::FloatingPoint,
            TokenKind::FloatingPoint,
            TokenKind::FloatingPoint,
            TokenKind::FloatingPoint,
            TokenKind::FloatingPoint,
            TokenKind::Eof,
        ]
    );
    assert_eq!(
        lexemes_of("12 12.5 12e3 12e+3 12E-3 7."),
        vec!["12", "12.5", "12e3", "12e+3", "12E-3", "7.", ""]
    );
}

#[test]
fn an_exponent_after_a_fraction_is_a_new_token() {
    assert_eq!(
        kinds_of("12.5e3"),
        vec![TokenKind::FloatingPoint, TokenKind::Identifier, TokenKind::Eof]
    );
    assert_eq!(lexemes_of("12.5e3"), vec!["12.5", "e3", ""]);
}

#[test]
fn string_escapes_are_decoded() {
    let tokens = tokenize("test", "\"a\\n\\r\\t\\\\\\\"b\"").unwrap();
    assert_eq!(tokens[0].kind, TokenKind::String);
    assert_eq!(tokens[0].lexeme, "a\n\r\t\\\"b");
    assert_eq!(tokens[0].span, span_at(1, 1, 15));
    assert_eq!(tokens[1].kind, TokenKind::Eof);
}

#[test]
fn unknown_escape_is_illegal() {
    let error = tokenize("test", "\"\\q\"").unwrap_err();
    assert_eq!(error.kind, ErrorKind::IllegalEscapeSequence);
    assert_eq!(error.span, span_at(1, 3, 4));
}

#[test]
fn unterminated_string_is_unexpected_end_of_file() {
    let error = tokenize("test", "x \"abc").unwrap_err();
    assert_eq!(error.kind, ErrorKind::UnexpectedEndOfFile);
    assert_eq!(error.span, span_at(1, 7, 8));
}

#[test]
fn character_literals() {
    let tokens = tokenize("test", "'a' '\\n' '\\''").unwrap();
    assert_eq!(tokens[0].kind, TokenKind::Character);
    assert_eq!(tokens[0].lexeme, "a");
    assert_eq!(tokens[1].lexeme, "\n");
    assert_eq!(tokens[2].lexeme, "'");
    assert_eq!(tokens[1].span, span_at(1, 5, 9));
}

#[test]
fn broken_character_literals() {
    assert_eq!(tokenize("test", "''").unwrap_err().kind, ErrorKind::IllegalCharacter('\''));
    assert_eq!(tokenize("test", "'ab'").unwrap_err().kind, ErrorKind::IllegalCharacter('b'));
    assert_eq!(tokenize("test", "'a").unwrap_err().kind, ErrorKind::UnexpectedEndOfFile);
    assert_eq!(tokenize("test", "'\\q'").unwrap_err().kind, ErrorKind::IllegalEscapeSequence);
}

#[test]
fn one_and_two_character_operators() {
    assert_eq!(
        kinds_of("+ += - -= -> * *= / /= % %= = == ! != < <= > >= & && | || ^ ~"),
        vec![
            TokenKind::Plus,
            TokenKind::PlusEquals,
            TokenKind::Minus,
            TokenKind::MinusEquals,
            TokenKind::Arrow,
            TokenKind::Asterisk,
            TokenKind::AsteriskEquals,
            TokenKind::Slash,
            TokenKind::SlashEquals,
            TokenKind::Percent,
            TokenKind::PercentEquals,
            TokenKind::Equals,
            TokenKind::EqualsEquals,
            TokenKind::Bang,
            TokenKind::BangEquals,
            TokenKind::LessThan,
            TokenKind::LessThanEquals,
            TokenKind::GreaterThan,
            TokenKind::GreaterThanEquals,
            TokenKind::Ampersand,
            TokenKind::And,
            TokenKind::Pipe,
            TokenKind::Or,
            TokenKind::Caret,
            TokenKind::Tilde,
            TokenKind::Eof,
        ]
    );
}

#[test]
fn operators_need_no_blank_between_them() {
    assert_eq!(
        kinds_of("a+=b==c"),
        vec![
            TokenKind::Identifier,
            TokenKind::PlusEquals,
            TokenKind::Identifier,
            TokenKind::EqualsEquals,
            TokenKind::Identifier,
            TokenKind::Eof,
        ]
    );
    assert_eq!(lexemes_of("a+=b"), vec!["a", "+=", "b", ""]);
}

#[test]
fn an_operator_at_the_end_of_the_text_is_one_character() {
    assert_eq!(kinds_of("a +"), vec![TokenKind::Identifier, TokenKind::Plus, TokenKind::Eof]);
    assert_eq!(kinds_of("a -"), vec![TokenKind::Identifier, TokenKind::Minus, TokenKind::Eof]);
}

#[test]
fn punctuation() {
    assert_eq!(
        kinds_of("( ) { } [ ] , . : ;"),
        vec![
            TokenKind::OpenParenthesis,
            TokenKind::CloseParenthesis,
            TokenKind::OpenBrace,
            TokenKind::CloseBrace,
            TokenKind::OpenBracket,
            TokenKind::CloseBracket,
            TokenKind::Comma,
            TokenKind::Dot,
            TokenKind::Colon,
            TokenKind::Semicolon,
            TokenKind::Eof,
        ]
    );
}

#[test]
fn a_comment_runs_through_the_line_break() {
    let tokens = tokenize("test", "a // b c\nd").unwrap();
    let kinds: Vec<TokenKind> = tokens.iter().map(|t| t.kind).collect();
    assert_eq!(kinds, vec![TokenKind::Identifier, TokenKind::Identifier, TokenKind::Eof]);
    assert_eq!(tokens[1].span, span_at(2, 1, 2));
}

#[test]
fn a_comment_may_end_the_text() {
    assert_eq!(kinds_of("a // b"), vec![TokenKind::Identifier, TokenKind::Eof]);
}

#[test]
fn any_other_character_is_illegal() {
    let error = tokenize("test", "a $").unwrap_err();
    assert_eq!(error.kind, ErrorKind::IllegalCharacter('$'));
    assert_eq!(error.span, span_at(1, 3, 4));
    assert_eq!(tokenize("test", "a \\ b").unwrap_err().kind, ErrorKind::IllegalCharacter('\\'));
}

#[test]
fn line_breaks_leave_layout_tokens() {
    assert_eq!(
        kinds_of("a\n  b\n  c\nd"),
        vec![
            TokenKind::Identifier,
            TokenKind::Indent,
            TokenKind::Identifier,
            TokenKind::Linefeed,
            TokenKind::Identifier,
            TokenKind::Dedent,
            TokenKind::Identifier,
            TokenKind::Eof,
        ]
    );
}

#[test]
fn a_tab_indents_by_four_columns() {
    assert_eq!(
        kinds_of("a\n\tb\n    c"),
        vec![
            TokenKind::Identifier,
            TokenKind::Indent,
            TokenKind::Identifier,
            TokenKind::Linefeed,
            TokenKind::Identifier,
            TokenKind::Eof,
        ]
    );
}

#[test]
fn layout_tokens_stand_at_the_first_character_of_the_line() {
    let tokens = tokenize("test", "a\n  b").unwrap();
    assert_eq!(tokens[1].kind, TokenKind::Indent);
    assert_eq!(tokens[1].span, span_at(2, 3, 4));
    assert_eq!(tokens[2].span, span_at(2, 3, 4));
}

#[test]
fn one_dedent_closes_one_level() {
    assert_eq!(
        kinds_of("a\n  b\n    c\n  d"),
        vec![
            TokenKind::Identifier,
            TokenKind::Indent,
            TokenKind::Identifier,
            TokenKind::Indent,
            TokenKind::Identifier,
            TokenKind::Dedent,
            TokenKind::Identifier,
            TokenKind::Eof,
        ]
    );
}

#[test]
fn dedent_by_two_levels_is_inconsistent() {
    let error = tokenize("test", "a\n  b\n    c\nd").unwrap_err();
    assert_eq!(error.kind, ErrorKind::InconsistentIndentation);
    assert_eq!(error.span, span_at(4, 1, 2));
}

#[test]
fn dedent_below_the_enclosing_level_is_inconsistent() {
    let error = tokenize("test", "a\n    b\n        c\n  d").unwrap_err();
    assert_eq!(error.kind, ErrorKind::InconsistentIndentation);
    assert_eq!(error.span, span_at(4, 3, 4));
}

#[test]
fn continuation_in_a_block_not_opened_by_one_is_inconsistent() {
    let error = tokenize("test", "a\n  b\n  \\c").unwrap_err();
    assert_eq!(error.kind, ErrorKind::InconsistentContinuation);
    assert_eq!(error.span, span_at(3, 4, 5));
}

#[test]
fn continuation_at_the_left_edge_is_inconsistent() {
    assert_eq!(
        tokenize("test", "a\n\\b").unwrap_err().kind,
        ErrorKind::InconsistentContinuation
    );
}

#[test]
fn continuation_in_a_block_opened_by_one_is_a_linefeed() {
    assert_eq!(
        kinds_of("a\n  \\b\n  \\c"),
        vec![
            TokenKind::Identifier,
            TokenKind::Indent,
            TokenKind::Identifier,
            TokenKind::Linefeed,
            TokenKind::Identifier,
            TokenKind::Eof,
        ]
    );
}

#[test]
fn layout_tokens_have_no_text() {
    assert_eq!(lexemes_of("a\n  b\nc"), vec!["a", "", "b", "", "c", ""]);
}

#[test]
fn tokenizer_starts_at_line_one_column_one() {
    let tokenizer = Tokenizer::new("test".to_string(), "ab".to_string());
    assert_eq!(tokenizer.index, 0);
    assert_eq!(tokenizer.line, 1);
    assert_eq!(tokenizer.column, 1);
    assert_eq!(tokenizer.indent_stack, vec![(0, false)]);
    assert_eq!(tokenizer.contents, vec!['a', 'b']);
    assert_eq!(tokenizer.current(), Some('a'));
}

#[test]
fn tokenizer_current_is_none_at_the_end() {
    let mut tokenizer = Tokenizer::new("test".to_string(), "a".to_string());
    tokenizer.next_token().unwrap();
    assert_eq!(tokenizer.current(), None);
    assert_eq!(tokenizer.next_token().unwrap().kind, TokenKind::Eof);
    assert_eq!(tokenizer.next_token().unwrap().kind, TokenKind::Eof);
}

#[test]
fn tokenizer_construct_span_starts_where_it_stands() {
    let mut tokenizer = Tokenizer::new("test".to_string(), "ab cd".to_string());
    tokenizer.next_token().unwrap();
    assert_eq!(tokenizer.construct_span(2), span_at(1, 3, 5));
}

#[test]
fn tokenizer_single_token_takes_one_character() {
    let mut tokenizer = Tokenizer::new("test".to_string(), "(x".to_string());
    let token = tokenizer.single_token(TokenKind::OpenParenthesis).unwrap();
    assert_eq!(token, Token::new(TokenKind::OpenParenthesis, "(".to_string(), span_at(1, 1, 2)));
    assert_eq!(tokenizer.index, 1);
    assert_eq!(tokenizer.column, 2);
}

#[test]
fn tokenizer_double_token_looks_one_character_ahead() {
    let mut tokenizer = Tokenizer::new("test".to_string(), "<=<".to_string());
    let first = tokenizer
        .double_token('<', TokenKind::LessThan, '=', TokenKind::LessThanEquals)
        .unwrap();
    assert_eq!(first, Token::new(TokenKind::LessThanEquals, "<=".to_string(), span_at(1, 1, 3)));
    let second = tokenizer
        .double_token('<', TokenKind::LessThan, '=', TokenKind::LessThanEquals)
        .unwrap();
    assert_eq!(second, Token::new(TokenKind::LessThan, "<".to_string(), span_at(1, 3, 4)));
}

#[test]
fn tokenizer_method_agrees_with_the_function() {
    let source = "fn f() { return 1; }";
    let mut tokenizer = Tokenizer::new("test".to_string(), source.to_string());
    assert_eq!(tokenizer.tokenize().unwrap(), tokenize("test", source).unwrap());
}

#[test]
fn token_kind_classes() {
    assert!(TokenKind::Plus.is_unary_operator());
    assert!(TokenKind::Minus.is_unary_operator());
    assert!(TokenKind::Bang.is_unary_operator());
    assert!(TokenKind::Ampersand.is_unary_operator());
    assert!(!TokenKind::Asterisk.is_unary_operator());
    assert!(TokenKind::Asterisk.is_binary_operator());
    assert!(TokenKind::Or.is_binary_operator());
    assert!(TokenKind::GreaterThanEquals.is_binary_operator());
    assert!(!TokenKind::Bang.is_binary_operator());
    assert!(!TokenKind::Equals.is_binary_operator());
    assert!(TokenKind::Indent.is_layout());
    assert!(TokenKind::Dedent.is_layout());
    assert!(TokenKind::Linefeed.is_layout());
    assert!(!TokenKind::Eof.is_layout());
}

#[test]
fn token_kind_text() {
    assert_eq!(TokenKind::Identifier.text(), "<identifier>");
    assert_eq!(TokenKind::FloatingPoint.text(), "<floating point>");
    assert_eq!(TokenKind::Import.text(), "import");
    assert_eq!(TokenKind::Arrow.text(), "->");
    assert_eq!(TokenKind::And.text(), "&&");
    assert_eq!(TokenKind::Eof.text(), "<eof>");
}
