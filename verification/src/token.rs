//! Tokens: the lexical units of the language.

use crate::span::{Span, SpanView};
use vstd::prelude::*;

verus! {

/// The category of a token.
#[derive(Clone, Copy, Debug, PartialEq, Eq, Structural)]
pub enum TokenKind {
    // literals
    Identifier,
    String,
    Character,
    Integer,
    FloatingPoint,
    Boolean,
    // keywords
    As,
    Const,
    Fn,
    For,
    In,
    Import,
    Mut,
    Return,
    Struct,
    Var,
    // type names
    Int,
    Float,
    Bool,
    Char,
    // operators
    Plus,
    PlusEquals,
    Minus,
    MinusEquals,
    Asterisk,
    AsteriskEquals,
    Slash,
    SlashEquals,
    Percent,
    PercentEquals,
    Equals,
    EqualsEquals,
    Bang,
    BangEquals,
    LessThan,
    LessThanEquals,
    GreaterThan,
    GreaterThanEquals,
    And,
    Or,
    Ampersand,
    Pipe,
    Caret,
    Tilde,
    // punctuation
    OpenParenthesis,
    CloseParenthesis,
    OpenBrace,
    CloseBrace,
    OpenBracket,
    CloseBracket,
    Comma,
    Dot,
    Colon,
    Semicolon,
    Arrow,
    // layout and end of input
    Linefeed,
    Indent,
    Dedent,
    Eof,
}

impl TokenKind {
    /// Whether a token of this kind can begin a prefix operation.
    pub open spec fn spec_is_unary_operator(&self) -> bool {
        *self == TokenKind::Plus || *self == TokenKind::Minus || *self == TokenKind::Bang || *self
            == TokenKind::Ampersand
    }

    /// Whether a token of this kind can begin a prefix operation.
    #[verifier::when_used_as_spec(spec_is_unary_operator)]
    pub fn is_unary_operator(&self) -> (r: bool)
        ensures
            r == self.spec_is_unary_operator(),
    {
        match self {
            TokenKind::Plus | TokenKind::Minus | TokenKind::Bang | TokenKind::Ampersand => true,
            _ => false,
        }
    }

    /// Whether a token of this kind joins two operands.
    pub open spec fn spec_is_binary_operator(&self) -> bool {
        *self == TokenKind::Plus || *self == TokenKind::Minus || *self == TokenKind::Asterisk
            || *self == TokenKind::Slash || *self == TokenKind::Percent || *self
            == TokenKind::EqualsEquals || *self == TokenKind::BangEquals || *self
            == TokenKind::LessThan || *self == TokenKind::LessThanEquals || *self
            == TokenKind::GreaterThan || *self == TokenKind::GreaterThanEquals || *self
            == TokenKind::And || *self == TokenKind::Or
    }

    /// Whether a token of this kind joins two operands.
    #[verifier::when_used_as_spec(spec_is_binary_operator)]
    pub fn is_binary_operator(&self) -> (r: bool)
        ensures
            r == self.spec_is_binary_operator(),
    {
        match self {
            TokenKind::Plus
            | TokenKind::Minus
            | TokenKind::Asterisk
            | TokenKind::Slash
            | TokenKind::Percent
            | TokenKind::EqualsEquals
            | TokenKind::BangEquals
            | TokenKind::LessThan
            | TokenKind::LessThanEquals
            | TokenKind::GreaterThan
            | TokenKind::GreaterThanEquals
            | TokenKind::And
            | TokenKind::Or => true,
            _ => false,
        }
    }

    /// Whether a token of this kind only records the layout of the source:
    /// a line break or a change of indentation.
    pub open spec fn spec_is_layout(&self) -> bool {
        *self == TokenKind::Linefeed || *self == TokenKind::Indent || *self == TokenKind::Dedent
    }

    /// Whether a token of this kind only records the layout of the source.
    #[verifier::when_used_as_spec(spec_is_layout)]
    pub fn is_layout(&self) -> (r: bool)
        ensures
            r == self.spec_is_layout(),
    {
        match self {
            TokenKind::Linefeed | TokenKind::Indent | TokenKind::Dedent => true,
            _ => false,
        }
    }

    /// How the kind is written in a diagnostic: the spelling of a keyword,
    /// an operator or a punctuation mark, a bracketed name for the others.
    pub open spec fn spelling(self) -> Seq<char> {
        match self {
            TokenKind::Identifier => "<identifier>"@,
            TokenKind::String => "<string>"@,
            TokenKind::Character => "<character>"@,
            TokenKind::Integer => "<integer>"@,
            TokenKind::FloatingPoint => "<floating point>"@,
            TokenKind::Boolean => "<boolean>"@,
            TokenKind::As => "as"@,
            TokenKind::Const => "const"@,
            TokenKind::Fn => "fn"@,
            TokenKind::For => "for"@,
            TokenKind::In => "in"@,
            TokenKind::Import => "import"@,
            TokenKind::Mut => "mut"@,
            TokenKind::Return => "return"@,
            TokenKind::Struct => "struct"@,
            TokenKind::Var => "var"@,
            TokenKind::Int => "int"@,
            TokenKind::Float => "float"@,
            TokenKind::Bool => "bool"@,
            TokenKind::Char => "char"@,
            TokenKind::Plus => "+"@,
            TokenKind::PlusEquals => "+="@,
            TokenKind::Minus => "-"@,
            TokenKind::MinusEquals => "-="@,
            TokenKind::Asterisk => "*"@,
            TokenKind::AsteriskEquals => "*="@,
            TokenKind::Slash => "/"@,
            TokenKind::SlashEquals => "/="@,
            TokenKind::Percent => "%"@,
            TokenKind::PercentEquals => "%="@,
            TokenKind::Equals => "="@,
            TokenKind::EqualsEquals => "=="@,
            TokenKind::Bang => "!"@,
            TokenKind::BangEquals => "!="@,
            TokenKind::LessThan => "<"@,
            TokenKind::LessThanEquals => "<="@,
            TokenKind::GreaterThan => ">"@,
            TokenKind::GreaterThanEquals => ">="@,
            TokenKind::And => "&&"@,
            TokenKind::Or => "||"@,
            TokenKind::Ampersand => "&"@,
            TokenKind::Pipe => "|"@,
            TokenKind::Caret => "^"@,
            TokenKind::Tilde => "~"@,
            TokenKind::OpenParenthesis => "("@,
            TokenKind::CloseParenthesis => ")"@,
            TokenKind::OpenBrace => "{"@,
            TokenKind::CloseBrace => "}"@,
            TokenKind::OpenBracket => "["@,
            TokenKind::CloseBracket => "]"@,
            TokenKind::Comma => ","@,
            TokenKind::Dot => "."@,
            TokenKind::Colon => ":"@,
            TokenKind::Semicolon => ";"@,
            TokenKind::Arrow => "->"@,
            TokenKind::Linefeed => "<linefeed>"@,
            TokenKind::Indent => "<indent>"@,
            TokenKind::Dedent => "<dedent>"@,
            TokenKind::Eof => "<eof>"@,
        }
    }

    /// How the kind is written in a diagnostic.
    pub fn text(&self) -> (r: &'static str)
        ensures
            r@ == self.spelling(),
    {
        match self {
            TokenKind::Identifier => "<identifier>",
            TokenKind::String => "<string>",
            TokenKind::Character => "<character>",
            TokenKind::Integer => "<integer>",
            TokenKind::FloatingPoint => "<floating point>",
            TokenKind::Boolean => "<boolean>",
            TokenKind::As => "as",
            TokenKind::Const => "const",
            TokenKind::Fn => "fn",
            TokenKind::For => "for",
            TokenKind::In => "in",
            TokenKind::Import => "import",
            TokenKind::Mut => "mut",
            TokenKind::Return => "return",
            TokenKind::Struct => "struct",
            TokenKind::Var => "var",
            TokenKind::Int => "int",
            TokenKind::Float => "float",
            TokenKind::Bool => "bool",
            TokenKind::Char => "char",
            TokenKind::Plus => "+",
            TokenKind::PlusEquals => "+=",
            TokenKind::Minus => "-",
            TokenKind::MinusEquals => "-=",
            TokenKind::Asterisk => "*",
            TokenKind::AsteriskEquals => "*=",
            TokenKind::Slash => "/",
            TokenKind::SlashEquals => "/=",
            TokenKind::Percent => "%",
            TokenKind::PercentEquals => "%=",
            TokenKind::Equals => "=",
            TokenKind::EqualsEquals => "==",
            TokenKind::Bang => "!",
            TokenKind::BangEquals => "!=",
            TokenKind::LessThan => "<",
            TokenKind::LessThanEquals => "<=",
            TokenKind::GreaterThan => ">",
            TokenKind::GreaterThanEquals => ">=",
            TokenKind::And => "&&",
            TokenKind::Or => "||",
            TokenKind::Ampersand => "&",
            TokenKind::Pipe => "|",
            TokenKind::Caret => "^",
            TokenKind::Tilde => "~",
            TokenKind::OpenParenthesis => "(",
            TokenKind::CloseParenthesis => ")",
            TokenKind::OpenBrace => "{",
            TokenKind::CloseBrace => "}",
            TokenKind::OpenBracket => "[",
            TokenKind::CloseBracket => "]",
            TokenKind::Comma => ",",
            TokenKind::Dot => ".",
            TokenKind::Colon => ":",
            TokenKind::Semicolon => ";",
            TokenKind::Arrow => "->",
            TokenKind::Linefeed => "<linefeed>",
            TokenKind::Indent => "<indent>",
            TokenKind::Dedent => "<dedent>",
            TokenKind::Eof => "<eof>",
        }
    }
}

/// A lexical unit: its kind, its text and where it stood.
#[derive(Debug, PartialEq, Eq)]
pub struct Token {
    pub kind: TokenKind,
    pub lexeme: String,
    pub span: Span,
}

/// The mathematical model of a [`Token`].
pub struct TokenView {
    pub kind: TokenKind,
    pub lexeme: Seq<char>,
    pub span: SpanView,
}

impl View for Token {
    type V = TokenView;

    open spec fn view(&self) -> TokenView {
        TokenView { kind: self.kind, lexeme: self.lexeme@, span: self.span@ }
    }
}

impl Clone for Token {
    fn clone(&self) -> (r: Self)
        ensures
            r == *self,
    {
        Token { kind: self.kind, lexeme: self.lexeme.clone(), span: self.span.clone() }
    }
}

impl Token {
    /// A token of the given kind, text and span.
    pub fn new(kind: TokenKind, lexeme: String, span: Span) -> (r: Token)
        ensures
            r == (Token { kind, lexeme, span }),
    {
        Token { kind, lexeme, span }
    }
}

/// The models of a sequence of tokens.
pub open spec fn token_views(tokens: Seq<Token>) -> Seq<TokenView> {
    Seq::new(tokens.len(), |i: int| tokens[i]@)
}

} // verus!
