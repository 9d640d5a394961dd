//! Diagnostics: what went wrong, and where.

use crate::span::{Span, SpanView};
use crate::token::TokenKind;
use vstd::prelude::*;

verus! {

/// What the parser was looking for when it met an unexpected token.
#[derive(Clone, Copy, Debug, PartialEq, Eq, Structural)]
pub enum Expected {
    /// A token of one kind.
    Kind(TokenKind),
    /// The first token of an expression.
    Expression,
    /// The first token of a type.
    Type,
}

/// The kinds of failure, by stage.
#[derive(Clone, Debug, PartialEq, Eq)]
pub enum ErrorKind {
    /// Lexical: a character that begins no token.
    IllegalCharacter(char),
    /// Lexical: a backslash in a literal followed by an unknown character.
    IllegalEscapeSequence,
    /// Lexical or syntactic: the input ended inside a construct.
    UnexpectedEndOfFile,
    /// Lexical: a line indented less than its block but more than the
    /// enclosing one.
    InconsistentIndentation,
    /// Lexical: a continuation marker on a line whose indentation level was
    /// not opened by one.
    InconsistentContinuation,
    /// Syntactic: the token found is not the one the grammar asks for.
    ExpectedToken(Expected, TokenKind),
    /// Syntactic: a literal token whose text denotes no value.
    InvalidLiteral(TokenKind),
    /// Semantic: a name that no declaration introduced.
    UndefinedSymbol(String),
}

/// The mathematical model of an [`ErrorKind`].
pub enum ErrorKindView {
    IllegalCharacter(char),
    IllegalEscapeSequence,
    UnexpectedEndOfFile,
    InconsistentIndentation,
    InconsistentContinuation,
    ExpectedToken(Expected, TokenKind),
    InvalidLiteral(TokenKind),
    UndefinedSymbol(Seq<char>),
}

impl View for ErrorKind {
    type V = ErrorKindView;

    open spec fn view(&self) -> ErrorKindView {
        match self {
            ErrorKind::IllegalCharacter(c) => ErrorKindView::IllegalCharacter(*c),
            ErrorKind::IllegalEscapeSequence => ErrorKindView::IllegalEscapeSequence,
            ErrorKind::UnexpectedEndOfFile => ErrorKindView::UnexpectedEndOfFile,
            ErrorKind::InconsistentIndentation => ErrorKindView::InconsistentIndentation,
            ErrorKind::InconsistentContinuation => ErrorKindView::InconsistentContinuation,
            ErrorKind::ExpectedToken(expected, found) => ErrorKindView::ExpectedToken(
                *expected,
                *found,
            ),
            ErrorKind::InvalidLiteral(kind) => ErrorKindView::InvalidLiteral(*kind),
            ErrorKind::UndefinedSymbol(name) => ErrorKindView::UndefinedSymbol(name@),
        }
    }
}

impl ErrorKindView {
    /// The sentence that reports this kind of failure.
    pub open spec fn message(self) -> Seq<char> {
        match self {
            ErrorKindView::IllegalCharacter(c) => "illegal character '"@.push(c) + "'"@,
            ErrorKindView::IllegalEscapeSequence => "illegal escape sequence"@,
            ErrorKindView::UnexpectedEndOfFile => "unexpected end of file"@,
            ErrorKindView::InconsistentIndentation => "inconsistent indentation"@,
            ErrorKindView::InconsistentContinuation => "inconsistent continuation"@,
            ErrorKindView::ExpectedToken(expected, found) => (match expected {
                Expected::Kind(kind) => "expected '"@ + kind.spelling() + "'"@,
                Expected::Expression => "expected an expression"@,
                Expected::Type => "expected a type"@,
            }) + ", but got "@ + found.spelling(),
            ErrorKindView::InvalidLiteral(kind) => "invalid literal "@ + kind.spelling(),
            ErrorKindView::UndefinedSymbol(name) => "undefined symbol `"@ + name + "`"@,
        }
    }
}

impl ErrorKind {
    /// The sentence that reports this kind of failure.
    pub fn message(&self) -> (r: String)
        ensures
            r@ == self@.message(),
    {
        match self {
            ErrorKind::IllegalCharacter(c) => {
                let mut out = String::from_str("illegal character '");
                out.push(*c);
                out.append("'");
                out
            },
            ErrorKind::IllegalEscapeSequence => String::from_str("illegal escape sequence"),
            ErrorKind::UnexpectedEndOfFile => String::from_str("unexpected end of file"),
            ErrorKind::InconsistentIndentation => String::from_str("inconsistent indentation"),
            ErrorKind::InconsistentContinuation => String::from_str("inconsistent continuation"),
            ErrorKind::ExpectedToken(expected, found) => {
                let mut out = match expected {
                    Expected::Kind(kind) => {
                        let mut head = String::from_str("expected '");
                        head.append(kind.text());
                        head.append("'");
                        head
                    },
                    Expected::Expression => String::from_str("expected an expression"),
                    Expected::Type => String::from_str("expected a type"),
                };
                out.append(", but got ");
                out.append(found.text());
                out
            },
            ErrorKind::InvalidLiteral(kind) => {
                let mut out = String::from_str("invalid literal ");
                out.append(kind.text());
                out
            },
            ErrorKind::UndefinedSymbol(name) => {
                let mut out = String::from_str("undefined symbol `");
                out.append(name.as_str());
                out.append("`");
                out
            },
        }
    }
}

/// A failure of one stage, with the place in the source that caused it.
#[derive(Clone, Debug, PartialEq, Eq)]
pub struct Error {
    pub kind: ErrorKind,
    pub span: Span,
}

/// The mathematical model of an [`Error`].
pub struct ErrorView {
    pub kind: ErrorKindView,
    pub span: SpanView,
}

impl View for Error {
    type V = ErrorView;

    open spec fn view(&self) -> ErrorView {
        ErrorView { kind: self.kind@, span: self.span@ }
    }
}

impl Error {
    /// An error of the given kind at the given place.
    pub fn new(kind: ErrorKind, span: Span) -> (r: Error)
        ensures
            r == (Error { kind, span }),
    {
        Error { kind, span }
    }

    /// The sentence that reports this error.
    pub fn message(&self) -> (r: String)
        ensures
            r@ == self@.kind.message(),
    {
        self.kind.message()
    }
}

/// Whether `r` is the result that `expected` describes.
pub open spec fn yields<T: View>(r: Result<T, Error>, expected: Result<T::V, ErrorView>) -> bool {
    match expected {
        Ok(value) => r is Ok && r->Ok_0@ == value,
        Err(error) => r is Err && r->Err_0@ == error,
    }
}

/// The models of a sequence of errors.
pub open spec fn error_views(errors: Seq<Error>) -> Seq<ErrorView> {
    Seq::new(errors.len(), |i: int| errors[i]@)
}

} // verus!
