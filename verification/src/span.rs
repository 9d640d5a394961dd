//! Source positions and ranges.

use vstd::prelude::*;

verus! {

/// A place in a source text: a line and a column, both counted from one.
#[derive(Clone, Copy, Debug, PartialEq, Eq, Structural)]
pub struct Position {
    pub line: usize,
    pub column: usize,
}

/// A range of a named source text, from `start` up to `end`.
#[derive(Debug, PartialEq, Eq)]
pub struct Span {
    pub source: String,
    pub start: Position,
    pub end: Position,
}

/// The mathematical model of a [`Span`].
pub struct SpanView {
    pub source: Seq<char>,
    pub start: Position,
    pub end: Position,
}

impl View for Span {
    type V = SpanView;

    open spec fn view(&self) -> SpanView {
        SpanView { source: self.source@, start: self.start, end: self.end }
    }
}

impl Clone for Span {
    fn clone(&self) -> (r: Self)
        ensures
            r == *self,
    {
        Span { source: self.source.clone(), start: self.start, end: self.end }
    }
}

impl Span {
    /// The span of `source` from `start` up to `end`.
    pub fn new(source: &str, start: Position, end: Position) -> (r: Span)
        ensures
            r@ == (SpanView { source: source@, start, end }),
    {
        Span { source: String::from_str(source), start, end }
    }

    /// A span on one line: `width` columns from `column` on.
    pub fn on_line(source: &str, line: usize, column: usize, width: usize) -> (r: Span)
        requires
            column + width <= usize::MAX,
        ensures
            r@ == line_span(source@, line as nat, column as nat, width as nat),
    {
        Span {
            source: String::from_str(source),
            start: Position { line, column },
            end: Position { line, column: column + width },
        }
    }
}

/// The span of `width` columns that starts at `column` of `line`.
pub open spec fn line_span(source: Seq<char>, line: nat, column: nat, width: nat) -> SpanView {
    SpanView {
        source,
        start: Position { line: line as usize, column: column as usize },
        end: Position { line: line as usize, column: (column + width) as usize },
    }
}

/// A value together with the span it came from.
pub type Spanned<T> = (T, Span);

/// Pairs a value with its span.
pub fn spanned<T>(t: T, span: Span) -> (r: Spanned<T>)
    ensures
        r == (t, span),
{
    (t, span)
}

} // verus!
