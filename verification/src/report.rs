//! Reports: an error as the text that a person reads.
//!
//! A report has three lines: where the error is and what it says, the
//! source line that it points at, and a mark under the columns of its span.

use crate::error::{Error, ErrorView};
use crate::span::SpanView;
use crate::text::{chars_of, decimal, number_text, text_of};
use crate::tokenizer::line_end;
use colored::Colorize;
use vstd::prelude::*;

verus! {

/// Whether `styled` may be what a terminal style makes of `plain`: the
/// text itself where styles are switched off, a longer text that begins
/// with an escape character where they are on.
pub open spec fn styles(styled: Seq<char>, plain: Seq<char>) -> bool {
    styled == plain || (styled.len() > plain.len() && styled[0] == '\u{1b}')
}

/// `colored`'s `white` and `bold`, then the `Display` of the result. With
/// colors off for the process the text comes back unchanged; with colors
/// on it stands, with every reset sequence inside it followed by the style
/// again, between the escape sequence of the style and a reset sequence.
#[verifier::external_body]
fn bold_white(text: &str) -> (r: String)
    ensures
        styles(r@, text@),
{
    text.white().bold().to_string()
}

/// `colored`'s `red` and `bold`, then the `Display` of the result; see
/// [`bold_white`].
#[verifier::external_body]
fn bold_red(text: &str) -> (r: String)
    ensures
        styles(r@, text@),
{
    text.red().bold().to_string()
}

/// `colored`'s `green`, then the `Display` of the result; see
/// [`bold_white`].
#[verifier::external_body]
fn green(text: &str) -> (r: String)
    ensures
        styles(r@, text@),
{
    text.green().to_string()
}

/// `n` times the character `c`.
pub open spec fn repeated(c: char, n: int) -> Seq<char> {
    Seq::new(
        if n > 0 {
            n as nat
        } else {
            0
        },
        |i: int| c,
    )
}

fn repeat(c: char, n: usize) -> (r: String)
    ensures
        r@ == repeated(c, n as int),
{
    let mut out = String::new();
    let mut i: usize = 0;
    while i < n
        invariant
            i <= n,
            out@ == repeated(c, i as int),
        decreases n - i,
    {
        out.push(c);
        i += 1;
        assert(out@ =~= repeated(c, i as int));
    }
    assert(out@ =~= repeated(c, n as int));
    out
}

/// The start of line `n` of `source`, lines being counted from one: the
/// index after the line break that ends line `n - 1`.
pub open spec fn line_start(source: Seq<char>, n: int) -> int
    decreases n,
{
    if n <= 1 {
        0
    } else {
        let end = line_end(source, line_start(source, n - 1));
        if end < source.len() {
            end + 1
        } else {
            source.len() as int
        }
    }
}

/// Line `n` of `source`, without its line break and without a carriage
/// return before it; empty where the source has no such line.
pub open spec fn line_text(source: Seq<char>, n: int) -> Seq<char> {
    let start = line_start(source, n);
    let end = line_end(source, start);
    if 0 <= start <= end <= source.len() {
        if start < end && source[end - 1] == '\r' {
            source.subrange(start, end - 1)
        } else {
            source.subrange(start, end)
        }
    } else {
        Seq::empty()
    }
}

/// Where a report says its error is: the name of the source, the line and
/// the column.
pub open spec fn header(span: SpanView) -> Seq<char> {
    span.source + ":"@ + decimal(span.start.line as nat) + ":"@ + decimal(
        span.start.column as nat,
    ) + ": "@
}

/// The mark under the columns of `span`: a caret under the first, a tilde
/// under each of the others.
pub open spec fn underline(span: SpanView) -> Seq<char> {
    repeated(' ', span.start.column - 1) + "^"@ + repeated(
        '~',
        span.end.column - span.start.column - 1,
    )
}

/// A report made of the given parts.
pub open spec fn layout(
    header: Seq<char>,
    label: Seq<char>,
    message: Seq<char>,
    line: Seq<char>,
    underline: Seq<char>,
) -> Seq<char> {
    header + label + message + "\n"@ + line + "\n"@ + underline
}

/// The report of `error` on `source`, without styles.
pub open spec fn plain_report(error: ErrorView, source: Seq<char>) -> Seq<char> {
    layout(
        header(error.span),
        "error: "@,
        error.kind.message(),
        line_text(source, error.span.start.line as int),
        underline(error.span),
    )
}

/// Line `line` of `contents`, lines being counted from one.
pub fn source_line(contents: &str, line: usize) -> (r: String)
    ensures
        r@ == line_text(contents@, line as int),
{
    let chars = chars_of(contents);
    let mut start: usize = 0;
    let mut n: usize = 1;
    while n < line
        invariant
            1 <= n,
            n <= line || (line == 0 && n == 1),
            start <= chars@.len(),
            chars@ == contents@,
            start == line_start(contents@, n as int),
        decreases line - n,
    {
        let end = end_of_line(&chars, start);
        start = if end < chars.len() {
            end + 1
        } else {
            chars.len()
        };
        n += 1;
    }
    assert(line_start(contents@, line as int) == start) by {
        if line == 0 {
            assert(line_start(contents@, 0) == 0);
            assert(line_start(contents@, 1) == 0);
        }
    }
    let end = end_of_line(&chars, start);
    if start < end && chars[end - 1] == '\r' {
        text_of(&chars, start, end - 1)
    } else {
        text_of(&chars, start, end)
    }
}

fn end_of_line(chars: &Vec<char>, from: usize) -> (to: usize)
    requires
        from <= chars@.len(),
    ensures
        to == line_end(chars@, from as int),
        from <= to <= chars@.len(),
{
    let mut j: usize = from;
    while j < chars.len() && chars[j] != '\n'
        invariant
            from <= j <= chars@.len(),
            line_end(chars@, from as int) == line_end(chars@, j as int),
        decreases chars@.len() - j,
    {
        j += 1;
    }
    j
}

/// Puts the parts of a report together.
pub fn assemble_report(header: &str, label: &str, message: &str, line: &str, underline: &str) -> (r:
    String)
    ensures
        r@ == layout(header@, label@, message@, line@, underline@),
{
    let mut out = String::from_str(header);
    out.append(label);
    out.append(message);
    out.append("\n");
    out.append(line);
    out.append("\n");
    out.append(underline);
    out
}

impl Error {
    /// Where the report says the error is.
    pub fn header(&self) -> (r: String)
        ensures
            r@ == header(self@.span),
    {
        let mut out = self.span.source.clone();
        out.append(":");
        out.append(number_text(self.span.start.line).as_str());
        out.append(":");
        out.append(number_text(self.span.start.column).as_str());
        out.append(": ");
        out
    }

    /// The mark under the columns of the error.
    pub fn underline(&self) -> (r: String)
        ensures
            r@ == underline(self@.span),
    {
        let start = self.span.start.column;
        let end = self.span.end.column;
        let mut out = repeat(
            ' ',
            if start >= 1 {
                start - 1
            } else {
                0
            },
        );
        out.append("^");
        out.append(
            repeat(
                '~',
                if end > start {
                    end - start - 1
                } else {
                    0
                },
            ).as_str(),
        );
        out
    }

    /// The report of the error on the text `contents`, without styles.
    pub fn render_plain(&self, contents: &str) -> (r: String)
        ensures
            r@ == plain_report(self@, contents@),
    {
        assemble_report(
            self.header().as_str(),
            "error: ",
            self.message().as_str(),
            source_line(contents, self.span.start.line).as_str(),
            self.underline().as_str(),
        )
    }

    /// The report of the error on the text `contents`, styled for a
    /// terminal: the place and the message bold and white, the label bold
    /// and red, the mark green. Whether styles are written depends on the
    /// process, so the report is the layout of some styling of each part.
    pub fn render(&self, contents: &str) -> (r: String)
        ensures
            exists|place: Seq<char>, label: Seq<char>, message: Seq<char>, mark: Seq<char>|
                #![trigger layout(place, label, message, line_text(contents@, self@.span.start.line as int), mark)]
                styles(place, header(self@.span)) && styles(label, "error: "@) && styles(
                    message,
                    self@.kind.message(),
                ) && styles(mark, underline(self@.span)) && r@ == layout(
                    place,
                    label,
                    message,
                    line_text(contents@, self@.span.start.line as int),
                    mark,
                ),
    {
        let place = bold_white(self.header().as_str());
        let label = bold_red("error: ");
        let message = bold_white(self.message().as_str());
        let mark = green(self.underline().as_str());
        assemble_report(
            place.as_str(),
            label.as_str(),
            message.as_str(),
            source_line(contents, self.span.start.line).as_str(),
            mark.as_str(),
        )
    }
}

} // verus!
