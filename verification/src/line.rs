//! The lines of a `security.txt` file: comments and fields.

use crate::error::missing_separator_text;
use crate::error::outcome;
use crate::error::ParseError;
use crate::field::field_of;
use crate::field::Field;
use crate::field::FieldView;
use core::str::FromStr;
use vstd::prelude::*;
use vstd::std_specs::iter::IteratorSpec;

verus! {

/// One line of the file.
#[derive(Debug, PartialEq)]
pub enum Line {
    Field(Field),
    /// What follows the `#` of a comment, as written.
    Comment(String),
}

/// A line as contracts speak of it.
pub enum LineView {
    Field(FieldView),
    Comment(Seq<char>),
}

impl View for Line {
    type V = LineView;

    open spec fn view(&self) -> LineView {
        match *self {
            Line::Field(field) => LineView::Field(field@),
            Line::Comment(text) => LineView::Comment(text@),
        }
    }
}

/// Whether `line` is a comment: its first character is `#`.
pub open spec fn is_comment(line: Seq<char>) -> bool {
    line.len() > 0 && line[0] == '#'
}

/// What a line comes to. A comment is all that follows its `#`, with
/// nothing trimmed and nothing checked; any other line is a field.
pub open spec fn line_of(line: Seq<char>) -> Result<LineView, Seq<char>> {
    if is_comment(line) {
        Ok(LineView::Comment(line.skip(1)))
    } else {
        match field_of(line) {
            Ok(field) => Ok(LineView::Field(field)),
            Err(message) => Err(message),
        }
    }
}

impl FromStr for Line {
    type Err = ParseError;

    /// Reads one line of the file.
    fn from_str(string: &str) -> (parsed: Result<Line, ParseError>)
        ensures
            outcome(parsed) == line_of(string@),
            is_comment(string@) ==> outcome(parsed) == Ok::<LineView, Seq<char>>(
                LineView::Comment(string@.skip(1)),
            ),
            !is_comment(string@) && !string@.contains(':') ==> outcome(parsed) == Err::<
                LineView,
                Seq<char>,
            >(missing_separator_text()),
    {
        let mut chars = string.chars();
        let first = chars.next();
        if first == Some('#') {
            let n = string.unicode_len();
            Ok(Line::Comment(string.substring_char(1, n).to_owned()))
        } else {
            match Field::from_str(string) {
                Ok(field) => Ok(Line::Field(field)),
                Err(error) => Err(error),
            }
        }
    }
}

/// Reading a line is a function of its text: `from_str` returns an outcome
/// that is `line_of` of the text, so whatever two readings of the same text
/// return, they come to the same.
pub proof fn lemma_same_text_same_outcome(
    text: Seq<char>,
    first: Result<Line, ParseError>,
    second: Result<Line, ParseError>,
)
    requires
        outcome(first) == line_of(text),
        outcome(second) == line_of(text),
    ensures
        outcome(first) == outcome(second),
{
}

/// A comment is never refused, whatever follows its `#`.
pub proof fn lemma_comment_is_kept(text: Seq<char>)
    ensures
        line_of(seq!['#'] + text) == Ok::<LineView, Seq<char>>(LineView::Comment(text)),
{
    assert((seq!['#'] + text).skip(1) =~= text);
}

} // verus!
