//! The one error that parsing a line can end in.

use crate::trusted::language_tag_error_message;
use crate::trusted::language_tag_error_text;
use crate::trusted::timestamp_error_message;
use crate::trusted::timestamp_error_text;
use crate::trusted::url_error_message;
use crate::trusted::url_error_text;
use chrono::format::ParseError as TimestampError;
use language_tags::Error as LanguageTagError;
use url::ParseError as UrlError;
use vstd::prelude::*;
use vstd::std_specs::convert::FromSpecImpl;

verus! {

/// Why a line was refused, in words. Its view is the message.
#[derive(Debug, PartialEq)]
pub struct ParseError(String);

impl View for ParseError {
    type V = Seq<char>;

    closed spec fn view(&self) -> Seq<char> {
        self.0@
    }
}

/// The outcome of a parse as contracts speak of it: the view of what was
/// parsed, or the error's message.
pub open spec fn outcome<T: View>(parsed: Result<T, ParseError>) -> Result<T::V, Seq<char>> {
    match parsed {
        Ok(value) => Ok(value@),
        Err(error) => Err(error@),
    }
}

/// What the error says of a line that holds no `:`.
pub open spec fn missing_separator_text() -> Seq<char> {
    "Missing `:`"@
}

impl ParseError {
    /// The error for a line that holds no `:`.
    pub fn missing_separator() -> (error: ParseError)
        ensures
            error@ == missing_separator_text(),
    {
        ParseError("Missing `:`".to_owned())
    }

    /// The message.
    pub fn message(&self) -> (text: &str)
        ensures
            text@ == self@,
    {
        self.0.as_str()
    }
}

impl From<UrlError> for ParseError {
    /// Carries over the wording of a URL parser's error.
    fn from(error: UrlError) -> (made: ParseError)
        ensures
            made@ == url_error_text(error),
    {
        ParseError(url_error_message(&error))
    }
}

impl From<TimestampError> for ParseError {
    /// Carries over the wording of a timestamp parser's error.
    fn from(error: TimestampError) -> (made: ParseError)
        ensures
            made@ == timestamp_error_text(error),
    {
        ParseError(timestamp_error_message(&error))
    }
}

impl From<LanguageTagError> for ParseError {
    /// Carries over the wording of a language tag parser's error.
    fn from(error: LanguageTagError) -> (made: ParseError)
        ensures
            made@ == language_tag_error_text(error),
    {
        ParseError(language_tag_error_message(&error))
    }
}

// A `ParseError` is known by its message only, so what `from` returns is
// stated on `from` itself, over the view, and not as a value.
impl FromSpecImpl<UrlError> for ParseError {
    open spec fn obeys_from_spec() -> bool {
        false
    }

    open spec fn from_spec(error: UrlError) -> ParseError {
        arbitrary()
    }
}

impl FromSpecImpl<TimestampError> for ParseError {
    open spec fn obeys_from_spec() -> bool {
        false
    }

    open spec fn from_spec(error: TimestampError) -> ParseError {
        arbitrary()
    }
}

impl FromSpecImpl<LanguageTagError> for ParseError {
    open spec fn obeys_from_spec() -> bool {
        false
    }

    open spec fn from_spec(error: LanguageTagError) -> ParseError {
        arbitrary()
    }
}

} // verus!
