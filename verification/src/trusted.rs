//! What this crate takes on trust: the parsers for URLs, timestamps and
//! language tags, the wording of their errors, and lower-casing.
//!
//! Nothing in this file is proved. Each parser is taken to return the same
//! outcome whenever it is given the same text, and that outcome is given a
//! name; what the outcome is for a given text is left to the parser.

use crate::text::ascii_lower;
use crate::timestamp::Timestamp;
use chrono::format::ParseError as TimestampError;
use chrono::DateTime;
use core::str::FromStr;
use language_tags::Error as LanguageTagError;
use language_tags::LanguageTag;
use url::ParseError as UrlError;
use url::Url;
use vstd::prelude::*;
use vstd::utf8::is_ascii_chars;

verus! {

/// `url::Url`: a parsed absolute URL.
#[verifier::external_type_specification]
#[verifier::external_body]
pub struct ExUrl(Url);

/// `url::ParseError`: why text is no URL.
#[verifier::external_type_specification]
#[verifier::external_body]
pub struct ExUrlError(UrlError);

/// `chrono::format::ParseError`: why text is no timestamp.
#[verifier::external_type_specification]
#[verifier::external_body]
pub struct ExTimestampError(TimestampError);

/// `language_tags::LanguageTag`: a parsed language tag.
#[verifier::external_type_specification]
#[verifier::external_body]
pub struct ExLanguageTag(LanguageTag);

/// `language_tags::Error`: why text is no language tag.
#[verifier::external_type_specification]
#[verifier::external_body]
pub struct ExLanguageTagError(LanguageTagError);

/// What `Url::parse` makes of `input`.
pub uninterp spec fn url_parse_result(input: Seq<char>) -> Result<Url, UrlError>;

/// What a `url::ParseError` reads as when displayed.
pub uninterp spec fn url_error_text(error: UrlError) -> Seq<char>;

/// What `DateTime::parse_from_rfc2822` makes of `input`, the date and time
/// written out as a [`Timestamp`].
pub uninterp spec fn rfc2822_parse_result(input: Seq<char>) -> Result<Timestamp, TimestampError>;

/// What a `chrono::format::ParseError` reads as when displayed.
pub uninterp spec fn timestamp_error_text(error: TimestampError) -> Seq<char>;

/// What `LanguageTag::from_str` makes of `input`.
pub uninterp spec fn language_tag_parse_result(input: Seq<char>) -> Result<
    LanguageTag,
    LanguageTagError,
>;

/// What a `language_tags::Error` reads as when displayed.
pub uninterp spec fn language_tag_error_text(error: LanguageTagError) -> Seq<char>;

/// What `str::to_lowercase` makes of `text`.
pub uninterp spec fn lowercase(text: Seq<char>) -> Seq<char>;

/// Calls `Url::parse`, which parses `input` as an absolute URL, with no
/// base to resolve it against. Taken on trust: the call returns for every
/// `input`, and its outcome depends on `input` alone.
#[verifier::external_body]
pub(crate) fn url_parse(input: &str) -> (parsed: Result<Url, UrlError>)
    ensures
        parsed == url_parse_result(input@),
{
    Url::parse(input)
}

/// Calls `to_string` on a `url::ParseError`, which displays it. Taken on
/// trust: the wording depends on the error alone.
#[verifier::external_body]
pub(crate) fn url_error_message(error: &UrlError) -> (message: String)
    ensures
        message@ == url_error_text(*error),
{
    error.to_string()
}

/// Calls `DateTime::parse_from_rfc2822`, which parses `input` as a date and
/// time with an offset, and reads from what it returns the three numbers of
/// a [`Timestamp`], with `timestamp`, `timestamp_subsec_nanos` and
/// `local_minus_utc` of the offset. Taken on trust: the call returns for
/// every `input`, and its outcome depends on `input` alone, not on the
/// clock or the time zone of the machine.
#[verifier::external_body]
pub(crate) fn rfc2822_parse(input: &str) -> (parsed: Result<Timestamp, TimestampError>)
    ensures
        parsed == rfc2822_parse_result(input@),
{
    match DateTime::parse_from_rfc2822(input) {
        Ok(time) => Ok(
            Timestamp {
                seconds: time.timestamp(),
                nanoseconds: time.timestamp_subsec_nanos(),
                offset: time.offset().local_minus_utc(),
            },
        ),
        Err(error) => Err(error),
    }
}

/// Calls `to_string` on a `chrono::format::ParseError`, which displays it.
/// Taken on trust: the wording depends on the error alone. (Displaying
/// panics for one kind of error, which `chrono` keeps to itself: no error
/// that it hands out is of that kind.)
#[verifier::external_body]
pub(crate) fn timestamp_error_message(error: &TimestampError) -> (message: String)
    ensures
        message@ == timestamp_error_text(*error),
{
    error.to_string()
}

/// Calls `LanguageTag::from_str`, which parses `input` as a language tag,
/// after trimming white space from both its ends. Taken on trust: the call
/// returns for every `input`, and its outcome depends on `input` alone.
#[verifier::external_body]
pub(crate) fn language_tag_parse(input: &str) -> (parsed: Result<LanguageTag, LanguageTagError>)
    ensures
        parsed == language_tag_parse_result(input@),
{
    LanguageTag::from_str(input)
}

/// Calls `to_string` on a `language_tags::Error`, which displays it. Taken
/// on trust: the wording depends on the error alone.
#[verifier::external_body]
pub(crate) fn language_tag_error_message(error: &LanguageTagError) -> (message: String)
    ensures
        message@ == language_tag_error_text(*error),
{
    error.to_string()
}

/// Calls `str::to_lowercase`. Taken on trust: the outcome depends on `text`
/// alone, and in text that is all ASCII the capital letters `A` to `Z` are
/// made small and nothing else changes.
#[verifier::external_body]
pub(crate) fn to_lowercase(text: &str) -> (lowered: String)
    ensures
        lowered@ == lowercase(text@),
        is_ascii_chars(text@) ==> lowered@ == ascii_lower(text@),
{
    text.to_lowercase()
}

} // verus!
