//! The fields of a `security.txt` file, and how one is read from a line.

use crate::error::missing_separator_text;
use crate::error::outcome;
use crate::error::ParseError;
use crate::name::folded;
use crate::name::known_name;
use crate::name::lemma_known_in_any_casing;
use crate::name::FieldName;
use crate::name::UrlField;
use crate::text::ascii_lower;
use crate::text::lemma_split_first_of_joined;
use crate::text::lemma_split_first_some_iff_contains;
use crate::text::split_all;
use crate::text::split_at_str;
use crate::text::split_first;
use crate::timestamp::Timestamp;
use crate::trusted::language_tag_error_text;
use crate::trusted::language_tag_parse;
use crate::trusted::language_tag_parse_result;
use crate::trusted::rfc2822_parse;
use crate::trusted::rfc2822_parse_result;
use crate::trusted::timestamp_error_text;
use crate::trusted::to_lowercase;
use crate::trusted::url_error_text;
use crate::trusted::url_parse;
use crate::trusted::url_parse_result;
use chrono::format::ParseError as TimestampError;
use core::str::FromStr;
use language_tags::Error as LanguageTagError;
use language_tags::LanguageTag;
use url::ParseError as UrlError;
use url::Url;
use vstd::prelude::*;

verus! {

/// One field of the file: a known field with its value parsed, or any other
/// name with its value as it was written.
#[derive(Debug, PartialEq)]
pub enum Field {
    /// Where those who reported a weakness are thanked.
    Acknowledgments(Url),
    /// Where this file is published.
    Canonical(Url),
    /// Where to report a weakness.
    Contact(Url),
    /// Where the key for encrypted reports is found.
    Encryption(Url),
    /// When the file stops being current. A file holds it once, which is
    /// for the reader of the whole file to see to.
    Expires(Timestamp),
    /// Where security positions are advertised.
    Hiring(Url),
    /// Where the disclosure policy is found.
    Policy(Url),
    /// The languages that reports may be written in, in the order the line
    /// gave them. A file holds it once, as with `Expires`.
    PreferredLanguages(Vec<LanguageTag>),
    /// A field whose name is not known: the name and the value, both as
    /// written.
    Extension(String, String),
}

/// A field as contracts speak of it.
pub enum FieldView {
    /// One of the fields that hold a URL, and the URL.
    Url(UrlField, Url),
    /// The field `Expires` and its time.
    Expires(Timestamp),
    /// The field `PreferredLanguages` and its tags, in order.
    PreferredLanguages(Seq<LanguageTag>),
    /// A name that is not known, as written, and the value, as written.
    Extension(Seq<char>, Seq<char>),
}

impl View for Field {
    type V = FieldView;

    open spec fn view(&self) -> FieldView {
        match *self {
            Field::Acknowledgments(url) => FieldView::Url(UrlField::Acknowledgments, url),
            Field::Canonical(url) => FieldView::Url(UrlField::Canonical, url),
            Field::Contact(url) => FieldView::Url(UrlField::Contact, url),
            Field::Encryption(url) => FieldView::Url(UrlField::Encryption, url),
            Field::Expires(time) => FieldView::Expires(time),
            Field::Hiring(url) => FieldView::Url(UrlField::Hiring, url),
            Field::Policy(url) => FieldView::Url(UrlField::Policy, url),
            Field::PreferredLanguages(tags) => FieldView::PreferredLanguages(tags@),
            Field::Extension(name, value) => FieldView::Extension(name@, value@),
        }
    }
}

/// The field `which` made of what the URL parser returned for its value.
pub open spec fn url_field(which: UrlField, parsed: Result<Url, UrlError>) -> Result<
    FieldView,
    Seq<char>,
> {
    match parsed {
        Ok(url) => Ok(FieldView::Url(which, url)),
        Err(error) => Err(url_error_text(error)),
    }
}

/// The field `Expires` made of what the timestamp parser returned for its
/// value.
pub open spec fn expires_field(parsed: Result<Timestamp, TimestampError>) -> Result<
    FieldView,
    Seq<char>,
> {
    match parsed {
        Ok(time) => Ok(FieldView::Expires(time)),
        Err(error) => Err(timestamp_error_text(error)),
    }
}

/// `i` is where the first error of `parsed` stands.
pub open spec fn is_first_error(
    parsed: Seq<Result<LanguageTag, LanguageTagError>>,
    i: int,
) -> bool {
    &&& 0 <= i < parsed.len()
    &&& parsed[i] is Err
    &&& forall|j: int| 0 <= j < i ==> parsed[j] is Ok
}

/// All of `parsed` in order where none is an error, and else the first
/// error.
pub open spec fn collected(parsed: Seq<Result<LanguageTag, LanguageTagError>>) -> Result<
    Seq<LanguageTag>,
    LanguageTagError,
> {
    if exists|i: int| is_first_error(parsed, i) {
        Err(parsed[choose|i: int| is_first_error(parsed, i)]->Err_0)
    } else {
        Ok(Seq::new(parsed.len(), |i: int| parsed[i]->Ok_0))
    }
}

/// What the language tag parser returns for each piece of `value` between
/// commas, in order. No piece is trimmed.
pub open spec fn parsed_pieces(value: Seq<char>) -> Seq<Result<LanguageTag, LanguageTagError>> {
    split_all(value, ',').map_values(|piece: Seq<char>| language_tag_parse_result(piece))
}

/// The language tags that `value` lists, or the message of the error that
/// the first piece that is no tag was refused with.
pub open spec fn language_tags(value: Seq<char>) -> Result<Seq<LanguageTag>, Seq<char>> {
    match collected(parsed_pieces(value)) {
        Ok(tags) => Ok(tags),
        Err(error) => Err(language_tag_error_text(error)),
    }
}

/// The known field `known` with `value` parsed as the field asks.
pub open spec fn typed_field(known: FieldName, value: Seq<char>) -> Result<FieldView, Seq<char>> {
    match known {
        FieldName::Url(which) => url_field(which, url_parse_result(value)),
        FieldName::Expires => expires_field(rfc2822_parse_result(value)),
        FieldName::PreferredLanguages => match language_tags(value) {
            Ok(tags) => Ok(FieldView::PreferredLanguages(tags)),
            Err(message) => Err(message),
        },
    }
}

/// What a line that is no comment comes to. The line is cut at its first
/// `:` into name and value; a line without one is an error. A known name,
/// in any casing, has the value parsed as its field asks; any other name
/// is kept as written, with the value as written.
pub open spec fn field_of(line: Seq<char>) -> Result<FieldView, Seq<char>> {
    match split_first(line, ':') {
        Some((name, value)) => match known_name(folded(name)) {
            Some(known) => typed_field(known, value),
            None => Ok(FieldView::Extension(name, value)),
        },
        None => Err(missing_separator_text()),
    }
}

/// There is at most one first error.
proof fn lemma_first_error_is(parsed: Seq<Result<LanguageTag, LanguageTagError>>, i: int)
    requires
        is_first_error(parsed, i),
    ensures
        collected(parsed) == Err::<Seq<LanguageTag>, LanguageTagError>(parsed[i]->Err_0),
{
    let k = choose|k: int| is_first_error(parsed, k);
    if k < i {
        assert(parsed[k] is Ok);
    } else if i < k {
        assert(parsed[i] is Ok);
    }
}

/// At or before any error stands the first one.
proof fn lemma_first_error_before(parsed: Seq<Result<LanguageTag, LanguageTagError>>, k: int)
    requires
        0 <= k < parsed.len(),
        parsed[k] is Err,
    ensures
        collected(parsed) is Err,
    decreases k,
{
    if forall|j: int| 0 <= j < k ==> parsed[j] is Ok {
        lemma_first_error_is(parsed, k);
    } else {
        let j = choose|j: int| 0 <= j < k && !(parsed[j] is Ok);
        lemma_first_error_before(parsed, j);
    }
}

/// A line without a `:` is refused for that, whatever else it holds.
pub proof fn lemma_line_without_colon(line: Seq<char>)
    requires
        !line.contains(':'),
    ensures
        field_of(line) == Err::<FieldView, Seq<char>>(missing_separator_text()),
{
    lemma_split_first_some_iff_contains(line, ':');
}

/// A known name stands for its field in any casing of its letters: where
/// `name` reads as a known name once its capital letters are made small,
/// the line `name:value` is that field, with `value` parsed as the field
/// asks.
pub proof fn lemma_known_field_in_any_casing(name: Seq<char>, value: Seq<char>, known: FieldName)
    requires
        ascii_lower(name) == known.text(),
    ensures
        field_of(name + seq![':'] + value) == typed_field(known, value),
{
    lemma_known_in_any_casing(name, known);
    lemma_split_first_of_joined(name, ':', value);
}

/// A field that holds a URL is made of whatever URL its value parses to:
/// where `name` is the name of `which` in any casing and `value` is a URL,
/// the line `name:value` is the field `which` holding that URL.
pub proof fn lemma_url_field_holds_parsed_url(name: Seq<char>, value: Seq<char>, which: UrlField)
    requires
        ascii_lower(name) == which.text(),
        url_parse_result(value) is Ok,
    ensures
        field_of(name + seq![':'] + value) == Ok::<FieldView, Seq<char>>(
            FieldView::Url(which, url_parse_result(value)->Ok_0),
        ),
{
    lemma_known_field_in_any_casing(name, value, FieldName::Url(which));
}

/// A field that holds a URL is refused where its value is no URL, with the
/// URL parser's own words: no field is made up in its place.
pub proof fn lemma_url_field_refuses_bad_url(name: Seq<char>, value: Seq<char>, which: UrlField)
    requires
        ascii_lower(name) == which.text(),
        url_parse_result(value) is Err,
    ensures
        field_of(name + seq![':'] + value) == Err::<FieldView, Seq<char>>(
            url_error_text(url_parse_result(value)->Err_0),
        ),
{
    lemma_known_field_in_any_casing(name, value, FieldName::Url(which));
}

/// A name that is not known is kept: the line `name:value` is an extension
/// field that holds `name` and `value` as they were written, and is never
/// refused.
pub proof fn lemma_unknown_name_is_kept(name: Seq<char>, value: Seq<char>)
    requires
        !name.contains(':'),
        known_name(folded(name)) is None,
    ensures
        field_of(name + seq![':'] + value) == Ok::<FieldView, Seq<char>>(
            FieldView::Extension(name, value),
        ),
{
    lemma_split_first_of_joined(name, ':', value);
}

/// A list of language tags is read whole or not at all: it is read exactly
/// when each piece between commas is a tag, and then holds what each piece
/// parsed to, in the order of the pieces. One piece that is no tag fails
/// the list.
pub proof fn lemma_language_tags_all_or_none(value: Seq<char>)
    ensures
        language_tags(value) is Ok <==> forall|i: int|
            0 <= i < split_all(value, ',').len() ==> (#[trigger] language_tag_parse_result(
                split_all(value, ',')[i],
            )) is Ok,
        language_tags(value) matches Ok(tags) ==> {
            &&& tags.len() == split_all(value, ',').len()
            &&& forall|i: int|
                0 <= i < tags.len() ==> language_tag_parse_result(split_all(value, ',')[i]) == Ok::<
                    LanguageTag,
                    LanguageTagError,
                >(#[trigger] tags[i])
        },
{
    let pieces = split_all(value, ',');
    let parsed = parsed_pieces(value);
    assert forall|i: int| 0 <= i < pieces.len() implies parsed[i] == language_tag_parse_result(
        pieces[i],
    ) by {}
    if exists|k: int| 0 <= k < pieces.len() && language_tag_parse_result(pieces[k]) is Err {
        let k = choose|k: int| 0 <= k < pieces.len() && language_tag_parse_result(pieces[k]) is Err;
        assert(parsed[k] is Err);
        lemma_first_error_before(parsed, k);
    }
    if collected(parsed) is Err {
        let i = choose|i: int| is_first_error(parsed, i);
        assert(language_tag_parse_result(pieces[i]) is Err);
    }
}

impl Field {
    /// Makes the field `which` of what the URL parser returned for its
    /// value.
    pub fn from_url(which: UrlField, parsed: Result<Url, UrlError>) -> (made: Result<
        Field,
        ParseError,
    >)
        ensures
            outcome(made) == url_field(which, parsed),
    {
        match parsed {
            Ok(url) => Ok(
                match which {
                    UrlField::Acknowledgments => Field::Acknowledgments(url),
                    UrlField::Canonical => Field::Canonical(url),
                    UrlField::Contact => Field::Contact(url),
                    UrlField::Encryption => Field::Encryption(url),
                    UrlField::Hiring => Field::Hiring(url),
                    UrlField::Policy => Field::Policy(url),
                },
            ),
            Err(error) => Err(ParseError::from(error)),
        }
    }

    /// Makes the field `Expires` of what the timestamp parser returned for
    /// its value.
    pub fn from_timestamp(parsed: Result<Timestamp, TimestampError>) -> (made: Result<
        Field,
        ParseError,
    >)
        ensures
            outcome(made) == expires_field(parsed),
    {
        match parsed {
            Ok(time) => Ok(Field::Expires(time)),
            Err(error) => Err(ParseError::from(error)),
        }
    }

    /// Reads the value of the known field `known`.
    pub fn parse_value(known: FieldName, value: &str) -> (made: Result<Field, ParseError>)
        ensures
            outcome(made) == typed_field(known, value@),
    {
        match known {
            FieldName::Url(which) => Field::from_url(which, url_parse(value)),
            FieldName::Expires => Field::from_timestamp(rfc2822_parse(value)),
            FieldName::PreferredLanguages => match parse_language_tags(value) {
                Ok(tags) => Ok(Field::PreferredLanguages(tags)),
                Err(error) => Err(error),
            },
        }
    }
}

/// Adds to `tags` what the language tag parser returned for the next piece
/// of a list, or gives the list up with the parser's error.
pub fn push_language_tag(
    tags: Vec<LanguageTag>,
    parsed: Result<LanguageTag, LanguageTagError>,
) -> (extended: Result<Vec<LanguageTag>, ParseError>)
    ensures
        outcome(extended) == (match parsed {
            Ok(tag) => Ok(tags@.push(tag)),
            Err(error) => Err(language_tag_error_text(error)),
        }),
{
    match parsed {
        Ok(tag) => {
            let mut tags = tags;
            tags.push(tag);
            Ok(tags)
        },
        Err(error) => Err(ParseError::from(error)),
    }
}

/// Reads a list of language tags with commas between them.
pub fn parse_language_tags(value: &str) -> (tags: Result<Vec<LanguageTag>, ParseError>)
    ensures
        outcome(tags) == language_tags(value@),
{
    let ghost pieces = split_all(value@, ',');
    let ghost parsed = parsed_pieces(value@);
    let mut tags: Vec<LanguageTag> = Vec::new();
    let mut rest = value;
    loop
        invariant
            pieces == split_all(value@, ','),
            parsed == parsed_pieces(value@),
            tags@.len() < pieces.len(),
            split_all(rest@, ',') == pieces.skip(tags@.len() as int),
            forall|j: int| 0 <= j < tags@.len() ==> parsed[j] == Ok::<LanguageTag, LanguageTagError>(tags@[j]),
        decreases rest@.len(),
    {
        let ghost k = tags@.len() as int;
        assert(pieces.skip(k)[0] == pieces[k]);
        match split_at_str(rest, ',') {
            Some((head, tail)) => {
                assert(pieces[k] == head@);
                assert(split_all(tail@, ',') == pieces.skip(k + 1)) by {
                    assert(pieces.skip(k).skip(1) =~= pieces.skip(k + 1));
                    assert((seq![head@] + split_all(tail@, ',')).skip(1) =~= split_all(tail@, ','));
                }
                let next = language_tag_parse(head);
                assert(next == parsed[k]);
                proof {
                    if next is Err {
                        lemma_first_error_is(parsed, k);
                    }
                }
                match push_language_tag(tags, next) {
                    Ok(extended) => {
                        tags = extended;
                    },
                    Err(error) => {
                        return Err(error);
                    },
                }
                rest = tail;
            },
            None => {
                assert(pieces[k] == rest@);
                assert(pieces.len() == k + 1);
                let next = language_tag_parse(rest);
                assert(next == parsed[k]);
                proof {
                    if next is Err {
                        lemma_first_error_is(parsed, k);
                    } else {
                        assert(collected(parsed)->Ok_0 =~= tags@.push(next->Ok_0));
                    }
                }
                return push_language_tag(tags, next);
            },
        }
    }
}

impl FromStr for Field {
    type Err = ParseError;

    /// Reads a field from a line that is no comment.
    fn from_str(string: &str) -> (parsed: Result<Field, ParseError>)
        ensures
            outcome(parsed) == field_of(string@),
            !string@.contains(':') ==> outcome(parsed) == Err::<FieldView, Seq<char>>(
                missing_separator_text(),
            ),
    {
        proof {
            lemma_split_first_some_iff_contains(string@, ':');
        }
        match split_at_str(string, ':') {
            Some((name, value)) => {
                let lowered = to_lowercase(name);
                match FieldName::recognize(lowered.as_str()) {
                    Some(known) => Field::parse_value(known, value),
                    None => Ok(Field::Extension(name.to_owned(), value.to_owned())),
                }
            },
            None => Err(ParseError::missing_separator()),
        }
    }
}

} // verus!
