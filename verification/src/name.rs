//! The field names that are known, and how a name on a line is matched
//! against them.

use crate::text::ascii_lower;
use crate::text::ascii_lower_char;
use crate::text::str_eq;
use crate::trusted::lowercase;
use vstd::prelude::*;
use vstd::utf8::is_ascii_chars;

verus! {

/// The known fields whose value is a URL.
#[derive(Clone, Copy, Debug, PartialEq, Eq)]
pub enum UrlField {
    Acknowledgments,
    Canonical,
    Contact,
    Encryption,
    Hiring,
    Policy,
}

/// The known fields.
#[derive(Clone, Copy, Debug, PartialEq, Eq)]
pub enum FieldName {
    Url(UrlField),
    Expires,
    PreferredLanguages,
}

impl UrlField {
    /// The field's name, in small letters.
    pub open spec fn text(self) -> Seq<char> {
        match self {
            UrlField::Acknowledgments => "acknowledgments"@,
            UrlField::Canonical => "canonical"@,
            UrlField::Contact => "contact"@,
            UrlField::Encryption => "encryption"@,
            UrlField::Hiring => "hiring"@,
            UrlField::Policy => "policy"@,
        }
    }
}

impl FieldName {
    /// The field's name, in small letters.
    pub open spec fn text(self) -> Seq<char> {
        match self {
            FieldName::Url(field) => field.text(),
            FieldName::Expires => "expires"@,
            FieldName::PreferredLanguages => "preferred-languages"@,
        }
    }

    /// The known field that `lowered` names. Capital letters name none.
    pub fn recognize(lowered: &str) -> (known: Option<FieldName>)
        ensures
            known == known_name(lowered@),
    {
        if str_eq(lowered, "acknowledgments") {
            Some(FieldName::Url(UrlField::Acknowledgments))
        } else if str_eq(lowered, "canonical") {
            Some(FieldName::Url(UrlField::Canonical))
        } else if str_eq(lowered, "contact") {
            Some(FieldName::Url(UrlField::Contact))
        } else if str_eq(lowered, "encryption") {
            Some(FieldName::Url(UrlField::Encryption))
        } else if str_eq(lowered, "expires") {
            Some(FieldName::Expires)
        } else if str_eq(lowered, "hiring") {
            Some(FieldName::Url(UrlField::Hiring))
        } else if str_eq(lowered, "policy") {
            Some(FieldName::Url(UrlField::Policy))
        } else if str_eq(lowered, "preferred-languages") {
            Some(FieldName::PreferredLanguages)
        } else {
            None
        }
    }
}

/// The known field that `lowered` names, if it names one.
pub open spec fn known_name(lowered: Seq<char>) -> Option<FieldName> {
    if lowered == "acknowledgments"@ {
        Some(FieldName::Url(UrlField::Acknowledgments))
    } else if lowered == "canonical"@ {
        Some(FieldName::Url(UrlField::Canonical))
    } else if lowered == "contact"@ {
        Some(FieldName::Url(UrlField::Contact))
    } else if lowered == "encryption"@ {
        Some(FieldName::Url(UrlField::Encryption))
    } else if lowered == "expires"@ {
        Some(FieldName::Expires)
    } else if lowered == "hiring"@ {
        Some(FieldName::Url(UrlField::Hiring))
    } else if lowered == "policy"@ {
        Some(FieldName::Url(UrlField::Policy))
    } else if lowered == "preferred-languages"@ {
        Some(FieldName::PreferredLanguages)
    } else {
        None
    }
}

/// A name as it is compared with the known names: in small letters. In a
/// name that is all ASCII the capital letters `A` to `Z` are made small; a
/// name with other characters is lower-cased as `str::to_lowercase` does it.
pub open spec fn folded(name: Seq<char>) -> Seq<char> {
    if is_ascii_chars(name) {
        ascii_lower(name)
    } else {
        lowercase(name)
    }
}

/// `c` is one of the small letters `a` to `z`, or a hyphen.
pub open spec fn is_name_char(c: char) -> bool {
    'a' <= c <= 'z' || c == '-'
}

/// Every character of `s` is a small letter or a hyphen.
spec fn is_name_text(s: Seq<char>) -> bool
    decreases s.len(),
{
    s.len() == 0 || (is_name_char(s.last()) && is_name_text(s.drop_last()))
}

/// What holds of a text as a whole holds of each of its characters.
proof fn lemma_name_text_chars(s: Seq<char>)
    requires
        is_name_text(s),
    ensures
        forall|i: int| 0 <= i < s.len() ==> is_name_char(#[trigger] s[i]),
    decreases s.len(),
{
    if s.len() > 0 {
        lemma_name_text_chars(s.drop_last());
        assert forall|i: int| 0 <= i < s.len() implies is_name_char(#[trigger] s[i]) by {
            if i < s.len() - 1 {
                assert(s[i] == s.drop_last()[i]);
            }
        }
    }
}

/// The known names are written in small letters and hyphens, and no two of
/// them are alike.
pub proof fn lemma_known_names(known: FieldName)
    ensures
        known_name(known.text()) == Some(known),
        forall|i: int| 0 <= i < known.text().len() ==> is_name_char(#[trigger] known.text()[i]),
{
    reveal_strlit("acknowledgments");
    reveal_strlit("canonical");
    reveal_strlit("contact");
    reveal_strlit("encryption");
    reveal_strlit("expires");
    reveal_strlit("hiring");
    reveal_strlit("policy");
    reveal_strlit("preferred-languages");
    assert("acknowledgments"@.len() == 15);
    assert("canonical"@.len() == 9);
    assert("contact"@.len() == 7 && "contact"@[0] == 'c');
    assert("encryption"@.len() == 10);
    assert("expires"@.len() == 7 && "expires"@[0] == 'e');
    assert("hiring"@.len() == 6 && "hiring"@[0] == 'h');
    assert("policy"@.len() == 6 && "policy"@[0] == 'p');
    assert("preferred-languages"@.len() == 19);
    assert(is_name_text(known.text())) by {
        reveal_with_fuel(is_name_text, 20);
    }
    lemma_name_text_chars(known.text());
}

/// Text names the field `known` exactly when it is that field's name, in
/// small letters.
pub proof fn lemma_known_name_iff_text(lowered: Seq<char>, known: FieldName)
    ensures
        known_name(lowered) == Some(known) <==> lowered == known.text(),
{
    lemma_known_names(known);
}

/// A known name is known in any casing of its letters: text that reads as
/// the name of `known` once its capital letters are made small folds to
/// that name, and holds no `:`.
pub proof fn lemma_known_in_any_casing(name: Seq<char>, known: FieldName)
    requires
        ascii_lower(name) == known.text(),
    ensures
        known_name(folded(name)) == Some(known),
        !name.contains(':'),
{
    lemma_known_names(known);
    let low = ascii_lower(name);
    assert forall|i: int| 0 <= i < name.len() implies '\0' <= #[trigger] name[i] <= '\u{7f}'
        && name[i] != ':' by {
        assert(low[i] == ascii_lower_char(name[i]));
        assert(is_name_char(low[i]));
    }
    assert(is_ascii_chars(name));
}

} // verus!
