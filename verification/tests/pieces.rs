use security_txt::text::split_at_str;
use security_txt::text::str_eq;
use security_txt::FieldName;
use security_txt::ParseError;
use security_txt::UrlField;

#[test]
fn split_cuts_at_the_first_pattern() {
    assert_eq!(split_at_str("a:b", ':'), Some(("a", "b")));
    assert_eq!(split_at_str("a:b:c", ':'), Some(("a", "b:c")));
    assert_eq!(split_at_str("name: value ", ':'), Some(("name", " value ")));
}

#[test]
fn split_without_pattern_is_none() {
    assert_eq!(split_at_str("abc", ':'), None);
    assert_eq!(split_at_str("", ':'), None);
}

#[test]
fn split_at_either_end() {
    assert_eq!(split_at_str(":", ':'), Some(("", "")));
    assert_eq!(split_at_str(":b", ':'), Some(("", "b")));
    assert_eq!(split_at_str("a:", ':'), Some(("a", "")));
    assert_eq!(split_at_str("::", ':'), Some(("", ":")));
}

#[test]
fn split_counts_characters_not_bytes() {
    assert_eq!(split_at_str("é\u{1F512}:ü", ':'), Some(("é\u{1F512}", "ü")));
    assert_eq!(split_at_str("aébéc", 'é'), Some(("a", "béc")));
    assert_eq!(split_at_str("a,b", ','), Some(("a", "b")));
}

#[test]
fn str_eq_compares_characters() {
    assert!(str_eq("", ""));
    assert!(str_eq("contact", "contact"));
    assert!(str_eq("é\u{1F512}", "é\u{1F512}"));
    assert!(!str_eq("contact", "contacT"));
    assert!(!str_eq("contact", "contac"));
    assert!(!str_eq("contac", "contact"));
    assert!(!str_eq("", "a"));
    assert!(!str_eq("é", "e"));
}

#[test]
fn recognize_knows_the_eight_names() {
    assert_eq!(
        FieldName::recognize("acknowledgments"),
        Some(FieldName::Url(UrlField::Acknowledgments))
    );
    assert_eq!(FieldName::recognize("canonical"), Some(FieldName::Url(UrlField::Canonical)));
    assert_eq!(FieldName::recognize("contact"), Some(FieldName::Url(UrlField::Contact)));
    assert_eq!(FieldName::recognize("encryption"), Some(FieldName::Url(UrlField::Encryption)));
    assert_eq!(FieldName::recognize("expires"), Some(FieldName::Expires));
    assert_eq!(FieldName::recognize("hiring"), Some(FieldName::Url(UrlField::Hiring)));
    assert_eq!(FieldName::recognize("policy"), Some(FieldName::Url(UrlField::Policy)));
    assert_eq!(FieldName::recognize("preferred-languages"), Some(FieldName::PreferredLanguages));
}

#[test]
fn recognize_knows_no_other_name() {
    assert_eq!(FieldName::recognize("Contact"), None);
    assert_eq!(FieldName::recognize("contact "), None);
    assert_eq!(FieldName::recognize("preferred_languages"), None);
    assert_eq!(FieldName::recognize("acknowledgements"), None);
    assert_eq!(FieldName::recognize(""), None);
}

#[test]
fn errors_carry_the_parsers_words() {
    assert_eq!(ParseError::from(url::ParseError::EmptyHost).message(), "empty host");
    assert_eq!(
        ParseError::from(language_tags::Error::TooManyExtlangs).message(),
        "At maximum three extlangs are allowed"
    );
    let error = chrono::DateTime::parse_from_rfc2822("").unwrap_err();
    assert_eq!(ParseError::from(error).message(), "premature end of input");
}

#[test]
fn missing_separator_says_so() {
    assert_eq!(ParseError::missing_separator().message(), "Missing `:`");
    assert_eq!(ParseError::missing_separator(), ParseError::missing_separator());
    assert_ne!(ParseError::missing_separator(), ParseError::from(url::ParseError::EmptyHost));
}
