use core::str::FromStr;
use security_txt::Field;
use security_txt::Line;
use security_txt::Timestamp;
use security_txt::FILENAME;
use security_txt::MIMETYPE;
use security_txt::WELL_KNOWN_PATH;
use url::Url;

#[test]
fn comment_keeps_its_text() {
    assert_eq!(
        Line::from_str("# this is a note"),
        Ok(Line::Comment(String::from(" this is a note")))
    );
}

#[test]
fn comment_is_never_refused() {
    assert_eq!(Line::from_str("#"), Ok(Line::Comment(String::new())));
    assert_eq!(Line::from_str("##"), Ok(Line::Comment(String::from("#"))));
    assert_eq!(
        Line::from_str("#Contact:not a url"),
        Ok(Line::Comment(String::from("Contact:not a url")))
    );
    assert_eq!(
        Line::from_str("#no colon, é and \u{1F512}  "),
        Ok(Line::Comment(String::from("no colon, é and \u{1F512}  ")))
    );
}

#[test]
fn only_a_leading_hash_makes_a_comment() {
    assert_eq!(
        Line::from_str(" #x:y"),
        Ok(Line::Field(Field::Extension(String::from(" #x"), String::from("y"))))
    );
    match Line::from_str(" # note") {
        Ok(line) => panic!("read as {:?}", line),
        Err(error) => assert_eq!(error.message(), "Missing `:`"),
    }
}

#[test]
fn other_lines_are_fields() {
    assert_eq!(
        Line::from_str("Contact:https://example.com/security"),
        Ok(Line::Field(Field::Contact(Url::parse("https://example.com/security").unwrap())))
    );
    assert_eq!(
        Line::from_str("Expires:Sat, 13 Mar 2010 11:29:00 -0800"),
        Ok(Line::Field(Field::Expires(Timestamp {
            seconds: 1268508540,
            nanoseconds: 0,
            offset: -28800
        })))
    );
}

#[test]
fn empty_line_is_refused_for_its_missing_colon() {
    match Line::from_str("") {
        Ok(line) => panic!("read as {:?}", line),
        Err(error) => assert_eq!(error.message(), "Missing `:`"),
    }
}

#[test]
fn field_errors_pass_through() {
    match Line::from_str("Contact:not a url") {
        Ok(line) => panic!("read as {:?}", line),
        Err(error) => assert_eq!(error.message(), "relative URL without a base"),
    }
    match Line::from_str("NoColonHere") {
        Ok(line) => panic!("read as {:?}", line),
        Err(error) => assert_eq!(error.message(), "Missing `:`"),
    }
}

#[test]
fn reading_a_line_twice_gives_the_same() {
    for line in ["# note", "Contact:https://example.com", "Contact:no", "", "a:b"] {
        assert_eq!(Line::from_str(line), Line::from_str(line));
    }
}

#[test]
fn names_of_the_file() {
    assert_eq!(FILENAME, "security.txt");
    assert_eq!(WELL_KNOWN_PATH, "/.well-known/security.txt");
    assert_eq!(MIMETYPE, "text/plain");
}
