use scholarly_identifiers::identifiers::Identifier;

#[test]
fn uri_parse_simple() {
    assert_eq!(
        Identifier::Uri(String::from("http://example.com/"),),
        Identifier::parse("http://example.com/")
    );
}

/// Some strings don't look like URIs, but are.
#[test]
fn parse_unconventional() {
    assert_eq!(
        Identifier::Uri(String::from("an-unconventional-uri"),),
        Identifier::parse("an-unconventional-uri")
    );
}

/// Unencoded Unicode strings are not valid URIs, and are not parsed as such.
#[test]
fn parse_invalid() {
    assert_eq!(
        Identifier::OpaqueString(String::from("http://example.com/®")),
        Identifier::parse("http://example.com/®")
    );
}

#[test]
fn uri_to_uri_simple() {
    assert_eq!(
        "http://example.com/",
        Identifier::parse("http://example.com/").to_uri().unwrap()
    );
}
