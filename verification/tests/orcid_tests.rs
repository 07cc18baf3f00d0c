use scholarly_identifiers::identifiers::Identifier;

#[test]
fn simple_orcid() {
    assert_eq!(
        Identifier::Orcid(String::from("0000-0002-1028-6941")),
        Identifier::parse("https://orcid.org/0000-0002-1028-6941")
    );
}

#[test]
fn good_checksums() {
    assert_eq!(
        Identifier::Orcid(String::from("0000-0002-1694-233X")),
        Identifier::parse("https://orcid.org/0000-0002-1694-233X")
    );

    assert_eq!(
        Identifier::Orcid(String::from("0000-0001-5109-3700")),
        Identifier::parse("https://orcid.org/0000-0001-5109-3700")
    );
}

/// Swapped checksums from the two examples in [`good_checksums`] to make two
/// invalid iDs.
#[test]
fn bad_checksums() {
    assert_eq!(
        Identifier::Uri(String::from("https://orcid.org/0000-0002-1694-2330")),
        Identifier::parse("https://orcid.org/0000-0002-1694-2330"),
        "Bad checksum should parse as a URI not an ORCID ID."
    );

    assert_eq!(
        Identifier::Uri(String::from("https://orcid.org/0000-0001-5109-370X")),
        Identifier::parse("https://orcid.org/0000-0001-5109-370X"),
        "Bad checksum should parse as a URI not an ORCID ID."
    );
}

#[test]
fn case() {
    let expected = Identifier::Orcid(String::from("0000-0002-1694-233X"));

    assert_eq!(
        expected,
        Identifier::parse("https://orcid.org/0000-0002-1694-233x"),
        "Lower case ORCID URI should parse."
    );

    assert_eq!(
        expected,
        Identifier::parse("HTTPS://ORCID.ORG/0000-0002-1694-233X"),
        "Upper case ORCID URI should parse."
    );
}

#[test]
fn scheme() {
    let expected = Identifier::Orcid(String::from("0000-0002-1694-233X"));

    assert_eq!(
        expected,
        Identifier::parse("https://orcid.org/0000-0002-1694-233x"),
        "HTTPS ORCID URI should parse."
    );

    assert_eq!(
        expected,
        Identifier::parse("http://orcid.org/0000-0002-1694-233x"),
        "HTTP ORCID URI should parse."
    );
}

#[test]
fn orcid_parse_simple() {
    assert_eq!(
        "https://orcid.org/0000-0002-1694-233X",
        Identifier::parse("https://orcid.org/0000-0002-1694-233X")
            .to_uri()
            .unwrap()
    );
}
