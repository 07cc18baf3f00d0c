use scholarly_identifiers::identifiers::Identifier;

/// Every kind with a URI form parses back from it to the same identifier.
#[test]
fn uri_round_trips_per_kind() {
    let inputs = [
        "https://doi.org/10.5555/12345678",
        "https://doi.org/10.1002/(sici)1099-050x(199823/24)37:3/4%3C197::aid-hrm2%3E3.0.co;2-%23",
        "https://orcid.org/0000-0002-1694-233X",
        "https://ror.org/02twcfp32",
        "http://example.com/some/path",
    ];
    for input in inputs.iter() {
        let parsed = Identifier::parse(input);
        let uri = parsed.to_uri().expect("these kinds all have a URI form");
        assert_eq!(parsed, Identifier::parse(&uri));
    }
}

/// The stable string parses back to the same identifier for every kind,
/// including the kinds without a URI form.
#[test]
fn stable_round_trips_per_kind() {
    let inputs = [
        "10.5555/12345678",
        "0306406152",
        "9781566199094",
        "https://orcid.org/0000-0001-5109-3700",
        "https://ror.org/02mhbdp94",
        "an-unconventional-uri",
        "not a uri at all",
    ];
    for input in inputs.iter() {
        let parsed = Identifier::parse(input);
        let stable = parsed.to_stable_string();
        assert_eq!(parsed, Identifier::parse(&stable));
    }
}

/// The pair of stable string and kind tag reconstructs the identifier for
/// every kind.
#[test]
fn pair_round_trips_per_kind() {
    let inputs = [
        "10.5555/12345678",
        "https://orcid.org/0000-0002-1694-233X",
        "https://ror.org/02twcfp32",
        "https://example.com/page?q=1",
        "not a uri at all",
        "9780306406157",
    ];
    for input in inputs.iter() {
        let parsed = Identifier::parse(input);
        let (value, tag) = parsed.to_id_string_pair();
        let back = Identifier::from_id_string_pair(&value, tag)
            .expect("a stored pair must reconstruct");
        assert_eq!(parsed, back);
    }
}

/// The numeric kind tags are a permanent persisted contract: 1 DOI, 2
/// ORCID, 3 ROR, 4 URI, 5 opaque string, 6 ISBN.
#[test]
fn kind_tags_are_fixed() {
    assert_eq!(1, Identifier::parse("10.5555/12345678").to_id_string_pair().1);
    assert_eq!(
        2,
        Identifier::parse("https://orcid.org/0000-0002-1694-233X")
            .to_id_string_pair()
            .1
    );
    assert_eq!(
        3,
        Identifier::parse("https://ror.org/02twcfp32")
            .to_id_string_pair()
            .1
    );
    assert_eq!(4, Identifier::parse("https://example.com").to_id_string_pair().1);
    assert_eq!(5, Identifier::parse("not a uri at all").to_id_string_pair().1);
    assert_eq!(6, Identifier::parse("9780306406157").to_id_string_pair().1);
}

/// An unknown kind tag signals corrupted persisted data and yields nothing.
#[test]
fn unknown_tag_is_rejected() {
    assert_eq!(None, Identifier::from_id_string_pair("10.5555/12345678", 0));
    assert_eq!(None, Identifier::from_id_string_pair("10.5555/12345678", 7));
    assert_eq!(None, Identifier::from_id_string_pair("anything", 99));
}

/// The stable string of a DOI is its resolver URL; the stable strings of
/// ISBN and opaque strings are the bare payloads.
#[test]
fn stable_string_forms() {
    assert_eq!(
        "https://doi.org/10.5555/12345678",
        Identifier::parse("10.5555/12345678").to_stable_string()
    );
    assert_eq!(
        "9780306406157",
        Identifier::parse("0306406152").to_stable_string()
    );
    assert_eq!(
        "https://orcid.org/0000-0002-1694-233X",
        Identifier::parse("https://orcid.org/0000-0002-1694-233x").to_stable_string()
    );
    assert_eq!(
        "https://ror.org/02twcfp32",
        Identifier::parse("https://ror.org/02twcfp32").to_stable_string()
    );
    assert_eq!(
        "not a uri at all",
        Identifier::parse("not a uri at all").to_stable_string()
    );
}

/// Neither an ISBN nor an opaque string has a URI form: the ISBN has no
/// natural resolvable URL, and an opaque string never parsed as a URI.
#[test]
fn kinds_without_uri_form() {
    assert_eq!(None, Identifier::parse("9780306406157").to_uri());
    assert_eq!(None, Identifier::parse("not a uri at all").to_uri());
}

/// The module-level URI renderings are available directly, including the
/// `urn:isbn:` form for ISBN, and they guard against the wrong variant.
#[test]
fn module_level_uri_forms() {
    let isbn = Identifier::parse("0306406152");
    assert_eq!(
        Some(String::from("urn:isbn:9780306406157")),
        scholarly_identifiers::isbn::to_uri(&isbn)
    );
    // An ISBN rendered as a URN parses back to the same ISBN.
    assert_eq!(isbn, Identifier::parse("urn:isbn:9780306406157"));

    let doi = Identifier::parse("10.5555/12345678");
    assert_eq!(
        Some(String::from("https://doi.org/10.5555/12345678")),
        scholarly_identifiers::doi::to_uri(&doi)
    );
    assert_eq!(None, scholarly_identifiers::doi::to_uri(&isbn));

    let orcid = Identifier::parse("https://orcid.org/0000-0002-1694-233X");
    assert_eq!(
        Some(String::from("https://orcid.org/0000-0002-1694-233X")),
        scholarly_identifiers::orcid::to_uri(&orcid)
    );
    assert_eq!(None, scholarly_identifiers::orcid::to_uri(&doi));

    let ror = Identifier::parse("https://ror.org/02twcfp32");
    assert_eq!(
        Some(String::from("https://ror.org/02twcfp32")),
        scholarly_identifiers::ror::to_uri(&ror)
    );
    assert_eq!(None, scholarly_identifiers::ror::to_uri(&orcid));
}
