use scholarly_identifiers::identifiers::Identifier;

/// DOI equality is defined on the decoded, case-folded suffix text, never
/// on any particular percent-encoding.
#[test]
fn doi_equality_on_decoded_text() {
    assert_eq!(
        Identifier::parse("10.5555/ABCDEFG"),
        Identifier::parse("10.5555/abcdefg")
    );
    assert_eq!(
        Identifier::parse("https://doi.org/10.5555/%41%42"),
        Identifier::parse("10.5555/ab")
    );
}

/// Case folding is ASCII-only by design: suffixes that differ in the case
/// of a non-ASCII letter are distinct DOIs, each preserved as typed, and
/// each round-trips through its own percent-encoded URL.
#[test]
fn doi_non_ascii_case_preserved() {
    let upper = Identifier::parse("10.5555/\u{c9}");
    let lower = Identifier::parse("10.5555/\u{e9}");
    assert_eq!(
        Identifier::Doi {
            prefix: String::from("10.5555"),
            suffix: String::from("\u{c9}")
        },
        upper
    );
    assert_ne!(upper, lower);
    let uri = upper.to_uri().unwrap();
    assert_eq!("https://doi.org/10.5555/%C3%89", uri);
    assert_eq!(upper, Identifier::parse(&uri));
}

/// A 10-digit ISBN equals its 13-digit form; altering the check digit makes
/// it fall through to another kind.
#[test]
fn isbn_ten_thirteen_equivalence() {
    assert_eq!(
        Identifier::parse("0306406152"),
        Identifier::parse("9780306406157")
    );
    // Last digit altered: no longer an ISBN.
    let altered = Identifier::parse("0306406153");
    assert!(!matches!(altered, Identifier::Isbn(_)));
}

/// A 10-digit ISBN may carry `X` (value ten) as its check character, in
/// either case, and still normalises to 13 digits; anywhere else `X` is
/// not an ISBN character position and the input is declined.
#[test]
fn isbn_x_check_character() {
    let expected = Identifier::Isbn(String::from("9780804429573"));
    assert_eq!(expected, Identifier::parse("080442957X"));
    assert_eq!(expected, Identifier::parse("080442957x"));
    assert_eq!(expected, Identifier::parse("0-8044-2957-X"));
    // `X` outside the check position of the 10-digit form is declined.
    assert!(!matches!(
        Identifier::parse("X80442957X"),
        Identifier::Isbn(_)
    ));
    assert!(!matches!(
        Identifier::parse("080442957X978"),
        Identifier::Isbn(_)
    ));
    assert!(!matches!(
        Identifier::parse("978080442957X"),
        Identifier::Isbn(_)
    ));
}

/// The check digits sit at the exact boundary of the checksum formulas: a
/// 13-digit weighted sum divisible by ten expects the check digit 0, while
/// a 10-digit sum divisible by eleven expects a check value of eleven,
/// which no character supplies.
#[test]
fn isbn_checksum_boundaries() {
    assert_eq!(
        Identifier::Isbn(String::from("0000000000000")),
        Identifier::parse("0000000000000")
    );
    let all_zero = Identifier::parse("0000000000");
    assert!(!matches!(all_zero, Identifier::Isbn(_)));
}

/// The `urn:isbn:` label is stripped case-insensitively.
#[test]
fn isbn_urn_label() {
    let expected = Identifier::Isbn(String::from("9780306406157"));
    assert_eq!(expected, Identifier::parse("urn:isbn:9780306406157"));
    assert_eq!(expected, Identifier::parse("URN:ISBN:9780306406157"));
    assert_eq!(expected, Identifier::parse("Urn:Isbn:0306406152"));
}

/// Flipping the final check character of a valid ORCID iD demotes the URL
/// to the generic URI kind; it is not rejected outright.
#[test]
fn orcid_flipped_check_falls_to_uri() {
    assert!(matches!(
        Identifier::parse("https://orcid.org/0000-0002-1694-233X"),
        Identifier::Orcid(_)
    ));
    assert_eq!(
        Identifier::Uri(String::from("https://orcid.org/0000-0002-1694-2330")),
        Identifier::parse("https://orcid.org/0000-0002-1694-2330")
    );
}

/// Upper-casing any letter of a ROR code demotes the URL to the generic
/// URI kind: ROR codes are case-significant.
#[test]
fn ror_upper_case_falls_to_uri() {
    assert!(matches!(
        Identifier::parse("https://ror.org/02twcfp32"),
        Identifier::Ror(_)
    ));
    assert_eq!(
        Identifier::Uri(String::from("https://ror.org/02TWCFP32")),
        Identifier::parse("https://ror.org/02TWCFP32")
    );
}

/// Text with no recognisable structure parses as an opaque string wrapping
/// the input verbatim.
#[test]
fn unrecognised_text_is_opaque() {
    assert_eq!(
        Identifier::OpaqueString(String::from("hello world")),
        Identifier::parse("hello world")
    );
    assert_eq!(
        Identifier::OpaqueString(String::from("")),
        Identifier::parse("")
    );
}

/// A DOI suffix whose percent-encoding decodes to invalid UTF-8 is declined
/// rather than repaired: the input falls through to the URI kind.
#[test]
fn doi_invalid_encoding_declined() {
    let bad = "https://doi.org/10.5555/%ff%fe";
    let parsed = Identifier::parse(bad);
    assert!(!matches!(parsed, Identifier::Doi { .. }));
    assert_eq!(Identifier::Uri(String::from(bad)), parsed);
}

/// A multi-byte UTF-8 sequence in a percent-encoded suffix decodes to the
/// literal character, so the decoded form and the encoded form are equal.
#[test]
fn doi_utf8_suffix_decodes() {
    assert_eq!(
        Identifier::Doi {
            prefix: String::from("10.5555"),
            suffix: String::from("caf\u{e9}")
        },
        Identifier::parse("https://doi.org/10.5555/caf%C3%A9")
    );
    assert_eq!(
        Identifier::parse("https://doi.org/10.5555/caf%C3%A9"),
        Identifier::parse("10.5555/caf\u{e9}")
    );
}

/// Percent-decoding follows the URL standard exactly: the library's decoder
/// agrees with the `percent-encoding` crate, including pass-through of
/// malformed sequences.
#[test]
fn percent_decoding_matches_url_standard() {
    let samples = ["a%2Bb", "a%2bb", "%41%20%7c", "100%", "%zz%1", "%e2%82%ac"];
    for sample in samples.iter() {
        let reference: Vec<u8> = percent_encoding::percent_decode(sample.as_bytes()).collect();
        // Exercise the library's decoder through the DOI parser: a suffix
        // that decodes under the URL standard must come out identically.
        let input = format!("doi.org/10.1/{}", sample);
        let parsed = Identifier::parse(&input);
        match (parsed, String::from_utf8(reference)) {
            (Identifier::Doi { prefix: _, suffix }, Ok(expected)) => {
                assert_eq!(suffix, expected.to_lowercase());
            }
            (other, Ok(_)) => panic!("expected a DOI for {}, got {:?}", input, other),
            (other, Err(_)) => {
                assert!(!matches!(other, Identifier::Doi { .. }));
            }
        }
    }
}

/// A DOI-shaped string is never captured by the greedy URI kind, and a URL
/// that merely contains a DOI-like substring is a URI, not a DOI.
#[test]
fn dispatch_precedence() {
    assert!(matches!(
        Identifier::parse("10.1103/physrevlett.103.157203"),
        Identifier::Doi { .. }
    ));
    assert!(matches!(
        Identifier::parse(
            "https://journals.plos.org/plosone/article?id=10.1371/journal.pone.0190046"
        ),
        Identifier::Uri(_)
    ));
}
