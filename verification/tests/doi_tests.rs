use scholarly_identifiers::identifiers::Identifier;

#[test]
fn parse_simple_raw() {
    assert_eq!(
        Identifier::Doi {
            prefix: String::from("10.5555"),
            suffix: String::from("12345678")
        },
        Identifier::parse("10.5555/12345678")
    );
}

#[test]
fn parse_simple_doi_scheme() {
    assert_eq!(
        Identifier::Doi {
            prefix: String::from("10.5555"),
            suffix: String::from("12345678")
        },
        Identifier::parse("doi:10.5555/12345678"),
        "Siple DOIs should parse."
    );
}

#[test]
fn parse_doi_resolver() {
    let expected = Identifier::Doi {
        prefix: String::from("10.5555"),
        suffix: String::from("12345678"),
    };

    // Standard resolver.
    assert_eq!(
        expected,
        Identifier::parse("https://doi.org/10.5555/12345678"),
        "URLs on the DOI resolver using HTTPS should parse."
    );

    // Standard resolver.
    assert_eq!(
        expected,
        Identifier::parse("http://doi.org/10.5555/12345678"),
        "URLs on the DOI resolver using HTTP should parse."
    );

    // Old resolver http
    assert_eq!(
        expected,
        Identifier::parse("https://dx.doi.org/10.5555/12345678"),
        "Old resolver using HTTP should be recognised."
    );

    // Old resolver https
    assert_eq!(
        expected,
        Identifier::parse("http://dx.doi.org/10.5555/12345678"),
        "Old resolver using HTTPS should be recognised."
    );
}

#[test]
fn parse_doi_schemes() {
    let expected = Identifier::Doi {
        prefix: String::from("10.5555"),
        suffix: String::from("12345678"),
    };

    assert_eq!(expected, Identifier::parse("doi:10.5555/12345678"));
    assert_eq!(expected, Identifier::parse("info:doi:10.5555/12345678"));
    assert_eq!(expected, Identifier::parse("urn:doi:10.5555/12345678"));
}

#[test]
fn lower_case() {
    let expected = Identifier::Doi {
        prefix: String::from("10.5555"),
        suffix: String::from("abcdefg"),
    };

    assert_eq!(expected, Identifier::parse("10.5555/abcdefg"));
    assert_eq!(
        expected,
        Identifier::parse("https://doi.org/10.5555/abcdefg")
    );
    assert_eq!(expected, Identifier::parse("10.5555/ABCDEFG"));
    assert_eq!(
        expected,
        Identifier::parse("https://doi.org/10.5555/ABCDEFG")
    );
}

/// SICIs can contain all manner of interesting characters, including a
/// terminal '#'.
#[test]
fn sici() {
    let expected = Identifier::Doi {
        prefix: String::from("10.1002"),
        suffix: String::from("(sici)1099-050x(199823/24)37:3/4<197::aid-hrm2>3.0.co;2-#"),
    };

    assert_eq!(
        expected,
        Identifier::parse("10.1002/(SICI)1099-050X(199823/24)37:3/4<197::AID-HRM2>3.0.CO;2-#",),
        "SICI as a plain DOI should parse. Contains a terminal '#' character."
    );

    assert_eq!(
        expected,
        Identifier::parse("https://doi.org/10.1002%2F%28sici%291099-050x%28199823%2F24%2937%3A3%2F4%3C197%3A%3Aaid-hrm2%3E3.0.co%3B2-%23"),
        "SICI as URL, with every possible character encoded, should parse."
    );

    assert_eq!(
        expected,
        Identifier::parse("https://doi.org/10.1002/(sici)1099-050x(199823/24)37:3/4%3C197::aid-hrm2%3E3.0.co;2-%23"),
        "SICI as URL, with only characters recommended by DOI handbook, should parse."
    )
}

/// Deal with URL encodings.
#[test]
fn mandatory_encodings() {
    // The DOI handbook specifies mandatory encoding of:
    //
    // % %25
    // " %22
    // # %23
    // SPACE %20
    // ? %3F
    //
    assert_eq!(
        Identifier::Doi {
            prefix: String::from("10.5555"),
            // String contains a quote mark mid way through.
            // It's a little clearer to use a raw string than escape the quote.
            suffix: String::from(r##"%"# ?"##),
        },
        Identifier::parse("https://doi.org/10.5555/%25%22%23%20%3F"),
        "Handle mandatory DOI URL encodings."
    );
}

/// The DOI handbook specifies recommended encoding of
/// < %3C, > %3E, { %7B, } %7D, ^ %5E, [ %5B, ] %5D
/// ` %60, | %7C, \ %5C, + %2B
#[test]
fn recommended_encodings() {
    let expected = Identifier::Doi {
        prefix: String::from("10.5555"),
        suffix: String::from(r##"<>{}^[]`|\+"##),
    };

    assert_eq!(
        expected,
        Identifier::parse("https://doi.org/10.5555/%3C%3E%7B%7D%5E%5B%5D%60%7C%5C%2B"),
        "Should parse fully encoded URL."
    );

    assert_eq!(
        expected,
        Identifier::parse(r##"10.5555/<>{}^[]`|\+"##),
        "Should parse unencoded plain DOI containing recommended encoded characters."
    );

    // The "+" is encoded.
    assert_eq!(
        expected,
        Identifier::parse(r##"https://doi.org/10.5555/<>{}^[]`|\%2B"##),
        "Should parse encoded URL with some encoded, some not."
    );

    // Alternating encoded, unencoded.
    assert_eq!(
        expected,
        Identifier::parse(r##"https://doi.org/10.5555/<%3E{%7D^[%5D`%7C\%2B"##,),
        "Should parse encoded URL with some encoded, some not"
    );
}

/// Test the boundaries of the patterns.
#[test]
fn regexes_valid() {
    let examples = vec![
        "10.12345/12345678",
        "10.12345//12345678",
        "10.12345%2f12345678",
        "10.12345%2F12345678",
        "10.1103/physrevlett.103.157203",
        "10.1111/1467%20106478.00146",
        "https://doi.org/10.1002/(sici)1099-050x(199823/24)37:3/4%3C197::aid-hrm2%3E3.0.co;2-%23{",
        "https://doi.org/10.1002/(sici)1099-050x(199823/24)37:3/4%3C197::aid-hrm2%3E3.0.co;2-%23%7C",
        "https://doi.org/10.1675/1524-4695(2003)026[0119:iosoga]2.0.co;2",
    ];

    for example in examples {
        let parsed = Identifier::parse(example);
        match parsed {
            Identifier::Doi {
                prefix: _,
                suffix: _,
            } => {}
            _ => assert!(false, "Should parse as a DOI"),
        }
    }
}

/// Some URLs on the doi.org domain aren't DOIs.
#[test]
fn non_dois() {
    let url1 = "https://www.doi.org/the-identifier/what-is-a-doi/";
    assert_eq!(
        Identifier::Uri(String::from(url1)),
        Identifier::parse(url1),
        "URL on doi.org should not be parsed as DOI if it doesn't have the syntax."
    );

    let url2 = "https://www.doi.org/the-identifier/what-is-a-doi/";
    assert_eq!(
        Identifier::Uri(String::from(url2)),
        Identifier::parse(url2),
        "https://www.doi.org/images/logos/header_logo_cropped.svg"
    )
}

/// Some landing pages contain DOI strings, but should not be considered to
/// be DOIs.
#[test]
fn landing_page() {
    let plos = "https://journals.plos.org/plosone/article?id=10.1371/journal.pone.0190046";
    assert_eq!(
        Identifier::Uri(String::from(plos)),
        Identifier::parse(plos),
        "Landing page is not a DOI."
    );

    let wiley = "https://onlinelibrary.wiley.com/doi/10.1111/j.1751-0813.2010.00564.x";
    assert_eq!(
        Identifier::Uri(String::from(wiley)),
        Identifier::parse(wiley),
        "Landing page is not a DOI."
    );
}

/// Test the boundaries of the patterns for negative cases.
#[test]
fn regexes_invalid() {
    let examples = vec![
        "https://doi.org/1012345/12345678",
        "1012345/12345678",
        "10.12345%212345678",
        "10 12345/12345678",
        "10/12345/12345678",
        "101067",
        "10-092322",
        " 10.12345/12345678",
        "/10.12345/12345678",
        "-10.12345/12345678",
        "110.12345/12345678",
        "a10.12345/12345678",
    ];

    for example in examples {
        let parsed = Identifier::parse(example);
        if let Identifier::Doi {
            prefix: _,
            suffix: _,
        } = parsed
        {
            assert!(false, "Should not parse {} as a DOI", &example)
        }
    }
}

#[test]
fn doi_parse_simple() {
    assert_eq!(
        "https://doi.org/10.5555/12345678",
        Identifier::parse("10.5555/12345678").to_uri().unwrap()
    );
}

/// The full test for parsing encoded URLs in prior test cases.
/// Test that a URL in the recommended format round-trips to be identical.
#[test]
fn normalise_url() {
    // Correctly encoded URL.
    let correct = "https://doi.org/10.5555/%3C%3E%7B%7D%5E%5B%5D%60%7C%5C%2B";

    assert_eq!(correct, Identifier::parse(correct).to_uri().unwrap());
}
