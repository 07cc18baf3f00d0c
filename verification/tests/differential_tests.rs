use regex::Regex;
use scholarly_identifiers::identifiers::Identifier;

/// A reference DOI recogniser built directly from regular expressions and
/// the `percent-encoding` crate, mirroring the documented recognition rules:
/// lower-case the input, accept the strict raw shape as literal text, and
/// otherwise strip scheme and resolver prefixes and percent-decode.
/// The corpus is ASCII, where case folding is unambiguous.
fn reference_doi(input: &str) -> Option<(String, String)> {
    let scheme = Regex::new(r"^(https://|http://|doi:|urn:doi:|info:doi:)").unwrap();
    let host = Regex::new(r"^(dx\.doi\.org/|doi\.org/)").unwrap();
    let loose = Regex::new(r"^10\.[0-9]+(/|%2f).*").unwrap();
    let strict = Regex::new(r"^(10\.[0-9]+)/(.+)$").unwrap();

    let lowercase = input.to_ascii_lowercase();

    let construct = |text: &str| {
        strict.captures(text).map(|groups| {
            (
                groups.get(1).unwrap().as_str().to_string(),
                groups.get(2).unwrap().as_str().to_ascii_lowercase(),
            )
        })
    };

    if strict.is_match(&lowercase) {
        construct(&lowercase)
    } else {
        let no_scheme = scheme.replace(&lowercase, "").into_owned();
        let no_host = host.replace(&no_scheme, "").into_owned();
        let less_prefixes = scheme.replace(&no_host, "").into_owned();
        if loose.is_match(&less_prefixes) {
            match percent_encoding::percent_decode(less_prefixes.as_bytes()).decode_utf8() {
                Ok(decoded) => construct(&decoded),
                Err(_) => None,
            }
        } else {
            None
        }
    }
}

/// The library's DOI recognition agrees with the reference recogniser on a
/// corpus of accepted and declined inputs.
#[test]
fn doi_recognition_matches_reference() {
    let corpus = [
        "10.5555/12345678",
        "10.5555/12345678#anchor",
        "doi:10.5555/12345678",
        "urn:doi:10.1/x",
        "info:doi:10.1/x",
        "https://doi.org/10.5555/12345678",
        "http://dx.doi.org/10.5555/12345678",
        "doi.org/10.5555/12345678",
        "dx.doi.org/10.22/a(b)c",
        "10.12345//12345678",
        "10.12345%2f12345678",
        "10.12345%2F12345678",
        "10.1111/1467%20106478.00146",
        "https://doi.org/10.5555/%25%22%23%20%3F",
        "https://doi.org/10.5555/a%zzb",
        "https://doi.org/10.5555/100%",
        "https://doi.org/10.5555/%ff%fe",
        "https://doi.org/1012345/12345678",
        "1012345/12345678",
        "10 12345/12345678",
        "10/12345/12345678",
        "101067",
        "10-092322",
        " 10.12345/12345678",
        "110.12345/12345678",
        "a10.12345/12345678",
        "10.5555/ABCDEFG",
        "HTTPS://DOI.ORG/10.5555/MIXED",
        "10.",
        "10.5555/",
        "10.5555",
        "",
    ];
    for input in corpus.iter() {
        let expected = reference_doi(input);
        let parsed = Identifier::parse(input);
        match (expected, parsed) {
            (Some((prefix, suffix)), Identifier::Doi { prefix: p, suffix: s }) => {
                assert_eq!(prefix, p, "prefix for {:?}", input);
                assert_eq!(suffix, s, "suffix for {:?}", input);
            }
            (None, parsed) => {
                assert!(
                    !matches!(parsed, Identifier::Doi { .. }),
                    "should not be a DOI: {:?}",
                    input
                );
            }
            (Some(expected), parsed) => {
                panic!(
                    "expected DOI {:?} for {:?}, got {:?}",
                    expected, input, parsed
                );
            }
        }
    }
}
