use scholarly_identifiers::identifiers::Identifier;

// End-to-end round trips for each type.
#[test]
fn stable() {
    let inputs = vec![
        // DOI
        "doi.org/10.5555/12345678",
        "https://doi.org/10.5555/12345678",
        "10.5555/12345678",
        "10.5555/1234eÂ®ðŸ„®â„¢5678",
        // ISBN
        "0306406152",
        // ORCID
        "https://orcid.org/0000-0002-1694-233X",
        // ROR
        "https://ror.org/02twcfp32",
        // URI
        "https://example.com",
        // String
        "hello",
    ];

    for input in inputs.iter() {
        let parsed = Identifier::parse(input);

        let as_string = parsed.to_stable_string();

        // Not all types produce a URI.
        let as_uri = parsed.to_uri();

        let (id_value, id_type) = parsed.to_id_string_pair();

        let as_string_parsed = Identifier::parse(&as_string);
        assert_eq!(
            as_string_parsed, parsed,
            "Expected string type to round-trip identical"
        );

        // Those types that do parse to URIs should round-trip.
        if let Some(uri) = as_uri {
            let as_uri_parsed = Identifier::parse(&uri);

            assert_eq!(
                as_uri_parsed, parsed,
                "Expected URI type to round-trip identical"
            );
        }

        let as_pair_parsed = Identifier::from_id_string_pair(&id_value, id_type)
            .expect("Expected as_pair to return a result");
        assert_eq!(
            as_pair_parsed, parsed,
            "Expected pair to round-trip identical"
        );
    }
}
