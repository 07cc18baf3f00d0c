use scholarly_identifiers::identifiers::Identifier;

#[test]
fn simple() {
    assert_eq!(
        Identifier::Ror(String::from("02mhbdp94")),
        Identifier::parse("https://ror.org/02mhbdp94"),
        "Simple ROR URI accepted"
    );

    assert_eq!(
        Identifier::Ror(String::from("02twcfp32")),
        Identifier::parse("https://ror.org/02twcfp32"),
        "Simple ROR URI accepted"
    );
}

#[test]
fn uri() {
    assert_eq!(
        Some(String::from("https://ror.org/02mhbdp94")),
        Identifier::parse("https://ror.org/02mhbdp94").to_uri(),
        "ROR URI parse and converts end-to-end"
    );
}

#[test]
fn case_sensitive() {
    // 1-character upcase from previous examples.
    assert_eq!(
        Identifier::Uri(String::from("https://ror.org/02Mhbdp94")),
        Identifier::parse("https://ror.org/02Mhbdp94"),
        "ROR not recognised with upper-case."
    );

    assert_eq!(
        Identifier::Uri(String::from("https://ror.org/02twcfP32")),
        Identifier::parse("https://ror.org/02twcfP32"),
        "Simple ROR URI accepted"
    );
}

#[test]
fn checksum() {
    // Good example 1.
    assert_eq!(
        Identifier::Ror(String::from("02mhbdp94")),
        Identifier::parse("https://ror.org/02mhbdp94"),
    );

    // Digit changed in the identifier.
    assert_eq!(
        Identifier::Uri(String::from("https://ror.org/03mhbdp94")),
        Identifier::parse("https://ror.org/03mhbdp94"),
    );

    // Checksum changed.
    assert_eq!(
        Identifier::Uri(String::from("https://ror.org/02mhbdp99")),
        Identifier::parse("https://ror.org/02mhbdp99"),
    );

    // Good example 2.
    assert_eq!(
        Identifier::Ror(String::from("02twcfp32")),
        Identifier::parse("https://ror.org/02twcfp32"),
        "Simple ROR URI accepted"
    );

    // Digit changed in identifier.
    assert_eq!(
        Identifier::Uri(String::from("https://ror.org/02tw3fp32")),
        Identifier::parse("https://ror.org/02tw3fp32"),
        "Simple ROR URI accepted"
    );

    // Checksum changed.
    assert_eq!(
        Identifier::Uri(String::from("https://ror.org/02twcfp39")),
        Identifier::parse("https://ror.org/02twcfp39"),
        "Simple ROR URI accepted"
    );
}
