use scholarly_identifiers::identifiers::Identifier;

/// Correct 10-digit ISBNs are converted to 13-digit ones, with the correct
/// check digit.
#[test]
fn simple_10() {
    let examples = [("0306406152", "9780306406157")];

    for example in examples.iter() {
        let result = Identifier::parse(example.0);
        assert_eq!(result, Identifier::Isbn(String::from(example.1)));
    }
}

/// Correct 13-digit ISBNs are kept as-is.
#[test]
fn simple_13() {
    let examples = [
        "9780306406157",
        "9781566199094",
        "9780123456472",
        "9781413304541",
    ];

    for example in examples.iter() {
        let result = Identifier::parse(example);

        assert_eq!(result, Identifier::Isbn(String::from(*example)));
    }
}

#[test]
fn hyphens_10() {
    let examples = [
        "0306406152",
        "0-306406152",
        "03-06406152",
        "030-6406152",
        "0306-406152",
        "0-3064-06152",
        "03-0640-6152",
        "030-6406-152",
        "0306-4061-52",
        "03064-0615-2",
    ];

    for example in examples.iter() {
        let result = Identifier::parse(example);
        assert_eq!(result, Identifier::Isbn(String::from("9780306406157")));
    }
}

#[test]
fn hyphens_13() {
    let examples = [
        "9-780306406157",
        "97-80306406157",
        "978-0306406157",
        "9780-306406157",
        "97803-06406157",
        "97-8030-6406157",
        "978-0306-406157",
        "9780-3064-06157",
        "97803-0640-6157",
    ];

    for example in examples.iter() {
        let result = Identifier::parse(example);

        assert_eq!(result, Identifier::Isbn(String::from("9780306406157")));
    }
}

/// Bad checksums are not recognised as 10-digit ISBNs.
#[test]
fn bad_10() {
    let examples = ["0306406150"];

    for example in examples.iter() {
        let result = Identifier::parse(example);
        assert_eq!(result, Identifier::Uri(String::from(*example)));
    }
}

/// Bad checksums are not recognised for 13-digit ISBNs.
#[test]
fn bad_13() {
    let examples = [
        "9780306406157",
        "9781566199094",
        "9780123456472",
        "9781413304541",
    ];

    for example in examples.iter() {
        let result = Identifier::parse(example);

        assert_eq!(result, Identifier::Isbn(String::from(*example)));
    }
}
