use uuid_parse::errors::{ExpectedLength, ParseError, UrnPrefix};
use uuid_parse::parser::HEX_CHARSET;

#[test]
fn renders_expected_lengths() {
    assert_eq!(ExpectedLength::Range { min: 32, max: 36 }.render(), "32..36 inclusive");
    assert_eq!(ExpectedLength::Exact(36).render(), "36");
    assert_eq!(ExpectedLength::Any(&[32, 36]).render(), "one of [32, 36]");
    assert_eq!(ExpectedLength::Any(&[36]).render(), "one of [36]");
    assert_eq!(ExpectedLength::Any(&[]).render(), "one of []");
    assert_eq!(ExpectedLength::Exact(0).render(), "0");
    assert_eq!(ExpectedLength::Exact(105).render(), "105");
}

#[test]
fn describes_each_variant() {
    let c = ParseError::InvalidCharacter {
        expected: HEX_CHARSET,
        found: 'g',
        index: 3,
        urn: UrnPrefix::Forbidden,
    };
    let gc = ParseError::InvalidGroupCount { expected: ExpectedLength::Any(&[1, 5]), found: 6 };
    let gl = ParseError::InvalidGroupLength { expected: ExpectedLength::Exact(4), found: 5, group: 3 };
    let l = ParseError::InvalidLength { expected: ExpectedLength::Any(&[36, 32]), found: 10 };
    assert_eq!(c._description(), "invalid character");
    assert_eq!(gc._description(), "invalid number of groups");
    assert_eq!(gl._description(), "invalid group length");
    assert_eq!(l._description(), "invalid length");
}

#[test]
fn renders_invalid_character_message() {
    let e = ParseError::InvalidCharacter {
        expected: HEX_CHARSET,
        found: '-',
        index: 7,
        urn: UrnPrefix::Forbidden,
    };
    assert_eq!(
        e.render(),
        "invalid character: expected 0123456789abcdefABCDEF-, found - at 7"
    );
}

#[test]
fn renders_urn_clauses() {
    let required = ParseError::InvalidCharacter {
        expected: HEX_CHARSET,
        found: '5',
        index: 0,
        urn: UrnPrefix::Required,
    };
    assert_eq!(
        required.render(),
        "invalid character: expected a prefix of `urn:uuid` followed by \
         0123456789abcdefABCDEF-, found 5 at 0"
    );
    let optional = ParseError::InvalidCharacter {
        expected: HEX_CHARSET,
        found: 'x',
        index: 4,
        urn: UrnPrefix::Optional,
    };
    assert_eq!(
        optional.render(),
        "invalid character: expected an optional prefix of `urn:uuid:` followed by \
         0123456789abcdefABCDEF-, found x at 4"
    );
}

#[test]
fn renders_group_count_message() {
    let e = ParseError::InvalidGroupCount { expected: ExpectedLength::Any(&[1, 5]), found: 6 };
    assert_eq!(e.render(), "invalid number of groups: expected one of [1, 5], found 6");
}

#[test]
fn renders_group_length_message() {
    let e = ParseError::InvalidGroupLength {
        expected: ExpectedLength::Exact(4),
        found: 5,
        group: 3,
    };
    assert_eq!(e.render(), "invalid group length: expected 4, found 5 in group 3");
}

#[test]
fn renders_length_message() {
    let e = ParseError::InvalidLength { expected: ExpectedLength::Any(&[36, 32]), found: 10 };
    assert_eq!(e.render(), "invalid length: expected one of [36, 32], found 10");
    let r = ParseError::InvalidLength {
        expected: ExpectedLength::Range { min: 32, max: 36 },
        found: 31,
    };
    assert_eq!(e._description(), "invalid length");
    assert_eq!(r.render(), "invalid length: expected 32..36 inclusive, found 31");
}
