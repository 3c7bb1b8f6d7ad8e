use std::collections::HashSet;
use uuid_parse::errors::{Error, ExpectedLength, ParseError, UrnPrefix};
use uuid_parse::parser::HEX_CHARSET;

#[test]
fn wraps_into_umbrella_error() {
    let pe = ParseError::InvalidLength { expected: ExpectedLength::Exact(36), found: 10 };
    let e: Error = Error::from(pe);
    assert_eq!(e, Error::Parse(pe));
    let via_into: Error = pe.into();
    assert_eq!(via_into, Error::Parse(pe));
}

#[test]
fn errors_compare_and_hash() {
    let a = ParseError::InvalidCharacter {
        expected: HEX_CHARSET,
        found: 'g',
        index: 3,
        urn: UrnPrefix::Forbidden,
    };
    let b = ParseError::InvalidCharacter {
        expected: HEX_CHARSET,
        found: 'g',
        index: 3,
        urn: UrnPrefix::Forbidden,
    };
    let c = ParseError::InvalidLength { expected: ExpectedLength::Exact(36), found: 10 };
    assert_eq!(a, b);
    assert_ne!(a, c);
    assert!(a < c);
    let mut seen: HashSet<ParseError> = HashSet::new();
    seen.insert(a);
    seen.insert(b);
    seen.insert(c);
    assert_eq!(seen.len(), 2);
}

#[test]
fn expected_lengths_compare() {
    assert_eq!(ExpectedLength::Exact(36), ExpectedLength::Exact(36));
    assert_ne!(ExpectedLength::Exact(36), ExpectedLength::Exact(32));
    assert_eq!(ExpectedLength::Any(&[36, 32]), ExpectedLength::Any(&[36, 32]));
    assert_eq!(
        ExpectedLength::Range { min: 32, max: 36 },
        ExpectedLength::Range { min: 32, max: 36 },
    );
    assert!(UrnPrefix::Forbidden < UrnPrefix::Optional);
    assert!(UrnPrefix::Optional < UrnPrefix::Required);
}
