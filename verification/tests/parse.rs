use uuid_parse::errors::{ExpectedLength, ParseError, UrnPrefix};
use uuid_parse::parser::{format_hyphenated, len_matches_any, len_matches_range, parse, HEX_CHARSET};

const SAMPLE: &str = "550e8400-e29b-41d4-a716-446655440000";

fn sample_bytes() -> Vec<u8> {
    vec![
        0x55, 0x0e, 0x84, 0x00, 0xe2, 0x9b, 0x41, 0xd4, 0xa7, 0x16, 0x44, 0x66, 0x55, 0x44, 0x00,
        0x00,
    ]
}

#[test]
fn parses_canonical_example() {
    assert_eq!(parse(SAMPLE, UrnPrefix::Forbidden).unwrap(), sample_bytes());
    assert_eq!(parse(SAMPLE, UrnPrefix::Optional).unwrap(), sample_bytes());
}

#[test]
fn parses_simple_form() {
    let simple = "550e8400e29b41d4a716446655440000";
    assert_eq!(parse(simple, UrnPrefix::Forbidden).unwrap(), sample_bytes());
    assert_eq!(parse(simple, UrnPrefix::Optional).unwrap(), sample_bytes());
}

#[test]
fn parses_mixed_case() {
    let mixed = "550E8400-E29B-41d4-A716-446655440000";
    assert_eq!(parse(mixed, UrnPrefix::Forbidden).unwrap(), sample_bytes());
}

#[test]
fn round_trip_canonical() {
    let bytes = parse(SAMPLE, UrnPrefix::Forbidden).unwrap();
    let text = format_hyphenated(&bytes);
    assert_eq!(text, SAMPLE);
    let again = parse(&text, UrnPrefix::Forbidden).unwrap();
    assert_eq!(again, bytes);
}

#[test]
fn round_trip_uppercase_input() {
    let bytes = parse("FFFFFFFF-FFFF-FFFF-FFFF-FFFFFFFFFFFF", UrnPrefix::Forbidden).unwrap();
    assert_eq!(bytes, vec![0xff; 16]);
    let text = format_hyphenated(&bytes);
    assert_eq!(text, "ffffffff-ffff-ffff-ffff-ffffffffffff");
    assert_eq!(parse(&text, UrnPrefix::Forbidden).unwrap(), bytes);
}

#[test]
fn rejects_non_hex_in_group() {
    let input = "550e8400-e29b-41d4-a716-44665544000z";
    assert_eq!(
        parse(input, UrnPrefix::Forbidden),
        Err(ParseError::InvalidCharacter {
            expected: HEX_CHARSET,
            found: 'z',
            index: 35,
            urn: UrnPrefix::Forbidden,
        })
    );
    let early = "55!e8400-e29b-41d4-a716-446655440000";
    assert_eq!(
        parse(early, UrnPrefix::Forbidden),
        Err(ParseError::InvalidCharacter {
            expected: HEX_CHARSET,
            found: '!',
            index: 2,
            urn: UrnPrefix::Forbidden,
        })
    );
}

#[test]
fn rejects_non_ascii() {
    let input = "550e8400-e29b-41d4-a716-44665544000\u{fc}";
    assert_eq!(
        parse(input, UrnPrefix::Forbidden),
        Err(ParseError::InvalidCharacter {
            expected: HEX_CHARSET,
            found: '\u{fc}',
            index: 35,
            urn: UrnPrefix::Forbidden,
        })
    );
}

#[test]
fn rejects_early_hyphen() {
    let input = "550e840-0e29b-41d4-a716-446655440000";
    assert_eq!(
        parse(input, UrnPrefix::Forbidden),
        Err(ParseError::InvalidCharacter {
            expected: HEX_CHARSET,
            found: '-',
            index: 7,
            urn: UrnPrefix::Forbidden,
        })
    );
}

#[test]
fn rejects_leading_hyphen() {
    let input = "-550e8400-e29b-41d4-a716-446655440000";
    assert_eq!(
        parse(input, UrnPrefix::Forbidden),
        Err(ParseError::InvalidCharacter {
            expected: HEX_CHARSET,
            found: '-',
            index: 0,
            urn: UrnPrefix::Forbidden,
        })
    );
}

#[test]
fn rejects_long_group() {
    let input = "550e8400-e29b-41d4-a7165-446655440000";
    assert_eq!(
        parse(input, UrnPrefix::Forbidden),
        Err(ParseError::InvalidGroupLength {
            expected: ExpectedLength::Exact(4),
            found: 5,
            group: 3,
        })
    );
}

#[test]
fn rejects_one_digit_short() {
    let input = "550e8400-e29b-41d4-a716-44665544000";
    assert_eq!(
        parse(input, UrnPrefix::Forbidden),
        Err(ParseError::InvalidGroupLength {
            expected: ExpectedLength::Exact(12),
            found: 11,
            group: 4,
        })
    );
}

#[test]
fn rejects_wrong_length() {
    assert_eq!(
        parse("0123456789", UrnPrefix::Forbidden),
        Err(ParseError::InvalidLength {
            expected: ExpectedLength::Any(&[36, 32]),
            found: 10,
        })
    );
}

#[test]
fn rejects_empty_input() {
    assert_eq!(
        parse("", UrnPrefix::Forbidden),
        Err(ParseError::InvalidLength {
            expected: ExpectedLength::Any(&[36, 32]),
            found: 0,
        })
    );
    assert_eq!(
        parse("", UrnPrefix::Required),
        Err(ParseError::InvalidLength {
            expected: ExpectedLength::Any(&[45, 41]),
            found: 0,
        })
    );
}

#[test]
fn rejects_extra_group() {
    let input = "550e8400-e29b-41d4-a716-446655440000-00";
    assert_eq!(
        parse(input, UrnPrefix::Forbidden),
        Err(ParseError::InvalidGroupCount {
            expected: ExpectedLength::Any(&[1, 5]),
            found: 6,
        })
    );
}

#[test]
fn required_prefix_missing() {
    let err = parse(SAMPLE, UrnPrefix::Required).unwrap_err();
    assert_eq!(
        err,
        ParseError::InvalidCharacter {
            expected: HEX_CHARSET,
            found: '5',
            index: 0,
            urn: UrnPrefix::Required,
        }
    );
    assert!(err.render().contains(" a prefix of `urn:uuid` followed by"));
    assert_eq!(parse(SAMPLE, UrnPrefix::Optional).unwrap(), sample_bytes());
}

#[test]
fn parses_urn_prefixed() {
    let urn = "urn:uuid:550e8400-e29b-41d4-a716-446655440000";
    assert_eq!(parse(urn, UrnPrefix::Required).unwrap(), sample_bytes());
    assert_eq!(parse(urn, UrnPrefix::Optional).unwrap(), sample_bytes());
    assert_eq!(
        parse(urn, UrnPrefix::Forbidden),
        Err(ParseError::InvalidCharacter {
            expected: HEX_CHARSET,
            found: 'u',
            index: 0,
            urn: UrnPrefix::Forbidden,
        })
    );
}

#[test]
fn urn_body_error_indexes_count_the_prefix() {
    let urn = "urn:uuid:550e8400-e29b-41d4-a716-44665544000z";
    assert_eq!(
        parse(urn, UrnPrefix::Required),
        Err(ParseError::InvalidCharacter {
            expected: HEX_CHARSET,
            found: 'z',
            index: 44,
            urn: UrnPrefix::Required,
        })
    );
}

#[test]
fn rejects_partial_prefix() {
    assert_eq!(
        parse("urn:uu", UrnPrefix::Optional),
        Err(ParseError::InvalidLength {
            expected: ExpectedLength::Any(&[45, 41]),
            found: 6,
        })
    );
    assert_eq!(
        parse("urn:xuid:550e8400-e29b-41d4-a716-446655440000", UrnPrefix::Optional),
        Err(ParseError::InvalidCharacter {
            expected: HEX_CHARSET,
            found: 'x',
            index: 4,
            urn: UrnPrefix::Optional,
        })
    );
    assert_eq!(
        parse("urn:", UrnPrefix::Required),
        Err(ParseError::InvalidLength {
            expected: ExpectedLength::Any(&[45, 41]),
            found: 4,
        })
    );
}

#[test]
fn length_helpers() {
    assert!(len_matches_any(36, &[36, 32]));
    assert!(len_matches_any(32, &[36, 32]));
    assert!(!len_matches_any(10, &[36, 32]));
    assert!(!len_matches_any(10, &[]));
    assert!(len_matches_range(32, 32, 36));
    assert!(len_matches_range(36, 32, 36));
    assert!(len_matches_range(34, 32, 36));
    assert!(!len_matches_range(31, 32, 36));
    assert!(!len_matches_range(37, 32, 36));
}
