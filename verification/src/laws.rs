//! General laws of the parser, stated and proved once for all inputs.
//!
//! The central facts: every string in canonical hyphenated layout parses to
//! the value its digits denote; writing 16 bytes canonically and parsing the
//! text back returns those bytes; and in a string whose leading part follows
//! the canonical layout, the first character that is neither a hex digit nor
//! a well-placed hyphen is blamed as an invalid character at its own index.

use vstd::prelude::*;
use crate::errors::{ParseError, UrnPrefix};
use crate::parser::{
    hex_digit_value, is_hex_digit, prefix_match_len_from, scan_body, spec_bytes_of,
    spec_format_hyphenated, spec_group_len, spec_hex_char_lower, spec_nibble, spec_parse,
    spec_parse_body, spec_sep_index, spec_seps_before, HEX_CHARSET,
};

verus! {

/// What a canonical hyphenated body requires of position `j`: a hyphen at
/// the four separator positions, a hex digit everywhere else.
pub open spec fn canonical_char_ok(s: Seq<char>, j: int) -> bool {
    if spec_sep_index(j) {
        s[j] == '-'
    } else {
        is_hex_digit(s[j])
    }
}

/// Whether `s` is a canonical hyphenated UUID body: 36 characters, hyphens
/// exactly at the fixed separator positions, hex digits elsewhere.
pub open spec fn is_canonical_hyphenated(s: Seq<char>) -> bool {
    s.len() == 36 && forall|j: int| 0 <= j < 36 ==> canonical_char_ok(s, j)
}

/// The position in a canonical body that holds its `k`-th hex digit.
pub open spec fn digit_pos(k: int) -> int {
    if k < 8 {
        k
    } else if k < 12 {
        k + 1
    } else if k < 16 {
        k + 2
    } else if k < 20 {
        k + 3
    } else {
        k + 4
    }
}

/// The 32 hex digit characters of a canonical body, in order.
pub open spec fn canonical_digits(s: Seq<char>) -> Seq<char> {
    Seq::new(32, |k: int| s[digit_pos(k)])
}

/// The 16 bytes a canonical body denotes.
pub open spec fn canonical_value(s: Seq<char>) -> Seq<u8> {
    spec_bytes_of(canonical_digits(s))
}

/// The scan's group index once `i` characters of a canonical body have been
/// consumed.
pub open spec fn state_group(i: int) -> int {
    if i < 9 {
        0
    } else if i < 14 {
        1
    } else if i < 19 {
        2
    } else if i < 24 {
        3
    } else {
        4
    }
}

/// The position where the scan's current group began.
pub open spec fn group_start(g: int) -> int {
    if g <= 0 {
        0
    } else if g == 1 {
        9
    } else if g == 2 {
        14
    } else if g == 3 {
        19
    } else {
        24
    }
}

/// The scan's digit count within its current group at position `i`.
pub open spec fn state_count(i: int) -> int {
    i - group_start(state_group(i))
}

/// The digits the scan has consumed once it reaches position `i` of a body
/// whose first `i` characters are canonical.
pub open spec fn state_digits(s: Seq<char>, i: int) -> Seq<char> {
    Seq::new((i - state_group(i)) as nat, |k: int| s[digit_pos(k)])
}

/// Walking the scan over a canonically laid out leading part leaves it in
/// the state the layout dictates.
proof fn lemma_scan_canonical_prefix(s: Seq<char>, off: int, urn: UrnPrefix, i: int)
    requires
        0 <= i <= 36,
        i <= s.len(),
        forall|j: int| 0 <= j < i ==> canonical_char_ok(s, j),
    ensures
        scan_body(s, off, urn, 0, 0, 0, Seq::empty()) == scan_body(
            s,
            off,
            urn,
            i,
            state_group(i),
            state_count(i),
            state_digits(s, i),
        ),
    decreases i,
{
    if i == 0 {
        assert(state_digits(s, 0) =~= Seq::<char>::empty());
    } else {
        lemma_scan_canonical_prefix(s, off, urn, i - 1);
        assert(canonical_char_ok(s, i - 1));
        if spec_sep_index(i - 1) {
            assert(s[i - 1] == '-');
            assert(state_count(i - 1) == spec_group_len(state_group(i - 1)));
            assert(state_digits(s, i) =~= state_digits(s, i - 1));
        } else {
            assert(is_hex_digit(s[i - 1]));
            assert(s[i - 1] != '-');
            assert(state_digits(s, i) =~= state_digits(s, i - 1).push(s[i - 1]));
        }
    }
}

/// Every canonical hyphenated UUID string parses, with or without a
/// permitted-but-absent `urn:uuid:` prefix, to the value its digits denote.
pub proof fn lemma_canonical_parses(s: Seq<char>)
    requires
        is_canonical_hyphenated(s),
    ensures
        spec_parse(s, UrnPrefix::Forbidden) == Ok::<Seq<u8>, ParseError>(canonical_value(s)),
        spec_parse(s, UrnPrefix::Optional) == Ok::<Seq<u8>, ParseError>(canonical_value(s)),
{
    lemma_scan_canonical_prefix(s, 0, UrnPrefix::Forbidden, 36);
    assert(state_digits(s, 36) =~= canonical_digits(s));
    assert(spec_parse_body(s, 0, UrnPrefix::Forbidden) == Ok::<Seq<u8>, ParseError>(
        canonical_value(s),
    ));
    lemma_scan_canonical_prefix(s, 0, UrnPrefix::Optional, 36);
    assert(canonical_char_ok(s, 0));
    assert('u' as u32 == 117);
    assert(s[0] != 'u');
    assert(prefix_match_len_from(s, 0) == 0);
}

/// Round trip: writing any 16 bytes in canonical lowercase hyphenated form
/// and parsing the text back returns exactly those bytes.
pub proof fn lemma_round_trip(b: Seq<u8>)
    requires
        b.len() == 16,
    ensures
        spec_parse(spec_format_hyphenated(b), UrnPrefix::Forbidden) == Ok::<Seq<u8>, ParseError>(b),
        spec_parse(spec_format_hyphenated(b), UrnPrefix::Optional) == Ok::<Seq<u8>, ParseError>(b),
{
    let s = spec_format_hyphenated(b);
    assert forall|j: int| 0 <= j < 36 implies canonical_char_ok(s, j) by {
        if !spec_sep_index(j) {
            let d = j - spec_seps_before(j);
            assert(0 <= spec_nibble(b, d) < 16);
            assert(is_hex_digit(spec_hex_char_lower(spec_nibble(b, d))));
        }
    }
    lemma_canonical_parses(s);
    assert forall|k: int| 0 <= k < 16 implies canonical_value(s)[k] == b[k] by {
        let dh = 2 * k;
        let dl = 2 * k + 1;
        let ph = digit_pos(dh);
        let pl = digit_pos(dl);
        assert(!spec_sep_index(ph) && ph - spec_seps_before(ph) == dh);
        assert(!spec_sep_index(pl) && pl - spec_seps_before(pl) == dl);
        assert(hex_digit_value(spec_hex_char_lower(spec_nibble(b, dh))) == spec_nibble(b, dh));
        assert(hex_digit_value(spec_hex_char_lower(spec_nibble(b, dl))) == spec_nibble(b, dl));
        assert(canonical_value(s)[k] == (spec_nibble(b, dh) * 16 + spec_nibble(b, dl)) as u8);
        assert((b[k] as int / 16) * 16 + b[k] as int % 16 == b[k] as int);
    }
    assert(canonical_value(s) =~= b);
}

/// Whether `s` is a simple UUID body: 32 hex digits and nothing else.
pub open spec fn is_simple(s: Seq<char>) -> bool {
    s.len() == 32 && forall|j: int| 0 <= j < 32 ==> is_hex_digit(#[trigger] s[j])
}

/// Walking the scan over hex digits alone keeps it in group 0 with every
/// character consumed as a digit.
proof fn lemma_scan_simple_prefix(s: Seq<char>, off: int, urn: UrnPrefix, i: int)
    requires
        0 <= i <= s.len(),
        forall|j: int| 0 <= j < i ==> is_hex_digit(#[trigger] s[j]),
    ensures
        scan_body(s, off, urn, 0, 0, 0, Seq::empty()) == scan_body(
            s,
            off,
            urn,
            i,
            0,
            i,
            s.subrange(0, i),
        ),
    decreases i,
{
    if i == 0 {
        assert(s.subrange(0, 0) =~= Seq::<char>::empty());
    } else {
        lemma_scan_simple_prefix(s, off, urn, i - 1);
        assert(s[i - 1] != '-');
        assert(s.subrange(0, i) =~= s.subrange(0, i - 1).push(s[i - 1]));
    }
}

/// Every simple-form UUID string — 32 contiguous hex digits — parses, with
/// or without a permitted-but-absent `urn:uuid:` prefix, to the value its
/// digits denote.
pub proof fn lemma_simple_parses(s: Seq<char>)
    requires
        is_simple(s),
    ensures
        spec_parse(s, UrnPrefix::Forbidden) == Ok::<Seq<u8>, ParseError>(spec_bytes_of(s)),
        spec_parse(s, UrnPrefix::Optional) == Ok::<Seq<u8>, ParseError>(spec_bytes_of(s)),
{
    lemma_scan_simple_prefix(s, 0, UrnPrefix::Forbidden, 32);
    assert(s.subrange(0, 32) =~= s);
    lemma_scan_simple_prefix(s, 0, UrnPrefix::Optional, 32);
    assert('u' as u32 == 117);
    assert(s[0] != 'u');
    assert(prefix_match_len_from(s, 0) == 0);
}

/// A scan that accepts from state `(i, g, c)` can only do so because the
/// rest of the body completes one of the two accepted shapes.
proof fn lemma_scan_ok_shape(s: Seq<char>, off: int, urn: UrnPrefix, i: int, g: int, c: int, ds: Seq<char>)
    requires
        0 <= i <= s.len(),
        0 <= g <= 4,
        0 <= c,
        i == if g == 0 {
            c
        } else {
            crate::parser::spec_acc_group_len(g - 1) + g + c
        },
        scan_body(s, off, urn, i, g, c, ds) is Ok,
    ensures
        g == 0 ==> ((s.len() == 32 && c <= 32 && forall|j: int|
            i <= j < 32 ==> is_hex_digit(#[trigger] s[j])) || (s.len() == 36 && c <= 8
            && forall|j: int| i <= j < 36 ==> canonical_char_ok(s, j))),
        g >= 1 ==> (s.len() == 36 && c <= spec_group_len(g) && forall|j: int|
            i <= j < 36 ==> canonical_char_ok(s, j)),
    decreases s.len() - i,
{
    if i < s.len() {
        let ch = s[i];
        if ch == '-' {
            lemma_scan_ok_shape(s, off, urn, i + 1, g + 1, 0, ds);
        } else {
            lemma_scan_ok_shape(s, off, urn, i + 1, g, c + 1, ds.push(ch));
        }
    }
}

/// Success, characterized: without a prefix, a string parses if and only if
/// it is a canonical hyphenated body or a simple body, and the value is the
/// one its digits denote.
pub proof fn lemma_parse_ok_iff(s: Seq<char>)
    ensures
        spec_parse(s, UrnPrefix::Forbidden) is Ok <==> (is_canonical_hyphenated(s) || is_simple(s)),
        is_canonical_hyphenated(s) ==> spec_parse(s, UrnPrefix::Forbidden) == Ok::<
            Seq<u8>,
            ParseError,
        >(canonical_value(s)),
        is_simple(s) ==> spec_parse(s, UrnPrefix::Forbidden) == Ok::<Seq<u8>, ParseError>(
            spec_bytes_of(s),
        ),
{
    if spec_parse(s, UrnPrefix::Forbidden) is Ok {
        lemma_scan_ok_shape(s, 0, UrnPrefix::Forbidden, 0, 0, 0, Seq::empty());
    }
    if is_canonical_hyphenated(s) {
        lemma_canonical_parses(s);
    } else if is_simple(s) {
        lemma_simple_parses(s);
    }
}

/// In a string whose characters before `i` follow the canonical hyphenated
/// layout, a character at `i` that neither fits that layout nor is a hex
/// digit makes the parse fail with `InvalidCharacter` at exactly `i` — no
/// other variant, position or character is ever blamed.
pub proof fn lemma_first_invalid_character(s: Seq<char>, i: int)
    requires
        0 <= i < s.len(),
        i < 36,
        forall|j: int| 0 <= j < i ==> canonical_char_ok(s, j),
        !canonical_char_ok(s, i),
        !is_hex_digit(s[i]),
    ensures
        spec_parse(s, UrnPrefix::Forbidden) == Err::<Seq<u8>, ParseError>(
            ParseError::InvalidCharacter {
                expected: HEX_CHARSET,
                found: s[i],
                index: i as usize,
                urn: UrnPrefix::Forbidden,
            },
        ),
{
    lemma_scan_canonical_prefix(s, 0, UrnPrefix::Forbidden, i);
    if s[i] == '-' {
        assert(!spec_sep_index(i));
        assert(state_count(i) < spec_group_len(state_group(i)));
    }
}

} // verus!

