//! The parser: recognition and decoding of UUID textual forms.
//!
//! A candidate string is validated in a single left-to-right scan against the
//! accepted grammars: the canonical hyphenated form (five groups of
//! `8-4-4-4-12` hex digits), the simple form (32 contiguous hex digits), and
//! either of those behind a `urn:uuid:` prefix when the caller's
//! [`UrnPrefix`] policy allows one. The scan is fail-fast: the earliest
//! disqualifying position decides the one [`ParseError`] returned, and
//! nothing after it is blamed. [`spec_parse`] is the mathematical model of
//! the whole procedure; [`parse`] is proved to agree with it on every input.

use vstd::prelude::*;
use vstd::string::StrSliceExecFns;
use crate::errors::{ExpectedLength, ParseError, UrnPrefix};

verus! {

/// The set of characters accepted inside a UUID body: hex digits and the
/// group separator.
pub const HEX_CHARSET: &'static str = "0123456789abcdefABCDEF-";

/// The two total lengths a bare UUID body may have: hyphenated and simple.
pub open spec fn spec_body_lens() -> &'static [usize] {
    &[36, 32]
}

/// Exec twin of [`spec_body_lens`].
pub fn body_lens() -> (r: &'static [usize])
    ensures
        r == spec_body_lens(),
{
    &[36, 32]
}

/// The two group counts a UUID body may have: one (simple) or five
/// (hyphenated).
pub open spec fn spec_group_count_lens() -> &'static [usize] {
    &[1, 5]
}

/// Exec twin of [`spec_group_count_lens`].
pub fn group_count_lens() -> (r: &'static [usize])
    ensures
        r == spec_group_count_lens(),
{
    &[1, 5]
}

/// The two total lengths a `urn:uuid:`-prefixed string may have.
pub open spec fn spec_urn_total_lens() -> &'static [usize] {
    &[45, 41]
}

/// Exec twin of [`spec_urn_total_lens`].
pub fn urn_total_lens() -> (r: &'static [usize])
    ensures
        r == spec_urn_total_lens(),
{
    &[45, 41]
}

/// The number of hex digits in each hyphenated group, by group index.
pub open spec fn spec_group_len(g: int) -> int {
    if g == 0 {
        8
    } else if g <= 3 {
        4
    } else {
        12
    }
}

/// The cumulative number of hex digits once group `g` is complete.
pub open spec fn spec_acc_group_len(g: int) -> int {
    if g <= 0 {
        8
    } else if g == 1 {
        12
    } else if g == 2 {
        16
    } else if g == 3 {
        20
    } else {
        32
    }
}

/// Exec twin of [`spec_group_len`].
pub fn group_len_at(g: usize) -> (r: usize)
    requires
        g <= 4,
    ensures
        r as int == spec_group_len(g as int),
{
    if g == 0 {
        8
    } else if g <= 3 {
        4
    } else {
        12
    }
}

/// Whether `c` is an ASCII hexadecimal digit.
pub open spec fn is_hex_digit(c: char) -> bool {
    (48 <= c as u32 && c as u32 <= 57)  // '0'..='9'
    || (97 <= c as u32 && c as u32 <= 102)  // 'a'..='f'
    || (65 <= c as u32 && c as u32 <= 70)  // 'A'..='F'
}

/// The numeric value of a hex digit (0 for characters that are none).
pub open spec fn hex_digit_value(c: char) -> int {
    if 48 <= c as u32 && c as u32 <= 57 {
        c as u32 - 48
    } else if 97 <= c as u32 && c as u32 <= 102 {
        c as u32 - 97 + 10
    } else if 65 <= c as u32 && c as u32 <= 70 {
        c as u32 - 65 + 10
    } else {
        0
    }
}

/// Exec twin of [`is_hex_digit`].
pub fn is_hex_digit_char(c: char) -> (r: bool)
    ensures
        r == is_hex_digit(c),
{
    let u = c as u32;
    (48 <= u && u <= 57) || (97 <= u && u <= 102) || (65 <= u && u <= 70)
}

/// Decodes one hex digit, case-insensitively.
pub fn hex_value(c: char) -> (v: u8)
    requires
        is_hex_digit(c),
    ensures
        v as int == hex_digit_value(c),
        v < 16,
{
    let u = c as u32;
    if 48 <= u && u <= 57 {
        (u - 48) as u8
    } else if 97 <= u && u <= 102 {
        (u - 97 + 10) as u8
    } else {
        (u - 65 + 10) as u8
    }
}

/// The number of hyphens in `s`.
pub open spec fn count_hyphens(s: Seq<char>) -> int
    decreases s.len(),
{
    if s.len() == 0 {
        0
    } else {
        count_hyphens(s.drop_last()) + if s.last() == '-' {
            1int
        } else {
            0int
        }
    }
}

pub proof fn lemma_count_hyphens_le(s: Seq<char>)
    ensures
        0 <= count_hyphens(s) <= s.len(),
    decreases s.len(),
{
    if s.len() > 0 {
        lemma_count_hyphens_le(s.drop_last());
    }
}

pub proof fn lemma_count_hyphens_push(s: Seq<char>, c: char)
    ensures
        count_hyphens(s.push(c)) == count_hyphens(s) + if c == '-' {
            1int
        } else {
            0int
        },
{
    assert(s.push(c).drop_last() =~= s);
}

pub proof fn lemma_count_hyphens_cat(a: Seq<char>, b: Seq<char>)
    ensures
        count_hyphens(a + b) == count_hyphens(a) + count_hyphens(b),
    decreases b.len(),
{
    if b.len() == 0 {
        assert(a + b =~= a);
    } else {
        lemma_count_hyphens_cat(a, b.drop_last());
        assert((a + b).drop_last() =~= a + b.drop_last());
    }
}

/// The left-to-right scan of a UUID body, the core of the whole parser.
///
/// `s` is the body (any `urn:uuid:` prefix already stripped), `off` the number
/// of characters that preceded it in the original input, `urn` the policy of
/// this attempt (both only stamped into errors). The scan state is the next
/// position `i`, the current group `g`, the digit count `c` of that group,
/// and the hex digits `ds` consumed so far. A body with no hyphen at all
/// stays in group 0 and must run to exactly 32 digits; a hyphen closing a
/// complete group opens the next; a hyphen cutting a group short blames that
/// character; a group that ran past its length is blamed as a group length,
/// with the full length found; a hyphen after the five accepted groups makes
/// the group count wrong.
pub open spec fn scan_body(
    s: Seq<char>,
    off: int,
    urn: UrnPrefix,
    i: int,
    g: int,
    c: int,
    ds: Seq<char>,
) -> Result<Seq<char>, ParseError>
    decreases s.len() - i,
{
    if i >= s.len() {
        if g == 0 {
            if c == 32 {
                Ok(ds)
            } else {
                Err(ParseError::InvalidLength {
                    expected: ExpectedLength::Any(spec_body_lens()),
                    found: s.len() as usize,
                })
            }
        } else if c != spec_group_len(g) {
            Err(ParseError::InvalidGroupLength {
                expected: ExpectedLength::Exact(spec_group_len(g) as usize),
                found: c as usize,
                group: g as usize,
            })
        } else if g == 4 {
            Ok(ds)
        } else {
            Err(ParseError::InvalidGroupCount {
                expected: ExpectedLength::Any(spec_group_count_lens()),
                found: (g + 1) as usize,
            })
        }
    } else {
        let ch = s[i];
        if ch == '-' {
            if g < 4 {
                if c == spec_group_len(g) {
                    scan_body(s, off, urn, i + 1, g + 1, 0, ds)
                } else if c < spec_group_len(g) {
                    Err(ParseError::InvalidCharacter {
                        expected: HEX_CHARSET,
                        found: '-',
                        index: (off + i) as usize,
                        urn,
                    })
                } else {
                    Err(ParseError::InvalidGroupLength {
                        expected: ExpectedLength::Exact(spec_group_len(g) as usize),
                        found: c as usize,
                        group: g as usize,
                    })
                }
            } else {
                if c == 12 {
                    Err(ParseError::InvalidGroupCount {
                        expected: ExpectedLength::Any(spec_group_count_lens()),
                        found: (count_hyphens(s) + 1) as usize,
                    })
                } else if c < 12 {
                    Err(ParseError::InvalidCharacter {
                        expected: HEX_CHARSET,
                        found: '-',
                        index: (off + i) as usize,
                        urn,
                    })
                } else {
                    Err(ParseError::InvalidGroupLength {
                        expected: ExpectedLength::Exact(12),
                        found: c as usize,
                        group: 4,
                    })
                }
            }
        } else if is_hex_digit(ch) {
            scan_body(s, off, urn, i + 1, g, c + 1, ds.push(ch))
        } else {
            Err(ParseError::InvalidCharacter {
                expected: HEX_CHARSET,
                found: ch,
                index: (off + i) as usize,
                urn,
            })
        }
    }
}

/// The 16 bytes denoted by 32 hex digit characters, two digits per byte,
/// most significant first.
pub open spec fn spec_bytes_of(ds: Seq<char>) -> Seq<u8> {
    Seq::new(16, |k: int| (hex_digit_value(ds[2 * k]) * 16 + hex_digit_value(ds[2 * k + 1])) as u8)
}

/// The result of parsing a UUID body that begins `off` characters into the
/// original input.
pub open spec fn spec_parse_body(s: Seq<char>, off: int, urn: UrnPrefix) -> Result<
    Seq<u8>,
    ParseError,
> {
    match scan_body(s, off, urn, 0, 0, 0, Seq::empty()) {
        Ok(ds) => Ok(spec_bytes_of(ds)),
        Err(e) => Err(e),
    }
}

/// The character at position `j` of the literal `urn:uuid:` prefix.
pub open spec fn prefix_char(j: int) -> char {
    if j == 0 {
        'u'
    } else if j == 1 {
        'r'
    } else if j == 2 {
        'n'
    } else if j == 3 {
        ':'
    } else if j == 4 {
        'u'
    } else if j == 5 {
        'u'
    } else if j == 6 {
        'i'
    } else if j == 7 {
        'd'
    } else {
        ':'
    }
}

/// Exec twin of [`prefix_char`].
pub fn prefix_char_at(j: usize) -> (c: char)
    requires
        j <= 8,
    ensures
        c == prefix_char(j as int),
{
    if j == 0 {
        'u'
    } else if j == 1 {
        'r'
    } else if j == 2 {
        'n'
    } else if j == 3 {
        ':'
    } else if j == 4 {
        'u'
    } else if j == 5 {
        'u'
    } else if j == 6 {
        'i'
    } else if j == 7 {
        'd'
    } else {
        ':'
    }
}

/// How many leading characters of `s`, from position `j` on, agree with the
/// `urn:uuid:` prefix before the first disagreement, the end of `s`, or the
/// end of the prefix.
pub open spec fn prefix_match_len_from(s: Seq<char>, j: int) -> int
    decreases 9 - j,
{
    if j < 0 || j >= 9 {
        j
    } else if j >= s.len() || s[j] != prefix_char(j) {
        j
    } else {
        prefix_match_len_from(s, j + 1)
    }
}

/// The length of the longest shared prefix of `s` and `urn:uuid:`.
pub open spec fn prefix_match_len(s: Seq<char>) -> int {
    prefix_match_len_from(s, 0)
}

/// The result of a parse attempt on the whole input `s` under the prefix
/// policy `urn`.
///
/// With a policy of [`UrnPrefix::Forbidden`] the whole input is the body.
/// With [`UrnPrefix::Required`] the literal prefix must be fully present: the
/// first character diverging from it is an invalid character, and an input
/// that ends inside the prefix has an invalid length. With
/// [`UrnPrefix::Optional`] a fully present prefix is consumed; an input that
/// shares no leading character with the prefix is taken as a bare body; a
/// partial match is an error at the point of divergence.
pub open spec fn spec_parse(s: Seq<char>, urn: UrnPrefix) -> Result<Seq<u8>, ParseError> {
    match urn {
        UrnPrefix::Forbidden => spec_parse_body(s, 0, urn),
        UrnPrefix::Required => {
            let m = prefix_match_len(s);
            if m == 9 {
                spec_parse_body(s.skip(9), 9, urn)
            } else if m == s.len() {
                Err(ParseError::InvalidLength {
                    expected: ExpectedLength::Any(spec_urn_total_lens()),
                    found: s.len() as usize,
                })
            } else {
                Err(ParseError::InvalidCharacter {
                    expected: HEX_CHARSET,
                    found: s[m],
                    index: m as usize,
                    urn,
                })
            }
        },
        UrnPrefix::Optional => {
            let m = prefix_match_len(s);
            if m == 9 {
                spec_parse_body(s.skip(9), 9, urn)
            } else if m == 0 {
                spec_parse_body(s, 0, urn)
            } else if m == s.len() {
                Err(ParseError::InvalidLength {
                    expected: ExpectedLength::Any(spec_urn_total_lens()),
                    found: s.len() as usize,
                })
            } else {
                Err(ParseError::InvalidCharacter {
                    expected: HEX_CHARSET,
                    found: s[m],
                    index: m as usize,
                    urn,
                })
            }
        },
    }
}

/// A parse result with the decoded value abstracted to its byte sequence.
pub open spec fn result_view(r: Result<Vec<u8>, ParseError>) -> Result<Seq<u8>, ParseError> {
    match r {
        Ok(v) => Ok(v@),
        Err(e) => Err(e),
    }
}

/// Check if the length matches any of the given criteria lengths.
pub fn len_matches_any(len: usize, crits: &[usize]) -> (r: bool)
    ensures
        r == crits@.contains(len),
{
    for i in 0..crits.len()
        invariant
            forall|j: int| 0 <= j < i ==> crits@[j] != len,
    {
        if crits[i] == len {
            assert(crits@.contains(len));
            return true;
        }
    }
    assert(!crits@.contains(len));
    false
}

/// Check if the length lies in the given inclusive range.
pub fn len_matches_range(len: usize, min: usize, max: usize) -> (r: bool)
    ensures
        r == (min <= len && len <= max),
{
    min <= len && len <= max
}

/// The characters of `s`, in order, as a vector.
pub fn to_chars(s: &str) -> (v: Vec<char>)
    ensures
        v@ == s@,
{
    let n = s.unicode_len();
    let mut v: Vec<char> = Vec::new();
    for i in 0..n
        invariant
            n == s@.len(),
            v@ == s@.subrange(0, i as int),
    {
        let c = s.get_char(i);
        v.push(c);
        assert(v@ =~= s@.subrange(0, i + 1));
    }
    assert(v@ =~= s@);
    v
}

/// The characters of `cs` from position `from` on, as a vector of their own.
fn tail_from(cs: &Vec<char>, from: usize) -> (v: Vec<char>)
    requires
        from <= cs@.len(),
    ensures
        v@ == cs@.skip(from as int),
{
    let mut v: Vec<char> = Vec::new();
    let n = cs.len();
    for i in from..n
        invariant
            n == cs@.len(),
            from <= i <= n,
            v@ == cs@.subrange(from as int, i as int),
    {
        v.push(cs[i]);
        assert(v@ =~= cs@.subrange(from as int, i + 1));
    }
    assert(v@ =~= cs@.skip(from as int));
    v
}

/// The number of hyphens in `cs`.
fn count_hyphens_in(cs: &Vec<char>) -> (h: usize)
    ensures
        h as int == count_hyphens(cs@),
{
    let n = cs.len();
    let mut h: usize = 0;
    for i in 0..n
        invariant
            n == cs@.len(),
            h as int == count_hyphens(cs@.subrange(0, i as int)),
            h <= i,
    {
        proof {
            lemma_count_hyphens_push(cs@.subrange(0, i as int), cs@[i as int]);
            assert(cs@.subrange(0, i as int).push(cs@[i as int]) =~= cs@.subrange(0, i + 1));
        }
        if cs[i] == '-' {
            h += 1;
        }
    }
    assert(cs@.subrange(0, n as int) =~= cs@);
    h
}

/// Decodes 32 hex digit characters into the 16 bytes they denote.
fn digits_to_bytes(digits: &Vec<char>) -> (out: Vec<u8>)
    requires
        digits@.len() == 32,
        forall|j: int| 0 <= j < 32 ==> is_hex_digit(#[trigger] digits@[j]),
    ensures
        out@ == spec_bytes_of(digits@),
{
    let mut out: Vec<u8> = Vec::new();
    for k in 0..16usize
        invariant
            digits@.len() == 32,
            forall|j: int| 0 <= j < 32 ==> is_hex_digit(#[trigger] digits@[j]),
            out@.len() == k,
            forall|j: int| 0 <= j < k ==> out@[j] == spec_bytes_of(digits@)[j],
    {
        let hi = hex_value(digits[2 * k]);
        let lo = hex_value(digits[2 * k + 1]);
        out.push(hi * 16 + lo);
    }
    assert(out@ =~= spec_bytes_of(digits@));
    out
}

/// Parses a UUID body whose first character stood at position `off` of the
/// original input.
fn parse_body_chars(body: &Vec<char>, off: usize, urn: UrnPrefix) -> (r: Result<Vec<u8>, ParseError>)
    requires
        body@.len() + off <= usize::MAX,
    ensures
        result_view(r) == spec_parse_body(body@, off as int, urn),
{
    let ghost s = body@;
    let n = body.len();
    let mut i: usize = 0;
    let mut g: usize = 0;
    let mut c: usize = 0;
    let mut digits: Vec<char> = Vec::new();
    while i < n
        invariant
            n == s.len(),
            s == body@,
            off + n <= usize::MAX,
            i <= n,
            g <= 4,
            c <= i,
            forall|j: int| 0 <= j < digits@.len() ==> is_hex_digit(#[trigger] digits@[j]),
            digits@.len() == if g == 0 {
                c as int
            } else {
                spec_acc_group_len(g as int - 1) + c
            },
            count_hyphens(s.subrange(0, i as int)) == g as int,
            i as int == digits@.len() + g as int,
            scan_body(s, off as int, urn, 0, 0, 0, Seq::empty()) == scan_body(
                s,
                off as int,
                urn,
                i as int,
                g as int,
                c as int,
                digits@,
            ),
        decreases n - i,
    {
        let ch = body[i];
        proof {
            lemma_count_hyphens_push(s.subrange(0, i as int), s[i as int]);
            assert(s.subrange(0, i as int).push(s[i as int]) =~= s.subrange(0, i + 1));
        }
        if ch == '-' {
            if g < 4 {
                let gl = group_len_at(g);
                if c == gl {
                    g += 1;
                    c = 0;
                    i += 1;
                } else if c < gl {
                    return Err(ParseError::InvalidCharacter {
                        expected: HEX_CHARSET,
                        found: '-',
                        index: off + i,
                        urn,
                    });
                } else {
                    return Err(ParseError::InvalidGroupLength {
                        expected: ExpectedLength::Exact(gl),
                        found: c,
                        group: g,
                    });
                }
            } else {
                if c == 12 {
                    proof {
                        assert(s =~= s.subrange(0, i as int) + s.subrange(i as int, n as int));
                        lemma_count_hyphens_cat(
                            s.subrange(0, i as int),
                            s.subrange(i as int, n as int),
                        );
                        lemma_count_hyphens_le(s.subrange(i as int, n as int));
                    }
                    let h = count_hyphens_in(body);
                    return Err(ParseError::InvalidGroupCount {
                        expected: ExpectedLength::Any(group_count_lens()),
                        found: h + 1,
                    });
                } else if c < 12 {
                    return Err(ParseError::InvalidCharacter {
                        expected: HEX_CHARSET,
                        found: '-',
                        index: off + i,
                        urn,
                    });
                } else {
                    return Err(ParseError::InvalidGroupLength {
                        expected: ExpectedLength::Exact(12),
                        found: c,
                        group: 4,
                    });
                }
            }
        } else if is_hex_digit_char(ch) {
            digits.push(ch);
            c += 1;
            i += 1;
        } else {
            return Err(ParseError::InvalidCharacter {
                expected: HEX_CHARSET,
                found: ch,
                index: off + i,
                urn,
            });
        }
    }
    if g == 0 {
        if c == 32 {
            Ok(digits_to_bytes(&digits))
        } else {
            Err(ParseError::InvalidLength {
                expected: ExpectedLength::Any(body_lens()),
                found: n,
            })
        }
    } else {
        let gl = group_len_at(g);
        if c != gl {
            Err(ParseError::InvalidGroupLength {
                expected: ExpectedLength::Exact(gl),
                found: c,
                group: g,
            })
        } else if g == 4 {
            Ok(digits_to_bytes(&digits))
        } else {
            Err(ParseError::InvalidGroupCount {
                expected: ExpectedLength::Any(group_count_lens()),
                found: g + 1,
            })
        }
    }
}

/// The length of the longest shared prefix of `cs` and `urn:uuid:`.
fn prefix_match_len_in(cs: &Vec<char>) -> (m: usize)
    ensures
        m as int == prefix_match_len(cs@),
        m <= 9,
        m as int <= cs@.len(),
{
    let n = cs.len();
    let mut m: usize = 0;
    while m < 9 && m < n && cs[m] == prefix_char_at(m)
        invariant
            n == cs@.len(),
            m <= 9,
            m <= n,
            prefix_match_len_from(cs@, 0) == prefix_match_len_from(cs@, m as int),
        decreases 9 - m,
    {
        m += 1;
    }
    m
}

/// Parses a candidate UUID string, already split into characters, under the
/// given prefix policy.
pub fn parse_chars(cs: &Vec<char>, urn: UrnPrefix) -> (r: Result<Vec<u8>, ParseError>)
    ensures
        result_view(r) == spec_parse(cs@, urn),
{
    let n = cs.len();
    match urn {
        UrnPrefix::Forbidden => parse_body_chars(cs, 0, urn),
        UrnPrefix::Required => {
            let m = prefix_match_len_in(cs);
            if m == 9 {
                let body = tail_from(cs, 9);
                assert(body@.len() + 9 == n);
                parse_body_chars(&body, 9, urn)
            } else if m == cs.len() {
                Err(ParseError::InvalidLength {
                    expected: ExpectedLength::Any(urn_total_lens()),
                    found: cs.len(),
                })
            } else {
                Err(ParseError::InvalidCharacter {
                    expected: HEX_CHARSET,
                    found: cs[m],
                    index: m,
                    urn,
                })
            }
        },
        UrnPrefix::Optional => {
            let m = prefix_match_len_in(cs);
            if m == 9 {
                let body = tail_from(cs, 9);
                assert(body@.len() + 9 == n);
                parse_body_chars(&body, 9, urn)
            } else if m == 0 {
                parse_body_chars(cs, 0, urn)
            } else if m == cs.len() {
                Err(ParseError::InvalidLength {
                    expected: ExpectedLength::Any(urn_total_lens()),
                    found: cs.len(),
                })
            } else {
                Err(ParseError::InvalidCharacter {
                    expected: HEX_CHARSET,
                    found: cs[m],
                    index: m,
                    urn,
                })
            }
        },
    }
}

/// Parses a candidate UUID string under the given prefix policy, returning
/// its 16 bytes or the single earliest diagnostic.
pub fn parse(input: &str, urn: UrnPrefix) -> (r: Result<Vec<u8>, ParseError>)
    ensures
        result_view(r) == spec_parse(input@, urn),
{
    let cs = to_chars(input);
    parse_chars(&cs, urn)
}

/// Whether position `i` of a canonical hyphenated body holds a separator.
pub open spec fn spec_sep_index(i: int) -> bool {
    i == 8 || i == 13 || i == 18 || i == 23
}

/// The number of separators strictly before position `i` of a canonical
/// hyphenated body.
pub open spec fn spec_seps_before(i: int) -> int {
    if i <= 8 {
        0
    } else if i <= 13 {
        1
    } else if i <= 18 {
        2
    } else if i <= 23 {
        3
    } else {
        4
    }
}

/// The lowercase hex digit character for a value below sixteen.
pub open spec fn spec_hex_char_lower(d: int) -> char {
    if d == 0 {
        '0'
    } else if d == 1 {
        '1'
    } else if d == 2 {
        '2'
    } else if d == 3 {
        '3'
    } else if d == 4 {
        '4'
    } else if d == 5 {
        '5'
    } else if d == 6 {
        '6'
    } else if d == 7 {
        '7'
    } else if d == 8 {
        '8'
    } else if d == 9 {
        '9'
    } else if d == 10 {
        'a'
    } else if d == 11 {
        'b'
    } else if d == 12 {
        'c'
    } else if d == 13 {
        'd'
    } else if d == 14 {
        'e'
    } else {
        'f'
    }
}

/// Exec twin of [`spec_hex_char_lower`].
fn hex_char_lower_at(d: u8) -> (c: char)
    requires
        d < 16,
    ensures
        c == spec_hex_char_lower(d as int),
{
    if d == 0 {
        '0'
    } else if d == 1 {
        '1'
    } else if d == 2 {
        '2'
    } else if d == 3 {
        '3'
    } else if d == 4 {
        '4'
    } else if d == 5 {
        '5'
    } else if d == 6 {
        '6'
    } else if d == 7 {
        '7'
    } else if d == 8 {
        '8'
    } else if d == 9 {
        '9'
    } else if d == 10 {
        'a'
    } else if d == 11 {
        'b'
    } else if d == 12 {
        'c'
    } else if d == 13 {
        'd'
    } else if d == 14 {
        'e'
    } else {
        'f'
    }
}

/// The `d`-th hex digit of the 16 bytes `b`, most significant digit of each
/// byte first.
pub open spec fn spec_nibble(b: Seq<u8>, d: int) -> int {
    if d % 2 == 0 {
        b[d / 2] as int / 16
    } else {
        b[d / 2] as int % 16
    }
}

/// The canonical lowercase hyphenated text of 16 bytes: 32 hex digits in
/// five groups of `8-4-4-4-12`, separated by hyphens.
pub open spec fn spec_format_hyphenated(b: Seq<u8>) -> Seq<char> {
    Seq::new(
        36,
        |i: int|
            if spec_sep_index(i) {
                '-'
            } else {
                spec_hex_char_lower(spec_nibble(b, i - spec_seps_before(i)))
            },
    )
}

/// Writes 16 bytes in canonical lowercase hyphenated form.
pub fn format_hyphenated(b: &Vec<u8>) -> (r: String)
    requires
        b@.len() == 16,
    ensures
        r@ == spec_format_hyphenated(b@),
{
    let mut v: Vec<char> = Vec::new();
    for i in 0..36usize
        invariant
            b@.len() == 16,
            v@.len() == i,
            forall|j: int| 0 <= j < i ==> v@[j] == spec_format_hyphenated(b@)[j],
    {
        if i == 8 || i == 13 || i == 18 || i == 23 {
            v.push('-');
        } else {
            let sb: usize = if i <= 8 {
                0
            } else if i <= 13 {
                1
            } else if i <= 18 {
                2
            } else if i <= 23 {
                3
            } else {
                4
            };
            let d = i - sb;
            let byte = b[d / 2];
            let nib = if d % 2 == 0 {
                byte / 16
            } else {
                byte % 16
            };
            v.push(hex_char_lower_at(nib));
        }
    }
    assert(v@ =~= spec_format_hyphenated(b@));
    crate::render::chars_to_string(&v)
}

} // verus!
