//! Rendering of diagnostics into human-readable text.
//!
//! Every rendered message has the form `"<category>: <detail>"`, where the
//! category is the error's [`crate::errors::spec_description`] and the detail
//! names the expected constraint, the value found, and a 0-based position
//! when one applies. The exact text of each message is pinned by the spec
//! functions here; the executable renderers are proved to produce it
//! character for character.

use vstd::prelude::*;
use vstd::string::StrSliceExecFns;
use crate::errors::{spec_description, ExpectedLength, ParseError, UrnPrefix};

verus! {

/// Appends every character of `s` to `v`, in order.
pub fn push_str_chars(v: &mut Vec<char>, s: &str)
    ensures
        final(v)@ == old(v)@ + s@,
{
    let n = s.unicode_len();
    for i in 0..n
        invariant
            n == s@.len(),
            v@ == old(v)@ + s@.subrange(0, i as int),
    {
        let c = s.get_char(i);
        v.push(c);
        assert(v@ =~= old(v)@ + s@.subrange(0, i + 1));
    }
    assert(v@ =~= old(v)@ + s@);
}

/// The decimal digit character for a value below ten.
pub open spec fn spec_digit_char(d: int) -> char {
    if d == 0 {
        '0'
    } else if d == 1 {
        '1'
    } else if d == 2 {
        '2'
    } else if d == 3 {
        '3'
    } else if d == 4 {
        '4'
    } else if d == 5 {
        '5'
    } else if d == 6 {
        '6'
    } else if d == 7 {
        '7'
    } else if d == 8 {
        '8'
    } else {
        '9'
    }
}

/// Exec twin of [`spec_digit_char`].
fn digit_char_at(d: usize) -> (c: char)
    requires
        d < 10,
    ensures
        c == spec_digit_char(d as int),
{
    if d == 0 {
        '0'
    } else if d == 1 {
        '1'
    } else if d == 2 {
        '2'
    } else if d == 3 {
        '3'
    } else if d == 4 {
        '4'
    } else if d == 5 {
        '5'
    } else if d == 6 {
        '6'
    } else if d == 7 {
        '7'
    } else if d == 8 {
        '8'
    } else {
        '9'
    }
}

/// The usual decimal notation of a non-negative number, without sign or
/// leading zeros.
pub open spec fn spec_dec_digits(n: int) -> Seq<char>
    decreases n,
{
    if n < 10 {
        seq![spec_digit_char(n)]
    } else {
        spec_dec_digits(n / 10).push(spec_digit_char(n % 10))
    }
}

/// Appends the decimal notation of `x` to `v`.
pub fn push_dec(v: &mut Vec<char>, x: usize)
    ensures
        final(v)@ == old(v)@ + spec_dec_digits(x as int),
    decreases x,
{
    if x < 10 {
        v.push(digit_char_at(x));
    } else {
        push_dec(v, x / 10);
        v.push(digit_char_at(x % 10));
    }
}

/// The elements of `vs` in decimal, joined by `", "`.
pub open spec fn spec_render_list_items(vs: Seq<usize>) -> Seq<char>
    decreases vs.len(),
{
    if vs.len() == 0 {
        Seq::empty()
    } else if vs.len() == 1 {
        spec_dec_digits(vs[0] as int)
    } else {
        spec_render_list_items(vs.drop_last()) + ", "@ + spec_dec_digits(vs.last() as int)
    }
}

/// How an [`ExpectedLength`] reads in a diagnostic: `Any` as
/// `one of [a, b]`, `Exact` as the bare number, `Range` as
/// `min..max inclusive`.
pub open spec fn spec_render_expected(e: ExpectedLength) -> Seq<char> {
    match e {
        ExpectedLength::Any(crits) => "one of ["@ + spec_render_list_items(crits@) + "]"@,
        ExpectedLength::Exact(crit) => spec_dec_digits(crit as int),
        ExpectedLength::Range { min, max } => spec_dec_digits(min as int) + ".."@ + spec_dec_digits(
            max as int,
        ) + " inclusive"@,
    }
}

/// Appends the rendering of `e` to `v`.
fn push_expected(v: &mut Vec<char>, e: ExpectedLength)
    ensures
        final(v)@ == old(v)@ + spec_render_expected(e),
{
    match e {
        ExpectedLength::Any(crits) => {
            push_str_chars(v, "one of [");
            let n = crits.len();
            for i in 0..n
                invariant
                    n == crits@.len(),
                    v@ == old(v)@ + "one of ["@ + spec_render_list_items(crits@.subrange(0, i as int)),
            {
                if i > 0 {
                    push_str_chars(v, ", ");
                }
                push_dec(v, crits[i]);
                proof {
                    let pre = crits@.subrange(0, i as int);
                    assert(crits@.subrange(0, i + 1).drop_last() =~= pre);
                    assert(crits@.subrange(0, i + 1).last() == crits@[i as int]);
                }
            }
            assert(crits@.subrange(0, n as int) =~= crits@);
            push_str_chars(v, "]");
        },
        ExpectedLength::Exact(crit) => {
            push_dec(v, crit);
        },
        ExpectedLength::Range { min, max } => {
            push_dec(v, min);
            push_str_chars(v, "..");
            push_dec(v, max);
            push_str_chars(v, " inclusive");
        },
    }
}

/// The clause a rendered invalid-character message carries about the
/// `urn:uuid:` prefix policy of the failed attempt.
pub open spec fn spec_urn_clause(u: UrnPrefix) -> Seq<char> {
    match u {
        UrnPrefix::Forbidden => Seq::empty(),
        UrnPrefix::Optional => " an optional prefix of `urn:uuid:` followed by"@,
        UrnPrefix::Required => " a prefix of `urn:uuid` followed by"@,
    }
}

/// The full rendered message of a [`ParseError`]: its category, then the
/// expected constraint, what was found, and a 0-based position when one
/// applies.
pub open spec fn spec_render_error(e: ParseError) -> Seq<char> {
    spec_description(e) + ": "@ + match e {
        ParseError::InvalidCharacter { expected, found, index, urn } => "expected"@
            + spec_urn_clause(urn) + " "@ + expected@ + ", found "@ + seq![found] + " at "@
            + spec_dec_digits(index as int),
        ParseError::InvalidGroupCount { expected, found } => "expected "@ + spec_render_expected(
            expected,
        ) + ", found "@ + spec_dec_digits(found as int),
        ParseError::InvalidGroupLength { expected, found, group } => "expected "@
            + spec_render_expected(expected) + ", found "@ + spec_dec_digits(found as int)
            + " in group "@ + spec_dec_digits(group as int),
        ParseError::InvalidLength { expected, found } => "expected "@ + spec_render_expected(
            expected,
        ) + ", found "@ + spec_dec_digits(found as int),
    }
}

/// Builds a string that holds exactly the given characters.
///
/// Relies on `String` collecting an iterator of `char`: the result holds
/// each character of `v`, in order.
#[verifier::external_body]
pub fn chars_to_string(v: &Vec<char>) -> (r: String)
    ensures
        r@ == v@,
{
    v.iter().collect()
}

impl ExpectedLength {
    /// The text this constraint shows in a diagnostic.
    pub fn render(&self) -> (r: String)
        ensures
            r@ == spec_render_expected(*self),
    {
        let mut v: Vec<char> = Vec::new();
        push_expected(&mut v, *self);
        chars_to_string(&v)
    }
}

impl ParseError {
    /// The full human-readable message of this error.
    pub fn render(&self) -> (r: String)
        ensures
            r@ == spec_render_error(*self),
    {
        let mut v: Vec<char> = Vec::new();
        push_str_chars(&mut v, self._description());
        push_str_chars(&mut v, ": ");
        match *self {
            ParseError::InvalidCharacter { expected, found, index, urn } => {
                push_str_chars(&mut v, "expected");
                match urn {
                    UrnPrefix::Forbidden => {},
                    UrnPrefix::Optional => {
                        push_str_chars(&mut v, " an optional prefix of `urn:uuid:` followed by");
                    },
                    UrnPrefix::Required => {
                        push_str_chars(&mut v, " a prefix of `urn:uuid` followed by");
                    },
                }
                push_str_chars(&mut v, " ");
                push_str_chars(&mut v, expected);
                push_str_chars(&mut v, ", found ");
                v.push(found);
                push_str_chars(&mut v, " at ");
                push_dec(&mut v, index);
            },
            ParseError::InvalidGroupCount { expected, found } => {
                push_str_chars(&mut v, "expected ");
                push_expected(&mut v, expected);
                push_str_chars(&mut v, ", found ");
                push_dec(&mut v, found);
            },
            ParseError::InvalidGroupLength { expected, found, group } => {
                push_str_chars(&mut v, "expected ");
                push_expected(&mut v, expected);
                push_str_chars(&mut v, ", found ");
                push_dec(&mut v, found);
                push_str_chars(&mut v, " in group ");
                push_dec(&mut v, group);
            },
            ParseError::InvalidLength { expected, found } => {
                push_str_chars(&mut v, "expected ");
                push_expected(&mut v, expected);
                push_str_chars(&mut v, ", found ");
                push_dec(&mut v, found);
            },
        }
        assert(v@ =~= spec_render_error(*self));
        chars_to_string(&v)
    }
}

} // verus!
