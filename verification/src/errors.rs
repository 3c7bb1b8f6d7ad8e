//! The error model: what can go wrong while parsing a UUID string.
//!
//! Each failed parse produces exactly one [`ParseError`], built at the first
//! point of failure with by-value copies of everything a diagnostic needs, so
//! the error stays valid after the input string is gone.

use vstd::prelude::*;

verus! {

/// The length(s) that would have been acceptable at a failure point.
#[derive(Clone, Copy, Debug, Eq, Hash, Ord, PartialEq, PartialOrd)]
pub enum ExpectedLength {
    /// Any one of the given values was acceptable.
    Any(&'static [usize]),
    /// Exactly the given value was acceptable.
    Exact(usize),
    /// Any value in the inclusive range `min..=max` was acceptable.
    Range {
        /// The minimum acceptable value.
        min: usize,
        /// The maximum acceptable value.
        max: usize,
    },
}

/// Whether a `urn:uuid:` prefix was allowed for a given parse attempt.
#[derive(Clone, Copy, Debug, Eq, Hash, Ord, PartialEq, PartialOrd)]
pub enum UrnPrefix {
    /// No `urn:uuid:` prefix may be provided.
    Forbidden,
    /// The `urn:uuid:` prefix may optionally be provided.
    Optional,
    /// The `urn:uuid:` prefix is required.
    Required,
}

/// An error that can occur while parsing a UUID string.
#[derive(Clone, Copy, Debug, Eq, Hash, Ord, PartialEq, PartialOrd)]
pub enum ParseError {
    /// An invalid character in the UUID string.
    InvalidCharacter {
        /// A description of the characters that were expected.
        expected: &'static str,
        /// The invalid character found.
        found: char,
        /// The 0-based position of the invalid character in the original
        /// input, counting any `urn:uuid:` prefix.
        index: usize,
        /// The prefix policy of the parse attempt that failed.
        urn: UrnPrefix,
    },
    /// An invalid number of hyphen-delimited groups in the UUID string.
    InvalidGroupCount {
        /// The expected number of groups.
        expected: ExpectedLength,
        /// The number of groups found.
        found: usize,
    },
    /// An invalid length of one hyphen-delimited group in the UUID string.
    InvalidGroupLength {
        /// The expected length of the group, in hex digits.
        expected: ExpectedLength,
        /// The length of the group found.
        found: usize,
        /// The 0-based index of the offending group.
        group: usize,
    },
    /// An invalid total length of the UUID string.
    InvalidLength {
        /// The expected length(s).
        expected: ExpectedLength,
        /// The invalid length found.
        found: usize,
    },
}

/// The category label that leads a rendered diagnostic for the given error.
pub open spec fn spec_description(e: ParseError) -> Seq<char> {
    match e {
        ParseError::InvalidCharacter { .. } => "invalid character"@,
        ParseError::InvalidGroupCount { .. } => "invalid number of groups"@,
        ParseError::InvalidGroupLength { .. } => "invalid group length"@,
        ParseError::InvalidLength { .. } => "invalid length"@,
    }
}

impl ParseError {
    /// The short category label of this error, used as the lead-in of its
    /// rendered message.
    pub fn _description(&self) -> (r: &'static str)
        ensures
            r@ == spec_description(*self),
    {
        match *self {
            ParseError::InvalidCharacter { .. } => "invalid character",
            ParseError::InvalidGroupCount { .. } => "invalid number of groups",
            ParseError::InvalidGroupLength { .. } => "invalid group length",
            ParseError::InvalidLength { .. } => "invalid length",
        }
    }
}

/// The umbrella error type of the library: every failure a caller can see,
/// under one top-level sum.
#[derive(Clone, Copy, Debug, Eq, Hash, Ord, PartialEq, PartialOrd)]
pub enum Error {
    /// A string could not be parsed as a UUID.
    Parse(ParseError),
}

impl From<ParseError> for Error {
    /// Wraps a parse error losslessly in the umbrella error type.
    fn from(err: ParseError) -> (r: Self) {
        Error::Parse(err)
    }
}

impl vstd::std_specs::convert::FromSpecImpl<ParseError> for Error {
    open spec fn obeys_from_spec() -> bool {
        true
    }

    open spec fn from_spec(err: ParseError) -> Self {
        Error::Parse(err)
    }
}

} // verus!
