//! Parsing and error reporting for the textual form of a UUID.
//!
//! The crate turns a candidate string into the 128-bit value it denotes, or
//! into one precise diagnostic describing the first point of failure. The
//! error model ([`errors`]) carries enough structured data to render a
//! human-readable message without re-scanning the input; the parser
//! ([`parser`]) validates the accepted textual grammars (canonical
//! hyphenated, simple, and `urn:uuid:`-prefixed) in a single left-to-right
//! scan. Rendering of diagnostics lives in [`render`].

pub mod errors;
pub mod laws;
pub mod parser;
pub mod render;
