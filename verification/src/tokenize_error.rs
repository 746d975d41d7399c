//! What can go wrong while splitting source text into tokens.
use vstd::prelude::*;
use crate::lang::source_location::SourceLocation;

verus! {

/// Why an escape sequence in a string literal is not accepted.
#[derive(Copy, Clone, PartialEq, Eq, Debug, Structural)]
pub enum EscapeSequenceError {
    InvalidCharacter,
    InvalidHex,
    InvalidUnicode,
    EmptyUnicode,
    TooManyUnicodeDigits,
    OutOfUnicodeRange,
}

/// Why source text could not be split into tokens, and where.
#[derive(Copy, Clone, PartialEq, Eq, Debug, Structural)]
pub enum TokenizeError {
    /// A string literal opened here is never closed.
    UnboundedString(SourceLocation),
    /// The character here does not continue an escape sequence.
    InvalidEscape(EscapeSequenceError, SourceLocation),
    /// A block comment opened here is never closed.
    UnboundedComment(SourceLocation),
}

} // verus!
