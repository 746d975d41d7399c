//! Numbers as the library holds them: the bit pattern of a binary64 value.
use vstd::prelude::*;

verus! {

/// A number of the language, held as the 64 bits of its IEEE 754 binary64 encoding.
/// Arithmetic on numbers is the host's; the library only reads the encoding.
#[derive(Copy, Clone, PartialEq, Eq, Debug, Structural)]
pub struct Number {
    pub bits: u64,
}

/// The encoding without its sign bit.
pub open spec fn magnitude(bits: u64) -> u64 {
    bits & 0x7fff_ffff_ffff_ffff
}

/// The encoding is one of the NaN patterns: all exponent bits set, fraction not zero.
pub open spec fn encodes_nan(bits: u64) -> bool {
    magnitude(bits) > 0x7ff0_0000_0000_0000
}

/// The encoding is positive or negative zero.
pub open spec fn encodes_zero(bits: u64) -> bool {
    magnitude(bits) == 0
}

impl Number {
    /// A number counts as true unless it is a NaN or a zero.
    pub open spec fn truthy(self) -> bool {
        !encodes_nan(self.bits) && !encodes_zero(self.bits)
    }

    /// The number with the given encoding.
    pub fn from_bits(bits: u64) -> (r: Number)
        ensures
            r.bits == bits,
    {
        Number { bits }
    }

    /// The encoding of the number.
    pub fn to_bits(&self) -> (r: u64)
        ensures
            r == self.bits,
    {
        self.bits
    }

    /// Whether the number is a NaN.
    pub fn is_nan(&self) -> (r: bool)
        ensures
            r == encodes_nan(self.bits),
    {
        (self.bits & 0x7fff_ffff_ffff_ffff) > 0x7ff0_0000_0000_0000
    }

    /// Whether the number is positive or negative zero.
    pub fn is_zero(&self) -> (r: bool)
        ensures
            r == encodes_zero(self.bits),
    {
        (self.bits & 0x7fff_ffff_ffff_ffff) == 0
    }

    /// Whether the number counts as true.
    pub fn is_truthy(&self) -> (r: bool)
        ensures
            r == self.truthy(),
    {
        !self.is_nan() && !self.is_zero()
    }
}

} // verus!
