use vstd::prelude::*;

verus! {

/// The bit pattern of `1.0` as an IEEE 754 binary64 value.
pub const ONE_BITS: u64 = 0x3FF0_0000_0000_0000;

/// The bit pattern of `-0.0` as an IEEE 754 binary64 value.
pub const NEGATIVE_ZERO_BITS: u64 = 0x8000_0000_0000_0000;

/// A real number of the document, held as its IEEE 754 binary64 bit pattern.
///
/// Coordinates, lengths and color channels are never computed with here: they
/// are carried from the decoder to the model and back, so equality of bit
/// patterns is the equality that matters.
#[derive(Clone, Copy, Debug, PartialEq, Eq, Structural)]
pub struct Real {
    pub bits: u64,
}

impl Real {
    /// The sign bit.
    pub open spec fn sign(self) -> u64 {
        self.bits >> 63u64
    }

    /// The biased exponent field.
    pub open spec fn exponent(self) -> u64 {
        (self.bits >> 52u64) & 0x7FFu64
    }

    /// The fraction field.
    pub open spec fn fraction(self) -> u64 {
        self.bits & 0xF_FFFF_FFFF_FFFFu64
    }

    /// The value is `+0.0` or `-0.0`.
    pub open spec fn is_zero(self) -> bool {
        self.exponent() == 0 && self.fraction() == 0
    }

    /// `0.0 <= self < 1.0` holds: a zero, or a non-negative value whose exponent
    /// is below that of one (no NaN has such an exponent).
    pub open spec fn in_unit_interval(self) -> bool {
        self.is_zero() || (self.sign() == 0 && self.exponent() < 1023)
    }

    pub fn from_bits(bits: u64) -> (r: Real)
        ensures
            r.bits == bits,
    {
        Real { bits }
    }

    /// The value `1.0`.
    pub fn one() -> (r: Real)
        ensures
            r.bits == ONE_BITS,
    {
        Real { bits: ONE_BITS }
    }

    /// Tells whether `0.0 <= self < 1.0`.
    pub fn is_in_unit_interval(&self) -> (r: bool)
        ensures
            r == self.in_unit_interval(),
    {
        let b = self.bits;
        assert((b < 0x3FF0_0000_0000_0000u64 || b == 0x8000_0000_0000_0000u64) == (((b >> 52u64)
            & 0x7FFu64) == 0 && (b & 0xF_FFFF_FFFF_FFFFu64) == 0 || ((b >> 63u64) == 0 && ((b
            >> 52u64) & 0x7FFu64) < 1023))) by (bit_vector);
        b < ONE_BITS || b == NEGATIVE_ZERO_BITS
    }
}

} // verus!
