//! Year observations. A number is held as its IEEE 754 binary64 pattern, and
//! a cell of a year column is `None` where the source holds no number.

use vstd::prelude::*;

verus! {

/// The eleven exponent bits of a binary64 pattern.
pub const EXPONENT_MASK: u64 = 0x7ff0_0000_0000_0000;

/// The fifty-two fraction bits of a binary64 pattern.
pub const FRACTION_MASK: u64 = 0x000f_ffff_ffff_ffff;

/// A binary64 pattern is not-a-number, the missing-value sentinel, when
/// every exponent bit is set and some fraction bit is set.
pub open spec fn is_nan_bits(bits: u64) -> bool {
    (bits & EXPONENT_MASK) == EXPONENT_MASK && (bits & FRACTION_MASK) != 0
}

/// A cell holds an observation when a number is present and is not the
/// missing-value sentinel. Zero, of either sign, is an observation.
pub open spec fn is_observed(cell: Option<u64>) -> bool {
    match cell {
        Some(bits) => !is_nan_bits(bits),
        None => false,
    }
}

/// Tells whether a binary64 pattern is the missing-value sentinel.
pub fn is_missing(bits: u64) -> (missing: bool)
    ensures
        missing == is_nan_bits(bits),
{
    (bits & EXPONENT_MASK) == EXPONENT_MASK && (bits & FRACTION_MASK) != 0
}

/// The number that a cell holds as an observation, if it holds one.
pub fn observation(cell: Option<u64>) -> (value: Option<u64>)
    ensures
        value == (if is_observed(cell) {
            cell
        } else {
            None
        }),
{
    match cell {
        Some(bits) => if is_missing(bits) {
            None
        } else {
            Some(bits)
        },
        None => None,
    }
}

/// The missing-value sentinel is any pattern whose magnitude lies above
/// that of infinity; every pattern up to infinity, of either sign, is a
/// number.
pub proof fn lemma_nan_bits_lie_above_infinity(bits: u64)
    ensures
        is_nan_bits(bits) <==> (bits & 0x7fff_ffff_ffff_ffff) > EXPONENT_MASK,
{
    assert(((bits & 0x7ff0_0000_0000_0000) == 0x7ff0_0000_0000_0000 && (bits
        & 0x000f_ffff_ffff_ffff) != 0) <==> (bits & 0x7fff_ffff_ffff_ffff)
        > 0x7ff0_0000_0000_0000) by (bit_vector);
}

} // verus!
