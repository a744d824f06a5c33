//! IEEE-754 single-precision values handled as raw 32-bit words.
//!
//! Measurements cross the radio link and the control surface as bit
//! patterns. The few places that must compare two measurements as numbers
//! do so here, on the bits: sign in bit 31, exponent in bits 30 to 23,
//! fraction below.

use vstd::prelude::*;

verus! {

/// Bit pattern of the number one.
pub const ONE: u32 = 0x3f80_0000;

/// Bit pattern of the number two.
pub const TWO: u32 = 0x4000_0000;

/// Bit pattern of positive zero.
pub const ZERO: u32 = 0;

/// The word without its sign bit.
pub open spec fn magnitude(w: u32) -> u32 {
    (w % 0x8000_0000) as u32
}

/// The word is not a number: all exponent bits set and a non-zero fraction.
pub open spec fn is_nan(w: u32) -> bool {
    magnitude(w) > 0x7f80_0000
}

/// The word is positive or negative zero.
pub open spec fn is_zero(w: u32) -> bool {
    magnitude(w) == 0
}

/// Numeric equality of two words: a NaN equals nothing, not even itself,
/// the two zeros equal each other, and any other two words are equal
/// exactly when their bits are.
pub open spec fn same_number(a: u32, b: u32) -> bool {
    !is_nan(a) && !is_nan(b) && (a == b || (is_zero(a) && is_zero(b)))
}

/// Tells whether the word is a NaN.
pub fn word_is_nan(w: u32) -> (r: bool)
    ensures
        r == is_nan(w),
{
    w % 0x8000_0000 > 0x7f80_0000
}

/// Compares two words as the numbers they encode.
pub fn word_eq(a: u32, b: u32) -> (r: bool)
    ensures
        r == same_number(a, b),
{
    if word_is_nan(a) || word_is_nan(b) {
        false
    } else {
        a == b || (a % 0x8000_0000 == 0 && b % 0x8000_0000 == 0)
    }
}

/// Numeric equality is symmetric.
pub proof fn lemma_same_number_symmetric(a: u32, b: u32)
    ensures
        same_number(a, b) == same_number(b, a),
{
}

/// A word equals itself as a number exactly when it is not a NaN.
pub proof fn lemma_same_number_reflexive(a: u32)
    ensures
        same_number(a, a) == !is_nan(a),
{
}

} // verus!
