//! Double-precision numbers by their bit patterns, and their order.

use vstd::prelude::*;

verus! {

/// The sign bit of a bit pattern.
pub const SIGN_BIT: u64 = 0x8000_0000_0000_0000;

/// Everything but the sign bit: exponent and fraction.
pub const MAGNITUDE_MASK: u64 = 0x7FFF_FFFF_FFFF_FFFF;

/// The magnitude of infinity. Finite numbers lie below it, and what lies above
/// it is not a number.
pub const INFINITY_BITS: u64 = 0x7FF0_0000_0000_0000;

/// Exponent and fraction of a bit pattern.
pub open spec fn magnitude(bits: u64) -> u64 {
    bits & MAGNITUDE_MASK
}

/// Whether the sign bit is set.
pub open spec fn sign_set(bits: u64) -> bool {
    bits & SIGN_BIT != 0
}

/// Whether a bit pattern stands for a finite number.
pub open spec fn is_finite(bits: u64) -> bool {
    magnitude(bits) < INFINITY_BITS
}

/// The place of a bit pattern in the order of the numbers. Of two finite
/// numbers the smaller has the smaller ordinal, and two have the same ordinal
/// exactly if they are equal as numbers: both zeros have ordinal 0.
pub open spec fn ordinal(bits: u64) -> int {
    if sign_set(bits) {
        -(magnitude(bits) as int)
    } else {
        magnitude(bits) as int
    }
}

/// Whether a bit pattern stands for a finite number above zero.
pub open spec fn is_positive(bits: u64) -> bool {
    is_finite(bits) && ordinal(bits) > 0
}

/// The magnitude of any bit pattern fits a signed 64-bit integer.
pub proof fn lemma_magnitude_bound(bits: u64)
    ensures
        magnitude(bits) <= MAGNITUDE_MASK,
        -0x7FFF_FFFF_FFFF_FFFF <= ordinal(bits) <= 0x7FFF_FFFF_FFFF_FFFF,
{
    assert(bits & 0x7FFF_FFFF_FFFF_FFFFu64 <= 0x7FFF_FFFF_FFFF_FFFFu64) by (bit_vector);
}

/// Tells whether `bits` stands for a finite number.
pub fn finite(bits: u64) -> (r: bool)
    ensures
        r == is_finite(bits),
{
    (bits & MAGNITUDE_MASK) < INFINITY_BITS
}

/// Computes the ordinal of a bit pattern.
pub fn rank(bits: u64) -> (k: i64)
    ensures
        k == ordinal(bits),
{
    proof {
        lemma_magnitude_bound(bits);
    }
    let m: u64 = bits & MAGNITUDE_MASK;
    if bits & SIGN_BIT != 0 {
        -(m as i64)
    } else {
        m as i64
    }
}

/// Tells whether the number `a` is below the number `b`.
pub fn below(a: u64, b: u64) -> (r: bool)
    ensures
        r == (ordinal(a) < ordinal(b)),
{
    rank(a) < rank(b)
}

/// Tells whether `bits` stands for a finite number above zero.
pub fn positive(bits: u64) -> (r: bool)
    ensures
        r == is_positive(bits),
{
    finite(bits) && rank(bits) > 0
}

} // verus!
