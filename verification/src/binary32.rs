//! Single-precision numbers as their IEEE 754 bit patterns.
//!
//! A number is carried as the `u32` that holds its sign bit, eight exponent
//! bits and twenty-three fraction bits. Nothing here does arithmetic: the
//! module only says when two patterns denote the same number, which is all a
//! fixed-point test needs.

use vstd::prelude::*;

verus! {

/// The value of the sign bit; every pattern at or above it is negative.
pub const SIGN_BIT: u32 = 0x8000_0000;

/// The pattern of positive infinity: all exponent bits set, no fraction bit.
pub const INFINITY: u32 = 0x7f80_0000;

/// The pattern with its sign bit cleared.
pub open spec fn magnitude(bits: u32) -> int {
    bits as int % 0x8000_0000
}

/// Whether the pattern is a NaN: all exponent bits set and some fraction bit.
pub open spec fn is_nan(bits: u32) -> bool {
    magnitude(bits) > 0x7f80_0000
}

/// Whether the pattern is one of the two zeros.
pub open spec fn is_zero(bits: u32) -> bool {
    magnitude(bits) == 0
}

/// Numeric equality of two patterns: a NaN equals nothing, itself included,
/// the two zeros equal each other, and every other number has one pattern.
pub open spec fn same_number(a: u32, b: u32) -> bool {
    &&& !is_nan(a)
    &&& !is_nan(b)
    &&& (a == b || (is_zero(a) && is_zero(b)))
}

/// Equality of two vectors: the same length and the same number at each
/// position.
pub open spec fn same_vector(a: Seq<u32>, b: Seq<u32>) -> bool {
    &&& a.len() == b.len()
    &&& forall|i: int| 0 <= i < a.len() ==> same_number(#[trigger] a[i], b[i])
}

/// Decides numeric equality of two bit patterns.
pub fn numbers_equal(a: u32, b: u32) -> (equal: bool)
    ensures
        equal == same_number(a, b),
{
    let a_magnitude: u32 = a % SIGN_BIT;
    let b_magnitude: u32 = b % SIGN_BIT;
    if a_magnitude > INFINITY || b_magnitude > INFINITY {
        false
    } else {
        a == b || (a_magnitude == 0 && b_magnitude == 0)
    }
}

/// Decides equality of two vectors of bit patterns.
pub fn vectors_equal(a: &Vec<u32>, b: &Vec<u32>) -> (equal: bool)
    ensures
        equal == same_vector(a@, b@),
{
    if a.len() != b.len() {
        return false;
    }
    let mut i: usize = 0;
    while i < a.len()
        invariant
            a.len() == b.len(),
            i <= a.len(),
            forall|k: int| 0 <= k < i ==> same_number(#[trigger] a@[k], b@[k]),
        decreases a.len() - i,
    {
        if !numbers_equal(a[i], b[i]) {
            return false;
        }
        i += 1;
    }
    true
}

} // verus!
