//! The IEEE-754 total order on binary64 numbers, stated on their bit patterns.
//!
//! From least to greatest the order runs: negative NaNs, negative infinity,
//! negative numbers, negative zero, positive zero, positive numbers, positive
//! infinity, positive NaNs. Two patterns compare equal only if they are the same
//! pattern.

use vstd::prelude::*;

verus! {

/// The pattern of positive zero with the sign bit set: the least pattern of a
/// number whose sign is negative.
pub const SIGN_BIT: u64 = 0x8000_0000_0000_0000;

/// The place of a pattern in the total order, as an integer: `a` comes before
/// `b` in the total order exactly when `order_key(a) < order_key(b)`.
///
/// A pattern without the sign bit is its own key. With the sign bit set the
/// magnitude `m` (the other 63 bits) gives the key `-1 - m`, so a greater
/// magnitude lies further down and negative zero sits just under positive zero.
pub open spec fn order_key(bits: u64) -> int {
    if bits < SIGN_BIT {
        bits as int
    } else {
        -1 - (bits - SIGN_BIT)
    }
}

/// Distinct patterns have distinct keys: the total order has no ties.
pub proof fn lemma_order_key_injective(a: u64, b: u64)
    ensures
        order_key(a) == order_key(b) <==> a == b,
{
}

/// Among patterns without the sign bit, which include every non-negative
/// number and positive infinity, the total order is the order of the patterns
/// themselves.
pub proof fn lemma_order_key_non_negative(a: u64, b: u64)
    requires
        a < SIGN_BIT,
        b < SIGN_BIT,
    ensures
        order_key(a) < order_key(b) <==> a < b,
{
}

/// Computes the key of a pattern.
pub fn key_of(bits: u64) -> (key: i64)
    ensures
        key == order_key(bits),
{
    if bits < SIGN_BIT {
        bits as i64
    } else {
        let magnitude: u64 = bits - SIGN_BIT;
        -1 - (magnitude as i64)
    }
}

} // verus!
