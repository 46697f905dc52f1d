//! 32-bit floats as bit patterns.
//!
//! Float values travel through the library as their IEEE 754 bit patterns.
//! What the library decides about them, it decides on the patterns.

use vstd::prelude::*;

verus! {

/// The pattern of zero.
pub const ZERO_BITS: u32 = 0;

/// The pattern of one.
pub const ONE_BITS: u32 = 0x3f80_0000;

/// The pattern of minus one thousand.
pub const MINUS_THOUSAND_BITS: u32 = 0xc47a_0000;

/// The lowest pattern with the sign bit set.
pub const SIGN_BIT: u32 = 0x8000_0000;

/// The pattern of positive infinity.
pub const INFINITY_BITS: u32 = 0x7f80_0000;

/// The pattern without its sign bit.
pub open spec fn magnitude(bits: u32) -> u32 {
    bits % SIGN_BIT
}

/// Neither an infinity nor a NaN.
pub open spec fn finite(bits: u32) -> bool {
    magnitude(bits) < INFINITY_BITS
}

pub open spec fn nan(bits: u32) -> bool {
    magnitude(bits) > INFINITY_BITS
}

/// Position in the IEEE 754 total order, which puts `-0` before `+0` and
/// orders the NaNs outside the infinities.
pub open spec fn total_order_key(bits: u32) -> int {
    if bits < SIGN_BIT {
        bits as int
    } else {
        -1 - magnitude(bits)
    }
}

/// Whether the pattern is that of a finite number.
pub fn is_finite(bits: u32) -> (result: bool)
    ensures
        result == finite(bits),
{
    bits % SIGN_BIT < INFINITY_BITS
}

/// Position in the IEEE 754 total order.
pub fn total_order(bits: u32) -> (key: i64)
    ensures
        key == total_order_key(bits),
{
    if bits < SIGN_BIT {
        bits as i64
    } else {
        -1 - ((bits % SIGN_BIT) as i64)
    }
}

/// Two patterns with the same key are the same pattern.
pub proof fn law_total_order_is_injective(a: u32, b: u32)
    requires
        total_order_key(a) == total_order_key(b),
    ensures
        a == b,
{
}

} // verus!
