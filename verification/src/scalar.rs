//! Binary32 scalars as `u32` bit patterns.
//!
//! A coordinate is a sign bit, an 8-bit exponent field and a 23-bit
//! fraction field. Everything the pipeline needs from such a value --
//! finiteness, the value ordering, negation -- is integer arithmetic
//! on the pattern, stated and proved here exactly.

use vstd::prelude::*;

verus! {

/// Bit pattern of the value one.
pub const ONE_BITS: u32 = 0x3f80_0000;

/// Bit pattern of positive zero.
pub const ZERO_BITS: u32 = 0;

/// Bit pattern of negative zero.
pub const NEG_ZERO_BITS: u32 = 0x8000_0000;

/// The exponent field of a bit pattern.
pub open spec fn exp_field(w: u32) -> int {
    (w as int / 0x80_0000) % 0x100
}

/// A pattern is finite when its exponent field is not all ones
/// (all ones encodes an infinity or a NaN).
pub open spec fn finite_bits(w: u32) -> bool {
    exp_field(w) != 0xff
}

/// The sign bit of a bit pattern.
pub open spec fn sign_neg(w: u32) -> bool {
    w >= 0x8000_0000
}

/// A pattern encodes a zero (of either sign).
pub open spec fn is_zero_bits(w: u32) -> bool {
    w == ZERO_BITS || w == NEG_ZERO_BITS
}

/// Integer key that orders finite patterns exactly as their encoded
/// values: magnitudes order the patterns within one sign, the two
/// zeros share the key zero, and negative values sit below them.
pub open spec fn order_key(w: u32) -> int {
    if sign_neg(w) {
        -(w as int - 0x8000_0000)
    } else {
        w as int
    }
}

/// Two patterns encode the same value: same pattern, or both zeros.
pub open spec fn same_value(a: u32, b: u32) -> bool {
    order_key(a) == order_key(b)
}

/// Whether the exponent field of `w` is not all ones.
pub fn is_finite(w: u32) -> (r: bool)
    ensures
        r == finite_bits(w),
{
    (w / 0x80_0000) % 0x100 != 0xff
}

/// Whether the value of `a` is at most the value of `b`.
pub fn key_le(a: u32, b: u32) -> (r: bool)
    ensures
        r == (order_key(a) <= order_key(b)),
{
    if a < 0x8000_0000 {
        if b < 0x8000_0000 {
            a <= b
        } else {
            a == 0 && b == 0x8000_0000
        }
    } else {
        if b < 0x8000_0000 {
            true
        } else {
            b <= a
        }
    }
}

/// The argument with the smaller value (the first on ties).
pub fn key_min(a: u32, b: u32) -> (r: u32)
    ensures
        r == (if order_key(a) <= order_key(b) { a } else { b }),
{
    if key_le(a, b) { a } else { b }
}

/// The argument with the larger value (the first on ties).
pub fn key_max(a: u32, b: u32) -> (r: u32)
    ensures
        r == (if order_key(b) <= order_key(a) { a } else { b }),
{
    if key_le(b, a) { a } else { b }
}

} // verus!
