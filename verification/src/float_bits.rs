//! Comparisons of IEEE 754 doubles given by their bit patterns.
//!
//! Values that other parts of the format store as doubles are carried through this crate as
//! their bit patterns (`f64::to_bits`). These functions decide the comparisons the checks need
//! from the bits alone.

use vstd::prelude::*;

verus! {

/// The exponent field of a double.
pub open spec fn f64_exponent(bits: u64) -> u64 {
    (bits / 0x10_0000_0000_0000) % 0x800
}

/// True if the double is finite: neither infinite nor NaN.
pub open spec fn f64_is_finite(bits: u64) -> bool {
    f64_exponent(bits) != 0x7FF
}

/// True if the double is NaN.
pub open spec fn f64_is_nan(bits: u64) -> bool {
    f64_exponent(bits) == 0x7FF && bits % 0x10_0000_0000_0000 != 0
}

/// True if the double's sign bit is set.
pub open spec fn f64_sign(bits: u64) -> bool {
    bits >= 0x8000_0000_0000_0000
}

/// A number that orders doubles other than NaN as their values do: the magnitude bits, negated
/// when the sign bit is set, so that both zeros are zero.
pub open spec fn f64_ord(bits: u64) -> int {
    if f64_sign(bits) {
        -(bits - 0x8000_0000_0000_0000)
    } else {
        bits as int
    }
}

/// `a < b` for doubles; false if either is NaN.
pub open spec fn f64_lt(a: u64, b: u64) -> bool {
    !f64_is_nan(a) && !f64_is_nan(b) && f64_ord(a) < f64_ord(b)
}

/// `a <= b` for doubles; false if either is NaN.
pub open spec fn f64_le(a: u64, b: u64) -> bool {
    !f64_is_nan(a) && !f64_is_nan(b) && f64_ord(a) <= f64_ord(b)
}

/// The bits of `0.0`.
pub open spec fn f64_zero() -> u64 {
    0
}

/// The bits of `1.0`.
pub open spec fn f64_one() -> u64 {
    0x3FF0_0000_0000_0000
}

/// True if the double is zero or less; false for NaN.
pub open spec fn f64_le_zero(bits: u64) -> bool {
    f64_le(bits, f64_zero())
}

/// Returns true if the double is finite.
pub fn is_finite_bits(bits: u64) -> (r: bool)
    ensures
        r == f64_is_finite(bits),
{
    (bits / 0x10_0000_0000_0000) % 0x800 != 0x7FF
}

/// Returns true if the double is NaN.
pub fn is_nan_bits(bits: u64) -> (r: bool)
    ensures
        r == f64_is_nan(bits),
{
    (bits / 0x10_0000_0000_0000) % 0x800 == 0x7FF && bits % 0x10_0000_0000_0000 != 0
}

fn ord_bits(bits: u64) -> (r: i128)
    ensures
        r == f64_ord(bits),
{
    if bits >= 0x8000_0000_0000_0000 {
        -((bits - 0x8000_0000_0000_0000) as i128)
    } else {
        bits as i128
    }
}

/// Returns `a < b` for doubles.
pub fn lt_bits(a: u64, b: u64) -> (r: bool)
    ensures
        r == f64_lt(a, b),
{
    !is_nan_bits(a) && !is_nan_bits(b) && ord_bits(a) < ord_bits(b)
}

/// Returns `a <= b` for doubles.
pub fn le_bits(a: u64, b: u64) -> (r: bool)
    ensures
        r == f64_le(a, b),
{
    !is_nan_bits(a) && !is_nan_bits(b) && ord_bits(a) <= ord_bits(b)
}

/// Returns true if the double is zero or less.
pub fn le_zero_bits(bits: u64) -> (r: bool)
    ensures
        r == f64_le_zero(bits),
{
    le_bits(bits, 0)
}

} // verus!
