//! Comparisons of IEEE-754 doubles given by their bit patterns.
//!
//! The library keeps recorded values and physical quantities as the 64-bit patterns of
//! the doubles that carry them and only ever compares them. IEEE-754 orders doubles
//! like this: NaN is unordered (every comparison with it is false), -0 equals +0, and
//! otherwise the order of the numbers is the order of the keys below.
use vstd::prelude::*;

verus! {

/// Sign bit of a double.
pub const SIGN_BIT: u64 = 0x8000_0000_0000_0000u64;

/// The double is a NaN: all exponent bits set and a non-zero mantissa (`f64::is_nan`).
pub open spec fn f64_is_nan(bits: u64) -> bool {
    (bits >> 52u64) & 0x7FFu64 == 0x7FFu64 && bits & 0xF_FFFF_FFFF_FFFFu64 != 0
}

/// An unsigned key whose order is the numeric order of non-NaN doubles (-0 and +0 share
/// a key): negative numbers have their bits inverted, other numbers get the sign bit set.
pub open spec fn f64_order_key(bits: u64) -> u64 {
    if bits == SIGN_BIT {
        SIGN_BIT
    } else if bits & SIGN_BIT != 0 {
        !bits
    } else {
        bits | SIGN_BIT
    }
}

/// `a < b` on doubles.
pub open spec fn f64_lt(a: u64, b: u64) -> bool {
    !f64_is_nan(a) && !f64_is_nan(b) && f64_order_key(a) < f64_order_key(b)
}

/// `a <= b` on doubles.
pub open spec fn f64_le(a: u64, b: u64) -> bool {
    !f64_is_nan(a) && !f64_is_nan(b) && f64_order_key(a) <= f64_order_key(b)
}

/// `a == b` on doubles: no NaN is equal to anything, and -0 equals +0.
pub open spec fn f64_eq(a: u64, b: u64) -> bool {
    !f64_is_nan(a) && !f64_is_nan(b) && f64_order_key(a) == f64_order_key(b)
}

/// `f64::max`: the larger of the two, ignoring a NaN argument (when exactly one is NaN
/// the other is returned; when both are, a NaN).
pub open spec fn f64_max_spec(a: u64, b: u64) -> u64 {
    if f64_is_nan(a) {
        b
    } else if f64_is_nan(b) {
        a
    } else if f64_lt(a, b) {
        b
    } else {
        a
    }
}

pub fn is_nan(bits: u64) -> (r: bool)
    ensures
        r == f64_is_nan(bits),
{
    (bits >> 52u64) & 0x7FFu64 == 0x7FFu64 && bits & 0xF_FFFF_FFFF_FFFFu64 != 0
}

pub fn order_key(bits: u64) -> (r: u64)
    ensures
        r == f64_order_key(bits),
{
    if bits == SIGN_BIT {
        SIGN_BIT
    } else if bits & SIGN_BIT != 0 {
        !bits
    } else {
        bits | SIGN_BIT
    }
}

/// `a < b` on doubles given by their bits.
pub fn lt(a: u64, b: u64) -> (r: bool)
    ensures
        r == f64_lt(a, b),
{
    !is_nan(a) && !is_nan(b) && order_key(a) < order_key(b)
}

/// `a <= b` on doubles given by their bits.
pub fn le(a: u64, b: u64) -> (r: bool)
    ensures
        r == f64_le(a, b),
{
    !is_nan(a) && !is_nan(b) && order_key(a) <= order_key(b)
}

/// `a == b` on doubles given by their bits.
pub fn eq(a: u64, b: u64) -> (r: bool)
    ensures
        r == f64_eq(a, b),
{
    !is_nan(a) && !is_nan(b) && order_key(a) == order_key(b)
}

/// `f64::max` on doubles given by their bits.
pub fn max(a: u64, b: u64) -> (r: u64)
    ensures
        r == f64_max_spec(a, b),
{
    if is_nan(a) {
        b
    } else if is_nan(b) {
        a
    } else if lt(a, b) {
        b
    } else {
        a
    }
}

} // verus!
