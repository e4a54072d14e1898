//! Floating-point values as the bit patterns that hold them.
//!
//! Coordinates, colours and settings pass through this library as the bits of
//! an IEEE 754 value. Order and finiteness are read from the bits; arithmetic
//! belongs to the caller.

use vstd::prelude::*;

verus! {

/// A point in world space: the bits of three `f64`.
#[derive(Clone, Copy, PartialEq, Eq, Structural, Debug)]
pub struct Point3 {
    pub x: u64,
    pub y: u64,
    pub z: u64,
}

/// A point on the screen: the bits of two `f32`.
#[derive(Clone, Copy, PartialEq, Eq, Structural, Debug)]
pub struct ScreenPoint {
    pub x: u32,
    pub y: u32,
}

/// The bits of positive infinity as `f64`.
pub const F64_INFINITY: u64 = 0x7ff0_0000_0000_0000;

/// The sign bit of an `f64`.
pub const F64_SIGN: u64 = 0x8000_0000_0000_0000;

/// The bits of `f64::EPSILON`.
pub const F64_EPSILON: u64 = 0x3cb0_0000_0000_0000;

/// The bits of `f64::NAN`.
pub const F64_NAN: u64 = 0x7ff8_0000_0000_0000;

/// The bits of positive infinity as `f32`.
pub const F32_INFINITY: u32 = 0x7f80_0000;

/// The sign bit of an `f32`.
pub const F32_SIGN: u32 = 0x8000_0000;

/// The bits of the magnitude of an `f64`: its sign bit cleared.
pub open spec fn f64_magnitude(bits: u64) -> u64 {
    if bits >= F64_SIGN {
        (bits - F64_SIGN) as u64
    } else {
        bits
    }
}

/// The bits of the magnitude of an `f32`: its sign bit cleared.
pub open spec fn f32_magnitude(bits: u32) -> u32 {
    if bits >= F32_SIGN {
        (bits - F32_SIGN) as u32
    } else {
        bits
    }
}

/// Whether an `f64` is not a number.
pub open spec fn f64_nan(bits: u64) -> bool {
    f64_magnitude(bits) > F64_INFINITY
}

/// Whether an `f32` is not a number.
pub open spec fn f32_nan(bits: u32) -> bool {
    f32_magnitude(bits) > F32_INFINITY
}

/// Where an `f64` that is a number stands among its fellows: of two numbers
/// the smaller has the smaller key, and the two zeroes share one.
pub open spec fn f64_key(bits: u64) -> int {
    if bits >= F64_SIGN {
        -(f64_magnitude(bits) as int)
    } else {
        bits as int
    }
}

/// Where an `f64` stands among all of them: zero with a sign comes before zero
/// without.
pub open spec fn total_place(bits: u64) -> int {
    if bits >= F64_SIGN {
        -(f64_magnitude(bits) as int) - 1
    } else {
        bits as int
    }
}

/// Where an `f32` that is a number stands among its fellows.
pub open spec fn f32_key(bits: u32) -> int {
    if bits >= F32_SIGN {
        -(f32_magnitude(bits) as int)
    } else {
        bits as int
    }
}

/// Whether an `f64` is neither infinite nor not a number.
pub open spec fn f64_finite(bits: u64) -> bool {
    f64_magnitude(bits) < F64_INFINITY
}

/// Whether an `f32` is neither infinite nor not a number.
pub open spec fn f32_finite(bits: u32) -> bool {
    f32_magnitude(bits) < F32_INFINITY
}

/// `a < b` on `f64` values: false where either is not a number.
pub open spec fn f64_less(a: u64, b: u64) -> bool {
    !f64_nan(a) && !f64_nan(b) && f64_key(a) < f64_key(b)
}

/// `a < b` on `f32` values: false where either is not a number.
pub open spec fn f32_less(a: u32, b: u32) -> bool {
    !f32_nan(a) && !f32_nan(b) && f32_key(a) < f32_key(b)
}

/// `a == b` on `f64` values.
pub open spec fn f64_equal(a: u64, b: u64) -> bool {
    !f64_nan(a) && !f64_nan(b) && f64_key(a) == f64_key(b)
}

/// `a == b` on `f32` values.
pub open spec fn f32_equal(a: u32, b: u32) -> bool {
    !f32_nan(a) && !f32_nan(b) && f32_key(a) == f32_key(b)
}

/// The bits of the magnitude of an `f64`.
pub fn magnitude64(bits: u64) -> (r: u64)
    ensures
        r == f64_magnitude(bits),
{
    if bits >= F64_SIGN {
        bits - F64_SIGN
    } else {
        bits
    }
}

/// Where an `f64` stands among all of them.
pub fn find_total_place(bits: u64) -> (r: i64)
    ensures
        r == total_place(bits),
{
    if bits >= F64_SIGN {
        -(magnitude64(bits) as i64) - 1
    } else {
        bits as i64
    }
}

/// The bits of the magnitude of an `f32`.
pub fn magnitude32(bits: u32) -> (r: u32)
    ensures
        r == f32_magnitude(bits),
{
    if bits >= F32_SIGN {
        bits - F32_SIGN
    } else {
        bits
    }
}

/// Whether an `f64` is neither infinite nor not a number.
pub fn finite64(bits: u64) -> (r: bool)
    ensures
        r == f64_finite(bits),
{
    magnitude64(bits) < F64_INFINITY
}

/// Whether an `f32` is neither infinite nor not a number.
pub fn finite32(bits: u32) -> (r: bool)
    ensures
        r == f32_finite(bits),
{
    magnitude32(bits) < F32_INFINITY
}

/// `a < b` on `f64` values.
pub fn less64(a: u64, b: u64) -> (r: bool)
    ensures
        r == f64_less(a, b),
{
    let ma: u64 = magnitude64(a);
    let mb: u64 = magnitude64(b);
    if ma > F64_INFINITY || mb > F64_INFINITY {
        false
    } else if a >= F64_SIGN {
        if b >= F64_SIGN {
            ma > mb
        } else {
            ma > 0 || mb > 0
        }
    } else {
        b < F64_SIGN && ma < mb
    }
}

/// `a < b` on `f32` values.
pub fn less32(a: u32, b: u32) -> (r: bool)
    ensures
        r == f32_less(a, b),
{
    let ma: u32 = magnitude32(a);
    let mb: u32 = magnitude32(b);
    if ma > F32_INFINITY || mb > F32_INFINITY {
        false
    } else if a >= F32_SIGN {
        if b >= F32_SIGN {
            ma > mb
        } else {
            ma > 0 || mb > 0
        }
    } else {
        b < F32_SIGN && ma < mb
    }
}

/// `a == b` on `f64` values.
pub fn equal64(a: u64, b: u64) -> (r: bool)
    ensures
        r == f64_equal(a, b),
{
    let ma: u64 = magnitude64(a);
    let mb: u64 = magnitude64(b);
    ma <= F64_INFINITY && ma == mb && (a == b || ma == 0)
}

/// `a == b` on `f32` values.
pub fn equal32(a: u32, b: u32) -> (r: bool)
    ensures
        r == f32_equal(a, b),
{
    let ma: u32 = magnitude32(a);
    let mb: u32 = magnitude32(b);
    ma <= F32_INFINITY && ma == mb && (a == b || ma == 0)
}

/// Smaller is transitive, and no number is smaller than itself.
pub proof fn law_order(a: u64, b: u64, c: u64)
    ensures
        !f64_less(a, a),
        f64_less(a, b) && f64_less(b, c) ==> f64_less(a, c),
        !f64_nan(a) && !f64_nan(b) ==> f64_less(a, b) || f64_less(b, a) || f64_equal(a, b),
{
}

/// One number is no greater than another; no number compares with what is none.
pub open spec fn f64_at_most(a: u64, b: u64) -> bool {
    !f64_nan(a) && !f64_nan(b) && !f64_less(b, a)
}

/// Whether one number is no greater than another.
pub fn at_most(a: u64, b: u64) -> (r: bool)
    ensures
        r == f64_at_most(a, b),
{
    magnitude64(a) <= F64_INFINITY && magnitude64(b) <= F64_INFINITY && !less64(b, a)
}

/// The number with the other sign.
pub open spec fn negated(bits: u64) -> u64 {
    if bits >= F64_SIGN {
        (bits - F64_SIGN) as u64
    } else {
        (bits + F64_SIGN) as u64
    }
}

/// The number with the other sign.
pub fn negate(bits: u64) -> (r: u64)
    ensures
        r == negated(bits),
{
    if bits >= F64_SIGN {
        bits - F64_SIGN
    } else {
        bits + F64_SIGN
    }
}

/// The number 1.
pub const F64_ONE: u64 = 0x3ff0_0000_0000_0000;

} // verus!
