//! Saturating fixed-point arithmetic.
//!
//! A real value is stored in an `i64` scaled by [`FP_SCALE`]: the stored
//! number `v` stands for the real `v / FP_SCALE`. All operations saturate at
//! [`FP_MAX`] in magnitude, so every value the engine ever holds stays inside
//! `[-FP_MAX, FP_MAX]` and no arithmetic can overflow.

use vstd::prelude::*;

verus! {

/// One whole unit: the stored value `FP_SCALE` stands for the real `1.0`.
pub const FP_SCALE: i64 = 65536;

/// Magnitude at which every operation saturates.
pub const FP_MAX: i64 = 0x100_0000_0000;

/// A stored value that the engine may hold.
pub open spec fn fp_in_range(v: int) -> bool {
    -FP_MAX <= v <= FP_MAX
}

/// Saturation of an unbounded intermediate result.
pub open spec fn fp_clamp_spec(v: int) -> int {
    if v > FP_MAX as int {
        FP_MAX as int
    } else if v < -(FP_MAX as int) {
        -(FP_MAX as int)
    } else {
        v
    }
}

/// Saturating addition of two stored values.
pub open spec fn fp_add_spec(a: int, b: int) -> int {
    fp_clamp_spec(a + b)
}

/// Truncating division of a product by `FP_SCALE`, computed on magnitudes so
/// that the result rounds toward zero.
pub open spec fn fp_mul_spec(a: int, b: int) -> int {
    let m = (abs_spec(a) * abs_spec(b)) / (FP_SCALE as int);
    if (a < 0) != (b < 0) {
        fp_clamp_spec(-m)
    } else {
        fp_clamp_spec(m)
    }
}

/// Magnitude of a value.
pub open spec fn abs_spec(v: int) -> int {
    if v < 0 {
        -v
    } else {
        v
    }
}

/// Saturated magnitude of a difference of two stored values.
pub open spec fn fp_abs_diff_spec(a: int, b: int) -> int {
    fp_clamp_spec(abs_spec(a - b))
}

pub fn fp_clamp(v: i128) -> (r: i64)
    ensures
        r == fp_clamp_spec(v as int),
        fp_in_range(r as int),
{
    if v > FP_MAX as i128 {
        FP_MAX
    } else if v < -(FP_MAX as i128) {
        -FP_MAX
    } else {
        v as i64
    }
}

pub fn fp_add(a: i64, b: i64) -> (r: i64)
    requires
        fp_in_range(a as int),
        fp_in_range(b as int),
    ensures
        r == fp_add_spec(a as int, b as int),
        fp_in_range(r as int),
{
    fp_clamp(a as i128 + b as i128)
}

pub fn fp_mul(a: i64, b: i64) -> (r: i64)
    requires
        fp_in_range(a as int),
        fp_in_range(b as int),
    ensures
        r == fp_mul_spec(a as int, b as int),
        fp_in_range(r as int),
{
    let ma: u128 = if a < 0 { (-a) as u128 } else { a as u128 };
    let mb: u128 = if b < 0 { (-b) as u128 } else { b as u128 };
    assert(ma * mb <= 0x100_0000_0000 * 0x100_0000_0000) by (nonlinear_arith)
        requires
            ma <= 0x100_0000_0000,
            mb <= 0x100_0000_0000,
    ;
    let m: u128 = (ma * mb) / (FP_SCALE as u128);
    assert(ma as int == abs_spec(a as int));
    assert(mb as int == abs_spec(b as int));
    assert(m as int == (abs_spec(a as int) * abs_spec(b as int)) / (FP_SCALE as int));
    if (a < 0) != (b < 0) {
        fp_clamp(-(m as i128))
    } else {
        fp_clamp(m as i128)
    }
}

pub fn fp_abs_diff(a: i64, b: i64) -> (r: i64)
    requires
        fp_in_range(a as int),
        fp_in_range(b as int),
    ensures
        r == fp_abs_diff_spec(a as int, b as int),
        0 <= r <= FP_MAX,
{
    let d: i128 = a as i128 - b as i128;
    let m: i128 = if d < 0 { -d } else { d };
    fp_clamp(m)
}

} // verus!
