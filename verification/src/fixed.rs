//! Fixed-point arithmetic shared by tweens, clocks and playback.
//!
//! A value `v` stands for the real number `v / ONE`. Seconds use the same
//! scale, so a duration is a count of microseconds.

use vstd::prelude::*;

verus! {

/// The fixed-point representation of `1.0`.
pub const ONE: u64 = 1_000_000;

/// `floor(a * b / d)` over the mathematical integers.
pub open spec fn mul_div(a: int, b: int, d: int) -> int {
    (a * b) / d
}

/// Scaling by a fraction that does not exceed one never grows a quantity,
/// and scaling by the whole fraction gives it back.
pub proof fn lemma_mul_div_bounds(a: int, b: int, d: int)
    requires
        0 <= a,
        0 <= b <= d,
        0 < d,
    ensures
        0 <= mul_div(a, b, d) <= a,
        mul_div(a, 0, d) == 0,
        mul_div(a, d, d) == a,
{
    assert(0 <= (a * b) / d <= a) by (nonlinear_arith)
        requires
            0 <= a,
            0 <= b <= d,
            0 < d,
    ;
    assert((a * 0) / d == 0) by (nonlinear_arith)
        requires
            0 < d,
    ;
    assert((a * d) / d == a) by (nonlinear_arith)
        requires
            0 < d,
    ;
}

/// Scaling is monotonic in the fraction.
pub proof fn lemma_mul_div_monotonic(a: int, b1: int, b2: int, d: int)
    requires
        0 <= a,
        0 <= b1 <= b2,
        0 < d,
    ensures
        mul_div(a, b1, d) <= mul_div(a, b2, d),
{
    assert((a * b1) / d <= (a * b2) / d) by (nonlinear_arith)
        requires
            0 <= a,
            0 <= b1 <= b2,
            0 < d,
    ;
}

/// Computes `floor(a * b / d)` for a fraction `b / d` that does not exceed one.
pub fn scale(a: u64, b: u64, d: u64) -> (r: u64)
    requires
        b <= d,
        0 < d,
    ensures
        r == mul_div(a as int, b as int, d as int),
        r <= a,
    no_unwind
{
    proof {
        lemma_mul_div_bounds(a as int, b as int, d as int);
        assert(a * b <= u64::MAX * u64::MAX) by (nonlinear_arith)
            requires
                0 <= a <= u64::MAX,
                0 <= b <= u64::MAX,
        ;
    }
    let wide: u128 = (a as u128) * (b as u128);
    let q: u128 = wide / (d as u128);
    q as u64
}

/// `a * b / d` rounded towards zero.
pub open spec fn signed_mul_div(a: int, b: int, d: int) -> int {
    if a >= 0 {
        mul_div(a, b, d)
    } else {
        -mul_div(-a, b, d)
    }
}

/// The 64-bit signed number nearest to `x`.
pub open spec fn clamp_i64(x: int) -> int {
    if x < i64::MIN {
        i64::MIN as int
    } else if x > i64::MAX {
        i64::MAX as int
    } else {
        x
    }
}

/// The difference of `a` and `b`, kept within the 64-bit signed numbers.
pub fn sub_clamped(a: i64, b: i64) -> (r: i64)
    ensures
        r == clamp_i64(a - b),
{
    let difference: i128 = a as i128 - b as i128;
    if difference < i64::MIN as i128 {
        i64::MIN
    } else if difference > i64::MAX as i128 {
        i64::MAX
    } else {
        difference as i64
    }
}

/// The sum of `a` and `b`, kept within the 64-bit signed numbers.
pub fn add_clamped(a: i64, b: i64) -> (r: i64)
    ensures
        r == clamp_i64(a + b),
    no_unwind
{
    let sum: i128 = a as i128 + b as i128;
    if sum < i64::MIN as i128 {
        i64::MIN
    } else if sum > i64::MAX as i128 {
        i64::MAX
    } else {
        sum as i64
    }
}

/// Computes `a * b / d`, rounded towards zero, for a fraction `b / d` that
/// does not exceed one.
pub fn scale_signed(a: i64, b: u64, d: u64) -> (r: i64)
    requires
        b <= d,
        0 < d,
    ensures
        r == signed_mul_div(a as int, b as int, d as int),
{
    if a >= 0 {
        let part: u64 = scale(a as u64, b, d);
        part as i64
    } else {
        let size: u64 = (-(a as i128)) as u64;
        let part: u64 = scale(size, b, d);
        (-(part as i128)) as i64
    }
}

/// The way made in `dt` microseconds at the fixed-point rate `rate`,
/// backwards if `backwards`.
pub open spec fn way(rate: int, dt: int, backwards: bool) -> int {
    if backwards {
        -signed_mul_div(rate, dt, ONE as int)
    } else {
        signed_mul_div(rate, dt, ONE as int)
    }
}

/// The position reached from `position` after `dt` microseconds at the
/// fixed-point rate `rate`, kept within the 64-bit signed numbers.
pub fn travel(position: i64, rate: i64, dt: u64, backwards: bool) -> (r: i64)
    ensures
        r == clamp_i64(position + way(rate as int, dt as int, backwards)),
{
    let size: u128 = if rate >= 0 {
        rate as u128
    } else {
        (-(rate as i128)) as u128
    };
    assert(size * dt <= 0x8000_0000_0000_0000 * 0xffff_ffff_ffff_ffff) by (nonlinear_arith)
        requires
            0 <= size <= 0x8000_0000_0000_0000,
            0 <= dt <= 0xffff_ffff_ffff_ffff,
    ;
    let made: u128 = size * (dt as u128) / (ONE as u128);
    assert(made <= 0x8000_0000_0000_0000 * 0xffff_ffff_ffff_ffff);
    let forwards: bool = (rate >= 0) != backwards;
    let moved: i128 = if forwards {
        position as i128 + made as i128
    } else {
        position as i128 - made as i128
    };
    if moved < i64::MIN as i128 {
        i64::MIN
    } else if moved > i64::MAX as i128 {
        i64::MAX
    } else {
        moved as i64
    }
}

/// The fixed-point number nearest to `x` between zero and one.
pub fn clamp_unit(x: i64) -> (r: u64)
    ensures
        r == unit_part(x as int),
        r <= ONE,
    no_unwind
{
    if x < 0 {
        0
    } else if x as u64 > ONE {
        ONE
    } else {
        x as u64
    }
}

/// The fixed-point number nearest to `x` between zero and one.
pub open spec fn unit_part(x: int) -> int {
    if x < 0 {
        0
    } else if x > ONE {
        ONE as int
    } else {
        x
    }
}

/// The product of two fixed-point numbers, rounded towards zero and kept
/// within the 64-bit signed numbers.
pub open spec fn fixed_mul(a: int, b: int) -> int {
    let product = a * b;
    clamp_i64(
        if product >= 0 {
            product / (ONE as int)
        } else {
            -((-product) / (ONE as int))
        },
    )
}

/// Multiplies two fixed-point numbers.
pub fn times(a: i64, b: i64) -> (r: i64)
    ensures
        r == fixed_mul(a as int, b as int),
    no_unwind
{
    assert(-0x4000_0000_0000_0000_0000_0000_0000_0000 <= a * b
        <= 0x4000_0000_0000_0000_0000_0000_0000_0000) by (nonlinear_arith)
        requires
            -0x8000_0000_0000_0000 <= a <= 0x8000_0000_0000_0000,
            -0x8000_0000_0000_0000 <= b <= 0x8000_0000_0000_0000,
    ;
    let product: i128 = (a as i128) * (b as i128);
    let quotient: i128 = if product >= 0 {
        ((product as u128) / (ONE as u128)) as i128
    } else {
        -((((-product) as u128) / (ONE as u128)) as i128)
    };
    if quotient < i64::MIN as i128 {
        i64::MIN
    } else if quotient > i64::MAX as i128 {
        i64::MAX
    } else {
        quotient as i64
    }
}

} // verus!
