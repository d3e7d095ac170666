//! Fixed-point scalars.
//!
//! A value of 1.0 is `FX_ONE` units; all arithmetic is exact integer
//! arithmetic on the scaled representation, with products rounded toward
//! zero and every result clipped to the symmetric range
//! `[FX_MIN, FX_MAX]`.

use vstd::prelude::*;

verus! {

/// Number of fixed-point units that stand for 1.0.
pub const FX_ONE: i64 = 65536;

/// Largest representable fixed-point value; results clip here.
pub const FX_MAX: i64 = 0x7fff_ffff_ffff_ffff;

/// Smallest representable fixed-point value (symmetric range).
pub const FX_MIN: i64 = -0x7fff_ffff_ffff_ffff;

/// An ideal result, clipped to the representable range.
pub open spec fn fx_clip(x: int) -> int {
    if x > FX_MAX as int {
        FX_MAX as int
    } else if x < FX_MIN as int {
        FX_MIN as int
    } else {
        x
    }
}

/// Fixed-point sum.
pub open spec fn fx_add(a: int, b: int) -> int {
    fx_clip(a + b)
}

/// Fixed-point difference.
pub open spec fn fx_sub(a: int, b: int) -> int {
    fx_clip(a - b)
}

/// Drop the extra scale factor after a raw product, rounding toward zero.
pub open spec fn fx_rescale(p: int) -> int {
    if p >= 0 {
        p / (FX_ONE as int)
    } else {
        -((-p) / (FX_ONE as int))
    }
}

/// Fixed-point product.
pub open spec fn fx_mul(a: int, b: int) -> int {
    fx_clip(fx_rescale(a * b))
}

/// Rectified linear unit: `max(0, x)`.
pub open spec fn fx_relu(x: int) -> int {
    if x > 0 {
        x
    } else {
        0
    }
}

/// Derivative of the rectified linear unit, as a fixed-point factor:
/// 1.0 where the activation is positive, 0.0 elsewhere.
pub open spec fn fx_relu_deriv(x: int) -> int {
    if x > 0 {
        FX_ONE as int
    } else {
        0
    }
}

fn clip_i128(x: i128) -> (r: i64)
    ensures
        r as int == fx_clip(x as int),
{
    if x > FX_MAX as i128 {
        FX_MAX
    } else if x < FX_MIN as i128 {
        FX_MIN
    } else {
        x as i64
    }
}

/// Clipped fixed-point addition.
pub fn add_fx(a: i64, b: i64) -> (r: i64)
    ensures
        r as int == fx_add(a as int, b as int),
{
    clip_i128(a as i128 + b as i128)
}

/// Clipped fixed-point subtraction.
pub fn sub_fx(a: i64, b: i64) -> (r: i64)
    ensures
        r as int == fx_sub(a as int, b as int),
{
    clip_i128(a as i128 - b as i128)
}

fn rescale_i128(p: i128) -> (q: i128)
    requires
        p as int > -0x8000_0000_0000_0000_0000_0000_0000_0000,
    ensures
        q as int == fx_rescale(p as int),
{
    if p >= 0 {
        let m: u128 = p as u128;
        let q: u128 = m / (FX_ONE as u128);
        assert(q <= m) by (nonlinear_arith)
            requires
                q == m as int / (FX_ONE as int),
                m >= 0,
        ;
        q as i128
    } else {
        let m: u128 = (-p) as u128;
        let q: u128 = m / (FX_ONE as u128);
        assert(q <= m) by (nonlinear_arith)
            requires
                q == m as int / (FX_ONE as int),
                m >= 0,
        ;
        -(q as i128)
    }
}

/// Clipped fixed-point multiplication, rounded toward zero.
pub fn mul_fx(a: i64, b: i64) -> (r: i64)
    ensures
        r as int == fx_mul(a as int, b as int),
{
    proof {
        assert((a as int) * (b as int) < 0x8000_0000_0000_0000_0000_0000_0000_0000
            && (a as int) * (b as int) > -0x8000_0000_0000_0000_0000_0000_0000_0000)
            by (nonlinear_arith)
            requires
                -0x8000_0000_0000_0000 <= a as int <= 0x7fff_ffff_ffff_ffff,
                -0x8000_0000_0000_0000 <= b as int <= 0x7fff_ffff_ffff_ffff,
        ;
    }
    let p: i128 = (a as i128) * (b as i128);
    clip_i128(rescale_i128(p))
}

/// Rectified linear unit on a fixed-point scalar.
pub fn relu_fx(x: i64) -> (r: i64)
    ensures
        r as int == fx_relu(x as int),
{
    if x > 0 {
        x
    } else {
        0
    }
}

/// Derivative factor of the rectified linear unit on a fixed-point scalar.
pub fn relu_deriv_fx(x: i64) -> (r: i64)
    ensures
        r as int == fx_relu_deriv(x as int),
{
    if x > 0 {
        FX_ONE
    } else {
        0
    }
}

} // verus!
