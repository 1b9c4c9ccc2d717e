//! Fixed-point sine and cosine.
//!
//! Angles are fixed-point radians.  An angle is first wrapped into
//! `(-pi, pi]`, then folded into `[-pi/2, pi/2]` by the half-angle
//! symmetries, and evaluated there with a Horner-form Taylor polynomial.
//! The result is clamped into `[-1, 1]`.  Every step is the exact
//! saturating fixed-point operation of `fixed`, so the functions below
//! are pinned by their spec-level mirrors.

use crate::fixed::{
    clip64, fx_add, fx_divi, fx_mul, fx_neg, fx_rem, fx_sub, spec_fx_add, spec_fx_divi,
    spec_fx_mul, spec_fx_neg, spec_fx_sub, FX_MAX, FX_MIN, FX_SCALE,
};
use vstd::prelude::*;

verus! {

/// Fixed-point pi.
pub const FX_PI: i64 = 3_141_592_654;

/// Fixed-point 2*pi.
pub const FX_TWO_PI: i64 = 6_283_185_307;

/// Fixed-point pi/2.
pub const FX_HALF_PI: i64 = 1_570_796_327;

/// Fixed-point pi/180, the radians in one degree.
pub const FX_RAD_PER_DEG: i64 = 17_453_293;

/// Fixed-point -1.
pub const FX_NEG_ONE: i64 = -1_000_000_000;

/// Wrap an angle into `(-pi, pi]` (up to the rounding of `FX_PI`).
pub open spec fn spec_wrap_angle(x: i64) -> i64 {
    let m = (x as int) % (FX_TWO_PI as int);
    if m > FX_PI {
        (m - FX_TWO_PI) as i64
    } else {
        m as i64
    }
}

/// Clamp a value into the fixed-point interval `[-1, 1]`.
pub open spec fn spec_clamp_unit(v: i64) -> i64 {
    if v > FX_SCALE {
        FX_SCALE
    } else if v < FX_NEG_ONE {
        FX_NEG_ONE
    } else {
        v
    }
}

/// Degree-13 Taylor polynomial of sine in Horner form, for arguments
/// near `[-pi/2, pi/2]`.
pub open spec fn spec_sin_poly(y: i64) -> i64 {
    let y2 = spec_fx_mul(y, y);
    let t6 = spec_fx_sub(FX_SCALE, spec_fx_divi(y2, 156));
    let t5 = spec_fx_sub(FX_SCALE, spec_fx_divi(spec_fx_mul(y2, t6), 110));
    let t4 = spec_fx_sub(FX_SCALE, spec_fx_divi(spec_fx_mul(y2, t5), 72));
    let t3 = spec_fx_sub(FX_SCALE, spec_fx_divi(spec_fx_mul(y2, t4), 42));
    let t2 = spec_fx_sub(FX_SCALE, spec_fx_divi(spec_fx_mul(y2, t3), 20));
    let t1 = spec_fx_sub(FX_SCALE, spec_fx_divi(spec_fx_mul(y2, t2), 6));
    spec_fx_mul(y, t1)
}

/// Degree-12 Taylor polynomial of cosine in Horner form, for arguments
/// near `[-pi/2, pi/2]`.
pub open spec fn spec_cos_poly(y: i64) -> i64 {
    let y2 = spec_fx_mul(y, y);
    let t6 = spec_fx_sub(FX_SCALE, spec_fx_divi(y2, 132));
    let t5 = spec_fx_sub(FX_SCALE, spec_fx_divi(spec_fx_mul(y2, t6), 90));
    let t4 = spec_fx_sub(FX_SCALE, spec_fx_divi(spec_fx_mul(y2, t5), 56));
    let t3 = spec_fx_sub(FX_SCALE, spec_fx_divi(spec_fx_mul(y2, t4), 30));
    let t2 = spec_fx_sub(FX_SCALE, spec_fx_divi(spec_fx_mul(y2, t3), 12));
    spec_fx_sub(FX_SCALE, spec_fx_divi(spec_fx_mul(y2, t2), 2))
}

/// Fixed-point sine of a fixed-point angle in radians.
#[verifier::opaque]
pub open spec fn spec_sin(x: i64) -> i64 {
    let m = spec_wrap_angle(x);
    let v = if m > FX_HALF_PI {
        spec_sin_poly(spec_fx_sub(FX_PI, m))
    } else if m < -FX_HALF_PI {
        spec_fx_neg(spec_sin_poly(spec_fx_add(FX_PI, m)))
    } else {
        spec_sin_poly(m)
    };
    spec_clamp_unit(v)
}

/// Fixed-point cosine of a fixed-point angle in radians.
#[verifier::opaque]
pub open spec fn spec_cos(x: i64) -> i64 {
    let m = spec_wrap_angle(x);
    let v = if m > FX_HALF_PI {
        spec_fx_neg(spec_cos_poly(spec_fx_sub(FX_PI, m)))
    } else if m < -FX_HALF_PI {
        spec_fx_neg(spec_cos_poly(spec_fx_add(FX_PI, m)))
    } else {
        spec_cos_poly(m)
    };
    spec_clamp_unit(v)
}

/// Fixed-point radians of a fixed-point angle in degrees.
pub open spec fn spec_to_radians(deg: i64) -> i64 {
    spec_fx_mul(deg, FX_RAD_PER_DEG)
}

fn wrap_angle(x: i64) -> (m: i64)
    ensures
        m == spec_wrap_angle(x),
        -FX_TWO_PI <= m <= FX_PI,
{
    let m0 = fx_rem(x, FX_TWO_PI);
    if m0 > FX_PI {
        m0 - FX_TWO_PI
    } else {
        m0
    }
}

fn clamp_unit(v: i64) -> (r: i64)
    ensures
        r == spec_clamp_unit(v),
{
    if v > FX_SCALE {
        FX_SCALE
    } else if v < FX_NEG_ONE {
        FX_NEG_ONE
    } else {
        v
    }
}

fn sin_poly(y: i64) -> (r: i64)
    ensures
        r == spec_sin_poly(y),
{
    let y2 = fx_mul(y, y);
    let t6 = fx_sub(FX_SCALE, fx_divi(y2, 156));
    let t5 = fx_sub(FX_SCALE, fx_divi(fx_mul(y2, t6), 110));
    let t4 = fx_sub(FX_SCALE, fx_divi(fx_mul(y2, t5), 72));
    let t3 = fx_sub(FX_SCALE, fx_divi(fx_mul(y2, t4), 42));
    let t2 = fx_sub(FX_SCALE, fx_divi(fx_mul(y2, t3), 20));
    let t1 = fx_sub(FX_SCALE, fx_divi(fx_mul(y2, t2), 6));
    fx_mul(y, t1)
}

fn cos_poly(y: i64) -> (r: i64)
    ensures
        r == spec_cos_poly(y),
{
    let y2 = fx_mul(y, y);
    let t6 = fx_sub(FX_SCALE, fx_divi(y2, 132));
    let t5 = fx_sub(FX_SCALE, fx_divi(fx_mul(y2, t6), 90));
    let t4 = fx_sub(FX_SCALE, fx_divi(fx_mul(y2, t5), 56));
    let t3 = fx_sub(FX_SCALE, fx_divi(fx_mul(y2, t4), 30));
    let t2 = fx_sub(FX_SCALE, fx_divi(fx_mul(y2, t3), 12));
    fx_sub(FX_SCALE, fx_divi(fx_mul(y2, t2), 2))
}

/// Fixed-point sine; the result is clamped into `[-1, 1]`.
pub fn fx_sin(x: i64) -> (r: i64)
    ensures
        r == spec_sin(x),
        FX_NEG_ONE <= r <= FX_SCALE,
{
    proof {
        reveal(spec_sin);
    }
    let m = wrap_angle(x);
    let v = if m > FX_HALF_PI {
        sin_poly(fx_sub(FX_PI, m))
    } else if m < -FX_HALF_PI {
        fx_neg(sin_poly(fx_add(FX_PI, m)))
    } else {
        sin_poly(m)
    };
    clamp_unit(v)
}

/// Fixed-point cosine; the result is clamped into `[-1, 1]`.
pub fn fx_cos(x: i64) -> (r: i64)
    ensures
        r == spec_cos(x),
        FX_NEG_ONE <= r <= FX_SCALE,
{
    proof {
        reveal(spec_cos);
    }
    let m = wrap_angle(x);
    let v = if m > FX_HALF_PI {
        fx_neg(cos_poly(fx_sub(FX_PI, m)))
    } else if m < -FX_HALF_PI {
        fx_neg(cos_poly(fx_add(FX_PI, m)))
    } else {
        cos_poly(m)
    };
    clamp_unit(v)
}

/// Fixed-point radians of a fixed-point angle in degrees.
pub fn fx_to_radians(deg: i64) -> (r: i64)
    ensures
        r == spec_to_radians(deg),
        FX_MIN <= r <= FX_MAX,
{
    fx_mul(deg, FX_RAD_PER_DEG)
}

/// The sine of angle zero is exactly zero.
pub proof fn lemma_sin_zero()
    ensures
        spec_sin(0) == 0,
{
    reveal(spec_sin);
    assert(spec_wrap_angle(0) == 0);
    assert(spec_sin_poly(0) == 0);
    assert(spec_sin(0) == 0);
}

/// The cosine of angle zero is exactly one.
pub proof fn lemma_cos_zero()
    ensures
        spec_cos(0) == FX_SCALE,
{
    reveal(spec_cos);
    assert(spec_wrap_angle(0) == 0);
    assert(spec_cos_poly(0) == FX_SCALE);
    assert(spec_cos(0) == FX_SCALE);
}

} // verus!
