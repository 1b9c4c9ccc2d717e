//! Saturating fixed-point scalar arithmetic over `i64`.
//!
//! A scalar carries nine fractional decimal digits: the raw value `r`
//! stands for the real number `r / FX_SCALE`.  Every operation rounds
//! with floor division and saturates at `FX_MAX` / `FX_MIN`, so all
//! operations are total and their results are pinned exactly.

use vstd::arithmetic::div_mod::{lemma_fundamental_div_mod, lemma_mod_bound};
use vstd::prelude::*;

verus! {

/// Number of raw units in 1.0: nine fractional decimal digits.
pub const FX_SCALE: i64 = 1_000_000_000;

/// Largest representable raw value (2^62 - 1); results saturate here.
pub const FX_MAX: i64 = 4_611_686_018_427_387_903;

/// Smallest representable raw value; results saturate here.
pub const FX_MIN: i64 = -4_611_686_018_427_387_903;

/// Saturate an unbounded integer into the representable range.
pub open spec fn clip64(x: int) -> i64 {
    if x > FX_MAX {
        FX_MAX
    } else if x < FX_MIN {
        FX_MIN
    } else {
        x as i64
    }
}

/// Saturating fixed-point sum.
pub open spec fn spec_fx_add(a: i64, b: i64) -> i64 {
    clip64(a + b)
}

/// Saturating fixed-point difference.
pub open spec fn spec_fx_sub(a: i64, b: i64) -> i64 {
    clip64(a - b)
}

/// Saturating fixed-point negation.
pub open spec fn spec_fx_neg(a: i64) -> i64 {
    clip64(-a)
}

/// Saturating fixed-point product: floor of the exact product.
pub open spec fn spec_fx_mul(a: i64, b: i64) -> i64 {
    clip64((a * b) / (FX_SCALE as int))
}

/// Saturating fixed-point quotient, for a positive raw divisor.
pub open spec fn spec_fx_div(a: i64, b: i64) -> i64 {
    clip64((a * FX_SCALE) / (b as int))
}

/// Saturating division by a plain (unscaled) positive integer.
pub open spec fn spec_fx_divi(a: i64, k: i64) -> i64 {
    clip64((a as int) / (k as int))
}

/// `r` is the floor of the square root of `n`.
pub open spec fn is_isqrt(n: int, r: int) -> bool {
    0 <= r && r * r <= n && n < (r + 1) * (r + 1)
}

/// Floor of the square root of a nonnegative integer.
pub open spec fn sqrt_floor(n: int) -> int {
    choose|r: int| is_isqrt(n, r)
}

/// Saturating fixed-point magnitude of the pair `(a, b)`:
/// floor square root of the exact sum of squares.
pub open spec fn spec_fx_hypot(a: i64, b: i64) -> i64 {
    clip64(sqrt_floor(a * a + b * b))
}

/// Bounds of Euclidean division by a positive divisor: the quotient
/// lies between the dividend and zero.
pub proof fn lemma_ediv_bounds(x: int, d: int)
    requires
        1 <= d,
    ensures
        0 <= x ==> 0 <= x / d <= x,
        x < 0 ==> x <= x / d <= 0,
{
    lemma_fundamental_div_mod(x, d);
    lemma_mod_bound(x, d);
    let q = x / d;
    let r = x % d;
    assert((0 <= x ==> 0 <= q <= x) && (x < 0 ==> x <= q <= 0)) by (nonlinear_arith)
        requires
            x == d * q + r,
            0 <= r < d,
            1 <= d,
    ;
}

/// Product bound: factors bounded by `m` give a product bounded by `m * m`.
pub proof fn lemma_mul_bounds(a: int, b: int, m: int)
    requires
        -m <= a <= m,
        -m <= b <= m,
        0 <= m,
    ensures
        -(m * m) <= a * b <= m * m,
        0 <= a * a,
{
    assert(-(m * m) <= a * b <= m * m && 0 <= a * a) by (nonlinear_arith)
        requires
            -m <= a <= m,
            -m <= b <= m,
            0 <= m,
    ;
}

/// Product bound with one bound for each factor.
pub proof fn lemma_mul_bounds2(a: int, b: int, ma: int, mb: int)
    requires
        -ma <= a <= ma,
        -mb <= b <= mb,
        0 <= ma,
        0 <= mb,
    ensures
        -(ma * mb) <= a * b <= ma * mb,
{
    assert(-(ma * mb) <= a * b <= ma * mb) by (nonlinear_arith)
        requires
            -ma <= a <= ma,
            -mb <= b <= mb,
            0 <= ma,
            0 <= mb,
    ;
}

/// A product of two factors within one unit stays within one unit.
pub proof fn lemma_fx_mul_unit(a: i64, b: i64)
    requires
        -FX_SCALE <= a <= FX_SCALE,
        -FX_SCALE <= b <= FX_SCALE,
    ensures
        -FX_SCALE <= spec_fx_mul(a, b) <= FX_SCALE,
{
    lemma_mul_bounds(a as int, b as int, FX_SCALE as int);
    vstd::arithmetic::div_mod::lemma_div_is_ordered(
        a * b,
        (FX_SCALE as int) * (FX_SCALE as int),
        FX_SCALE as int,
    );
    vstd::arithmetic::div_mod::lemma_div_is_ordered(
        -((FX_SCALE as int) * (FX_SCALE as int)),
        a * b,
        FX_SCALE as int,
    );
    assert(((FX_SCALE as int) * (FX_SCALE as int)) / (FX_SCALE as int) == FX_SCALE);
    assert((-((FX_SCALE as int) * (FX_SCALE as int))) / (FX_SCALE as int) == -(FX_SCALE as int));
}

/// Every nonnegative integer has a floor square root.
pub proof fn lemma_isqrt_exists(n: int)
    requires
        0 <= n,
    ensures
        exists|r: int| is_isqrt(n, r),
        is_isqrt(n, sqrt_floor(n)),
    decreases n,
{
    if n == 0 {
        assert(is_isqrt(0, 0));
    } else {
        lemma_isqrt_exists(n - 1);
        let r = choose|r: int| #[trigger] is_isqrt(n - 1, r);
        if (r + 1) * (r + 1) <= n {
            assert(is_isqrt(n, r + 1)) by (nonlinear_arith)
                requires
                    0 <= r,
                    r * r <= n - 1,
                    n - 1 < (r + 1) * (r + 1),
                    (r + 1) * (r + 1) <= n,
            ;
        } else {
            assert(is_isqrt(n, r));
        }
    }
}

/// The floor square root is unique.
pub proof fn lemma_sqrt_floor_unique(n: int, r: int)
    requires
        is_isqrt(n, r),
    ensures
        sqrt_floor(n) == r,
{
    assert(exists|q: int| is_isqrt(n, q));
    let rr = sqrt_floor(n);
    assert(is_isqrt(n, rr));
    assert(rr == r) by (nonlinear_arith)
        requires
            0 <= r,
            r * r <= n,
            n < (r + 1) * (r + 1),
            0 <= rr,
            rr * rr <= n,
            n < (rr + 1) * (rr + 1),
    ;
}

/// Saturate a wide intermediate into the representable `i64` range.
pub(crate) fn clamp128(q: i128) -> (r: i64)
    ensures
        r == clip64(q as int),
{
    if q > FX_MAX as i128 {
        FX_MAX
    } else if q < FX_MIN as i128 {
        FX_MIN
    } else {
        q as i64
    }
}

/// Euclidean (floor, for a positive divisor) division on wide intermediates.
pub(crate) fn fdiv128(p: i128, d: i128) -> (q: i128)
    requires
        1 <= d,
    ensures
        q as int == p as int / d as int,
{
    proof {
        lemma_ediv_bounds(p as int, d as int);
    }
    p.checked_div_euclid(d).unwrap()
}

/// Saturating fixed-point sum.
pub fn fx_add(a: i64, b: i64) -> (r: i64)
    ensures
        r == spec_fx_add(a, b),
        FX_MIN <= r <= FX_MAX,
{
    clamp128(a as i128 + b as i128)
}

/// Saturating fixed-point difference.
pub fn fx_sub(a: i64, b: i64) -> (r: i64)
    ensures
        r == spec_fx_sub(a, b),
        FX_MIN <= r <= FX_MAX,
{
    clamp128(a as i128 - b as i128)
}

/// Saturating fixed-point negation.
pub fn fx_neg(a: i64) -> (r: i64)
    ensures
        r == spec_fx_neg(a),
        FX_MIN <= r <= FX_MAX,
{
    clamp128(-(a as i128))
}

/// Saturating fixed-point product.
pub fn fx_mul(a: i64, b: i64) -> (r: i64)
    ensures
        r == spec_fx_mul(a, b),
        FX_MIN <= r <= FX_MAX,
{
    proof {
        lemma_mul_bounds(a as int, b as int, 0x8000_0000_0000_0000);
    }
    let p: i128 = (a as i128) * (b as i128);
    let q = fdiv128(p, FX_SCALE as i128);
    clamp128(q)
}

/// Saturating fixed-point quotient; the divisor must be positive.
pub fn fx_div(a: i64, b: i64) -> (r: i64)
    requires
        1 <= b,
    ensures
        r == spec_fx_div(a, b),
        FX_MIN <= r <= FX_MAX,
{
    proof {
        lemma_mul_bounds(a as int, FX_SCALE as int, 0x8000_0000_0000_0000);
    }
    let p: i128 = (a as i128) * (FX_SCALE as i128);
    let q = fdiv128(p, b as i128);
    clamp128(q)
}

/// Saturating division by a plain positive integer.
pub fn fx_divi(a: i64, k: i64) -> (r: i64)
    requires
        1 <= k,
    ensures
        r == spec_fx_divi(a, k),
        FX_MIN <= r <= FX_MAX,
{
    let q = fdiv128(a as i128, k as i128);
    clamp128(q)
}

/// Euclidean remainder; the modulus must be positive.
pub fn fx_rem(a: i64, m: i64) -> (r: i64)
    requires
        1 <= m,
    ensures
        r as int == (a as int) % (m as int),
        0 <= r < m,
{
    proof {
        lemma_mod_bound(a as int, m as int);
    }
    a.checked_rem_euclid(m).unwrap()
}

/// Floor square root by bisection.
pub fn isqrt(n: u128) -> (r: u64)
    requires
        n < 0x4000_0000_0000_0000_0000_0000_0000_0000,
    ensures
        is_isqrt(n as int, r as int),
        r as int == sqrt_floor(n as int),
{
    let mut lo: u128 = 0;
    let mut hi: u128 = 0x8000_0000_0000_0000;
    while hi - lo > 1
        invariant
            lo < hi <= 0x8000_0000_0000_0000,
            lo * lo <= n,
            n < hi * hi,
        decreases hi - lo,
    {
        let mid = lo + (hi - lo) / 2;
        proof {
            lemma_mul_bounds(mid as int, mid as int, 0x8000_0000_0000_0000);
        }
        if mid * mid <= n {
            lo = mid;
        } else {
            hi = mid;
        }
    }
    proof {
        assert(hi == lo + 1);
        assert(is_isqrt(n as int, lo as int));
        lemma_sqrt_floor_unique(n as int, lo as int);
    }
    lo as u64
}

/// Saturating fixed-point magnitude of the pair `(a, b)`.
pub fn fx_hypot(a: i64, b: i64) -> (r: i64)
    requires
        FX_MIN <= a <= FX_MAX,
        FX_MIN <= b <= FX_MAX,
    ensures
        r == spec_fx_hypot(a, b),
        0 <= r <= FX_MAX,
{
    proof {
        lemma_mul_bounds(a as int, a as int, FX_MAX as int);
        lemma_mul_bounds(b as int, b as int, FX_MAX as int);
    }
    let s: i128 = (a as i128) * (a as i128) + (b as i128) * (b as i128);
    let root = isqrt(s as u128);
    proof {
        assert(0 <= sqrt_floor(s as int));
        assert(clip64(sqrt_floor(s as int)) >= 0);
    }
    clamp128(root as i128)
}

} // verus!
