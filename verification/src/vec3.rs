//! Vectors and rotation matrices over fixed-point scalars.
//!
//! `V3` is a vector in R^3; `M3` a row-major 3x3 matrix.  All component
//! arithmetic is the exact saturating fixed-point arithmetic of `fixed`,
//! so every executable operation is pinned by a spec-level mirror.
//! A rotation matrix is built from Rodrigues' formula: the nine exact
//! integer numerators (at scale `FX_SCALE^3`) are each divided once by
//! `FX_SCALE^2`, with floor rounding and saturation.

use crate::fixed::{
    clamp128, clip64, fdiv128, fx_add, fx_mul, fx_neg, fx_sub, is_isqrt, isqrt,
    lemma_isqrt_exists, lemma_mul_bounds, lemma_mul_bounds2, spec_fx_add, spec_fx_mul,
    spec_fx_neg, spec_fx_sub, sqrt_floor, FX_MAX, FX_MIN, FX_SCALE,
};
use crate::trig::{fx_cos, fx_sin, lemma_cos_zero, lemma_sin_zero, spec_cos, spec_sin, FX_NEG_ONE};
use vstd::arithmetic::div_mod::{lemma_fundamental_div_mod, lemma_mod_bound};
use vstd::prelude::*;

verus! {

/// Square of the scale: the raw value of 1.0 squared.
pub const FX_SCALE_SQ: i64 = 1_000_000_000_000_000_000;

/// Bound on the components of a rotation axis (a few units).
pub const FX_AXIS_MAX: i64 = 16_000_000_000;

/// Below this exact squared length (one half unit, squared) a vector is
/// too short to normalize reliably.
pub const FX_MIN_NORM_SQ: i64 = 250_000_000_000_000_000;

/// A vector in R^3 with fixed-point components.
#[derive(Clone, Copy, Debug, PartialEq, Eq, Structural)]
pub struct V3 {
    pub x: i64,
    pub y: i64,
    pub z: i64,
}

/// A row-major 3x3 matrix with fixed-point entries.
#[derive(Clone, Copy, Debug, PartialEq, Eq, Structural)]
pub struct M3 {
    pub rx: V3,
    pub ry: V3,
    pub rz: V3,
}

/// All components lie in the representable fixed-point range.
pub open spec fn v_in_range(v: V3) -> bool {
    FX_MIN <= v.x <= FX_MAX && FX_MIN <= v.y <= FX_MAX && FX_MIN <= v.z <= FX_MAX
}

/// All components are small enough to serve as a rotation axis.
pub open spec fn axis_in_range(v: V3) -> bool {
    -FX_AXIS_MAX <= v.x <= FX_AXIS_MAX && -FX_AXIS_MAX <= v.y <= FX_AXIS_MAX
        && -FX_AXIS_MAX <= v.z <= FX_AXIS_MAX
}

/// Componentwise saturating sum.
pub open spec fn spec_v_add(a: V3, b: V3) -> V3 {
    V3 { x: spec_fx_add(a.x, b.x), y: spec_fx_add(a.y, b.y), z: spec_fx_add(a.z, b.z) }
}

/// Componentwise saturating difference.
pub open spec fn spec_v_sub(a: V3, b: V3) -> V3 {
    V3 { x: spec_fx_sub(a.x, b.x), y: spec_fx_sub(a.y, b.y), z: spec_fx_sub(a.z, b.z) }
}

/// Componentwise saturating negation.
pub open spec fn spec_v_neg(a: V3) -> V3 {
    V3 { x: spec_fx_neg(a.x), y: spec_fx_neg(a.y), z: spec_fx_neg(a.z) }
}

/// Saturating scalar multiple.
pub open spec fn spec_v_scale(k: i64, v: V3) -> V3 {
    V3 { x: spec_fx_mul(k, v.x), y: spec_fx_mul(k, v.y), z: spec_fx_mul(k, v.z) }
}

/// Saturating cross product.
pub open spec fn spec_v_cross(a: V3, b: V3) -> V3 {
    V3 {
        x: spec_fx_sub(spec_fx_mul(a.y, b.z), spec_fx_mul(a.z, b.y)),
        y: spec_fx_sub(spec_fx_mul(a.z, b.x), spec_fx_mul(a.x, b.z)),
        z: spec_fx_sub(spec_fx_mul(a.x, b.y), spec_fx_mul(a.y, b.x)),
    }
}

/// Exact (unsaturated, unscaled) squared length, in raw units squared.
pub open spec fn norm_sq_int(v: V3) -> int {
    (v.x as int) * (v.x as int) + (v.y as int) * (v.y as int) + (v.z as int) * (v.z as int)
}

/// Normalization to (approximately) unit length: each component is the
/// floor of `v_i * FX_SCALE / l`, `l` the floor square root of the exact
/// squared length.  `None` when the vector is shorter than half a unit.
pub open spec fn spec_v_normalize(v: V3) -> Option<V3> {
    let nsq = norm_sq_int(v);
    if nsq < FX_MIN_NORM_SQ {
        None
    } else {
        let l = sqrt_floor(nsq);
        Some(
            V3 {
                x: clip64((v.x * FX_SCALE) / l),
                y: clip64((v.y * FX_SCALE) / l),
                z: clip64((v.z * FX_SCALE) / l),
            },
        )
    }
}

/// Swap the y and z components (the renderer's axis convention).
pub open spec fn spec_swap_yz(v: V3) -> V3 {
    V3 { x: v.x, y: v.z, z: v.y }
}

/// One row of a matrix applied to a vector.
pub open spec fn spec_row_apply(r: V3, v: V3) -> i64 {
    spec_fx_add(spec_fx_add(spec_fx_mul(r.x, v.x), spec_fx_mul(r.y, v.y)), spec_fx_mul(r.z, v.z))
}

/// Matrix-vector product.
pub open spec fn spec_m_apply(m: M3, v: V3) -> V3 {
    V3 { x: spec_row_apply(m.rx, v), y: spec_row_apply(m.ry, v), z: spec_row_apply(m.rz, v) }
}

/// The identity matrix.
pub open spec fn spec_m_identity() -> M3 {
    M3 {
        rx: V3 { x: FX_SCALE, y: 0, z: 0 },
        ry: V3 { x: 0, y: FX_SCALE, z: 0 },
        rz: V3 { x: 0, y: 0, z: FX_SCALE },
    }
}

/// Exact Rodrigues numerators at scale `FX_SCALE^3`, row x.
pub open spec fn rn_xx(a: V3, c: i64, s: i64) -> int {
    (a.x * a.x) * (FX_SCALE - c) + c * FX_SCALE_SQ
}

pub open spec fn rn_xy(a: V3, c: i64, s: i64) -> int {
    (a.x * a.y) * (FX_SCALE - c) - (s * a.z) * FX_SCALE
}

pub open spec fn rn_xz(a: V3, c: i64, s: i64) -> int {
    (a.x * a.z) * (FX_SCALE - c) + (s * a.y) * FX_SCALE
}

/// Exact Rodrigues numerators at scale `FX_SCALE^3`, row y.
pub open spec fn rn_yx(a: V3, c: i64, s: i64) -> int {
    (a.x * a.y) * (FX_SCALE - c) + (s * a.z) * FX_SCALE
}

pub open spec fn rn_yy(a: V3, c: i64, s: i64) -> int {
    (a.y * a.y) * (FX_SCALE - c) + c * FX_SCALE_SQ
}

pub open spec fn rn_yz(a: V3, c: i64, s: i64) -> int {
    (a.y * a.z) * (FX_SCALE - c) - (s * a.x) * FX_SCALE
}

/// Exact Rodrigues numerators at scale `FX_SCALE^3`, row z.
pub open spec fn rn_zx(a: V3, c: i64, s: i64) -> int {
    (a.x * a.z) * (FX_SCALE - c) - (s * a.y) * FX_SCALE
}

pub open spec fn rn_zy(a: V3, c: i64, s: i64) -> int {
    (a.y * a.z) * (FX_SCALE - c) + (s * a.x) * FX_SCALE
}

pub open spec fn rn_zz(a: V3, c: i64, s: i64) -> int {
    (a.z * a.z) * (FX_SCALE - c) + c * FX_SCALE_SQ
}

/// The fixed-point Rodrigues rotation matrix for axis `a` and the
/// cosine/sine pair `(c, s)`: each exact numerator divided once by
/// `FX_SCALE^2` with floor rounding and saturation.
pub open spec fn spec_rotation_cs(a: V3, c: i64, s: i64) -> M3 {
    M3 {
        rx: V3 {
            x: clip64(rn_xx(a, c, s) / (FX_SCALE_SQ as int)),
            y: clip64(rn_xy(a, c, s) / (FX_SCALE_SQ as int)),
            z: clip64(rn_xz(a, c, s) / (FX_SCALE_SQ as int)),
        },
        ry: V3 {
            x: clip64(rn_yx(a, c, s) / (FX_SCALE_SQ as int)),
            y: clip64(rn_yy(a, c, s) / (FX_SCALE_SQ as int)),
            z: clip64(rn_yz(a, c, s) / (FX_SCALE_SQ as int)),
        },
        rz: V3 {
            x: clip64(rn_zx(a, c, s) / (FX_SCALE_SQ as int)),
            y: clip64(rn_zy(a, c, s) / (FX_SCALE_SQ as int)),
            z: clip64(rn_zz(a, c, s) / (FX_SCALE_SQ as int)),
        },
    }
}

/// The rotation matrix about `axis` by `angle` (fixed-point radians,
/// right-hand rule), through the fixed-point sine and cosine.
pub open spec fn spec_rotation(axis: V3, angle: i64) -> M3 {
    spec_rotation_cs(axis, spec_cos(angle), spec_sin(angle))
}

/// Componentwise saturating sum.
pub fn v_add(a: V3, b: V3) -> (r: V3)
    ensures
        r == spec_v_add(a, b),
        v_in_range(r),
{
    V3 { x: fx_add(a.x, b.x), y: fx_add(a.y, b.y), z: fx_add(a.z, b.z) }
}

/// Componentwise saturating difference.
pub fn v_sub(a: V3, b: V3) -> (r: V3)
    ensures
        r == spec_v_sub(a, b),
        v_in_range(r),
{
    V3 { x: fx_sub(a.x, b.x), y: fx_sub(a.y, b.y), z: fx_sub(a.z, b.z) }
}

/// Componentwise saturating negation.
pub fn v_neg(a: V3) -> (r: V3)
    ensures
        r == spec_v_neg(a),
        v_in_range(r),
{
    V3 { x: fx_neg(a.x), y: fx_neg(a.y), z: fx_neg(a.z) }
}

/// Saturating scalar multiple.
pub fn v_scale(k: i64, v: V3) -> (r: V3)
    ensures
        r == spec_v_scale(k, v),
        v_in_range(r),
{
    V3 { x: fx_mul(k, v.x), y: fx_mul(k, v.y), z: fx_mul(k, v.z) }
}

/// Saturating cross product.
pub fn v_cross(a: V3, b: V3) -> (r: V3)
    ensures
        r == spec_v_cross(a, b),
        v_in_range(r),
{
    V3 {
        x: fx_sub(fx_mul(a.y, b.z), fx_mul(a.z, b.y)),
        y: fx_sub(fx_mul(a.z, b.x), fx_mul(a.x, b.z)),
        z: fx_sub(fx_mul(a.x, b.y), fx_mul(a.y, b.x)),
    }
}

/// Swap the y and z components (the renderer's axis convention).
pub fn swap_yz(v: V3) -> (r: V3)
    ensures
        r == spec_swap_yz(v),
{
    V3 { x: v.x, y: v.z, z: v.y }
}

/// Normalization to (approximately) unit length; `None` when the vector
/// is shorter than half a unit.
pub fn v_normalize(v: V3) -> (r: Option<V3>)
    requires
        v_in_range(v),
    ensures
        r == spec_v_normalize(v),
{
    proof {
        lemma_mul_bounds(v.x as int, v.x as int, FX_MAX as int);
        lemma_mul_bounds(v.y as int, v.y as int, FX_MAX as int);
        lemma_mul_bounds(v.z as int, v.z as int, FX_MAX as int);
    }
    let nsq: i128 = (v.x as i128) * (v.x as i128) + (v.y as i128) * (v.y as i128) + (v.z
        as i128) * (v.z as i128);
    if nsq < FX_MIN_NORM_SQ as i128 {
        None
    } else {
        let l = isqrt(nsq as u128) as i128;
        proof {
            if l == 0 {
                assert((nsq as int) < (0 + 1) * (0 + 1));
            }
            assert(l >= 1);
        }
        let rx = clamp128(fdiv128((v.x as i128) * (FX_SCALE as i128), l));
        let ry = clamp128(fdiv128((v.y as i128) * (FX_SCALE as i128), l));
        let rz = clamp128(fdiv128((v.z as i128) * (FX_SCALE as i128), l));
        Some(V3 { x: rx, y: ry, z: rz })
    }
}

/// Matrix-vector product.
pub fn m_apply(m: &M3, v: V3) -> (r: V3)
    ensures
        r == spec_m_apply(*m, v),
        v_in_range(r),
{
    V3 {
        x: fx_add(fx_add(fx_mul(m.rx.x, v.x), fx_mul(m.rx.y, v.y)), fx_mul(m.rx.z, v.z)),
        y: fx_add(fx_add(fx_mul(m.ry.x, v.x), fx_mul(m.ry.y, v.y)), fx_mul(m.ry.z, v.z)),
        z: fx_add(fx_add(fx_mul(m.rz.x, v.x), fx_mul(m.rz.y, v.y)), fx_mul(m.rz.z, v.z)),
    }
}

/// One Rodrigues entry: `(p * q) * ic + t`, divided once by
/// `FX_SCALE^2` with floor rounding and saturation.
fn rod_entry(p: i64, q: i64, ic: i64, t: i128) -> (r: i64)
    requires
        -FX_AXIS_MAX <= p <= FX_AXIS_MAX,
        -FX_AXIS_MAX <= q <= FX_AXIS_MAX,
        0 <= ic <= 2 * FX_SCALE,
        -0x1000_0000_0000_0000_0000_0000_0000 <= t <= 0x1000_0000_0000_0000_0000_0000_0000,
    ensures
        r == clip64(((p * q) * ic + t) / (FX_SCALE_SQ as int)),
{
    proof {
        lemma_mul_bounds2(p as int, q as int, FX_AXIS_MAX as int, FX_AXIS_MAX as int);
        lemma_mul_bounds2(
            (p as int) * (q as int),
            ic as int,
            (FX_AXIS_MAX as int) * (FX_AXIS_MAX as int),
            2 * FX_SCALE,
        );
    }
    let pq: i128 = (p as i128) * (q as i128);
    let num: i128 = pq * (ic as i128) + t;
    clamp128(fdiv128(num, FX_SCALE_SQ as i128))
}

/// The rotation matrix about `axis` by `angle` (fixed-point radians,
/// right-hand rule), by Rodrigues' formula.  The axis must already be
/// (approximately) unit length; this function does not normalize it.
pub fn rotation_matrix(axis: V3, angle: i64) -> (m: M3)
    requires
        axis_in_range(axis),
    ensures
        m == spec_rotation(axis, angle),
{
    let c = fx_cos(angle);
    let s = fx_sin(angle);
    let ic = FX_SCALE - c;
    proof {
        lemma_mul_bounds2(s as int, axis.x as int, FX_SCALE as int, FX_AXIS_MAX as int);
        lemma_mul_bounds2(s as int, axis.y as int, FX_SCALE as int, FX_AXIS_MAX as int);
        lemma_mul_bounds2(s as int, axis.z as int, FX_SCALE as int, FX_AXIS_MAX as int);
        lemma_mul_bounds2(c as int, FX_SCALE_SQ as int, FX_SCALE as int, FX_SCALE_SQ as int);
    }
    let sx: i128 = (s as i128) * (axis.x as i128) * (FX_SCALE as i128);
    let sy: i128 = (s as i128) * (axis.y as i128) * (FX_SCALE as i128);
    let sz: i128 = (s as i128) * (axis.z as i128) * (FX_SCALE as i128);
    let cd: i128 = (c as i128) * (FX_SCALE_SQ as i128);
    M3 {
        rx: V3 {
            x: rod_entry(axis.x, axis.x, ic, cd),
            y: rod_entry(axis.x, axis.y, ic, -sz),
            z: rod_entry(axis.x, axis.z, ic, sy),
        },
        ry: V3 {
            x: rod_entry(axis.x, axis.y, ic, sz),
            y: rod_entry(axis.y, axis.y, ic, cd),
            z: rod_entry(axis.y, axis.z, ic, -sx),
        },
        rz: V3 {
            x: rod_entry(axis.x, axis.z, ic, -sy),
            y: rod_entry(axis.y, axis.z, ic, sx),
            z: rod_entry(axis.z, axis.z, ic, cd),
        },
    }
}

/// The cross product of two vectors with components within one unit is
/// a valid rotation axis (components within two units).
pub proof fn lemma_cross_unit_axis(a: V3, b: V3)
    requires
        -FX_SCALE <= a.x <= FX_SCALE,
        -FX_SCALE <= a.y <= FX_SCALE,
        -FX_SCALE <= a.z <= FX_SCALE,
        -FX_SCALE <= b.x <= FX_SCALE,
        -FX_SCALE <= b.y <= FX_SCALE,
        -FX_SCALE <= b.z <= FX_SCALE,
    ensures
        axis_in_range(spec_v_cross(a, b)),
{
    crate::fixed::lemma_fx_mul_unit(a.y, b.z);
    crate::fixed::lemma_fx_mul_unit(a.z, b.y);
    crate::fixed::lemma_fx_mul_unit(a.z, b.x);
    crate::fixed::lemma_fx_mul_unit(a.x, b.z);
    crate::fixed::lemma_fx_mul_unit(a.x, b.y);
    crate::fixed::lemma_fx_mul_unit(a.y, b.x);
}

/// A matrix-vector product always lands in the representable range.
pub proof fn lemma_m_apply_in_range(m: M3, v: V3)
    ensures
        v_in_range(spec_m_apply(m, v)),
{
}

/// A successfully normalized vector has components within one unit and
/// exact squared length within `16 * FX_SCALE` of one (that is, of
/// `FX_SCALE^2` in raw units squared): its length is one to within
/// `8e-9`, far inside a `1e-6` tolerance.
#[verifier::rlimit(100)]
pub proof fn lemma_normalize_unit(v: V3)
    requires
        v_in_range(v),
        spec_v_normalize(v) is Some,
    ensures
        ({
            let r = spec_v_normalize(v)->Some_0;
            &&& -FX_SCALE <= r.x <= FX_SCALE
            &&& -FX_SCALE <= r.y <= FX_SCALE
            &&& -FX_SCALE <= r.z <= FX_SCALE
            &&& FX_SCALE_SQ - 16 * FX_SCALE <= norm_sq_int(r) <= FX_SCALE_SQ + 16 * FX_SCALE
        }),
{
    lemma_mul_bounds(v.x as int, v.x as int, FX_MAX as int);
    lemma_mul_bounds(v.y as int, v.y as int, FX_MAX as int);
    lemma_mul_bounds(v.z as int, v.z as int, FX_MAX as int);
    let vx = v.x as int;
    let vy = v.y as int;
    let vz = v.z as int;
    let nsq = norm_sq_int(v);
    lemma_isqrt_exists(nsq);
    let l = sqrt_floor(nsq);
    assert(l >= 499_999_999) by (nonlinear_arith)
        requires
            0 <= l,
            250_000_000_000_000_000 <= nsq,
            nsq < (l + 1) * (l + 1),
    ;
    lemma_fundamental_div_mod(vx * FX_SCALE, l);
    lemma_fundamental_div_mod(vy * FX_SCALE, l);
    lemma_fundamental_div_mod(vz * FX_SCALE, l);
    lemma_mod_bound(vx * FX_SCALE, l);
    lemma_mod_bound(vy * FX_SCALE, l);
    lemma_mod_bound(vz * FX_SCALE, l);
    let qx = (vx * FX_SCALE) / l;
    let qy = (vy * FX_SCALE) / l;
    let qz = (vz * FX_SCALE) / l;
    let ex = (vx * FX_SCALE) % l;
    let ey = (vy * FX_SCALE) % l;
    let ez = (vz * FX_SCALE) % l;
    assert(-l <= vx <= l && -l <= vy <= l && -l <= vz <= l) by (nonlinear_arith)
        requires
            0 <= vx * vx,
            0 <= vy * vy,
            0 <= vz * vz,
            vx * vx + vy * vy + vz * vz == nsq,
            nsq < (l + 1) * (l + 1),
            0 <= l,
    ;
    assert(-FX_SCALE <= qx <= FX_SCALE) by (nonlinear_arith)
        requires
            vx * 1_000_000_000 == l * qx + ex,
            0 <= ex < l,
            -l <= vx <= l,
            1 <= l,
    ;
    assert(-FX_SCALE <= qy <= FX_SCALE) by (nonlinear_arith)
        requires
            vy * 1_000_000_000 == l * qy + ey,
            0 <= ey < l,
            -l <= vy <= l,
            1 <= l,
    ;
    assert(-FX_SCALE <= qz <= FX_SCALE) by (nonlinear_arith)
        requires
            vz * 1_000_000_000 == l * qz + ez,
            0 <= ez < l,
            -l <= vz <= l,
            1 <= l,
    ;
    // Per component: l^2 q^2 lies within 2 S l^2 (+ l^2) of S^2 v^2.
    assert(1_000_000_000 * 1_000_000_000 * (vx * vx) - 2 * 1_000_000_000 * (l * l) <= (l * l) * (
    qx * qx) <= 1_000_000_000 * 1_000_000_000 * (vx * vx) + 2 * 1_000_000_000 * (l * l) + l * l)
        by (nonlinear_arith)
        requires
            vx * 1_000_000_000 == l * qx + ex,
            0 <= ex < l,
            -l <= vx <= l,
            1 <= l,
    ;
    assert(1_000_000_000 * 1_000_000_000 * (vy * vy) - 2 * 1_000_000_000 * (l * l) <= (l * l) * (
    qy * qy) <= 1_000_000_000 * 1_000_000_000 * (vy * vy) + 2 * 1_000_000_000 * (l * l) + l * l)
        by (nonlinear_arith)
        requires
            vy * 1_000_000_000 == l * qy + ey,
            0 <= ey < l,
            -l <= vy <= l,
            1 <= l,
    ;
    assert(1_000_000_000 * 1_000_000_000 * (vz * vz) - 2 * 1_000_000_000 * (l * l) <= (l * l) * (
    qz * qz) <= 1_000_000_000 * 1_000_000_000 * (vz * vz) + 2 * 1_000_000_000 * (l * l) + l * l)
        by (nonlinear_arith)
        requires
            vz * 1_000_000_000 == l * qz + ez,
            0 <= ez < l,
            -l <= vz <= l,
            1 <= l,
    ;
    let t = qx * qx + qy * qy + qz * qz;
    assert((l * l) * (qx * qx) + (l * l) * (qy * qy) + (l * l) * (qz * qz) == (l * l) * t)
        by (nonlinear_arith)
        requires
            t == qx * qx + qy * qy + qz * qz,
    ;
    // Sum the three, using l^2 <= v^2-sum < (l+1)^2, and divide by l^2.
    assert(1_000_000_000_000_000_000 - 16_000_000_000 <= t <= 1_000_000_000_000_000_000
        + 16_000_000_000) by (nonlinear_arith)
        requires
            1_000_000_000 * 1_000_000_000 * (vx * vx) - 2 * 1_000_000_000 * (l * l) <= (l * l) * (
            qx * qx) <= 1_000_000_000 * 1_000_000_000 * (vx * vx) + 2 * 1_000_000_000 * (l * l) + l
                * l,
            1_000_000_000 * 1_000_000_000 * (vy * vy) - 2 * 1_000_000_000 * (l * l) <= (l * l) * (
            qy * qy) <= 1_000_000_000 * 1_000_000_000 * (vy * vy) + 2 * 1_000_000_000 * (l * l) + l
                * l,
            1_000_000_000 * 1_000_000_000 * (vz * vz) - 2 * 1_000_000_000 * (l * l) <= (l * l) * (
            qz * qz) <= 1_000_000_000 * 1_000_000_000 * (vz * vz) + 2 * 1_000_000_000 * (l * l) + l
                * l,
            (l * l) * (qx * qx) + (l * l) * (qy * qy) + (l * l) * (qz * qz) == (l * l) * t,
            l * l <= vx * vx + vy * vy + vz * vz,
            vx * vx + vy * vy + vz * vz < (l + 1) * (l + 1),
            499_999_999 <= l,
    ;
    let r = spec_v_normalize(v)->Some_0;
    assert(r.x == qx && r.y == qy && r.z == qz);
}

/// Ring expansion of the squared norm of one Rodrigues row built from
/// the axis pattern `(ax, ay, az)`, for an exactly unit axis and any
/// cosine/sine pair: the norm misses `d^6` by exactly the Pythagorean
/// defect `e = d^2 - (c^2 + s^2)` times `d^2 (d^2 - ax^2)`.
#[verifier::rlimit(100)]
proof fn lemma_rod_row_norm(ax: int, ay: int, az: int, c: int, s: int, d: int)
    requires
        ax * ax + ay * ay + az * az == d * d,
    ensures
        ({
            let e = d * d - (c * c + s * s);
            let n0 = (ax * ax) * (d - c) + c * (d * d);
            let n1 = (ax * ay) * (d - c) - (s * az) * d;
            let n2 = (ax * az) * (d - c) + (s * ay) * d;
            n0 * n0 + n1 * n1 + n2 * n2 == ((d * d) * (d * d)) * (d * d) - (e * (d * d)) * (d * d
                - ax * ax)
        }),
{
    let e = d * d - (c * c + s * s);
    let ic = d - c;
    let u0 = ax * ax;
    let u1 = ax * ay;
    let u2 = ax * az;
    let k = c * (d * d);
    let p = (s * az) * d;
    let q = (s * ay) * d;
    let n0 = (ax * ax) * (d - c) + c * (d * d);
    let n1 = (ax * ay) * (d - c) - (s * az) * d;
    let n2 = (ax * az) * (d - c) + (s * ay) * d;
    let ii = ic * ic;
    let dd = d * d;
    // Expand each square of a binomial.
    assert(n0 * n0 == (u0 * u0) * ii + 2 * ((u0 * ic) * k) + k * k) by (nonlinear_arith)
        requires
            n0 == u0 * ic + k,
            ii == ic * ic,
    ;
    assert(n1 * n1 == (u1 * u1) * ii - 2 * ((u1 * ic) * p) + p * p) by (nonlinear_arith)
        requires
            n1 == u1 * ic - p,
            ii == ic * ic,
    ;
    assert(n2 * n2 == (u2 * u2) * ii + 2 * ((u2 * ic) * q) + q * q) by (nonlinear_arith)
        requires
            n2 == u2 * ic + q,
            ii == ic * ic,
    ;
    // The two mixed axis terms cancel.
    assert((u1 * ic) * p == (u2 * ic) * q) by (nonlinear_arith)
        requires
            u1 == ax * ay,
            u2 == ax * az,
            p == (s * az) * d,
            q == (s * ay) * d,
    ;
    // Squared-axis terms collapse through the unit-axis hypothesis.
    assert(u0 * u0 + u1 * u1 + u2 * u2 == u0 * dd) by (nonlinear_arith)
        requires
            u0 == ax * ax,
            u1 == ax * ay,
            u2 == ax * az,
            ax * ax + ay * ay + az * az == d * d,
            dd == d * d,
    ;
    assert((u0 * u0) * ii + (u1 * u1) * ii + (u2 * u2) * ii == (u0 * u0 + u1 * u1 + u2 * u2) * ii)
        by (nonlinear_arith);
    assert((u0 * u0 + u1 * u1 + u2 * u2) * ii == (u0 * dd) * ii);
    // Sine terms collapse through the unit-axis hypothesis.
    assert(p * p == ((s * s) * dd) * (az * az)) by (nonlinear_arith)
        requires
            p == (s * az) * d,
            dd == d * d,
    ;
    assert(q * q == ((s * s) * dd) * (ay * ay)) by (nonlinear_arith)
        requires
            q == (s * ay) * d,
            dd == d * d,
    ;
    assert(ay * ay + az * az == dd - u0);
    assert(((s * s) * dd) * (az * az) + ((s * s) * dd) * (ay * ay) == ((s * s) * dd) * (ay * ay
        + az * az)) by (nonlinear_arith);
    assert(((s * s) * dd) * (ay * ay + az * az) == ((s * s) * dd) * (dd - u0));
    assert(((s * s) * dd) * (dd - u0) == (s * s) * (dd * dd) - ((s * s) * dd) * u0)
        by (nonlinear_arith);
    assert(p * p + q * q == (s * s) * (dd * dd) - ((s * s) * dd) * u0);
    // The middle term of the first square.
    assert(2 * ((u0 * ic) * k) == (u0 * dd) * (2 * (ic * c))) by (nonlinear_arith)
        requires
            k == c * (d * d),
            dd == d * d,
    ;
    // The near-Pythagorean pair: ic^2 + 2 ic c == s^2 + e.
    assert(ii + 2 * (ic * c) == s * s + e) by (nonlinear_arith)
        requires
            ic == d - c,
            e == d * d - (c * c + s * s),
            ii == ic * ic,
    ;
    // The axis-squared group leaves only the defect.
    assert((u0 * dd) * ii + (u0 * dd) * (2 * (ic * c)) - ((s * s) * dd) * u0 == (u0 * dd) * e)
        by (nonlinear_arith)
        requires
            ii + 2 * (ic * c) == s * s + e,
    ;
    // What is left is d^6 less the defect at full weight.
    assert(k * k + (s * s) * (dd * dd) == (dd * dd) * dd - (dd * dd) * e) by (nonlinear_arith)
        requires
            k == c * (d * d),
            e == d * d - (c * c + s * s),
            dd == d * d,
    ;
    assert((u0 * dd) * e - (dd * dd) * e == -((e * dd) * (dd - u0))) by (nonlinear_arith)
        requires
            dd == d * d,
    ;
}

/// Ring expansion of the dot product of two adjacent Rodrigues rows
/// built from the axis pattern `(ax, ay, az)`, for an exactly unit
/// axis and any cosine/sine pair: the rows miss orthogonality by
/// exactly the Pythagorean defect times `d^2 ax ay`.
#[verifier::rlimit(100)]
proof fn lemma_rod_row_dot(ax: int, ay: int, az: int, c: int, s: int, d: int)
    requires
        ax * ax + ay * ay + az * az == d * d,
    ensures
        ({
            let e = d * d - (c * c + s * s);
            let n0 = (ax * ax) * (d - c) + c * (d * d);
            let n1 = (ax * ay) * (d - c) - (s * az) * d;
            let n2 = (ax * az) * (d - c) + (s * ay) * d;
            let m0 = (ax * ay) * (d - c) + (s * az) * d;
            let m1 = (ay * ay) * (d - c) + c * (d * d);
            let m2 = (ay * az) * (d - c) - (s * ax) * d;
            n0 * m0 + n1 * m1 + n2 * m2 == ((ax * ay) * (d * d)) * e
        }),
{
    let e = d * d - (c * c + s * s);
    let ic = d - c;
    let u0 = ax * ax;
    let u1 = ax * ay;
    let u2 = ax * az;
    let u3 = ay * ay;
    let u4 = ay * az;
    let k = c * (d * d);
    let p = (s * az) * d;
    let q = (s * ay) * d;
    let w = (s * ax) * d;
    let n0 = (ax * ax) * (d - c) + c * (d * d);
    let n1 = (ax * ay) * (d - c) - (s * az) * d;
    let n2 = (ax * az) * (d - c) + (s * ay) * d;
    let m0 = (ax * ay) * (d - c) + (s * az) * d;
    let m1 = (ay * ay) * (d - c) + c * (d * d);
    let m2 = (ay * az) * (d - c) - (s * ax) * d;
    let ii = ic * ic;
    let dd = d * d;
    // Expand the three products of binomials.
    assert(n0 * m0 == (u0 * u1) * ii + (u0 * ic) * p + (u1 * ic) * k + k * p) by (nonlinear_arith)
        requires
            n0 == u0 * ic + k,
            m0 == u1 * ic + p,
            ii == ic * ic,
    ;
    assert(n1 * m1 == (u1 * u3) * ii + (u1 * ic) * k - (u3 * ic) * p - k * p) by (nonlinear_arith)
        requires
            n1 == u1 * ic - p,
            m1 == u3 * ic + k,
            ii == ic * ic,
    ;
    assert(n2 * m2 == (u2 * u4) * ii - (u2 * ic) * w + (u4 * ic) * q - q * w) by (nonlinear_arith)
        requires
            n2 == u2 * ic + q,
            m2 == u4 * ic - w,
            ii == ic * ic,
    ;
    // The four sine-linear terms cancel pairwise.
    assert((u0 * ic) * p == (u2 * ic) * w) by (nonlinear_arith)
        requires
            u0 == ax * ax,
            u2 == ax * az,
            p == (s * az) * d,
            w == (s * ax) * d,
    ;
    assert((u3 * ic) * p == (u4 * ic) * q) by (nonlinear_arith)
        requires
            u3 == ay * ay,
            u4 == ay * az,
            p == (s * az) * d,
            q == (s * ay) * d,
    ;
    // Squared-axis terms collapse through the unit-axis hypothesis.
    assert(u0 * u1 + u1 * u3 + u2 * u4 == u1 * dd) by (nonlinear_arith)
        requires
            u0 == ax * ax,
            u1 == ax * ay,
            u2 == ax * az,
            u3 == ay * ay,
            u4 == ay * az,
            ax * ax + ay * ay + az * az == d * d,
            dd == d * d,
    ;
    assert((u0 * u1) * ii + (u1 * u3) * ii + (u2 * u4) * ii == (u0 * u1 + u1 * u3 + u2 * u4) * ii)
        by (nonlinear_arith);
    assert((u0 * u1 + u1 * u3 + u2 * u4) * ii == (u1 * dd) * ii);
    // The two cosine middle terms.
    assert((u1 * ic) * k + (u1 * ic) * k == (u1 * dd) * (2 * (ic * c))) by (nonlinear_arith)
        requires
            k == c * (d * d),
            dd == d * d,
    ;
    // The sine-squared term.
    assert(q * w == ((s * s) * dd) * u1) by (nonlinear_arith)
        requires
            q == (s * ay) * d,
            w == (s * ax) * d,
            u1 == ax * ay,
            dd == d * d,
    ;
    // The near-Pythagorean pair: ic^2 + 2 ic c == s^2 + e.
    assert(ii + 2 * (ic * c) == s * s + e) by (nonlinear_arith)
        requires
            ic == d - c,
            e == d * d - (c * c + s * s),
            ii == ic * ic,
    ;
    // The whole sum reduces to the defect.
    assert((u1 * dd) * ii + (u1 * dd) * (2 * (ic * c)) - ((s * s) * dd) * u1 == (u1 * dd) * e)
        by (nonlinear_arith)
        requires
            ii + 2 * (ic * c) == s * s + e,
    ;
}

/// Orthonormality of the exact Rodrigues numerators: for an exactly
/// unit axis and an exactly Pythagorean cosine/sine pair (both at scale
/// `FX_SCALE`), the rows of the numerator matrix (at scale
/// `FX_SCALE^3`) are pairwise orthogonal and each has squared length
/// exactly `FX_SCALE^6`.  The executable rotation matrix divides these
/// numerators once by `FX_SCALE^2`, so it is orthonormal up to that
/// final fixed-point rounding.
pub proof fn lemma_rotation_orthonormal(a: V3, c: i64, s: i64)
    requires
        norm_sq_int(a) == (FX_SCALE as int) * (FX_SCALE as int),
        (c as int) * (c as int) + (s as int) * (s as int) == (FX_SCALE as int) * (FX_SCALE
            as int),
    ensures
        ({
            let d6 = ((FX_SCALE_SQ as int) * (FX_SCALE_SQ as int)) * (FX_SCALE_SQ as int);
            &&& rn_xx(a, c, s) * rn_xx(a, c, s) + rn_xy(a, c, s) * rn_xy(a, c, s) + rn_xz(a, c, s)
                * rn_xz(a, c, s) == d6
            &&& rn_yx(a, c, s) * rn_yx(a, c, s) + rn_yy(a, c, s) * rn_yy(a, c, s) + rn_yz(a, c, s)
                * rn_yz(a, c, s) == d6
            &&& rn_zx(a, c, s) * rn_zx(a, c, s) + rn_zy(a, c, s) * rn_zy(a, c, s) + rn_zz(a, c, s)
                * rn_zz(a, c, s) == d6
            &&& rn_xx(a, c, s) * rn_yx(a, c, s) + rn_xy(a, c, s) * rn_yy(a, c, s) + rn_xz(a, c, s)
                * rn_yz(a, c, s) == 0
            &&& rn_yx(a, c, s) * rn_zx(a, c, s) + rn_yy(a, c, s) * rn_zy(a, c, s) + rn_yz(a, c, s)
                * rn_zz(a, c, s) == 0
            &&& rn_zx(a, c, s) * rn_xx(a, c, s) + rn_zy(a, c, s) * rn_xy(a, c, s) + rn_zz(a, c, s)
                * rn_xz(a, c, s) == 0
        }),
{
    let ax = a.x as int;
    let ay = a.y as int;
    let az = a.z as int;
    let ci = c as int;
    let si = s as int;
    let d = FX_SCALE as int;
    lemma_rod_row_norm(ax, ay, az, ci, si, d);
    lemma_rod_row_norm(ay, az, ax, ci, si, d);
    lemma_rod_row_norm(az, ax, ay, ci, si, d);
    lemma_rod_row_dot(ax, ay, az, ci, si, d);
    lemma_rod_row_dot(ay, az, ax, ci, si, d);
    lemma_rod_row_dot(az, ax, ay, ci, si, d);
}

/// Near-orthonormality of the executable rotation matrix for every
/// cosine/sine pair: for an exactly unit axis, each row of the exact
/// Rodrigues numerator matrix (at scale `FX_SCALE^3`, before the final
/// division) misses squared length `FX_SCALE^6` by exactly
/// `e * FX_SCALE^2 * (FX_SCALE^2 - a_i^2)`, and two rows miss
/// orthogonality by exactly `e * FX_SCALE^2 * a_i * a_j`, where
/// `e = FX_SCALE^2 - (c^2 + s^2)` is the Pythagorean defect of the
/// pair.  The fixed-point sine and cosine are clamped into one unit,
/// so their defect is small, and the executable matrix is orthonormal
/// to that defect plus the one final rounding.
pub proof fn lemma_rotation_near_orthonormal(a: V3, c: i64, s: i64)
    requires
        norm_sq_int(a) == (FX_SCALE as int) * (FX_SCALE as int),
    ensures
        ({
            let d = FX_SCALE as int;
            let e = d * d - ((c as int) * (c as int) + (s as int) * (s as int));
            let d6 = ((FX_SCALE_SQ as int) * (FX_SCALE_SQ as int)) * (FX_SCALE_SQ as int);
            &&& rn_xx(a, c, s) * rn_xx(a, c, s) + rn_xy(a, c, s) * rn_xy(a, c, s) + rn_xz(a, c, s)
                * rn_xz(a, c, s) == d6 - (e * (d * d)) * (d * d - a.x * a.x)
            &&& rn_yx(a, c, s) * rn_yx(a, c, s) + rn_yy(a, c, s) * rn_yy(a, c, s) + rn_yz(a, c, s)
                * rn_yz(a, c, s) == d6 - (e * (d * d)) * (d * d - a.y * a.y)
            &&& rn_zx(a, c, s) * rn_zx(a, c, s) + rn_zy(a, c, s) * rn_zy(a, c, s) + rn_zz(a, c, s)
                * rn_zz(a, c, s) == d6 - (e * (d * d)) * (d * d - a.z * a.z)
            &&& rn_xx(a, c, s) * rn_yx(a, c, s) + rn_xy(a, c, s) * rn_yy(a, c, s) + rn_xz(a, c, s)
                * rn_yz(a, c, s) == ((a.x * a.y) * (d * d)) * e
            &&& rn_yx(a, c, s) * rn_zx(a, c, s) + rn_yy(a, c, s) * rn_zy(a, c, s) + rn_yz(a, c, s)
                * rn_zz(a, c, s) == ((a.y * a.z) * (d * d)) * e
            &&& rn_zx(a, c, s) * rn_xx(a, c, s) + rn_zy(a, c, s) * rn_xy(a, c, s) + rn_zz(a, c, s)
                * rn_xz(a, c, s) == ((a.z * a.x) * (d * d)) * e
        }),
{
    let ax = a.x as int;
    let ay = a.y as int;
    let az = a.z as int;
    let ci = c as int;
    let si = s as int;
    let d = FX_SCALE as int;
    lemma_rod_row_norm(ax, ay, az, ci, si, d);
    lemma_rod_row_norm(ay, az, ax, ci, si, d);
    lemma_rod_row_norm(az, ax, ay, ci, si, d);
    lemma_rod_row_dot(ax, ay, az, ci, si, d);
    lemma_rod_row_dot(ay, az, ax, ci, si, d);
    lemma_rod_row_dot(az, ax, ay, ci, si, d);
}

/// Rotating by angle zero gives exactly the identity matrix, for any
/// axis: the fixed-point cosine and sine of zero are exact.
pub proof fn lemma_rotation_zero_identity(a: V3)
    ensures
        spec_rotation(a, 0) == spec_m_identity(),
{
    lemma_cos_zero();
    lemma_sin_zero();
    let d = FX_SCALE as int;
    assert(rn_xx(a, FX_SCALE, 0) == d * d * d) by (nonlinear_arith)
        requires
            rn_xx(a, FX_SCALE, 0) == (a.x * a.x) * (FX_SCALE - FX_SCALE) + FX_SCALE
                * FX_SCALE_SQ,
            d == FX_SCALE as int,
            FX_SCALE_SQ == 1_000_000_000_000_000_000,
            FX_SCALE == 1_000_000_000,
    ;
    assert(rn_yy(a, FX_SCALE, 0) == d * d * d) by (nonlinear_arith)
        requires
            rn_yy(a, FX_SCALE, 0) == (a.y * a.y) * (FX_SCALE - FX_SCALE) + FX_SCALE
                * FX_SCALE_SQ,
            d == FX_SCALE as int,
            FX_SCALE_SQ == 1_000_000_000_000_000_000,
            FX_SCALE == 1_000_000_000,
    ;
    assert(rn_zz(a, FX_SCALE, 0) == d * d * d) by (nonlinear_arith)
        requires
            rn_zz(a, FX_SCALE, 0) == (a.z * a.z) * (FX_SCALE - FX_SCALE) + FX_SCALE
                * FX_SCALE_SQ,
            d == FX_SCALE as int,
            FX_SCALE_SQ == 1_000_000_000_000_000_000,
            FX_SCALE == 1_000_000_000,
    ;
    assert(rn_xy(a, FX_SCALE, 0) == 0 && rn_xz(a, FX_SCALE, 0) == 0 && rn_yx(a, FX_SCALE, 0) == 0
        && rn_yz(a, FX_SCALE, 0) == 0 && rn_zx(a, FX_SCALE, 0) == 0 && rn_zy(a, FX_SCALE, 0)
        == 0) by (nonlinear_arith)
        requires
            rn_xy(a, FX_SCALE, 0) == (a.x * a.y) * (FX_SCALE - FX_SCALE) - (0 * a.z) * FX_SCALE,
            rn_xz(a, FX_SCALE, 0) == (a.x * a.z) * (FX_SCALE - FX_SCALE) + (0 * a.y) * FX_SCALE,
            rn_yx(a, FX_SCALE, 0) == (a.x * a.y) * (FX_SCALE - FX_SCALE) + (0 * a.z) * FX_SCALE,
            rn_yz(a, FX_SCALE, 0) == (a.y * a.z) * (FX_SCALE - FX_SCALE) - (0 * a.x) * FX_SCALE,
            rn_zx(a, FX_SCALE, 0) == (a.x * a.z) * (FX_SCALE - FX_SCALE) - (0 * a.y) * FX_SCALE,
            rn_zy(a, FX_SCALE, 0) == (a.y * a.z) * (FX_SCALE - FX_SCALE) + (0 * a.x) * FX_SCALE,
    ;
    assert((d * d * d) / (FX_SCALE_SQ as int) == d);
    assert(0int / (FX_SCALE_SQ as int) == 0);
}

} // verus!
