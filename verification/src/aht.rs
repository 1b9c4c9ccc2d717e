//! The frame-propagation core: from pulse samples to torus segments.
//!
//! Each pulse sample becomes one circular arc.  A local frame (point,
//! tangent, normal) is carried along the curve: per sample, the normal
//! is rotated about the tangent by the phase change, the arc's center
//! and radius vector are placed in the plane orthogonal to the new
//! normal, the point is rotated about the new center by the arc angle,
//! and the tangent is rebuilt from the new normal and the direction
//! back to the center.  All arithmetic is the exact saturating
//! fixed-point arithmetic of `fixed`, so the whole scan is pinned by
//! `spec_build`.
//!
//! Output vectors are stored with their y and z components swapped
//! (the renderer's axis convention); the swap is applied once, when a
//! segment is emitted, and carries no other meaning.

use crate::bruker::{BrukerData, PulseSample};
use crate::fixed::{
    fx_div, fx_divi, fx_hypot, fx_mul, fx_sub, spec_fx_div, spec_fx_divi, spec_fx_hypot,
    spec_fx_mul, spec_fx_sub, FX_MAX, FX_MIN, FX_SCALE,
};
use crate::trig::{fx_cos, fx_sin, fx_to_radians, spec_cos, spec_sin, spec_to_radians, FX_NEG_ONE, FX_TWO_PI};
use crate::vec3::{
    axis_in_range, lemma_cross_unit_axis, lemma_m_apply_in_range, lemma_normalize_unit, m_apply,
    norm_sq_int, rotation_matrix, spec_m_apply, spec_rotation, spec_swap_yz, spec_v_add,
    spec_v_cross, spec_v_neg, spec_v_normalize, spec_v_scale, spec_v_sub, swap_yz, v_add, v_cross,
    v_in_range, v_neg, v_normalize, v_scale, v_sub, FX_SCALE_SQ, M3, V3,
};
use vstd::prelude::*;

verus! {

/// One circular arc of the trajectory.  `radius_vec` points from the
/// arc's start to `center` (so the start is `center - radius_vec`);
/// `half_angle` is half of the arc's angular extent, a convention the
/// renderer depends on (a full circle would be `half_angle == pi`).
/// The three vectors are stored with y and z swapped, the renderer's
/// axis convention.
#[derive(Clone, Copy, Debug, PartialEq, Eq, Structural)]
pub struct TorusSegment {
    pub normal: V3,
    pub center: V3,
    pub radius_vec: V3,
    pub half_angle: i64,
}

/// The local frame carried from one sample to the next.
#[derive(Clone, Copy, Debug, PartialEq, Eq, Structural)]
pub struct FrameState {
    pub point: V3,
    pub tangent: V3,
    pub normal: V3,
    pub prev_phase: i64,
}

/// Why one step of the scan cannot produce a segment.
#[derive(Clone, Copy, Debug, PartialEq, Eq, Structural)]
pub enum StepError {
    /// The sample's effective field is zero: no circle radius exists.
    ZeroField,
    /// A frame vector became too short to normalize (possible only
    /// under saturation; never on ordinary inputs).
    ShortFrame,
}

/// Why the builder rejects its input.
#[derive(Clone, Copy, Debug, PartialEq, Eq, Structural)]
pub enum BuildError {
    /// `delta_t` was not positive.
    NonPositiveDeltaT,
    /// `amplitude` was not positive.
    NonPositiveAmplitude,
    /// The sample at `index` has zero effective field.
    DegenerateSample { index: usize },
    /// The frame degenerated at the sample at `index`.
    DegenerateFrame { index: usize },
}

/// The frame before the first sample: the origin, tangent +z,
/// normal -x.
pub open spec fn spec_init_frame() -> FrameState {
    FrameState {
        point: V3 { x: 0, y: 0, z: 0 },
        tangent: V3 { x: 0, y: 0, z: FX_SCALE },
        normal: V3 { x: FX_NEG_ONE, y: 0, z: 0 },
        prev_phase: 0,
    }
}

/// The frame's tangent can serve as a rotation axis.
pub open spec fn frame_wf(f: FrameState) -> bool {
    axis_in_range(f.tangent)
}

/// The sample's phase, in fixed-point radians.
pub open spec fn spec_phase(sample: PulseSample) -> i64 {
    spec_to_radians(sample.phase_degrees)
}

/// The effective transverse field of one sample:
/// `|amplitude_fraction / 100 * amplitude|` through its two components
/// `u_x = .. * cos(phase)` and `u_y = .. * sin(phase)`.
#[verifier::opaque]
pub open spec fn spec_u_eff(sample: PulseSample, amplitude: i64) -> i64 {
    let scale = spec_fx_mul(spec_fx_divi(sample.amplitude_fraction, 100), amplitude);
    let u_x = spec_fx_mul(scale, spec_cos(spec_phase(sample)));
    let u_y = spec_fx_mul(scale, spec_sin(spec_phase(sample)));
    spec_fx_hypot(u_x, u_y)
}

/// The arc's angular extent: `2 pi * u_eff * delta_t`.
pub open spec fn spec_alpha(sample: PulseSample, delta_t: i64, amplitude: i64) -> i64 {
    spec_fx_mul(spec_fx_mul(FX_TWO_PI, spec_u_eff(sample, amplitude)), delta_t)
}

/// One step of the scan: from the current frame and one sample to the
/// next frame and the emitted segment.
#[verifier::opaque]
pub open spec fn spec_step(f: FrameState, sample: PulseSample, delta_t: i64, amplitude: i64) -> Result<
    (FrameState, TorusSegment),
    StepError,
> {
    let phase = spec_phase(sample);
    let u_eff = spec_u_eff(sample, amplitude);
    let alpha = spec_alpha(sample, delta_t, amplitude);
    if u_eff <= 0 {
        Err(StepError::ZeroField)
    } else {
        let rot1 = spec_rotation(f.tangent, spec_fx_sub(phase, f.prev_phase));
        match spec_v_normalize(spec_m_apply(rot1, f.normal)) {
            None => Err(StepError::ShortFrame),
            Some(normal_new) => {
                let radius_vec = spec_v_scale(
                    spec_fx_div(amplitude, u_eff),
                    spec_v_cross(f.tangent, normal_new),
                );
                let center = spec_v_add(f.point, radius_vec);
                let rot2 = spec_rotation(normal_new, alpha);
                let point_new = spec_v_add(
                    spec_m_apply(rot2, spec_v_sub(f.point, center)),
                    center,
                );
                match spec_v_normalize(spec_v_sub(center, point_new)) {
                    None => Err(StepError::ShortFrame),
                    Some(dir) => {
                        let tangent_new = spec_v_cross(normal_new, dir);
                        let seg = TorusSegment {
                            normal: spec_swap_yz(normal_new),
                            center: spec_swap_yz(center),
                            radius_vec: spec_swap_yz(radius_vec),
                            half_angle: spec_fx_divi(alpha, 2),
                        };
                        let f2 = FrameState {
                            point: point_new,
                            tangent: tangent_new,
                            normal: normal_new,
                            prev_phase: phase,
                        };
                        Ok((f2, seg))
                    },
                }
            },
        }
    }
}

/// The frame after the first `k` samples, or the index and cause of
/// the first failing step.
pub open spec fn spec_frame_after(
    samples: Seq<PulseSample>,
    delta_t: i64,
    amplitude: i64,
    k: int,
) -> Result<FrameState, (int, StepError)>
    decreases k,
{
    if k <= 0 {
        Ok(spec_init_frame())
    } else {
        match spec_frame_after(samples, delta_t, amplitude, k - 1) {
            Err(e) => Err(e),
            Ok(f) => match spec_step(f, samples[k - 1], delta_t, amplitude) {
                Ok(p) => Ok(p.0),
                Err(se) => Err(((k - 1), se)),
            },
        }
    }
}

/// The segment emitted for sample `k` (meaningful when the scan
/// reaches it).
pub open spec fn spec_segment_at(
    samples: Seq<PulseSample>,
    delta_t: i64,
    amplitude: i64,
    k: int,
) -> TorusSegment {
    spec_step(
        spec_frame_after(samples, delta_t, amplitude, k)->Ok_0,
        samples[k],
        delta_t,
        amplitude,
    )->Ok_0.1
}

/// The whole builder: parameter checks, then the left-to-right scan,
/// one segment per sample, in order.
pub open spec fn spec_build(samples: Seq<PulseSample>, delta_t: i64, amplitude: i64) -> Result<
    Seq<TorusSegment>,
    BuildError,
> {
    if delta_t <= 0 {
        Err(BuildError::NonPositiveDeltaT)
    } else if amplitude <= 0 {
        Err(BuildError::NonPositiveAmplitude)
    } else {
        match spec_frame_after(samples, delta_t, amplitude, samples.len() as int) {
            Ok(_) => Ok(
                Seq::new(samples.len(), |k: int| spec_segment_at(samples, delta_t, amplitude, k)),
            ),
            Err(e) => Err(
                match e.1 {
                    StepError::ZeroField => BuildError::DegenerateSample { index: e.0 as usize },
                    StepError::ShortFrame => BuildError::DegenerateFrame { index: e.0 as usize },
                },
            ),
        }
    }
}

/// Once a step has failed, every longer prefix reports that failure.
proof fn lemma_frame_after_err_persists(
    samples: Seq<PulseSample>,
    delta_t: i64,
    amplitude: i64,
    k: int,
    m: int,
)
    requires
        0 <= k <= m,
        spec_frame_after(samples, delta_t, amplitude, k) is Err,
    ensures
        spec_frame_after(samples, delta_t, amplitude, m) == spec_frame_after(
            samples,
            delta_t,
            amplitude,
            k,
        ),
    decreases m - k,
{
    if m > k {
        lemma_frame_after_err_persists(samples, delta_t, amplitude, k, m - 1);
    }
}

fn step_frame(f: &FrameState, sample: PulseSample, delta_t: i64, amplitude: i64) -> (r: Result<
    (FrameState, TorusSegment),
    StepError,
>)
    requires
        frame_wf(*f),
    ensures
        r == spec_step(*f, sample, delta_t, amplitude),
        r matches Ok(p) ==> frame_wf(p.0),
{
    proof {
        reveal(spec_step);
        reveal(spec_u_eff);
    }
    let phase = fx_to_radians(sample.phase_degrees);
    let scale = fx_mul(fx_divi(sample.amplitude_fraction, 100), amplitude);
    let u_x = fx_mul(scale, fx_cos(phase));
    let u_y = fx_mul(scale, fx_sin(phase));
    let u_eff = fx_hypot(u_x, u_y);
    let alpha = fx_mul(fx_mul(FX_TWO_PI, u_eff), delta_t);
    if u_eff <= 0 {
        return Err(StepError::ZeroField);
    }
    let rot1 = rotation_matrix(f.tangent, fx_sub(phase, f.prev_phase));
    let n1 = m_apply(&rot1, f.normal);
    let normal_new = match v_normalize(n1) {
        None => {
            return Err(StepError::ShortFrame);
        },
        Some(nn) => nn,
    };
    proof {
        lemma_normalize_unit(n1);
    }
    let radius_vec = v_scale(fx_div(amplitude, u_eff), v_cross(f.tangent, normal_new));
    let center = v_add(f.point, radius_vec);
    let rot2 = rotation_matrix(normal_new, alpha);
    let point_new = v_add(m_apply(&rot2, v_sub(f.point, center)), center);
    let cp = v_sub(center, point_new);
    let dir = match v_normalize(cp) {
        None => {
            return Err(StepError::ShortFrame);
        },
        Some(d) => d,
    };
    proof {
        lemma_normalize_unit(cp);
        lemma_cross_unit_axis(normal_new, dir);
    }
    let tangent_new = v_cross(normal_new, dir);
    let seg = TorusSegment {
        normal: swap_yz(normal_new),
        center: swap_yz(center),
        radius_vec: swap_yz(radius_vec),
        half_angle: fx_divi(alpha, 2),
    };
    let f2 = FrameState { point: point_new, tangent: tangent_new, normal: normal_new, prev_phase: phase };
    Ok((f2, seg))
}

/// Build the ordered segment list from the ordered sample list: one
/// segment per sample.  Rejects a non-positive time step or amplitude,
/// and reports the index of the first zero-field (or, under
/// saturation, frame-degenerate) sample.  The result is pinned exactly
/// to `spec_build`, a function of the arguments alone.
pub fn build(samples: &Vec<PulseSample>, delta_t: i64, amplitude: i64) -> (r: Result<
    Vec<TorusSegment>,
    BuildError,
>)
    ensures
        ({
            let m = spec_build(samples@, delta_t, amplitude);
            match r {
                Ok(v) => m == Ok::<Seq<TorusSegment>, BuildError>(v@),
                Err(e) => m == Err::<Seq<TorusSegment>, BuildError>(e),
            }
        }),
        r matches Ok(v) ==> v@.len() == samples@.len(),
        samples@.len() == 0 && delta_t > 0 && amplitude > 0 ==> (r matches Ok(v) && v@.len()
            == 0),
        r == Err::<Vec<TorusSegment>, BuildError>(BuildError::NonPositiveDeltaT) <==> delta_t
            <= 0,
        r == Err::<Vec<TorusSegment>, BuildError>(BuildError::NonPositiveAmplitude) <==> (delta_t
            > 0 && amplitude <= 0),
{
    if delta_t <= 0 {
        return Err(BuildError::NonPositiveDeltaT);
    }
    if amplitude <= 0 {
        return Err(BuildError::NonPositiveAmplitude);
    }
    let mut out: Vec<TorusSegment> = Vec::new();
    let mut frame = FrameState {
        point: V3 { x: 0, y: 0, z: 0 },
        tangent: V3 { x: 0, y: 0, z: FX_SCALE },
        normal: V3 { x: FX_NEG_ONE, y: 0, z: 0 },
        prev_phase: 0,
    };
    let n = samples.len();
    let mut i: usize = 0;
    while i < n
        invariant
            i <= n,
            n == samples@.len(),
            0 < delta_t,
            0 < amplitude,
            spec_frame_after(samples@, delta_t, amplitude, i as int) == Ok::<
                FrameState,
                (int, StepError),
            >(frame),
            frame_wf(frame),
            out@.len() == i as int,
            forall|k: int|
                0 <= k < i as int ==> out@[k] == spec_segment_at(samples@, delta_t, amplitude, k),
        decreases n - i,
    {
        let sample = samples[i];
        match step_frame(&frame, sample, delta_t, amplitude) {
            Ok(p) => {
                proof {
                    assert(spec_frame_after(samples@, delta_t, amplitude, i + 1) == Ok::<
                        FrameState,
                        (int, StepError),
                    >(p.0));
                    assert(spec_segment_at(samples@, delta_t, amplitude, i as int) == p.1);
                }
                out.push(p.1);
                frame = p.0;
                i = i + 1;
            },
            Err(se) => {
                proof {
                    assert(spec_frame_after(samples@, delta_t, amplitude, i + 1) == Err::<
                        FrameState,
                        (int, StepError),
                    >((i as int, se)));
                    lemma_frame_after_err_persists(
                        samples@,
                        delta_t,
                        amplitude,
                        i + 1,
                        samples@.len() as int,
                    );
                }
                return Err(
                    match se {
                        StepError::ZeroField => BuildError::DegenerateSample { index: i },
                        StepError::ShortFrame => BuildError::DegenerateFrame { index: i },
                    },
                );
            },
        }
    }
    proof {
        assert(out@ =~= Seq::new(
            samples@.len(),
            |k: int| spec_segment_at(samples@, delta_t, amplitude, k),
        ));
    }
    Ok(out)
}

impl TorusSegment {
    /// The segment list for a parsed pulse file: `build` on its sample
    /// sequence.
    pub fn aht_from_bruker(data: &BrukerData, delta_t: i64, amplitude: i64) -> (r: Result<
        Vec<TorusSegment>,
        BuildError,
    >)
        ensures
            ({
                let m = spec_build(data.pulse_sequence@, delta_t, amplitude);
                match r {
                    Ok(v) => m == Ok::<Seq<TorusSegment>, BuildError>(v@),
                    Err(e) => m == Err::<Seq<TorusSegment>, BuildError>(e),
                }
            }),
            r matches Ok(v) ==> v@.len() == data.pulse_sequence@.len(),
    {
        build(&data.pulse_sequence, delta_t, amplitude)
    }
}

/// Every emitted segment's normal is a unit vector: its exact squared
/// length (in raw units squared) is within `16 * FX_SCALE` of one,
/// that is, its length is 1 to within `8e-9`.
pub proof fn lemma_unit_normals(samples: Seq<PulseSample>, delta_t: i64, amplitude: i64, k: int)
    requires
        spec_build(samples, delta_t, amplitude) is Ok,
        0 <= k < samples.len(),
    ensures
        ({
            let seg = spec_build(samples, delta_t, amplitude)->Ok_0[k];
            FX_SCALE_SQ - 16 * FX_SCALE <= norm_sq_int(seg.normal) <= FX_SCALE_SQ + 16 * FX_SCALE
        }),
{
    reveal(spec_step);
    lemma_scan_reaches(samples, delta_t, amplitude, k + 1);
    let f = spec_frame_after(samples, delta_t, amplitude, k)->Ok_0;
    let rot1 = spec_rotation(f.tangent, spec_fx_sub(spec_phase(samples[k]), f.prev_phase));
    let n1 = spec_m_apply(rot1, f.normal);
    lemma_m_apply_in_range(rot1, f.normal);
    lemma_normalize_unit(n1);
    let seg = spec_build(samples, delta_t, amplitude)->Ok_0[k];
    assert(seg == spec_segment_at(samples, delta_t, amplitude, k));
    assert(seg.normal == spec_swap_yz(spec_v_normalize(n1)->Some_0));
}

/// If the whole scan succeeds, so does every prefix of it.
proof fn lemma_scan_reaches(samples: Seq<PulseSample>, delta_t: i64, amplitude: i64, k: int)
    requires
        spec_build(samples, delta_t, amplitude) is Ok,
        0 <= k <= samples.len(),
    ensures
        spec_frame_after(samples, delta_t, amplitude, k) is Ok,
        k < samples.len() ==> spec_step(
            spec_frame_after(samples, delta_t, amplitude, k)->Ok_0,
            samples[k],
            delta_t,
            amplitude,
        ) is Ok,
{
    if spec_frame_after(samples, delta_t, amplitude, k) is Err {
        lemma_frame_after_err_persists(samples, delta_t, amplitude, k, samples.len() as int);
        assert(false);
    }
    if k < samples.len() && spec_step(
        spec_frame_after(samples, delta_t, amplitude, k)->Ok_0,
        samples[k],
        delta_t,
        amplitude,
    ) is Err {
        assert(spec_frame_after(samples, delta_t, amplitude, k + 1) is Err);
        lemma_frame_after_err_persists(samples, delta_t, amplitude, k + 1, samples.len() as int);
        assert(false);
    }
}

/// Frame continuity: rotating segment `k`'s arc start (its center
/// minus, equivalently its negated `radius_vec` plus, the center)
/// about the center, in the plane of the segment's normal, by the
/// arc's full angle `alpha` (whose floored half is the stored
/// `half_angle`) reproduces exactly the point from which segment
/// `k + 1` is derived.  The one proviso: the arc start itself must not
/// have saturated when the center was formed.
pub proof fn lemma_frame_continuity(
    samples: Seq<PulseSample>,
    delta_t: i64,
    amplitude: i64,
    k: int,
)
    requires
        spec_build(samples, delta_t, amplitude) is Ok,
        0 <= k < samples.len(),
        ({
            let f = spec_frame_after(samples, delta_t, amplitude, k)->Ok_0;
            let rv = spec_swap_yz(spec_segment_at(samples, delta_t, amplitude, k).radius_vec);
            &&& FX_MIN <= f.point.x + rv.x <= FX_MAX
            &&& FX_MIN <= f.point.y + rv.y <= FX_MAX
            &&& FX_MIN <= f.point.z + rv.z <= FX_MAX
        }),
    ensures
        ({
            let seg = spec_segment_at(samples, delta_t, amplitude, k);
            let normal = spec_swap_yz(seg.normal);
            let center = spec_swap_yz(seg.center);
            let rv = spec_swap_yz(seg.radius_vec);
            let alpha = spec_alpha(samples[k], delta_t, amplitude);
            let next = spec_frame_after(samples, delta_t, amplitude, k + 1)->Ok_0;
            &&& seg.half_angle == spec_fx_divi(alpha, 2)
            &&& spec_v_add(spec_m_apply(spec_rotation(normal, alpha), spec_v_neg(rv)), center)
                == next.point
        }),
{
    reveal(spec_step);
    lemma_scan_reaches(samples, delta_t, amplitude, k + 1);
    let f = spec_frame_after(samples, delta_t, amplitude, k)->Ok_0;
    let seg = spec_segment_at(samples, delta_t, amplitude, k);
    let rv = spec_swap_yz(seg.radius_vec);
    let center = spec_swap_yz(seg.center);
    assert(center == spec_v_add(f.point, rv));
    assert(spec_v_neg(rv) == spec_v_sub(f.point, center));
}

/// Determinism: `build`'s contract pins its result to `spec_build`, a
/// function of the inputs alone, so any two results obtained from
/// equal inputs are identical.
pub proof fn lemma_build_deterministic(
    samples: Seq<PulseSample>,
    delta_t: i64,
    amplitude: i64,
    r1: Result<Seq<TorusSegment>, BuildError>,
    r2: Result<Seq<TorusSegment>, BuildError>,
)
    requires
        r1 == spec_build(samples, delta_t, amplitude),
        r2 == spec_build(samples, delta_t, amplitude),
    ensures
        r1 == r2,
{
}

} // verus!
