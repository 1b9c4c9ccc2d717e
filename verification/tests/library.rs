use ahtsdf::aht::{build, BuildError, TorusSegment};
use ahtsdf::trig::{fx_cos, fx_sin};
use ahtsdf::bruker::{BrukerData, PulseSample};
use ahtsdf::fixed::{FX_MAX, FX_SCALE};
use ahtsdf::vec3::{rotation_matrix, M3, V3};

fn fx(x: f64) -> i64 {
    (x * FX_SCALE as f64).round() as i64
}

fn fl(v: i64) -> f64 {
    v as f64 / FX_SCALE as f64
}

fn flv(v: V3) -> [f64; 3] {
    [fl(v.x), fl(v.y), fl(v.z)]
}

fn sample(frac: f64, phase_deg: f64) -> PulseSample {
    PulseSample { amplitude_fraction: fx(frac), phase_degrees: fx(phase_deg) }
}

fn norm(v: [f64; 3]) -> f64 {
    (v[0] * v[0] + v[1] * v[1] + v[2] * v[2]).sqrt()
}

/// f64 Rodrigues rotation (right-hand rule) for cross-checking.
fn rotate(axis: [f64; 3], angle: f64, v: [f64; 3]) -> [f64; 3] {
    let (s, c) = angle.sin_cos();
    let ic = 1.0 - c;
    let dot = axis[0] * v[0] + axis[1] * v[1] + axis[2] * v[2];
    let cx = [
        axis[1] * v[2] - axis[2] * v[1],
        axis[2] * v[0] - axis[0] * v[2],
        axis[0] * v[1] - axis[1] * v[0],
    ];
    [
        v[0] * c + cx[0] * s + axis[0] * dot * ic,
        v[1] * c + cx[1] * s + axis[1] * dot * ic,
        v[2] * c + cx[2] * s + axis[2] * dot * ic,
    ]
}

/// Undo the renderer's y/z swap.
fn unswap(v: V3) -> [f64; 3] {
    [fl(v.x), fl(v.z), fl(v.y)]
}

#[test]
fn empty_input_gives_empty_output() {
    let samples: Vec<PulseSample> = vec![];
    let r = build(&samples, fx(25e-6), fx(10000.0)).unwrap();
    assert_eq!(r.len(), 0);
}

#[test]
fn single_pulse_quarter_turn() {
    let samples = vec![sample(100.0, 0.0)];
    let r = build(&samples, fx(25e-6), fx(10000.0)).unwrap();
    assert_eq!(r.len(), 1);
    let half = fl(r[0].half_angle);
    assert!((half - std::f64::consts::FRAC_PI_4).abs() < 1e-4, "half_angle = {}", half);
    let rv = flv(r[0].radius_vec);
    assert!((norm(rv) - 1.0).abs() < 1e-6, "radius = {}", norm(rv));
}

#[test]
fn two_pulse_phase_jump_rotates_normal() {
    let samples = vec![sample(100.0, 0.0), sample(100.0, 90.0)];
    let r = build(&samples, fx(25e-6), fx(10000.0)).unwrap();
    assert_eq!(r.len(), 2);
    let n1 = flv(r[0].normal);
    let n2 = flv(r[1].normal);
    assert!((n1[0] + 1.0).abs() < 1e-5 && n1[1].abs() < 1e-5 && n1[2].abs() < 1e-5);
    // The second normal is the first rotated by 90 degrees about the
    // first segment's tangent: it lands on (0, 1, 0) in output axes.
    assert!(n2[0].abs() < 1e-5 && (n2[1] - 1.0).abs() < 1e-5 && n2[2].abs() < 1e-5);
    assert_ne!(r[0].normal, r[1].normal);
}

#[test]
fn unit_normals_along_a_curve() {
    let samples =
        vec![sample(100.0, 0.0), sample(80.0, 30.0), sample(60.0, 60.0), sample(100.0, 90.0)];
    let r = build(&samples, fx(25e-6), fx(10000.0)).unwrap();
    assert_eq!(r.len(), 4);
    for seg in r.iter() {
        let n = norm(flv(seg.normal));
        assert!((n - 1.0).abs() < 1e-6, "normal length = {}", n);
    }
}

#[test]
fn frame_continuity_between_segments() {
    let samples = vec![sample(100.0, 0.0), sample(90.0, 45.0), sample(70.0, 120.0)];
    let r = build(&samples, fx(25e-6), fx(10000.0)).unwrap();
    for k in 0..r.len() - 1 {
        let normal = unswap(r[k].normal);
        let center = unswap(r[k].center);
        let rv = unswap(r[k].radius_vec);
        let start = [center[0] - rv[0], center[1] - rv[1], center[2] - rv[2]];
        let moved = [start[0] - center[0], start[1] - center[1], start[2] - center[2]];
        let rot = rotate(normal, 2.0 * fl(r[k].half_angle), moved);
        let end = [rot[0] + center[0], rot[1] + center[1], rot[2] + center[2]];
        let next_center = unswap(r[k + 1].center);
        let next_rv = unswap(r[k + 1].radius_vec);
        let next_start =
            [next_center[0] - next_rv[0], next_center[1] - next_rv[1], next_center[2] - next_rv[2]];
        for i in 0..3 {
            assert!((end[i] - next_start[i]).abs() < 1e-5, "axis {}: {} vs {}", i, end[i], next_start[i]);
        }
    }
}

#[test]
fn determinism_bit_identical() {
    let samples = vec![sample(100.0, 0.0), sample(55.5, 33.3), sample(10.0, 270.0)];
    let r1 = build(&samples, fx(25e-6), fx(10000.0)).unwrap();
    let r2 = build(&samples, fx(25e-6), fx(10000.0)).unwrap();
    assert_eq!(r1, r2);
}

#[test]
fn rejects_nonpositive_parameters() {
    let samples = vec![sample(100.0, 0.0)];
    assert_eq!(build(&samples, 0, fx(10000.0)), Err(BuildError::NonPositiveDeltaT));
    assert_eq!(build(&samples, -5, fx(10000.0)), Err(BuildError::NonPositiveDeltaT));
    assert_eq!(build(&samples, fx(25e-6), 0), Err(BuildError::NonPositiveAmplitude));
    assert_eq!(build(&samples, fx(25e-6), -1), Err(BuildError::NonPositiveAmplitude));
}

#[test]
fn rejects_zero_field_sample() {
    let samples = vec![sample(100.0, 0.0), sample(0.0, 90.0)];
    assert_eq!(
        build(&samples, fx(25e-6), fx(10000.0)),
        Err(BuildError::DegenerateSample { index: 1 })
    );
}

#[test]
fn aht_from_bruker_matches_build() {
    let data = BrukerData { pulse_sequence: vec![sample(100.0, 0.0), sample(50.0, 180.0)] };
    let r1 = TorusSegment::aht_from_bruker(&data, fx(25e-6), fx(10000.0)).unwrap();
    let r2 = build(&data.pulse_sequence, fx(25e-6), fx(10000.0)).unwrap();
    assert_eq!(r1, r2);
}

#[test]
fn rotation_matrix_orthonormal() {
    let axes = [
        V3 { x: fx(1.0), y: 0, z: 0 },
        V3 { x: 0, y: 0, z: fx(1.0) },
        V3 { x: fx(0.6), y: fx(0.8), z: 0 },
    ];
    let angles = [fx(0.5), fx(1.0), fx(-2.5), fx(3.1)];
    for axis in axes.iter() {
        for angle in angles.iter() {
            let m = rotation_matrix(*axis, *angle);
            let rows = [flv(m.rx), flv(m.ry), flv(m.rz)];
            for i in 0..3 {
                for j in 0..3 {
                    let dot: f64 = (0..3).map(|k| rows[i][k] * rows[j][k]).sum();
                    let expect = if i == j { 1.0 } else { 0.0 };
                    assert!((dot - expect).abs() < 1e-6, "row {} . row {} = {}", i, j, dot);
                }
            }
        }
    }
}

#[test]
fn rotation_by_zero_is_identity_exactly() {
    let axis = V3 { x: fx(0.6), y: fx(0.8), z: 0 };
    let m = rotation_matrix(axis, 0);
    let id = M3 {
        rx: V3 { x: FX_SCALE, y: 0, z: 0 },
        ry: V3 { x: 0, y: FX_SCALE, z: 0 },
        rz: V3 { x: 0, y: 0, z: FX_SCALE },
    };
    assert_eq!(m, id);
}

#[test]
fn parses_two_column_file() {
    let text = b"100.0, 0.0\n# a comment line\n50.5,90\n".to_vec();
    let d = BrukerData::from_csv(&text).unwrap();
    assert_eq!(d.pulse_sequence.len(), 2);
    assert_eq!(d.pulse_sequence[0], sample(100.0, 0.0));
    assert_eq!(d.pulse_sequence[1].amplitude_fraction, 50_500_000_000);
    assert_eq!(d.pulse_sequence[1].phase_degrees, 90_000_000_000);
}

#[test]
fn parses_signs_dots_blanks_and_crlf() {
    let text = b"-.5,+2.\r\n 1 0 0 ,\t0\r\n".to_vec();
    let d = BrukerData::from_csv(&text).unwrap();
    assert_eq!(d.pulse_sequence.len(), 2);
    assert_eq!(d.pulse_sequence[0].amplitude_fraction, -500_000_000);
    assert_eq!(d.pulse_sequence[0].phase_degrees, 2_000_000_000);
    assert_eq!(d.pulse_sequence[1].amplitude_fraction, 100_000_000_000);
    assert_eq!(d.pulse_sequence[1].phase_degrees, 0);
}

#[test]
fn oversized_number_saturates() {
    let text = b"99999999999999999999999,0\n".to_vec();
    let d = BrukerData::from_csv(&text).unwrap();
    assert_eq!(d.pulse_sequence[0].amplitude_fraction, FX_MAX);
}

#[test]
fn parse_errors_name_the_line() {
    assert_eq!(BrukerData::from_csv(&b"abc,1\n".to_vec()).unwrap_err().line, 1);
    assert_eq!(BrukerData::from_csv(&b"1,2\n\n3,4\n".to_vec()).unwrap_err().line, 2);
    assert_eq!(BrukerData::from_csv(&b"1\n".to_vec()).unwrap_err().line, 1);
    assert_eq!(BrukerData::from_csv(&b"1,2,3\n".to_vec()).unwrap_err().line, 1);
    assert_eq!(BrukerData::from_csv(&b"# ok\n1,\n".to_vec()).unwrap_err().line, 2);
    assert_eq!(BrukerData::from_csv(&b"1,2\n5,1e3\n".to_vec()).unwrap_err().line, 2);
}

#[test]
fn trigonometry_matches_reference() {
    assert_eq!(fx_sin(0), 0);
    assert_eq!(fx_cos(0), FX_SCALE);
    for deg in [-350, -90, -30, 15, 45, 90, 135, 180, 270, 359, 720] {
        let x = (deg as f64).to_radians();
        let s = fl(fx_sin(fx(x)));
        let c = fl(fx_cos(fx(x)));
        assert!((s - x.sin()).abs() < 1e-6, "sin {}: {} vs {}", deg, s, x.sin());
        assert!((c - x.cos()).abs() < 1e-6, "cos {}: {} vs {}", deg, c, x.cos());
    }
}
