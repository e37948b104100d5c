//! Matrices between colour spaces, and the knee of the tone curve.

use erika::color::{ColorPrimaries, TransferFunction};
use erika::float::F32;
use erika::hdr::{ContentLightMetadata, HdrMetadata};
use erika::knee::{
    knee_has_room, solve_st2094_10, st2094_pick_knee, st2094_pick_knee_impl, Knee,
};
use erika::matrix::{
    dovi_lms_to_rgb_matrix, ipt_lms2rgb_matrix, ipt_rgb2lms_matrix, rgb_to_xyz_matrix,
    source_to_target_rgb_matrix, xyz_to_rgb_matrix, RgbMatrix,
};
use erika::modes::ToneMapOperator;
use erika::pipeline::{ToneMapConfig, VideoRenderPipeline};
use erika::source::{SourceColorState, TargetColorState};

fn f(value: f32) -> F32 {
    F32::from_bits(value.to_bits())
}

fn v(value: F32) -> f32 {
    f32::from_bits(value.to_bits())
}

fn matrix(rows: [[f32; 3]; 3]) -> RgbMatrix {
    RgbMatrix::new(rows.map(|row| row.map(f)))
}

fn numbers(matrix: RgbMatrix) -> [[f32; 3]; 3] {
    matrix.rows().map(|row| row.map(v))
}

fn assert_matrix_close(actual: [[f32; 3]; 3], expected: [[f32; 3]; 3], epsilon: f32) {
    for row in 0..3 {
        for col in 0..3 {
            assert!(
                (actual[row][col] - expected[row][col]).abs() <= epsilon,
                "matrix[{row}][{col}] expected {}, got {}",
                expected[row][col],
                actual[row][col]
            );
        }
    }
}

fn pq_code_from_nits(nits: f32) -> f32 {
    if !nits.is_finite() || nits <= 0.0 {
        return 0.0;
    }
    let p = (nits / 10_000.0).clamp(0.0, 1.0).powf(0.1593017578125);
    ((0.8359375 + 18.8515625 * p) / (1.0 + 18.6875 * p)).powf(78.84375)
}

fn nits_from_pq_code(code: f32) -> f32 {
    if !code.is_finite() || code <= 0.0 {
        return 0.0;
    }
    let p = code.clamp(0.0, 1.0).powf(1.0 / 78.84375);
    let num = (p - 0.8359375).max(0.0);
    let den = (18.8515625 - 18.6875 * p).max(0.000001);
    10_000.0 * (num / den).powf(1.0 / 0.1593017578125)
}

/// Codes of the perceptual quantizer as the shaders compute them.
fn pq_code(nits: f32) -> f32 {
    let p = (nits / 10000.0).clamp(0.0, 1.0).powf(0.1593017578125);
    ((0.8359375 + 18.8515625 * p) / (1.0 + 18.6875 * p).max(0.000_001)).powf(78.84375)
}

fn nits_from_pq(code: f32) -> f32 {
    let p = code.clamp(0.0, 1.0).powf(1.0 / 78.84375);
    let num = (p - 0.8359375).max(0.0);
    let den = (18.8515625 - 18.6875 * p).max(0.000_001);
    10000.0 * (num / den).powf(1.0 / 0.1593017578125)
}

fn pick_knee(min: f32, max: f32, avg: f32, out_min: f32, out_max: f32) -> (f32, f32) {
    let (source, target) = st2094_pick_knee(f(min), f(max), f(avg), f(out_min), f(out_max));
    (v(source), v(target))
}

/// The knee for numbers in nits: picked on the scale of the quantizer.
fn pick_knee_nits(
    min: f32,
    max: f32,
    avg: f32,
    out_min: f32,
    out_max: f32,
    adaptation: f32,
) -> (f32, f32) {
    let (source, target) = st2094_pick_knee_impl(
        f(pq_code_from_nits(min)),
        f(pq_code_from_nits(max)),
        f(pq_code_from_nits(avg)),
        f(pq_code_from_nits(out_min)),
        f(pq_code_from_nits(out_max)),
        f(adaptation),
    );
    (nits_from_pq_code(v(source)), nits_from_pq_code(v(target)))
}

fn solve(x: [f32; 3], y: [f32; 3]) -> [f32; 4] {
    solve_st2094_10(f(x[0]), f(x[1]), f(x[2]), f(y[0]), f(y[1]), f(y[2])).map(v)
}

#[test]
fn bt709_to_bt709_gamut_matrix_is_identity() {
    let matrix = source_to_target_rgb_matrix(ColorPrimaries::Bt709, ColorPrimaries::Bt709);
    assert_matrix_close(numbers(matrix), numbers(RgbMatrix::identity()), 0.00001);
}

#[test]
fn unknown_primaries_fall_back_to_bt709_for_gamut_matrix() {
    let matrix = source_to_target_rgb_matrix(ColorPrimaries::Unknown, ColorPrimaries::Bt709);
    assert_matrix_close(numbers(matrix), numbers(RgbMatrix::identity()), 0.00001);
}

#[test]
fn bt2020_to_bt709_gamut_matrix_is_stable() {
    let matrix = source_to_target_rgb_matrix(ColorPrimaries::Bt2020, ColorPrimaries::Bt709);

    assert_matrix_close(
        numbers(matrix),
        [
            [1.66049, -0.58764, -0.07285],
            [-0.12455, 1.13290, -0.00835],
            [-0.01815, -0.10058, 1.11873],
        ],
        0.0002,
    );
}

#[test]
fn display_p3_to_bt709_gamut_matrix_is_stable() {
    let matrix = source_to_target_rgb_matrix(ColorPrimaries::DisplayP3, ColorPrimaries::Bt709);

    assert_matrix_close(
        numbers(matrix),
        [
            [1.22494, -0.22494, 0.0],
            [-0.04206, 1.04206, 0.0],
            [-0.01964, -0.07864, 1.09827],
        ],
        0.0002,
    );
}

#[test]
fn ipt_matrices_match_libplacebo_values_and_white_is_invariant() {
    let bt709 = ipt_rgb2lms_matrix(ColorPrimaries::Bt709);
    let expected709 = [
        [0.2957641, 0.6230725, 0.0811667],
        [0.1561920, 0.7272516, 0.1165579],
        [0.0351023, 0.1565899, 0.8083030],
    ];
    for (row, expected) in numbers(bt709).iter().zip(expected709) {
        for (value, expected) in row.iter().zip(expected) {
            assert!((value - expected).abs() < 1e-5, "{value} != {expected}");
        }
    }
    // White maps to equal cone responses and back.
    for primaries in [
        ColorPrimaries::Bt709,
        ColorPrimaries::Bt2020,
        ColorPrimaries::DisplayP3,
    ] {
        let matrix = ipt_rgb2lms_matrix(primaries);
        let lms = matrix.mul_vec([f(1.0), f(1.0), f(1.0)]);
        for value in lms {
            assert!((v(value) - 1.0).abs() < 1e-3, "white -> {lms:?}");
        }
        let inverse = ipt_lms2rgb_matrix(primaries);
        let back = inverse.mul_vec(lms);
        for value in back {
            assert!((v(value) - 1.0).abs() < 1e-3, "roundtrip -> {back:?}");
        }
    }
}

#[test]
fn dovi_lms_matrix_composite_matches_libplacebo_default() {
    let matrix = dovi_lms_to_rgb_matrix(matrix([
        [5845.0 / 16384.0, 9702.0 / 16384.0, 837.0 / 16384.0],
        [2568.0 / 16384.0, 12256.0 / 16384.0, 1561.0 / 16384.0],
        [0.0, 679.0 / 16384.0, 15705.0 / 16384.0],
    ]));

    let expected = [
        [0.753741425, 0.198592403, 0.047534181],
        [0.045791140, 0.941773555, 0.012526896],
        [-0.001211792, 0.017623405, 0.983739703],
    ];
    for (row, expected_row) in numbers(matrix).iter().zip(expected) {
        for (value, expected_value) in row.iter().zip(expected_row) {
            assert!((value - expected_value).abs() < 1e-5);
        }
    }
}

/// The arithmetic of the processor, in the same order.
fn plain_mul(a: [[f32; 3]; 3], b: [[f32; 3]; 3]) -> [[f32; 3]; 3] {
    let mut rows = [[0.0; 3]; 3];
    for row in 0..3 {
        for col in 0..3 {
            rows[row][col] =
                a[row][0] * b[0][col] + a[row][1] * b[1][col] + a[row][2] * b[2][col];
        }
    }
    rows
}

#[test]
fn matrices_are_those_of_the_processor() {
    let p3 = rgb_to_xyz_matrix(ColorPrimaries::DisplayP3);
    let back = xyz_to_rgb_matrix(ColorPrimaries::Bt2020);
    assert_eq!(numbers(back.mul(p3)), plain_mul(numbers(back), numbers(p3)));
    let rows = p3.row4s();
    assert_eq!(rows[2][1], p3.rows()[2][1]);
    assert_eq!(rows[1][3], f(0.0));
    let simple = matrix([[2.0, 0.0, 0.0], [0.0, 4.0, 0.0], [0.0, 0.0, 8.0]]);
    assert_eq!(v(simple.determinant()), 64.0);
    assert_eq!(
        numbers(simple.inverse()),
        [[0.5, 0.0, 0.0], [0.0, 0.25, 0.0], [0.0, 0.0, 0.125]]
    );
    assert_eq!(simple.mul_vec([f(1.0), f(2.0), f(3.0)]).map(v), [2.0, 8.0, 24.0]);
}

/// The spline of the shaders, whose pivot is the knee.
fn spline_pq(
    x: f32,
    src_peak_nits: f32,
    src_avg_nits: f32,
    dst_peak_nits: f32,
    dst_black_nits: f32,
    contrast: f32,
) -> f32 {
    let in_min = 0.0;
    let in_max = pq_code(src_peak_nits).max(0.000_001);
    let out_min = pq_code(dst_black_nits);
    let out_max = pq_code(dst_peak_nits).max(0.000_001);
    let fallback_avg = (0.4 * src_peak_nits).clamp(100.0, 400.0);
    let effective_src_avg = if src_avg_nits > 0.0 {
        src_avg_nits
    } else {
        fallback_avg
    };
    let (src_pivot, dst_pivot) =
        pick_knee(in_min, in_max, pq_code(effective_src_avg), out_min, out_max);
    let slope0 = (dst_pivot - out_min) / (src_pivot - in_min).max(0.000_001);
    let ratio = (1.5 * (in_max / out_max - 1.0)).clamp(0.2, 1.2);
    let slope = slope0.powf((1.0 - contrast) * ratio);
    let (in_min0, in_max0) = (in_min - src_pivot, in_max - src_pivot);
    let (out_min0, out_max0) = (out_min - dst_pivot, out_max - dst_pivot);
    let pa = (out_min0 - slope * in_min0) / (in_min0 * in_min0);
    let qa = (slope * in_max0 - out_max0) / (2.0 * in_max0 * in_max0 * in_max0);
    let qb = -3.0 * (slope * in_max0 - out_max0) / (2.0 * in_max0 * in_max0);
    let xr = x.clamp(in_min, in_max) - src_pivot;
    let mapped = if xr > 0.0 {
        ((qa * xr + qb) * xr + slope) * xr
    } else {
        (pa * xr + slope) * xr
    };
    mapped + dst_pivot
}

#[test]
fn spline_curve_anchors_and_monotonicity() {
    let (src_peak, dst_peak, black) = (1000.0_f32, 100.0_f32, 0.0_f32);
    let contrast = 0.3_f32;
    let lo = spline_pq(0.0, src_peak, 0.0, dst_peak, black, contrast);
    assert!(nits_from_pq(lo).abs() < 1e-3, "black maps to {lo} PQ");
    let hi = spline_pq(pq_code(src_peak), src_peak, 0.0, dst_peak, black, contrast);
    assert!(nits_from_pq(hi).abs() - dst_peak < 0.05, "peak = {hi} PQ");
    let mut previous = -1.0_f32;
    for step in 0..=100 {
        let x = pq_code(src_peak) * step as f32 / 100.0;
        let mapped = spline_pq(x, src_peak, 0.0, dst_peak, black, contrast);
        assert!(mapped >= previous, "not monotonic at {step}");
        assert!(mapped <= pq_code(dst_peak) + 1e-3);
        previous = mapped;
    }
    let diffuse = spline_pq(pq_code(100.0), src_peak, 0.0, dst_peak, black, contrast);
    let diffuse_nits = nits_from_pq(diffuse);
    let diffuse_known = spline_pq(pq_code(100.0), src_peak, 100.0, dst_peak, black, contrast);
    let diffuse_known_nits = nits_from_pq(diffuse_known);
    assert!(
        diffuse_nits > 10.0 && diffuse_nits < 60.0,
        "diffuse = {diffuse_nits}"
    );
    assert!(
        diffuse_nits < diffuse_known_nits,
        "fallback avg {diffuse_nits} must sit below the 100-nit-avg curve {diffuse_known_nits}"
    );
}

#[test]
fn spline_knee_follows_scene_average_brightness() {
    let (src_peak, dst_peak, black) = (1000.0_f32, 100.0_f32, 0.0_f32);
    let dark_avg = 100.0_f32;
    let bright_avg = 400.0_f32;
    let dark_pivot = pick_knee(
        0.0,
        pq_code(src_peak),
        pq_code(dark_avg),
        pq_code(black),
        pq_code(dst_peak),
    )
    .0;
    let bright_pivot = pick_knee(
        0.0,
        pq_code(src_peak),
        pq_code(bright_avg),
        pq_code(black),
        pq_code(dst_peak),
    )
    .0;
    assert!(
        dark_pivot < bright_pivot,
        "dark {dark_pivot} vs bright {bright_pivot}"
    );
    // Without an average the knee lies at four tenths.
    let default_pivot = pick_knee(0.0, pq_code(src_peak), 0.0, pq_code(black), pq_code(dst_peak)).0;
    assert!((default_pivot - pq_code(src_peak) * 0.4).abs() < 1e-4);
}

#[test]
fn pick_knee_clamps_stay_inside_the_fraction_range() {
    let (src_pq, dst_pq) = pick_knee(
        0.0,
        pq_code(1000.0),
        pq_code(500.0),
        pq_code(0.0),
        pq_code(100.0),
    );
    assert!(src_pq >= pq_code(1000.0) * 0.1 - 1e-4);
    assert!(src_pq <= pq_code(1000.0) * 0.8 + 1e-4);
    assert!(dst_pq >= pq_code(100.0) * 0.1 - 1e-4);
    assert!(dst_pq <= pq_code(100.0) * 0.8 + 1e-4);
    // An average beyond the range ends at its edge.
    let clamped = pick_knee(
        0.0,
        pq_code(1000.0),
        pq_code(9999.0),
        pq_code(0.0),
        pq_code(100.0),
    );
    assert!((clamped.0 - pq_code(1000.0) * 0.8).abs() < 1e-4);
}

#[test]
fn ranges_without_room_have_no_knee() {
    assert!(knee_has_room(f(0.0), f(1.0)));
    assert!(knee_has_room(f(0.5), f(0.5)));
    assert!(!knee_has_room(f(1.0), f(0.0)));
    assert!(!knee_has_room(f(f32::NAN), f(1.0)));
}

#[test]
fn st2094_10_coefficients_interpolate_the_three_anchors() {
    let (src_peak, dst_peak, black) = (1000.0_f32, 100.0_f32, 0.203_f32);
    let (src_knee, dst_knee) = pick_knee_nits(0.0, src_peak, 250.0, black, dst_peak, 0.4);
    let [c1, c2, c3, _] = solve([0.0, src_knee, src_peak], [black, dst_knee, dst_peak]);
    let eval = |x_nits: f32| (c1 + c2 * x_nits) / (1.0 + c3 * x_nits);
    assert!((eval(0.0) - black).abs() < 1e-3);
    assert!((eval(src_knee) - dst_knee).abs() < 1e-2);
    assert!((eval(src_peak) - dst_peak).abs() < 1e-2);
    let mut previous = -1.0_f32;
    for step in 0..=100 {
        let mapped = eval(src_peak * step as f32 / 100.0);
        assert!(mapped >= previous);
        previous = mapped;
    }
}

#[test]
fn st2094_10_degenerate_anchors_fall_back_to_the_identity_curve() {
    let identity = [0.0, 1.0, 0.0, 0.0];
    assert_eq!(solve([0.0, 0.0, 0.0], [0.0, 1.0, 1.0]), identity);
    assert_eq!(solve([0.0, 1.0, 1.0], [0.0, 1.0, 1.0]), identity);
    assert_eq!(solve([f32::NAN, 1.0, 2.0], [0.0, 1.0, 2.0]), identity);
    assert_eq!(solve([0.0, 1.0, 2.0], [f32::INFINITY, 1.0, 2.0]), identity);
    let [c1, c2, c3, _] = identity;
    let eval = |x: f32| (c1 + c2 * x) / (1.0 + c3 * x);
    assert!((eval(0.25) - 0.25_f32).abs() < 1e-6);
    assert!((eval(1.0) - 1.0_f32).abs() < 1e-6);
}

fn average(pipeline: &VideoRenderPipeline) -> f32 {
    v(pipeline.source.source_scene_avg_nits())
}

#[test]
fn st2094_10_knee_follows_measured_scene_average_for_hdr10() {
    let target = TargetColorState::sdr_tone_map_target(ColorPrimaries::Bt709);
    let mut config = ToneMapConfig::default();
    config.operator = ToneMapOperator::St209410;

    let dark = SourceColorState::new(ColorPrimaries::Bt2020, TransferFunction::Pq)
        .measured_scene_avg_nits(Some(f(60.0)));
    let bright = SourceColorState::new(ColorPrimaries::Bt2020, TransferFunction::Pq)
        .measured_scene_avg_nits(Some(f(400.0)));
    let dark = VideoRenderPipeline {
        tone_map: config,
        ..VideoRenderPipeline::new(dark, target)
    };
    let bright = VideoRenderPipeline {
        tone_map: config,
        ..VideoRenderPipeline::new(bright, target)
    };
    let knee = |pipeline: &VideoRenderPipeline| {
        pick_knee_nits(
            0.0,
            v(pipeline.source.nominal_peak_nits),
            average(pipeline),
            0.203,
            v(pipeline.target.peak_nits),
            0.4,
        )
        .0
    };
    let dark_knee = knee(&dark);
    let bright_knee = knee(&bright);
    assert!(
        dark_knee < bright_knee,
        "dark {dark_knee} vs bright {bright_knee}"
    );

    let metadata = HdrMetadata::new(
        None,
        Some(ContentLightMetadata {
            max_content_light_level_nits: 1000,
            max_frame_average_light_level_nits: 239,
        }),
    );
    let fall = VideoRenderPipeline {
        tone_map: config,
        ..VideoRenderPipeline::new(
            SourceColorState::new(ColorPrimaries::Bt2020, TransferFunction::Pq)
                .hdr_metadata(Some(metadata)),
            target,
        )
    };
    assert!((average(&fall) - 239.0).abs() < 1e-3);
}

#[test]
fn st2094_pick_knee_nits_picks_the_knee_in_pq_space() {
    let (src_knee, _) = pick_knee_nits(0.0, 4000.0, 50.0, 0.0, 203.0, 0.4);
    assert!(
        (src_knee - 50.0).abs() < 2.0,
        "knee should follow the scene average in nits: {src_knee}"
    );
    let (pq_src, pq_dst) = pick_knee(
        0.0,
        pq_code_from_nits(4000.0),
        pq_code_from_nits(50.0),
        0.0,
        pq_code_from_nits(203.0),
    );
    let (nits_src, nits_dst) = pick_knee_nits(0.0, 4000.0, 50.0, 0.0, 203.0, 0.4);
    assert!((nits_from_pq_code(pq_src) - nits_src).abs() < 1e-3);
    assert!((nits_from_pq_code(pq_dst) - nits_dst).abs() < 1e-3);
}

#[test]
fn st2094_10_curve_param_tunes_the_knee_adaptation() {
    let source = SourceColorState::new(ColorPrimaries::Bt2020, TransferFunction::Pq)
        .measured_scene_avg_nits(Some(f(120.0)));
    let target = TargetColorState::sdr_tone_map_target(ColorPrimaries::Bt709);
    let coefficients = |curve_param: f32| {
        let config = ToneMapConfig {
            operator: ToneMapOperator::St209410,
            curve_param: f(curve_param),
            ..ToneMapConfig::default()
        };
        let pipeline = VideoRenderPipeline {
            tone_map: config,
            ..VideoRenderPipeline::new(source, target)
        };
        let nits = pipeline.knee_nits().unwrap();
        let (source_knee, target_knee) = pick_knee_nits(
            v(nits.input_min),
            v(nits.input_max),
            v(nits.input_avg),
            v(nits.output_min),
            v(nits.output_max),
            v(nits.knee_adaptation),
        );
        pipeline.tone_map_coeffs(Knee {
            source: f(source_knee),
            target: f(target_knee),
        })
    };
    let low = coefficients(0.1);
    let high = coefficients(1.0);
    assert_ne!(
        low, high,
        "curve_param must reach the ST 2094-10 knee adaptation"
    );
    assert_eq!(coefficients(0.0), coefficients(0.7));
}

#[test]
fn only_one_operator_needs_a_knee() {
    let source = SourceColorState::new(ColorPrimaries::Bt2020, TransferFunction::Pq)
        .measured_scene_avg_nits(Some(f(120.0)));
    let target = TargetColorState::sdr_tone_map_target(ColorPrimaries::Bt709);
    let mut pipeline = VideoRenderPipeline::new(source, target);
    pipeline.tone_map.operator = ToneMapOperator::Bt2390;
    assert!(pipeline.knee_nits().is_none());
    pipeline.tone_map.operator = ToneMapOperator::St209410;
    let nits = pipeline.knee_nits().unwrap();
    assert_eq!(v(nits.input_min), 0.0);
    assert_eq!(v(nits.input_max), 1000.0);
    assert_eq!(v(nits.input_avg), 120.0);
    assert_eq!(v(nits.output_max), v(target.peak_nits));
    assert_eq!(v(nits.knee_adaptation), v(pipeline.tone_map.effective_curve_param()));
    let (black, peak) = pipeline.lut_nits();
    assert_eq!(black, pipeline.tone_map_extra()[2]);
    assert_eq!(peak, target.peak_nits);
}

#[test]
fn knees_follow_the_average_within_their_range() {
    for step in 1..40 {
        let high = 0.001 + step as f32 * 0.024;
        assert!(knee_has_room(f(0.0), f(high)));
        let mut last = 0.0;
        for part in 1..30 {
            let average = high * part as f32 / 20.0;
            let (source, target) = pick_knee(0.0, high, average, 0.0, 0.5);
            assert!(source >= 0.1 * high - 1e-5 && source <= 0.8 * high + 1e-5);
            assert!(target >= 0.05 - 1e-5 && target <= 0.4 + 1e-5);
            assert!(source >= last);
            last = source;
            if average > 0.11 * high && average < 0.79 * high {
                assert_eq!(source, average);
            }
        }
        let (source, _) = pick_knee(0.0, high, 0.0, 0.0, 0.5);
        assert!((source - 0.4 * high).abs() < 1e-5);
    }
}

#[test]
fn solved_curves_pass_through_well_spread_anchors() {
    for (x, y) in [
        ([0.0, 200.0, 1000.0], [0.1, 40.0, 100.0]),
        ([0.0, 1.0, 4000.0], [0.0, 0.5, 203.0]),
        ([0.0, 0.25, 10000.0], [0.001, 0.25, 1000.0]),
        ([0.0, 3000.0, 10000.0], [5.0, 450.0, 1000.0]),
    ] {
        let [c1, c2, c3, _] = solve(x, y).map(f64::from);
        for k in 0..3 {
            let at = f64::from(x[k]);
            let value = (c1 + c2 * at) / (1.0 + c3 * at);
            assert!(1.0 + c3 * at > 0.0);
            assert!((value - f64::from(y[k])).abs() <= f64::from(y[2]) / 10_000.0);
        }
    }
}

#[test]
fn solved_curves_do_not_fall_between_their_outer_anchors() {
    for (x, y) in [
        ([0.0, 200.0, 1000.0], [0.1, 40.0, 100.0]),
        ([0.0, 1.0, 4000.0], [0.0, 0.5, 203.0]),
        ([0.0, 0.25, 10000.0], [0.001, 0.25, 1000.0]),
        ([0.0, 3000.0, 10000.0], [5.0, 450.0, 1000.0]),
    ] {
        let [c1, c2, c3, _] = solve(x, y).map(f64::from);
        let value = |at: f64| (c1 + c2 * at) / (1.0 + c3 * at);
        let step = f64::from(x[2]) / 1000.0;
        for k in 0..1000 {
            assert!(value(step * f64::from(k)) < value(step * f64::from(k + 1)));
        }
    }
}
