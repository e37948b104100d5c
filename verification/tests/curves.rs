//! Reference models of the curves that the video shaders evaluate, anchored to
//! the standards they come from.

use erika::color::{ColorPrimaries, LumaCoefficients, MatrixCoefficients};

fn value(bits: u32) -> f32 {
    f32::from_bits(bits)
}

/// The inverse transfer of hybrid log-gamma: a signal to scene light in [0, 1].
#[allow(clippy::excessive_precision)]
fn hlg_inverse_oetf(encoded: f32) -> f32 {
    let a = 0.17883277_f32;
    let b = 0.28466892_f32;
    let c = 0.55991073_f32;
    let e = encoded.max(0.0);
    if e <= 0.5 {
        e * e / 3.0
    } else {
        (((e - c) / a).exp() + b) / 12.0
    }
}

/// The full decode: scene light, then the display's system gamma at a nominal
/// peak of a thousand nits, as multiples of reference white.
fn hlg_encoded_to_source_reference_linear(
    encoded: [f32; 3],
    luma: LumaCoefficients,
    reference_white_nits: f32,
) -> [f32; 3] {
    let hlg_nominal_peak_nits = 1000.0_f32;
    let hlg_system_gamma = 1.2_f32;
    let scene = [
        hlg_inverse_oetf(encoded[0]),
        hlg_inverse_oetf(encoded[1]),
        hlg_inverse_oetf(encoded[2]),
    ];
    let kr = value(luma.kr.to_bits());
    let kg = value(luma.kg.to_bits());
    let kb = value(luma.kb.to_bits());
    let scene_luma = (kr * scene[0] + kg * scene[1] + kb * scene[2]).max(1e-6);
    let scale = hlg_nominal_peak_nits * scene_luma.powf(hlg_system_gamma - 1.0)
        / reference_white_nits.max(1.0);
    [scene[0] * scale, scene[1] * scale, scene[2] * scale]
}

#[test]
#[allow(clippy::excessive_precision)]
fn hlg_inverse_oetf_matches_bt2100_anchors() {
    assert!(hlg_inverse_oetf(0.0).abs() < 1e-7);
    // A signal of one half sits at a twelfth of scene light.
    assert!((hlg_inverse_oetf(0.5) - 1.0 / 12.0).abs() < 1e-6);
    // The two branches meet there.
    let upper_at_half = (((0.5_f32 - 0.55991073) / 0.17883277).exp() + 0.28466892) / 12.0;
    assert!((hlg_inverse_oetf(0.5) - upper_at_half).abs() < 1e-5);
    // Full scale decodes to unit scene light.
    assert!((hlg_inverse_oetf(1.0) - 1.0).abs() < 1e-3);
}

#[test]
fn hlg_full_scale_white_reaches_nominal_peak_over_reference_white() {
    let luma =
        MatrixCoefficients::Bt2020NonConstantLuminance.luma_coefficients(ColorPrimaries::Bt2020);

    let rgb = hlg_encoded_to_source_reference_linear([1.0, 1.0, 1.0], luma, 203.0);

    for channel in rgb {
        assert!(
            (channel - 1000.0 / 203.0).abs() < 0.01,
            "expected {channel} to be near the 1000 nit peak over 203 nit reference white"
        );
    }
}

#[test]
fn hlg_reference_white_signal_lands_at_reference_white() {
    let luma =
        MatrixCoefficients::Bt2020NonConstantLuminance.luma_coefficients(ColorPrimaries::Bt2020);

    let rgb = hlg_encoded_to_source_reference_linear([0.75, 0.75, 0.75], luma, 203.0);

    for channel in rgb {
        assert!(
            (channel - 1.0).abs() < 0.005,
            "expected {channel} to be near 1.0 (203 nits over 203 nit reference white)"
        );
    }
}

fn pq_code(nits: f32) -> f32 {
    let m1 = 0.1593017578125_f32;
    let m2 = 78.84375_f32;
    let c1 = 0.8359375_f32;
    let c2 = 18.8515625_f32;
    let c3 = 18.6875_f32;
    let p = (nits / 10000.0).clamp(0.0, 1.0).powf(m1);
    ((c1 + c2 * p) / (1.0 + c3 * p).max(0.000_001)).powf(m2)
}

fn nits_from_pq(code: f32) -> f32 {
    let m1 = 0.1593017578125_f32;
    let m2 = 78.84375_f32;
    let c1 = 0.8359375_f32;
    let c2 = 18.8515625_f32;
    let c3 = 18.6875_f32;
    let p = code.clamp(0.0, 1.0).powf(1.0 / m2);
    let num = (p - c1).max(0.0);
    let den = (c2 - c3 * p).max(0.000_001);
    10000.0 * (num / den).powf(1.0 / m1)
}

/// The BT.2390 curve with black-point compensation.
fn bt2390_pq(
    x: f32,
    src_peak_nits: f32,
    dst_peak_nits: f32,
    dst_black_nits: f32,
    knee_offset: f32,
) -> f32 {
    let in_max = pq_code(src_peak_nits).max(0.000_001);
    let out_min = pq_code(dst_black_nits);
    let out_max = pq_code(dst_peak_nits).max(0.000_001);
    let max_lum = (out_max / in_max).clamp(0.0, 1.0);
    let min_lum = out_min / in_max;
    let ks = (1.0 + knee_offset) * max_lum - knee_offset;
    let bp = (1.0 / min_lum.max(0.000_001)).min(4.0);
    let mut u = x.clamp(0.0, in_max) / in_max;
    if ks < 1.0 && u > ks {
        let tb = (u - ks) / (1.0 - ks);
        let tb2 = tb * tb;
        let tb3 = tb2 * tb;
        u = (2.0 * tb3 - 3.0 * tb2 + 1.0) * ks
            + (tb3 - 2.0 * tb2 + tb) * (1.0 - ks)
            + (-2.0 * tb3 + 3.0 * tb2) * max_lum;
    }
    if u < 1.0 {
        u = u + min_lum * (1.0 - u).powf(bp);
        let gain = if max_lum < 1.0 {
            1.0 / (1.0 + min_lum / max_lum * (1.0 - max_lum).powf(bp))
        } else {
            1.0
        };
        u = gain * (u - min_lum) + min_lum;
    }
    u * in_max
}

#[test]
fn bt2390_curve_anchors_and_monotonicity() {
    let (source_peak, target_peak, black) = (1000.0_f32, 100.0_f32, 0.203_f32);
    let black_mapped = nits_from_pq(bt2390_pq(0.0, source_peak, target_peak, black, 1.0));
    assert!((black_mapped - black).abs() < 0.05, "black = {black_mapped}");
    let peak = nits_from_pq(bt2390_pq(
        pq_code(source_peak),
        source_peak,
        target_peak,
        black,
        1.0,
    ));
    assert!((peak - target_peak).abs() < 0.5, "peak = {peak}");
    let mut previous = -1.0_f32;
    for step in 0..=100 {
        let x = pq_code(source_peak) * step as f32 / 100.0;
        let mapped = nits_from_pq(bt2390_pq(x, source_peak, target_peak, black, 1.0));
        assert!(mapped >= previous);
        previous = mapped;
    }
    let with_bpc = bt2390_pq(pq_code(1.0), source_peak, target_peak, 0.203, 1.0);
    let without_bpc = bt2390_pq(pq_code(1.0), source_peak, target_peak, 0.0, 1.0);
    assert!(with_bpc > without_bpc);
}

#[test]
fn bt2390_hdr10_to_sdr_matches_broadcast_diffuse_white() {
    let (source_peak, target_peak, black) = (1000.0_f32, 203.0_f32, 0.0_f32);
    let diffuse_white_mapped = nits_from_pq(bt2390_pq(
        pq_code(203.0),
        source_peak,
        target_peak,
        black,
        1.0,
    ));
    assert!(
        diffuse_white_mapped >= 130.0,
        "mapped diffuse white: {diffuse_white_mapped} nits"
    );
}

/// The BT.2446 method A curve, in nits.
fn bt2446a_nits(x_nits: f32, src_peak_nits: f32, dst_peak_nits: f32, dst_black_nits: f32) -> f32 {
    let phdr = 1.0 + 32.0 * (src_peak_nits / 10000.0).powf(1.0 / 2.4);
    let psdr = 1.0 + 32.0 * (dst_peak_nits / 10000.0).powf(1.0 / 2.4);
    let mut t = (x_nits.clamp(0.0, src_peak_nits) / src_peak_nits).powf(1.0 / 2.4);
    t = (1.0 + (phdr - 1.0) * t).ln() / phdr.ln();
    t = if t <= 0.7399 {
        1.0770 * t
    } else if t < 0.9909 {
        (-1.1510 * t + 2.7811) * t - 0.6302
    } else {
        0.5 * t + 0.5
    };
    t = (psdr.powf(t) - 1.0) / (psdr - 1.0);
    let lb = dst_black_nits.max(0.0).powf(1.0 / 2.4);
    let lw = dst_peak_nits.max(0.0).powf(1.0 / 2.4);
    ((lw - lb) * t + lb).powf(2.4)
}

#[test]
fn bt2446a_curve_anchors_and_monotonicity() {
    let (src_peak, dst_peak, black) = (1000.0_f32, 100.0_f32, 0.203_f32);
    let lo = bt2446a_nits(0.0, src_peak, dst_peak, black);
    assert!((lo - black).abs() < 0.05, "black = {lo}");
    let hi = bt2446a_nits(src_peak, src_peak, dst_peak, black);
    assert!((hi - dst_peak).abs() < 0.05, "peak = {hi}");
    let mut previous = -1.0_f32;
    for step in 0..=100 {
        let mapped = bt2446a_nits(src_peak * step as f32 / 100.0, src_peak, dst_peak, black);
        assert!(mapped >= previous);
        previous = mapped;
    }
}

/// The compression of colours outside the target gamut.
fn gamut_compress(rgb: [f32; 3]) -> [f32; 3] {
    let lo = rgb[0].min(rgb[1]).min(rgb[2]);
    let outness = (-lo).max(0.0);
    let x = (outness / 1.0).clamp(0.0, 1.0);
    let k = x * x * (3.0 - 2.0 * x);
    let mix = |a: f32, b: f32| a + (b - a) * k;
    [
        mix(rgb[0], rgb[0].clamp(0.0, 1.0)),
        mix(rgb[1], rgb[1].clamp(0.0, 1.0)),
        mix(rgb[2], rgb[2].clamp(0.0, 1.0)),
    ]
}

#[test]
fn gamut_compress_preserves_hue_of_out_of_gamut_primaries() {
    // Colours inside the gamut pass through untouched.
    assert_eq!(gamut_compress([0.2, 0.7, 0.3]), [0.2, 0.7, 0.3]);
    // No channel is pushed further out, and the order of the channels stays.
    let out_of_gamut = [-0.08_f32, 0.9, -0.04];
    let mapped = gamut_compress(out_of_gamut);
    assert!(mapped[0] > out_of_gamut[0] && mapped[2] > out_of_gamut[2]);
    assert!(mapped[1] > mapped[2] && mapped[2] > mapped[0]);
    // Primary red stays red: blue is not lifted towards grey.
    let primary_red = [1.1_f32, -0.22, -0.07];
    let red = gamut_compress(primary_red);
    assert!(red[1] < 0.01 && red[2] < 0.01, "red = {red:?}");
    assert!(red[0] > 0.9, "red = {red:?}");
    // A full excursion lands on the clip; a mild one keeps most of its range.
    assert_eq!(gamut_compress([-1.0_f32, 0.9, -0.5]), [0.0, 0.9, 0.0]);
    let mild = gamut_compress([-0.1_f32, 0.9, -0.05]);
    assert!(mild[0] > -0.1 && mild[2] > -0.05);
}
