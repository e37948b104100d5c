//! Colour states, the render graph and the numbers handed to the shaders.

use erika::color::{
    code_to_primaries, gamut_primaries_code, primaries_code, primaries_coordinates,
    resolve_primaries, transfer_code, ColorPrimaries, ColorRange, MatrixCoefficients,
    TransferFunction,
};
use erika::dovi::{DoviUniforms, PIVOT_SENTINEL_BITS};
use erika::float::F32;
use erika::graph::{build_graph, GraphNeeds, RenderPassKind};
use erika::hdr::{ContentLightMetadata, HdrMetadata, MasteringDisplayMetadata};
use erika::knee::Knee;
use erika::matrix::{dovi_lms_to_rgb_matrix, RgbMatrix};
use erika::modes::{tone_map_code, LumaUpscalerMode, ScalerKernel, ToneMapOperator};
use erika::pipeline::{
    default_curve_param, target_black_nits, ToneMapConfig, VideoRenderPipeline,
};
use erika::source::{
    DoviComponentCurve, DoviFramePq, DoviNits, DoviSourceMetadata, SourceColorState,
    TargetColorState,
};
use erika::uniforms::{
    VideoUniforms, VIDEO_INPUT_MODE_MASK, VIDEO_INPUT_PACKED_ALPHA_RIGHT,
};

fn f(value: f32) -> F32 {
    F32::from_bits(value.to_bits())
}

fn v(value: F32) -> f32 {
    f32::from_bits(value.to_bits())
}

fn row(values: [f32; 4]) -> [F32; 4] {
    [f(values[0]), f(values[1]), f(values[2]), f(values[3])]
}

fn matrix(rows: [[f32; 3]; 3]) -> RgbMatrix {
    RgbMatrix {
        rows: rows.map(|row| row.map(f)),
    }
}

/// A knee for pipelines whose operator has none.
fn no_knee() -> Knee {
    Knee {
        source: f(0.0),
        target: f(0.0),
    }
}

/// The luminance of a 12-bit code of the perceptual quantizer.
fn pq_code_to_nits(code: u16) -> f32 {
    if code == 0 {
        return 0.0;
    }
    let m1 = 2610.0_f32 / 16384.0;
    let m2 = 2523.0_f32 / 32.0;
    let c1 = 3424.0_f32 / 4096.0;
    let c2 = 2413.0_f32 / 128.0;
    let c3 = 2392.0_f32 / 128.0;
    let encoded = (code as f32 / 4095.0).powf(1.0 / m2);
    let normalized = (encoded - c1).max(0.0) / (c2 - c3 * encoded);
    normalized.powf(1.0 / m1) * 10000.0
}

/// The 12-bit code of a luminance.
fn pq_code_12(nits: f32) -> u16 {
    let m1 = 0.1593017578125_f32;
    let m2 = 78.84375_f32;
    let c1 = 0.8359375_f32;
    let c2 = 18.8515625_f32;
    let c3 = 18.6875_f32;
    let p = (nits / 10000.0).clamp(0.0, 1.0).powf(m1);
    let code = ((c1 + c2 * p) / (1.0 + c3 * p)).powf(m2);
    (code * 4095.0).round().clamp(0.0, 4095.0) as u16
}

fn decoded(metadata: DoviSourceMetadata) -> DoviSourceMetadata {
    let l1 = metadata.l1.unwrap_or(DoviFramePq {
        min_pq: 0,
        max_pq: 0,
        avg_pq: 0,
    });
    DoviSourceMetadata {
        nits: DoviNits {
            source_min: f(pq_code_to_nits(metadata.source_min_pq)),
            source_max: f(pq_code_to_nits(metadata.source_max_pq)),
            frame_max: f(pq_code_to_nits(l1.max_pq)),
            frame_avg: f(pq_code_to_nits(l1.avg_pq)),
        },
        ..metadata
    }
}

/// Two polynomial pieces split at a quarter, then one cross-component piece.
fn sample_dovi_metadata() -> DoviSourceMetadata {
    let mut reshaping = [DoviComponentCurve::default(); 3];
    reshaping[0].num_pivots = 4;
    reshaping[0].pivots = [0.0, 0.25, 0.5, 1.0, 0.0, 0.0, 0.0, 0.0, 0.0].map(f);
    reshaping[0].poly_coeffs[0] = [0.0, 0.5, 0.0].map(f);
    reshaping[0].poly_coeffs[1] = [1.0, 1.0, 0.5].map(f);
    reshaping[0].mmr_orders[2] = 2;
    reshaping[0].mmr_constants[2] = f(0.25);
    reshaping[0].mmr_coeffs[2][0] = [0.1, 0.2, 0.3, 0.4, 0.5, 0.6, 0.7].map(f);
    reshaping[0].mmr_coeffs[2][1] = [0.8, 0.9, 1.0, 1.1, 1.2, 1.3, 1.4].map(f);
    let zero = f(0.0);
    decoded(DoviSourceMetadata {
        reshaping,
        nonlinear_matrix: matrix([[1.0, 0.5, 0.25], [0.75, 1.0, 0.125], [0.0625, 0.03125, 1.0]]),
        nonlinear_offset: [0.25, 0.5, 0.5].map(f),
        rgb_to_lms: matrix([
            [0.356742, 0.592257, 0.051081],
            [0.156705, 0.747860, 0.095435],
            [0.0, 0.041455, 0.958545],
        ]),
        source_min_pq: 62,
        source_max_pq: 3079,
        l1: None,
        nits: DoviNits {
            source_min: zero,
            source_max: zero,
            frame_max: zero,
            frame_avg: zero,
        },
    })
}

fn sample_dovi_metadata_with_l1(min_pq: u16, max_pq: u16, avg_pq: u16) -> DoviSourceMetadata {
    let mut metadata = sample_dovi_metadata();
    metadata.l1 = Some(DoviFramePq {
        min_pq,
        max_pq,
        avg_pq,
    });
    decoded(metadata)
}

fn static_metadata(max_luminance: Option<f32>, max_cll: u32, max_fall: u32) -> HdrMetadata {
    HdrMetadata::new(
        Some(MasteringDisplayMetadata {
            display_primaries: None,
            white_point: None,
            min_luminance_nits: Some(f(0.005)),
            max_luminance_nits: max_luminance.map(f),
        }),
        Some(ContentLightMetadata {
            max_content_light_level_nits: max_cll,
            max_frame_average_light_level_nits: max_fall,
        }),
    )
}

#[test]
fn hlg_source_uniforms_use_code_4_and_thousand_nit_peak() {
    let source = SourceColorState::new(ColorPrimaries::Bt2020, TransferFunction::Hlg);
    let target = TargetColorState::sdr(ColorPrimaries::Bt709);
    let pipeline = VideoRenderPipeline::new(source, target);

    let uniforms = VideoUniforms::from_pipeline(&pipeline, no_knee(), false, false);

    assert!(source.is_hdr());
    assert_eq!(uniforms.source_transfer, 4);
    assert_eq!(v(uniforms.nits[0]), 1000.0);
    assert_eq!(v(uniforms.nits[2]), 203.0);
    assert!(pipeline.requires_tone_mapping());
}

#[test]
fn dovi_l1_peak_does_not_toggle_the_tone_map_or_gamut_lut() {
    let target = TargetColorState::sdr_tone_map_target(ColorPrimaries::Bt709);
    let dark = SourceColorState::new(ColorPrimaries::Bt2020, TransferFunction::Pq).dovi(Some(
        sample_dovi_metadata_with_l1(0, pq_code_12(150.0), pq_code_12(80.0)),
    ));
    let bright = SourceColorState::new(ColorPrimaries::Bt2020, TransferFunction::Pq).dovi(Some(
        sample_dovi_metadata_with_l1(0, pq_code_12(2200.0), pq_code_12(1800.0)),
    ));
    assert!(
        v(dark.nominal_peak_nits) < 200.0,
        "dark frame L1 peak should sit below the SDR target peak"
    );
    let dark = VideoRenderPipeline::new(dark, target);
    let bright = VideoRenderPipeline::new(bright, target);
    assert!(dark.requires_tone_mapping());
    assert!(bright.requires_tone_mapping());
    assert!(dark.gamut_lut_active());
    assert!(bright.gamut_lut_active());
    assert_eq!(dark.tone_map_extra()[2], bright.tone_map_extra()[2]);
}

#[test]
fn tone_map_operator_defaults_and_codes() {
    let source = SourceColorState::new(ColorPrimaries::Bt2020, TransferFunction::Pq)
        .reference_white_nits(f(203.0));
    let target = TargetColorState::sdr_tone_map_target(ColorPrimaries::Bt709);
    let pipeline = VideoRenderPipeline::new(source, target);
    assert_eq!(pipeline.tone_map.operator, ToneMapOperator::Bt2390);
    assert_eq!(tone_map_code(pipeline.tone_map.operator), 3);
    // A parameter of zero stands for the operator's default.
    assert!((v(pipeline.tone_map.effective_curve_param()) - 1.0).abs() < 1e-6);
    // The default contrast of an SDR target is a thousand to one.
    let extra = pipeline.tone_map_extra();
    assert!((v(extra[2]) - 0.203).abs() < 1e-4, "black = {}", v(extra[2]));
    assert_eq!(v(extra[0]), 1.0);
}

#[test]
fn hdr_output_target_black_is_zero() {
    let source = SourceColorState::new(ColorPrimaries::Bt2020, TransferFunction::Pq);
    let target = TargetColorState::hdr10(ColorPrimaries::Bt2020);
    let extra = VideoRenderPipeline::new(source, target).tone_map_extra();
    assert_eq!(v(extra[2]), 0.0);
    let edr = VideoRenderPipeline::new(
        source,
        TargetColorState::apple_edr(ColorPrimaries::Bt2020, f(2.0)),
    )
    .tone_map_extra();
    assert_eq!(v(edr[2]), 0.0);
    // A contrast ratio that is given overrides the default.
    let target = TargetColorState::sdr_tone_map_target(ColorPrimaries::Bt709);
    let mut config = ToneMapConfig::default();
    config.contrast_ratio = f(500.0);
    let pipeline = VideoRenderPipeline::new(source, target);
    let custom = VideoRenderPipeline {
        tone_map: config,
        ..pipeline
    };
    assert!((v(custom.tone_map_extra()[2]) - 203.0 / 500.0).abs() < 1e-4);
}

#[test]
fn sdr_to_sdr_black_point_is_zero() {
    let source = SourceColorState::new(ColorPrimaries::Bt709, TransferFunction::Srgb);
    let target = TargetColorState::sdr(ColorPrimaries::Bt709);
    let pipeline = VideoRenderPipeline::new(source, target);
    assert!(!pipeline.requires_tone_mapping());
    assert_eq!(v(pipeline.tone_map_extra()[2]), 0.0);
    // A contrast ratio that is given is ignored where nothing is mapped.
    let mut config = ToneMapConfig::default();
    config.contrast_ratio = f(500.0);
    let custom = VideoRenderPipeline {
        tone_map: config,
        ..pipeline
    };
    assert_eq!(v(custom.tone_map_extra()[2]), 0.0);
}

#[test]
fn measured_scene_avg_precedes_dovi_l1_and_drives_the_pivot() {
    let mut source = SourceColorState::new(ColorPrimaries::Bt2020, TransferFunction::Pq);
    source = source.measured_scene_avg_nits(Some(f(120.0)));
    let target = TargetColorState::sdr_tone_map_target(ColorPrimaries::Bt709);
    let pipeline = VideoRenderPipeline::new(source, target);
    let extra = pipeline.tone_map_extra();
    assert!((v(extra[1]) - 120.0).abs() < 1e-3, "scene avg {}", v(extra[1]));
    // A value that is no luminance clears the channel.
    let cleared_source = source.measured_scene_avg_nits(Some(f(0.0)));
    assert_eq!(cleared_source.measured_scene_avg_nits, None);
    let cleared = VideoRenderPipeline::new(cleared_source, target);
    assert_eq!(v(cleared.tone_map_extra()[1]), 0.0);
}

#[test]
fn a_measured_average_stands_before_the_metadata_of_the_frame() {
    let metadata = sample_dovi_metadata_with_l1(0, 2200, 1800);
    let source =
        SourceColorState::new(ColorPrimaries::Bt2020, TransferFunction::Pq).dovi(Some(metadata));
    assert_eq!(v(source.source_scene_avg_nits()), pq_code_to_nits(1800));
    let measured = source.measured_scene_avg_nits(Some(f(55.0)));
    assert_eq!(v(measured.source_scene_avg_nits()), 55.0);
    let infinite = source.measured_scene_avg_nits(Some(f(f32::INFINITY)));
    assert_eq!(infinite.measured_scene_avg_nits, None);
}

#[test]
fn gamut_lut_active_only_for_tone_mapped_wide_gamut_sources() {
    let source = SourceColorState::new(ColorPrimaries::Bt2020, TransferFunction::Pq);
    let target = TargetColorState::sdr_tone_map_target(ColorPrimaries::Bt709);
    let pipeline = VideoRenderPipeline::new(source, target);
    assert!(pipeline.gamut_lut_active());
    assert_eq!(
        VideoUniforms::from_pipeline(&pipeline, no_knee(), false, false).gamut_lut_enabled,
        1
    );
    // A tone map within one gamut keeps the fast path.
    let same = VideoRenderPipeline::new(
        source,
        TargetColorState::sdr_tone_map_target(ColorPrimaries::Bt2020),
    );
    assert!(!same.gamut_lut_active());
    // SDR passthrough never maps.
    let sdr = VideoRenderPipeline::new(
        SourceColorState::new(ColorPrimaries::Bt709, TransferFunction::Srgb),
        TargetColorState::sdr(ColorPrimaries::Bt709),
    );
    assert!(!sdr.gamut_lut_active());
    // Nor does output that leaves the mapping to the display.
    let hdr10 = VideoRenderPipeline::new(source, TargetColorState::hdr10(ColorPrimaries::Bt2020));
    assert!(!hdr10.gamut_lut_active());
}

#[test]
fn gamut_lut_primaries_code_round_trips() {
    let code = gamut_primaries_code(ColorPrimaries::Bt2020, ColorPrimaries::Bt709);
    assert_eq!(code >> 8, 1);
    assert_eq!(code & 0xff, 0);
    let p3 = gamut_primaries_code(ColorPrimaries::Bt709, ColorPrimaries::DisplayP3);
    assert_eq!(p3 >> 8, 0);
    assert_eq!(p3 & 0xff, 2);
}

#[test]
fn packed_primaries_come_apart_again() {
    for source in [
        ColorPrimaries::Bt709,
        ColorPrimaries::Bt2020,
        ColorPrimaries::DisplayP3,
    ] {
        for target in [
            ColorPrimaries::Bt709,
            ColorPrimaries::Bt2020,
            ColorPrimaries::DisplayP3,
        ] {
            let code = gamut_primaries_code(source, target);
            assert_eq!(code_to_primaries(code >> 8), source);
            assert_eq!(code_to_primaries(code & 0xff), target);
        }
    }
    assert_eq!(primaries_code(ColorPrimaries::Unknown), 0);
    assert_eq!(resolve_primaries(ColorPrimaries::Unknown), ColorPrimaries::Bt709);
    assert_eq!(code_to_primaries(9), ColorPrimaries::Bt709);
}

#[test]
fn chromaticities_are_those_of_the_standards() {
    let bt709 = primaries_coordinates(ColorPrimaries::Bt709);
    assert_eq!((v(bt709.red.x), v(bt709.red.y)), (0.640, 0.330));
    assert_eq!((v(bt709.green.x), v(bt709.green.y)), (0.300, 0.600));
    assert_eq!((v(bt709.blue.x), v(bt709.blue.y)), (0.150, 0.060));
    let bt2020 = primaries_coordinates(ColorPrimaries::Bt2020);
    assert_eq!((v(bt2020.red.x), v(bt2020.red.y)), (0.708, 0.292));
    assert_eq!((v(bt2020.green.x), v(bt2020.green.y)), (0.170, 0.797));
    assert_eq!((v(bt2020.blue.x), v(bt2020.blue.y)), (0.131, 0.046));
    let p3 = primaries_coordinates(ColorPrimaries::DisplayP3);
    assert_eq!((v(p3.red.x), v(p3.red.y)), (0.680, 0.320));
    assert_eq!((v(p3.green.x), v(p3.green.y)), (0.265, 0.690));
    assert_eq!((v(p3.blue.x), v(p3.blue.y)), (0.150, 0.060));
    for coordinates in [bt709, bt2020, p3] {
        assert_eq!((v(coordinates.white.x), v(coordinates.white.y)), (0.3127, 0.3290));
    }
}

#[test]
fn hdr_pq_to_sdr_builds_tone_mapping_graph() {
    let source = SourceColorState::new(ColorPrimaries::Bt2020, TransferFunction::Pq);
    let target = TargetColorState::sdr(ColorPrimaries::Bt709);
    let pipeline = VideoRenderPipeline::new(source, target);

    assert!(pipeline.requires_tone_mapping());
    assert!(pipeline.graph.contains(RenderPassKind::TransferDecode));
    assert!(pipeline.graph.contains(RenderPassKind::GamutMap));
    assert!(pipeline.graph.contains(RenderPassKind::ToneMap));
    assert!(pipeline.graph.contains(RenderPassKind::OutputTransform));
}

#[test]
fn hdr_pq_to_hdr10_keeps_absolute_pq_without_tone_mapping() {
    let source = SourceColorState::new(ColorPrimaries::Bt2020, TransferFunction::Pq);
    let target = TargetColorState::hdr10(ColorPrimaries::Bt2020);
    let pipeline = VideoRenderPipeline::new(source, target);

    assert_eq!(pipeline.target.transfer, TransferFunction::Pq);
    assert_eq!(v(pipeline.target.reference_white_nits), 203.0);
    assert!(!pipeline.requires_tone_mapping());
    assert!(!pipeline.graph.contains(RenderPassKind::GamutMap));
    assert!(!pipeline.graph.contains(RenderPassKind::ToneMap));
}

#[test]
fn sdr_bt709_to_sdr_skips_tone_mapping() {
    let source = SourceColorState::new(ColorPrimaries::Bt709, TransferFunction::Srgb);
    let target = TargetColorState::sdr(ColorPrimaries::Bt709);
    let pipeline = VideoRenderPipeline::new(source, target);

    assert!(!pipeline.requires_tone_mapping());
    assert!(!pipeline.graph.contains(RenderPassKind::ToneMap));
}

#[test]
fn unknown_sdr_source_uses_sdr_reference_white() {
    let source = SourceColorState::new(ColorPrimaries::Unknown, TransferFunction::Unknown);

    assert_eq!(v(source.nominal_peak_nits), 100.0);
    assert_eq!(v(source.reference_white_nits), 100.0);
    assert!(!source.is_hdr());
}

#[test]
fn retargeting_pipeline_preserves_render_options_and_rebuilds_graph() {
    let source = SourceColorState::new(ColorPrimaries::Bt2020, TransferFunction::Pq);
    let mut pipeline =
        VideoRenderPipeline::new(source, TargetColorState::sdr(ColorPrimaries::Bt709));
    pipeline.tone_map.operator = ToneMapOperator::Clip;
    pipeline.scaler.kernel = ScalerKernel::Nearest;

    let pipeline = pipeline.with_target(TargetColorState::apple_edr(ColorPrimaries::Bt709, f(4.0)));

    assert_eq!(v(pipeline.target.edr_headroom), 4.0);
    assert_eq!(pipeline.tone_map.operator, ToneMapOperator::Clip);
    assert_eq!(pipeline.scaler.kernel, ScalerKernel::Nearest);
    assert!(!pipeline.graph.contains(RenderPassKind::Scale));
}

#[test]
fn luma_upscaler_adds_neural_upscale_pass() {
    let pipeline = VideoRenderPipeline::sdr_default();
    assert!(!pipeline.graph.contains(RenderPassKind::NeuralUpscale));

    let pipeline = pipeline.with_luma_upscaler(LumaUpscalerMode::ArtCnnC4F16);

    assert_eq!(pipeline.luma_upscaler, LumaUpscalerMode::ArtCnnC4F16);
    assert!(pipeline.graph.contains(RenderPassKind::NeuralUpscale));
}

#[test]
fn the_graph_lists_its_passes_in_drawing_order() {
    let graph = build_graph(GraphNeeds {
        upscale: true,
        reshape: true,
        gamut_map: true,
        tone_map: true,
        scale: true,
    });
    let kinds: Vec<RenderPassKind> = graph.passes().iter().map(|pass| pass.kind).collect();
    assert_eq!(
        kinds,
        vec![
            RenderPassKind::ImportFrame,
            RenderPassKind::NeuralUpscale,
            RenderPassKind::PlaneSampling,
            RenderPassKind::ChromaReconstruction,
            RenderPassKind::DoviReshape,
            RenderPassKind::TransferDecode,
            RenderPassKind::GamutMap,
            RenderPassKind::ToneMap,
            RenderPassKind::Scale,
            RenderPassKind::OverlayComposite,
            RenderPassKind::Dither,
            RenderPassKind::OutputTransform,
        ]
    );
}

#[test]
fn matrix_defaults_follow_primaries() {
    let source = SourceColorState::new(ColorPrimaries::Bt2020, TransferFunction::Pq);
    let coeffs = source.matrix.luma_coefficients(source.primaries);

    assert!((v(coeffs.kr) - 0.2627).abs() < 0.0001);
    assert!((v(coeffs.kg) - 0.6780).abs() < 0.0001);
    assert!((v(coeffs.kb) - 0.0593).abs() < 0.0001);
}

#[test]
fn luma_coefficients_of_the_other_matrices() {
    let bt601 = MatrixCoefficients::Bt601.luma_coefficients(ColorPrimaries::Bt709);
    assert_eq!((v(bt601.kr), v(bt601.kg), v(bt601.kb)), (0.299, 0.587, 0.114));
    let bt709 = MatrixCoefficients::Unspecified.luma_coefficients(ColorPrimaries::Unknown);
    assert_eq!((v(bt709.kr), v(bt709.kg), v(bt709.kb)), (0.2126, 0.7152, 0.0722));
}

#[test]
fn color_range_resolves_unspecified_to_fallback() {
    assert_eq!(
        ColorRange::Unspecified.resolve(ColorRange::Limited),
        ColorRange::Limited
    );
    assert_eq!(
        ColorRange::Full.resolve(ColorRange::Limited),
        ColorRange::Full
    );
}

#[test]
fn hdr_metadata_prefers_mastering_display_peak() {
    let metadata = static_metadata(Some(1000.0), 4000, 450);

    let source = SourceColorState::new(ColorPrimaries::Bt2020, TransferFunction::Pq)
        .hdr_metadata(Some(metadata));

    assert_eq!(metadata.nominal_peak_nits(), Some(f(1000.0)));
    assert_eq!(v(source.nominal_peak_nits), 1000.0);
    assert_eq!(source.hdr_metadata, Some(metadata));
}

#[test]
fn hdr_metadata_falls_back_to_max_cll_when_mastering_peak_is_missing() {
    let metadata = static_metadata(None, 4000, 450);

    let source = SourceColorState::new(ColorPrimaries::Bt2020, TransferFunction::Pq)
        .hdr_metadata(Some(metadata));

    assert_eq!(metadata.nominal_peak_nits(), Some(f(4000.0)));
    assert_eq!(v(source.nominal_peak_nits), 4000.0);
}

#[test]
fn hdr_metadata_falls_back_to_mastering_peak_when_max_cll_is_missing() {
    let metadata = static_metadata(Some(1000.0), 0, 450);

    let source = SourceColorState::new(ColorPrimaries::Bt2020, TransferFunction::Pq)
        .hdr_metadata(Some(metadata));

    assert_eq!(metadata.nominal_peak_nits(), Some(f(1000.0)));
    assert_eq!(v(source.nominal_peak_nits), 1000.0);
}

#[test]
fn hdr_metadata_nominal_peak_bounds_by_max_cll_when_lower_than_mastering() {
    let metadata = static_metadata(Some(1000.0), 528, 239);

    let source = SourceColorState::new(ColorPrimaries::Bt2020, TransferFunction::Pq)
        .hdr_metadata(Some(metadata));

    assert_eq!(metadata.nominal_peak_nits(), Some(f(528.0)));
    assert_eq!(v(source.nominal_peak_nits), 528.0);
}

#[test]
fn tone_map_extra_falls_back_to_max_fall_when_unmeasured() {
    let metadata = static_metadata(Some(1000.0), 528, 239);

    let source = SourceColorState::new(ColorPrimaries::Bt2020, TransferFunction::Pq)
        .hdr_metadata(Some(metadata));
    let target = TargetColorState::sdr_tone_map_target(ColorPrimaries::Bt709);
    let pipeline = VideoRenderPipeline::new(source, target);
    let extra = pipeline.tone_map_extra();
    assert_eq!(v(extra[1]), 239.0);
}

#[test]
fn pipeline_reports_gamut_mapping_when_primaries_differ() {
    let pipeline = VideoRenderPipeline::new(
        SourceColorState::new(ColorPrimaries::Bt2020, TransferFunction::Pq),
        TargetColorState::sdr(ColorPrimaries::Bt709),
    );

    assert!(pipeline.requires_gamut_mapping());
    assert!(pipeline.graph.contains(RenderPassKind::GamutMap));
}

#[test]
fn packed_alpha_flag_survives_source_texture_mode_changes() {
    let pipeline = VideoRenderPipeline::sdr_default();
    let uniforms = VideoUniforms::from_pipeline(&pipeline, no_knee(), false, false)
        .packed_alpha_right(true)
        .rgb_texture_input();

    assert!(uniforms.has_packed_alpha_right());
    assert_eq!(uniforms.input_mode & VIDEO_INPUT_MODE_MASK, 1);
    assert_eq!(
        uniforms.input_mode & VIDEO_INPUT_PACKED_ALPHA_RIGHT,
        VIDEO_INPUT_PACKED_ALPHA_RIGHT,
    );
    assert!(!uniforms.packed_alpha_right(false).has_packed_alpha_right());
}

#[test]
fn input_modes_have_numbers_of_their_own() {
    let pipeline = VideoRenderPipeline::sdr_default();
    let uniforms = VideoUniforms::from_pipeline(&pipeline, no_knee(), true, true);
    assert_eq!(uniforms.is_p010, 1);
    assert_eq!(uniforms.edr_output, 1);
    assert_eq!(uniforms.input_mode, 0);
    assert_eq!(uniforms.scene_linear, 0);
    assert_eq!(uniforms.gamut_matrix_rows, RgbMatrix::identity().row4s());
    assert_eq!(uniforms.ipt_matrix_rows, pipeline.ipt_matrix_rows());
    assert_eq!(uniforms.tone_map_coeffs, row([0.0; 4]));
    assert_eq!(uniforms.packed_d2s_luma_input().input_mode & VIDEO_INPUT_MODE_MASK, 2);
    assert_eq!(
        uniforms.packed_d2s_rgb_detail_input().input_mode & VIDEO_INPUT_MODE_MASK,
        3
    );
    assert_eq!(uniforms.scene_linear_output().scene_linear, 1);
}

#[test]
fn dovi_source_uses_per_frame_l1_peak_when_present() {
    let mut source = SourceColorState::new(ColorPrimaries::Bt2020, TransferFunction::Pq);
    source = source.dovi(Some(sample_dovi_metadata_with_l1(1500, 2200, 1800)));

    assert_eq!(
        v(source.nominal_peak_nits),
        pq_code_to_nits(2200).max(1.0),
        "per-frame L1 peak must replace the static RPU peak for tone mapping"
    );
    // The mastering display keeps the static peak.
    let mastering = source.hdr_metadata.unwrap().mastering_display.unwrap();
    assert_eq!(mastering.max_luminance_nits, Some(f(pq_code_to_nits(3079))));
}

#[test]
fn dovi_source_falls_back_to_static_peak_when_l1_is_absent() {
    let source = SourceColorState::new(ColorPrimaries::Bt2020, TransferFunction::Pq)
        .dovi(Some(sample_dovi_metadata_with_l1(0, 0, 0)));
    assert_eq!(
        v(source.nominal_peak_nits),
        pq_code_to_nits(3079).max(1.0),
        "an all-zero L1 block must not replace the static RPU peak"
    );

    let source = SourceColorState::new(ColorPrimaries::Bt2020, TransferFunction::Pq)
        .dovi(Some(sample_dovi_metadata()));
    assert_eq!(v(source.nominal_peak_nits), pq_code_to_nits(3079).max(1.0));
}

#[test]
fn dovi_uniforms_are_disabled_without_metadata() {
    let source = SourceColorState::new(ColorPrimaries::Bt2020, TransferFunction::Pq);
    assert_eq!(
        DoviUniforms::of_for_representation(&source, false),
        DoviUniforms::disabled()
    );
    assert_eq!(v(DoviUniforms::disabled().flags[0]), 0.0);

    let target = TargetColorState::sdr(ColorPrimaries::Bt709);
    let pipeline = VideoRenderPipeline::new(source, target);
    let uniforms = VideoUniforms::from_pipeline(&pipeline, no_knee(), false, false).dovi;

    assert_eq!(uniforms, DoviUniforms::disabled());
    assert_eq!(v(uniforms.flags[0]), 0.0);
}

#[test]
fn dovi_uniforms_pack_pivots_poly_and_mmr() {
    let metadata = sample_dovi_metadata();
    let source =
        SourceColorState::new(ColorPrimaries::Bt2020, TransferFunction::Pq).dovi(Some(metadata));
    let uniforms = DoviUniforms::of_for_representation(&source, true);
    let sentinel = f32::from_bits(PIVOT_SENTINEL_BITS);
    assert_eq!(sentinel, 1.0e9);

    assert_eq!(uniforms.flags, row([1.0, 3.0, 0.0, 0.0]));
    // Interior pivots leave out the ends; the rest is filled up.
    assert_eq!(uniforms.pivots[0], row([0.25, 0.5, sentinel, sentinel]));
    assert_eq!(uniforms.pivots[1], row([sentinel; 4]));
    assert_eq!(uniforms.bounds[0], row([0.0, 1.0, 0.0, 0.0]));
    assert_eq!(uniforms.coefficients[0], row([0.0, 0.5, 0.0, 0.0]));
    assert_eq!(uniforms.coefficients[1], row([1.0, 1.0, 0.5, 0.0]));
    // The cross-component piece follows; its order rides in the last place.
    assert_eq!(uniforms.coefficients[2], row([0.25, 0.0, 0.0, 2.0]));
    assert_eq!(uniforms.mmr[0], row([0.1, 0.2, 0.3, 0.0]));
    assert_eq!(uniforms.mmr[1], row([0.4, 0.5, 0.6, 0.7]));
    assert_eq!(uniforms.mmr[2], row([0.8, 0.9, 1.0, 0.0]));
    assert_eq!(uniforms.mmr[3], row([1.1, 1.2, 1.3, 1.4]));
    assert_eq!(uniforms.mmr[4], row([0.0, 0.0, 0.0, 0.0]));
}

#[test]
fn the_payload_of_ten_bit_samples_is_the_common_one() {
    let source = SourceColorState::default().dovi(Some(sample_dovi_metadata()));
    let uniforms = DoviUniforms::of(&source);
    assert_eq!(uniforms, DoviUniforms::of_for_representation(&source, true));
    let lms = dovi_lms_to_rgb_matrix(sample_dovi_metadata().rgb_to_lms);
    assert_eq!(uniforms.lms_matrix, lms.row4s());
}

#[test]
fn dovi_uniforms_apply_signal_offset_correction() {
    let metadata = sample_dovi_metadata();
    let source =
        SourceColorState::new(ColorPrimaries::Bt2020, TransferFunction::Pq).dovi(Some(metadata));
    let uniforms = DoviUniforms::of_for_representation(&source, true);
    let correction = 1024.0_f32 / 1023.0;

    assert!((v(uniforms.nonlinear_offset[0]) - 0.25 * correction).abs() < 1e-6);
    assert!((v(uniforms.nonlinear_offset[1]) - 0.5 * correction).abs() < 1e-6);
    assert_eq!(uniforms.nonlinear_matrix[0], row([1.0, 0.5, 0.25, 0.0]));
}

#[test]
fn dovi_uniforms_use_the_uploaded_sample_depth_for_offsets() {
    let metadata = sample_dovi_metadata();
    let source =
        SourceColorState::new(ColorPrimaries::Bt2020, TransferFunction::Pq).dovi(Some(metadata));
    let p010 = DoviUniforms::of_for_representation(&source, true);
    let nv12 = DoviUniforms::of_for_representation(&source, false);
    assert!((v(p010.nonlinear_offset[0]) - 0.25 * 1024.0 / 1023.0).abs() < 1e-6);
    assert!((v(nv12.nonlinear_offset[0]) - 0.25 * 256.0 / 255.0).abs() < 1e-6);

    let uniforms = VideoUniforms::from_pipeline(
        &VideoRenderPipeline::new(source, TargetColorState::sdr(ColorPrimaries::Bt709)),
        no_knee(),
        true,
        false,
    );
    let converted = uniforms.with_p010_representation(false);
    assert_eq!(converted.is_p010, 0);
    assert!(
        (v(converted.dovi.nonlinear_offset[0]) - v(nv12.nonlinear_offset[0])).abs() < 1e-6
    );
    assert_eq!(converted.with_p010_representation(false), converted);
}

#[test]
fn dovi_source_uses_rpu_peak_and_bt2020_primaries() {
    let metadata = sample_dovi_metadata();
    let source = SourceColorState::new(ColorPrimaries::DisplayP3, TransferFunction::Pq)
        .hdr_metadata(Some(HdrMetadata::new(
            Some(MasteringDisplayMetadata {
                display_primaries: None,
                white_point: None,
                min_luminance_nits: Some(f(0.005)),
                max_luminance_nits: Some(f(4000.0)),
            }),
            None,
        )))
        .dovi(Some(metadata));

    // Code 3079 stands for about a thousand nits.
    assert!((v(source.nominal_peak_nits) - 1000.0).abs() < 5.0);
    assert!(
        (v(source
            .hdr_metadata
            .unwrap()
            .mastering_display
            .unwrap()
            .min_luminance_nits
            .unwrap())
            - 0.005)
            .abs()
            < 0.0001
    );
    assert_eq!(source.primaries, ColorPrimaries::Bt2020);
    assert!(source.is_hdr());
    assert_eq!(pq_code_to_nits(0), 0.0);
}

#[test]
fn dovi_source_peak_falls_back_to_pq_default_when_rpu_max_pq_is_zero() {
    let mut metadata = sample_dovi_metadata();
    metadata.source_max_pq = 0;
    let source = SourceColorState::new(ColorPrimaries::Unknown, TransferFunction::Unknown)
        .dovi(Some(decoded(metadata)));

    assert_eq!(source.transfer, TransferFunction::Pq);
    assert_eq!(v(source.reference_white_nits), 203.0);
    assert_eq!(v(source.nominal_peak_nits), 1000.0);
    assert!(v(source.nominal_peak_nits) > v(source.reference_white_nits));
}

#[test]
fn dovi_source_forces_pq_when_stream_tags_are_missing() {
    let source = SourceColorState::new(ColorPrimaries::Unknown, TransferFunction::Unknown)
        .dovi(Some(sample_dovi_metadata()));

    assert_eq!(source.transfer, TransferFunction::Pq);
    assert_eq!(source.primaries, ColorPrimaries::Bt2020);
    assert_eq!(v(source.reference_white_nits), 203.0);
    assert_eq!(transfer_code(source.transfer), 3);
    assert!(source.is_hdr());
}

#[test]
fn dovi_source_adds_reshape_pass_and_tone_maps_to_sdr() {
    let source = SourceColorState::new(ColorPrimaries::Bt2020, TransferFunction::Pq)
        .dovi(Some(sample_dovi_metadata()));
    let pipeline = VideoRenderPipeline::new(source, TargetColorState::sdr(ColorPrimaries::Bt709));

    assert!(pipeline.graph.contains(RenderPassKind::DoviReshape));
    assert!(pipeline.requires_tone_mapping());
    assert!(pipeline.requires_gamut_mapping());

    let pipeline =
        VideoRenderPipeline::new(source, TargetColorState::hdr10(ColorPrimaries::Bt2020));
    assert!(!pipeline.requires_tone_mapping());
}

#[test]
fn taking_dynamic_metadata_away_keeps_the_rest() {
    let source = SourceColorState::new(ColorPrimaries::Bt2020, TransferFunction::Pq)
        .dovi(Some(sample_dovi_metadata()));
    let bare = source.dovi(None);
    assert!(bare.dovi.is_none());
    assert_eq!(bare.nominal_peak_nits, source.nominal_peak_nits);
    assert_eq!(bare.hdr_metadata, source.hdr_metadata);
}

#[test]
fn extended_targets_scale_with_their_headroom() {
    let edr = TargetColorState::apple_edr(ColorPrimaries::DisplayP3, f(4.0));
    assert_eq!(v(edr.edr_headroom), 4.0);
    // A headroom below one counts as one.
    let flat = TargetColorState::apple_edr(ColorPrimaries::DisplayP3, f(0.25));
    assert_eq!(v(flat.edr_headroom), 1.0);
    assert_eq!(v(TargetColorState::sdr(ColorPrimaries::Bt709).peak_nits), 100.0);
    assert_eq!(
        v(TargetColorState::sdr_tone_map_target(ColorPrimaries::Bt709).peak_nits),
        203.0
    );
    assert_eq!(v(TargetColorState::hdr10(ColorPrimaries::Bt2020).peak_nits), 10000.0);
}

#[test]
fn black_follows_from_peak_and_contrast() {
    let sdr = TargetColorState::sdr_tone_map_target(ColorPrimaries::Bt709);
    assert_eq!(v(target_black_nits(&sdr, f(0.0))), 203.0_f32 / 1000.0);
    assert_eq!(v(target_black_nits(&sdr, f(500.0))), 203.0_f32 / 500.0);
    let hdr10 = TargetColorState::hdr10(ColorPrimaries::Bt2020);
    assert_eq!(v(target_black_nits(&hdr10, f(0.0))), 0.0);
}

#[test]
fn operators_have_the_parameters_of_their_curves() {
    assert_eq!(v(default_curve_param(ToneMapOperator::Reinhard)), 0.5);
    assert_eq!(v(default_curve_param(ToneMapOperator::Mobius)), 0.3);
    assert_eq!(v(default_curve_param(ToneMapOperator::Bt2390)), 1.0);
    assert_eq!(v(default_curve_param(ToneMapOperator::Spline)), 0.3);
    let mut config = ToneMapConfig::default();
    config.curve_param = f(0.75);
    assert_eq!(v(config.effective_curve_param()), 0.75);
}

#[test]
fn dovi_sdr_target_configures_bt709_output_matrix() {
    let metadata = sample_dovi_metadata();
    let source = SourceColorState::default().dovi(Some(metadata));
    let target = TargetColorState::sdr_tone_map_target(ColorPrimaries::Bt709);
    let pipeline = VideoRenderPipeline::new(source, target);
    let uniforms = VideoUniforms::from_pipeline(&pipeline, no_knee(), false, false);

    let lms_to_target_r = [
        v(uniforms.ipt_matrix_rows[6][0]),
        v(uniforms.ipt_matrix_rows[6][1]),
        v(uniforms.ipt_matrix_rows[6][2]),
    ];
    let white_sum = lms_to_target_r[0] + lms_to_target_r[1] + lms_to_target_r[2];
    assert!(
        (white_sum - 1.0).abs() < 1e-3,
        "White point sum was {white_sum}"
    );
}

#[test]
fn the_default_pipeline_shows_the_standard_range() {
    let pipeline = VideoRenderPipeline::default();
    assert_eq!(pipeline, VideoRenderPipeline::sdr_default());
    assert!(!pipeline.requires_tone_mapping());
    assert!(!pipeline.requires_gamut_mapping());
}
