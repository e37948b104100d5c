//! The lattice of the gamut lookup table and when it is made anew.

use erika::color::{ColorPrimaries, TransferFunction};
use erika::float::F32;
use erika::gamut::{
    lattice_point, lut_pitches, GamutLutKey, GamutLutParams, GamutLutState, GamutLutStep,
    LUT_SIZE_C, LUT_SIZE_H, LUT_SIZE_I, LUT_TEXELS,
};
use erika::pipeline::{ToneMapConfig, VideoRenderPipeline};
use erika::source::{SourceColorState, TargetColorState};

fn f(value: f32) -> F32 {
    F32::from_bits(value.to_bits())
}

fn v(value: F32) -> f32 {
    f32::from_bits(value.to_bits())
}

/// A luminance on the scale of the perceptual quantizer, in sixteen bits.
fn quantize_luma_pq(nits: f32) -> u32 {
    let m1 = 0.1593017578125_f32;
    let m2 = 78.84375_f32;
    let c1 = 0.8359375_f32;
    let c2 = 18.8515625_f32;
    let c3 = 18.6875_f32;
    let p = (nits / 10000.0).clamp(0.0, 1.0).powf(m1);
    let code = ((c1 + c2 * p) / (1.0 + c3 * p).max(0.000_001)).powf(m2);
    (code * 65535.0) as u32
}

fn key_of(pipeline: &VideoRenderPipeline) -> GamutLutKey {
    GamutLutKey::for_pipeline(
        pipeline,
        quantize_luma_pq(v(pipeline.tone_map_extra()[2])),
        quantize_luma_pq(v(pipeline.target.peak_nits)),
    )
}

#[test]
fn gamut_lut_key_tracks_only_static_pipeline_state() {
    let source = |peak_nits: f32| {
        SourceColorState::new(ColorPrimaries::Bt2020, TransferFunction::Pq)
            .nominal_peak_nits(f(peak_nits))
    };
    let sdr_target = TargetColorState::sdr_tone_map_target(ColorPrimaries::Bt709);
    let key = |source: SourceColorState, target: TargetColorState| {
        key_of(&VideoRenderPipeline::new(source, target))
    };

    let base = key(source(1000.0), sdr_target);
    assert_eq!(
        base,
        key(source(4000.0), sdr_target),
        "a per-frame source peak must not invalidate the LUT"
    );
    let edr_target = TargetColorState {
        primaries: ColorPrimaries::Bt709,
        transfer: TransferFunction::Srgb,
        peak_nits: f(400.0),
        reference_white_nits: f(100.0),
        edr_headroom: f(4.0),
    };
    assert_ne!(
        base,
        key(source(1000.0), edr_target),
        "a stale cache key must never match the current frame"
    );
    let contrast_source = SourceColorState::new(ColorPrimaries::Bt2020, TransferFunction::Pq);
    let target_black = |contrast_ratio: f32| VideoRenderPipeline {
        tone_map: ToneMapConfig {
            contrast_ratio: f(contrast_ratio),
            ..ToneMapConfig::default()
        },
        ..VideoRenderPipeline::new(contrast_source, sdr_target)
    };
    assert_ne!(
        key_of(&target_black(0.0)),
        key_of(&target_black(10_000.0)),
        "a different target black changes the LUT's I axis"
    );
    assert_ne!(
        base,
        key(
            source(1000.0),
            TargetColorState::sdr_tone_map_target(ColorPrimaries::DisplayP3)
        )
    );
    assert_ne!(
        base,
        key(
            SourceColorState::new(ColorPrimaries::DisplayP3, TransferFunction::Pq),
            sdr_target
        )
    );
    assert_eq!(quantize_luma_pq(203.0), quantize_luma_pq(203.0));
    assert!(quantize_luma_pq(203.0) < quantize_luma_pq(400.0));
    assert!(quantize_luma_pq(0.1) < quantize_luma_pq(0.203));
    assert_eq!(quantize_luma_pq(10_000.0), 65535);
    assert_eq!(quantize_luma_pq(-1.0), 0);
}

#[test]
fn brightness_does_not_change_the_key_without_tone_mapping() {
    let target = TargetColorState::sdr_tone_map_target(ColorPrimaries::Bt709);
    let frame = |peak_nits: f32| {
        let source = SourceColorState::new(ColorPrimaries::Bt709, TransferFunction::Bt1886)
            .nominal_peak_nits(f(peak_nits));
        VideoRenderPipeline::new(source, target)
    };
    let (dark, bright) = (frame(50.0), frame(80.0));
    assert!(!dark.gamut_lut_active() && !bright.gamut_lut_active());
    assert_eq!(key_of(&dark), key_of(&bright));
}

#[test]
fn the_lattice_walks_intensity_first() {
    assert_eq!(LUT_TEXELS, LUT_SIZE_I * LUT_SIZE_C * LUT_SIZE_H);
    let first = lattice_point(0);
    assert_eq!((first.intensity, first.chroma, first.hue), (0, 0, 0));
    let next_row = lattice_point(LUT_SIZE_I);
    assert_eq!((next_row.intensity, next_row.chroma, next_row.hue), (0, 1, 0));
    let next_slice = lattice_point(LUT_SIZE_I * LUT_SIZE_C);
    assert_eq!((next_slice.intensity, next_slice.chroma, next_slice.hue), (0, 0, 1));
    let last = lattice_point(LUT_TEXELS - 1);
    assert_eq!(
        (last.intensity, last.chroma, last.hue),
        (LUT_SIZE_I - 1, LUT_SIZE_C - 1, LUT_SIZE_H - 1)
    );
    assert_eq!(lut_pitches(), (384, 12_288));
}

#[test]
fn a_table_is_made_once_for_its_key() {
    let pipeline = VideoRenderPipeline::new(
        SourceColorState::new(ColorPrimaries::Bt2020, TransferFunction::Pq),
        TargetColorState::sdr_tone_map_target(ColorPrimaries::Bt709),
    );
    let key = GamutLutKey::for_pipeline(&pipeline, 10, 20);
    let params = key.params(f(0.125), f(0.5));
    assert_eq!(
        params,
        GamutLutParams {
            source: ColorPrimaries::Bt2020,
            target: ColorPrimaries::Bt709,
            min_luma: f(0.125),
            max_luma: f(0.5),
        }
    );
    assert!(params.is_like(&params));
    let mut state = GamutLutState::new();
    assert!(matches!(state.begin_frame(false, key, params), GamutLutStep::Skip));
    assert!(matches!(
        state.begin_frame(true, key, params),
        GamutLutStep::Generate(wanted) if wanted == params
    ));
    assert!(matches!(state.begin_frame(true, key, params), GamutLutStep::Poll));
    state.finished();
    state.uploaded(key);
    assert!(matches!(state.begin_frame(true, key, params), GamutLutStep::Use));
    let other = GamutLutKey::for_pipeline(&pipeline, 11, 20);
    let other_params = other.params(f(0.25), f(0.5));
    assert!(!params.is_like(&other_params));
    assert!(matches!(
        state.begin_frame(true, other, other_params),
        GamutLutStep::Generate(_)
    ));
}
