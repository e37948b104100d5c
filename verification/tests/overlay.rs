//! Atlases of subtitle masks, their reuse and the quads that draw them.

use erika::float::F32;
use erika::color::{ColorPrimaries, TransferFunction};
use erika::overlay::{
    OverlayAlphaAtlasPlacement, OverlayAlphaAtlasPlan, SubtitleAlphaBitmap,
    SubtitleBitmapPlacement,
};
use erika::overlay_cache::{
    hash_alpha_bitmap, OverlayAlphaAtlasCache, OverlayAlphaAtlasSignature, OverlayAlphaAtlasState,
    OverlayAlphaAtlasStep, OverlayAlphaBitmapSignature,
};
use erika::overlay_draw::{
    ui_output_nits, AssColor, D3d11OverlayUniforms, DanmakuBatchUniforms, OverlayUniforms,
};
use erika::presentation::PresentationLayout;
use erika::source::TargetColorState;

fn f(value: f32) -> F32 {
    F32::from_bits(value.to_bits())
}

fn v(value: F32) -> f32 {
    f32::from_bits(value.to_bits())
}

fn row(values: [f32; 4]) -> [F32; 4] {
    values.map(f)
}

fn bitmap(x: i32, width: u32, height: u32, stride: usize, alpha: Vec<u8>) -> SubtitleAlphaBitmap {
    SubtitleAlphaBitmap::new(
        SubtitleBitmapPlacement::new(x, 0, width, height),
        stride,
        0xffffff00,
        alpha,
    )
}

#[test]
fn overlay_alpha_atlas_packs_masks_in_one_r8_image() {
    let first = SubtitleAlphaBitmap::new(
        SubtitleBitmapPlacement::new(0, 0, 2, 2),
        3,
        0xffffff00,
        vec![1, 2, 99, 3, 4],
    );
    let second = SubtitleAlphaBitmap::new(
        SubtitleBitmapPlacement::new(8, 8, 1, 3),
        1,
        0xff000000,
        vec![5, 6, 7],
    );

    let atlas = OverlayAlphaAtlasPlan::pack(&[first, second]).unwrap().unwrap();

    assert_eq!(atlas.width, 3);
    assert_eq!(atlas.height, 3);
    assert_eq!(atlas.stride, 3);
    assert_eq!(atlas.pixels, vec![1, 2, 5, 3, 4, 6, 0, 0, 7]);
    assert_eq!(atlas.placements.len(), 2);
    assert_eq!(atlas.placements[0].bitmap_index, 0);
    assert_eq!(atlas.placements[0].x, 0);
    assert_eq!(atlas.placements[1].bitmap_index, 1);
    assert_eq!(atlas.placements[1].x, 2);
}

#[test]
fn overlay_alpha_atlas_signature_tracks_reusable_layout() {
    let first = bitmap(0, 2, 2, 2, vec![1, 2, 3, 4]);
    let same_bitmap = bitmap(0, 2, 2, 2, vec![1, 2, 3, 4]);
    let moved = bitmap(1, 2, 2, 2, vec![1, 2, 3, 4]);

    let signature = OverlayAlphaAtlasSignature::from_bitmaps(&[first]);

    assert_eq!(
        signature,
        OverlayAlphaAtlasSignature::from_bitmaps(&[same_bitmap])
    );
    assert_ne!(signature, OverlayAlphaAtlasSignature::from_bitmaps(&[moved]));
}

#[test]
fn overlay_alpha_atlas_signature_tracks_alpha_content() {
    let first = bitmap(0, 2, 2, 2, vec![1, 2, 3, 4]);
    let changed_alpha = bitmap(0, 2, 2, 2, vec![1, 2, 3, 5]);

    assert_ne!(
        OverlayAlphaAtlasSignature::from_bitmaps(&[first]),
        OverlayAlphaAtlasSignature::from_bitmaps(&[changed_alpha])
    );
}

#[test]
fn short_masks_are_refused_with_their_numbers() {
    let short = bitmap(0, 2, 2, 3, vec![1, 2, 3, 4]);
    assert_eq!(short.required_len(), 5);
    assert!(!short.is_valid());
    let error = OverlayAlphaAtlasPlan::pack(&[short.clone()]).unwrap_err();
    assert_eq!(
        error.message(),
        "subtitle alpha bitmap has 4 bytes, expected at least 5 for 2x2 stride 3"
    );
    let error = OverlayAlphaAtlasPlan::pack_drawn(&[short]).unwrap_err();
    assert_eq!(
        error.message(),
        "d3d11: overlay alpha bitmap has 4 bytes, expected at least 5 for 2x2 stride 3"
    );
}

#[test]
fn nothing_to_draw_makes_no_atlas() {
    assert_eq!(OverlayAlphaAtlasPlan::pack(&[]).unwrap(), None);
    let empty = bitmap(0, 0, 4, 0, vec![]);
    assert_eq!(OverlayAlphaAtlasPlan::pack(&[empty]).unwrap(), None);
}

#[test]
fn oversized_atlases_are_refused() {
    // The size is held against the machine before any mask is looked at.
    let tall = bitmap(0, u32::MAX, u32::MAX, usize::MAX, vec![]);
    let error = OverlayAlphaAtlasPlan::pack(&[tall.clone(), tall]).unwrap_err();
    assert_eq!(error.message(), "overlay alpha atlas size overflow");
}

#[test]
fn the_hash_reads_the_shown_bytes_alone() {
    let plain = bitmap(0, 2, 2, 2, vec![1, 2, 3, 4]);
    let padded = bitmap(0, 2, 2, 3, vec![1, 2, 77, 3, 4]);
    let other_padding = bitmap(0, 2, 2, 3, vec![1, 2, 88, 3, 4]);
    assert_eq!(hash_alpha_bitmap(&padded), hash_alpha_bitmap(&other_padding));
    assert_eq!(hash_alpha_bitmap(&plain), hash_alpha_bitmap(&padded));
    let changed = bitmap(0, 2, 2, 2, vec![1, 2, 3, 5]);
    assert_ne!(hash_alpha_bitmap(&plain), hash_alpha_bitmap(&changed));
    let signature = OverlayAlphaBitmapSignature::from_bitmap(&padded);
    assert_eq!(signature.stride, 3);
    assert_eq!(signature.alpha_len, 5);
}

#[test]
fn the_hash_is_the_known_one() {
    // The empty text hashes to the offset basis, one byte to a known value.
    let empty = bitmap(0, 0, 0, 0, vec![]);
    assert_eq!(hash_alpha_bitmap(&empty), 0xcbf29ce484222325);
    let letter = bitmap(0, 1, 1, 1, vec![b'a']);
    assert_eq!(hash_alpha_bitmap(&letter), 0xaf63dc4c8601ec8c);
    let word = bitmap(0, 6, 1, 6, b"foobar".to_vec());
    assert_eq!(hash_alpha_bitmap(&word), 0x85944171f73967e8);
}

#[test]
fn an_atlas_is_uploaded_once() {
    let bitmaps = [
        bitmap(0, 2, 2, 2, vec![1, 2, 3, 4]),
        bitmap(5, 1, 1, 1, vec![9]),
    ];
    let mut state = OverlayAlphaAtlasState::new();
    let plan = match state.prepare(&bitmaps, true).unwrap() {
        OverlayAlphaAtlasStep::Upload(plan) => plan,
        OverlayAlphaAtlasStep::Reuse => panic!("nothing is cached yet"),
    };
    state.commit(plan, &bitmaps);
    assert_eq!(state.uploads, 1);
    assert!(matches!(
        state.prepare(&bitmaps, false),
        Ok(OverlayAlphaAtlasStep::Reuse)
    ));
    assert_eq!(state.reuses, 1);
    // What is said to have changed is packed again.
    assert!(matches!(
        state.prepare(&bitmaps, true),
        Ok(OverlayAlphaAtlasStep::Upload(_))
    ));
    let moved = [
        bitmap(0, 2, 2, 2, vec![1, 2, 3, 4]),
        bitmap(6, 1, 1, 1, vec![9]),
    ];
    assert!(!state.cache.as_ref().unwrap().can_reuse_for(&moved));
    assert!(matches!(
        state.prepare(&moved, false),
        Ok(OverlayAlphaAtlasStep::Upload(_))
    ));
    let error = state.prepare(&[], false).unwrap_err();
    assert_eq!(error.message(), "cannot prepare empty overlay alpha atlas");
    assert!(state.cache.is_none());
}

#[test]
fn a_cache_remembers_its_placements() {
    let bitmaps = [bitmap(0, 2, 1, 2, vec![1, 2]), bitmap(5, 1, 1, 1, vec![9])];
    let plan = OverlayAlphaAtlasPlan::pack(&bitmaps).unwrap().unwrap();
    let placements = plan.placements.clone();
    let cache = OverlayAlphaAtlasCache::new(plan, &bitmaps);
    assert_eq!(cache.width, 3);
    assert_eq!(cache.height, 1);
    assert_eq!(cache.placements, placements);
    assert!(cache.can_reuse_for(&bitmaps));
}

#[test]
fn ui_output_nits_flags_only_extended_linear_output() {
    let sdr = TargetColorState::sdr(ColorPrimaries::Bt709);
    assert_eq!(ui_output_nits(&sdr, false), row([100.0, 0.0, 0.0, 0.0]));

    let hdr10 = TargetColorState::hdr10(ColorPrimaries::Bt2020);
    assert_eq!(ui_output_nits(&hdr10, false), row([203.0, 0.0, 0.0, 0.0]));

    let edr = TargetColorState {
        primaries: ColorPrimaries::Bt709,
        transfer: TransferFunction::Srgb,
        peak_nits: f(400.0),
        reference_white_nits: f(100.0),
        edr_headroom: f(4.0),
    };
    assert_eq!(ui_output_nits(&edr, true), row([100.0, 100.0, 0.0, 0.0]));
    assert_eq!(ui_output_nits(&edr, false), row([100.0, 0.0, 0.0, 0.0]));

    // The flag follows the output mode, not the headroom.
    let edr_unit = TargetColorState {
        edr_headroom: f(1.0),
        peak_nits: f(100.0),
        ..edr
    };
    assert_eq!(ui_output_nits(&edr_unit, true), row([100.0, 100.0, 0.0, 0.0]));

    // Targets of the perceptual quantizer encode the interface themselves.
    let edr_pq = TargetColorState {
        primaries: ColorPrimaries::Bt2020,
        transfer: TransferFunction::Pq,
        peak_nits: f(10_000.0),
        reference_white_nits: f(203.0),
        edr_headroom: f(4.0),
    };
    assert_eq!(ui_output_nits(&edr_pq, true), row([203.0, 0.0, 0.0, 0.0]));
}

#[test]
fn overlay_uniforms_decode_libass_color() {
    let bitmap = SubtitleAlphaBitmap::new(
        SubtitleBitmapPlacement::new(12, 34, 56, 78),
        56,
        0x8040207f,
        vec![255; 56 * 78],
    );
    let placement = OverlayAlphaAtlasPlacement {
        bitmap_index: 0,
        x: 10,
        y: 5,
    };

    let uniforms = OverlayUniforms::from_alpha_atlas_bitmap(
        &bitmap,
        &placement,
        200,
        100,
        PresentationLayout {
            source_width: f(640.0),
            source_height: f(360.0),
            drawable_width: f(640.0),
            drawable_height: f(360.0),
            target_rect: row([0.0, 0.0, 640.0, 360.0]),
        },
        &TargetColorState::default(),
        false,
    );

    assert_eq!(uniforms.rect, row([12.0, 34.0, 56.0, 78.0]));
    assert_eq!(uniforms.tex_rect, row([0.05, 0.05, 0.28, 0.78]));
    assert_eq!(uniforms.overlay_mode, 1);
    assert!((v(uniforms.color[0]) - (128.0 / 255.0)).abs() < 0.0001);
    assert!((v(uniforms.color[1]) - (64.0 / 255.0)).abs() < 0.0001);
    assert!((v(uniforms.color[2]) - (32.0 / 255.0)).abs() < 0.0001);
    assert!((v(uniforms.color[3]) - (128.0 / 255.0)).abs() < 0.0001);
}

/// A wide picture on a square surface.
fn letterboxed() -> PresentationLayout {
    PresentationLayout {
        source_width: f(1920.0),
        source_height: f(1080.0),
        drawable_width: f(1000.0),
        drawable_height: f(1000.0),
        target_rect: row([0.0, 218.75, 1000.0, 562.5]),
    }
}

fn assert_rect_close(actual: [F32; 4], expected: [f32; 4]) {
    for (actual, expected) in actual.into_iter().zip(expected) {
        let actual = v(actual);
        assert!((actual - expected).abs() < 0.001, "{actual} != {expected}");
    }
}

#[test]
fn source_rect_maps_into_fitted_video_area() {
    let layout = letterboxed();
    assert_rect_close(
        layout.map_source_rect(f(960.0), f(540.0), f(192.0), f(108.0)),
        [500.0, 500.0, 100.0, 56.25],
    );
    assert_eq!(layout.overlay_viewport(), [f(1000.0), f(1000.0)]);
    assert_eq!(layout.video_viewport(), row([1000.0, 1000.0, 0.0, 0.0]));
    let rect = layout.presentation_rect();
    assert_eq!((v(rect.x), v(rect.y)), (0.0, 218.75));
    assert_eq!((v(rect.width), v(rect.height)), (1000.0, 562.5));
}

#[test]
fn overlay_uniforms_map_source_rect_into_presentation_layout() {
    let uniforms = OverlayUniforms::from_plane(
        960,
        540,
        192,
        108,
        letterboxed(),
        &TargetColorState::default(),
        false,
    );

    assert_eq!(uniforms.viewport, [f(1000.0), f(1000.0)]);
    assert_rect_close(uniforms.rect, [500.0, 500.0, 100.0, 56.25]);
}

#[test]
fn comments_are_told_of_the_target() {
    let target = TargetColorState::hdr10(ColorPrimaries::Bt2020);
    let uniforms = DanmakuBatchUniforms::new(letterboxed(), &target, true);
    assert_eq!(uniforms.viewport, [f(1000.0), f(1000.0)]);
    assert_eq!(uniforms.target_transfer, 3);
    assert_eq!(uniforms.reserved0, 0);
    assert_eq!(uniforms.ui_nits, row([203.0, 0.0, 0.0, 0.0]));
}

#[test]
fn planes_are_drawn_whole() {
    let uniforms = OverlayUniforms::from_plane(
        960,
        540,
        192,
        108,
        letterboxed(),
        &TargetColorState::hdr10(ColorPrimaries::Bt2020),
        true,
    );
    assert_eq!(uniforms.tex_rect, row([0.0, 0.0, 1.0, 1.0]));
    assert_eq!(uniforms.overlay_mode, 0);
    assert_eq!(uniforms.target_transfer, 3);
    assert_eq!(uniforms.color, row([1.0; 4]));
    assert_eq!(uniforms.ui_nits, row([203.0, 0.0, 0.0, 0.0]));
}

#[test]
fn colours_of_masks_are_words_with_transparency() {
    let color = AssColor::from_libass_rgba(0x8040207f);
    assert_eq!(
        (color.red, color.green, color.blue, color.alpha),
        (0x80, 0x40, 0x20, 0x80)
    );
    assert_eq!(AssColor::from_libass_rgba(0xff).alpha, 0);
}

#[test]
fn direct3d_quads_are_placed_in_pixels() {
    let plane = D3d11OverlayUniforms::rgba_plane(-3, 7, 20, 10, 0, 720);
    assert_eq!(plane.rect, row([-3.0, 7.0, 20.0, 10.0]));
    assert_eq!(plane.tex_rect, row([0.0, 0.0, 1.0, 1.0]));
    assert_eq!(plane.viewport, [f(1.0), f(720.0)]);
    let mask = bitmap(4, 10, 4, 10, vec![1; 40]);
    let quad = D3d11OverlayUniforms::alpha_atlas(&mask, 5, 40, 8, 1280, 720);
    assert_eq!(quad.rect, row([4.0, 0.0, 10.0, 4.0]));
    assert_eq!(quad.tex_rect, row([0.125, 0.0, 0.25, 0.5]));
    assert_eq!(quad.overlay_mode, 1);
    assert_eq!(quad.color, row([1.0, 1.0, 1.0, 1.0]));
    let glyph = D3d11OverlayUniforms::alpha_atlas_rect(
        row([0.5; 4]),
        row([1.0, 2.0, 3.0, 4.0]),
        row([0.0, 0.5, 0.5, 0.5]),
        1,
        1,
    );
    assert_eq!(glyph.color, row([0.5; 4]));
    assert_eq!(glyph.rect, row([1.0, 2.0, 3.0, 4.0]));
    assert_eq!(glyph.tex_rect, row([0.0, 0.5, 0.5, 0.5]));
}
