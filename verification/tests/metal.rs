//! The Metal renderer: its surfaces, output modes, planes and frames.

use erika::color::{ColorPrimaries, ColorRange, TransferFunction};
use erika::dovi::DoviUniforms;
use erika::danmaku_buffers::DanmakuBatch;
use erika::error::{backpressure_error, PlayerError};
use erika::float::F32;
use erika::knee::Knee;
use erika::metal::{
    edr_layer_color_space, metal_drawable_pixel_format, FrameTarget, LayerColorSpace,
    MetalOutputMode, MetalRendererImpl, MetalRendererStats, MetalSurface, OutputModeStep, VideoAlphaMode,
};
use erika::metal_frame::{
    begin_capture, capture_layout, check_planes, clears_to_nothing, finish_capture, finish_without_video,
    mask_quads, submitted, HostOperation, MetalFrame, MetalVideoUniforms,
    ReportedSizes, UpscaleOutcome,
};
use erika::metal_planes::{
    check_pixel_buffer, check_planar_upload, check_plane, imported_size, metal_pixel_format,
    planar_layout, ImportedVideoFormat, PixelBufferMapping, CV_420_10_FULL_RANGE,
    CV_420_10_VIDEO_RANGE, CV_420_8_FULL_RANGE, CV_420_8_VIDEO_RANGE, METAL_BGRA8_UNORM,
    METAL_R16_UNORM, METAL_R8_UNORM, METAL_RG16_UNORM, METAL_RG8_UNORM,
};
use erika::metal_upscaler::{UpscalerBackend, UpscalerStep};
use erika::modes::{LumaUpscalerBackendStatus, LumaUpscalerMode};
use erika::overlay::{OverlayAlphaAtlasPlan, SubtitleAlphaBitmap, SubtitleBitmapPlacement};
use erika::overlay_cache::OverlayAlphaAtlasCache;
use erika::pipeline::VideoRenderPipeline;
use erika::presentation::PresentationLayout;
use erika::source::{SourceColorState, TargetColorState};
use erika::texels::MetalDrawablePixelFormat;

fn f(value: f32) -> F32 {
    F32::from_bits(value.to_bits())
}

fn row(values: [f32; 4]) -> [F32; 4] {
    values.map(f)
}

fn layout(source: [f32; 2], drawable: [f32; 2], rect: [f32; 4]) -> PresentationLayout {
    PresentationLayout {
        source_width: f(source[0]),
        source_height: f(source[1]),
        drawable_width: f(drawable[0]),
        drawable_height: f(drawable[1]),
        target_rect: row(rect),
    }
}

/// A picture of full size on a surface of twice its size.
fn doubled() -> PresentationLayout {
    layout([960.0, 540.0], [1920.0, 1080.0], [0.0, 0.0, 1920.0, 1080.0])
}

fn renderer(mode: MetalOutputMode) -> MetalRendererImpl {
    MetalRendererImpl::new(mode, VideoAlphaMode::Opaque, LumaUpscalerMode::ArtCnnC4F16)
}

#[test]
fn drawable_pixel_formats_map_to_metal_pipeline_formats() {
    // The numbers of BGRA8Unorm and RGBA16Float.
    assert_eq!(metal_pixel_format(MetalDrawablePixelFormat::Bgra8Unorm), 80);
    assert_eq!(metal_pixel_format(MetalDrawablePixelFormat::Rgba16Float), 115);
}

#[test]
fn output_modes_have_their_drawables() {
    assert_eq!(
        metal_drawable_pixel_format(MetalOutputMode::Sdr),
        MetalDrawablePixelFormat::Bgra8Unorm
    );
    assert_eq!(
        metal_drawable_pixel_format(MetalOutputMode::Edr),
        MetalDrawablePixelFormat::Rgba16Float
    );
    assert_eq!(VideoAlphaMode::PackedAlphaRight.logical_width(1920), 960);
    assert_eq!(VideoAlphaMode::Opaque.logical_width(1920), 1920);
}

#[test]
fn layers_take_the_colour_space_of_the_source() {
    assert_eq!(
        edr_layer_color_space(Some((ColorPrimaries::DisplayP3, TransferFunction::Pq))),
        LayerColorSpace::DisplayP3Pq
    );
    assert_eq!(
        edr_layer_color_space(Some((ColorPrimaries::Bt2020, TransferFunction::Pq))),
        LayerColorSpace::Itur2100Pq
    );
    assert_eq!(
        edr_layer_color_space(Some((ColorPrimaries::Bt709, TransferFunction::Srgb))),
        LayerColorSpace::ExtendedLinearSrgb
    );
    assert_eq!(edr_layer_color_space(None), LayerColorSpace::ExtendedLinearSrgb);
    assert_eq!(LayerColorSpace::Itur2100Pq.label(), "itur-2100-pq");
    assert_eq!(LayerColorSpace::Unconfigured.label(), "unconfigured");
}

#[test]
fn a_layer_follows_the_output_mode() {
    let mut metal = renderer(MetalOutputMode::Sdr);
    let error = metal.attach_raw_layer(false).unwrap_err();
    assert_eq!(error.message(), "cannot attach null CAMetalLayer");
    assert!(!metal.has_surface());
    metal.attach_raw_layer(true).unwrap();
    assert!(metal.has_surface());
    assert_eq!(metal.color_space, LayerColorSpace::Srgb);
    metal.resize_surface(1280, 720);
    assert_eq!((metal.stats.drawable_width, metal.stats.drawable_height), (1280, 720));

    let step = metal.select_output_mode_for_source(true, MetalOutputMode::Edr);
    assert_eq!(step, OutputModeStep::Switch(MetalOutputMode::Edr));
    metal.count_tone_mapped(true);
    assert_eq!(metal.stats.sdr_tonemap_frames, 1);
    metal.set_output_mode(MetalOutputMode::Edr);
    assert_eq!(metal.drawable_pixel_format, MetalDrawablePixelFormat::Rgba16Float);
    assert_eq!(metal.stats.output_mode_switches, 1);
    assert!(!metal.is_hdr10_pq());

    let source = SourceColorState::new(ColorPrimaries::Bt2020, TransferFunction::Pq);
    assert_eq!(metal.source_color_space(&source), Some(LayerColorSpace::Itur2100Pq));
    metal.color_space_changed(LayerColorSpace::Itur2100Pq);
    assert_eq!(metal.source_color_space(&source), None);
    assert!(metal.is_hdr10_pq());
    metal.detach_surface();
    assert_eq!(metal.surface, MetalSurface::Detached);
}

#[test]
fn host_textures_are_checked() {
    let mut metal = renderer(MetalOutputMode::Edr);
    let error = metal
        .set_flutter_texture_buffer(true, 4, 4, METAL_BGRA8_UNORM, "BGRA8Unorm", 4, 4)
        .unwrap_err();
    assert_eq!(error.message(), "no Flutter texture surface attached");
    metal.attach_flutter_texture();
    assert_eq!(metal.output_mode, MetalOutputMode::Sdr);
    let error = metal
        .set_flutter_texture_buffer(true, 0, 4, METAL_BGRA8_UNORM, "BGRA8Unorm", 0, 4)
        .unwrap_err();
    assert_eq!(
        error.message(),
        "Flutter Metal texture and dimensions must be non-zero"
    );
    let error = metal
        .set_flutter_texture_buffer(true, 4, 4, METAL_R8_UNORM, "R8Unorm", 4, 4)
        .unwrap_err();
    assert_eq!(error.message(), "Flutter MTLTexture must use BGRA8Unorm, got R8Unorm");
    let error = metal
        .set_flutter_texture_buffer(true, 4, 4, METAL_BGRA8_UNORM, "BGRA8Unorm", 5, 4)
        .unwrap_err();
    assert_eq!(error.message(), "Flutter MTLTexture size 5x4 does not match 4x4");
    assert_eq!(
        metal.acquire_target(true).unwrap_err(),
        backpressure_error("Flutter texture buffer is not ready")
    );
    metal
        .set_flutter_texture_buffer(true, 4, 4, METAL_BGRA8_UNORM, "BGRA8Unorm", 4, 4)
        .unwrap();
    assert_eq!(metal.acquire_target(false), Ok(FrameTarget::HostTexture));
    // A host texture shows the standard range whatever was negotiated.
    assert_eq!(
        metal.select_output_mode_for_source(true, MetalOutputMode::Edr),
        OutputModeStep::Keep
    );
}

#[test]
fn a_frame_passes_through_its_stages() {
    let mut metal = renderer(MetalOutputMode::Sdr);
    metal.attach_raw_layer(true).unwrap();
    let mut frame = MetalFrame::begin(&mut metal, Some(2), 3).unwrap();
    let target = TargetColorState::sdr_tone_map_target(ColorPrimaries::Bt709);
    let pipeline = frame.retarget(VideoRenderPipeline::sdr_default(), target);
    assert_eq!(pipeline.target, target);
    assert!(frame.request_upscale(&metal, doubled(), METAL_R8_UNORM));
    let pipeline = frame.upscale_finished(&mut metal, pipeline, UpscaleOutcome::Upscaled);
    assert_eq!(pipeline.luma_upscaler, LumaUpscalerMode::ArtCnnC4F16);
    assert_eq!(metal.stats.upscaled_frames, 1);
    assert_eq!(
        frame.acquire(&metal, false).unwrap_err(),
        backpressure_error("CAMetalLayer nextDrawable returned nil")
    );
    assert_eq!(frame.acquire(&metal, true), Ok(FrameTarget::Drawable));
    frame.encoded();
    frame.finish(&mut metal, false, "Error").unwrap();
    assert_eq!(metal.stats.rendered_frames, 1);
    assert_eq!(metal.stats.danmaku_passes, 1);
    assert_eq!(metal.stats.danmaku_items, 3);
}

#[test]
fn a_failed_doubling_switches_the_network_off() {
    let mut metal = renderer(MetalOutputMode::Sdr);
    metal.attach_raw_layer(true).unwrap();
    let mut frame = MetalFrame::begin(&mut metal, Some(2), 0).unwrap();
    let target = TargetColorState::default();
    let pipeline = frame.retarget(VideoRenderPipeline::sdr_default(), target);
    assert!(frame.request_upscale(&metal, doubled(), METAL_R16_UNORM));
    let pipeline = frame.upscale_finished(&mut metal, pipeline, UpscaleOutcome::Failed);
    assert_eq!(pipeline.luma_upscaler, LumaUpscalerMode::Off);
    assert_eq!(metal.upscaler.mode, LumaUpscalerMode::Off);
    let stats = metal.stats();
    assert_eq!(stats.upscaler_mode, LumaUpscalerMode::Off);
    assert_eq!(stats.upscaler_backend, LumaUpscalerBackendStatus::Off);
    assert_eq!(stats.upscaler_fallbacks, 0);
    let mut next = MetalFrame::begin(&mut metal, Some(2), 0).unwrap();
    next.retarget(pipeline, target);
    assert!(!next.request_upscale(&metal, doubled(), METAL_R8_UNORM));
}

#[test]
fn frames_without_planes_are_refused() {
    assert_eq!(
        check_planes(None).unwrap_err().message(),
        "imported video frame has no Metal textures"
    );
    assert_eq!(
        check_planes(Some(0)).unwrap_err().message(),
        "imported video frame has no luma plane"
    );
    assert_eq!(
        check_planes(Some(1)).unwrap_err().message(),
        "imported video frame has no chroma plane"
    );
    assert!(check_planes(Some(2)).is_ok());
}

#[test]
fn host_textures_wait_for_their_commands() {
    for (operation, message) in [
        (HostOperation::Clear, "Flutter texture clear failed with status Error"),
        (HostOperation::Overlay, "Flutter texture overlay failed with status Error"),
        (HostOperation::Frame, "Flutter texture frame failed with status Error"),
    ] {
        let error = submitted(FrameTarget::HostTexture, operation, false, "Error").unwrap_err();
        assert_eq!(error.message(), message);
        assert!(submitted(FrameTarget::Drawable, operation, false, "Error").is_ok());
        assert!(submitted(FrameTarget::HostTexture, operation, true, "").is_ok());
    }
    let mut metal = renderer(MetalOutputMode::Sdr);
    finish_without_video(
        &mut metal,
        FrameTarget::Drawable,
        HostOperation::Clear,
        false,
        "",
    )
    .unwrap();
    assert_eq!(metal.stats.rendered_frames, 1);
    assert!(!clears_to_nothing(&metal));
    metal.record_prepared_overlay_frame(4);
    assert_eq!(metal.stats.prepared_overlay_frames, 1);
    assert_eq!(metal.stats.prepared_overlay_subtitle_planes, 4);
}

#[test]
fn pixel_buffers_have_two_planes() {
    for (format, video, full_range, luma, chroma) in [
        (CV_420_8_VIDEO_RANGE, ImportedVideoFormat::Nv12, false, METAL_R8_UNORM, METAL_RG8_UNORM),
        (CV_420_8_FULL_RANGE, ImportedVideoFormat::Nv12, true, METAL_R8_UNORM, METAL_RG8_UNORM),
        (
            CV_420_10_VIDEO_RANGE,
            ImportedVideoFormat::P010,
            false,
            METAL_R16_UNORM,
            METAL_RG16_UNORM,
        ),
        (
            CV_420_10_FULL_RANGE,
            ImportedVideoFormat::P010,
            true,
            METAL_R16_UNORM,
            METAL_RG16_UNORM,
        ),
    ] {
        let mapping = PixelBufferMapping::from_core_video_format(format).unwrap();
        assert_eq!(mapping.format, video);
        assert_eq!(mapping.full_range, full_range);
        assert_eq!(mapping.planes[0].pixel_format, luma);
        assert_eq!(mapping.planes[1].pixel_format, chroma);
        let range = if full_range {
            ColorRange::Full
        } else {
            ColorRange::Limited
        };
        assert_eq!(mapping.color_range(), range);
    }
    assert_eq!(
        check_pixel_buffer(false, 0, 0, "").unwrap_err().message(),
        "cannot import null CVPixelBuffer"
    );
    assert_eq!(
        check_pixel_buffer(true, 0x4247_5241, 1, "BGRA").unwrap_err().message(),
        "unsupported CVPixelBuffer format BGRA"
    );
    assert_eq!(
        check_pixel_buffer(true, CV_420_8_FULL_RANGE, 1, "420f").unwrap_err().message(),
        "expected at least 2 planes for 420f, got 1"
    );
    assert_eq!(imported_size(1920, 1088, 1920, 1080), (1920, 1088));
}

#[test]
fn uploads_are_held_against_their_layout() {
    let layout = planar_layout(5, 3, ImportedVideoFormat::P010);
    assert_eq!((layout.luma.width, layout.luma.height, layout.luma.stride), (5, 3, 10));
    assert_eq!((layout.chroma.width, layout.chroma.height, layout.chroma.stride), (3, 2, 12));
    assert!(check_planar_upload(&layout, 30, 24).is_ok());
    let error = check_plane(&layout.luma, 29).unwrap_err();
    assert_eq!(error.message(), "software video plane has 29 bytes, expected 30");
    let error = check_planar_upload(&layout, 29, 25).unwrap_err();
    assert_eq!(error.message(), "software video plane has 29 bytes, expected 30");
    let error = check_planar_upload(&layout, 30, 25).unwrap_err();
    assert_eq!(error.message(), "software video plane has 25 bytes, expected 24");
}

#[test]
fn captures_are_sized_and_converted() {
    let layout = capture_layout(2, 1, MetalDrawablePixelFormat::Rgba16Float).unwrap();
    assert_eq!((layout.row_bytes, layout.buffer_len), (16, 16));
    let error = capture_layout(0, 1, MetalDrawablePixelFormat::Bgra8Unorm).unwrap_err();
    assert_eq!(error.message(), "capture size must be non-zero");
    let rgba = finish_capture(
        &[1, 2, 3, 4],
        1,
        1,
        MetalDrawablePixelFormat::Bgra8Unorm,
        true,
        "",
    )
    .unwrap();
    assert_eq!(rgba, vec![3, 2, 1, 4]);
    let error = finish_capture(
        &[],
        1,
        1,
        MetalDrawablePixelFormat::Bgra8Unorm,
        false,
        "Error",
    )
    .unwrap_err();
    assert_eq!(error.message(), "capture command buffer failed with status Error");
}

#[test]
fn a_capture_starts_with_its_checks() {
    let target = TargetColorState::hdr10(ColorPrimaries::Bt2020);
    let begin = |planes: Option<usize>, width: u32| {
        begin_capture(
            planes,
            VideoRenderPipeline::default(),
            target,
            width,
            3,
            MetalDrawablePixelFormat::Bgra8Unorm,
        )
    };
    let (pipeline, layout) = begin(Some(2), 2).unwrap();
    assert_eq!(pipeline.target, target);
    assert_eq!((layout.row_bytes, layout.buffer_len), (8, 24));
    assert_eq!(
        begin(None, 0).unwrap_err().message(),
        "capture size must be non-zero"
    );
    assert_eq!(
        begin(None, 2).unwrap_err().message(),
        "imported video frame has no Metal textures"
    );
    assert_eq!(
        begin(Some(1), 2).unwrap_err().message(),
        "imported video frame has no chroma plane"
    );
}

#[test]
fn the_table_is_used_only_once_it_is_ready() {
    let pipeline = VideoRenderPipeline::new(
        SourceColorState::new(ColorPrimaries::Bt2020, TransferFunction::Pq),
        TargetColorState::sdr_tone_map_target(ColorPrimaries::Bt709),
    );
    let knee = Knee {
        source: f(0.0),
        target: f(0.0),
    };
    let uniforms = |ready: bool| {
        MetalVideoUniforms::for_frame(
            &pipeline,
            knee,
            doubled(),
            true,
            false,
            VideoAlphaMode::PackedAlphaRight,
            ready,
        )
    };
    assert_eq!(uniforms(false).gamut_lut_enabled, 0);
    assert_eq!(uniforms(true).gamut_lut_enabled, 1);
    assert_eq!(uniforms(true).video_alpha_mode, 1);
    assert_eq!(uniforms(true).is_p010, 1);
    assert_eq!(uniforms(true).rect, row([0.0, 0.0, 1920.0, 1080.0]));
    assert_eq!(uniforms(true).viewport, row([1920.0, 1080.0, 0.0, 0.0]));
    assert_eq!(uniforms(true).dovi, DoviUniforms::disabled());
}

#[test]
fn masks_are_drawn_from_the_cached_atlas() {
    let bitmaps = [
        SubtitleAlphaBitmap::new(
            SubtitleBitmapPlacement::new(0, 0, 1, 2),
            1,
            0xff000000,
            vec![1, 2],
        ),
        SubtitleAlphaBitmap::new(
            SubtitleBitmapPlacement::new(9, 9, 3, 1),
            3,
            0x00ff0000,
            vec![3, 4, 5],
        ),
    ];
    let plan = OverlayAlphaAtlasPlan::pack(&bitmaps).unwrap().unwrap();
    let cache = OverlayAlphaAtlasCache::new(plan, &bitmaps);
    let quads = mask_quads(
        &cache,
        &bitmaps,
        doubled(),
        &TargetColorState::default(),
        false,
    );
    assert_eq!(quads.len(), 2);
    assert_eq!(quads[1].rect, row([18.0, 18.0, 6.0, 2.0]));
    assert_eq!(quads[1].tex_rect, row([0.25, 0.0, 0.75, 0.5]));
    assert_eq!(quads[1].color, row([0.0, 1.0, 0.0, 1.0]));
}

#[test]
fn resources_are_summed_up() {
    let mut metal = renderer(MetalOutputMode::Sdr);
    metal.resize_surface(10, 20);
    let stats = metal.resource_stats(&ReportedSizes {
        device_allocated: 5000,
        device_recommended: 9000,
        maximum_drawables: 3,
        overlay_atlas: 100,
        danmaku_fill_atlas: 10,
        danmaku_outline_atlas: 20,
        danmaku_vertex_buffers: vec![1, 2, 3],
        upscaler: 1000,
    });
    assert_eq!(stats.drawable_estimated_bytes, 2400);
    assert_eq!(stats.device_current_allocated_bytes, 5000);
    assert_eq!(stats.device_recommended_working_set_bytes, 9000);
    assert_eq!(stats.danmaku_atlas_bytes, 30);
    assert_eq!(stats.danmaku_vertex_buffer_bytes, 6);
    assert_eq!(stats.renderer_tracked_bytes, 3536);
    assert_eq!(stats.drawable_count, 3);
}

#[test]
fn small_pictures_are_doubled_and_large_ones_are_not() {
    assert!(doubled().is_source_upscaled());
    assert!(!layout([1920.0, 1080.0], [960.0, 540.0], [0.0, 0.0, 960.0, 540.0])
        .is_source_upscaled());
    let metal = renderer(MetalOutputMode::Sdr);
    let mut other = renderer(MetalOutputMode::Sdr);
    let mut frame = MetalFrame::begin(&mut other, Some(2), 0).unwrap();
    frame.retarget(VideoRenderPipeline::default(), TargetColorState::default());
    assert!(!frame.request_upscale(&metal, doubled(), METAL_RG8_UNORM));
    assert_eq!(metal.active_output_mode(), MetalOutputMode::Sdr);
    let expected = MetalRendererStats {
        upscaler_mode: LumaUpscalerMode::ArtCnnC4F16,
        upscaler_backend: LumaUpscalerBackendStatus::Inactive,
        ..MetalRendererStats::default()
    };
    assert_eq!(metal.stats(), expected);
}

#[test]
fn statistics_tell_what_the_upscaler_does_and_the_last_batch() {
    let mut metal = renderer(MetalOutputMode::Sdr);
    let choice = metal.upscaler.backend_choice(None, true);
    assert!(matches!(metal.upscaler.begin_frame(choice), UpscalerStep::Spawn(_)));
    let refused = PlayerError::Renderer("no thread".to_string());
    let step = metal.upscaler.spawn_failed(choice, refused).unwrap();
    let UpscalerStep::Spawn(build) = step else {
        panic!("the scalar kernels are built instead")
    };
    assert!(!build.matmul);
    metal.upscaler.build_spawned(build);
    metal.danmaku_planned(&DanmakuBatch {
        instances: Vec::new(),
        bytes: 640,
    });
    let stats = metal.stats();
    assert_eq!(stats.upscaler_mode, metal.upscaler.mode);
    assert_eq!(stats.upscaler_backend, LumaUpscalerBackendStatus::Building);
    assert_eq!(stats.upscaler_fallbacks, 1);
    assert_eq!(stats.last_danmaku_vertex_bytes, 640);
    assert_eq!(stats.last_danmaku_vertex_count, 0);

    let mut scalar = renderer(MetalOutputMode::Sdr);
    scalar.upscaler.set_backend(UpscalerBackend::Scalar);
    let choice = scalar.upscaler.backend_choice(None, true);
    scalar.upscaler.begin_frame(choice);
    let refused = PlayerError::Renderer("no thread".to_string());
    let error = scalar.upscaler.spawn_failed(choice, refused).unwrap_err();
    assert_eq!(error.message(), "no thread");
    assert_eq!(scalar.upscaler.auto_matmul_fallbacks(), 0);
}
