//! One frame on Metal, from the decoded planes to the submitted commands, and
//! the capture of a frame.
use crate::d3d11_artcnn::counted;
use crate::dovi::{pivots_fit, DoviUniforms, Row};
use crate::error::{renderer_error, PlayerError};
use crate::metal::{
    FrameTarget, MetalOutputMode, MetalRendererImpl, MetalRendererStats, MetalSurface, VideoAlphaMode,
};
use crate::metal_planes::{METAL_R16_UNORM, METAL_R8_UNORM};
use crate::metal_upscaler::LumaUpscaler;
use crate::knee::Knee;
use crate::modes::LumaUpscalerMode;
use crate::overlay::SubtitleAlphaBitmap;
use crate::overlay_cache::OverlayAlphaAtlasCache;
use crate::overlay_draw::{is_color, is_share, OverlayUniforms};
use crate::overlay_laws::law_reused_placements_belong_to_the_bitmaps;
use crate::pipeline::VideoRenderPipeline;
use crate::presentation::PresentationLayout;
use crate::source::TargetColorState;
use crate::texels::{
    captured, captured_count, convert_capture_to_rgba8, pixel_bytes, MetalDrawablePixelFormat,
};
use crate::uniforms::{flag, VideoUniforms};
use vstd::prelude::*;

verus! {

/// Checks that an imported frame has both planes; without textures there are
/// none at all.
pub fn check_planes(planes: Option<usize>) -> (checked: Result<(), PlayerError>)
    ensures
        match checked {
            Ok(()) => planes is Some && planes.unwrap() >= 2,
            Err(error) => match planes {
                None => error.says("imported video frame has no Metal textures"@),
                Some(count) => if count == 0 {
                    error.says("imported video frame has no luma plane"@)
                } else {
                    count == 1 && error.says("imported video frame has no chroma plane"@)
                },
            },
        },
{
    match planes {
        None => Err(renderer_error("imported video frame has no Metal textures")),
        Some(count) => if count == 0 {
            Err(renderer_error("imported video frame has no luma plane"))
        } else if count == 1 {
            Err(renderer_error("imported video frame has no chroma plane"))
        } else {
            Ok(())
        },
    }
}

/// How far a frame has come.
#[derive(Debug, Clone, Copy, PartialEq, Eq, Structural)]
pub enum FrameStage {
    /// The planes are there.
    Checked,
    /// The pipeline draws to the surface's target colours.
    Retargeted,
    /// The luma plane is doubled, or stays as it is.
    Upscaled,
    /// There is something to draw to.
    Targeted,
    /// The commands are recorded.
    Encoded,
    /// The commands are submitted.
    Submitted,
}

/// One frame on its way.
#[derive(Debug, Clone, Copy, PartialEq, Eq, Structural)]
pub struct MetalFrame {
    pub stage: FrameStage,
    pub upscale_requested: bool,
    pub upscaled: bool,
    pub target: Option<FrameTarget>,
    pub danmaku_items: usize,
}

/// How the doubling of the luma plane ended.
#[derive(Debug, Clone, Copy, PartialEq, Eq, Structural)]
pub enum UpscaleOutcome {
    Upscaled,
    /// The kernels are not ready yet.
    NotReady,
    Failed,
}

/// What was being drawn to a texture of the host application.
#[derive(Debug, Clone, Copy, PartialEq, Eq, Structural)]
pub enum HostOperation {
    Clear,
    Overlay,
    Frame,
}

/// The message for commands that did not complete on a host texture.
pub open spec fn host_failure_text(operation: HostOperation, status: Seq<char>) -> Seq<char> {
    match operation {
        HostOperation::Clear => "Flutter texture clear failed with status "@ + status,
        HostOperation::Overlay => "Flutter texture overlay failed with status "@ + status,
        HostOperation::Frame => "Flutter texture frame failed with status "@ + status,
    }
}

/// Takes in how submitted commands ended. Only drawing to a host texture waits
/// for that; a drawable is presented by the system. `status` names the state of
/// the commands in messages.
pub fn submitted(
    target: FrameTarget,
    operation: HostOperation,
    completed: bool,
    status: &str,
) -> (result: Result<(), PlayerError>)
    ensures
        match result {
            Ok(()) => target == FrameTarget::Drawable || completed,
            Err(error) => {
                &&& target == FrameTarget::HostTexture
                &&& !completed
                &&& error.says(host_failure_text(operation, status@))
            },
        },
{
    if matches!(target, FrameTarget::Drawable) || completed {
        return Ok(());
    }
    let mut text: String = match operation {
        HostOperation::Clear => "Flutter texture clear failed with status ".to_owned(),
        HostOperation::Overlay => "Flutter texture overlay failed with status ".to_owned(),
        HostOperation::Frame => "Flutter texture frame failed with status ".to_owned(),
    };
    text.append(status);
    Err(PlayerError::Renderer(text))
}

impl MetalFrame {
    /// Starts a frame with this many comment glyphs.
    pub fn begin(renderer: &mut MetalRendererImpl, planes: Option<usize>, danmaku_items: usize) -> (
    frame: Result<Self, PlayerError>)
        requires
            old(renderer).wf(),
        ensures
            final(renderer).wf(),
            *final(renderer) == (MetalRendererImpl {
                stats: MetalRendererStats {
                    last_danmaku_vertex_bytes: 0,
                    last_danmaku_vertex_count: 0,
                    ..old(renderer).stats
                },
                ..*old(renderer)
            }),
            match frame {
                Ok(frame) => {
                    &&& planes is Some && planes.unwrap() >= 2
                    &&& frame == (MetalFrame {
                        stage: FrameStage::Checked,
                        upscale_requested: false,
                        upscaled: false,
                        target: None,
                        danmaku_items,
                    })
                },
                Err(error) => match planes {
                    None => error.says("imported video frame has no Metal textures"@),
                    Some(count) => if count == 0 {
                        error.says("imported video frame has no luma plane"@)
                    } else {
                        count == 1 && error.says("imported video frame has no chroma plane"@)
                    },
                },
            },
    {
        renderer.stats.last_danmaku_vertex_bytes = 0;
        renderer.stats.last_danmaku_vertex_count = 0;
        match check_planes(planes) {
            Ok(()) => Ok(
                MetalFrame {
                    stage: FrameStage::Checked,
                    upscale_requested: false,
                    upscaled: false,
                    target: None,
                    danmaku_items,
                },
            ),
            Err(error) => Err(error),
        }
    }

    /// Points the frame's pipeline at the target colours of the output mode that
    /// was selected for it.
    pub fn retarget(&mut self, pipeline: VideoRenderPipeline, target: TargetColorState) -> (
    retargeted: VideoRenderPipeline)
        requires
            old(self).stage == FrameStage::Checked,
        ensures
            *final(self) == (MetalFrame { stage: FrameStage::Retargeted, ..*old(self) }),
            retargeted.wf(),
            retargeted == (VideoRenderPipeline { target, graph: retargeted.graph, ..pipeline }),
    {
        self.stage = FrameStage::Retargeted;
        pipeline.with_target(target)
    }

    /// Whether the luma plane is to be doubled: a network is selected, the
    /// picture is shown larger than it is, and the plane has a format that the
    /// kernels read. `luma_format` is Metal's number.
    pub fn request_upscale(
        &mut self,
        renderer: &MetalRendererImpl,
        layout: PresentationLayout,
        luma_format: usize,
    ) -> (requested: bool)
        requires
            old(self).stage == FrameStage::Retargeted,
        ensures
            requested == (renderer.upscaler.mode != LumaUpscalerMode::Off && (
            layout.source_width.below(layout.target_rect@[2]) || layout.source_height.below(
                layout.target_rect@[3],
            )) && (luma_format == METAL_R8_UNORM || luma_format == METAL_R16_UNORM)),
            *final(self) == (MetalFrame {
                stage: if requested {
                    FrameStage::Retargeted
                } else {
                    FrameStage::Upscaled
                },
                upscale_requested: requested,
                ..*old(self)
            }),
    {
        let requested: bool = renderer.upscaler.mode.is_enabled() && layout.is_source_upscaled() && (
        luma_format == METAL_R8_UNORM || luma_format == METAL_R16_UNORM);
        self.upscale_requested = requested;
        if !requested {
            self.stage = FrameStage::Upscaled;
        }
        requested
    }

    /// Takes in how the doubling ended. A failure switches the network off; a
    /// doubled plane becomes part of the pipeline.
    pub fn upscale_finished(
        &mut self,
        renderer: &mut MetalRendererImpl,
        pipeline: VideoRenderPipeline,
        outcome: UpscaleOutcome,
    ) -> (updated: VideoRenderPipeline)
        requires
            old(self).stage == FrameStage::Retargeted,
            old(self).upscale_requested,
            old(renderer).wf(),
            old(renderer).stats.upscaled_frames < u64::MAX,
            pipeline.wf(),
        ensures
            final(renderer).wf(),
            updated.wf(),
            *final(self) == (MetalFrame {
                stage: FrameStage::Upscaled,
                upscaled: outcome == UpscaleOutcome::Upscaled,
                ..*old(self)
            }),
            match outcome {
                UpscaleOutcome::Upscaled => {
                    &&& updated == (VideoRenderPipeline {
                        luma_upscaler: old(renderer).upscaler.mode,
                        graph: updated.graph,
                        ..pipeline
                    })
                    &&& *final(renderer) == (MetalRendererImpl {
                        stats: MetalRendererStats {
                            upscaled_frames: (old(renderer).stats.upscaled_frames + 1) as u64,
                            ..old(renderer).stats
                        },
                        ..*old(renderer)
                    })
                },
                UpscaleOutcome::NotReady => {
                    &&& updated == pipeline
                    &&& *final(renderer) == *old(renderer)
                },
                UpscaleOutcome::Failed => {
                    &&& updated == pipeline
                    &&& *final(renderer) == (MetalRendererImpl {
                        upscaler: if old(renderer).upscaler.mode == LumaUpscalerMode::Off {
                            old(renderer).upscaler
                        } else {
                            LumaUpscaler {
                                mode: LumaUpscalerMode::Off,
                                resources: None,
                                pending: None,
                                auto_matmul_failed: false,
                                ..old(renderer).upscaler
                            }
                        },
                        ..*old(renderer)
                    })
                },
            },
    {
        self.stage = FrameStage::Upscaled;
        self.upscaled = false;
        match outcome {
            UpscaleOutcome::Upscaled => {
                self.upscaled = true;
                renderer.stats.upscaled_frames = renderer.stats.upscaled_frames + 1;
                pipeline.with_luma_upscaler(renderer.upscaler.mode)
            },
            UpscaleOutcome::NotReady => pipeline,
            UpscaleOutcome::Failed => {
                renderer.upscaler.set_mode(LumaUpscalerMode::Off);
                pipeline
            },
        }
    }

    /// Takes in whether the surface has something to draw to.
    pub fn acquire(&mut self, renderer: &MetalRendererImpl, drawable_available: bool) -> (
    target: Result<FrameTarget, PlayerError>)
        requires
            old(self).stage == FrameStage::Upscaled,
        ensures
            match target {
                Ok(target) => {
                    &&& *final(self) == (MetalFrame {
                        stage: FrameStage::Targeted,
                        target: Some(target),
                        ..*old(self)
                    })
                    &&& match target {
                        FrameTarget::Drawable => renderer.surface == MetalSurface::Layer
                            && drawable_available,
                        FrameTarget::HostTexture => renderer.surface == (
                        MetalSurface::HostTexture { ready: true }),
                    }
                },
                Err(error) => {
                    &&& *final(self) == *old(self)
                    &&& if renderer.surface == MetalSurface::Layer {
                        !drawable_available && error.defers(
                            "CAMetalLayer nextDrawable returned nil"@,
                        )
                    } else {
                        &&& renderer.surface != (MetalSurface::HostTexture { ready: true })
                        &&& error.defers("Flutter texture buffer is not ready"@)
                    }
                },
            },
    {
        match renderer.acquire_target(drawable_available) {
            Ok(target) => {
                self.stage = FrameStage::Targeted;
                self.target = Some(target);
                Ok(target)
            },
            Err(error) => Err(error),
        }
    }

    /// Takes in that the commands of the frame are recorded.
    pub fn encoded(&mut self)
        requires
            old(self).stage == FrameStage::Targeted,
        ensures
            *final(self) == (MetalFrame { stage: FrameStage::Encoded, ..*old(self) }),
    {
        self.stage = FrameStage::Encoded;
    }

    /// Takes in how the submitted commands ended, and counts the frame.
    pub fn finish(&mut self, renderer: &mut MetalRendererImpl, completed: bool, status: &str) -> (
    result: Result<(), PlayerError>)
        requires
            old(self).stage == FrameStage::Encoded,
            old(self).target is Some,
            old(renderer).wf(),
            old(renderer).stats.rendered_frames < u64::MAX,
            old(renderer).stats.danmaku_passes < u64::MAX,
            old(renderer).stats.danmaku_items + old(self).danmaku_items <= u64::MAX,
        ensures
            final(renderer).wf(),
            match result {
                Ok(()) => {
                    &&& old(self).target == Some(FrameTarget::Drawable) || completed
                    &&& *final(self) == (MetalFrame { stage: FrameStage::Submitted, ..*old(self) })
                    &&& *final(renderer) == (MetalRendererImpl {
                        stats: MetalRendererStats {
                            rendered_frames: (old(renderer).stats.rendered_frames + 1) as u64,
                            edr_rendered_frames: if old(renderer).output_mode
                                == MetalOutputMode::Edr {
                                counted(old(renderer).stats.edr_rendered_frames)
                            } else {
                                old(renderer).stats.edr_rendered_frames
                            },
                            danmaku_passes: if old(self).danmaku_items > 0 {
                                (old(renderer).stats.danmaku_passes + 1) as u64
                            } else {
                                old(renderer).stats.danmaku_passes
                            },
                            danmaku_items: (old(renderer).stats.danmaku_items + old(
                                self,
                            ).danmaku_items) as u64,
                            ..old(renderer).stats
                        },
                        ..*old(renderer)
                    })
                },
                Err(error) => {
                    &&& old(self).target == Some(FrameTarget::HostTexture) && !completed
                    &&& error.says(host_failure_text(HostOperation::Frame, status@))
                    &&& *final(self) == *old(self)
                    &&& *final(renderer) == *old(renderer)
                },
            },
    {
        let target = match self.target {
            Some(target) => target,
            None => FrameTarget::Drawable,
        };
        match submitted(target, HostOperation::Frame, completed, status) {
            Ok(()) => {},
            Err(error) => {
                return Err(error);
            },
        }
        self.stage = FrameStage::Submitted;
        renderer.stats.rendered_frames = renderer.stats.rendered_frames + 1;
        if renderer.output_mode.is_edr() {
            renderer.stats.edr_rendered_frames =
            renderer.stats.edr_rendered_frames.saturating_add(1);
        }
        if self.danmaku_items > 0 {
            renderer.stats.danmaku_passes = renderer.stats.danmaku_passes + 1;
            renderer.stats.danmaku_items = renderer.stats.danmaku_items
                + self.danmaku_items as u64;
        }
        Ok(())
    }
}

/// Takes in that the surface has been cleared or has shown an overlay alone.
pub fn finish_without_video(
    renderer: &mut MetalRendererImpl,
    target: FrameTarget,
    operation: HostOperation,
    completed: bool,
    status: &str,
) -> (result: Result<(), PlayerError>)
    requires
        old(renderer).wf(),
        old(renderer).stats.rendered_frames < u64::MAX,
    ensures
        final(renderer).wf(),
        match result {
            Ok(()) => {
                &&& target == FrameTarget::Drawable || completed
                &&& *final(renderer) == (MetalRendererImpl {
                    stats: MetalRendererStats {
                        rendered_frames: (old(renderer).stats.rendered_frames + 1) as u64,
                        ..old(renderer).stats
                    },
                    ..*old(renderer)
                })
            },
            Err(error) => {
                &&& target == FrameTarget::HostTexture && !completed
                &&& error.says(host_failure_text(operation, status@))
                &&& *final(renderer) == *old(renderer)
            },
        },
{
    match submitted(target, operation, completed, status) {
        Ok(()) => {
            renderer.stats.rendered_frames = renderer.stats.rendered_frames + 1;
            Ok(())
        },
        Err(error) => Err(error),
    }
}

/// Whether the surface is cleared to nothing: video with alpha is composed over
/// what lies behind it.
pub fn clears_to_nothing(renderer: &MetalRendererImpl) -> (nothing: bool)
    ensures
        nothing == (renderer.video_alpha_mode == VideoAlphaMode::PackedAlphaRight),
{
    renderer.video_alpha_mode.has_alpha()
}

/// The uniforms of the Metal video shader.
#[derive(Debug, Clone, Copy, PartialEq, Eq)]
pub struct MetalVideoUniforms {
    pub is_p010: u32,
    pub full_range: u32,
    pub source_transfer: u32,
    pub target_transfer: u32,
    pub tone_map: u32,
    pub edr_output: u32,
    pub video_alpha_mode: u32,
    pub reserved1: u32,
    /// Where the picture lies on the surface.
    pub rect: Row,
    pub viewport: Row,
    pub nits: Row,
    pub luma_coefficients: Row,
    pub gamut_matrix_rows: [Row; 3],
    pub ipt_matrix_rows: [Row; 9],
    pub tone_map_extra: Row,
    pub tone_map_coeffs: Row,
    pub gamut_lut_enabled: u32,
    pub gamut_primaries: u32,
    pub gamut_reserved0: u32,
    pub gamut_reserved1: u32,
    pub dovi: DoviUniforms,
}

impl MetalVideoUniforms {
    /// The colours are those of the shared uniforms.
    pub open spec fn shares(self, shared: VideoUniforms) -> bool {
        &&& self.is_p010 == shared.is_p010
        &&& self.full_range == shared.full_range
        &&& self.source_transfer == shared.source_transfer
        &&& self.target_transfer == shared.target_transfer
        &&& self.tone_map == shared.tone_map
        &&& self.edr_output == shared.edr_output
        &&& self.nits == shared.nits
        &&& self.luma_coefficients == shared.luma_coefficients
        &&& self.gamut_matrix_rows == shared.gamut_matrix_rows
        &&& self.ipt_matrix_rows == shared.ipt_matrix_rows
        &&& self.tone_map_extra == shared.tone_map_extra
        &&& self.tone_map_coeffs == shared.tone_map_coeffs
        &&& self.gamut_primaries == shared.gamut_primaries
        &&& self.gamut_reserved0 == 0
        &&& self.gamut_reserved1 == 0
        &&& self.dovi == shared.dovi
    }

    /// The uniforms of a frame. `alpha` is where its alpha is; a capture has
    /// none. The lookup table is switched on only where it is ready.
    pub fn for_frame(
        pipeline: &VideoRenderPipeline,
        knee: Knee,
        layout: PresentationLayout,
        is_p010: bool,
        edr_output: bool,
        alpha: VideoAlphaMode,
        gamut_lut_ready: bool,
    ) -> (uniforms: Self)
        requires
            pipeline.source.dovi matches Some(dovi) ==> pivots_fit(dovi),
        ensures
            exists|shared: VideoUniforms| #[trigger]
                shared.describe(*pipeline, knee, is_p010, edr_output) && uniforms.shares(
                    shared,
                ),
            uniforms.video_alpha_mode == match alpha {
                VideoAlphaMode::Opaque => 0u32,
                VideoAlphaMode::PackedAlphaRight => 1u32,
            },
            uniforms.reserved1 == 0,
            uniforms.rect == layout.target_rect,
            uniforms.viewport@ == layout.viewport(),
            uniforms.gamut_lut_enabled == flag(gamut_lut_ready && pipeline.uses_lut()),
    {
        let shared = VideoUniforms::from_pipeline(pipeline, knee, is_p010, edr_output);
        let uniforms = MetalVideoUniforms {
            is_p010: shared.is_p010,
            full_range: shared.full_range,
            source_transfer: shared.source_transfer,
            target_transfer: shared.target_transfer,
            tone_map: shared.tone_map,
            edr_output: shared.edr_output,
            video_alpha_mode: alpha.code(),
            reserved1: 0,
            rect: layout.target_rect,
            viewport: layout.video_viewport(),
            nits: shared.nits,
            luma_coefficients: shared.luma_coefficients,
            gamut_matrix_rows: shared.gamut_matrix_rows,
            ipt_matrix_rows: shared.ipt_matrix_rows,
            tone_map_extra: shared.tone_map_extra,
            tone_map_coeffs: shared.tone_map_coeffs,
            gamut_lut_enabled: if gamut_lut_ready {
                shared.gamut_lut_enabled
            } else {
                0
            },
            gamut_primaries: shared.gamut_primaries,
            gamut_reserved0: 0,
            gamut_reserved1: 0,
            dovi: shared.dovi,
        };
        proof {
            reveal(VideoUniforms::picture);
            assert(uniforms.shares(shared));
        }
        uniforms
    }
}

/// The quads of the cached atlas, one for each placement.
pub fn mask_quads(
    cache: &OverlayAlphaAtlasCache,
    bitmaps: &[SubtitleAlphaBitmap],
    layout: PresentationLayout,
    target: &TargetColorState,
    edr_output: bool,
) -> (quads: Vec<OverlayUniforms>)
    requires
        cache.faithful(),
        cache.reusable_for(bitmaps@),
    ensures
        quads@.len() == cache.placements@.len(),
        forall|n: int|
            0 <= n < quads@.len() ==> {
                let placement = cache.placements@[n];
                let bitmap = bitmaps@[placement.bitmap_index as int];
                &&& (#[trigger] quads@[n]).suits(*target, edr_output)
                &&& quads@[n].lies(
                    layout,
                    bitmap.placement.x,
                    bitmap.placement.y,
                    bitmap.placement.width,
                    bitmap.placement.height,
                )
                &&& quads@[n].overlay_mode == 1
                &&& is_share(placement.x as int, cache.width as int, quads@[n].tex_rect@[0])
                &&& is_share(placement.y as int, cache.height as int, quads@[n].tex_rect@[1])
                &&& is_share(bitmap.w(), cache.width as int, quads@[n].tex_rect@[2])
                &&& is_share(bitmap.h(), cache.height as int, quads@[n].tex_rect@[3])
                &&& is_color(bitmap.color_rgba, quads@[n].color@)
            },
{
    let count: usize = bitmaps.len();
    let mut quads: Vec<OverlayUniforms> = Vec::new();
    let mut i: usize = 0;
    proof {
        law_reused_placements_belong_to_the_bitmaps(*cache, bitmaps@);
    }
    while i < cache.placements.len()
        invariant
            i <= cache.placements@.len(),
            quads@.len() == i,
            forall|n: int|
                0 <= n < cache.placements@.len() ==> (#[trigger] cache.placements@[n]).bitmap_index
                    < bitmaps@.len(),
            forall|n: int|
                0 <= n < quads@.len() ==> {
                    let placement = cache.placements@[n];
                    let bitmap = bitmaps@[placement.bitmap_index as int];
                    &&& (#[trigger] quads@[n]).suits(*target, edr_output)
                    &&& quads@[n].lies(
                        layout,
                        bitmap.placement.x,
                        bitmap.placement.y,
                        bitmap.placement.width,
                        bitmap.placement.height,
                    )
                    &&& quads@[n].overlay_mode == 1
                    &&& is_share(placement.x as int, cache.width as int, quads@[n].tex_rect@[0])
                    &&& is_share(placement.y as int, cache.height as int, quads@[n].tex_rect@[1])
                    &&& is_share(bitmap.w(), cache.width as int, quads@[n].tex_rect@[2])
                    &&& is_share(bitmap.h(), cache.height as int, quads@[n].tex_rect@[3])
                    &&& is_color(bitmap.color_rgba, quads@[n].color@)
                },
        decreases cache.placements@.len() - i,
    {
        let placement = cache.placements[i];
        proof {
            assert(cache.placements@[i as int].bitmap_index < bitmaps@.len());
        }
        let quad = OverlayUniforms::from_alpha_atlas_bitmap(
            &bitmaps[placement.bitmap_index],
            &placement,
            cache.width,
            cache.height,
            layout,
            target,
            edr_output,
        );
        quads.push(quad);
        i = i + 1;
    }
    quads
}

/// The read-back buffer of a capture.
#[derive(Debug, Clone, Copy, PartialEq, Eq, Structural)]
pub struct CaptureLayout {
    pub row_bytes: usize,
    pub buffer_len: usize,
}

/// Sizes the read-back buffer of a capture.
pub fn capture_layout(width: u32, height: u32, format: MetalDrawablePixelFormat) -> (
layout: Result<CaptureLayout, PlayerError>)
    requires
        width * height * pixel_bytes(format) <= usize::MAX,
    ensures
        match layout {
            Ok(layout) => {
                &&& width > 0 && height > 0
                &&& layout.row_bytes == width * pixel_bytes(format)
                &&& layout.buffer_len == width * height * pixel_bytes(format)
            },
            Err(error) => (width == 0 || height == 0) && error.says(
                "capture size must be non-zero"@,
            ),
        },
{
    if width == 0 || height == 0 {
        return Err(renderer_error("capture size must be non-zero"));
    }
    let each: usize = format.bytes_per_pixel();
    proof {
        let w = width as int;
        let h = height as int;
        let e = each as int;
        assert((w * e) * h == w * h * e) by (nonlinear_arith);
        assert(w * e <= (w * e) * h) by (nonlinear_arith)
            requires
                w * e >= 0,
                h >= 1,
        ;
    }
    let row_bytes: usize = width as usize * each;
    Ok(CaptureLayout { row_bytes, buffer_len: row_bytes * height as usize })
}

/// Starts a capture of this size: sizes its read-back buffer, checks the planes
/// of the frame and points its pipeline at the target colours.
pub fn begin_capture(
    planes: Option<usize>,
    pipeline: VideoRenderPipeline,
    target: TargetColorState,
    width: u32,
    height: u32,
    format: MetalDrawablePixelFormat,
) -> (begun: Result<(VideoRenderPipeline, CaptureLayout), PlayerError>)
    requires
        width * height * pixel_bytes(format) <= usize::MAX,
    ensures
        match begun {
            Ok((retargeted, layout)) => {
                &&& width > 0 && height > 0
                &&& planes is Some && planes.unwrap() >= 2
                &&& layout.row_bytes == width * pixel_bytes(format)
                &&& layout.buffer_len == width * height * pixel_bytes(format)
                &&& retargeted.wf()
                &&& retargeted == (VideoRenderPipeline {
                    target,
                    graph: retargeted.graph,
                    ..pipeline
                })
            },
            Err(error) => if width == 0 || height == 0 {
                error.says("capture size must be non-zero"@)
            } else {
                match planes {
                    None => error.says("imported video frame has no Metal textures"@),
                    Some(count) => if count == 0 {
                        error.says("imported video frame has no luma plane"@)
                    } else {
                        count == 1 && error.says("imported video frame has no chroma plane"@)
                    },
                }
            },
        },
{
    let layout = match capture_layout(width, height, format) {
        Ok(layout) => layout,
        Err(error) => {
            return Err(error);
        },
    };
    match check_planes(planes) {
        Ok(()) => Ok((pipeline.with_target(target), layout)),
        Err(error) => Err(error),
    }
}

/// Takes in how the commands of a capture ended, and converts what was read
/// back. `status` names the state of the commands in messages.
pub fn finish_capture(
    raw: &[u8],
    width: u32,
    height: u32,
    format: MetalDrawablePixelFormat,
    completed: bool,
    status: &str,
) -> (rgba: Result<Vec<u8>, PlayerError>)
    requires
        width * height * pixel_bytes(format) <= usize::MAX,
    ensures
        match rgba {
            Ok(rgba) => {
                let count = captured_count(
                    raw@.len() as int,
                    width as int,
                    height as int,
                    format,
                );
                &&& completed
                &&& rgba@.len() == 4 * count
                &&& forall|p: int, c: int|
                    0 <= p < count && 0 <= c < 4 ==> #[trigger] rgba@[4 * p + c] == captured(
                        raw@,
                        format,
                        p,
                        c,
                    )
            },
            Err(error) => !completed && error.says(
                "capture command buffer failed with status "@ + status@,
            ),
        },
{
    if !completed {
        let mut text: String = "capture command buffer failed with status ".to_owned();
        text.append(status);
        return Err(PlayerError::Renderer(text));
    }
    proof {
        let n = width * height;
        assert(n >= 0) by (nonlinear_arith)
            requires
                n == width * height,
                width >= 0,
                height >= 0,
        ;
    }
    Ok(convert_capture_to_rgba8(raw, width as usize, height as usize, format))
}

/// What the renderer occupies on the device.
#[derive(Debug, Clone, Copy, PartialEq, Eq, Structural)]
pub struct RendererResourceStats {
    pub device_current_allocated_bytes: u64,
    pub device_recommended_working_set_bytes: u64,
    pub drawable_estimated_bytes: u64,
    pub overlay_atlas_bytes: u64,
    pub danmaku_atlas_bytes: u64,
    pub danmaku_vertex_buffer_bytes: u64,
    pub upscaler_bytes: u64,
    pub renderer_tracked_bytes: u64,
    pub drawable_count: u32,
    pub output_mode_switches: u64,
}

/// Sizes that the device reports.
#[derive(Debug, Clone, PartialEq, Eq)]
pub struct ReportedSizes {
    /// What the device has allocated in all, and what it recommends; zero where
    /// it recommends nothing.
    pub device_allocated: u64,
    pub device_recommended: u64,
    /// Drawables that the layer has, none without a layer.
    pub maximum_drawables: usize,
    pub overlay_atlas: u64,
    pub danmaku_fill_atlas: u64,
    pub danmaku_outline_atlas: u64,
    pub danmaku_vertex_buffers: Vec<u64>,
    pub upscaler: u64,
}

/// As much of a sum as the counter holds.
pub open spec fn capped_sum(sum: int) -> u64 {
    if sum <= u64::MAX {
        sum as u64
    } else {
        u64::MAX
    }
}

/// The sum of a list.
pub open spec fn sum_of(sizes: Seq<u64>) -> int
    decreases sizes.len(),
{
    if sizes.len() == 0 {
        0
    } else {
        sum_of(sizes.drop_last()) + sizes.last()
    }
}

proof fn lemma_sum_not_negative(sizes: Seq<u64>)
    ensures
        sum_of(sizes) >= 0,
    decreases sizes.len(),
{
    if sizes.len() > 0 {
        lemma_sum_not_negative(sizes.drop_last());
    }
}

fn saturating_sum(sizes: &Vec<u64>) -> (total: u64)
    ensures
        total == capped_sum(sum_of(sizes@)),
{
    let mut total: u64 = 0;
    let mut i: usize = 0;
    proof {
        assert(sizes@.take(0).len() == 0);
    }
    while i < sizes.len()
        invariant
            i <= sizes@.len(),
            total == capped_sum(sum_of(sizes@.take(i as int))),
        decreases sizes@.len() - i,
    {
        proof {
            assert(sizes@.take(i + 1).drop_last() =~= sizes@.take(i as int));
            lemma_sum_not_negative(sizes@.take(i as int));
        }
        total = total.saturating_add(sizes[i]);
        i = i + 1;
    }
    proof {
        assert(sizes@.take(sizes@.len() as int) =~= sizes@);
    }
    total
}

fn saturating_product(a: u64, b: u64) -> (product: u64)
    ensures
        product == capped_sum(a * b),
{
    match a.checked_mul(b) {
        Some(product) => product,
        None => u64::MAX,
    }
}

/// Drawables, as far as the counter goes.
pub open spec fn drawables(maximum: usize) -> u32 {
    if maximum <= u32::MAX {
        maximum as u32
    } else {
        u32::MAX
    }
}

impl MetalRendererImpl {
    /// Sums up what the renderer occupies: the drawables by their size, the rest
    /// by what the device reports.
    pub fn resource_stats(&self, sizes: &ReportedSizes) -> (stats: RendererResourceStats)
        ensures
            stats.device_current_allocated_bytes == sizes.device_allocated,
            stats.device_recommended_working_set_bytes == sizes.device_recommended,
            stats.drawable_count == drawables(sizes.maximum_drawables),
            stats.drawable_estimated_bytes == capped_sum(
                self.stats.drawable_width * self.stats.drawable_height * pixel_bytes(
                    self.drawable_pixel_format,
                ) * stats.drawable_count,
            ),
            stats.overlay_atlas_bytes == sizes.overlay_atlas,
            stats.danmaku_atlas_bytes == capped_sum(
                sizes.danmaku_fill_atlas + sizes.danmaku_outline_atlas,
            ),
            stats.danmaku_vertex_buffer_bytes == capped_sum(sum_of(sizes.danmaku_vertex_buffers@)),
            stats.upscaler_bytes == sizes.upscaler,
            stats.renderer_tracked_bytes == capped_sum(
                stats.drawable_estimated_bytes + stats.overlay_atlas_bytes
                    + stats.danmaku_atlas_bytes + stats.danmaku_vertex_buffer_bytes
                    + stats.upscaler_bytes,
            ),
            stats.output_mode_switches == self.stats.output_mode_switches,
    {
        let drawable_count: u32 = if sizes.maximum_drawables <= u32::MAX as usize {
            sizes.maximum_drawables as u32
        } else {
            u32::MAX
        };
        let each: u64 = self.drawable_pixel_format.bytes_per_pixel() as u64;
        let width: u64 = self.stats.drawable_width as u64;
        let height: u64 = self.stats.drawable_height as u64;
        proof {
            assert(0 <= width * height <= 0xffff_ffff * 0xffff_ffff) by (nonlinear_arith)
                requires
                    0 <= width <= 0xffff_ffff,
                    0 <= height <= 0xffff_ffff,
            ;
            lemma_capped_product(width * height, each as int, drawable_count as int);
        }
        let pixels: u64 = saturating_product(width, height);
        let one: u64 = saturating_product(pixels, each);
        let drawable_estimated_bytes: u64 = saturating_product(one, drawable_count as u64);
        let danmaku_atlas_bytes: u64 = sizes.danmaku_fill_atlas.saturating_add(
            sizes.danmaku_outline_atlas,
        );
        let danmaku_vertex_buffer_bytes: u64 = saturating_sum(&sizes.danmaku_vertex_buffers);
        let renderer_tracked_bytes: u64 = drawable_estimated_bytes.saturating_add(
            sizes.overlay_atlas,
        ).saturating_add(danmaku_atlas_bytes).saturating_add(
            danmaku_vertex_buffer_bytes,
        ).saturating_add(sizes.upscaler);
        RendererResourceStats {
            device_current_allocated_bytes: sizes.device_allocated,
            device_recommended_working_set_bytes: sizes.device_recommended,
            drawable_estimated_bytes,
            overlay_atlas_bytes: sizes.overlay_atlas,
            danmaku_atlas_bytes,
            danmaku_vertex_buffer_bytes,
            upscaler_bytes: sizes.upscaler,
            renderer_tracked_bytes,
            drawable_count,
            output_mode_switches: self.stats.output_mode_switches,
        }
    }
}

/// A product that is capped on the way comes to the same as one that is capped
/// at the end, unless a later factor is zero, and then both are zero.
proof fn lemma_capped_product(a: int, b: int, c: int)
    requires
        0 <= a <= u64::MAX,
        0 <= b,
        0 <= c <= u64::MAX,
    ensures
        capped_sum(capped_sum(a * b) * c) == capped_sum(a * b * c),
{
    let ab = a * b;
    assert(ab >= 0) by (nonlinear_arith)
        requires
            ab == a * b,
            a >= 0,
            b >= 0,
    ;
    if ab > u64::MAX {
        if c == 0 {
            assert(ab * c == 0) by (nonlinear_arith)
                requires
                    c == 0,
            ;
            assert(u64::MAX * c == 0);
        } else {
            assert(ab * c >= ab) by (nonlinear_arith)
                requires
                    ab >= 0,
                    c >= 1,
            ;
            assert(u64::MAX * c >= u64::MAX) by (nonlinear_arith)
                requires
                    c >= 1,
            ;
        }
    }
}

} // verus!
