//! The Metal renderer between frames: its surface, its output mode and what it
//! has counted.
use crate::color::{ColorPrimaries, TransferFunction};
use crate::d3d11_artcnn::counted;
use crate::danmaku_buffers::{DanmakuBatch, DanmakuVertexBufferPool};
use crate::error::{backpressure_error, renderer_error, PlayerError};
use crate::metal_planes::METAL_BGRA8_UNORM;
use crate::metal_upscaler::LumaUpscaler;
use crate::modes::{LumaUpscalerBackendStatus, LumaUpscalerMode};
use crate::overlay_cache::OverlayAlphaAtlasState;
use crate::source::SourceColorState;
use crate::text::{decimal, push_decimal};
use crate::texels::MetalDrawablePixelFormat;
use vstd::prelude::*;

verus! {

/// What the surface shows: standard range, or the display's extended range.
#[derive(Debug, Clone, Copy, PartialEq, Eq, Structural)]
pub enum MetalOutputMode {
    Sdr,
    Edr,
}

impl MetalOutputMode {
    pub fn is_edr(self) -> (edr: bool)
        ensures
            edr == (self == MetalOutputMode::Edr),
    {
        matches!(self, MetalOutputMode::Edr)
    }
}

/// The drawable format of an output mode.
pub open spec fn mode_format(mode: MetalOutputMode) -> MetalDrawablePixelFormat {
    match mode {
        MetalOutputMode::Sdr => MetalDrawablePixelFormat::Bgra8Unorm,
        MetalOutputMode::Edr => MetalDrawablePixelFormat::Rgba16Float,
    }
}

pub fn metal_drawable_pixel_format(mode: MetalOutputMode) -> (format: MetalDrawablePixelFormat)
    ensures
        format == mode_format(mode),
{
    match mode {
        MetalOutputMode::Sdr => MetalDrawablePixelFormat::Bgra8Unorm,
        MetalOutputMode::Edr => MetalDrawablePixelFormat::Rgba16Float,
    }
}

/// Where the alpha of the video is, if it has any.
#[derive(Debug, Clone, Copy, PartialEq, Eq, Structural)]
pub enum VideoAlphaMode {
    Opaque,
    PackedAlphaRight,
}

impl VideoAlphaMode {
    pub fn has_alpha(self) -> (alpha: bool)
        ensures
            alpha == (self == VideoAlphaMode::PackedAlphaRight),
    {
        matches!(self, VideoAlphaMode::PackedAlphaRight)
    }

    /// The number of the mode in shaders.
    pub fn code(self) -> (code: u32)
        ensures
            code == match self {
                VideoAlphaMode::Opaque => 0u32,
                VideoAlphaMode::PackedAlphaRight => 1u32,
            },
    {
        match self {
            VideoAlphaMode::Opaque => 0,
            VideoAlphaMode::PackedAlphaRight => 1,
        }
    }

    /// The width of the picture without its alpha half.
    pub fn logical_width(self, width: u32) -> (logical: u32)
        ensures
            logical == match self {
                VideoAlphaMode::Opaque => width as int,
                VideoAlphaMode::PackedAlphaRight => width as int / 2,
            },
    {
        match self {
            VideoAlphaMode::Opaque => width,
            VideoAlphaMode::PackedAlphaRight => width / 2,
        }
    }
}

/// What frames are drawn to.
#[derive(Debug, Clone, Copy, PartialEq, Eq, Structural)]
pub enum MetalSurface {
    Detached,
    Layer,
    /// A texture of the host application, where it has handed one over.
    HostTexture { ready: bool },
}

/// The colour space of the layer.
#[derive(Debug, Clone, Copy, PartialEq, Eq, Structural)]
pub enum LayerColorSpace {
    Unconfigured,
    Srgb,
    DisplayP3Pq,
    Itur2100Pq,
    ExtendedLinearSrgb,
}

impl LayerColorSpace {
    pub fn label(self) -> (label: &'static str)
        ensures
            label@ == match self {
                LayerColorSpace::Unconfigured => "unconfigured"@,
                LayerColorSpace::Srgb => "srgb"@,
                LayerColorSpace::DisplayP3Pq => "display-p3-pq"@,
                LayerColorSpace::Itur2100Pq => "itur-2100-pq"@,
                LayerColorSpace::ExtendedLinearSrgb => "extended-linear-srgb"@,
            },
    {
        match self {
            LayerColorSpace::Unconfigured => "unconfigured",
            LayerColorSpace::Srgb => "srgb",
            LayerColorSpace::DisplayP3Pq => "display-p3-pq",
            LayerColorSpace::Itur2100Pq => "itur-2100-pq",
            LayerColorSpace::ExtendedLinearSrgb => "extended-linear-srgb",
        }
    }
}

/// The extended-range colour space of a source; without a source, or without
/// the perceptual quantizer, the linear one.
pub open spec fn edr_space(source: Option<(ColorPrimaries, TransferFunction)>) -> LayerColorSpace {
    match source {
        Some((ColorPrimaries::DisplayP3, TransferFunction::Pq)) => LayerColorSpace::DisplayP3Pq,
        Some((ColorPrimaries::Bt2020, TransferFunction::Pq)) => LayerColorSpace::Itur2100Pq,
        Some((ColorPrimaries::Unknown, TransferFunction::Pq)) => LayerColorSpace::Itur2100Pq,
        _ => LayerColorSpace::ExtendedLinearSrgb,
    }
}

pub fn edr_layer_color_space(source: Option<(ColorPrimaries, TransferFunction)>) -> (
space: LayerColorSpace)
    ensures
        space == edr_space(source),
{
    match source {
        Some((primaries, TransferFunction::Pq)) => match primaries {
            ColorPrimaries::DisplayP3 => LayerColorSpace::DisplayP3Pq,
            ColorPrimaries::Bt2020 => LayerColorSpace::Itur2100Pq,
            ColorPrimaries::Unknown => LayerColorSpace::Itur2100Pq,
            ColorPrimaries::Bt709 => LayerColorSpace::ExtendedLinearSrgb,
        },
        _ => LayerColorSpace::ExtendedLinearSrgb,
    }
}

/// What the renderer has counted.
#[derive(Debug, Clone, Copy, PartialEq, Eq, Structural)]
pub struct MetalRendererStats {
    pub drawable_width: u32,
    pub drawable_height: u32,
    pub rendered_frames: u64,
    pub edr_rendered_frames: u64,
    pub hdr_source_frames: u64,
    pub sdr_tonemap_frames: u64,
    pub output_mode_switches: u64,
    pub upscaled_frames: u64,
    pub prepared_overlay_frames: u64,
    pub prepared_overlay_subtitle_planes: u64,
    pub danmaku_passes: u64,
    pub danmaku_items: u64,
    pub last_danmaku_vertex_bytes: usize,
    pub last_danmaku_vertex_count: usize,
    /// What the upscaler is doing, filled in where the statistics are handed
    /// out.
    pub upscaler_mode: LumaUpscalerMode,
    pub upscaler_backend: LumaUpscalerBackendStatus,
    pub upscaler_fallbacks: u64,
}

impl MetalRendererStats {
    /// Nothing has been counted yet.
    pub open spec fn fresh() -> Self {
        MetalRendererStats {
            drawable_width: 0,
            drawable_height: 0,
            rendered_frames: 0,
            edr_rendered_frames: 0,
            hdr_source_frames: 0,
            sdr_tonemap_frames: 0,
            output_mode_switches: 0,
            upscaled_frames: 0,
            prepared_overlay_frames: 0,
            prepared_overlay_subtitle_planes: 0,
            danmaku_passes: 0,
            danmaku_items: 0,
            last_danmaku_vertex_bytes: 0,
            last_danmaku_vertex_count: 0,
            upscaler_mode: LumaUpscalerMode::Off,
            upscaler_backend: LumaUpscalerBackendStatus::Off,
            upscaler_fallbacks: 0,
        }
    }
}

impl Default for MetalRendererStats {
    fn default() -> (stats: Self)
        ensures
            stats == MetalRendererStats::fresh(),
    {
        MetalRendererStats {
            drawable_width: 0,
            drawable_height: 0,
            rendered_frames: 0,
            edr_rendered_frames: 0,
            hdr_source_frames: 0,
            sdr_tonemap_frames: 0,
            output_mode_switches: 0,
            upscaled_frames: 0,
            prepared_overlay_frames: 0,
            prepared_overlay_subtitle_planes: 0,
            danmaku_passes: 0,
            danmaku_items: 0,
            last_danmaku_vertex_bytes: 0,
            last_danmaku_vertex_count: 0,
            upscaler_mode: LumaUpscalerMode::Off,
            upscaler_backend: LumaUpscalerBackendStatus::Off,
            upscaler_fallbacks: 0,
        }
    }
}

/// Whether the output mode changes for a frame.
#[derive(Debug, Clone, Copy, PartialEq, Eq, Structural)]
pub enum OutputModeStep {
    Keep,
    /// Commands that were submitted have to finish before the layer changes.
    Switch(MetalOutputMode),
}

/// The state of the renderer between frames.
#[derive(Debug, Clone)]
pub struct MetalRendererImpl {
    pub output_mode: MetalOutputMode,
    pub video_alpha_mode: VideoAlphaMode,
    pub drawable_pixel_format: MetalDrawablePixelFormat,
    pub surface: MetalSurface,
    pub color_space: LayerColorSpace,
    /// The pipelines on the device fit the drawable format.
    pub pipelines_current: bool,
    pub overlay_atlas: OverlayAlphaAtlasState,
    pub danmaku_buffers: DanmakuVertexBufferPool,
    pub upscaler: LumaUpscaler,
    pub stats: MetalRendererStats,
}

impl MetalRendererImpl {
    /// With a surface the drawable format is that of the output mode, host
    /// textures show the standard range, and the parts are in order.
    pub open spec fn wf(self) -> bool {
        &&& self.surface != MetalSurface::Detached ==> self.drawable_pixel_format == mode_format(
            self.output_mode,
        )
        &&& self.surface is HostTexture ==> self.output_mode == MetalOutputMode::Sdr
        &&& self.danmaku_buffers.wf()
        &&& self.upscaler.wf()
    }

    pub fn new(
        initial_mode: MetalOutputMode,
        video_alpha_mode: VideoAlphaMode,
        luma_upscaler: LumaUpscalerMode,
    ) -> (renderer: Self)
        ensures
            renderer.wf(),
            renderer.output_mode == initial_mode,
            renderer.video_alpha_mode == video_alpha_mode,
            renderer.surface == MetalSurface::Detached,
            renderer.color_space == LayerColorSpace::Unconfigured,
            !renderer.pipelines_current,
            renderer.drawable_pixel_format == mode_format(initial_mode),
            renderer.overlay_atlas.cache is None,
            renderer.overlay_atlas.reuses == 0,
            renderer.overlay_atlas.uploads == 0,
            renderer.danmaku_buffers.slots@.len() == 0,
            renderer.upscaler == LumaUpscaler::idle(luma_upscaler),
            renderer.stats == MetalRendererStats::fresh(),
    {
        let mut upscaler = LumaUpscaler::default();
        upscaler.set_mode(luma_upscaler);
        MetalRendererImpl {
            output_mode: initial_mode,
            video_alpha_mode,
            drawable_pixel_format: metal_drawable_pixel_format(initial_mode),
            surface: MetalSurface::Detached,
            color_space: LayerColorSpace::Unconfigured,
            pipelines_current: false,
            overlay_atlas: OverlayAlphaAtlasState::new(),
            danmaku_buffers: DanmakuVertexBufferPool::new(),
            upscaler,
            stats: MetalRendererStats::default(),
        }
    }

    /// What a change of the layer's output gives up: the pipelines, the overlay
    /// atlas and the vertex buffers of the old format.
    pub open spec fn reconfigured(self, before: Self) -> bool {
        &&& self.drawable_pixel_format == mode_format(self.output_mode)
        &&& self.color_space == if self.output_mode == MetalOutputMode::Edr {
            edr_space(None)
        } else {
            LayerColorSpace::Srgb
        }
        &&& !self.pipelines_current
        &&& self.overlay_atlas.cache is None
        &&& self.overlay_atlas.reuses == before.overlay_atlas.reuses
        &&& self.overlay_atlas.uploads == before.overlay_atlas.uploads
        &&& self.danmaku_buffers.slots@.len() == 0
        &&& self.danmaku_buffers.cursor == 0
        &&& self.danmaku_buffers.acquisitions == 0
        &&& self.danmaku_buffers.wf()
        &&& self.upscaler == before.upscaler
        &&& self.video_alpha_mode == before.video_alpha_mode
    }

    /// Sets the layer up for the output mode.
    pub fn configure_layer_output(&mut self)
        requires
            old(self).upscaler.wf(),
        ensures
            final(self).reconfigured(*old(self)),
            final(self).output_mode == old(self).output_mode,
            final(self).surface == old(self).surface,
            final(self).stats == old(self).stats,
    {
        self.drawable_pixel_format = metal_drawable_pixel_format(self.output_mode);
        self.color_space = if self.output_mode.is_edr() {
            edr_layer_color_space(None)
        } else {
            LayerColorSpace::Srgb
        };
        self.pipelines_current = false;
        self.overlay_atlas.cache = None;
        self.danmaku_buffers.clear();
    }

    /// Attaches a layer, unless there is none.
    pub fn attach_raw_layer(&mut self, present: bool) -> (attached: Result<(), PlayerError>)
        requires
            old(self).wf(),
        ensures
            final(self).wf(),
            match attached {
                Ok(()) => {
                    &&& present
                    &&& final(self).surface == MetalSurface::Layer
                    &&& final(self).reconfigured(*old(self))
                    &&& final(self).output_mode == old(self).output_mode
                    &&& final(self).stats == old(self).stats
                },
                Err(error) => {
                    &&& !present
                    &&& error.says("cannot attach null CAMetalLayer"@)
                    &&& *final(self) == *old(self)
                },
            },
    {
        if !present {
            return Err(renderer_error("cannot attach null CAMetalLayer"));
        }
        self.configure_layer_output();
        self.surface = MetalSurface::Layer;
        Ok(())
    }

    /// Draws to textures of the host application from now on. They hold the
    /// standard range only.
    pub fn attach_flutter_texture(&mut self)
        requires
            old(self).wf(),
        ensures
            final(self).wf(),
            final(self).surface == (MetalSurface::HostTexture { ready: false }),
            final(self).output_mode == MetalOutputMode::Sdr,
            final(self).drawable_pixel_format == MetalDrawablePixelFormat::Bgra8Unorm,
            !final(self).pipelines_current,
            final(self).stats == old(self).stats,
            final(self).color_space == old(self).color_space,
            final(self).overlay_atlas == old(self).overlay_atlas,
            final(self).danmaku_buffers == old(self).danmaku_buffers,
            final(self).upscaler == old(self).upscaler,
            final(self).video_alpha_mode == old(self).video_alpha_mode,
    {
        self.surface = MetalSurface::HostTexture { ready: false };
        self.output_mode = MetalOutputMode::Sdr;
        self.drawable_pixel_format = MetalDrawablePixelFormat::Bgra8Unorm;
        self.pipelines_current = false;
    }

    /// Takes in a texture of the host application. `pixel_format` is Metal's
    /// number of its format and `format_name` the name in messages.
    pub fn set_flutter_texture_buffer(
        &mut self,
        present: bool,
        width: u32,
        height: u32,
        pixel_format: usize,
        format_name: &str,
        texture_width: usize,
        texture_height: usize,
    ) -> (result: Result<(), PlayerError>)
        requires
            old(self).wf(),
        ensures
            final(self).wf(),
            match result {
                Ok(()) => {
                    &&& old(self).surface is HostTexture
                    &&& present && width > 0 && height > 0
                    &&& pixel_format == METAL_BGRA8_UNORM
                    &&& texture_width == width && texture_height == height
                    &&& *final(self) == (MetalRendererImpl {
                        surface: MetalSurface::HostTexture { ready: true },
                        stats: MetalRendererStats {
                            drawable_width: width,
                            drawable_height: height,
                            ..old(self).stats
                        },
                        ..*old(self)
                    })
                },
                Err(error) => {
                    &&& *final(self) == *old(self)
                    &&& if !(old(self).surface is HostTexture) {
                        error.says("no Flutter texture surface attached"@)
                    } else if !present || width == 0 || height == 0 {
                        error.says("Flutter Metal texture and dimensions must be non-zero"@)
                    } else if pixel_format != METAL_BGRA8_UNORM {
                        error.says("Flutter MTLTexture must use BGRA8Unorm, got "@ + format_name@)
                    } else {
                        &&& texture_width != width || texture_height != height
                        &&& error.says(
                            "Flutter MTLTexture size "@ + decimal(texture_width as nat) + "x"@
                                + decimal(texture_height as nat) + " does not match "@ + decimal(
                                width as nat,
                            ) + "x"@ + decimal(height as nat),
                        )
                    }
                },
            },
    {
        match self.surface {
            MetalSurface::HostTexture { ready: _ } => {},
            _ => {
                return Err(renderer_error("no Flutter texture surface attached"));
            },
        }
        if !present || width == 0 || height == 0 {
            return Err(renderer_error("Flutter Metal texture and dimensions must be non-zero"));
        }
        if pixel_format != METAL_BGRA8_UNORM {
            let mut text: String = "Flutter MTLTexture must use BGRA8Unorm, got ".to_owned();
            text.append(format_name);
            return Err(PlayerError::Renderer(text));
        }
        if texture_width != width as usize || texture_height != height as usize {
            let mut text: String = "Flutter MTLTexture size ".to_owned();
            push_decimal(&mut text, texture_width as u64);
            text.append("x");
            push_decimal(&mut text, texture_height as u64);
            text.append(" does not match ");
            push_decimal(&mut text, width as u64);
            text.append("x");
            push_decimal(&mut text, height as u64);
            return Err(PlayerError::Renderer(text));
        }
        self.stats.drawable_width = width;
        self.stats.drawable_height = height;
        self.surface = MetalSurface::HostTexture { ready: true };
        Ok(())
    }

    pub fn detach_surface(&mut self)
        requires
            old(self).wf(),
        ensures
            final(self).wf(),
            *final(self) == (MetalRendererImpl { surface: MetalSurface::Detached, ..*old(self) }),
    {
        self.surface = MetalSurface::Detached;
    }

    /// Takes in the size of the surface in pixels. A texture of the host
    /// application has the old size and is given up.
    pub fn resize_surface(&mut self, width: u32, height: u32)
        requires
            old(self).wf(),
        ensures
            final(self).wf(),
            *final(self) == (MetalRendererImpl {
                surface: match old(self).surface {
                    MetalSurface::HostTexture { ready } => MetalSurface::HostTexture {
                        ready: false,
                    },
                    other => other,
                },
                stats: MetalRendererStats {
                    drawable_width: width,
                    drawable_height: height,
                    ..old(self).stats
                },
                ..*old(self)
            }),
    {
        self.stats.drawable_width = width;
        self.stats.drawable_height = height;
        match self.surface {
            MetalSurface::HostTexture { ready: _ } => {
                self.surface = MetalSurface::HostTexture { ready: false };
            },
            _ => {},
        }
    }

    pub fn active_output_mode(&self) -> (mode: MetalOutputMode)
        ensures
            mode == self.output_mode,
    {
        self.output_mode
    }

    /// What has been counted, and what the upscaler is doing.
    pub fn stats(&self) -> (stats: MetalRendererStats)
        ensures
            stats == (MetalRendererStats {
                upscaler_mode: self.upscaler.mode,
                upscaler_backend: self.upscaler.status(),
                upscaler_fallbacks: self.upscaler.auto_matmul_fallbacks,
                ..self.stats
            }),
    {
        let mut stats: MetalRendererStats = self.stats;
        stats.upscaler_mode = self.upscaler.mode;
        stats.upscaler_backend = self.upscaler.active_backend();
        stats.upscaler_fallbacks = self.upscaler.auto_matmul_fallbacks;
        stats
    }

    /// Takes in that the comments of a frame have been planned.
    pub fn danmaku_planned(&mut self, batch: &DanmakuBatch)
        requires
            old(self).wf(),
        ensures
            final(self).wf(),
            *final(self) == (MetalRendererImpl {
                stats: MetalRendererStats {
                    last_danmaku_vertex_bytes: batch.bytes,
                    last_danmaku_vertex_count: batch.instances@.len() as usize,
                    ..old(self).stats
                },
                ..*old(self)
            }),
    {
        self.stats.last_danmaku_vertex_bytes = batch.bytes;
        self.stats.last_danmaku_vertex_count = batch.instances.len();
    }

    pub fn has_surface(&self) -> (present: bool)
        ensures
            present == (self.surface != MetalSurface::Detached),
    {
        !matches!(self.surface, MetalSurface::Detached)
    }

    /// Whether the layer holds code values of the perceptual quantizer.
    pub fn is_hdr10_pq(&self) -> (pq: bool)
        ensures
            pq == (self.output_mode == MetalOutputMode::Edr && (self.color_space
                == LayerColorSpace::Itur2100Pq || self.color_space
                == LayerColorSpace::DisplayP3Pq)),
    {
        self.output_mode.is_edr() && matches!(
            self.color_space,
            LayerColorSpace::Itur2100Pq | LayerColorSpace::DisplayP3Pq
        )
    }

    /// The output mode for a source: standard range on host textures, else what
    /// was negotiated with the display.
    pub open spec fn selected_mode(self, negotiated: MetalOutputMode) -> MetalOutputMode {
        if self.surface is HostTexture {
            MetalOutputMode::Sdr
        } else {
            negotiated
        }
    }

    /// Decides the output mode for a source. `negotiated` is the mode that the
    /// display and the request allow for it.
    pub fn select_output_mode_for_source(
        &mut self,
        source_is_hdr: bool,
        negotiated: MetalOutputMode,
    ) -> (step: OutputModeStep)
        requires
            old(self).wf(),
        ensures
            final(self).wf(),
            step == if old(self).selected_mode(negotiated) == old(self).output_mode {
                OutputModeStep::Keep
            } else {
                OutputModeStep::Switch(old(self).selected_mode(negotiated))
            },
            *final(self) == (MetalRendererImpl {
                stats: MetalRendererStats {
                    hdr_source_frames: if source_is_hdr {
                        counted(old(self).stats.hdr_source_frames)
                    } else {
                        old(self).stats.hdr_source_frames
                    },
                    ..old(self).stats
                },
                ..*old(self)
            }),
    {
        if source_is_hdr {
            self.stats.hdr_source_frames = self.stats.hdr_source_frames.saturating_add(1);
        }
        let selected = match self.surface {
            MetalSurface::HostTexture { ready: _ } => MetalOutputMode::Sdr,
            _ => negotiated,
        };
        if selected == self.output_mode {
            OutputModeStep::Keep
        } else {
            OutputModeStep::Switch(selected)
        }
    }

    /// Switches the output mode, once submitted commands have finished.
    pub fn set_output_mode(&mut self, output_mode: MetalOutputMode)
        requires
            old(self).wf(),
            old(self).surface is HostTexture ==> output_mode == MetalOutputMode::Sdr,
        ensures
            final(self).wf(),
            final(self).output_mode == output_mode,
            final(self).surface == old(self).surface,
            old(self).output_mode == output_mode ==> *final(self) == *old(self),
            old(self).output_mode != output_mode ==> {
                &&& final(self).stats == (MetalRendererStats {
                    output_mode_switches: counted(old(self).stats.output_mode_switches),
                    ..old(self).stats
                })
                &&& old(self).surface == MetalSurface::Layer ==> final(self).reconfigured(
                    *old(self),
                )
                &&& old(self).surface != MetalSurface::Layer ==> *final(self) == (MetalRendererImpl {
                    output_mode,
                    stats: final(self).stats,
                    ..*old(self)
                })
            },
    {
        if self.output_mode == output_mode {
            return ;
        }
        self.output_mode = output_mode;
        self.stats.output_mode_switches = self.stats.output_mode_switches.saturating_add(1);
        match self.surface {
            MetalSurface::Layer => {
                self.configure_layer_output();
            },
            _ => {},
        }
    }

    /// Counts a source of high dynamic range that is shown in the standard
    /// range.
    pub fn count_tone_mapped(&mut self, source_is_hdr: bool)
        requires
            old(self).wf(),
        ensures
            final(self).wf(),
            *final(self) == (MetalRendererImpl {
                stats: MetalRendererStats {
                    sdr_tonemap_frames: if source_is_hdr && old(self).output_mode
                        == MetalOutputMode::Sdr {
                        counted(old(self).stats.sdr_tonemap_frames)
                    } else {
                        old(self).stats.sdr_tonemap_frames
                    },
                    ..old(self).stats
                },
                ..*old(self)
            }),
    {
        if source_is_hdr && !self.output_mode.is_edr() {
            self.stats.sdr_tonemap_frames = self.stats.sdr_tonemap_frames.saturating_add(1);
        }
    }

    /// The colour space that the layer should change to for a source, if it
    /// should.
    pub fn source_color_space(&self, source: &SourceColorState) -> (space: Option<LayerColorSpace>)
        ensures
            space == if self.output_mode == MetalOutputMode::Edr && edr_space(
                Some((source.primaries, source.transfer)),
            ) != self.color_space {
                Some(edr_space(Some((source.primaries, source.transfer))))
            } else {
                None
            },
    {
        if !self.output_mode.is_edr() {
            return None;
        }
        let wanted = edr_layer_color_space(Some((source.primaries, source.transfer)));
        if wanted == self.color_space {
            None
        } else {
            Some(wanted)
        }
    }

    /// Takes in that the layer has changed its colour space.
    pub fn color_space_changed(&mut self, space: LayerColorSpace)
        requires
            old(self).wf(),
        ensures
            final(self).wf(),
            *final(self) == (MetalRendererImpl { color_space: space, ..*old(self) }),
    {
        self.color_space = space;
    }

    /// Takes in that an overlay has been prepared.
    pub fn record_prepared_overlay_frame(&mut self, subtitle_planes: usize)
        requires
            old(self).wf(),
            old(self).stats.prepared_overlay_frames < u64::MAX,
            old(self).stats.prepared_overlay_subtitle_planes + subtitle_planes <= u64::MAX,
        ensures
            final(self).wf(),
            *final(self) == (MetalRendererImpl {
                stats: MetalRendererStats {
                    prepared_overlay_frames: (old(self).stats.prepared_overlay_frames + 1) as u64,
                    prepared_overlay_subtitle_planes: (old(
                        self,
                    ).stats.prepared_overlay_subtitle_planes + subtitle_planes) as u64,
                    ..old(self).stats
                },
                ..*old(self)
            }),
    {
        self.stats.prepared_overlay_frames = self.stats.prepared_overlay_frames + 1;
        self.stats.prepared_overlay_subtitle_planes =
        self.stats.prepared_overlay_subtitle_planes + subtitle_planes as u64;
    }

    /// Takes in whether the surface has something to draw to, and says what it
    /// is: a drawable that has to be presented, or the host's texture.
    pub fn acquire_target(&self, drawable_available: bool) -> (target: Result<
        FrameTarget,
        PlayerError,
    >)
        ensures
            match target {
                Ok(FrameTarget::Drawable) => self.surface == MetalSurface::Layer
                    && drawable_available,
                Ok(FrameTarget::HostTexture) => self.surface == (MetalSurface::HostTexture {
                    ready: true,
                }),
                Err(error) => if self.surface == MetalSurface::Layer {
                    !drawable_available && error.defers("CAMetalLayer nextDrawable returned nil"@)
                } else {
                    &&& self.surface != (MetalSurface::HostTexture { ready: true })
                    &&& error.defers("Flutter texture buffer is not ready"@)
                },
            },
    {
        match self.surface {
            MetalSurface::Layer => if drawable_available {
                Ok(FrameTarget::Drawable)
            } else {
                Err(backpressure_error("CAMetalLayer nextDrawable returned nil"))
            },
            MetalSurface::HostTexture { ready } => if ready {
                Ok(FrameTarget::HostTexture)
            } else {
                Err(backpressure_error("Flutter texture buffer is not ready"))
            },
            MetalSurface::Detached => Err(
                backpressure_error("Flutter texture buffer is not ready"),
            ),
        }
    }
}

/// What a frame is drawn to.
#[derive(Debug, Clone, Copy, PartialEq, Eq, Structural)]
pub enum FrameTarget {
    /// A drawable of the layer, to be presented.
    Drawable,
    /// A texture of the host application, to be finished before returning.
    HostTexture,
}

} // verus!
