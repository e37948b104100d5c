//! The Direct3D 11 renderer: its surface, what it imports, and what it draws
//! over the video.
use crate::danmaku::{shows, DanmakuDraw, DanmakuGlyphInstance, DanmakuLayer};
use crate::danmaku_buffers::{danmaku_atlas_cached, DanmakuAlphaAtlasCache, DanmakuGlyphAtlas};
use crate::error::{renderer_error, PlayerError};
use crate::modes::{LumaUpscalerBackendStatus, LumaUpscalerMode};
use crate::overlay::{
    cursor, drawn_height, drawn_rejected_text, first_rejected, placements, rejected,
    OverlayAlphaAtlasPlacement, OverlayAlphaAtlasPlan, SubtitleAlphaBitmap,
};
use crate::overlay_draw::{
    is_color, is_share, rect_row, viewport_row, D3d11OverlayUniforms,
};
use crate::float::{F32, ONE_BITS};
use crate::text::{decimal, push_decimal};
use vstd::prelude::*;
use vstd::string::StringSliceAdditionalSpecFns;

verus! {

/// Numbers of formats in DXGI.
#[derive(Debug, Clone, Copy, PartialEq, Eq, Structural)]
pub struct DxgiFormats {
    pub nv12: i32,
    pub p010: i32,
    pub r8_unorm: i32,
    pub r16_unorm: i32,
    pub r8g8_unorm: i32,
    pub r16g16_unorm: i32,
}

/// `DXGI_FORMAT` of the `windows` crate: six of its constants, as numbers.
#[verifier::external_body]
fn dxgi_formats() -> (formats: DxgiFormats)
    ensures
        formats == (DxgiFormats {
            nv12: 103,
            p010: 104,
            r8_unorm: 61,
            r16_unorm: 56,
            r8g8_unorm: 49,
            r16g16_unorm: 35,
        }),
{
    DxgiFormats {
        nv12: windows::Win32::Graphics::Dxgi::Common::DXGI_FORMAT_NV12.0,
        p010: windows::Win32::Graphics::Dxgi::Common::DXGI_FORMAT_P010.0,
        r8_unorm: windows::Win32::Graphics::Dxgi::Common::DXGI_FORMAT_R8_UNORM.0,
        r16_unorm: windows::Win32::Graphics::Dxgi::Common::DXGI_FORMAT_R16_UNORM.0,
        r8g8_unorm: windows::Win32::Graphics::Dxgi::Common::DXGI_FORMAT_R8G8_UNORM.0,
        r16g16_unorm: windows::Win32::Graphics::Dxgi::Common::DXGI_FORMAT_R16G16_UNORM.0,
    }
}

/// The formats of decoded video that can be sampled without a copy.
#[derive(Debug, Clone, Copy, PartialEq, Eq, Structural)]
pub enum D3d11VideoTextureFormat {
    Nv12,
    P010,
}

impl D3d11VideoTextureFormat {
    /// The format with a DXGI number, if it is one of these.
    pub open spec fn numbered(format: i32) -> Option<Self> {
        if format == 103 {
            Some(D3d11VideoTextureFormat::Nv12)
        } else if format == 104 {
            Some(D3d11VideoTextureFormat::P010)
        } else {
            None
        }
    }

    pub fn from_dxgi(format: i32) -> (known: Option<Self>)
        ensures
            known == D3d11VideoTextureFormat::numbered(format),
    {
        let formats = dxgi_formats();
        if format == formats.nv12 {
            Some(D3d11VideoTextureFormat::Nv12)
        } else if format == formats.p010 {
            Some(D3d11VideoTextureFormat::P010)
        } else {
            None
        }
    }

    /// The DXGI number of the luma plane's view.
    pub fn luma_srv(self) -> (format: i32)
        ensures
            format == match self {
                D3d11VideoTextureFormat::Nv12 => 61i32,
                D3d11VideoTextureFormat::P010 => 56i32,
            },
    {
        match self {
            D3d11VideoTextureFormat::Nv12 => dxgi_formats().r8_unorm,
            D3d11VideoTextureFormat::P010 => dxgi_formats().r16_unorm,
        }
    }

    /// The DXGI number of the chroma plane's view.
    pub fn chroma_srv(self) -> (format: i32)
        ensures
            format == match self {
                D3d11VideoTextureFormat::Nv12 => 49i32,
                D3d11VideoTextureFormat::P010 => 35i32,
            },
    {
        match self {
            D3d11VideoTextureFormat::Nv12 => dxgi_formats().r8g8_unorm,
            D3d11VideoTextureFormat::P010 => dxgi_formats().r16g16_unorm,
        }
    }
}

/// What the renderer has counted.
#[derive(Debug, Clone, Copy, PartialEq, Eq, Structural)]
pub struct D3d11RendererStats {
    pub surface_width: u32,
    pub surface_height: u32,
    pub rendered_frames: u64,
    pub hardware_video_frames: u64,
    pub zero_copy_video_frames: u64,
    pub cpu_video_frame_fallbacks: u64,
    pub import_failures: u64,
    pub prepared_overlay_frames: u64,
    pub prepared_overlay_subtitle_planes: u64,
    pub overlay_alpha_atlas_uploads: u64,
    pub overlay_alpha_atlas_reuses: u64,
    pub danmaku_passes: u64,
    pub danmaku_items: u64,
    pub attached: bool,
}

impl D3d11RendererStats {
    /// Nothing has been counted.
    pub open spec fn fresh() -> Self {
        D3d11RendererStats {
            surface_width: 0,
            surface_height: 0,
            rendered_frames: 0,
            hardware_video_frames: 0,
            zero_copy_video_frames: 0,
            cpu_video_frame_fallbacks: 0,
            import_failures: 0,
            prepared_overlay_frames: 0,
            prepared_overlay_subtitle_planes: 0,
            overlay_alpha_atlas_uploads: 0,
            overlay_alpha_atlas_reuses: 0,
            danmaku_passes: 0,
            danmaku_items: 0,
            attached: false,
        }
    }
}

impl Default for D3d11RendererStats {
    fn default() -> (stats: Self)
        ensures
            stats == D3d11RendererStats::fresh(),
    {
        D3d11RendererStats {
            surface_width: 0,
            surface_height: 0,
            rendered_frames: 0,
            hardware_video_frames: 0,
            zero_copy_video_frames: 0,
            cpu_video_frame_fallbacks: 0,
            import_failures: 0,
            prepared_overlay_frames: 0,
            prepared_overlay_subtitle_planes: 0,
            overlay_alpha_atlas_uploads: 0,
            overlay_alpha_atlas_reuses: 0,
            danmaku_passes: 0,
            danmaku_items: 0,
            attached: false,
        }
    }
}

/// What the renderer reports to the player.
#[derive(Debug, Clone, Copy, PartialEq, Eq, Structural)]
pub struct RendererRuntimeStats {
    pub surface_width: u32,
    pub surface_height: u32,
    pub rendered_frames: u64,
    pub attached: bool,
    pub prepared_overlay_frames: u64,
    pub prepared_overlay_subtitle_planes: u64,
    pub danmaku_passes: u64,
    pub danmaku_draw_items: u64,
    pub overlay_alpha_atlas_uploads: u64,
    pub overlay_alpha_atlas_reuses: u64,
    pub software_video_frames: u64,
    pub hardware_video_frames: u64,
    pub zero_copy_video_frames: u64,
    pub cpu_video_frame_fallbacks: u64,
    pub upscaler_mode: LumaUpscalerMode,
    pub upscaler_backend: LumaUpscalerBackendStatus,
}

/// The window that frames are shown in.
#[derive(Debug, Clone, Copy, PartialEq, Eq, Structural)]
pub struct D3d11Surface {
    pub width: u32,
    pub height: u32,
    /// The swap chain and its render target are there.
    pub targets_ready: bool,
}

/// What kind of surface the host hands over.
#[derive(Debug, Clone, Copy, PartialEq, Eq, Structural)]
pub enum HostSurface {
    /// A window, by its handle.
    Window { handle: usize },
    /// A surface of another windowing system.
    OtherWindow,
    /// Something that is no window.
    NotAWindow,
}

/// The state of the renderer.
#[derive(Debug, Clone, Copy, PartialEq, Eq, Structural)]
pub struct D3d11Renderer {
    pub has_device: bool,
    pub surface: Option<D3d11Surface>,
    pub has_video: bool,
    pub danmaku_atlas: Option<DanmakuAlphaAtlasCache>,
    pub upscaler_mode: LumaUpscalerMode,
    pub stats: D3d11RendererStats,
}

/// At least one.
pub open spec fn at_least_1(n: u32) -> u32 {
    if n < 1 {
        1
    } else {
        n
    }
}

fn least_1(n: u32) -> (m: u32)
    ensures
        m == at_least_1(n),
{
    if n < 1 {
        1
    } else {
        n
    }
}

/// What is done with a decoded frame.
#[derive(Debug, Clone, Copy, PartialEq, Eq, Structural)]
pub enum D3d11UploadStep {
    /// Its texture is imported.
    Import,
}

impl D3d11Renderer {
    pub fn new() -> (renderer: Self)
        ensures
            renderer == (D3d11Renderer {
                has_device: false,
                surface: None,
                has_video: false,
                danmaku_atlas: None,
                upscaler_mode: LumaUpscalerMode::Off,
                stats: D3d11RendererStats::fresh(),
            }),
    {
        D3d11Renderer {
            has_device: false,
            surface: None,
            has_video: false,
            danmaku_atlas: None,
            upscaler_mode: LumaUpscalerMode::Off,
            stats: D3d11RendererStats::default(),
        }
    }

    pub fn stats(&self) -> (stats: D3d11RendererStats)
        ensures
            stats == self.stats,
    {
        self.stats
    }

    /// Takes in a surface of the host. Its targets are still to be made.
    /// `kind_name` names the kind of window in messages.
    pub fn attach_surface(
        &mut self,
        surface: HostSurface,
        kind_name: &str,
        width: u32,
        height: u32,
    ) -> (attached: Result<(), PlayerError>)
        ensures
            match surface {
                HostSurface::Window { handle } => if handle != 0 {
                    &&& attached is Ok
                    &&& *final(self) == (D3d11Renderer {
                        surface: Some(
                            D3d11Surface {
                                width: at_least_1(width),
                                height: at_least_1(height),
                                targets_ready: false,
                            },
                        ),
                        stats: D3d11RendererStats { attached: true, ..old(self).stats },
                        ..*old(self)
                    })
                } else {
                    &&& attached matches Err(error) && error.says(
                        "d3d11: Windows HWND surface handle is null"@,
                    )
                    &&& *final(self) == *old(self)
                },
                HostSurface::OtherWindow => {
                    &&& attached matches Err(error) && error.says(
                        "d3d11: surface kind "@ + kind_name@ + " is not supported"@,
                    )
                    &&& *final(self) == *old(self)
                },
                HostSurface::NotAWindow => {
                    &&& attached matches Err(error) && error.says(
                        "d3d11: only Windows HWND surfaces are supported"@,
                    )
                    &&& *final(self) == *old(self)
                },
            },
    {
        let handle: usize = match surface {
            HostSurface::NotAWindow => {
                return Err(renderer_error("d3d11: only Windows HWND surfaces are supported"));
            },
            HostSurface::OtherWindow => {
                let mut text: String = "d3d11: surface kind ".to_owned();
                text.append(kind_name);
                text.append(" is not supported");
                return Err(PlayerError::Renderer(text));
            },
            HostSurface::Window { handle } => handle,
        };
        if handle == 0 {
            return Err(renderer_error("d3d11: Windows HWND surface handle is null"));
        }
        self.surface = Some(
            D3d11Surface { width: least_1(width), height: least_1(height), targets_ready: false },
        );
        self.stats.attached = true;
        Ok(())
    }

    pub fn detach_surface(&mut self)
        ensures
            *final(self) == (D3d11Renderer {
                surface: None,
                has_video: false,
                danmaku_atlas: None,
                stats: D3d11RendererStats {
                    attached: false,
                    surface_width: 0,
                    surface_height: 0,
                    ..old(self).stats
                },
                ..*old(self)
            }),
    {
        self.surface = None;
        self.has_video = false;
        self.danmaku_atlas = None;
        self.stats.attached = false;
        self.stats.surface_width = 0;
        self.stats.surface_height = 0;
    }

    /// Takes in a new size of the surface. Its targets are still to be made
    /// anew.
    pub fn resize_surface(&mut self, width: u32, height: u32) -> (resized: Result<(), PlayerError>)
        ensures
            match old(self).surface {
                Some(surface) => {
                    &&& resized is Ok
                    &&& *final(self) == (D3d11Renderer {
                        surface: Some(
                            D3d11Surface {
                                width: at_least_1(width),
                                height: at_least_1(height),
                                targets_ready: surface.targets_ready,
                            },
                        ),
                        ..*old(self)
                    })
                },
                None => {
                    &&& resized matches Err(error) && error.says(
                        "d3d11: no HWND surface attached"@,
                    )
                    &&& *final(self) == *old(self)
                },
            },
    {
        match self.surface {
            Some(surface) => {
                self.surface = Some(
                    D3d11Surface {
                        width: least_1(width),
                        height: least_1(height),
                        targets_ready: surface.targets_ready,
                    },
                );
                Ok(())
            },
            None => Err(renderer_error("d3d11: no HWND surface attached")),
        }
    }

    /// Whether the targets of the surface are to be made, which takes a device
    /// and a surface.
    pub fn can_make_targets(&self) -> (can: bool)
        ensures
            can == (self.has_device && self.surface is Some),
    {
        self.has_device && self.surface.is_some()
    }

    /// Takes in that the old targets of the surface are gone.
    pub fn targets_dropped(&mut self)
        ensures
            *final(self) == (D3d11Renderer {
                surface: match old(self).surface {
                    Some(surface) => Some(D3d11Surface { targets_ready: false, ..surface }),
                    None => None,
                },
                ..*old(self)
            }),
    {
        if let Some(surface) = self.surface {
            self.surface = Some(
                D3d11Surface {
                    width: surface.width,
                    height: surface.height,
                    targets_ready: false,
                },
            );
        }
    }

    /// Takes in that the targets of the surface have been made in this size.
    pub fn targets_made(&mut self, pixel_width: u32, pixel_height: u32)
        ensures
            *final(self) == match old(self).surface {
                Some(surface) => D3d11Renderer {
                    surface: Some(D3d11Surface { targets_ready: true, ..surface }),
                    stats: D3d11RendererStats {
                        surface_width: pixel_width,
                        surface_height: pixel_height,
                        ..old(self).stats
                    },
                    ..*old(self)
                },
                None => *old(self),
            },
    {
        if let Some(surface) = self.surface {
            self.surface = Some(
                D3d11Surface { width: surface.width, height: surface.height, targets_ready: true },
            );
            self.stats.surface_width = pixel_width;
            self.stats.surface_height = pixel_height;
        }
    }

    /// Takes in a device. What belonged to another device is gone.
    pub fn device_attached(&mut self, replaces_other: bool)
        ensures
            *final(self) == (D3d11Renderer {
                has_device: true,
                has_video: old(self).has_video && !replaces_other,
                danmaku_atlas: if replaces_other {
                    None
                } else {
                    old(self).danmaku_atlas
                },
                ..*old(self)
            }),
    {
        if replaces_other {
            self.has_video = false;
            self.danmaku_atlas = None;
        }
        self.has_device = true;
    }

    /// Checks that there is a surface to draw to, and says whether its targets
    /// have to be made first.
    pub fn ensure_surface_ready(&self) -> (make_targets: Result<bool, PlayerError>)
        ensures
            match self.surface {
                Some(surface) => make_targets == Ok::<bool, PlayerError>(!surface.targets_ready),
                None => make_targets matches Err(error) && error.says(
                    "d3d11: no HWND surface attached"@,
                ),
            },
    {
        match self.surface {
            Some(surface) => Ok(!surface.targets_ready),
            None => Err(renderer_error("d3d11: no HWND surface attached")),
        }
    }

    /// Decides what is done with a decoded frame. Only frames in textures of
    /// this device's own kind are shown; others are counted and refused.
    pub fn upload_player_frame(&mut self, has_texture: bool, has_hw_frames_context: bool) -> (
    step: Result<D3d11UploadStep, PlayerError>)
        requires
            old(self).stats.hardware_video_frames < u64::MAX,
            old(self).stats.cpu_video_frame_fallbacks < u64::MAX,
        ensures
            has_texture ==> step == Ok::<D3d11UploadStep, PlayerError>(D3d11UploadStep::Import)
                && *final(self) == *old(self),
            !has_texture && has_hw_frames_context ==> {
                &&& step matches Err(error) && error.says(
                    "d3d11: hardware frame is not importable as D3D11VA"@,
                )
                &&& *final(self) == (D3d11Renderer {
                    stats: D3d11RendererStats {
                        hardware_video_frames: (old(self).stats.hardware_video_frames + 1) as u64,
                        ..old(self).stats
                    },
                    ..*old(self)
                })
            },
            !has_texture && !has_hw_frames_context ==> {
                &&& step matches Err(error) && error.says(
                    "d3d11: software frames require WgpuFallback or a CPU upload path"@,
                )
                &&& *final(self) == (D3d11Renderer {
                    stats: D3d11RendererStats {
                        cpu_video_frame_fallbacks: (old(self).stats.cpu_video_frame_fallbacks
                            + 1) as u64,
                        ..old(self).stats
                    },
                    ..*old(self)
                })
            },
    {
        if has_texture {
            return Ok(D3d11UploadStep::Import);
        }
        if has_hw_frames_context {
            self.stats.hardware_video_frames = self.stats.hardware_video_frames + 1;
            return Err(renderer_error("d3d11: hardware frame is not importable as D3D11VA"));
        }
        self.stats.cpu_video_frame_fallbacks = self.stats.cpu_video_frame_fallbacks + 1;
        Err(renderer_error("d3d11: software frames require WgpuFallback or a CPU upload path"))
    }

    /// Takes in that a frame's texture has been imported.
    pub fn video_imported(&mut self)
        requires
            old(self).stats.hardware_video_frames < u64::MAX,
            old(self).stats.zero_copy_video_frames < u64::MAX,
        ensures
            *final(self) == (D3d11Renderer {
                has_video: true,
                stats: D3d11RendererStats {
                    hardware_video_frames: (old(self).stats.hardware_video_frames + 1) as u64,
                    zero_copy_video_frames: (old(self).stats.zero_copy_video_frames + 1) as u64,
                    ..old(self).stats
                },
                ..*old(self)
            }),
    {
        self.has_video = true;
        self.stats.hardware_video_frames = self.stats.hardware_video_frames + 1;
        self.stats.zero_copy_video_frames = self.stats.zero_copy_video_frames + 1;
    }

    /// Starts a frame: nothing is shown without a video, and a surface has to be
    /// there. Says whether its targets are still to be made.
    pub fn begin_video(&self) -> (begun: Result<Option<bool>, PlayerError>)
        ensures
            match begun {
                Ok(None) => !self.has_video,
                Ok(Some(make_targets)) => {
                    &&& self.has_video
                    &&& self.surface matches Some(surface) && make_targets
                        == !surface.targets_ready
                },
                Err(error) => {
                    &&& self.has_video
                    &&& self.surface is None
                    &&& error.says("d3d11: no HWND surface attached"@)
                },
            },
    {
        if !self.has_video {
            return Ok(None);
        }
        match self.ensure_surface_ready() {
            Ok(make_targets) => Ok(Some(make_targets)),
            Err(error) => Err(error),
        }
    }

    /// Takes in that an overlay of this many planes and masks is being drawn.
    pub fn overlay_prepared(&mut self, planes: usize, masks: usize)
        requires
            old(self).stats.prepared_overlay_frames < u64::MAX,
            old(self).stats.prepared_overlay_subtitle_planes + planes + masks <= u64::MAX,
        ensures
            *final(self) == (D3d11Renderer {
                stats: D3d11RendererStats {
                    prepared_overlay_frames: (old(self).stats.prepared_overlay_frames + 1) as u64,
                    prepared_overlay_subtitle_planes: (old(
                        self,
                    ).stats.prepared_overlay_subtitle_planes + planes + masks) as u64,
                    ..old(self).stats
                },
                ..*old(self)
            }),
    {
        self.stats.prepared_overlay_frames = self.stats.prepared_overlay_frames + 1;
        self.stats.prepared_overlay_subtitle_planes =
        self.stats.prepared_overlay_subtitle_planes + planes as u64 + masks as u64;
    }

    /// Takes in that an atlas of masks has been uploaded.
    pub fn overlay_atlas_uploaded(&mut self)
        requires
            old(self).stats.overlay_alpha_atlas_uploads < u64::MAX,
        ensures
            *final(self) == (D3d11Renderer {
                stats: D3d11RendererStats {
                    overlay_alpha_atlas_uploads: (old(self).stats.overlay_alpha_atlas_uploads
                        + 1) as u64,
                    ..old(self).stats
                },
                ..*old(self)
            }),
    {
        self.stats.overlay_alpha_atlas_uploads = self.stats.overlay_alpha_atlas_uploads + 1;
    }

    /// Takes in that a frame has been shown, with this many comment quads.
    pub fn frame_presented(&mut self, danmaku_draws: usize)
        requires
            old(self).stats.rendered_frames < u64::MAX,
            old(self).stats.danmaku_passes < u64::MAX,
            old(self).stats.danmaku_items + danmaku_draws <= u64::MAX,
        ensures
            *final(self) == (D3d11Renderer {
                stats: D3d11RendererStats {
                    rendered_frames: (old(self).stats.rendered_frames + 1) as u64,
                    danmaku_passes: if danmaku_draws > 0 {
                        (old(self).stats.danmaku_passes + 1) as u64
                    } else {
                        old(self).stats.danmaku_passes
                    },
                    danmaku_items: (old(self).stats.danmaku_items + danmaku_draws) as u64,
                    ..old(self).stats
                },
                ..*old(self)
            }),
    {
        self.stats.rendered_frames = self.stats.rendered_frames + 1;
        if danmaku_draws > 0 {
            self.stats.danmaku_passes = self.stats.danmaku_passes + 1;
            self.stats.danmaku_items = self.stats.danmaku_items + danmaku_draws as u64;
        }
    }

    pub fn set_luma_upscaler(&mut self, mode: LumaUpscalerMode)
        ensures
            *final(self) == (D3d11Renderer { upscaler_mode: mode, ..*old(self) }),
    {
        self.upscaler_mode = mode;
    }

    /// What is reported to the player. Frames are never uploaded from memory,
    /// and an upscaler that is selected does not run.
    pub fn runtime_stats(&self) -> (report: RendererRuntimeStats)
        ensures
            report == (RendererRuntimeStats {
                surface_width: self.stats.surface_width,
                surface_height: self.stats.surface_height,
                rendered_frames: self.stats.rendered_frames,
                attached: self.stats.attached,
                prepared_overlay_frames: self.stats.prepared_overlay_frames,
                prepared_overlay_subtitle_planes: self.stats.prepared_overlay_subtitle_planes,
                danmaku_passes: self.stats.danmaku_passes,
                danmaku_draw_items: self.stats.danmaku_items,
                overlay_alpha_atlas_uploads: self.stats.overlay_alpha_atlas_uploads,
                overlay_alpha_atlas_reuses: self.stats.overlay_alpha_atlas_reuses,
                software_video_frames: 0,
                hardware_video_frames: self.stats.hardware_video_frames,
                zero_copy_video_frames: self.stats.zero_copy_video_frames,
                cpu_video_frame_fallbacks: self.stats.cpu_video_frame_fallbacks,
                upscaler_mode: self.upscaler_mode,
                upscaler_backend: if self.upscaler_mode == LumaUpscalerMode::Off {
                    LumaUpscalerBackendStatus::Off
                } else {
                    LumaUpscalerBackendStatus::Inactive
                },
            }),
    {
        RendererRuntimeStats {
            surface_width: self.stats.surface_width,
            surface_height: self.stats.surface_height,
            rendered_frames: self.stats.rendered_frames,
            attached: self.stats.attached,
            prepared_overlay_frames: self.stats.prepared_overlay_frames,
            prepared_overlay_subtitle_planes: self.stats.prepared_overlay_subtitle_planes,
            danmaku_passes: self.stats.danmaku_passes,
            danmaku_draw_items: self.stats.danmaku_items,
            overlay_alpha_atlas_uploads: self.stats.overlay_alpha_atlas_uploads,
            overlay_alpha_atlas_reuses: self.stats.overlay_alpha_atlas_reuses,
            software_video_frames: 0,
            hardware_video_frames: self.stats.hardware_video_frames,
            zero_copy_video_frames: self.stats.zero_copy_video_frames,
            cpu_video_frame_fallbacks: self.stats.cpu_video_frame_fallbacks,
            upscaler_mode: self.upscaler_mode,
            upscaler_backend: if self.upscaler_mode.is_enabled() {
                LumaUpscalerBackendStatus::Inactive
            } else {
                LumaUpscalerBackendStatus::Off
            },
        }
    }

    /// Whether the glyph atlas on the device is this one; counted as a reuse.
    pub fn reuse_danmaku_atlas(&mut self, atlas: &DanmakuGlyphAtlas) -> (reused: bool)
        requires
            old(self).stats.overlay_alpha_atlas_reuses < u64::MAX,
        ensures
            reused == (old(self).danmaku_atlas is Some && old(
                self,
            ).danmaku_atlas.unwrap().current(*atlas)),
            *final(self) == (D3d11Renderer {
                stats: D3d11RendererStats {
                    overlay_alpha_atlas_reuses: if reused {
                        (old(self).stats.overlay_alpha_atlas_reuses + 1) as u64
                    } else {
                        old(self).stats.overlay_alpha_atlas_reuses
                    },
                    ..old(self).stats
                },
                ..*old(self)
            }),
    {
        if let Some(cache) = self.danmaku_atlas {
            if cache.can_reuse_for(atlas) {
                self.stats.overlay_alpha_atlas_reuses = self.stats.overlay_alpha_atlas_reuses + 1;
                return true;
            }
        }
        false
    }

    /// Takes in that a glyph atlas has been uploaded.
    pub fn danmaku_atlas_uploaded(&mut self, atlas: &DanmakuGlyphAtlas)
        requires
            old(self).stats.overlay_alpha_atlas_uploads < u64::MAX,
        ensures
            final(self).danmaku_atlas is Some,
            final(self).danmaku_atlas.unwrap().current(*atlas),
            *final(self) == (D3d11Renderer {
                danmaku_atlas: final(self).danmaku_atlas,
                stats: D3d11RendererStats {
                    overlay_alpha_atlas_uploads: (old(self).stats.overlay_alpha_atlas_uploads
                        + 1) as u64,
                    ..old(self).stats
                },
                ..*old(self)
            }),
    {
        self.stats.overlay_alpha_atlas_uploads = self.stats.overlay_alpha_atlas_uploads + 1;
        self.danmaku_atlas = Some(danmaku_atlas_cached(atlas));
    }
}

/// Checks a decoder's texture before its planes are viewed. `format_name` names
/// the format in messages.
pub fn check_import(format: i32, format_name: &str, array_index: u32, array_size: u32) -> (
checked: Result<D3d11VideoTextureFormat, PlayerError>)
    ensures
        match checked {
            Ok(known) => {
                &&& D3d11VideoTextureFormat::numbered(format) == Some(known)
                &&& array_index < array_size
            },
            Err(error) => if D3d11VideoTextureFormat::numbered(format) is None {
                error.says("d3d11: unsupported D3D11VA texture format "@ + format_name@)
            } else {
                &&& array_index >= array_size
                &&& error.says(
                    "d3d11: D3D11VA array index "@ + decimal(array_index as nat)
                        + " out of bounds for "@ + decimal(array_size as nat) + " slices"@,
                )
            },
        },
{
    match D3d11VideoTextureFormat::from_dxgi(format) {
        None => {
            let mut text: String = "d3d11: unsupported D3D11VA texture format ".to_owned();
            text.append(format_name);
            Err(PlayerError::Renderer(text))
        },
        Some(known) => {
            if array_index >= array_size {
                let mut text: String = "d3d11: D3D11VA array index ".to_owned();
                push_decimal(&mut text, array_index as u64);
                text.append(" out of bounds for ");
                push_decimal(&mut text, array_size as u64);
                text.append(" slices");
                return Err(PlayerError::Renderer(text));
            }
            Ok(known)
        },
    }
}

/// Checks the size of an overlay texture.
pub fn check_overlay_texture(width: u32, height: u32, bytes_per_row: u32) -> (checked: Result<
    (),
    PlayerError,
>)
    ensures
        match checked {
            Ok(()) => width > 0 && height > 0 && bytes_per_row > 0,
            Err(error) => (width == 0 || height == 0 || bytes_per_row == 0) && error.says(
                "d3d11: overlay texture dimensions must be non-zero"@,
            ),
        },
{
    if width == 0 || height == 0 || bytes_per_row == 0 {
        return Err(renderer_error("d3d11: overlay texture dimensions must be non-zero"));
    }
    Ok(())
}

/// The text with a zero byte at its end.
pub fn nul(value: &str) -> (bytes: Vec<u8>)
    ensures
        bytes@ == value.spec_bytes().push(0),
{
    let mut bytes: Vec<u8> = Vec::new();
    let text: &[u8] = value.as_bytes();
    let mut i: usize = 0;
    while i < text.len()
        invariant
            i <= text@.len(),
            bytes@ == text@.take(i as int),
        decreases text@.len() - i,
    {
        bytes.push(text[i]);
        proof {
            assert(bytes@ =~= text@.take(i + 1));
        }
        i = i + 1;
    }
    proof {
        assert(text@.take(text@.len() as int) =~= text@);
    }
    bytes.push(0);
    bytes
}

/// A plane of colours over the video.
#[derive(Debug, Clone, PartialEq, Eq)]
pub struct OverlayPlane {
    pub x: i32,
    pub y: i32,
    pub width: u32,
    pub height: u32,
    pub rgba: Vec<u8>,
}

impl OverlayPlane {
    /// Bytes of the plane.
    pub open spec fn needed(self) -> int {
        self.width * self.height * 4
    }

    /// The plane has at least one pixel.
    pub open spec fn drawn(self) -> bool {
        self.width > 0 && self.height > 0
    }

    /// The plane is drawn but does not have its bytes.
    pub open spec fn rejected(self) -> bool {
        self.drawn() && self.rgba@.len() != self.needed()
    }

    /// The message for a rejected plane.
    pub open spec fn fault(self) -> Seq<char> {
        "d3d11: overlay subtitle plane has "@ + decimal(self.rgba@.len()) + " bytes, expected "@
            + decimal(self.needed() as nat) + " for "@ + decimal(self.width as nat) + "x"@ + decimal(
            self.height as nat,
        ) + " RGBA"@
    }
}

/// Where a quad takes its pixels from.
#[derive(Debug, Clone, Copy, PartialEq, Eq, Structural)]
pub enum QuadSource {
    Plane(usize),
    Atlas,
}

/// One quad over the video.
#[derive(Debug, Clone, Copy, PartialEq, Eq)]
pub struct OverlayQuad {
    pub source: QuadSource,
    pub uniforms: D3d11OverlayUniforms,
}

/// What is drawn over the video.
#[derive(Debug, Clone, PartialEq, Eq)]
pub struct OverlayPlan {
    /// The atlas to upload, where any mask is drawn.
    pub atlas: Option<OverlayAlphaAtlasPlan>,
    pub quads: Vec<OverlayQuad>,
}

/// The planes that are drawn, in order.
pub open spec fn drawn_planes(planes: Seq<OverlayPlane>) -> Seq<int>
    decreases planes.len(),
{
    if planes.len() == 0 {
        seq![]
    } else if planes.last().drawn() {
        drawn_planes(planes.drop_last()).push(planes.len() - 1)
    } else {
        drawn_planes(planes.drop_last())
    }
}

/// `k` is the first rejected plane.
pub open spec fn first_rejected_plane(planes: Seq<OverlayPlane>, k: int) -> bool {
    &&& 0 <= k < planes.len()
    &&& planes[k].rejected()
    &&& forall|j: int| 0 <= j < k ==> !(#[trigger] planes[j]).rejected()
}

/// The quad shows a whole plane.
pub open spec fn shows_plane(
    quad: OverlayQuad,
    plane: OverlayPlane,
    index: int,
    viewport_w: u32,
    viewport_h: u32,
) -> bool {
    &&& quad.source == QuadSource::Plane(index as usize)
    &&& quad.uniforms.rect@ == rect_row(plane.x, plane.y, plane.width, plane.height)
    &&& quad.uniforms.tex_rect@ == seq![
        F32 { bits: 0 },
        F32 { bits: 0 },
        F32 { bits: ONE_BITS },
        F32 { bits: ONE_BITS },
    ]
    &&& quad.uniforms.viewport@ == viewport_row(viewport_w, viewport_h)
    &&& quad.uniforms.overlay_mode == 0
    &&& quad.uniforms.reserved0 == 0
    &&& forall|k: int|
        0 <= k < 4 ==> #[trigger] quad.uniforms.color@[k] == (F32 { bits: ONE_BITS })
}

/// The quad shows a mask of the atlas.
pub open spec fn shows_mask(
    quad: OverlayQuad,
    bitmap: SubtitleAlphaBitmap,
    placement: OverlayAlphaAtlasPlacement,
    atlas: OverlayAlphaAtlasPlan,
    viewport_w: u32,
    viewport_h: u32,
) -> bool {
    &&& quad.source == QuadSource::Atlas
    &&& quad.uniforms.rect@ == rect_row(
        bitmap.placement.x,
        bitmap.placement.y,
        bitmap.placement.width,
        bitmap.placement.height,
    )
    &&& is_share(
        placement.x as u32 as int,
        atlas.width as u32 as int,
        quad.uniforms.tex_rect@[0],
    )
    &&& quad.uniforms.tex_rect@[1] == (F32 { bits: 0 })
    &&& is_share(bitmap.w(), atlas.width as u32 as int, quad.uniforms.tex_rect@[2])
    &&& is_share(bitmap.h(), atlas.height as u32 as int, quad.uniforms.tex_rect@[3])
    &&& quad.uniforms.viewport@ == viewport_row(viewport_w, viewport_h)
    &&& quad.uniforms.overlay_mode == 1
    &&& quad.uniforms.reserved0 == 0
    &&& is_color(bitmap.color_rgba, quad.uniforms.color@)
}

impl OverlayPlan {
    /// The plan draws exactly these planes, then these masks.
    pub open spec fn draws(
        self,
        planes: Seq<OverlayPlane>,
        bitmaps: Seq<SubtitleAlphaBitmap>,
        viewport_w: u32,
        viewport_h: u32,
    ) -> bool {
        let n = drawn_planes(planes).len() as int;
        &&& forall|i: int|
            0 <= i < n ==> shows_plane(
                #[trigger] self.quads@[i],
                planes[drawn_planes(planes)[i]],
                drawn_planes(planes)[i],
                viewport_w,
                viewport_h,
            )
        &&& match self.atlas {
            None => cursor(bitmaps) == 0 && self.quads@.len() == n,
            Some(atlas) => {
                &&& cursor(bitmaps) > 0
                &&& atlas.holds_drawn(bitmaps)
                &&& self.quads@.len() == n + placements(bitmaps).len()
                &&& forall|j: int|
                    0 <= j < placements(bitmaps).len() ==> shows_mask(
                        #[trigger] self.quads@[n + j],
                        bitmaps[placements(bitmaps)[j].bitmap_index as int],
                        placements(bitmaps)[j],
                        atlas,
                        viewport_w,
                        viewport_h,
                    )
            },
        }
    }
}

fn plane_error(plane: &OverlayPlane) -> (error: PlayerError)
    requires
        plane.needed() <= usize::MAX,
    ensures
        error.says(plane.fault()),
{
    let mut text: String = "d3d11: overlay subtitle plane has ".to_owned();
    push_decimal(&mut text, plane.rgba.len() as u64);
    text.append(" bytes, expected ");
    push_decimal(&mut text, plane_bytes(plane) as u64);
    text.append(" for ");
    push_decimal(&mut text, plane.width as u64);
    text.append("x");
    push_decimal(&mut text, plane.height as u64);
    text.append(" RGBA");
    PlayerError::Renderer(text)
}

fn plane_bytes(plane: &OverlayPlane) -> (bytes: usize)
    requires
        plane.needed() <= usize::MAX,
    ensures
        bytes == plane.needed(),
{
    proof {
        assert(0 <= plane.width * plane.height) by (nonlinear_arith)
            requires
                plane.width >= 0,
                plane.height >= 0,
        ;
    }
    plane.width as usize * plane.height as usize * 4
}

/// The quads show the planes with these indices, in order.
spec fn planes_shown(
    quads: Seq<OverlayQuad>,
    planes: Seq<OverlayPlane>,
    indices: Seq<int>,
    viewport_w: u32,
    viewport_h: u32,
) -> bool {
    forall|j: int|
        0 <= j < quads.len() ==> shows_plane(
            #[trigger] quads[j],
            planes[indices[j]],
            indices[j],
            viewport_w,
            viewport_h,
        )
}

fn push_planes(
    quads: &mut Vec<OverlayQuad>,
    planes: &[OverlayPlane],
    viewport_w: u32,
    viewport_h: u32,
) -> (pushed: Result<(), PlayerError>)
    requires
        old(quads)@.len() == 0,
        forall|k: int| 0 <= k < planes@.len() ==> (#[trigger] planes@[k]).needed() <= usize::MAX,
    ensures
        match pushed {
            Ok(()) => {
                &&& forall|k: int| 0 <= k < planes@.len() ==> !(#[trigger] planes@[k]).rejected()
                &&& final(quads)@.len() == drawn_planes(planes@).len()
                &&& forall|i: int|
                    0 <= i < final(quads)@.len() ==> shows_plane(
                        #[trigger] final(quads)@[i],
                        planes@[drawn_planes(planes@)[i]],
                        drawn_planes(planes@)[i],
                        viewport_w,
                        viewport_h,
                    )
            },
            Err(error) => exists|k: int| #[trigger]
                first_rejected_plane(planes@, k) && error.says(planes@[k].fault()),
        },
{
    let ghost all = planes@;
    let mut i: usize = 0;
    proof {
        assert(all.take(0).len() == 0);
    }
    while i < planes.len()
        invariant
            all == planes@,
            i <= all.len(),
            forall|k: int| 0 <= k < all.len() ==> (#[trigger] all[k]).needed() <= usize::MAX,
            forall|k: int| 0 <= k < i ==> !(#[trigger] all[k]).rejected(),
            quads@.len() == drawn_planes(all.take(i as int)).len(),
            planes_shown(quads@, all, drawn_planes(all.take(i as int)), viewport_w, viewport_h),
        decreases all.len() - i,
    {
        let plane = &planes[i];
        let ghost before = quads@;
        proof {
            assert(all.take(i + 1).drop_last() =~= all.take(i as int));
            assert(all.take(i + 1).last() == all[i as int]);
        }
        if plane.width != 0 && plane.height != 0 {
            if plane.rgba.len() != plane_bytes(plane) {
                proof {
                    assert(first_rejected_plane(all, i as int));
                }
                return Err(plane_error(plane));
            }
            quads.push(
                OverlayQuad {
                    source: QuadSource::Plane(i),
                    uniforms: D3d11OverlayUniforms::rgba_plane(
                        plane.x,
                        plane.y,
                        plane.width,
                        plane.height,
                        viewport_w,
                        viewport_h,
                    ),
                },
            );
        }
        proof {
            let d0 = drawn_planes(all.take(i as int));
            let d1 = drawn_planes(all.take(i + 1));
            assert forall|j: int| 0 <= j < quads@.len() implies shows_plane(
                #[trigger] quads@[j],
                all[d1[j]],
                d1[j],
                viewport_w,
                viewport_h,
            ) by {
                if j < d0.len() {
                    assert(d1[j] == d0[j]);
                    assert(quads@[j] == before[j]);
                }
            }
            assert(planes_shown(quads@, all, d1, viewport_w, viewport_h));
        }
        i = i + 1;
    }
    proof {
        assert(all.take(all.len() as int) =~= all);
    }
    Ok(())
}

proof fn lemma_placements_in_range(bitmaps: Seq<SubtitleAlphaBitmap>)
    requires
        bitmaps.len() <= usize::MAX,
    ensures
        forall|n: int|
            0 <= n < placements(bitmaps).len() ==> (#[trigger] placements(bitmaps)[n]).bitmap_index
                < bitmaps.len(),
    decreases bitmaps.len(),
{
    if bitmaps.len() > 0 {
        let rest = bitmaps.drop_last();
        lemma_placements_in_range(rest);
        assert forall|n: int| 0 <= n < placements(bitmaps).len() implies (#[trigger] placements(
            bitmaps,
        )[n]).bitmap_index < bitmaps.len() by {
            if n < placements(rest).len() {
                assert(placements(rest)[n].bitmap_index < rest.len());
            }
        }
    }
}

/// Plans what is drawn over the video: planes first, then masks. The first plane
/// or mask that is too short is an error.
pub fn plan_overlay(
    planes: &[OverlayPlane],
    bitmaps: &[SubtitleAlphaBitmap],
    viewport_w: u32,
    viewport_h: u32,
) -> (plan: Result<OverlayPlan, PlayerError>)
    requires
        forall|k: int| 0 <= k < planes@.len() ==> (#[trigger] planes@[k]).needed() <= usize::MAX,
        cursor(bitmaps@) <= usize::MAX,
        cursor(bitmaps@) * drawn_height(bitmaps@) <= usize::MAX,
    ensures
        match plan {
            Ok(plan) => {
                &&& forall|k: int| 0 <= k < planes@.len() ==> !(#[trigger] planes@[k]).rejected()
                &&& forall|k: int| 0 <= k < bitmaps@.len() ==> !rejected(#[trigger] bitmaps@[k])
                &&& plan.draws(planes@, bitmaps@, viewport_w, viewport_h)
            },
            Err(error) => {
                ||| exists|k: int| #[trigger]
                    first_rejected_plane(planes@, k) && error.says(planes@[k].fault())
                ||| {
                    &&& forall|k: int|
                        0 <= k < planes@.len() ==> !(#[trigger] planes@[k]).rejected()
                    &&& exists|k: int| #[trigger]
                        first_rejected(bitmaps@, k) && error.says(
                            drawn_rejected_text(bitmaps@[k]),
                        )
                }
            },
        },
{
    let mut quads: Vec<OverlayQuad> = Vec::new();
    match push_planes(&mut quads, planes, viewport_w, viewport_h) {
        Ok(()) => {},
        Err(error) => {
            return Err(error);
        },
    }
    let count: usize = bitmaps.len();
    let ghost n = quads@.len() as int;
    let ghost first = quads@;
    let packed = match OverlayAlphaAtlasPlan::pack_drawn(bitmaps) {
        Ok(packed) => packed,
        Err(error) => {
            return Err(error);
        },
    };
    let atlas = match packed {
        None => {
            proof {
                lemma_no_placements(bitmaps@);
            }
            return Ok(OverlayPlan { atlas: None, quads });
        },
        Some(atlas) => atlas,
    };
    proof {
        lemma_placements_in_range(bitmaps@);
    }
    let mut j: usize = 0;
    while j < atlas.placements.len()
        invariant
            j <= atlas.placements@.len(),
            atlas.placements@ == placements(bitmaps@),
            forall|k: int|
                0 <= k < placements(bitmaps@).len() ==> (#[trigger] placements(
                    bitmaps@,
                )[k]).bitmap_index < bitmaps@.len(),
            n == first.len(),
            quads@.len() == n + j,
            forall|k: int| 0 <= k < n ==> #[trigger] quads@[k] == first[k],
            forall|k: int|
                0 <= k < j ==> shows_mask(
                    #[trigger] quads@[n + k],
                    bitmaps@[placements(bitmaps@)[k].bitmap_index as int],
                    placements(bitmaps@)[k],
                    atlas,
                    viewport_w,
                    viewport_h,
                ),
        decreases atlas.placements@.len() - j,
    {
        let placement = atlas.placements[j];
        let ghost before = quads@;
        proof {
            assert(placements(bitmaps@)[j as int].bitmap_index < bitmaps@.len());
        }
        quads.push(
            OverlayQuad {
                source: QuadSource::Atlas,
                uniforms: D3d11OverlayUniforms::alpha_atlas(
                    &bitmaps[placement.bitmap_index],
                    placement.x as u32,
                    atlas.width as u32,
                    atlas.height as u32,
                    viewport_w,
                    viewport_h,
                ),
            },
        );
        proof {
            assert forall|k: int| 0 <= k < j + 1 implies shows_mask(
                #[trigger] quads@[n + k],
                bitmaps@[placements(bitmaps@)[k].bitmap_index as int],
                placements(bitmaps@)[k],
                atlas,
                viewport_w,
                viewport_h,
            ) by {
                if k < j {
                    assert(quads@[n + k] == before[n + k]);
                }
            }
        }
        j = j + 1;
    }
    proof {
        let plan = OverlayPlan { atlas: Some(atlas), quads };
        assert forall|i: int| 0 <= i < n implies shows_plane(
            #[trigger] plan.quads@[i],
            planes@[drawn_planes(planes@)[i]],
            drawn_planes(planes@)[i],
            viewport_w,
            viewport_h,
        ) by {
            assert(quads@[i] == first[i]);
        }
    }
    Ok(OverlayPlan { atlas: Some(atlas), quads })
}

proof fn lemma_no_placements(bitmaps: Seq<SubtitleAlphaBitmap>)
    requires
        cursor(bitmaps) == 0,
    ensures
        placements(bitmaps).len() == 0,
        forall|k: int| 0 <= k < bitmaps.len() ==> !rejected(#[trigger] bitmaps[k]),
    decreases bitmaps.len(),
{
    if bitmaps.len() > 0 {
        let rest = bitmaps.drop_last();
        lemma_cursor_not_negative(rest);
        lemma_no_placements(rest);
        assert forall|k: int| 0 <= k < bitmaps.len() implies !rejected(#[trigger] bitmaps[k]) by {
            if k < rest.len() {
                assert(rest[k] == bitmaps[k]);
            }
        }
    }
}

proof fn lemma_cursor_not_negative(bitmaps: Seq<SubtitleAlphaBitmap>)
    ensures
        cursor(bitmaps) >= 0,
    decreases bitmaps.len(),
{
    if bitmaps.len() > 0 {
        lemma_cursor_not_negative(bitmaps.drop_last());
    }
}

/// The draws of glyphs one by one: of each glyph its shadow, its outline and its
/// fill, as far as they can be seen.
pub open spec fn glyph_draws(items: Seq<DanmakuGlyphInstance>, n: int) -> Seq<DanmakuDraw>
    decreases n,
{
    if n <= 0 {
        seq![]
    } else {
        let item = (n - 1) as usize;
        glyph_draws(items, n - 1) + (if shows(items[n - 1], DanmakuLayer::Shadow) {
            seq![DanmakuDraw { item, layer: DanmakuLayer::Shadow }]
        } else {
            seq![]
        }) + (if shows(items[n - 1], DanmakuLayer::Outline) {
            seq![DanmakuDraw { item, layer: DanmakuLayer::Outline }]
        } else {
            seq![]
        }) + seq![DanmakuDraw { item, layer: DanmakuLayer::Fill }]
    }
}

/// The uniforms of one layer of one glyph.
pub open spec fn is_glyph_quad(
    item: DanmakuGlyphInstance,
    layer: DanmakuLayer,
    uniforms: D3d11OverlayUniforms,
    viewport_w: u32,
    viewport_h: u32,
) -> bool {
    &&& uniforms.tex_rect == item.tex_rect
    &&& uniforms.viewport@ == viewport_row(viewport_w, viewport_h)
    &&& uniforms.overlay_mode == 1
    &&& uniforms.reserved0 == 0
    &&& match layer {
        DanmakuLayer::Shadow => uniforms.rect@ == item.shadow() && uniforms.color
            == item.shadow_rgba,
        DanmakuLayer::Outline => uniforms.rect == item.rect && uniforms.color == item.outline_rgba,
        DanmakuLayer::Fill => uniforms.rect == item.rect && uniforms.color == item.color_rgba,
    }
}

/// One layer of one glyph with its uniforms.
#[derive(Debug, Clone, Copy, PartialEq, Eq)]
pub struct DanmakuQuad {
    pub draw: DanmakuDraw,
    pub uniforms: D3d11OverlayUniforms,
}

/// The quads of all glyphs, one by one.
pub fn danmaku_quads(items: &[DanmakuGlyphInstance], viewport_w: u32, viewport_h: u32) -> (
quads: Vec<DanmakuQuad>)
    ensures
        quads@.map_values(|quad: DanmakuQuad| quad.draw) == glyph_draws(
            items@,
            items@.len() as int,
        ),
        forall|k: int|
            0 <= k < quads@.len() ==> (#[trigger] quads@[k]).draw.item < items@.len()
                && is_glyph_quad(
                items@[quads@[k].draw.item as int],
                quads@[k].draw.layer,
                quads@[k].uniforms,
                viewport_w,
                viewport_h,
            ),
{
    let mut quads: Vec<DanmakuQuad> = Vec::new();
    let mut i: usize = 0;
    proof {
        assert(quads@.map_values(|quad: DanmakuQuad| quad.draw) =~= glyph_draws(items@, 0));
    }
    while i < items.len()
        invariant
            i <= items@.len(),
            quads@.map_values(|quad: DanmakuQuad| quad.draw) == glyph_draws(items@, i as int),
            forall|k: int|
                0 <= k < quads@.len() ==> (#[trigger] quads@[k]).draw.item < items@.len()
                    && is_glyph_quad(
                    items@[quads@[k].draw.item as int],
                    quads@[k].draw.layer,
                    quads@[k].uniforms,
                    viewport_w,
                    viewport_h,
                ),
        decreases items@.len() - i,
    {
        let item = &items[i];
        let ghost before = quads@;
        if item.shadow_rgba[3].is_positive() {
            quads.push(
                DanmakuQuad {
                    draw: DanmakuDraw { item: i, layer: DanmakuLayer::Shadow },
                    uniforms: D3d11OverlayUniforms::alpha_atlas_rect(
                        item.shadow_rgba,
                        item.shadow_rect(),
                        item.tex_rect,
                        viewport_w,
                        viewport_h,
                    ),
                },
            );
        }
        if item.outline_rgba[3].is_positive() {
            quads.push(
                DanmakuQuad {
                    draw: DanmakuDraw { item: i, layer: DanmakuLayer::Outline },
                    uniforms: D3d11OverlayUniforms::alpha_atlas_rect(
                        item.outline_rgba,
                        item.rect,
                        item.tex_rect,
                        viewport_w,
                        viewport_h,
                    ),
                },
            );
        }
        quads.push(
            DanmakuQuad {
                draw: DanmakuDraw { item: i, layer: DanmakuLayer::Fill },
                uniforms: D3d11OverlayUniforms::alpha_atlas_rect(
                    item.color_rgba,
                    item.rect,
                    item.tex_rect,
                    viewport_w,
                    viewport_h,
                ),
            },
        );
        proof {
            assert(quads@.map_values(|quad: DanmakuQuad| quad.draw) =~= glyph_draws(
                items@,
                i + 1,
            ));
        }
        i = i + 1;
    }
    quads
}

pub open spec fn d3d11_atlas_text() -> Seq<char> {
    "d3d11: danmaku glyph atlas has fill="@
}

/// Plans the comments of a frame: nothing without glyphs or without an atlas.
pub fn plan_danmaku(
    items: &[DanmakuGlyphInstance],
    atlas: Option<&DanmakuGlyphAtlas>,
    viewport_w: u32,
    viewport_h: u32,
) -> (quads: Result<Vec<DanmakuQuad>, PlayerError>)
    ensures
        match quads {
            Ok(quads) => if items@.len() == 0 || atlas is None {
                quads@.len() == 0
            } else {
                &&& atlas.unwrap().valid()
                &&& quads@.map_values(|quad: DanmakuQuad| quad.draw) == glyph_draws(
                    items@,
                    items@.len() as int,
                )
                &&& forall|k: int|
                    0 <= k < quads@.len() ==> (#[trigger] quads@[k]).draw.item < items@.len()
                        && is_glyph_quad(
                        items@[quads@[k].draw.item as int],
                        quads@[k].draw.layer,
                        quads@[k].uniforms,
                        viewport_w,
                        viewport_h,
                    )
            },
            Err(error) => {
                &&& items@.len() > 0
                &&& atlas is Some && !atlas.unwrap().valid()
                &&& error.says(atlas.unwrap().fault(d3d11_atlas_text()))
            },
        },
{
    if items.len() == 0 {
        return Ok(Vec::new());
    }
    match atlas {
        None => Ok(Vec::new()),
        Some(atlas) => match atlas.check("d3d11: danmaku glyph atlas has fill=") {
            Ok(()) => Ok(danmaku_quads(items, viewport_w, viewport_h)),
            Err(error) => Err(error),
        },
    }
}

} // verus!
