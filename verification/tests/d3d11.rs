//! The Direct3D 11 renderer: its surface, imports, overlays and comments.

use erika::d3d11::{
    check_import, check_overlay_texture, nul, plan_danmaku, plan_overlay, D3d11Renderer,
    D3d11UploadStep, D3d11VideoTextureFormat, HostSurface, OverlayPlane, QuadSource,
};
use erika::danmaku::{DanmakuGlyphInstance, DanmakuLayer};
use erika::danmaku_buffers::DanmakuGlyphAtlas;
use erika::float::F32;
use erika::modes::{LumaUpscalerBackendStatus, LumaUpscalerMode};
use erika::overlay::{SubtitleAlphaBitmap, SubtitleBitmapPlacement};
use windows::Win32::Graphics::Dxgi::Common::{
    DXGI_FORMAT_B8G8R8A8_UNORM, DXGI_FORMAT_NV12, DXGI_FORMAT_P010, DXGI_FORMAT_R16G16_UNORM,
    DXGI_FORMAT_R16_UNORM, DXGI_FORMAT_R8G8_UNORM, DXGI_FORMAT_R8_UNORM,
};

fn f(value: f32) -> F32 {
    F32::from_bits(value.to_bits())
}

fn row(values: [f32; 4]) -> [F32; 4] {
    values.map(f)
}

fn atlas() -> DanmakuGlyphAtlas {
    DanmakuGlyphAtlas {
        version: 1,
        width: 2,
        height: 2,
        stride: 2,
        fill_alpha: vec![1; 4],
        outline_alpha: vec![2; 4],
        update: None,
    }
}

#[test]
fn video_texture_format_maps_plane_srv_formats() {
    assert_eq!(
        D3d11VideoTextureFormat::from_dxgi(DXGI_FORMAT_NV12.0)
            .unwrap()
            .luma_srv(),
        DXGI_FORMAT_R8_UNORM.0
    );
    assert_eq!(
        D3d11VideoTextureFormat::from_dxgi(DXGI_FORMAT_P010.0)
            .unwrap()
            .chroma_srv(),
        DXGI_FORMAT_R16G16_UNORM.0
    );
}

#[test]
fn the_other_planes_have_their_formats_too() {
    assert_eq!(D3d11VideoTextureFormat::Nv12.chroma_srv(), DXGI_FORMAT_R8G8_UNORM.0);
    assert_eq!(D3d11VideoTextureFormat::P010.luma_srv(), DXGI_FORMAT_R16_UNORM.0);
    assert_eq!(
        D3d11VideoTextureFormat::from_dxgi(DXGI_FORMAT_B8G8R8A8_UNORM.0),
        None
    );
}

#[test]
fn surfaces_are_windows() {
    let mut renderer = D3d11Renderer::new();
    let error = renderer
        .attach_surface(HostSurface::NotAWindow, "", 1, 1)
        .unwrap_err();
    assert_eq!(error.message(), "d3d11: only Windows HWND surfaces are supported");
    let error = renderer
        .attach_surface(HostSurface::OtherWindow, "AndroidSurface", 1, 1)
        .unwrap_err();
    assert_eq!(error.message(), "d3d11: surface kind AndroidSurface is not supported");
    let error = renderer
        .attach_surface(HostSurface::Window { handle: 0 }, "WindowsHwnd", 1, 1)
        .unwrap_err();
    assert_eq!(error.message(), "d3d11: Windows HWND surface handle is null");
    let error = renderer.ensure_surface_ready().unwrap_err();
    assert_eq!(error.message(), "d3d11: no HWND surface attached");

    renderer
        .attach_surface(HostSurface::Window { handle: 7 }, "WindowsHwnd", 0, 10)
        .unwrap();
    assert!(renderer.stats.attached);
    assert_eq!(renderer.surface.unwrap().width, 1);
    assert!(!renderer.can_make_targets());
    renderer.device_attached(false);
    assert!(renderer.can_make_targets());
    assert_eq!(renderer.ensure_surface_ready(), Ok(true));
    renderer.targets_made(640, 480);
    assert_eq!(renderer.ensure_surface_ready(), Ok(false));
    assert_eq!(renderer.stats.surface_width, 640);
    renderer.targets_dropped();
    assert_eq!(renderer.ensure_surface_ready(), Ok(true));
    renderer.detach_surface();
    assert!(!renderer.stats.attached);
    assert!(renderer.surface.is_none());
}

#[test]
fn only_shared_textures_are_imported() {
    let mut renderer = D3d11Renderer::new();
    assert!(matches!(
        renderer.upload_player_frame(true, true),
        Ok(D3d11UploadStep::Import)
    ));
    renderer.video_imported();
    assert_eq!(renderer.stats.zero_copy_video_frames, 1);
    let error = renderer.upload_player_frame(false, true).unwrap_err();
    assert_eq!(error.message(), "d3d11: hardware frame is not importable as D3D11VA");
    let error = renderer.upload_player_frame(false, false).unwrap_err();
    assert_eq!(
        error.message(),
        "d3d11: software frames require WgpuFallback or a CPU upload path"
    );
    assert_eq!(renderer.stats.hardware_video_frames, 2);
    assert_eq!(renderer.stats.cpu_video_frame_fallbacks, 1);
    renderer.frame_presented(5);
    assert_eq!(renderer.stats.rendered_frames, 1);
    assert_eq!(renderer.stats.danmaku_items, 5);

    assert_eq!(
        check_import(DXGI_FORMAT_P010.0, "P010", 1, 2),
        Ok(D3d11VideoTextureFormat::P010)
    );
    let error = check_import(DXGI_FORMAT_P010.0, "P010", 2, 2).unwrap_err();
    assert_eq!(error.message(), "d3d11: D3D11VA array index 2 out of bounds for 2 slices");
    let error = check_import(87, "DXGI_FORMAT(87)", 0, 1).unwrap_err();
    assert_eq!(
        error.message(),
        "d3d11: unsupported D3D11VA texture format DXGI_FORMAT(87)"
    );
}

#[test]
fn the_upscaler_needs_a_mode() {
    let mut renderer = D3d11Renderer::new();
    assert_eq!(renderer.runtime_stats().upscaler_backend, LumaUpscalerBackendStatus::Off);
    renderer.set_luma_upscaler(LumaUpscalerMode::ArtCnnC4F16);
    renderer.stats.danmaku_items = 7;
    renderer.stats.hardware_video_frames = 3;
    let report = renderer.runtime_stats();
    assert_eq!(report.upscaler_mode, LumaUpscalerMode::ArtCnnC4F16);
    assert_eq!(report.upscaler_backend, LumaUpscalerBackendStatus::Inactive);
    assert_eq!(report.danmaku_draw_items, 7);
    assert_eq!(report.hardware_video_frames, 3);
    assert_eq!(report.software_video_frames, 0);
}

#[test]
fn overlays_are_planned_plane_by_plane() {
    let planes = [
        OverlayPlane {
            x: 3,
            y: 4,
            width: 1,
            height: 1,
            rgba: vec![1, 2, 3, 4],
        },
        OverlayPlane {
            x: 0,
            y: 0,
            width: 0,
            height: 9,
            rgba: vec![],
        },
    ];
    let bitmaps = [SubtitleAlphaBitmap::new(
        SubtitleBitmapPlacement::new(1, 2, 2, 1),
        2,
        0xffffff00,
        vec![7, 8],
    )];
    let plan = plan_overlay(&planes, &bitmaps, 100, 50).unwrap();
    assert_eq!(plan.quads.len(), 2);
    assert_eq!(plan.quads[0].source, QuadSource::Plane(0));
    assert_eq!(plan.quads[0].uniforms.rect, row([3.0, 4.0, 1.0, 1.0]));
    assert_eq!(plan.quads[1].source, QuadSource::Atlas);
    let packed = plan.atlas.unwrap();
    assert_eq!(packed.pixels, vec![7, 8]);

    let short = [OverlayPlane {
        x: 0,
        y: 0,
        width: 2,
        height: 1,
        rgba: vec![0; 7],
    }];
    let error = plan_overlay(&short, &[], 1, 1).unwrap_err();
    assert_eq!(
        error.message(),
        "d3d11: overlay subtitle plane has 7 bytes, expected 8 for 2x1 RGBA"
    );
    let error = check_overlay_texture(1, 0, 4).unwrap_err();
    assert_eq!(error.message(), "d3d11: overlay texture dimensions must be non-zero");
    assert!(check_overlay_texture(1, 1, 4).is_ok());
}

#[test]
fn comments_are_drawn_glyph_by_glyph() {
    let item = DanmakuGlyphInstance {
        item_id: 1,
        rect: row([0.0, 0.0, 10.0, 10.0]),
        tex_rect: row([0.0, 0.0, 1.0, 1.0]),
        color_rgba: row([0.3, 0.0, 0.0, 1.0]),
        outline_rgba: row([0.2, 0.0, 0.0, 1.0]),
        shadow_rgba: row([0.1, 0.0, 0.0, 1.0]),
        shadow_offset: [f(1.0), f(1.0)],
    };
    let quads = plan_danmaku(&[item, item], Some(&atlas()), 10, 10).unwrap();
    let layers: Vec<(usize, DanmakuLayer)> = quads
        .iter()
        .map(|quad| (quad.draw.item, quad.draw.layer))
        .collect();
    assert_eq!(
        layers,
        vec![
            (0, DanmakuLayer::Shadow),
            (0, DanmakuLayer::Outline),
            (0, DanmakuLayer::Fill),
            (1, DanmakuLayer::Shadow),
            (1, DanmakuLayer::Outline),
            (1, DanmakuLayer::Fill),
        ]
    );
    assert_eq!(quads[0].uniforms.rect, row([1.0, 1.0, 10.0, 10.0]));
    assert_eq!(quads[2].uniforms.color, row([0.3, 0.0, 0.0, 1.0]));
    assert!(plan_danmaku(&[item], None, 10, 10).unwrap().is_empty());
    let mut short = atlas();
    short.fill_alpha = vec![];
    let error = plan_danmaku(&[item], Some(&short), 10, 10).unwrap_err();
    assert_eq!(
        error.message(),
        "d3d11: danmaku glyph atlas has fill=0 outline=4 bytes, expected at least 4 for 2x2 stride 2"
    );
}

#[test]
fn a_glyph_atlas_on_the_device_is_reused() {
    let mut renderer = D3d11Renderer::new();
    assert!(!renderer.reuse_danmaku_atlas(&atlas()));
    renderer.danmaku_atlas_uploaded(&atlas());
    assert!(renderer.reuse_danmaku_atlas(&atlas()));
    assert_eq!(renderer.stats.overlay_alpha_atlas_uploads, 1);
    assert_eq!(renderer.stats.overlay_alpha_atlas_reuses, 1);
}

#[test]
fn texts_end_in_a_zero_byte() {
    assert_eq!(nul("vs"), vec![b'v', b's', 0]);
    assert_eq!(nul(""), vec![0]);
}

#[test]
fn a_frame_needs_a_video_and_a_surface() {
    let mut renderer = D3d11Renderer::new();
    assert_eq!(renderer.begin_video(), Ok(None));
    renderer.video_imported();
    let error = renderer.begin_video().unwrap_err();
    assert_eq!(error.message(), "d3d11: no HWND surface attached");
    renderer
        .attach_surface(HostSurface::Window { handle: 7 }, "WindowsHwnd", 10, 10)
        .unwrap();
    assert_eq!(renderer.begin_video(), Ok(Some(true)));
    renderer.overlay_prepared(2, 3);
    renderer.overlay_atlas_uploaded();
    let stats = renderer.stats();
    assert_eq!(stats.prepared_overlay_frames, 1);
    assert_eq!(stats.prepared_overlay_subtitle_planes, 5);
    assert_eq!(stats.overlay_alpha_atlas_uploads, 1);
}

#[test]
fn numbers_of_direct3d_are_the_known_ones() {
    assert_eq!(
        D3d11VideoTextureFormat::from_dxgi(103),
        Some(D3d11VideoTextureFormat::Nv12)
    );
    assert_eq!(
        D3d11VideoTextureFormat::from_dxgi(104),
        Some(D3d11VideoTextureFormat::P010)
    );
    assert_eq!(D3d11VideoTextureFormat::Nv12.luma_srv(), 61);
    assert_eq!(D3d11VideoTextureFormat::Nv12.chroma_srv(), 49);
    assert_eq!(D3d11VideoTextureFormat::P010.luma_srv(), 56);
    assert_eq!(D3d11VideoTextureFormat::P010.chroma_srv(), 35);
}
