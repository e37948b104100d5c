//! What frames, overlays and buffers look like to the device that draws them.
use crate::accuracy::rounded;
use crate::android_convert::{
    acquire, filter_of, model_of, range_of, recorded, release, AhbProperties, ConversionCommand,
};
use crate::android_frame::{crop_fractions, crop_valid, AndroidAhbFrameDescription};
use crate::color::{
    primaries_number, resolved_primaries, ColorPrimaries, ColorRange, MatrixCoefficients,
    TransferFunction,
};
use crate::d3d11::{
    drawn_planes, glyph_draws, is_glyph_quad, shows_mask, shows_plane, OverlayPlane, OverlayQuad,
    QuadSource,
};
use crate::danmaku::{height, shows, DanmakuDraw, DanmakuGlyphInstance, DanmakuLayer};
use crate::frame::VideoFrameDescriptor;
use crate::graph::{needed_kinds, optional, GraphNeeds, RenderPassKind};
use crate::metal::{edr_space, mode_format, MetalOutputMode, MetalRendererImpl};
use crate::metal_frame::MetalVideoUniforms;
use crate::overlay::{OverlayAlphaAtlasPlacement, OverlayAlphaAtlasPlan, SubtitleAlphaBitmap};
use crate::overlay_draw::{ui_linear_white, ui_white, D3d11OverlayUniforms, OverlayUniforms};
use crate::pipeline::{needs_gamut_map, needs_tone_map, VideoRenderPipeline};
use crate::placement_laws::law_a_share_is_a_fraction;
use crate::product::integer_value;
use crate::quotient::quotient;
use crate::source::{transfer_peak, transfer_white, TargetColorState};
use crate::texels::{captured, pixel_bytes, MetalDrawablePixelFormat};
use crate::uniforms::VideoUniforms;
use vstd::prelude::*;

verus! {

/// On Metal a frame has the same colours as anywhere else: every register that
/// decides them is the shared one.
pub proof fn law_metal_shares_the_colours(metal: MetalVideoUniforms, shared: VideoUniforms)
    requires
        metal.shares(shared),
    ensures
        metal.is_p010 == shared.is_p010,
        metal.full_range == shared.full_range,
        metal.source_transfer == shared.source_transfer,
        metal.target_transfer == shared.target_transfer,
        metal.tone_map == shared.tone_map,
        metal.edr_output == shared.edr_output,
        metal.nits == shared.nits,
        metal.luma_coefficients == shared.luma_coefficients,
        metal.gamut_matrix_rows == shared.gamut_matrix_rows,
        metal.ipt_matrix_rows == shared.ipt_matrix_rows,
        metal.tone_map_extra == shared.tone_map_extra,
        metal.tone_map_coeffs == shared.tone_map_coeffs,
        metal.gamut_primaries == shared.gamut_primaries,
        metal.dovi == shared.dovi,
{
}

/// Overlays are told the target's encoding and both of its whites, the one for
/// encoding first.
pub proof fn law_overlays_suit_the_target(
    uniforms: OverlayUniforms,
    target: TargetColorState,
    edr_output: bool,
)
    requires
        uniforms.suits(target, edr_output),
    ensures
        uniforms.ui_nits@[0] == ui_white(target),
        uniforms.ui_nits@[1] == ui_linear_white(target, edr_output),
        uniforms.ui_nits@[2].bits == 0 && uniforms.ui_nits@[3].bits == 0,
        target.transfer is Pq <==> uniforms.target_transfer == 3,
        target.transfer is Hlg <==> uniforms.target_transfer == 4,
{
}

/// The step of a frame at which a pass belongs.
pub open spec fn step_of(kind: RenderPassKind) -> int {
    match kind {
        RenderPassKind::ImportFrame => 0,
        RenderPassKind::NeuralUpscale => 1,
        RenderPassKind::PlaneSampling => 2,
        RenderPassKind::ChromaReconstruction => 3,
        RenderPassKind::DoviReshape => 4,
        RenderPassKind::TransferDecode => 5,
        RenderPassKind::GamutMap => 6,
        RenderPassKind::ToneMap => 7,
        RenderPassKind::Scale => 8,
        RenderPassKind::OverlayComposite => 9,
        RenderPassKind::Dither => 10,
        RenderPassKind::OutputTransform => 11,
    }
}

/// The passes of a frame come in the order of its steps, and none comes twice:
/// the signal is reshaped before it is decoded and decoded before it is mapped,
/// and what is laid over it comes after all mapping.
pub proof fn law_passes_follow_the_signal(needs: GraphNeeds, i: int, j: int)
    requires
        0 <= i < j < needed_kinds(needs).len(),
    ensures
        step_of(needed_kinds(needs)[i]) < step_of(needed_kinds(needs)[j]),
{
    let s0 = seq![RenderPassKind::ImportFrame];
    let s1 = s0 + optional(needs.upscale, RenderPassKind::NeuralUpscale);
    let s3 = s1 + seq![RenderPassKind::PlaneSampling, RenderPassKind::ChromaReconstruction];
    let s4 = s3 + optional(needs.reshape, RenderPassKind::DoviReshape);
    let s5 = s4 + seq![RenderPassKind::TransferDecode];
    let s6 = s5 + optional(needs.gamut_map, RenderPassKind::GamutMap);
    let s7 = s6 + optional(needs.tone_map, RenderPassKind::ToneMap);
    let s8 = s7 + optional(needs.scale, RenderPassKind::Scale);
    let overlays = seq![
        RenderPassKind::OverlayComposite,
        RenderPassKind::Dither,
        RenderPassKind::OutputTransform,
    ];
    assert(in_steps(s0, 0));
    lemma_next_steps(s0, 0, optional(needs.upscale, RenderPassKind::NeuralUpscale), 1);
    lemma_next_steps(
        s1,
        1,
        seq![RenderPassKind::PlaneSampling, RenderPassKind::ChromaReconstruction],
        3,
    );
    lemma_next_steps(s3, 3, optional(needs.reshape, RenderPassKind::DoviReshape), 4);
    lemma_next_steps(s4, 4, seq![RenderPassKind::TransferDecode], 5);
    lemma_next_steps(s5, 5, optional(needs.gamut_map, RenderPassKind::GamutMap), 6);
    lemma_next_steps(s6, 6, optional(needs.tone_map, RenderPassKind::ToneMap), 7);
    lemma_next_steps(s7, 7, optional(needs.scale, RenderPassKind::Scale), 8);
    lemma_next_steps(s8, 8, overlays, 11);
    assert(needed_kinds(needs) == s8 + overlays);
}

/// The passes are in the order of their steps, up to this one.
spec fn in_steps(kinds: Seq<RenderPassKind>, last: int) -> bool {
    &&& forall|i: int, j: int|
        0 <= i < j < kinds.len() ==> step_of(#[trigger] kinds[i]) < step_of(#[trigger] kinds[j])
    &&& forall|i: int| 0 <= i < kinds.len() ==> step_of(#[trigger] kinds[i]) <= last
}

proof fn lemma_next_steps(
    kinds: Seq<RenderPassKind>,
    last: int,
    more: Seq<RenderPassKind>,
    next: int,
)
    requires
        in_steps(kinds, last),
        in_steps(more, next),
        last <= next,
        forall|i: int| 0 <= i < more.len() ==> last < step_of(#[trigger] more[i]),
    ensures
        in_steps(kinds + more, next),
{
    let all = kinds + more;
    assert forall|i: int, j: int| 0 <= i < j < all.len() implies step_of(#[trigger] all[i])
        < step_of(#[trigger] all[j]) by {
        if j < kinds.len() {
            assert(step_of(kinds[i]) < step_of(kinds[j]));
        } else if i < kinds.len() {
            assert(last < step_of(more[j - kinds.len()]));
            assert(step_of(kinds[i]) <= last);
        } else {
            assert(step_of(more[i - kinds.len()]) < step_of(more[j - kinds.len()]));
        }
    }
    assert forall|i: int| 0 <= i < all.len() implies step_of(#[trigger] all[i]) <= next by {
        if i < kinds.len() {
            assert(step_of(kinds[i]) <= last);
        } else {
            assert(step_of(more[i - kinds.len()]) <= next);
        }
    }
}

/// A frame is mapped where source and target call for it: the graph of a
/// pipeline maps tones and gamuts exactly then, reshapes exactly where there is
/// dynamic metadata, and doubles exactly where a network is selected.
pub proof fn law_the_graph_follows_the_pipeline(pipeline: VideoRenderPipeline)
    requires
        pipeline.wf(),
    ensures
        pipeline.graph.kinds().contains(RenderPassKind::ToneMap) == needs_tone_map(
            pipeline.source,
            pipeline.target,
        ),
        pipeline.graph.kinds().contains(RenderPassKind::GamutMap) == needs_gamut_map(
            pipeline.source,
            pipeline.target,
        ),
        pipeline.graph.kinds().contains(RenderPassKind::DoviReshape) == (pipeline.source.dovi
            is Some),
        pipeline.graph.kinds().contains(RenderPassKind::NeuralUpscale) == !(
        pipeline.luma_upscaler is Off),
        pipeline.graph.kinds().contains(RenderPassKind::Scale) == !(
        pipeline.scaler.kernel is Nearest),
{
    crate::graph::law_graph_holds_what_is_needed(
        crate::pipeline::pipeline_needs(
            pipeline.source,
            pipeline.target,
            pipeline.scaler,
            pipeline.luma_upscaler,
        ),
    );
}

/// A frame's source is what its description says, and where the description says
/// nothing, what the transfer function implies.
pub proof fn law_the_source_is_as_described(frame: VideoFrameDescriptor)
    ensures
        frame.source().primaries == frame.primaries,
        frame.source().transfer == frame.transfer,
        frame.source().range == frame.range,
        frame.source().matrix == frame.matrix,
        frame.source().hdr_metadata == frame.hdr_metadata,
        frame.source().dovi is None,
        frame.source().reference_white_nits == transfer_white(frame.transfer),
        frame.hdr_metadata is None ==> frame.source().nominal_peak_nits == transfer_peak(
            frame.transfer,
        ),
{
}

/// Extended surfaces keep the perceptual quantizer of a source that has it and
/// wide primaries, and are linear for all others; host textures are never
/// extended.
pub proof fn law_extended_surfaces_suit_the_source(
    primaries: ColorPrimaries,
    transfer: TransferFunction,
    renderer: MetalRendererImpl,
    negotiated: MetalOutputMode,
)
    ensures
        !(transfer is Pq) ==> edr_space(Some((primaries, transfer)))
            is ExtendedLinearSrgb,
        edr_space(None) is ExtendedLinearSrgb,
        edr_space(Some((ColorPrimaries::Bt2020, TransferFunction::Pq))) is Itur2100Pq,
        edr_space(Some((ColorPrimaries::DisplayP3, TransferFunction::Pq))) is DisplayP3Pq,
        edr_space(Some((ColorPrimaries::Bt709, TransferFunction::Pq))) is ExtendedLinearSrgb,
        edr_space(Some((ColorPrimaries::Unknown, transfer))) == edr_space(
            Some((ColorPrimaries::Bt2020, transfer)),
        ),
        renderer.surface is HostTexture ==> renderer.selected_mode(negotiated) is Sdr,
        !(renderer.surface is HostTexture) ==> renderer.selected_mode(negotiated) == negotiated,
        pixel_bytes(mode_format(MetalOutputMode::Sdr)) < pixel_bytes(
            mode_format(MetalOutputMode::Edr),
        ),
{
}

/// A capture has red first, whatever the order of the surface: a pixel stored
/// as blue, green, red and alpha comes out as red, green, blue and alpha.
pub proof fn law_captures_have_red_first(raw: Seq<u8>, p: int)
    ensures
        captured(raw, MetalDrawablePixelFormat::Bgra8Unorm, p, 0) == raw[4 * p + 2],
        captured(raw, MetalDrawablePixelFormat::Bgra8Unorm, p, 1) == raw[4 * p + 1],
        captured(raw, MetalDrawablePixelFormat::Bgra8Unorm, p, 2) == raw[4 * p],
        captured(raw, MetalDrawablePixelFormat::Bgra8Unorm, p, 3) == raw[4 * p + 3],
{
}

/// A channel of a captured pixel depends on the bytes of that channel alone.
pub proof fn law_captured_channels_are_apart(a: Seq<u8>, b: Seq<u8>, p: int, c: int)
    requires
        0 <= c < 4,
        a[8 * p + 2 * c] == b[8 * p + 2 * c],
        a[8 * p + 2 * c + 1] == b[8 * p + 2 * c + 1],
    ensures
        captured(a, MetalDrawablePixelFormat::Rgba16Float, p, c) == captured(
            b,
            MetalDrawablePixelFormat::Rgba16Float,
            p,
            c,
        ),
{
}

/// A plane is shown whole, in its own colours, at its own pixels.
pub proof fn law_planes_are_shown_whole(
    quad: OverlayQuad,
    plane: OverlayPlane,
    index: int,
    viewport_w: u32,
    viewport_h: u32,
)
    requires
        shows_plane(quad, plane, index, viewport_w, viewport_h),
        0 <= index <= usize::MAX,
        plane.width < 0x100_0000,
        plane.height < 0x100_0000,
        -0x100_0000 < plane.x < 0x100_0000,
        -0x100_0000 < plane.y < 0x100_0000,
    ensures
        quad.source == QuadSource::Plane(index as usize),
        quad.uniforms.rect@[0].value() == plane.x as real,
        quad.uniforms.rect@[1].value() == plane.y as real,
        quad.uniforms.rect@[2].value() == plane.width as real,
        quad.uniforms.rect@[3].value() == plane.height as real,
        quad.uniforms.tex_rect@[0].value() == 0 as real,
        quad.uniforms.tex_rect@[1].value() == 0 as real,
        quad.uniforms.tex_rect@[2].value() == 1 as real,
        quad.uniforms.tex_rect@[3].value() == 1 as real,
        quad.uniforms.overlay_mode == 0,
        forall|k: int| 0 <= k < 4 ==> (#[trigger] quad.uniforms.color@[k]).value() == 1 as real,
{
    crate::accuracy::lemma_zero_and_one();
    crate::placement_laws::law_whole_pixels_are_exact(plane.x, plane.y, plane.width, plane.height);
}

/// Every plane with pixels is drawn, no other one is, and they keep their order.
pub proof fn law_planes_with_pixels_are_drawn(planes: Seq<OverlayPlane>, k: int)
    ensures
        drawn_planes(planes).contains(k) <==> 0 <= k < planes.len() && planes[k].width > 0
            && planes[k].height > 0,
        forall|i: int, j: int|
            0 <= i < j < drawn_planes(planes).len() ==> #[trigger] drawn_planes(planes)[i]
                < #[trigger] drawn_planes(planes)[j],
        forall|i: int|
            0 <= i < drawn_planes(planes).len() ==> 0 <= #[trigger] drawn_planes(planes)[i]
                < planes.len(),
    decreases planes.len(),
{
    if planes.len() > 0 {
        let rest = planes.drop_last();
        law_planes_with_pixels_are_drawn(rest, k);
        let all = drawn_planes(planes);
        let before = drawn_planes(rest);
        if before.contains(k) {
            let n = choose|n: int| 0 <= n < before.len() && before[n] == k;
            assert(all[n] == k);
        }
        if planes.last().drawn() && k == planes.len() - 1 {
            assert(all[all.len() - 1] == k);
        }
        if all.contains(k) && k != planes.len() - 1 {
            let n = choose|n: int| 0 <= n < all.len() && all[n] == k;
            assert(before[n] == k);
        }
    }
}

/// A mask is shown at its own pixels, in its own colour, from its own place in
/// the atlas, whose top row it touches.
pub proof fn law_masks_are_shown_from_their_place(
    quad: OverlayQuad,
    bitmap: SubtitleAlphaBitmap,
    placement: OverlayAlphaAtlasPlacement,
    atlas: OverlayAlphaAtlasPlan,
    viewport_w: u32,
    viewport_h: u32,
)
    requires
        shows_mask(quad, bitmap, placement, atlas, viewport_w, viewport_h),
        1 <= atlas.width < 0x100_0000,
        1 <= atlas.height < 0x100_0000,
        placement.x < 0x100_0000,
        bitmap.placement.width < 0x100_0000,
        bitmap.placement.height < 0x100_0000,
        -0x100_0000 < bitmap.placement.x < 0x100_0000,
        -0x100_0000 < bitmap.placement.y < 0x100_0000,
    ensures
        quad.source is Atlas,
        quad.uniforms.rect@[0].value() == bitmap.placement.x as real,
        quad.uniforms.rect@[1].value() == bitmap.placement.y as real,
        quad.uniforms.rect@[2].value() == bitmap.placement.width as real,
        quad.uniforms.rect@[3].value() == bitmap.placement.height as real,
        rounded(
            quad.uniforms.tex_rect@[0].value(),
            placement.x as real / atlas.width as real,
        ),
        quad.uniforms.tex_rect@[1].value() == 0 as real,
        rounded(
            quad.uniforms.tex_rect@[2].value(),
            bitmap.placement.width as real / atlas.width as real,
        ),
        rounded(
            quad.uniforms.tex_rect@[3].value(),
            bitmap.placement.height as real / atlas.height as real,
        ),
        quad.uniforms.overlay_mode == 1,
{
    crate::accuracy::lemma_zero_and_one();
    crate::placement_laws::law_whole_pixels_are_exact(
        bitmap.placement.x,
        bitmap.placement.y,
        bitmap.placement.width,
        bitmap.placement.height,
    );
    law_a_share_is_a_fraction(
        placement.x as int,
        atlas.width as int,
        quad.uniforms.tex_rect@[0],
    );
    law_a_share_is_a_fraction(
        bitmap.placement.width as int,
        atlas.width as int,
        quad.uniforms.tex_rect@[2],
    );
    law_a_share_is_a_fraction(
        bitmap.placement.height as int,
        atlas.height as int,
        quad.uniforms.tex_rect@[3],
    );
}

/// On Direct3D too, the layers of a glyph have their own colours and lie where
/// the glyph lies, but for the shadow.
pub proof fn law_glyph_quads_have_their_own_colours(
    item: DanmakuGlyphInstance,
    shadow: D3d11OverlayUniforms,
    outline: D3d11OverlayUniforms,
    fill: D3d11OverlayUniforms,
    viewport_w: u32,
    viewport_h: u32,
)
    requires
        is_glyph_quad(item, DanmakuLayer::Shadow, shadow, viewport_w, viewport_h),
        is_glyph_quad(item, DanmakuLayer::Outline, outline, viewport_w, viewport_h),
        is_glyph_quad(item, DanmakuLayer::Fill, fill, viewport_w, viewport_h),
    ensures
        shadow.color == item.shadow_rgba,
        outline.color == item.outline_rgba,
        fill.color == item.color_rgba,
        outline.rect == item.rect,
        fill.rect == item.rect,
        shadow.rect@ == item.shadow(),
        shadow.tex_rect == item.tex_rect,
        outline.tex_rect == item.tex_rect,
        fill.tex_rect == item.tex_rect,
        shadow.overlay_mode == 1 && outline.overlay_mode == 1 && fill.overlay_mode == 1,
        shadow.viewport@ == fill.viewport@ && outline.viewport@ == fill.viewport@,
{
}

/// Glyph by glyph, and of each glyph from the lowest layer up.
pub open spec fn drawn_before(a: DanmakuDraw, b: DanmakuDraw) -> bool {
    a.item < b.item || (a.item == b.item && height(a.layer) < height(b.layer))
}

/// On Direct3D the glyphs are drawn one after the other, each from its lowest
/// layer up, and exactly the layers that are shown.
pub proof fn law_glyphs_are_drawn_one_by_one(
    items: Seq<DanmakuGlyphInstance>,
    n: int,
    i: int,
    layer: DanmakuLayer,
)
    requires
        0 <= n <= items.len() <= usize::MAX,
    ensures
        forall|j: int, k: int|
            0 <= j < k < glyph_draws(items, n).len() ==> drawn_before(
                #[trigger] glyph_draws(items, n)[j],
                #[trigger] glyph_draws(items, n)[k],
            ),
        forall|j: int|
            0 <= j < glyph_draws(items, n).len() ==> (#[trigger] glyph_draws(items, n)[j]).item < n
                && shows(
                items[glyph_draws(items, n)[j].item as int],
                glyph_draws(items, n)[j].layer,
            ),
        0 <= i < n && shows(items[i], layer) ==> glyph_draws(items, n).contains(
            DanmakuDraw { item: i as usize, layer },
        ),
    decreases n,
{
    if n > 0 {
        law_glyphs_are_drawn_one_by_one(items, n - 1, i, layer);
        let all = glyph_draws(items, n);
        let before = glyph_draws(items, n - 1);
        let m = before.len() as int;
        let item = (n - 1) as usize;
        let s: int = if shows(items[n - 1], DanmakuLayer::Shadow) {
            1
        } else {
            0
        };
        let o: int = if shows(items[n - 1], DanmakuLayer::Outline) {
            1
        } else {
            0
        };
        assert(all.len() == m + s + o + 1);
        assert forall|j: int| 0 <= j < m implies all[j] == before[j] by {}
        if s == 1 {
            assert(all[m] == DanmakuDraw { item, layer: DanmakuLayer::Shadow });
        }
        if o == 1 {
            assert(all[m + s] == DanmakuDraw { item, layer: DanmakuLayer::Outline });
        }
        assert(all[m + s + o] == DanmakuDraw { item, layer: DanmakuLayer::Fill });
        if 0 <= i < n && shows(items[i], layer) {
            let draw = DanmakuDraw { item: i as usize, layer };
            if i < n - 1 {
                let k = choose|k: int| 0 <= k < before.len() && before[k] == draw;
                assert(all[k] == draw);
            }
        }
        assert forall|j: int, k: int| 0 <= j < k < all.len() implies drawn_before(
            #[trigger] all[j],
            #[trigger] all[k],
        ) by {
            if k < m {
                assert(drawn_before(before[j], before[k]));
            } else if j < m {
                assert(before[j].item < n - 1);
            }
        }
    }
}

/// The crop of a buffer is told in fractions of the buffer: where it begins and
/// how much of the buffer it shows, up to rounding. A crop of the whole buffer
/// begins at nothing and shows all of it.
pub proof fn law_crops_are_fractions_of_the_buffer(frame: AndroidAhbFrameDescription)
    requires
        crop_valid(frame),
        frame.buffer_width < 0x100_0000,
        frame.buffer_height < 0x100_0000,
    ensures
        ({
            let row = crop_fractions(frame);
            let w = frame.buffer_width as real;
            let h = frame.buffer_height as real;
            &&& row.len() == 4
            &&& rounded(row[0].value(), frame.crop.left as real / w)
            &&& rounded(row[1].value(), frame.crop.top as real / h)
            &&& rounded(row[2].value(), (frame.crop.right - frame.crop.left) as real / w)
            &&& rounded(row[3].value(), (frame.crop.bottom - frame.crop.top) as real / h)
        }),
{
    let w = frame.buffer_width as int;
    let h = frame.buffer_height as int;
    lemma_fraction(frame.crop.left as int, w);
    lemma_fraction(frame.crop.top as int, h);
    lemma_fraction(frame.crop.right - frame.crop.left, w);
    lemma_fraction(frame.crop.bottom - frame.crop.top, h);
}

proof fn lemma_fraction(part: int, whole: int)
    requires
        0 <= part <= whole,
        1 <= whole < 0x100_0000,
    ensures
        rounded(
            quotient(integer_value(part), integer_value(whole)).value(),
            part as real / whole as real,
        ),
{
    law_a_share_is_a_fraction(part, whole, quotient(integer_value(part), integer_value(whole)));
}

/// What a frame says of its matrix and range counts before what its buffer
/// suggests, and different matrices and ranges are sampled differently.
pub proof fn law_the_frame_decides_how_it_is_sampled(
    a: AhbProperties,
    b: AhbProperties,
    matrix: MatrixCoefficients,
    other: MatrixCoefficients,
    range: ColorRange,
)
    ensures
        !(matrix is Unspecified) ==> model_of(a, matrix) == model_of(b, matrix),
        model_of(a, MatrixCoefficients::Unspecified) == a.suggested_model,
        !(matrix is Unspecified) && !(other is Unspecified) && matrix != other ==> model_of(
            a,
            matrix,
        ) != model_of(a, other),
        !(range is Unspecified) ==> range_of(a, range) == range_of(b, range),
        range_of(a, ColorRange::Unspecified) == a.suggested_range,
        range_of(a, ColorRange::Limited) != range_of(a, ColorRange::Full),
        a.format_features == b.format_features ==> filter_of(a) == filter_of(b),
{
}

/// A conversion draws once, onto the whole of its target: viewport and scissor
/// have the size of the pass, and everything that the draw needs is bound before
/// it, inside the pass. What the last barrier waits for is what the first one
/// lets in.
pub proof fn law_a_conversion_draws_the_whole_target(queue_family: u32, width: u32, height: u32)
    ensures
        ({
            let all = recorded(queue_family, width, height);
            &&& all.len() == 10
            &&& all[1] == ConversionCommand::BeginRenderPass { width, height }
            &&& all[2] == ConversionCommand::SetViewport { width, height }
            &&& all[3] == ConversionCommand::SetScissor { width, height }
            &&& all[8] is EndRenderPass
            &&& forall|k: int| 0 <= k < 10 ==> ((#[trigger] all[k]) is Draw <==> k == 7)
            &&& all[7] == ConversionCommand::Draw { vertices: 3 }
            &&& exists|k: int| 1 < k < 7 && (#[trigger] all[k]) is BindPipeline
            &&& exists|k: int| 1 < k < 7 && (#[trigger] all[k]) is BindDescriptorSet
            &&& exists|k: int| 1 < k < 7 && (#[trigger] all[k]) is PushCropTransform
        }),
        acquire(queue_family).dst_stage == release(queue_family).src_stage,
        acquire(queue_family).dst_access == release(queue_family).src_access,
        acquire(queue_family).dst_family == queue_family,
        acquire(queue_family).src_family != queue_family || queue_family == 0xffff_fffd,
        acquire(queue_family).src_access == 0,
        release(queue_family).dst_access == 0,
{
    let all = recorded(queue_family, width, height);
    assert(all[4] is BindPipeline);
    assert(all[5] is BindDescriptorSet);
    assert(all[6] is PushCropTransform);
}

/// Tables are told apart by their gamuts: primaries that differ once they are
/// resolved have different numbers.
pub proof fn law_gamuts_are_told_apart(a: ColorPrimaries, b: ColorPrimaries)
    ensures
        primaries_number(a) == primaries_number(b) <==> resolved_primaries(a)
            == resolved_primaries(b),
{
}

} // verus!
