//! What choices, checks and measures promise.
use crate::android_device::{missing, needed_extensions, rank, smallest_limit, AdapterKind};
use crate::artcnn::{
    first_weights, last_weights, le_u32, middle_weights, mode_features, mode_slices, parse_outcome,
    payload_len, ArtCnnModel, BLOB_HEADER_BYTES, BLOB_MAGIC, BLOB_VERSION,
};
use crate::artcnn_policy::{digit_value, digits_value, ArtCnnBackendOverride};
use crate::danmaku_buffers::{
    atlas_step, DanmakuAlphaAtlasCache, DanmakuAtlasStep, DanmakuGlyphAtlas,
};
use crate::error::PlayerError;
use crate::float::F32;
use crate::gamut::GamutLutParams;
use crate::hdr::usable;
use crate::metal_upscaler::{chosen, LumaUpscaler, UpscalerBackend};
use crate::modes::LumaUpscalerMode;
use crate::overlay::SubtitleAlphaBitmap;
use crate::pipeline::{needs_tone_map, target_black, ToneMapConfig, VideoRenderPipeline};
use crate::presentation::PresentationLayout;
use crate::source::DoviSourceMetadata;
use crate::text::decimal;
use vstd::prelude::*;

verus! {

/// Numbers in a blob have their least significant byte first: one more in a byte
/// is one more of its power of 256.
pub proof fn law_blobs_are_little_endian(a: Seq<u8>, b: Seq<u8>, offset: int, k: int)
    requires
        0 <= k < 4,
        b[offset + k] == a[offset + k] + 1,
        forall|j: int| 0 <= j < 4 && j != k ==> #[trigger] b[offset + j] == a[offset + j],
    ensures
        le_u32(b, offset) - le_u32(a, offset) == if k == 0 {
            1int
        } else if k == 1 {
            0x100
        } else if k == 2 {
            0x1_0000
        } else {
            0x100_0000
        },
{
    assert(b[offset + 0] == a[offset + 0] || k == 0);
    assert(b[offset + 1] == a[offset + 1] || k == 1);
    assert(b[offset + 2] == a[offset + 2] || k == 2);
    assert(b[offset + 3] == a[offset + 3] || k == 3);
}

/// A blob is taken for what it says it is, and every byte behind its header
/// belongs to the network, in its order.
pub proof fn law_a_model_is_its_blob(
    mode: LumaUpscalerMode,
    blob: Seq<u8>,
    model: ArtCnnModel<'_>,
)
    requires
        parse_outcome(mode, blob, Ok(model)),
    ensures
        !(mode is Off),
        le_u32(blob, 0) == BLOB_MAGIC,
        le_u32(blob, 4) == BLOB_VERSION,
        le_u32(blob, 8) == mode_features(mode),
        le_u32(blob, 12) == 0,
        model.mode == mode,
        model.payload@.len() == blob.len() - BLOB_HEADER_BYTES,
        model.payload@.len() == 8 * payload_len(mode_slices(mode)),
        forall|k: int|
            0 <= k < model.payload@.len() ==> #[trigger] model.payload@[k]
                == blob[BLOB_HEADER_BYTES + k],
{
}

/// A blob that is what its mode needs is taken: no sound blob is refused.
pub proof fn law_sound_blobs_are_taken(
    mode: LumaUpscalerMode,
    blob: Seq<u8>,
    model: Result<ArtCnnModel<'_>, PlayerError>,
)
    requires
        parse_outcome(mode, blob, model),
        !(mode is Off),
        le_u32(blob, 0) == BLOB_MAGIC,
        le_u32(blob, 4) == BLOB_VERSION,
        le_u32(blob, 8) == mode_features(mode),
        le_u32(blob, 12) == 0,
        blob.len() == BLOB_HEADER_BYTES + 8 * payload_len(mode_slices(mode)),
    ensures
        model is Ok,
{
    crate::artcnn::lemma_payload_bounds(mode_slices(mode));
}

/// The layers have the weights that convolutions of three by three pixels need:
/// from luma to the features, from the features to themselves, and from the
/// features to the four pixels that one becomes, four numbers in a group.
pub proof fn law_layers_have_their_weights(slices: int)
    requires
        0 <= slices,
    ensures
        ({
            let features = 4 * slices;
            &&& 4 * first_weights(slices) == 9 * features
            &&& 4 * middle_weights(slices) == 9 * (features * features)
            &&& 4 * last_weights(slices) == 9 * features * 4
            &&& 4 * payload_len(slices) == 4 * (first_weights(slices) + 5 * middle_weights(slices)
                + last_weights(slices)) + 6 * features + 4
        }),
{
    let features = 4 * slices;
    assert(features * features == 16 * (slices * slices)) by (nonlinear_arith)
        requires
            features == 4 * slices,
    ;
    assert(slices * 9 * slices * 4 == 36 * (slices * slices)) by (nonlinear_arith);
}

/// The kernels that are asked for are the ones that are chosen; left to itself,
/// the choice falls on the matrix kernels exactly where the device has them and
/// they have not failed, and only then is a failure made up for.
pub proof fn law_kernels_are_chosen_as_asked(
    request: Option<ArtCnnBackendOverride>,
    device_has_matrix: bool,
    failed: bool,
)
    ensures
        !chosen(UpscalerBackend::Scalar, request, device_has_matrix, failed).matmul,
        chosen(UpscalerBackend::SimdgroupMatrix, request, device_has_matrix, failed).matmul,
        request matches Some(wanted) ==> {
            let choice = chosen(UpscalerBackend::Auto, request, device_has_matrix, failed);
            choice.matmul == (wanted is Matrix) && !choice.fallback_to_scalar
        },
        request is None ==> {
            let choice = chosen(UpscalerBackend::Auto, request, device_has_matrix, failed);
            choice.matmul == (device_has_matrix && !failed) && choice.fallback_to_scalar
        },
        !chosen(UpscalerBackend::Scalar, request, device_has_matrix, failed).fallback_to_scalar,
        !chosen(
            UpscalerBackend::SimdgroupMatrix,
            request,
            device_has_matrix,
            failed,
        ).fallback_to_scalar,
{
}

/// What is reported of the luma doubler is what it has: the kernels that are
/// ready, else the build that is under way.
pub proof fn law_the_doubler_reports_what_it_has(upscaler: LumaUpscaler)
    requires
        upscaler.wf(),
    ensures
        upscaler.status() is Off <==> upscaler.mode is Off,
        upscaler.status() is SimdgroupMatrix <==> upscaler.resources is Some
            && upscaler.resources.unwrap().build.matmul,
        upscaler.status() is Scalar <==> upscaler.resources is Some
            && !upscaler.resources.unwrap().build.matmul,
        upscaler.status() is Building <==> upscaler.resources is None && upscaler.pending is Some,
{
}

/// The limit of four is none above any of them that is at least one, and one of
/// them, but never nothing.
pub proof fn law_the_smallest_limit_holds(limits: Seq<u32>, k: int)
    requires
        limits.len() == 4,
        0 <= k < 4,
    ensures
        smallest_limit(limits) >= 1,
        limits[k] >= 1 ==> smallest_limit(limits) <= limits[k],
        smallest_limit(limits) == 1 || limits.contains(smallest_limit(limits)),
{
    assert(k == 0 || k == 1 || k == 2 || k == 3);
    let least = smallest_limit(limits);
    if least > 1 {
        assert(limits[0] == least || limits[1] == least || limits[2] == least || limits[3]
            == least);
    }
}

/// Adapters of their own come first, processors last, and no two kinds share a
/// place.
pub proof fn law_adapters_are_ranked(a: AdapterKind, b: AdapterKind)
    ensures
        rank(a) == rank(b) <==> a == b,
        !(a is Discrete) ==> rank(AdapterKind::Discrete) < rank(a),
        !(a is Cpu) ==> rank(a) < rank(AdapterKind::Cpu),
        rank(AdapterKind::Integrated) < rank(AdapterKind::Virtual),
        rank(AdapterKind::Virtual) < rank(AdapterKind::Other),
{
}

/// Exactly the needed extensions that are not available are missing, in their
/// order.
pub proof fn law_missing_extensions_are_named(
    needed: Seq<Seq<char>>,
    available: Seq<Seq<char>>,
    name: Seq<char>,
)
    ensures
        missing(needed, available).contains(name) <==> needed.contains(name)
            && !available.contains(name),
        missing(needed, available).len() <= needed.len(),
    decreases needed.len(),
{
    if needed.len() > 0 {
        let rest = needed.drop_last();
        law_missing_extensions_are_named(rest, available, name);
        let all = missing(needed, available);
        let before = missing(rest, available);
        if needed.contains(name) {
            let k = choose|k: int| 0 <= k < needed.len() && needed[k] == name;
            if k < rest.len() {
                assert(rest[k] == name);
            }
        }
        if rest.contains(name) {
            let k = choose|k: int| 0 <= k < rest.len() && rest[k] == name;
            assert(needed[k] == name);
        }
        if before.contains(name) {
            let k = choose|k: int| 0 <= k < before.len() && before[k] == name;
            assert(all[k] == name);
        }
        if !available.contains(needed.last()) {
            assert(all[all.len() - 1] == needed.last());
            assert(needed[needed.len() - 1] == needed.last());
        }
        if all.contains(name) {
            let k = choose|k: int| 0 <= k < all.len() && all[k] == name;
            if k < before.len() {
                assert(before[k] == name);
            } else {
                assert(name == needed.last());
                assert(needed[needed.len() - 1] == name);
            }
        }
    }
}

/// A newer device needs no extension that an older one does not.
pub proof fn law_newer_devices_need_less(older: u32, newer: u32)
    requires
        older <= newer,
    ensures
        needed_extensions(newer).len() <= needed_extensions(older).len(),
        forall|k: int|
            0 <= k < needed_extensions(newer).len() ==> #[trigger] needed_extensions(newer)[k]
                == needed_extensions(older)[k],
        needed_extensions(newer).len() >= 2,
{
}

/// The bytes of a mask reach from its first pixel to its last: every pixel lies
/// in them, and the last one lies at their end.
pub proof fn law_masks_reach_to_their_last_pixel(bitmap: SubtitleAlphaBitmap, row: int, col: int)
    requires
        0 <= row < bitmap.placement.height,
        0 <= col < bitmap.placement.width,
    ensures
        0 <= row * bitmap.stride + col < bitmap.needed(),
        row == bitmap.placement.height - 1 && col == bitmap.placement.width - 1 ==> row
            * bitmap.stride + col + 1 == bitmap.needed(),
{
    let h = bitmap.placement.height as int;
    let s = bitmap.stride as int;
    assert(0 <= row * s && row * s <= (h - 1) * s) by (nonlinear_arith)
        requires
            0 <= row <= h - 1,
            0 <= s,
    ;
}

/// The bytes of an atlas reach from its first pixel to its last.
pub proof fn law_atlases_reach_to_their_last_pixel(atlas: DanmakuGlyphAtlas, row: int, col: int)
    requires
        0 <= row < atlas.height,
        0 <= col < atlas.width,
    ensures
        0 <= row * atlas.stride + col < atlas.needed(),
        row == atlas.height - 1 && col == atlas.width - 1 ==> row * atlas.stride + col + 1
            == atlas.needed(),
        atlas.valid() ==> row * atlas.stride + col < atlas.fill_alpha@.len(),
        atlas.valid() ==> row * atlas.stride + col < atlas.outline_alpha@.len(),
{
    let h = atlas.height as int;
    let s = atlas.stride as int;
    assert(0 <= row * s && row * s <= (h - 1) * s) by (nonlinear_arith)
        requires
            0 <= row <= h - 1,
            0 <= s,
    ;
}

/// A cached atlas is used as it is only in its own version and shape, and changed
/// in part only from the version that the change starts from, in the same shape;
/// all else is uploaded anew.
pub proof fn law_cached_atlases_are_never_mixed(
    cache: Option<DanmakuAlphaAtlasCache>,
    atlas: DanmakuGlyphAtlas,
)
    ensures
        atlas_step(cache, atlas) is Reuse <==> cache is Some && cache.unwrap().version
            == atlas.version && cache.unwrap().width == atlas.width && cache.unwrap().height
            == atlas.height && cache.unwrap().stride == atlas.stride,
        atlas_step(cache, atlas) matches DanmakuAtlasStep::Update(update) ==> {
            &&& cache is Some
            &&& atlas.update == Some(update)
            &&& update.from_version == cache.unwrap().version
            &&& cache.unwrap().width == atlas.width
            &&& cache.unwrap().height == atlas.height
            &&& cache.unwrap().stride == atlas.stride
        },
        cache is None ==> atlas_step(cache, atlas) is Recreate,
{
}

/// A number that is written in decimal is read back as itself.
pub proof fn law_numbers_are_read_back(n: nat)
    ensures
        digits_value(decimal(n)) == Some(n),
    decreases n,
{
    reveal_with_fuel(digits_value, 3);
    let text = decimal(n);
    if n < 10 {
        assert(text.drop_last() =~= Seq::empty());
        assert(digit_value(text.last()) == Some(n));
        assert(digits_value(Seq::empty()) == Some(0nat));
    } else {
        law_numbers_are_read_back(n / 10);
        assert(text.drop_last() =~= decimal(n / 10));
        assert(digit_value(text.last()) == Some(n % 10));
    }
}

/// The surface is told with its width first.
pub proof fn law_the_surface_is_told_width_first(layout: PresentationLayout)
    ensures
        layout.viewport().len() == 4,
        layout.viewport()[0] == layout.drawable_width,
        layout.viewport()[1] == layout.drawable_height,
        layout.viewport()[2].bits == 0,
        layout.viewport()[3].bits == 0,
{
}

/// Codes of zero say nothing: a frame without a peak of its own has its display's,
/// and luminances that are not known are not used.
pub proof fn law_codes_of_zero_say_nothing(dovi: DoviSourceMetadata)
    ensures
        dovi.l1 is None ==> dovi.frame_peak() == dovi.mastering_peak() && dovi.frame_average()
            is None,
        dovi.l1 matches Some(l1) ==> {
            &&& l1.max_pq == 0 ==> dovi.frame_peak() == dovi.mastering_peak()
            &&& l1.max_pq != 0 ==> dovi.frame_peak() == dovi.nits.frame_max
            &&& l1.avg_pq == 0 ==> dovi.frame_average() is None
            &&& l1.avg_pq != 0 && usable(dovi.nits.frame_avg) ==> dovi.frame_average() == Some(
                dovi.nits.frame_avg,
            )
        },
        dovi.source_max_pq != 0 ==> dovi.mastering_peak() == dovi.nits.source_max,
        dovi.source_max_pq == 0 ==> dovi.mastering_peak().bits == 0,
        dovi.source_min_pq == 0 ==> dovi.black() is None,
        dovi.black() matches Some(black) ==> black == dovi.nits.source_min && black.finite(),
{
}

/// A parameter that is configured counts; without one, all configurations of one
/// operator have the same.
pub proof fn law_configured_parameters_count(a: ToneMapConfig, b: ToneMapConfig)
    requires
        a.curve_param.finite(),
        b.curve_param.finite(),
    ensures
        a.curve_param.value() > 0 as real ==> a.param() == a.curve_param,
        a.curve_param.value() <= 0 as real && b.curve_param.value() <= 0 as real && a.operator
            == b.operator ==> a.param() == b.param(),
{
    let zero = F32 { bits: 0 };
    crate::accuracy::lemma_zero_and_one();
    crate::accuracy::lemma_order_of_values(zero, a.curve_param);
    crate::accuracy::lemma_order_of_values(zero, b.curve_param);
}

/// The tone curve is told its parameter, the scene's average, and the target's
/// black exactly where tones are mapped.
pub proof fn law_black_counts_where_tones_are_mapped(pipeline: VideoRenderPipeline)
    ensures
        pipeline.extra().len() == 4,
        pipeline.extra()[0] == pipeline.tone_map.param(),
        pipeline.extra()[1] == pipeline.source.scene_average(),
        needs_tone_map(pipeline.source, pipeline.target) ==> pipeline.extra()[2] == target_black(
            pipeline.target,
            pipeline.tone_map.contrast_ratio,
        ),
        !needs_tone_map(pipeline.source, pipeline.target) ==> pipeline.extra()[2].bits == 0,
        pipeline.extra()[3].bits == 0,
{
}

/// Tables are alike in both directions, and each is like itself.
pub proof fn law_tables_are_alike_both_ways(a: GamutLutParams, b: GamutLutParams)
    ensures
        a.alike(b) == b.alike(a),
        !a.min_luma.nan() && !a.max_luma.nan() ==> a.alike(a),
        a.alike(b) ==> a.source == b.source && a.target == b.target,
        a.source != b.source || a.target != b.target ==> !a.alike(b),
{
}

} // verus!
