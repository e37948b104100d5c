//! What the choices between formats, memory types and sizes promise.
use crate::accuracy::{
    lemma_nearest_is_close, lemma_one_half, lemma_order_of_values, lemma_whole_value,
    lemma_zero_and_one, size_of,
};
use crate::android_convert::{
    compatible, filter_of, first_compatible, format_fault, local_type, model_of, parameters_fault,
    range_of, type_count, AhbProperties,
};
use crate::artcnn::mode_features;
use crate::artcnn_policy::default_block;
use crate::color::{ColorRange, MatrixCoefficients, TransferFunction};
use crate::danmaku_buffers::{fitting_capacity, is_first_free, reusable, slot_at, CommandStatus};
use crate::float::{
    lemma_constants_are_what_they_say, F32, HALF_BITS, HUNDRED_BITS, ONE_BITS, THOUSAND_BITS,
    TWO_HUNDRED_THREE_BITS,
};
use crate::gamut::{
    in_lattice, lattice_index, LatticePoint, LUT_SIZE_C, LUT_SIZE_H, LUT_SIZE_I, LUT_TEXELS,
};
use crate::half::law_levels_are_monotonic;
use crate::metal_frame::{capped_sum, sum_of};
use crate::metal_planes::{core_video_format, ImportedVideoFormat};
use crate::modes::{LumaUpscalerMode, ToneMapOperator};
use crate::overlay::{atlas_pixel, cursor, drawn_height, SubtitleAlphaBitmap};
use crate::overlay_cache::{alpha_hash, row_end, row_present, row_start};
use crate::overlay_laws::{law_bitmaps_do_not_overlap, law_padding_does_not_matter};
use crate::pipeline::{default_param, needs_gamut_map, needs_tone_map, VideoRenderPipeline};
use crate::source::{at_least_one, transfer_peak, transfer_white};
use crate::texels::{captured, channel, le_u16, MetalDrawablePixelFormat};
use crate::text::{decimal, hexadecimal, signed_decimal};
use vstd::arithmetic::power2::{
    lemma_pow2_adds, lemma_pow2_pos, lemma_pow2_strictly_increases, pow2,
};
use vstd::prelude::*;

verus! {

/// A buffer may use the memory types whose bits are set, and a type lies on the
/// device where its lowest flag is set.
pub proof fn law_memory_types_are_bits(flags: Seq<u32>, bits: u32, i: u32)
    requires
        i < 32,
        i < flags.len(),
    ensures
        compatible(bits, i as int) <==> (bits >> i) % 2 == 1,
        local_type(flags, bits, i as int) <==> (bits >> i) % 2 == 1 && flags[i as int] % 2 == 1,
{
    assert(bits & (1u32 << i) != 0 <==> (bits >> i) % 2 == 1) by (bit_vector)
        requires
            i < 32,
    ;
    let flag = flags[i as int];
    assert(flag & 0x1 == 0x1 <==> flag % 2 == 1) by (bit_vector);
}

/// There is one first memory type, and no more types are looked at than a mask
/// has bits or the device has types.
pub proof fn law_one_memory_type_is_first(bits: u32, i: int, j: int, count: u32)
    requires
        0 <= i,
        0 <= j,
        first_compatible(bits, i),
        first_compatible(bits, j),
    ensures
        i == j,
        type_count(count) <= 32,
        type_count(count) <= count,
        count <= 32 ==> type_count(count) == count,
{
    assert(i < j ==> !compatible(bits, i));
    assert(j < i ==> !compatible(bits, j));
}

/// A matrix or a range that is specified is converted as such, whatever the
/// buffer suggests, and no two are converted alike. What is unspecified is
/// converted as the buffer suggests.
pub proof fn law_conversions_follow_what_is_specified(
    a: AhbProperties,
    b: AhbProperties,
    matrix: MatrixCoefficients,
    other: MatrixCoefficients,
    range: ColorRange,
    another: ColorRange,
)
    ensures
        !(matrix is Unspecified) && !(other is Unspecified) ==> (model_of(a, matrix) == model_of(
            b,
            other,
        ) <==> matrix == other),
        !(range is Unspecified) && !(another is Unspecified) ==> (range_of(a, range) == range_of(
            b,
            another,
        ) <==> range == another),
        matrix is Unspecified ==> model_of(a, matrix) == a.suggested_model,
        range is Unspecified ==> range_of(a, range) == a.suggested_range,
        !(matrix is Unspecified) && !(range is Unspecified) ==> parameters_fault(
            a,
            range,
            matrix,
        ) is None,
{
}

/// A device that offers more can do what one that offers less can: a buffer that
/// can be sampled still can where the format has further features, and chroma is
/// not filtered worse.
pub proof fn law_more_features_do_no_harm(less: AhbProperties, more: AhbProperties)
    requires
        more.format_features & less.format_features == less.format_features,
        more == (AhbProperties { format_features: more.format_features, ..less }),
    ensures
        format_fault(less) is None ==> format_fault(more) is None,
        filter_of(less) <= filter_of(more),
        0 <= filter_of(more) <= 1,
{
    let f = less.format_features;
    let g = more.format_features;
    assert(f & 0x1 == 0x1 ==> g & 0x1 == 0x1) by (bit_vector)
        requires
            g & f == f,
    ;
    assert(f & 0x80_0000 == 0x80_0000 ==> g & 0x80_0000 == 0x80_0000) by (bit_vector)
        requires
            g & f == f,
    ;
    assert(f & 0x2_0000 == 0x2_0000 ==> g & 0x2_0000 == 0x2_0000) by (bit_vector)
        requires
            g & f == f,
    ;
    assert(f & 0x4_0000 == 0x4_0000 ==> g & 0x4_0000 == 0x4_0000) by (bit_vector)
        requires
            g & f == f,
    ;
}

/// A buffer that passes has memory, a type to keep it in and a format of its
/// own, its samples can be read, and its chroma lies on a sample or between two.
pub proof fn law_sampled_buffers_are_sound(properties: AhbProperties)
    requires
        format_fault(properties) is None,
    ensures
        properties.allocation_size > 0,
        properties.memory_type_bits != 0,
        properties.external_format != 0,
        properties.format_features % 2 == 1,
        0 <= properties.suggested_x_chroma_offset <= 1,
        0 <= properties.suggested_y_chroma_offset <= 1,
{
    let f = properties.format_features;
    assert(f & 0x1 == 0x1 ==> f % 2 == 1) by (bit_vector);
}

/// Core Video's formats are told apart: those of equal depth and range are the
/// same, and every depth is known in both ranges.
pub proof fn law_core_video_formats_are_told_apart(
    a: u32,
    b: u32,
    format: ImportedVideoFormat,
    full: bool,
)
    ensures
        core_video_format(a) is Some && core_video_format(a) == core_video_format(b) ==> a == b,
        exists|code: u32| core_video_format(code) == Some((format, full)),
{
    assert(core_video_format(0x7834_3230) == Some((ImportedVideoFormat::P010, false)));
    assert(core_video_format(0x7866_3230) == Some((ImportedVideoFormat::P010, true)));
    assert(core_video_format(0x3432_3076) == Some((ImportedVideoFormat::Nv12, false)));
    assert(core_video_format(0x3432_3066) == Some((ImportedVideoFormat::Nv12, true)));
}

/// A transfer function's peak is its white where the range is standard and above
/// its white where it is high, and both are higher in high range.
pub proof fn law_high_range_reaches_above_white(standard: TransferFunction, high: TransferFunction)
    requires
        high is Pq || high is Hlg,
        !(standard is Pq || standard is Hlg),
    ensures
        transfer_peak(standard).value() == transfer_white(standard).value(),
        transfer_peak(high).value() > transfer_white(high).value(),
        transfer_white(high).value() > transfer_white(standard).value(),
{
    lemma_constants_are_what_they_say();
    lemma_whole_value(F32 { bits: HUNDRED_BITS }, 100);
    lemma_whole_value(F32 { bits: TWO_HUNDRED_THREE_BITS }, 203);
    lemma_whole_value(F32 { bits: THOUSAND_BITS }, 1000);
}

/// A luminance is raised to one where it is below, and else left as it is.
pub proof fn law_luminances_are_at_least_one(nits: F32)
    requires
        nits.finite(),
    ensures
        at_least_one(nits).finite(),
        at_least_one(nits).value() >= 1 as real,
        at_least_one(nits).value() == if nits.value() > 1 as real {
            nits.value()
        } else {
            1 as real
        },
{
    lemma_zero_and_one();
    lemma_order_of_values(F32 { bits: ONE_BITS }, nits);
}

/// Sizes add up, whichever come first, and a counter holds as much of a sum as
/// it can.
pub proof fn law_sizes_add_up(a: Seq<u64>, b: Seq<u64>)
    ensures
        sum_of(a + b) == sum_of(a) + sum_of(b),
        sum_of(a + b) == sum_of(b + a),
        capped_sum(sum_of(a)) <= capped_sum(sum_of(a + b)),
        sum_of(a + b) <= u64::MAX ==> capped_sum(sum_of(a + b)) == sum_of(a) + sum_of(b),
        sum_of(a + b) > u64::MAX ==> capped_sum(sum_of(a + b)) == u64::MAX,
{
    lemma_sum_of(a, b);
    lemma_sum_of(b, a);
    lemma_sum_is_positive(a);
    lemma_sum_is_positive(b);
}

proof fn lemma_sum_of(a: Seq<u64>, b: Seq<u64>)
    ensures
        sum_of(a + b) == sum_of(a) + sum_of(b),
    decreases b.len(),
{
    if b.len() == 0 {
        assert(a + b =~= a);
    } else {
        lemma_sum_of(a, b.drop_last());
        assert((a + b).drop_last() =~= a + b.drop_last());
        assert((a + b).last() == b.last());
    }
}

proof fn lemma_sum_is_positive(a: Seq<u64>)
    ensures
        sum_of(a) >= 0,
    decreases a.len(),
{
    if a.len() > 0 {
        lemma_sum_is_positive(a.drop_last());
    }
}

/// A thread holds as many features whatever network it runs: the wider the
/// network, the fewer pixels.
pub proof fn law_threads_hold_as_many_features(a: LumaUpscalerMode, b: LumaUpscalerMode)
    requires
        !(a is Off),
        !(b is Off),
    ensures
        default_block(a).0 * default_block(a).1 * mode_features(a) == default_block(b).0
            * default_block(b).1 * mode_features(b),
        default_block(a).0 >= default_block(a).1 >= 1,
{
    lemma_block_features(a);
    lemma_block_features(b);
}

proof fn lemma_block_features(mode: LumaUpscalerMode)
    requires
        !(mode is Off),
    ensures
        default_block(mode).0 * default_block(mode).1 * mode_features(mode) == 64,
{
    let w = default_block(mode).0 as int;
    let h = default_block(mode).1 as int;
    let n = mode_features(mode);
    assert(w * h * n == 64) by (nonlinear_arith)
        requires
            w == 2 && h == 2 && n == 16 || w == 2 && h == 1 && n == 32,
    ;
}

/// A length has one fitting capacity, and a longer one none that is smaller.
pub proof fn law_a_length_has_one_capacity(len: int, longer: int, a: int, b: int)
    requires
        len <= longer,
        fitting_capacity(len, a),
        fitting_capacity(longer, b),
    ensures
        a <= b,
        len == longer ==> a == b,
{
    let e = choose|e: nat| a == #[trigger] pow2(e);
    let f = choose|f: nat| b == #[trigger] pow2(f);
    lemma_next_power(e, f);
    lemma_next_power(f, e);
}

/// A larger power of two is at least twice as large.
proof fn lemma_next_power(e: nat, f: nat)
    ensures
        pow2(e) < pow2(f) ==> 2 * pow2(e) <= pow2(f),
{
    if e < f {
        lemma_pow2_adds(1, e);
        vstd::arithmetic::power2::lemma2_to64();
        if e + 1 < f {
            lemma_pow2_strictly_increases(e + 1, f);
        }
    } else if f < e {
        lemma_pow2_strictly_increases(f, e);
    }
    lemma_pow2_pos(e);
}

/// The atlas is as tall as the tallest bitmap that is drawn, and no taller.
pub proof fn law_the_atlas_is_as_tall_as_needed(bitmaps: Seq<SubtitleAlphaBitmap>)
    ensures
        forall|i: int|
            0 <= i < bitmaps.len() && (#[trigger] bitmaps[i]).drawn() ==> bitmaps[i].h()
                <= drawn_height(bitmaps),
        drawn_height(bitmaps) == 0 || exists|i: int|
            0 <= i < bitmaps.len() && (#[trigger] bitmaps[i]).drawn() && bitmaps[i].h()
                == drawn_height(bitmaps),
    decreases bitmaps.len(),
{
    if bitmaps.len() > 0 {
        let rest = bitmaps.drop_last();
        law_the_atlas_is_as_tall_as_needed(rest);
        assert forall|i: int|
            0 <= i < bitmaps.len() && (#[trigger] bitmaps[i]).drawn() implies bitmaps[i].h()
            <= drawn_height(bitmaps) by {
            if i < rest.len() {
                assert(rest[i] == bitmaps[i]);
            }
        }
        if drawn_height(bitmaps) != 0 {
            if drawn_height(bitmaps) == drawn_height(rest) {
                let i = choose|i: int|
                    0 <= i < rest.len() && (#[trigger] rest[i]).drawn() && rest[i].h()
                        == drawn_height(rest);
                assert(bitmaps[i] == rest[i]);
            } else {
                assert(bitmaps[bitmaps.len() - 1] == bitmaps.last());
            }
        }
    }
}

/// The search for a free buffer starts at the cursor, goes on one by one, and
/// comes to each buffer once.
pub proof fn law_the_search_comes_to_each_buffer(cursor: int, a: int, b: int, count: int)
    requires
        0 <= cursor < count,
        0 <= a < count,
        0 <= b < count,
    ensures
        slot_at(cursor, 0, count) == cursor,
        0 <= slot_at(cursor, a, count) < count,
        slot_at(cursor, a, count) + 1 < count ==> slot_at(cursor, a + 1, count) == slot_at(
            cursor,
            a,
            count,
        ) + 1,
        slot_at(cursor, a, count) + 1 == count ==> slot_at(cursor, a + 1, count) == 0,
        slot_at(cursor, a, count) == slot_at(cursor, b, count) ==> a == b,
{
    lemma_wrapped(cursor + a, count);
    lemma_wrapped(cursor + b, count);
    lemma_wrapped(cursor + a + 1, count);
    lemma_wrapped(cursor, count);
}

proof fn lemma_wrapped(n: int, count: int)
    requires
        0 <= n <= 2 * count,
        0 < count,
    ensures
        n % count == if n < count {
            n
        } else if n < 2 * count {
            n - count
        } else {
            0
        },
{
    if n >= count {
        vstd::arithmetic::div_mod::lemma_mod_sub_multiples_vanish(n, count);
        if n < 2 * count {
            vstd::arithmetic::div_mod::lemma_small_mod((n - count) as nat, count as nat);
        } else {
            vstd::arithmetic::div_mod::lemma_mod_self_0(count);
        }
    } else {
        vstd::arithmetic::div_mod::lemma_small_mod(n as nat, count as nat);
    }
}

/// The buffer at the cursor is taken where it is free.
pub proof fn law_a_free_buffer_at_the_cursor_is_taken(
    status: Seq<CommandStatus>,
    cursor: int,
    index: int,
)
    requires
        0 <= cursor < status.len(),
        is_first_free(status, cursor, index),
        reusable(status[cursor]),
    ensures
        index == cursor,
{
    law_the_search_comes_to_each_buffer(cursor, 0, 0, status.len() as int);
}

/// The value of a hexadecimal digit.
pub open spec fn hex_digit_value(c: char) -> int {
    if c <= '9' {
        c as int - '0' as int
    } else {
        c as int - 'a' as int + 10
    }
}

/// The value of a hexadecimal numeral.
pub open spec fn hex_value(text: Seq<char>) -> int
    decreases text.len(),
{
    if text.len() == 0 {
        0
    } else {
        16 * hex_value(text.drop_last()) + hex_digit_value(text.last())
    }
}

/// Hexadecimal numerals say their number, without leading zeros.
pub proof fn law_hexadecimal_numbers_are_read_back(n: nat)
    ensures
        hexadecimal(n).len() > 0,
        hex_value(hexadecimal(n)) == n,
        n > 0 ==> hexadecimal(n)[0] != '0',
    decreases n,
{
    reveal_with_fuel(hex_value, 3);
    let text = hexadecimal(n);
    if n < 16 {
        assert(text.drop_last() =~= Seq::empty());
        assert(hex_digit_value(text.last()) == n);
    } else {
        law_hexadecimal_numbers_are_read_back(n / 16);
        assert(text.drop_last() =~= hexadecimal(n / 16));
        assert(hex_digit_value(text.last()) == n % 16);
        assert(text[0] == hexadecimal(n / 16)[0]);
    }
}

/// A numeral has a sign where the number is negative, and nowhere else.
pub proof fn law_negative_numbers_have_a_sign(n: int)
    ensures
        n >= 0 ==> signed_decimal(n) == decimal(n as nat),
        n < 0 ==> signed_decimal(n)[0] == '-' && signed_decimal(n).skip(1) == decimal((-n) as nat),
{
    reveal_strlit("-");
    if n < 0 {
        assert(signed_decimal(n).skip(1) =~= decimal((-n) as nat));
    }
}

/// The table starts with black of no chroma and runs along the intensity: the
/// next chroma is a row further on, the next hue a slice of rows, and the last
/// point fills the table.
pub proof fn law_the_table_runs_along_the_intensity(point: LatticePoint, further: LatticePoint)
    requires
        in_lattice(point),
        in_lattice(further),
    ensures
        further == (LatticePoint { intensity: further.intensity, ..point }) ==> lattice_index(
            further,
        ) - lattice_index(point) == further.intensity - point.intensity,
        further == (LatticePoint { chroma: further.chroma, ..point }) ==> lattice_index(further)
            - lattice_index(point) == LUT_SIZE_I * (further.chroma - point.chroma),
        further == (LatticePoint { hue: further.hue, ..point }) ==> lattice_index(further)
            - lattice_index(point) == LUT_SIZE_I * LUT_SIZE_C * (further.hue - point.hue),
        point.intensity == 0 && point.chroma == 0 && point.hue == 0 ==> lattice_index(point) == 0,
        point.intensity == LUT_SIZE_I - 1 && point.chroma == LUT_SIZE_C - 1 && point.hue
            == LUT_SIZE_H - 1 ==> lattice_index(point) == LUT_TEXELS - 1,
{
    assert(LUT_SIZE_I * LUT_SIZE_C == 1536);
    let steps = further.hue - point.hue;
    assert(LUT_SIZE_I * LUT_SIZE_C * steps == 1536 * steps) by (nonlinear_arith)
        requires
            LUT_SIZE_I * LUT_SIZE_C == 1536,
    ;
}

/// The bitmaps that are drawn stand side by side: the atlas is as wide as they
/// are together, and one that is not drawn takes no room.
pub proof fn law_bitmaps_stand_side_by_side(
    a: Seq<SubtitleAlphaBitmap>,
    b: Seq<SubtitleAlphaBitmap>,
    one: SubtitleAlphaBitmap,
)
    ensures
        cursor(a + b) == cursor(a) + cursor(b),
        one.drawn() ==> cursor(seq![one]) == one.w(),
        !one.drawn() ==> cursor(seq![one]) == 0,
    decreases b.len(),
{
    let single = seq![one];
    assert(single.drop_last() =~= Seq::empty());
    assert(cursor(single.drop_last()) == 0);
    assert(single.last() == one);
    if b.len() == 0 {
        assert(a + b =~= a);
    } else {
        law_bitmaps_stand_side_by_side(a, b.drop_last(), one);
        assert((a + b).drop_last() =~= a + b.drop_last());
        assert((a + b).last() == b.last());
    }
}

/// The atlas is blank below a bitmap that is shorter than the tallest.
pub proof fn law_the_atlas_is_blank_below_its_bitmaps(
    bitmaps: Seq<SubtitleAlphaBitmap>,
    k: int,
    row: int,
    col: int,
)
    requires
        0 <= k < bitmaps.len(),
        bitmaps[k].drawn(),
        row >= bitmaps[k].h(),
        0 <= col < bitmaps[k].w(),
    ensures
        atlas_pixel(bitmaps, row, cursor(bitmaps.take(k)) + col) == 0,
    decreases bitmaps.len(),
{
    let last = bitmaps.len() - 1;
    let rest = bitmaps.drop_last();
    assert(bitmaps.take(last) =~= rest);
    if k < last {
        if bitmaps[last].drawn() {
            law_bitmaps_do_not_overlap(bitmaps, k, last);
        }
        law_the_atlas_is_blank_below_its_bitmaps(rest, k, row, col);
        assert(rest.take(k) =~= bitmaps.take(k));
    }
}

/// The second of two bytes is the more significant: it decides which number is
/// larger, and which of two captured levels is.
pub proof fn law_the_second_byte_weighs_more(a: Seq<u8>, b: Seq<u8>, p: int, c: int)
    requires
        a[8 * p + 2 * c + 1] < b[8 * p + 2 * c + 1] < 0x7c,
    ensures
        le_u16(a, 8 * p + 2 * c) < le_u16(b, 8 * p + 2 * c),
        captured(a, MetalDrawablePixelFormat::Rgba16Float, p, c) <= captured(
            b,
            MetalDrawablePixelFormat::Rgba16Float,
            p,
            c,
        ),
{
    let at = 8 * p + 2 * c;
    law_levels_are_monotonic(le_u16(a, at), le_u16(b, at));
}

/// A texel's channels keep their order, and its fourth is the one that all
/// texels share.
pub proof fn law_the_fourth_channel_is_shared(a: [F32; 3], b: [F32; 3], alpha: F32, c: int)
    requires
        0 <= c < 4,
    ensures
        channel(a, alpha, 3) == channel(b, alpha, 3),
        channel(a, alpha, 3) == alpha,
        c < 3 ==> channel(a, alpha, c) == a@[c],
{
}

/// A frame uses the table where its tones are mapped from one gamut to another:
/// not in standard range, nor between equal primaries, nor where the target is
/// bright enough.
pub proof fn law_the_table_maps_tones_between_gamuts(pipeline: VideoRenderPipeline)
    ensures
        !pipeline.source.hdr() ==> !pipeline.uses_lut(),
        pipeline.source.primaries == pipeline.target.primaries ==> !pipeline.uses_lut(),
        !needs_tone_map(pipeline.source, pipeline.target) ==> !pipeline.uses_lut(),
        !needs_gamut_map(pipeline.source, pipeline.target) ==> !pipeline.uses_lut(),
        needs_tone_map(pipeline.source, pipeline.target) && !pipeline.uses_lut()
            ==> !needs_gamut_map(pipeline.source, pipeline.target),
{
}

/// A row that a mask holds lies between its start and its end.
proof fn lemma_held_row(bitmap: SubtitleAlphaBitmap, row: int)
    requires
        0 <= row < bitmap.h(),
        0 < bitmap.w(),
        bitmap.needed() <= bitmap.alpha@.len(),
        bitmap.alpha@.len() <= usize::MAX,
    ensures
        row_start(bitmap, row) == row * bitmap.stride,
        row_end(bitmap, row) == row * bitmap.stride + bitmap.w(),
        row_present(bitmap, row),
        row * bitmap.stride >= 0,
{
    let last = bitmap.h() - 1;
    let stride = bitmap.stride as int;
    assert(0 <= row * stride <= last * stride) by (nonlinear_arith)
        requires
            0 <= row <= last,
            0 <= stride,
    ;
}

/// Masks that look alike have the same hash, however wide their rows are in
/// memory and whatever lies between them.
pub proof fn law_masks_that_look_alike_have_the_same_hash(
    a: SubtitleAlphaBitmap,
    b: SubtitleAlphaBitmap,
)
    requires
        a.placement.width == b.placement.width,
        a.placement.height == b.placement.height,
        a.drawn(),
        a.needed() <= a.alpha@.len() <= usize::MAX,
        b.needed() <= b.alpha@.len() <= usize::MAX,
        forall|row: int, col: int|
            0 <= row < a.h() && 0 <= col < a.w() ==> #[trigger] a.mask(row, col) == b.mask(row, col),
    ensures
        alpha_hash(a) == alpha_hash(b),
{
    assert forall|row: int| 0 <= row < a.h() implies (#[trigger] row_present(a, row)) && row_present(
        b,
        row,
    ) && a.alpha@.subrange(row_start(a, row), row_end(a, row)) == b.alpha@.subrange(
        row_start(b, row),
        row_end(b, row),
    ) by {
        lemma_held_row(a, row);
        lemma_held_row(b, row);
        let x = a.alpha@.subrange(row_start(a, row), row_end(a, row));
        let y = b.alpha@.subrange(row_start(b, row), row_end(b, row));
        assert forall|col: int| 0 <= col < a.w() implies x[col] == y[col] by {
            assert(a.mask(row, col) == b.mask(row, col));
        }
        assert(x =~= y);
    }
    law_padding_does_not_matter(a, b);
}

/// An operator's own parameter, in tenths: all of it for the operators that cut
/// or follow BT.2390, none for BT.2446, and a share between for the others.
pub proof fn law_operators_have_their_own_parameters(operator: ToneMapOperator)
    ensures
        ({
            let tenths: int = match operator {
                ToneMapOperator::Bt2446a => 0,
                ToneMapOperator::Mobius => 3,
                ToneMapOperator::Spline => 3,
                ToneMapOperator::Reinhard => 5,
                ToneMapOperator::St209410 => 7,
                ToneMapOperator::Clip => 10,
                ToneMapOperator::Bt2390 => 10,
            };
            let param = default_param(operator);
            &&& param.finite()
            &&& 1_000_000 as real * size_of(param.value() * 10 as real - tenths as real)
                <= 1 as real
        }),
{
    lemma_zero_and_one();
    lemma_nearest_is_close(3, 10, 3 as real / 10 as real);
    lemma_nearest_is_close(7, 10, 7 as real / 10 as real);
    lemma_one_half(F32 { bits: HALF_BITS });
}

} // verus!
