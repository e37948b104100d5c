//! What the colour states of sources and targets mean, in numbers.
use crate::accuracy::{
    lemma_integer_is_close, lemma_is_nearest, lemma_nearest_is_close,
    lemma_order_of_values, lemma_product_is_close, lemma_quotient_is_close, lemma_whole_value,
    lemma_zero_and_one, rounded, size_of,
};
use crate::color::{
    coordinates_of, resolved_matrix, resolved_primaries, transfer_number, ColorPrimaries,
    LumaCoefficients, MatrixCoefficients, TransferFunction,
};
use crate::float::{
    lemma_constants_are_what_they_say, F32, HUNDRED_BITS, ONE_BITS, THOUSAND_BITS,
    TWO_HUNDRED_THREE_BITS,
};
use crate::hdr::{usable, HdrMetadata};
use crate::overlay_draw::{ui_linear_white, ui_white};
use crate::pipeline::{needs_gamut_map, needs_tone_map, target_black, VideoRenderPipeline};
use crate::product::{integer_value, nearest_to, product};
use crate::quotient::quotient;
use crate::source::{
    merged_metadata, DoviSourceMetadata, SourceColorState, TargetColorState, ONE_AND_A_HALF_BITS,
};
use crate::uniforms::is_luma;
use vstd::prelude::*;

verus! {

/// The weights of red, green and blue in luma come to one, and green weighs most
/// and blue least, whatever the matrix.
pub proof fn law_luma_weights_come_to_one(row: Seq<F32>, pipeline: VideoRenderPipeline)
    requires
        is_luma(row, pipeline),
    ensures
        row[0].finite() && row[1].finite() && row[2].finite(),
        size_of(row[0].value() + row[1].value() + row[2].value() - 1 as real) * 1_000_000 as real
            <= 1 as real,
        (0 as real) < row[2].value(),
        row[2].value() < row[0].value(),
        row[0].value() < row[1].value(),
        row[1].value() < 1 as real,
{
    let weights = LumaCoefficients { kr: row[0], kg: row[1], kb: row[2] };
    match resolved_matrix(pipeline.source.matrix, pipeline.source.primaries) {
        MatrixCoefficients::Bt601 => {
            lemma_weights(weights, 2990, 5870, 1140);
        },
        MatrixCoefficients::Bt2020NonConstantLuminance => {
            lemma_weights(weights, 2627, 6780, 593);
        },
        _ => {
            lemma_weights(weights, 2126, 7152, 722);
        },
    }
}

#[verifier::spinoff_prover]
proof fn lemma_weights(weights: LumaCoefficients, kr: int, kg: int, kb: int)
    requires
        weights.are(kr, kg, kb),
        kr + kg + kb == 10000,
        10 < kb && kb + 10 < kr && kr + 10 < kg && kg < 9990,
    ensures
        weights.kr.finite() && weights.kg.finite() && weights.kb.finite(),
        size_of(
            weights.kr.value() + weights.kg.value() + weights.kb.value() - 1 as real,
        ) * 1_000_000 as real <= 1 as real,
        (0 as real) < weights.kb.value(),
        weights.kb.value() < weights.kr.value(),
        weights.kr.value() < weights.kg.value(),
        weights.kg.value() < 1 as real,
{
    lemma_tenthousandths(weights.kr, kr);
    lemma_tenthousandths(weights.kg, kg);
    lemma_tenthousandths(weights.kb, kb);
}

#[verifier::spinoff_prover]
proof fn lemma_tenthousandths(value: F32, n: int)
    requires
        crate::product::nearest(value, n, 10000),
        0 <= n <= 10000,
    ensures
        value.finite(),
        10_000_000 as real * size_of(value.value() - n as real / 10000 as real) <= 1 as real,
{
    lemma_is_nearest(value, n, 10000);
    lemma_nearest_is_close(n, 10000, n as real / 10000 as real);
}

/// Sources with the coefficients of their primaries are told apart by them.
pub proof fn law_the_matrix_follows_the_primaries(
    primaries: ColorPrimaries,
    other: ColorPrimaries,
)
    ensures
        (resolved_matrix(MatrixCoefficients::Unspecified, primaries)
            is Bt2020NonConstantLuminance) <==> primaries is Bt2020,
        (resolved_matrix(MatrixCoefficients::Unspecified, primaries) is Bt709) <==> !(
        primaries is Bt2020),
        resolved_matrix(MatrixCoefficients::Bt601, primaries) == resolved_matrix(
            MatrixCoefficients::Bt601,
            other,
        ),
        resolved_matrix(MatrixCoefficients::Bt601, primaries) is Bt601,
{
}

/// Transfer functions are told apart by their numbers; an unknown one passes for
/// that of standard displays.
pub proof fn law_transfer_numbers_are_distinct(a: TransferFunction, b: TransferFunction)
    requires
        transfer_number(a) == transfer_number(b),
    ensures
        a == b || (a is Unknown && b is Srgb) || (a is Srgb && b is Unknown),
{
}

/// The primaries of a colour space lie in the unit square round its white, which
/// is daylight's, and wider spaces reach further: of BT.2020, the red lies
/// further to the right and the green further up than of the others.
pub proof fn law_wider_primaries_reach_further(primaries: ColorPrimaries)
    requires
        resolved_primaries(primaries) != ColorPrimaries::Bt2020,
    ensures
        ({
            let narrow = coordinates_of(primaries);
            let wide = coordinates_of(ColorPrimaries::Bt2020);
            &&& narrow.white == wide.white
            &&& narrow.red.x.value() < wide.red.x.value()
            &&& narrow.green.y.value() < wide.green.y.value()
            &&& wide.blue.y.value() < narrow.blue.y.value()
            &&& narrow.white.x.value() < narrow.red.x.value()
            &&& narrow.white.y.value() < narrow.green.y.value()
            &&& narrow.blue.y.value() < narrow.white.y.value()
        }),
{
    lemma_place(7080);
    lemma_place(7970);
    lemma_place(460);
    lemma_place(6800);
    lemma_place(6900);
    lemma_place(600);
    lemma_place(6400);
    lemma_place(6000);
    lemma_place(3127);
    lemma_place(3290);
}

#[verifier::spinoff_prover]
proof fn lemma_place(n: int)
    requires
        0 <= n <= 10000,
    ensures
        nearest_to(n, 10000).finite(),
        10_000_000 as real * size_of(nearest_to(n, 10000).value() - n as real / 10000 as real)
            <= 1 as real,
{
    lemma_nearest_is_close(n, 10000, n as real / 10000 as real);
}

/// The peak of a source is not above what its mastering display could show, nor
/// above the brightest pixel that it holds, where they are known; and it is one
/// of the two. Levels below ten nits do not count against a display.
pub proof fn law_the_peak_is_the_smaller_bound(hdr: HdrMetadata)
    requires
        hdr.mastering_peak() matches Some(peak) ==> peak.finite(),
    ensures
        ({
            let display = hdr.mastering_peak();
            let level = hdr.content_level();
            let brightest = integer_value(level as int);
            &&& display is None && level == 0 ==> hdr.peak() is None
            &&& display is None && level > 0 ==> hdr.peak() == Some(brightest)
            &&& display is Some && level < 10 ==> hdr.peak() == display
            &&& display is Some && level >= 10 ==> {
                let peak = hdr.peak().unwrap();
                &&& hdr.peak() is Some
                &&& peak.value() <= display.unwrap().value()
                &&& peak.value() <= brightest.value()
                &&& peak == display.unwrap() || peak == brightest
            }
        }),
{
    let brightest = integer_value(hdr.content_level() as int);
    lemma_integer_is_close(hdr.content_level() as int);
    if let Some(display) = hdr.mastering_peak() {
        lemma_order_of_values(brightest, display);
        lemma_order_of_values(display, brightest);
    }
}

/// What a source is known to hold comes from the closest look at it: a measured
/// average counts before the frame's own, and that before the brightest frame's.
pub proof fn law_the_closest_average_counts(a: SourceColorState, b: SourceColorState)
    ensures
        a.measured_scene_avg_nits matches Some(nits) ==> a.scene_average() == nits,
        a.measured_scene_avg_nits is None && a.dovi is Some && a.dovi.unwrap().frame_average()
            is Some ==> a.scene_average() == a.dovi.unwrap().nits.frame_avg,
        a.measured_scene_avg_nits is Some && a.measured_scene_avg_nits == b.measured_scene_avg_nits
            ==> a.scene_average() == b.scene_average(),
        a.measured_scene_avg_nits == b.measured_scene_avg_nits && a.dovi == b.dovi
            && a.hdr_metadata == b.hdr_metadata ==> a.scene_average() == b.scene_average(),
        a.measured_scene_avg_nits is None && (a.dovi matches Some(dovi) ==> dovi.frame_average()
            is None) && a.hdr_metadata is None ==> a.scene_average().bits == 0,
        a.measured_scene_avg_nits is None && (a.dovi matches Some(dovi) ==> dovi.frame_average()
            is None) && a.hdr_metadata is Some && a.hdr_metadata.unwrap().content_light is Some
            && a.hdr_metadata.unwrap().content_light.unwrap().max_frame_average_light_level_nits
            > 0 ==> a.scene_average() == integer_value(
            a.hdr_metadata.unwrap().content_light.unwrap().max_frame_average_light_level_nits
                as int,
        ),
{
}

/// The static peak is the mastering display's, whatever a frame says of itself;
/// only without one does the nominal peak count.
pub proof fn law_the_static_peak_is_the_display_s(a: SourceColorState, b: SourceColorState)
    ensures
        a.hdr_metadata is None ==> a.static_peak() == a.nominal_peak_nits,
        a.hdr_metadata is Some && a.hdr_metadata.unwrap().mastering_display is Some
            && a.hdr_metadata.unwrap().mastering_display.unwrap().max_luminance_nits is Some
            && usable(
            a.hdr_metadata.unwrap().mastering_display.unwrap().max_luminance_nits.unwrap(),
        ) ==> {
            &&& a.static_peak()
                == a.hdr_metadata.unwrap().mastering_display.unwrap().max_luminance_nits.unwrap()
            &&& a.hdr_metadata == b.hdr_metadata ==> a.static_peak() == b.static_peak()
        },
{
}

/// Dynamic metadata adds its luminance bounds to the static metadata and leaves
/// all else as it was.
pub proof fn law_dynamic_metadata_keeps_the_rest(
    metadata: HdrMetadata,
    dovi: DoviSourceMetadata,
)
    ensures
        merged_metadata(Some(metadata), dovi) is Some,
        ({
            let merged = merged_metadata(Some(metadata), dovi).unwrap();
            let display = merged.mastering_display.unwrap();
            &&& merged.content_light == metadata.content_light
            &&& merged.mastering_display is Some
            &&& metadata.mastering_display matches Some(before) ==> {
                &&& display.display_primaries == before.display_primaries
                &&& display.white_point == before.white_point
                &&& dovi.black() is None ==> display.min_luminance_nits
                    == before.min_luminance_nits
                &&& !usable(dovi.mastering_peak()) ==> display.max_luminance_nits
                    == before.max_luminance_nits
            }
            &&& dovi.black() is Some ==> display.min_luminance_nits == dovi.black()
            &&& usable(dovi.mastering_peak()) ==> display.max_luminance_nits == Some(
                dovi.mastering_peak(),
            )
        }),
{
}

/// A source with dynamic metadata has a peak above reference white, unless the
/// frame itself says otherwise; a frame's own peak counts from one nit on.
pub proof fn law_dynamic_metadata_gives_a_peak(source: SourceColorState, dovi: DoviSourceMetadata)
    requires
        source.nominal_peak_nits.finite(),
        dovi.frame_peak().finite(),
    ensures
        source.dynamic_peak(dovi).finite(),
        dovi.frame_peak().value() > 1 as real ==> source.dynamic_peak(dovi) == dovi.frame_peak(),
        (0 as real) < dovi.frame_peak().value() <= 1 as real ==> source.dynamic_peak(dovi).value()
            == 1 as real,
        dovi.frame_peak().value() <= 0 as real ==> source.dynamic_peak(dovi).value() > 203 as real,
        dovi.frame_peak().value() <= 0 as real && source.nominal_peak_nits.value() > 203 as real
            ==> source.dynamic_peak(dovi) == source.nominal_peak_nits,
{
    let zero = F32 { bits: 0 };
    let one = F32 { bits: ONE_BITS };
    let white = F32 { bits: TWO_HUNDRED_THREE_BITS };
    lemma_zero_and_one();
    lemma_constants_are_what_they_say();
    lemma_whole_value(white, 203);
    lemma_whole_value(F32 { bits: THOUSAND_BITS }, 1000);
    lemma_order_of_values(zero, dovi.frame_peak());
    lemma_order_of_values(one, dovi.frame_peak());
    lemma_order_of_values(white, source.nominal_peak_nits);
}

/// A luminance as displays have them.
pub open spec fn a_luminance(nits: F32) -> bool {
    nits.finite() && 1 as real <= nits.value() <= 1_000_000 as real
}

/// The encoding of one and a half is one and a half.
#[verifier::spinoff_prover]
proof fn lemma_one_and_a_half()
    ensures
        (F32 { bits: ONE_AND_A_HALF_BITS }).finite(),
        (F32 { bits: ONE_AND_A_HALF_BITS }).value() == 3 as real / 2 as real,
{
    crate::accuracy::lemma_half_more(F32 { bits: ONE_AND_A_HALF_BITS });
}

/// A source is of high dynamic range by its transfer function, or by a peak of
/// more than one and a half times its white, and not otherwise.
pub proof fn law_high_dynamic_range_is_above_white(source: SourceColorState)
    requires
        a_luminance(source.nominal_peak_nits),
        a_luminance(source.reference_white_nits),
    ensures
        source.transfer is Pq || source.transfer is Hlg ==> source.hdr(),
        source.nominal_peak_nits.value() >= source.reference_white_nits.value() * (151 as real
            / 100 as real) ==> source.hdr(),
        !(source.transfer is Pq || source.transfer is Hlg)
            && source.nominal_peak_nits.value() <= source.reference_white_nits.value() * (149
            as real / 100 as real) ==> !source.hdr(),
{
    lemma_one_and_a_half();
    let half = F32 { bits: ONE_AND_A_HALF_BITS };
    let w = source.reference_white_nits.value();
    let e = half.value();
    assert(w * e == w + w / 2 as real) by (nonlinear_arith)
        requires
            e == 3 as real / 2 as real,
    ;
    assert(w * (151 as real / 100 as real) == w + w / 2 as real + w / 100 as real && w * (149
        as real / 100 as real) == w + w / 2 as real - w / 100 as real) by (nonlinear_arith);
    lemma_product_is_close(source.reference_white_nits, half);
    lemma_order_of_values(
        product(source.reference_white_nits, half),
        source.nominal_peak_nits,
    );
}

/// A source that the target can show as it is is not tone mapped, and one whose
/// peak is six hundredths above the target's is, as far as it is of high dynamic
/// range.
pub proof fn law_tones_are_mapped_where_the_target_is_darker(
    source: SourceColorState,
    target: TargetColorState,
)
    requires
        a_luminance(source.static_peak()),
        a_luminance(target.peak_nits),
    ensures
        !source.hdr() ==> !needs_tone_map(source, target),
        source.static_peak().value() <= target.peak_nits.value() ==> !needs_tone_map(
            source,
            target,
        ),
        source.static_peak().value() <= target.peak_nits.value() * (104 as real / 100 as real)
            ==> !needs_tone_map(source, target),
        source.hdr() && source.static_peak().value() >= target.peak_nits.value() * (106 as real
            / 100 as real) ==> needs_tone_map(source, target),
{
    lemma_margin(source.static_peak(), target.peak_nits);
}

#[verifier::spinoff_prover]
proof fn lemma_margin(peak: F32, shown: F32)
    requires
        a_luminance(peak),
        a_luminance(shown),
    ensures
        peak.value() <= shown.value() ==> !product(shown, nearest_to(105, 100)).below(peak),
        peak.value() <= shown.value() * (104 as real / 100 as real) ==> !product(
            shown,
            nearest_to(105, 100),
        ).below(peak),
        peak.value() >= shown.value() * (106 as real / 100 as real) ==> product(
            shown,
            nearest_to(105, 100),
        ).below(peak),
{
    let margin = nearest_to(105, 100);
    let exact = 105 as real / 100 as real;
    lemma_nearest_is_close(105, 100, exact);
    let w = shown.value();
    let m = margin.value();
    assert(w * m > w + w / 25 as real && w * m < w + w * 3 as real / 50 as real - w / 1000 as real)
        by (nonlinear_arith)
        requires
            w >= 1 as real,
            1049 as real / (1000 as real) < m,
            m < 1051 as real / 1000 as real,
    ;
    assert(w * (104 as real / 100 as real) == w + w / 25 as real && w * (106 as real / 100 as real)
        == w + w * 3 as real / 50 as real) by (nonlinear_arith);
    assert(w * m > w + w / 25 as real + w / 1000 as real) by (nonlinear_arith)
        requires
            w >= 1 as real,
            1049 as real / (1000 as real) < m,
    ;
    lemma_product_is_close(shown, margin);
    lemma_order_of_values(product(shown, margin), peak);
}

/// Colours are brought from one gamut to another exactly where the two differ,
/// in either direction.
pub proof fn law_gamuts_are_mapped_where_they_differ(
    source: SourceColorState,
    target: TargetColorState,
    back: SourceColorState,
    forth: TargetColorState,
)
    requires
        back.primaries == target.primaries,
        forth.primaries == source.primaries,
    ensures
        needs_gamut_map(source, target) == needs_gamut_map(back, forth),
        source.primaries == target.primaries ==> !needs_gamut_map(source, target),
        source.primaries is Unknown && target.primaries is Bt709 ==> !needs_gamut_map(
            source,
            target,
        ),
        source.primaries != target.primaries && !(source.primaries is Unknown) && !(
        target.primaries is Unknown) ==> needs_gamut_map(source, target),
{
}

/// The black of a standard target is as far below its peak as the contrast ratio
/// says, a thousand without one; targets with true blacks have none.
pub proof fn law_black_times_contrast_is_the_peak(target: TargetColorState, contrast_ratio: F32)
    requires
        a_luminance(target.peak_nits),
        contrast_ratio.finite(),
        contrast_ratio.value() <= 1_000_000 as real,
        contrast_ratio.value() <= 0 as real || contrast_ratio.value() >= 1 as real,
        target.edr_headroom.finite(),
    ensures
        target.transfer is Pq || target.edr_headroom.value() > 1 as real ==> target_black(
            target,
            contrast_ratio,
        ).bits == 0,
        !(target.transfer is Pq) && target.edr_headroom.value() <= 1 as real ==> {
            let black = target_black(target, contrast_ratio).value();
            let ratio: real = if contrast_ratio.value() > 0 as real {
                contrast_ratio.value()
            } else {
                1000 as real
            };
            &&& target_black(target, contrast_ratio).finite()
            &&& 1000 as real * size_of(black * ratio - target.peak_nits.value())
                <= target.peak_nits.value()
        },
{
    let zero = F32 { bits: 0 };
    let one = F32 { bits: ONE_BITS };
    lemma_zero_and_one();
    lemma_constants_are_what_they_say();
    lemma_whole_value(F32 { bits: THOUSAND_BITS }, 1000);
    lemma_order_of_values(one, target.edr_headroom);
    lemma_order_of_values(zero, contrast_ratio);
    let ratio = if zero.below(contrast_ratio) {
        contrast_ratio
    } else {
        F32 { bits: THOUSAND_BITS }
    };
    lemma_share_of_peak(target.peak_nits, ratio);
}

#[verifier::spinoff_prover]
proof fn lemma_share_of_peak(peak: F32, ratio: F32)
    requires
        a_luminance(peak),
        a_luminance(ratio),
    ensures
        quotient(peak, ratio).finite(),
        1000 as real * size_of(quotient(peak, ratio).value() * ratio.value() - peak.value())
            <= peak.value(),
{
    let p = peak.value();
    let r = ratio.value();
    let e = p / r;
    assert(e * r == p && e >= 0 as real && e <= p) by (nonlinear_arith)
        requires
            e == p / r,
            r >= 1 as real,
            p >= 1 as real,
    ;
    lemma_quotient_is_close(peak, ratio, e);
    let q = quotient(peak, ratio).value();
    let off = q - e;
    crate::accuracy::lemma_size_of_product(off, r);
    let so = size_of(off);
    assert(q * r - p == off * r) by (nonlinear_arith)
        requires
            off == q - e,
            e * r == p,
    ;
    let t = crate::accuracy::tiny();
    assert(0x100_0000 as real * (so * r) <= p + t * r) by (nonlinear_arith)
        requires
            0x100_0000 as real * so <= e + t,
            e * r == p,
            r >= 1 as real,
    ;
    assert(t * r <= 1 as real) by (nonlinear_arith)
        requires
            t == 1 as real / 0x1_0000_0000_0000_0000int as real,
            r <= 1_000_000 as real,
            r >= 1 as real,
    ;
}

/// An extended target shows as many times its white as its headroom says, and
/// never less than its white.
pub proof fn law_headroom_is_peak_over_white(
    target: TargetColorState,
    primaries: ColorPrimaries,
    white: F32,
    headroom: F32,
)
    requires
        target.extends(primaries, white, headroom),
        a_luminance(white),
        headroom.finite(),
        headroom.value() <= 1000 as real,
    ensures
        target.primaries == primaries,
        target.reference_white_nits == white || white.value() == 1 as real,
        target.reference_white_nits.value() == white.value(),
        target.edr_headroom.value() == if headroom.value() > 1 as real {
            headroom.value()
        } else {
            1 as real
        },
        target.peak_nits.finite(),
        rounded(target.peak_nits.value(), white.value() * target.edr_headroom.value()),
{
    let one = F32 { bits: ONE_BITS };
    lemma_zero_and_one();
    lemma_order_of_values(one, white);
    lemma_order_of_values(one, headroom);
    let w = target.reference_white_nits;
    let h = target.edr_headroom;
    let x = w.value();
    let y = h.value();
    assert(0 as real <= x * y && x * y <= 1_000_000_000 as real) by (nonlinear_arith)
        requires
            1 as real <= x <= 1_000_000 as real,
            1 as real <= y <= 1000 as real,
    ;
    lemma_product_is_close(w, h);
}

/// The interface is as bright as the target's own white where it is encoded
/// absolutely, and a hundred nits elsewhere; light is added linearly exactly on
/// extended surfaces that are not encoded absolutely.
pub proof fn law_the_interface_has_the_target_s_white(target: TargetColorState, edr_output: bool)
    requires
        target.reference_white_nits.finite(),
    ensures
        target.transfer is Pq && target.reference_white_nits.value() > 1 as real ==> ui_white(target)
            == target.reference_white_nits,
        !(target.transfer is Pq) ==> ui_white(target).value() == 100 as real,
        ui_white(target).finite() && ui_white(target).value() >= 1 as real,
        ui_linear_white(target, edr_output).bits == 0 <==> !edr_output || target.transfer is Pq,
        edr_output && !(target.transfer is Pq) && target.reference_white_nits.value() > 1 as real
            ==> ui_linear_white(target, edr_output) == target.reference_white_nits,
{
    let one = F32 { bits: ONE_BITS };
    lemma_zero_and_one();
    lemma_constants_are_what_they_say();
    lemma_whole_value(F32 { bits: HUNDRED_BITS }, 100);
    lemma_order_of_values(one, target.reference_white_nits);
    let zero = F32 { bits: 0 };
    if ui_linear_white(target, edr_output).bits == 0 && edr_output && !(target.transfer is Pq) {
        assert(ui_linear_white(target, edr_output) == zero);
    }
}

} // verus!
