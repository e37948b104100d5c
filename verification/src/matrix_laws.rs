//! What the matrices of a frame do, and what they depend on.
use crate::accuracy::{lemma_is_nearest, lemma_nearest_is_close, size_of};
use crate::anchors::two;
use crate::color::{packed_primaries, resolved_matrix, transfer_number};
use crate::float::F32;
use crate::inverse::unit;
use crate::knee::Knee;
use crate::matrix::{between, rgb_to_cones, rgb_to_xyz};
use crate::modes::tone_map_number;
use crate::pipeline::{needs_tone_map, target_black, VideoRenderPipeline};
use crate::primaries_laws::{law_colours_stay_where_they_are, law_cone_responses_lead_back};
use crate::product::nearest;
use crate::uniforms::VideoUniforms;
use vstd::prelude::*;

verus! {

/// The way out of the space in which tones are mapped leads to the target: it
/// depends on the target's primaries alone, and it is the way back of a frame
/// whose source has those primaries. The way in and the way back depend on the
/// source's primaries alone.
pub proof fn law_tones_are_mapped_on_the_way_to_the_target(
    a: VideoRenderPipeline,
    b: VideoRenderPipeline,
    k: int,
)
    requires
        0 <= k < 3,
    ensures
        a.target.primaries == b.target.primaries ==> a.ipt_row(6 + k) == b.ipt_row(6 + k),
        a.source.primaries == b.source.primaries ==> a.ipt_row(k) == b.ipt_row(k),
        a.source.primaries == b.source.primaries ==> a.ipt_row(3 + k) == b.ipt_row(3 + k),
        a.target.primaries == b.source.primaries ==> a.ipt_row(6 + k) == b.ipt_row(3 + k),
{
}

/// The rows of a frame lead into the space in which tones are mapped and back: a
/// colour of the source comes back as it was, and one that the target would have
/// led in comes out as that colour of the target.
pub proof fn law_mapped_tones_find_their_way_back(
    pipeline: VideoRenderPipeline,
    row: int,
    column: int,
)
    requires
        0 <= row < 3,
        0 <= column < 3,
    ensures
        ({
            let back = pipeline.ipt_row(3 + row);
            let there = two(back[0].value(), pipeline.ipt_row(0)[column].value()) + two(
                back[1].value(),
                pipeline.ipt_row(1)[column].value(),
            ) + two(back[2].value(), pipeline.ipt_row(2)[column].value());
            100 as real * size_of(there - unit(row, column)) <= 1 as real
        }),
        ({
            let out = pipeline.ipt_row(6 + row);
            let cones = rgb_to_cones(pipeline.target.primaries);
            let there = two(out[0].value(), cones[column].value()) + two(
                out[1].value(),
                cones[3 + column].value(),
            ) + two(out[2].value(), cones[6 + column].value());
            100 as real * size_of(there - unit(row, column)) <= 1 as real
        }),
{
    law_cone_responses_lead_back(pipeline.source.primaries, row, column);
    law_cone_responses_lead_back(pipeline.target.primaries, row, column);
    assert(column == 0 || column == 1 || column == 2);
}

/// A frame's gamut matrix moves no colour: what the target's primaries make of
/// the converted amounts is what the source's make of the amounts before.
pub proof fn law_the_gamut_matrix_moves_no_colour(
    uniforms: VideoUniforms,
    pipeline: VideoRenderPipeline,
    knee: Knee,
    is_p010: bool,
    edr_output: bool,
    row: int,
    column: int,
)
    requires
        uniforms.describe(pipeline, knee, is_p010, edr_output),
        0 <= row < 3,
        0 <= column < 3,
    ensures
        ({
            let t = rgb_to_xyz(pipeline.target.primaries);
            let x = rgb_to_xyz(pipeline.source.primaries);
            let rows = uniforms.gamut_matrix_rows@;
            let made = two(t[3 * row].value(), rows[0]@[column].value()) + two(
                t[3 * row + 1].value(),
                rows[1]@[column].value(),
            ) + two(t[3 * row + 2].value(), rows[2]@[column].value());
            25 as real * size_of(made - x[3 * row + column].value()) <= 1 as real
        }),
{
    law_uniforms_say_what_the_pipeline_is(uniforms, pipeline, knee, is_p010, edr_output);
    law_colours_stay_where_they_are(
        pipeline.source.primaries,
        pipeline.target.primaries,
        row,
        column,
    );
    assert(uniforms.gamut_matrix_rows@[0]@[column] == between(
        pipeline.source.primaries,
        pipeline.target.primaries,
    )[column]);
    assert(uniforms.gamut_matrix_rows@[1]@[column] == between(
        pipeline.source.primaries,
        pipeline.target.primaries,
    )[3 + column]);
    assert(uniforms.gamut_matrix_rows@[2]@[column] == between(
        pipeline.source.primaries,
        pipeline.target.primaries,
    )[6 + column]);
}

/// The registers of a frame hold what the frame's pipeline says, each number in
/// the place where the shaders look for it.
pub proof fn law_uniforms_say_what_the_pipeline_is(
    uniforms: VideoUniforms,
    pipeline: VideoRenderPipeline,
    knee: Knee,
    is_p010: bool,
    edr_output: bool,
)
    requires
        uniforms.describe(pipeline, knee, is_p010, edr_output),
    ensures
        uniforms.nits@[0] == pipeline.source.nominal_peak_nits,
        uniforms.nits@[1] == pipeline.target.peak_nits,
        uniforms.nits@[2] == pipeline.source.reference_white_nits,
        uniforms.nits@[3] == pipeline.target.reference_white_nits,
        uniforms.is_p010 == 1 <==> is_p010,
        uniforms.is_p010 == 0 <==> !is_p010,
        uniforms.edr_output == 1 <==> edr_output,
        uniforms.edr_output == 0 <==> !edr_output,
        uniforms.full_range == 1 <==> pipeline.source.range is Full,
        uniforms.full_range == 0 <==> !(pipeline.source.range is Full),
        uniforms.gamut_lut_enabled == 1 <==> pipeline.uses_lut(),
        uniforms.gamut_lut_enabled == 0 <==> !pipeline.uses_lut(),
        uniforms.input_mode == 0,
        uniforms.scene_linear == 0,
        forall|k: int, j: int|
            0 <= k < 3 && 0 <= j < 3 ==> (#[trigger] uniforms.gamut_matrix_rows@[k]@[j])
                == between(pipeline.source.primaries, pipeline.target.primaries)[3 * k + j],
        forall|k: int, j: int|
            0 <= k < 3 && 0 <= j < 3 ==> (#[trigger] uniforms.ipt_matrix_rows@[k]@[j])
                == rgb_to_cones(pipeline.source.primaries)[3 * k + j],
        uniforms.source_transfer == transfer_number(pipeline.source.transfer),
        uniforms.target_transfer == transfer_number(pipeline.target.transfer),
        uniforms.tone_map == tone_map_number(pipeline.tone_map.operator),
        uniforms.gamut_primaries == packed_primaries(
            pipeline.source.primaries,
            pipeline.target.primaries,
        ),
        uniforms.tone_map_coeffs@ == pipeline.coefficients(knee),
        !needs_tone_map(pipeline.source, pipeline.target) ==> uniforms.tone_map_extra@[2].bits == 0,
        needs_tone_map(pipeline.source, pipeline.target) ==> uniforms.tone_map_extra@[2]
            == target_black(pipeline.target, pipeline.tone_map.contrast_ratio),
        uniforms.tone_map_extra@[0] == pipeline.tone_map.param(),
        uniforms.tone_map_extra@[1] == pipeline.source.scene_average(),
        uniforms.tone_map_extra@[3].bits == 0,
        pipeline.source.dovi is None ==> uniforms.dovi.flags@[0].bits == 0,
{
    reveal(VideoUniforms::picture);
    assert forall|k: int, j: int| 0 <= k < 3 && 0 <= j < 3 implies (
    #[trigger] uniforms.gamut_matrix_rows@[k]@[j]) == between(
        pipeline.source.primaries,
        pipeline.target.primaries,
    )[3 * k + j] by {
        assert(uniforms.gamut_matrix_rows@[k]@ == crate::matrix::padded(
            between(pipeline.source.primaries, pipeline.target.primaries),
            k,
        ));
        assert(j == 0 || j == 1 || j == 2);
    }
    assert forall|k: int, j: int| 0 <= k < 3 && 0 <= j < 3 implies (
    #[trigger] uniforms.ipt_matrix_rows@[k]@[j]) == rgb_to_cones(
        pipeline.source.primaries,
    )[3 * k + j] by {
        assert(uniforms.ipt_matrix_rows@[k]@ == pipeline.ipt_row(k));
        assert(j == 0 || j == 1 || j == 2);
    }
}

/// The luma weights of a frame are those of its matrix, red first: what is
/// specified counts, and the primaries where nothing is.
pub proof fn law_luma_is_weighed_as_the_matrix_says(
    uniforms: VideoUniforms,
    pipeline: VideoRenderPipeline,
    knee: Knee,
    is_p010: bool,
    edr_output: bool,
)
    requires
        uniforms.describe(pipeline, knee, is_p010, edr_output),
    ensures
        ({
            let weights = uniforms.luma_coefficients@;
            let red = weights[0].value() * 10000 as real;
            let green = weights[1].value() * 10000 as real;
            let blue = weights[2].value() * 10000 as real;
            let matrix = pipeline.source.matrix;
            let wide = pipeline.source.primaries is Bt2020;
            let share = 1 as real / 100 as real;
            &&& weights[3].bits == 0
            &&& matrix is Bt601 ==> {
                &&& size_of(red - 2990 as real) <= share
                &&& size_of(green - 5870 as real) <= share
                &&& size_of(blue - 1140 as real) <= share
            }
            &&& matrix is Bt2020NonConstantLuminance || matrix is Unspecified && wide ==> {
                &&& size_of(red - 2627 as real) <= share
                &&& size_of(green - 6780 as real) <= share
                &&& size_of(blue - 593 as real) <= share
            }
            &&& matrix is Bt709 || matrix is Unspecified && !wide ==> {
                &&& size_of(red - 2126 as real) <= share
                &&& size_of(green - 7152 as real) <= share
                &&& size_of(blue - 722 as real) <= share
            }
        }),
{
    reveal(VideoUniforms::picture);
    let w = uniforms.luma_coefficients@;
    let matrix = resolved_matrix(pipeline.source.matrix, pipeline.source.primaries);
    if matrix is Bt601 {
        lemma_weight_value(w[0], 2990);
        lemma_weight_value(w[1], 5870);
        lemma_weight_value(w[2], 1140);
    } else if matrix is Bt2020NonConstantLuminance {
        lemma_weight_value(w[0], 2627);
        lemma_weight_value(w[1], 6780);
        lemma_weight_value(w[2], 593);
    } else {
        lemma_weight_value(w[0], 2126);
        lemma_weight_value(w[1], 7152);
        lemma_weight_value(w[2], 722);
    }
}

/// A weight is close to its ten-thousandths.
proof fn lemma_weight_value(weight: F32, n: int)
    requires
        nearest(weight, n, 10000),
        0 < n <= 10000,
    ensures
        size_of(weight.value() * 10000 as real - n as real) <= 1 as real / 100 as real,
{
    let exact = n as real / 10000 as real;
    lemma_is_nearest(weight, n, 10000);
    lemma_nearest_is_close(n, 10000, exact);
}

/// Frames that are to be mapped alike have the same registers: nothing but the
/// pipeline, the knee, the depth of the samples and the kind of output enters.
pub proof fn law_uniforms_depend_on_the_pipeline_alone(
    a: VideoUniforms,
    b: VideoUniforms,
    pipeline: VideoRenderPipeline,
    knee: Knee,
    is_p010: bool,
    edr_output: bool,
    k: int,
)
    requires
        a.describe(pipeline, knee, is_p010, edr_output),
        b.describe(pipeline, knee, is_p010, edr_output),
        0 <= k < 9,
    ensures
        a.ipt_matrix_rows@[k]@ == b.ipt_matrix_rows@[k]@,
        a.tone_map_coeffs@ == b.tone_map_coeffs@,
        a.nits@ == b.nits@,
{
    reveal(VideoUniforms::picture);
}

/// The knee of a frame is picked from what the frame's registers hold: the peaks
/// of source and target, the average of the scene and the operator's parameter.
pub proof fn law_the_knee_is_picked_from_the_registers(
    uniforms: VideoUniforms,
    pipeline: VideoRenderPipeline,
    knee: Knee,
    is_p010: bool,
    edr_output: bool,
)
    requires
        uniforms.describe(pipeline, knee, is_p010, edr_output),
    ensures
        pipeline.envelope().input_min.bits == 0,
        pipeline.envelope().input_max == uniforms.nits@[0],
        pipeline.envelope().output_max == uniforms.nits@[1],
        pipeline.envelope().knee_adaptation == uniforms.tone_map_extra@[0],
        pipeline.envelope().input_avg == uniforms.tone_map_extra@[1],
        needs_tone_map(pipeline.source, pipeline.target) ==> pipeline.envelope().output_min
            == uniforms.tone_map_extra@[2],
{
    law_uniforms_say_what_the_pipeline_is(uniforms, pipeline, knee, is_p010, edr_output);
}

} // verus!
