//! What the video shaders are told of a frame.
use crate::color::{packed_primaries, transfer_code, transfer_number, ColorRange};
use crate::dovi::{is_payload, pivots_fit, sample_scale, scale_of_samples, DoviUniforms, Row};
use crate::float::F32;
use crate::modes::{tone_map_code, tone_map_number};
use crate::pipeline::VideoRenderPipeline;
use crate::knee::Knee;
use crate::matrix::{
    between, inverted, ipt_lms2rgb_matrix, ipt_rgb2lms_matrix, padded, rgb_to_cones,
    source_to_target_rgb_matrix, RgbMatrix,
};
use crate::product::product;
use crate::quotient::quotient;
use vstd::prelude::*;

verus! {

/// The part of the input mode that says how the planes are sampled.
pub const VIDEO_INPUT_MODE_MASK: u32 = 0xff;

/// The bit of the input mode that says that the right half of the picture is
/// the alpha of the left.
pub const VIDEO_INPUT_PACKED_ALPHA_RIGHT: u32 = 0x100;

/// The uniforms of the video shaders.
#[derive(Debug, Clone, Copy, PartialEq, Eq)]
pub struct VideoUniforms {
    pub is_p010: u32,
    pub full_range: u32,
    pub source_transfer: u32,
    pub target_transfer: u32,
    pub tone_map: u32,
    pub edr_output: u32,
    /// How the planes are sampled, and the alpha bit.
    pub input_mode: u32,
    /// One where the output stays linear for compositing.
    pub scene_linear: u32,
    /// Source peak, target peak, source white, target white.
    pub nits: Row,
    pub luma_coefficients: Row,
    pub gamut_matrix_rows: [Row; 3],
    pub ipt_matrix_rows: [Row; 9],
    pub tone_map_extra: Row,
    pub tone_map_coeffs: Row,
    pub gamut_lut_enabled: u32,
    pub gamut_primaries: u32,
    pub gamut_reserved0: u32,
    pub gamut_reserved1: u32,
    pub dovi: DoviUniforms,
}

pub open spec fn flag(set: bool) -> u32 {
    if set {
        1
    } else {
        0
    }
}

fn to_flag(set: bool) -> (value: u32)
    ensures
        value == flag(set),
{
    if set {
        1
    } else {
        0
    }
}

impl VideoUniforms {
    /// The uniforms describe a frame of this pipeline.
    pub open spec fn describe(
        self,
        pipeline: VideoRenderPipeline,
        knee: Knee,
        is_p010: bool,
        edr_output: bool,
    ) -> bool {
        &&& self.is_p010 == flag(is_p010)
        &&& self.picture(pipeline, knee, edr_output)
        &&& match pipeline.source.dovi {
            None => self.dovi.blank(),
            Some(dovi) => is_payload(self.dovi, dovi, is_p010),
        }
    }

    /// All that does not depend on the depth of the samples.
    #[verifier::opaque]
    pub open spec fn picture(
        self,
        pipeline: VideoRenderPipeline,
        knee: Knee,
        edr_output: bool,
    ) -> bool {
        &&& self.full_range == flag(pipeline.source.range == ColorRange::Full)
        &&& self.source_transfer == transfer_number(pipeline.source.transfer)
        &&& self.target_transfer == transfer_number(pipeline.target.transfer)
        &&& self.tone_map == tone_map_number(pipeline.tone_map.operator)
        &&& self.edr_output == flag(edr_output)
        &&& self.input_mode == 0
        &&& self.scene_linear == 0
        &&& self.nits@ == seq![
            pipeline.source.nominal_peak_nits,
            pipeline.target.peak_nits,
            pipeline.source.reference_white_nits,
            pipeline.target.reference_white_nits,
        ]
        &&& self.luma_coefficients@[3] == (F32 { bits: 0 })
        &&& is_luma(self.luma_coefficients@, pipeline)
        &&& forall|k: int|
            0 <= k < 3 ==> (#[trigger] self.gamut_matrix_rows@[k])@ == padded(
                between(pipeline.source.primaries, pipeline.target.primaries),
                k,
            )
        &&& forall|k: int|
            0 <= k < 9 ==> (#[trigger] self.ipt_matrix_rows@[k])@ == pipeline.ipt_row(k)
        &&& self.tone_map_extra@ == pipeline.extra()
        &&& self.tone_map_coeffs@ == pipeline.coefficients(knee)
        &&& self.gamut_lut_enabled == flag(pipeline.uses_lut())
        &&& self.gamut_primaries == packed_primaries(
            pipeline.source.primaries,
            pipeline.target.primaries,
        )
        &&& self.gamut_reserved0 == 0
        &&& self.gamut_reserved1 == 0
    }
}

/// The first three numbers are the luma weights of the pipeline's source.
pub open spec fn is_luma(row: Seq<F32>, pipeline: VideoRenderPipeline) -> bool {
    let weights = crate::color::LumaCoefficients { kr: row[0], kg: row[1], kb: row[2] };
    match crate::color::resolved_matrix(pipeline.source.matrix, pipeline.source.primaries) {
        crate::color::MatrixCoefficients::Bt601 => weights.are(2990, 5870, 1140),
        crate::color::MatrixCoefficients::Bt2020NonConstantLuminance => weights.are(
            2627,
            6780,
            593,
        ),
        _ => weights.are(2126, 7152, 722),
    }
}

/// Offsets, brought to the scale of samples of ten bits or of eight from the
/// other scale.
pub open spec fn rescaled(before: Seq<F32>, is_p010: bool) -> Seq<F32> {
    let ratio = quotient(sample_scale(is_p010), sample_scale(!is_p010));
    seq![
        product(before[0], ratio),
        product(before[1], ratio),
        product(before[2], ratio),
        before[3],
    ]
}

impl VideoRenderPipeline {
    /// The matrix from the source's primaries to the target's.
    pub fn gamut_matrix(&self) -> (matrix: RgbMatrix)
        ensures
            matrix@ == between(self.source.primaries, self.target.primaries),
    {
        source_to_target_rgb_matrix(self.source.primaries, self.target.primaries)
    }

    /// Row `k` of three matrices below each other: from the source's primaries
    /// to cone responses, back, and from cone responses to the target's
    /// primaries.
    pub open spec fn ipt_row(self, k: int) -> Seq<F32> {
        let cones = rgb_to_cones(self.source.primaries);
        if k < 3 {
            padded(cones, k)
        } else if k < 6 {
            padded(inverted(cones), k - 3)
        } else {
            padded(inverted(rgb_to_cones(self.target.primaries)), k - 6)
        }
    }

    pub fn ipt_matrix_rows(&self) -> (rows: [Row; 9])
        ensures
            forall|k: int| 0 <= k < 9 ==> (#[trigger] rows@[k])@ == self.ipt_row(k),
    {
        let cones = ipt_rgb2lms_matrix(self.source.primaries);
        let a = cones.row4s();
        let b = cones.inverse().row4s();
        let c = ipt_lms2rgb_matrix(self.target.primaries).row4s();
        let rows: [Row; 9] = [a[0], a[1], a[2], b[0], b[1], b[2], c[0], c[1], c[2]];
        proof {
            assert forall|k: int| 0 <= k < 9 implies (#[trigger] rows@[k])@ == self.ipt_row(k) by {
                assert(a@[0]@ == padded(cones@, 0) && a@[1]@ == padded(cones@, 1) && a@[2]@
                    == padded(cones@, 2));
                assert(k == 0 || k == 1 || k == 2 || k == 3 || k == 4 || k == 5 || k == 6 || k == 7
                    || k == 8);
            }
        }
        rows
    }
}

impl VideoUniforms {
    pub fn from_pipeline(
        pipeline: &VideoRenderPipeline,
        knee: Knee,
        is_p010: bool,
        edr_output: bool,
    ) -> (uniforms: Self)
        requires
            pipeline.source.dovi matches Some(dovi) ==> pivots_fit(dovi),
        ensures
            uniforms.describe(*pipeline, knee, is_p010, edr_output),
    {
        let luma = pipeline.luma_coefficients();
        let uniforms = VideoUniforms {
            is_p010: to_flag(is_p010),
            full_range: to_flag(matches!(pipeline.source.range, ColorRange::Full)),
            source_transfer: transfer_code(pipeline.source.transfer),
            target_transfer: transfer_code(pipeline.target.transfer),
            tone_map: tone_map_code(pipeline.tone_map.operator),
            edr_output: to_flag(edr_output),
            input_mode: 0,
            scene_linear: 0,
            nits: [
                pipeline.source.nominal_peak_nits,
                pipeline.target.peak_nits,
                pipeline.source.reference_white_nits,
                pipeline.target.reference_white_nits,
            ],
            luma_coefficients: [luma.kr, luma.kg, luma.kb, F32 { bits: 0 }],
            gamut_matrix_rows: pipeline.gamut_matrix().row4s(),
            ipt_matrix_rows: pipeline.ipt_matrix_rows(),
            tone_map_extra: pipeline.tone_map_extra(),
            tone_map_coeffs: pipeline.tone_map_coeffs(knee),
            gamut_lut_enabled: to_flag(pipeline.gamut_lut_active()),
            gamut_primaries: pipeline.gamut_primaries_code(),
            gamut_reserved0: 0,
            gamut_reserved1: 0,
            dovi: DoviUniforms::of_for_representation(&pipeline.source, is_p010),
        };
        proof {
            reveal(VideoUniforms::picture);
            assert(uniforms.nits@ =~= seq![
                pipeline.source.nominal_peak_nits,
                pipeline.target.peak_nits,
                pipeline.source.reference_white_nits,
                pipeline.target.reference_white_nits,
            ]);
        }
        uniforms
    }

    /// How the planes are sampled.
    pub open spec fn sampling(self) -> u32 {
        self.input_mode & VIDEO_INPUT_MODE_MASK
    }

    /// The right half of the picture is alpha.
    pub open spec fn alpha_right(self) -> bool {
        self.input_mode & VIDEO_INPUT_PACKED_ALPHA_RIGHT != 0
    }

    /// Everything but the input mode is as before.
    pub open spec fn differs_in_input_only(self, before: Self) -> bool {
        self == VideoUniforms { input_mode: self.input_mode, ..before }
    }

    /// Sampling is set; all else, the alpha bit too, is as before.
    pub open spec fn resamples(self, before: Self, mode: u32) -> bool {
        &&& self.differs_in_input_only(before)
        &&& self.sampling() == mode
        &&& self.alpha_right() == before.alpha_right()
        &&& self.input_mode & !VIDEO_INPUT_MODE_MASK == before.input_mode & !VIDEO_INPUT_MODE_MASK
    }

    fn with_sampling(self, mode: u32) -> (uniforms: Self)
        requires
            mode <= 3,
        ensures
            uniforms.resamples(self, mode),
    {
        let mut uniforms = self;
        let old_mode: u32 = self.input_mode;
        uniforms.input_mode = (old_mode & !VIDEO_INPUT_MODE_MASK) | mode;
        proof {
            let new_mode = uniforms.input_mode;
            assert(new_mode & 0xff == mode && new_mode & 0x100 == old_mode & 0x100 && new_mode
                & !0xffu32 == old_mode & !0xffu32) by (bit_vector)
                requires
                    mode <= 3,
                    new_mode == (old_mode & !0xffu32) | mode,
            ;
        }
        uniforms
    }

    /// One texture of converted colours.
    pub fn rgb_texture_input(self) -> (uniforms: Self)
        ensures
            uniforms.resamples(self, 1),
    {
        self.with_sampling(1)
    }

    /// Packed doubled luma beside a chroma plane.
    pub fn packed_d2s_luma_input(self) -> (uniforms: Self)
        ensures
            uniforms.resamples(self, 2),
    {
        self.with_sampling(2)
    }

    /// Packed doubled luma as detail of converted colours.
    pub fn packed_d2s_rgb_detail_input(self) -> (uniforms: Self)
        ensures
            uniforms.resamples(self, 3),
    {
        self.with_sampling(3)
    }

    pub fn packed_alpha_right(self, enabled: bool) -> (uniforms: Self)
        ensures
            uniforms.differs_in_input_only(self),
            uniforms.alpha_right() == enabled,
            uniforms.sampling() == self.sampling(),
            uniforms.input_mode & !VIDEO_INPUT_PACKED_ALPHA_RIGHT == self.input_mode
                & !VIDEO_INPUT_PACKED_ALPHA_RIGHT,
    {
        let mut uniforms = self;
        let old_mode: u32 = self.input_mode;
        if enabled {
            uniforms.input_mode = old_mode | VIDEO_INPUT_PACKED_ALPHA_RIGHT;
        } else {
            uniforms.input_mode = old_mode & !VIDEO_INPUT_PACKED_ALPHA_RIGHT;
        }
        proof {
            assert((old_mode | 0x100) & 0x100 != 0 && (old_mode | 0x100) & 0xff == old_mode & 0xff
                && (old_mode | 0x100) & !0x100u32 == old_mode & !0x100u32) by (bit_vector);
            assert((old_mode & !0x100u32) & 0x100 == 0 && (old_mode & !0x100u32) & 0xff == old_mode
                & 0xff && (old_mode & !0x100u32) & !0x100u32 == old_mode & !0x100u32)
                by (bit_vector);
        }
        uniforms
    }

    pub fn has_packed_alpha_right(&self) -> (packed: bool)
        ensures
            packed == self.alpha_right(),
    {
        self.input_mode & VIDEO_INPUT_PACKED_ALPHA_RIGHT != 0
    }

    /// Leaves the output linear.
    pub fn scene_linear_output(self) -> (uniforms: Self)
        ensures
            uniforms == (VideoUniforms { scene_linear: 1, ..self }),
    {
        let mut uniforms = self;
        uniforms.scene_linear = 1;
        uniforms
    }

    /// `after` is what the uniforms become at another depth of the samples: the
    /// offsets of dynamic metadata are brought to its scale.
    pub open spec fn becomes(self, is_p010: bool, after: Self) -> bool {
        &&& after.is_p010 == flag(is_p010)
        &&& after == (VideoUniforms {
            is_p010: after.is_p010,
            dovi: DoviUniforms {
                nonlinear_offset: after.dovi.nonlinear_offset,
                ..self.dovi
            },
            ..self
        })
        &&& is_p010 == (self.is_p010 != 0) ==> after.dovi.nonlinear_offset
            == self.dovi.nonlinear_offset
        &&& is_p010 != (self.is_p010 != 0) ==> after.dovi.nonlinear_offset@ == rescaled(
            self.dovi.nonlinear_offset@,
            is_p010,
        )
    }

    /// Changes the depth of the samples. The offsets of dynamic metadata follow,
    /// so that they stay in the samples' own scale.
    pub fn with_p010_representation(self, is_p010: bool) -> (uniforms: Self)
        ensures
            self.becomes(is_p010, uniforms),
    {
        let mut uniforms = self;
        if (self.is_p010 != 0) != is_p010 {
            let ratio = scale_of_samples(is_p010).over(scale_of_samples(!is_p010));
            uniforms.dovi.nonlinear_offset = [
                self.dovi.nonlinear_offset[0].times(ratio),
                self.dovi.nonlinear_offset[1].times(ratio),
                self.dovi.nonlinear_offset[2].times(ratio),
                self.dovi.nonlinear_offset[3],
            ];
            proof {
                assert(uniforms.dovi.nonlinear_offset@ =~= rescaled(
                    self.dovi.nonlinear_offset@,
                    is_p010,
                ));
            }
        }
        uniforms.is_p010 = to_flag(is_p010);
        uniforms
    }
}

} // verus!
