//! The colour pipeline of a frame: which mappings it needs and what the
//! shaders are told.
use crate::color::{
    gamut_primaries_code, packed_primaries, resolve_primaries, resolved_matrix,
    resolved_primaries, ColorPrimaries, LumaCoefficients, MatrixCoefficients, TransferFunction,
};
use crate::float::{F32, HALF_BITS, ONE_BITS, THOUSAND_BITS};
use crate::graph::{build_graph, needed_kinds, GraphNeeds, RenderGraph};
use crate::modes::{LumaUpscalerMode, ScalerKernel, ToneMapOperator};
use crate::product::{lemma_nearest, nearest_to, product};
use crate::quotient::quotient;
use crate::source::{SourceColorState, TargetColorState};
use vstd::prelude::*;

verus! {

/// How luminance is mapped.
#[derive(Debug, Clone, Copy, PartialEq, Eq, Structural)]
pub struct ToneMapConfig {
    pub operator: ToneMapOperator,
    /// The operator's own parameter; zero selects its default.
    pub curve_param: F32,
    /// The target's contrast ratio; zero selects the default of the target.
    pub contrast_ratio: F32,
}

impl ToneMapConfig {
    /// The curve of BT.2390 with its own parameter and the target's contrast.
    pub open spec fn usual() -> Self {
        ToneMapConfig {
            operator: ToneMapOperator::Bt2390,
            curve_param: F32 { bits: 0 },
            contrast_ratio: F32 { bits: 0 },
        }
    }
}

impl Default for ToneMapConfig {
    fn default() -> (config: Self)
        ensures
            config == ToneMapConfig::usual(),
    {
        ToneMapConfig {
            operator: ToneMapOperator::default(),
            curve_param: F32 { bits: 0 },
            contrast_ratio: F32 { bits: 0 },
        }
    }
}

/// The default of an operator's parameter.
pub open spec fn default_param(operator: ToneMapOperator) -> F32 {
    match operator {
        ToneMapOperator::Clip => F32 { bits: ONE_BITS },
        ToneMapOperator::Reinhard => F32 { bits: HALF_BITS },
        ToneMapOperator::Mobius => nearest_to(3, 10),
        ToneMapOperator::Bt2390 => F32 { bits: ONE_BITS },
        ToneMapOperator::Spline => nearest_to(3, 10),
        ToneMapOperator::Bt2446a => F32 { bits: 0 },
        ToneMapOperator::St209410 => nearest_to(7, 10),
    }
}

impl ToneMapConfig {
    /// The operator's parameter: as configured, else the default.
    pub open spec fn param(self) -> F32 {
        if (F32 { bits: 0 }).below(self.curve_param) {
            self.curve_param
        } else {
            default_param(self.operator)
        }
    }

    pub fn effective_curve_param(self) -> (param: F32)
        ensures
            param == self.param(),
    {
        if self.curve_param.is_positive() {
            self.curve_param
        } else {
            default_curve_param(self.operator)
        }
    }
}

pub fn default_curve_param(operator: ToneMapOperator) -> (param: F32)
    ensures
        param == default_param(operator),
{
    proof {
        vstd::arithmetic::power2::lemma2_to64();
        lemma_nearest(F32 { bits: 0x3e99_999a }, 3, 10, 125, 0x200_0000);
        lemma_nearest(F32 { bits: 0x3f33_3333 }, 7, 10, 126, 0x100_0000);
    }
    match operator {
        ToneMapOperator::Clip => F32 { bits: ONE_BITS },
        ToneMapOperator::Reinhard => F32 { bits: HALF_BITS },
        ToneMapOperator::Mobius => F32 { bits: 0x3e99_999a },
        ToneMapOperator::Bt2390 => F32 { bits: ONE_BITS },
        ToneMapOperator::Spline => F32 { bits: 0x3e99_999a },
        ToneMapOperator::Bt2446a => F32 { bits: 0 },
        ToneMapOperator::St209410 => F32 { bits: 0x3f33_3333 },
    }
}

/// How the frame is resampled.
#[derive(Debug, Clone, Copy, PartialEq, Eq, Structural)]
pub struct ScalerConfig {
    pub kernel: ScalerKernel,
    pub radius: F32,
}

impl ScalerConfig {
    /// Linear in both directions.
    pub open spec fn usual() -> Self {
        ScalerConfig { kernel: ScalerKernel::Bilinear, radius: F32 { bits: ONE_BITS } }
    }
}

impl Default for ScalerConfig {
    fn default() -> (config: Self)
        ensures
            config == ScalerConfig::usual(),
    {
        ScalerConfig { kernel: ScalerKernel::Bilinear, radius: F32 { bits: ONE_BITS } }
    }
}

/// The encoding of the number nearest to 1.05.
pub const TONE_MAP_MARGIN_BITS: u32 = 0x3f86_6666;

/// A source of high dynamic range is tone mapped where its static peak is more
/// than five hundredths above the target's.
pub open spec fn needs_tone_map(source: SourceColorState, target: TargetColorState) -> bool {
    source.hdr() && product(target.peak_nits, nearest_to(105, 100)).below(source.static_peak())
}

pub fn requires_tone_mapping(source: &SourceColorState, target: &TargetColorState) -> (required: bool)
    ensures
        required == needs_tone_map(*source, *target),
{
    if !source.is_hdr() {
        return false;
    }
    proof {
        vstd::arithmetic::power2::lemma2_to64();
        lemma_nearest(F32 { bits: TONE_MAP_MARGIN_BITS }, 105, 100, 127, 0x80_0000);
    }
    target.peak_nits.times(F32 { bits: TONE_MAP_MARGIN_BITS }).less_than(
        source.static_source_peak_nits(),
    )
}

/// The primaries differ once unknown ones are resolved.
pub open spec fn needs_gamut_map(source: SourceColorState, target: TargetColorState) -> bool {
    resolved_primaries(source.primaries) != resolved_primaries(target.primaries)
}

pub fn requires_gamut_mapping(source: &SourceColorState, target: &TargetColorState) -> (
required: bool)
    ensures
        required == needs_gamut_map(*source, *target),
{
    resolve_primaries(source.primaries) != resolve_primaries(target.primaries)
}

/// The brightness of single frames decides nothing: sources with the same
/// transfer function, primaries and static peak are mapped alike, as long as the
/// transfer function is one of high dynamic range.
pub proof fn law_frame_brightness_decides_no_mapping(
    a: SourceColorState,
    b: SourceColorState,
    target: TargetColorState,
)
    requires
        a.transfer == TransferFunction::Pq || a.transfer == TransferFunction::Hlg,
        a.transfer == b.transfer,
        a.primaries == b.primaries,
        a.static_peak() == b.static_peak(),
    ensures
        needs_tone_map(a, target) == needs_tone_map(b, target),
        needs_gamut_map(a, target) == needs_gamut_map(b, target),
{
}

/// The target's black has to be lifted: it is a standard-range target.
pub open spec fn has_black(target: TargetColorState) -> bool {
    !(F32 { bits: ONE_BITS }).below(target.edr_headroom) && target.transfer != TransferFunction::Pq
}

/// The contrast ratio, one thousand unless configured.
pub open spec fn effective_contrast(contrast_ratio: F32) -> F32 {
    if (F32 { bits: 0 }).below(contrast_ratio) {
        contrast_ratio
    } else {
        F32 { bits: THOUSAND_BITS }
    }
}

/// The target's black: its peak over the contrast ratio, or zero where blacks
/// are true.
pub open spec fn target_black(target: TargetColorState, contrast_ratio: F32) -> F32 {
    if has_black(target) {
        quotient(target.peak_nits, effective_contrast(contrast_ratio))
    } else {
        F32 { bits: 0 }
    }
}

pub fn target_black_nits(target: &TargetColorState, contrast_ratio: F32) -> (nits: F32)
    ensures
        nits == target_black(*target, contrast_ratio),
{
    if (F32 { bits: ONE_BITS }).less_than(target.edr_headroom) || target.transfer
        == TransferFunction::Pq {
        return F32 { bits: 0 };
    }
    let ratio = if contrast_ratio.is_positive() {
        contrast_ratio
    } else {
        F32 { bits: THOUSAND_BITS }
    };
    target.peak_nits.over(ratio)
}

/// Everything that decides how a frame is drawn.
#[derive(Debug, Clone, PartialEq, Eq)]
pub struct VideoRenderPipeline {
    pub source: SourceColorState,
    pub target: TargetColorState,
    pub tone_map: ToneMapConfig,
    pub scaler: ScalerConfig,
    pub luma_upscaler: LumaUpscalerMode,
    pub graph: RenderGraph,
}

/// What a frame needs.
pub open spec fn pipeline_needs(
    source: SourceColorState,
    target: TargetColorState,
    scaler: ScalerConfig,
    luma_upscaler: LumaUpscalerMode,
) -> GraphNeeds {
    GraphNeeds {
        upscale: luma_upscaler != LumaUpscalerMode::Off,
        reshape: source.dovi is Some,
        gamut_map: needs_gamut_map(source, target),
        tone_map: needs_tone_map(source, target),
        scale: scaler.kernel != ScalerKernel::Nearest,
    }
}

fn graph_for(
    source: &SourceColorState,
    target: &TargetColorState,
    scaler: &ScalerConfig,
    luma_upscaler: LumaUpscalerMode,
) -> (graph: RenderGraph)
    ensures
        graph.kinds() == needed_kinds(
            pipeline_needs(*source, *target, *scaler, luma_upscaler),
        ),
        graph.labelled(),
{
    build_graph(
        GraphNeeds {
            upscale: luma_upscaler.is_enabled(),
            reshape: source.dovi.is_some(),
            gamut_map: requires_gamut_mapping(source, target),
            tone_map: requires_tone_mapping(source, target),
            scale: scaler.kernel != ScalerKernel::Nearest,
        },
    )
}

impl VideoRenderPipeline {
    /// The graph is the one that the rest asks for.
    pub open spec fn wf(self) -> bool {
        &&& self.graph.kinds() == needed_kinds(
            pipeline_needs(self.source, self.target, self.scaler, self.luma_upscaler),
        )
        &&& self.graph.labelled()
    }

    pub fn new(source: SourceColorState, target: TargetColorState) -> (pipeline: Self)
        ensures
            pipeline.wf(),
            pipeline.source == source,
            pipeline.target == target,
            pipeline.tone_map == ToneMapConfig::usual(),
            pipeline.scaler == ScalerConfig::usual(),
            pipeline.luma_upscaler == LumaUpscalerMode::Off,
    {
        let tone_map = ToneMapConfig::default();
        let scaler = ScalerConfig::default();
        let luma_upscaler = LumaUpscalerMode::default();
        let graph = graph_for(&source, &target, &scaler, luma_upscaler);
        VideoRenderPipeline { source, target, tone_map, scaler, luma_upscaler, graph }
    }

    pub fn sdr_default() -> (pipeline: Self)
        ensures
            pipeline.wf(),
            pipeline.source == SourceColorState::plain(
                ColorPrimaries::Unknown,
                TransferFunction::Unknown,
            ),
            pipeline.target == TargetColorState::standard(ColorPrimaries::Bt709),
            pipeline.tone_map == ToneMapConfig::usual(),
            pipeline.scaler == ScalerConfig::usual(),
            pipeline.luma_upscaler == LumaUpscalerMode::Off,
    {
        VideoRenderPipeline::new(SourceColorState::default(), TargetColorState::default())
    }

    pub fn with_target(self, target: TargetColorState) -> (pipeline: Self)
        ensures
            pipeline.wf(),
            pipeline == (VideoRenderPipeline { target, graph: pipeline.graph, ..self }),
    {
        let graph = graph_for(&self.source, &target, &self.scaler, self.luma_upscaler);
        VideoRenderPipeline {
            source: self.source,
            target,
            tone_map: self.tone_map,
            scaler: self.scaler,
            luma_upscaler: self.luma_upscaler,
            graph,
        }
    }

    pub fn with_luma_upscaler(self, mode: LumaUpscalerMode) -> (pipeline: Self)
        ensures
            pipeline.wf(),
            pipeline == (VideoRenderPipeline {
                luma_upscaler: mode,
                graph: pipeline.graph,
                ..self
            }),
    {
        let graph = graph_for(&self.source, &self.target, &self.scaler, mode);
        VideoRenderPipeline {
            source: self.source,
            target: self.target,
            tone_map: self.tone_map,
            scaler: self.scaler,
            luma_upscaler: mode,
            graph,
        }
    }

    pub fn requires_tone_mapping(&self) -> (required: bool)
        ensures
            required == needs_tone_map(self.source, self.target),
    {
        requires_tone_mapping(&self.source, &self.target)
    }

    pub fn requires_gamut_mapping(&self) -> (required: bool)
        ensures
            required == needs_gamut_map(self.source, self.target),
    {
        requires_gamut_mapping(&self.source, &self.target)
    }

    pub fn luma_coefficients(&self) -> (coefficients: LumaCoefficients)
        ensures
            match resolved_matrix(self.source.matrix, self.source.primaries) {
                MatrixCoefficients::Bt601 => coefficients.are(2990, 5870, 1140),
                MatrixCoefficients::Bt2020NonConstantLuminance => coefficients.are(
                    2627,
                    6780,
                    593,
                ),
                _ => coefficients.are(2126, 7152, 722),
            },
    {
        self.source.matrix.luma_coefficients(self.source.primaries)
    }

    pub fn gamut_primaries_code(&self) -> (code: u32)
        ensures
            code == packed_primaries(self.source.primaries, self.target.primaries),
    {
        gamut_primaries_code(self.source.primaries, self.target.primaries)
    }

    /// The frame is mapped through the perceptual lookup table: it is tone
    /// mapped to other primaries.
    pub open spec fn uses_lut(self) -> bool {
        needs_tone_map(self.source, self.target) && needs_gamut_map(self.source, self.target)
    }

    pub fn gamut_lut_active(&self) -> (active: bool)
        ensures
            active == self.uses_lut(),
    {
        requires_tone_mapping(&self.source, &self.target) && requires_gamut_mapping(
            &self.source,
            &self.target,
        )
    }

    /// The parameters of the tone curve that vary from frame to frame: the
    /// operator's parameter, the scene's average, and the target's black where
    /// the frame is tone mapped.
    pub open spec fn extra(self) -> Seq<F32> {
        seq![
            self.tone_map.param(),
            self.source.scene_average(),
            if needs_tone_map(self.source, self.target) {
                target_black(self.target, self.tone_map.contrast_ratio)
            } else {
                F32 { bits: 0 }
            },
            F32 { bits: 0 },
        ]
    }

    pub fn tone_map_extra(&self) -> (extra: [F32; 4])
        ensures
            extra@ == self.extra(),
    {
        let black = if requires_tone_mapping(&self.source, &self.target) {
            target_black_nits(&self.target, self.tone_map.contrast_ratio)
        } else {
            F32 { bits: 0 }
        };
        let extra: [F32; 4] = [
            self.tone_map.effective_curve_param(),
            self.source.source_scene_avg_nits(),
            black,
            F32 { bits: 0 },
        ];
        proof {
            assert(extra@ =~= self.extra());
        }
        extra
    }
}

impl Default for VideoRenderPipeline {
    fn default() -> (pipeline: Self)
        ensures
            pipeline.wf(),
            pipeline.source == SourceColorState::plain(
                ColorPrimaries::Unknown,
                TransferFunction::Unknown,
            ),
            pipeline.target == TargetColorState::standard(ColorPrimaries::Bt709),
            pipeline.tone_map == ToneMapConfig::usual(),
            pipeline.scaler == ScalerConfig::usual(),
            pipeline.luma_upscaler == LumaUpscalerMode::Off,
    {
        VideoRenderPipeline::sdr_default()
    }
}

} // verus!
