//! The modes that a render pipeline can be asked for.
use vstd::prelude::*;

verus! {

/// How luminance above the target's peak is brought down.
#[derive(Debug, Clone, Copy, PartialEq, Eq, Structural)]
pub enum ToneMapOperator {
    Clip,
    Reinhard,
    Mobius,
    Bt2390,
    Spline,
    Bt2446a,
    St209410,
}

impl Default for ToneMapOperator {
    fn default() -> (operator: Self)
        ensures
            operator == ToneMapOperator::Bt2390,
    {
        ToneMapOperator::Bt2390
    }
}

/// The number by which shaders know an operator.
pub open spec fn tone_map_number(operator: ToneMapOperator) -> u32 {
    match operator {
        ToneMapOperator::Clip => 0,
        ToneMapOperator::Reinhard => 1,
        ToneMapOperator::Mobius => 2,
        ToneMapOperator::Bt2390 => 3,
        ToneMapOperator::Spline => 4,
        ToneMapOperator::Bt2446a => 5,
        ToneMapOperator::St209410 => 6,
    }
}

pub fn tone_map_code(operator: ToneMapOperator) -> (code: u32)
    ensures
        code == tone_map_number(operator),
{
    match operator {
        ToneMapOperator::Clip => 0,
        ToneMapOperator::Reinhard => 1,
        ToneMapOperator::Mobius => 2,
        ToneMapOperator::Bt2390 => 3,
        ToneMapOperator::Spline => 4,
        ToneMapOperator::Bt2446a => 5,
        ToneMapOperator::St209410 => 6,
    }
}

/// Distinct operators have distinct shader numbers.
pub proof fn law_tone_map_numbers_are_distinct(a: ToneMapOperator, b: ToneMapOperator)
    requires
        tone_map_number(a) == tone_map_number(b),
    ensures
        a == b,
{
}

/// How the frame is resampled to the presentation size.
#[derive(Debug, Clone, Copy, PartialEq, Eq, Structural)]
pub enum ScalerKernel {
    Nearest,
    Bilinear,
    Bicubic,
    Lanczos3,
}

impl Default for ScalerKernel {
    fn default() -> (kernel: Self)
        ensures
            kernel == ScalerKernel::Bilinear,
    {
        ScalerKernel::Bilinear
    }
}

/// Which network doubles the luma plane, if any.
#[derive(Debug, Clone, Copy, PartialEq, Eq, Structural)]
pub enum LumaUpscalerMode {
    Off,
    ArtCnnC4F16,
    ArtCnnC4F16Ds,
    ArtCnnC4F32,
}

impl Default for LumaUpscalerMode {
    fn default() -> (mode: Self)
        ensures
            mode == LumaUpscalerMode::Off,
    {
        LumaUpscalerMode::Off
    }
}

/// The name of a mode in messages.
pub open spec fn mode_name(mode: LumaUpscalerMode) -> Seq<char> {
    match mode {
        LumaUpscalerMode::Off => "Off"@,
        LumaUpscalerMode::ArtCnnC4F16 => "ArtCnnC4F16"@,
        LumaUpscalerMode::ArtCnnC4F16Ds => "ArtCnnC4F16Ds"@,
        LumaUpscalerMode::ArtCnnC4F32 => "ArtCnnC4F32"@,
    }
}

impl LumaUpscalerMode {
    /// Whether a network runs at all.
    pub fn is_enabled(self) -> (enabled: bool)
        ensures
            enabled == (self != LumaUpscalerMode::Off),
    {
        !matches!(self, LumaUpscalerMode::Off)
    }

    /// The name of the mode in messages.
    pub fn name(self) -> (name: &'static str)
        ensures
            name@ == mode_name(self),
    {
        match self {
            LumaUpscalerMode::Off => "Off",
            LumaUpscalerMode::ArtCnnC4F16 => "ArtCnnC4F16",
            LumaUpscalerMode::ArtCnnC4F16Ds => "ArtCnnC4F16Ds",
            LumaUpscalerMode::ArtCnnC4F32 => "ArtCnnC4F32",
        }
    }
}

/// What the neural upscaler of a back end is doing.
#[derive(Debug, Clone, Copy, PartialEq, Eq, Structural)]
pub enum LumaUpscalerBackendStatus {
    Off,
    Building,
    Scalar,
    SimdgroupMatrix,
    Inactive,
}

impl Default for LumaUpscalerBackendStatus {
    fn default() -> (status: Self)
        ensures
            status == LumaUpscalerBackendStatus::Off,
    {
        LumaUpscalerBackendStatus::Off
    }
}

} // verus!
