//! The perceptual gamut lookup table: its lattice, and when it is generated,
//! uploaded and used.
use crate::color::{
    code_to_primaries, law_packed_primaries_round_trip, numbered_primaries, primaries_number,
    ColorPrimaries,
};
use crate::float::F32;
use crate::pipeline::{needs_tone_map, VideoRenderPipeline};
use vstd::prelude::*;

verus! {

/// Points along the intensity axis.
pub const LUT_SIZE_I: usize = 48;

/// Points along the chroma axis.
pub const LUT_SIZE_C: usize = 32;

/// Points along the hue axis.
pub const LUT_SIZE_H: usize = 256;

/// Channels of a texel.
pub const LUT_COMPONENTS: usize = 4;

/// Texels of the table.
pub const LUT_TEXELS: usize = 393_216;

/// A point of the lattice.
#[derive(Debug, Clone, Copy, PartialEq, Eq, Structural)]
pub struct LatticePoint {
    pub intensity: usize,
    pub chroma: usize,
    pub hue: usize,
}

/// Where a point stands in the table: intensity is the width of the texture,
/// chroma its height and hue its depth.
pub open spec fn lattice_index(point: LatticePoint) -> int {
    (point.hue * 32 + point.chroma) * 48 + point.intensity
}

/// The point lies in the lattice.
pub open spec fn in_lattice(point: LatticePoint) -> bool {
    point.intensity < LUT_SIZE_I && point.chroma < LUT_SIZE_C && point.hue < LUT_SIZE_H
}

/// The point that stands at a place in the table.
pub fn lattice_point(index: usize) -> (point: LatticePoint)
    requires
        index < LUT_TEXELS,
    ensures
        in_lattice(point),
        lattice_index(point) == index,
{
    LatticePoint {
        intensity: index % LUT_SIZE_I,
        chroma: (index / LUT_SIZE_I) % LUT_SIZE_C,
        hue: index / LUT_SIZE_I / LUT_SIZE_C,
    }
}

/// Every point of the lattice has one place in the table, and no two share one.
pub proof fn law_lattice_is_a_bijection(a: LatticePoint, b: LatticePoint)
    requires
        in_lattice(a),
        in_lattice(b),
    ensures
        0 <= lattice_index(a) < LUT_TEXELS,
        lattice_index(a) == lattice_index(b) ==> a == b,
        LUT_SIZE_I * LUT_SIZE_C * LUT_SIZE_H == LUT_TEXELS,
{
}

/// Bytes of a row and of a slice of the uploaded texture.
pub fn lut_pitches() -> (pitches: (usize, usize))
    ensures
        pitches.0 == LUT_SIZE_I * 8,
        pitches.1 == LUT_SIZE_C * LUT_SIZE_I * 8,
{
    (LUT_SIZE_I * LUT_COMPONENTS * 2, LUT_SIZE_C * (LUT_SIZE_I * LUT_COMPONENTS * 2))
}

/// What a table is generated from: the primaries on both sides, and the target's
/// black and peak as codes of the perceptual quantizer.
#[derive(Debug, Clone, Copy, PartialEq, Eq, Structural)]
pub struct GamutLutParams {
    pub source: ColorPrimaries,
    pub target: ColorPrimaries,
    pub min_luma: F32,
    pub max_luma: F32,
}

impl GamutLutParams {
    /// The parameters give the same table.
    pub open spec fn alike(self, other: Self) -> bool {
        &&& self.source == other.source
        &&& self.target == other.target
        &&& self.min_luma.equal_number(other.min_luma)
        &&& self.max_luma.equal_number(other.max_luma)
    }

    pub fn is_like(&self, other: &Self) -> (alike: bool)
        ensures
            alike == self.alike(*other),
    {
        self.source == other.source && self.target == other.target && self.min_luma.same_number(
            other.min_luma,
        ) && self.max_luma.same_number(other.max_luma)
    }
}

/// What a table on the device was made for.
#[derive(Debug, Clone, Copy, PartialEq, Eq, Structural)]
pub struct GamutLutKey {
    pub source: u32,
    pub target: u32,
    pub target_black_pq: u32,
    pub target_peak_pq: u32,
}

impl GamutLutKey {
    /// The key of a frame, given the codes of the pipeline's `lut_nits`.
    pub fn for_pipeline(
        pipeline: &VideoRenderPipeline,
        target_black_pq: u32,
        target_peak_pq: u32,
    ) -> (key: Self)
        ensures
            key == (GamutLutKey {
                source: primaries_number(pipeline.source.primaries),
                target: primaries_number(pipeline.target.primaries),
                target_black_pq,
                target_peak_pq,
            }),
    {
        let packed: u32 = pipeline.gamut_primaries_code();
        proof {
            law_packed_primaries_round_trip(
                pipeline.source.primaries,
                pipeline.target.primaries,
                packed,
            );
        }
        GamutLutKey {
            source: packed >> 8,
            target: packed & 0xff,
            target_black_pq,
            target_peak_pq,
        }
    }

    /// The parameters of the key's table, given the exact codes.
    pub fn params(&self, min_luma: F32, max_luma: F32) -> (params: GamutLutParams)
        ensures
            params == (GamutLutParams {
                source: numbered_primaries(self.source),
                target: numbered_primaries(self.target),
                min_luma,
                max_luma,
            }),
    {
        GamutLutParams {
            source: code_to_primaries(self.source),
            target: code_to_primaries(self.target),
            min_luma,
            max_luma,
        }
    }
}

impl VideoRenderPipeline {
    /// The two luminances that a table is keyed by: the target's black and its
    /// peak.
    pub fn lut_nits(&self) -> (nits: (F32, F32))
        ensures
            nits == (self.extra()[2], self.target.peak_nits),
    {
        (self.tone_map_extra()[2], self.target.peak_nits)
    }
}

/// What a frame does about the table.
#[derive(Debug, Clone, Copy, PartialEq, Eq, Structural)]
pub enum GamutLutStep {
    /// The frame does without.
    Skip,
    /// The table on the device is the frame's.
    Use,
    /// A table has to be generated; this frame does without.
    Generate(GamutLutParams),
    /// Ask whether the table that is being generated is finished.
    Poll,
}

/// The table on the device, and the one that is being generated.
#[derive(Debug, Clone, Copy, PartialEq, Eq, Structural)]
pub struct GamutLutState {
    pub cached: Option<GamutLutKey>,
    pub job: Option<GamutLutParams>,
}

impl GamutLutState {
    pub fn new() -> (state: Self)
        ensures
            state.cached is None,
            state.job is None,
    {
        GamutLutState { cached: None, job: None }
    }

    /// Decides what a frame does about the table. A table is used only where
    /// its key is the frame's.
    pub fn begin_frame(&mut self, active: bool, key: GamutLutKey, params: GamutLutParams) -> (
    step: GamutLutStep)
        ensures
            final(self).cached == old(self).cached,
            step == if !active {
                GamutLutStep::Skip
            } else if old(self).cached == Some(key) {
                GamutLutStep::Use
            } else if old(self).job is Some && old(self).job.unwrap().alike(params) {
                GamutLutStep::Poll
            } else {
                GamutLutStep::Generate(params)
            },
            final(self).job == if step is Generate {
                Some(params)
            } else {
                old(self).job
            },
    {
        if !active {
            return GamutLutStep::Skip;
        }
        if let Some(cached) = self.cached {
            if cached == key {
                return GamutLutStep::Use;
            }
        }
        if let Some(job) = self.job {
            if job.is_like(&params) {
                return GamutLutStep::Poll;
            }
        }
        self.job = Some(params);
        GamutLutStep::Generate(params)
    }

    /// Takes in that the polled table is finished.
    pub fn finished(&mut self)
        ensures
            final(self).job is None,
            final(self).cached == old(self).cached,
    {
        self.job = None;
    }

    /// Takes in that a table has been uploaded for this key.
    pub fn uploaded(&mut self, key: GamutLutKey)
        ensures
            final(self).cached == Some(key),
            final(self).job == old(self).job,
    {
        self.cached = Some(key);
    }
}

/// How bright a frame is does not change its table: frames of the same colour
/// spaces, target and contrast ask for the same one, as long as both are tone
/// mapped or neither is.
pub proof fn law_frame_brightness_keeps_the_table(a: VideoRenderPipeline, b: VideoRenderPipeline)
    requires
        a.source.primaries == b.source.primaries,
        a.target == b.target,
        a.tone_map.contrast_ratio == b.tone_map.contrast_ratio,
        needs_tone_map(a.source, a.target) == needs_tone_map(b.source, b.target),
    ensures
        primaries_number(a.source.primaries) == primaries_number(b.source.primaries),
        primaries_number(a.target.primaries) == primaries_number(b.target.primaries),
        a.extra()[2] == b.extra()[2],
        a.target.peak_nits == b.target.peak_nits,
{
}

} // verus!
