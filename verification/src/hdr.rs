//! Static metadata of high-dynamic-range sources.
use crate::color::Chromaticity;
use crate::float::F32;
use crate::product::integer_value;
use vstd::prelude::*;

verus! {

/// A number that can be a luminance: finite and above zero.
pub open spec fn usable(nits: F32) -> bool {
    nits.finite() && (F32 { bits: 0 }).below(nits)
}

pub fn is_usable(nits: F32) -> (yes: bool)
    ensures
        yes == usable(nits),
{
    nits.is_finite() && nits.is_positive()
}

/// The display that the source was mastered on.
#[derive(Debug, Clone, Copy, PartialEq, Eq)]
pub struct MasteringDisplayMetadata {
    pub display_primaries: Option<[Chromaticity; 3]>,
    pub white_point: Option<Chromaticity>,
    pub min_luminance_nits: Option<F32>,
    pub max_luminance_nits: Option<F32>,
}

impl MasteringDisplayMetadata {
    pub fn max_luminance_nits(self) -> (nits: Option<F32>)
        ensures
            nits == self.max_luminance_nits,
    {
        self.max_luminance_nits
    }
}

/// The brightest pixel and the brightest frame of the source.
#[derive(Debug, Clone, Copy, PartialEq, Eq, Structural)]
pub struct ContentLightMetadata {
    pub max_content_light_level_nits: u32,
    pub max_frame_average_light_level_nits: u32,
}

/// A light level as a number; zero means that the level is unknown.
pub open spec fn known_level(level: u32) -> Option<F32> {
    if level == 0 {
        None
    } else {
        Some(integer_value(level as int))
    }
}

impl ContentLightMetadata {
    pub fn max_content_light_level_nits(self) -> (nits: Option<F32>)
        ensures
            nits == known_level(self.max_content_light_level_nits),
    {
        if self.max_content_light_level_nits == 0 {
            None
        } else {
            Some(F32::from_u32(self.max_content_light_level_nits))
        }
    }

    pub fn max_frame_average_light_level_nits(self) -> (nits: Option<F32>)
        ensures
            nits == known_level(self.max_frame_average_light_level_nits),
    {
        if self.max_frame_average_light_level_nits == 0 {
            None
        } else {
            Some(F32::from_u32(self.max_frame_average_light_level_nits))
        }
    }
}

/// Static metadata of a source.
#[derive(Debug, Clone, Copy, PartialEq, Eq)]
pub struct HdrMetadata {
    pub mastering_display: Option<MasteringDisplayMetadata>,
    pub content_light: Option<ContentLightMetadata>,
}

/// Below this many nits a content light level is not believed where the
/// mastering display says otherwise.
pub const LEAST_CREDIBLE_LEVEL: u32 = 10;

impl HdrMetadata {
    pub fn new(
        mastering_display: Option<MasteringDisplayMetadata>,
        content_light: Option<ContentLightMetadata>,
    ) -> (metadata: Self)
        ensures
            metadata == (HdrMetadata { mastering_display, content_light }),
    {
        HdrMetadata { mastering_display, content_light }
    }

    /// The mastering display's peak, where it is known.
    pub open spec fn mastering_peak(self) -> Option<F32> {
        match self.mastering_display {
            Some(mastering) => mastering.max_luminance_nits,
            None => None,
        }
    }

    /// The content light level; zero where it is unknown.
    pub open spec fn content_level(self) -> u32 {
        match self.content_light {
            Some(light) => light.max_content_light_level_nits,
            None => 0,
        }
    }

    /// The frame average light level; zero where it is unknown.
    pub open spec fn frame_average_level(self) -> u32 {
        match self.content_light {
            Some(light) => light.max_frame_average_light_level_nits,
            None => 0,
        }
    }

    /// The peak that tone mapping starts from: the smaller of what the display
    /// could show and what the content holds, as far as either is known.
    pub open spec fn peak(self) -> Option<F32> {
        match self.mastering_peak() {
            Some(mastering) => if self.content_level() >= LEAST_CREDIBLE_LEVEL {
                Some(mastering.lesser(integer_value(self.content_level() as int)))
            } else {
                Some(mastering)
            },
            None => known_level(self.content_level()),
        }
    }

    pub fn nominal_peak_nits(self) -> (nits: Option<F32>)
        ensures
            nits == self.peak(),
    {
        let mastering: Option<F32> = match self.mastering_display {
            Some(mastering) => mastering.max_luminance_nits(),
            None => None,
        };
        let level: u32 = match self.content_light {
            Some(light) => light.max_content_light_level_nits,
            None => 0,
        };
        match mastering {
            Some(mastering) => if level >= LEAST_CREDIBLE_LEVEL {
                Some(mastering.min_of(F32::from_u32(level)))
            } else {
                Some(mastering)
            },
            None => match self.content_light {
                Some(light) => light.max_content_light_level_nits(),
                None => None,
            },
        }
    }

    pub fn max_frame_average_light_level_nits(self) -> (nits: Option<F32>)
        ensures
            nits == known_level(self.frame_average_level()),
    {
        match self.content_light {
            Some(light) => light.max_frame_average_light_level_nits(),
            None => None,
        }
    }
}

} // verus!
