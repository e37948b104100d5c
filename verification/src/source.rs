//! What is known of a source's colours, and of the target's.
use crate::color::{ColorPrimaries, ColorRange, MatrixCoefficients, TransferFunction};
use crate::float::{
    lemma_constants_are_what_they_say, F32, HUNDRED_BITS, ONE_BITS, TEN_THOUSAND_BITS, THOUSAND_BITS, TWO_HUNDRED_THREE_BITS,
};
use crate::hdr::{is_usable, known_level, usable, HdrMetadata, MasteringDisplayMetadata};
use crate::product::product;
use crate::matrix::RgbMatrix;
use vstd::prelude::*;

verus! {

/// Reshaping pieces that a component can have.
pub const DOVI_MAX_PIECES: usize = 8;

/// Orders that a cross-component piece can have.
pub const DOVI_MAX_MMR_ORDER: usize = 3;

/// Coefficients of each order: three linear terms and four cross products.
pub const DOVI_MMR_COEFFS: usize = 7;

/// Ends of pieces that a component can have.
pub const DOVI_MAX_PIVOTS: usize = 9;

/// The reshaping curve of one component.
#[derive(Debug, Clone, Copy, PartialEq, Eq)]
pub struct DoviComponentCurve {
    /// Zero where the component is not reshaped, else 2 to 9.
    pub num_pivots: u8,
    /// Ascending, in the unit interval. Only the first `num_pivots` count.
    pub pivots: [F32; DOVI_MAX_PIVOTS],
    /// Polynomial coefficients of each piece, constant term first.
    pub poly_coeffs: [[F32; 3]; DOVI_MAX_PIECES],
    /// Zero for a polynomial, else the order of the cross-component piece.
    pub mmr_orders: [u8; DOVI_MAX_PIECES],
    pub mmr_constants: [F32; DOVI_MAX_PIECES],
    pub mmr_coeffs: [[[F32; DOVI_MMR_COEFFS]; DOVI_MAX_MMR_ORDER]; DOVI_MAX_PIECES],
}

impl Default for DoviComponentCurve {
    fn default() -> (curve: Self)
        ensures
            curve.num_pivots == 0,
            forall|k: int| 0 <= k < 9 ==> #[trigger] curve.pivots@[k] == (F32 { bits: 0 }),
            forall|k: int, j: int|
                0 <= k < 8 && 0 <= j < 3 ==> (#[trigger] curve.poly_coeffs@[k]@[j]) == (F32 {
                    bits: 0,
                }),
            forall|k: int| 0 <= k < 8 ==> #[trigger] curve.mmr_orders@[k] == 0,
            forall|k: int| 0 <= k < 8 ==> #[trigger] curve.mmr_constants@[k] == (F32 { bits: 0 }),
            forall|k: int, i: int, j: int|
                0 <= k < 8 && 0 <= i < 3 && 0 <= j < 7 ==> (
                #[trigger] curve.mmr_coeffs@[k]@[i]@[j]) == (F32 { bits: 0 }),
    {
        let zero = F32 { bits: 0 };
        DoviComponentCurve {
            num_pivots: 0,
            pivots: [zero; 9],
            poly_coeffs: [[zero; 3]; 8],
            mmr_orders: [0u8; 8],
            mmr_constants: [zero; 8],
            mmr_coeffs: [[[zero; 7]; 3]; 8],
        }
    }
}

/// Black, peak and average of one frame as 12-bit codes of the perceptual
/// quantizer.
#[derive(Debug, Clone, Copy, PartialEq, Eq, Structural)]
pub struct DoviFramePq {
    pub min_pq: u16,
    pub max_pq: u16,
    pub avg_pq: u16,
}

/// The luminances that the codes of a frame's metadata stand for.
#[derive(Debug, Clone, Copy, PartialEq, Eq, Structural)]
pub struct DoviNits {
    pub source_min: F32,
    pub source_max: F32,
    pub frame_max: F32,
    pub frame_avg: F32,
}

/// Dynamic metadata of one frame.
#[derive(Debug, Clone, Copy, PartialEq, Eq)]
pub struct DoviSourceMetadata {
    /// The reshaping curves of luma and the two chroma components.
    pub reshaping: [DoviComponentCurve; 3],
    /// Applied to the reshaped signal.
    pub nonlinear_matrix: RgbMatrix,
    /// Subtracted before the matrix is applied.
    pub nonlinear_offset: [F32; 3],
    pub rgb_to_lms: RgbMatrix,
    /// Code of the mastering display's black, zero where it is unknown.
    pub source_min_pq: u16,
    /// Code of the mastering display's peak, zero where it is unknown.
    pub source_max_pq: u16,
    /// Black, peak and average of this frame, where they are known.
    pub l1: Option<DoviFramePq>,
    /// The luminances of the codes.
    pub nits: DoviNits,
}

impl DoviSourceMetadata {
    /// The luminance of a code; code zero is black.
    pub open spec fn decoded(code: u16, nits: F32) -> F32 {
        if code == 0 {
            F32 { bits: 0 }
        } else {
            nits
        }
    }

    /// The mastering display's black, where it is known.
    pub open spec fn black(self) -> Option<F32> {
        let nits = self.nits.source_min;
        if self.source_min_pq != 0 && nits.finite() && !nits.below(F32 { bits: 0 }) {
            Some(nits)
        } else {
            None
        }
    }

    /// The mastering display's peak, zero where it is unknown.
    pub open spec fn mastering_peak(self) -> F32 {
        Self::decoded(self.source_max_pq, self.nits.source_max)
    }

    /// The frame's own peak, else the mastering display's.
    pub open spec fn frame_peak(self) -> F32 {
        match self.l1 {
            Some(l1) => if l1.max_pq != 0 {
                self.nits.frame_max
            } else {
                self.mastering_peak()
            },
            None => self.mastering_peak(),
        }
    }

    /// The frame's average, where it is known.
    pub open spec fn frame_average(self) -> Option<F32> {
        match self.l1 {
            Some(l1) => if l1.avg_pq != 0 && usable(self.nits.frame_avg) {
                Some(self.nits.frame_avg)
            } else {
                None
            },
            None => None,
        }
    }

    fn black_nits(&self) -> (nits: Option<F32>)
        ensures
            nits == self.black(),
    {
        let nits = self.nits.source_min;
        if self.source_min_pq != 0 && nits.is_finite() && !nits.less_than(F32 { bits: 0 }) {
            Some(nits)
        } else {
            None
        }
    }

    fn mastering_peak_nits(&self) -> (nits: F32)
        ensures
            nits == self.mastering_peak(),
    {
        if self.source_max_pq == 0 {
            F32 { bits: 0 }
        } else {
            self.nits.source_max
        }
    }

    fn frame_peak_nits(&self) -> (nits: F32)
        ensures
            nits == self.frame_peak(),
    {
        match self.l1 {
            Some(l1) => if l1.max_pq != 0 {
                self.nits.frame_max
            } else {
                self.mastering_peak_nits()
            },
            None => self.mastering_peak_nits(),
        }
    }

    /// The frame's average luminance, where it is known.
    pub fn frame_average_nits(&self) -> (nits: Option<F32>)
        ensures
            nits == self.frame_average(),
    {
        match self.l1 {
            Some(l1) => if l1.avg_pq != 0 && is_usable(self.nits.frame_avg) {
                Some(self.nits.frame_avg)
            } else {
                None
            },
            None => None,
        }
    }
}

/// The peak that a transfer function implies.
pub open spec fn transfer_peak(transfer: TransferFunction) -> F32 {
    match transfer {
        TransferFunction::Pq => F32 { bits: THOUSAND_BITS },
        TransferFunction::Hlg => F32 { bits: THOUSAND_BITS },
        _ => F32 { bits: HUNDRED_BITS },
    }
}

/// The reference white that a transfer function implies.
pub open spec fn transfer_white(transfer: TransferFunction) -> F32 {
    match transfer {
        TransferFunction::Pq => F32 { bits: TWO_HUNDRED_THREE_BITS },
        TransferFunction::Hlg => F32 { bits: TWO_HUNDRED_THREE_BITS },
        _ => F32 { bits: HUNDRED_BITS },
    }
}

pub fn nominal_peak_for_transfer(transfer: TransferFunction) -> (nits: F32)
    ensures
        nits == transfer_peak(transfer),
        nits.equals(
            match transfer {
                TransferFunction::Pq => 1000int,
                TransferFunction::Hlg => 1000int,
                _ => 100int,
            },
        ),
{
    proof {
        lemma_constants_are_what_they_say();
    }
    match transfer {
        TransferFunction::Pq => F32 { bits: THOUSAND_BITS },
        TransferFunction::Hlg => F32 { bits: THOUSAND_BITS },
        TransferFunction::Srgb | TransferFunction::Bt1886 => F32 { bits: HUNDRED_BITS },
        TransferFunction::Unknown => F32 { bits: HUNDRED_BITS },
    }
}

pub fn reference_white_for_transfer(transfer: TransferFunction) -> (nits: F32)
    ensures
        nits == transfer_white(transfer),
        nits.equals(
            match transfer {
                TransferFunction::Pq => 203int,
                TransferFunction::Hlg => 203int,
                _ => 100int,
            },
        ),
{
    proof {
        lemma_constants_are_what_they_say();
    }
    match transfer {
        TransferFunction::Pq | TransferFunction::Hlg => F32 { bits: TWO_HUNDRED_THREE_BITS },
        TransferFunction::Srgb | TransferFunction::Bt1886 | TransferFunction::Unknown => F32 {
            bits: HUNDRED_BITS,
        },
    }
}

/// A luminance of at least one.
pub open spec fn at_least_one(nits: F32) -> F32 {
    if (F32 { bits: ONE_BITS }).below(nits) {
        nits
    } else {
        F32 { bits: ONE_BITS }
    }
}

/// The colours of a source.
#[derive(Debug, Clone, Copy, PartialEq, Eq)]
pub struct SourceColorState {
    pub primaries: ColorPrimaries,
    pub transfer: TransferFunction,
    pub matrix: MatrixCoefficients,
    pub range: ColorRange,
    pub hdr_metadata: Option<HdrMetadata>,
    pub dovi: Option<DoviSourceMetadata>,
    /// The measured average luminance of the frame, where it was measured.
    pub measured_scene_avg_nits: Option<F32>,
    pub nominal_peak_nits: F32,
    pub reference_white_nits: F32,
}

/// The encoding of one and a half.
pub const ONE_AND_A_HALF_BITS: u32 = 0x3fc0_0000;

/// What dynamic metadata leaves of the static metadata: the luminance bounds
/// are its own where it has any, all else stays.
pub open spec fn merged_metadata(
    metadata: Option<HdrMetadata>,
    dovi: DoviSourceMetadata,
) -> Option<HdrMetadata> {
    let nothing_new = dovi.black() is None && !usable(dovi.frame_peak());
    if nothing_new && metadata is None {
        None
    } else {
        let old_display = match metadata {
            Some(hdr) => hdr.mastering_display,
            None => None,
        };
        let display = match old_display {
            Some(display) => display,
            None => MasteringDisplayMetadata {
                display_primaries: None,
                white_point: None,
                min_luminance_nits: None,
                max_luminance_nits: None,
            },
        };
        Some(
            HdrMetadata {
                mastering_display: Some(
                    MasteringDisplayMetadata {
                        display_primaries: display.display_primaries,
                        white_point: display.white_point,
                        min_luminance_nits: if dovi.black() is Some {
                            dovi.black()
                        } else {
                            display.min_luminance_nits
                        },
                        max_luminance_nits: if usable(dovi.mastering_peak()) {
                            Some(dovi.mastering_peak())
                        } else {
                            display.max_luminance_nits
                        },
                    },
                ),
                content_light: match metadata {
                    Some(hdr) => hdr.content_light,
                    None => None,
                },
            },
        )
    }
}

impl SourceColorState {
    /// A source of which nothing but this is known.
    pub open spec fn plain(primaries: ColorPrimaries, transfer: TransferFunction) -> Self {
        SourceColorState {
            primaries,
            transfer,
            matrix: MatrixCoefficients::Unspecified,
            range: ColorRange::Unspecified,
            hdr_metadata: None,
            dovi: None,
            measured_scene_avg_nits: None,
            nominal_peak_nits: transfer_peak(transfer),
            reference_white_nits: transfer_white(transfer),
        }
    }

    pub fn new(primaries: ColorPrimaries, transfer: TransferFunction) -> (source: Self)
        ensures
            source == SourceColorState::plain(primaries, transfer),
    {
        SourceColorState {
            primaries,
            transfer,
            matrix: MatrixCoefficients::default(),
            range: ColorRange::default(),
            hdr_metadata: None,
            dovi: None,
            measured_scene_avg_nits: None,
            nominal_peak_nits: nominal_peak_for_transfer(transfer),
            reference_white_nits: reference_white_for_transfer(transfer),
        }
    }

    pub fn range(self, range: ColorRange) -> (source: Self)
        ensures
            source == (SourceColorState { range, ..self }),
    {
        let mut source = self;
        source.range = range;
        source
    }

    pub fn matrix(self, matrix: MatrixCoefficients) -> (source: Self)
        ensures
            source == (SourceColorState { matrix, ..self }),
    {
        let mut source = self;
        source.matrix = matrix;
        source
    }

    pub fn nominal_peak_nits(self, peak: F32) -> (source: Self)
        ensures
            source == (SourceColorState { nominal_peak_nits: at_least_one(peak), ..self }),
    {
        let mut source = self;
        source.nominal_peak_nits = peak.at_least(F32 { bits: ONE_BITS });
        source
    }

    /// Attaches static metadata. A peak that follows from it becomes the nominal
    /// peak.
    pub fn hdr_metadata(self, metadata: Option<HdrMetadata>) -> (source: Self)
        ensures
            source == (SourceColorState {
                hdr_metadata: metadata,
                nominal_peak_nits: match metadata {
                    Some(hdr) => match hdr.peak() {
                        Some(peak) => at_least_one(peak),
                        None => self.nominal_peak_nits,
                    },
                    None => self.nominal_peak_nits,
                },
                ..self
            }),
    {
        let mut source = self;
        if let Some(hdr) = metadata {
            if let Some(peak) = hdr.nominal_peak_nits() {
                source.nominal_peak_nits = peak.at_least(F32 { bits: ONE_BITS });
            }
        }
        source.hdr_metadata = metadata;
        source
    }

    /// The nominal peak once dynamic metadata is attached: the frame's, else
    /// one that is above reference white.
    pub open spec fn dynamic_peak(self, dovi: DoviSourceMetadata) -> F32 {
        let white = F32 { bits: TWO_HUNDRED_THREE_BITS };
        if (F32 { bits: 0 }).below(dovi.frame_peak()) {
            at_least_one(dovi.frame_peak())
        } else if !self.nominal_peak_nits.nan() && !white.below(self.nominal_peak_nits) {
            F32 { bits: THOUSAND_BITS }
        } else {
            self.nominal_peak_nits
        }
    }

    /// Attaches dynamic metadata of a frame, or takes it away. Its signal is
    /// always BT.2020 with the perceptual quantizer, whatever the stream says.
    /// The frame's own peak drives tone mapping only: the mastering display's
    /// peak stays the static one.
    pub fn dovi(self, metadata: Option<DoviSourceMetadata>) -> (source: Self)
        ensures
            source == match metadata {
                None => SourceColorState { dovi: None, ..self },
                Some(dovi) => SourceColorState {
                    primaries: ColorPrimaries::Bt2020,
                    transfer: TransferFunction::Pq,
                    reference_white_nits: F32 { bits: TWO_HUNDRED_THREE_BITS },
                    nominal_peak_nits: self.dynamic_peak(dovi),
                    hdr_metadata: merged_metadata(self.hdr_metadata, dovi),
                    dovi: metadata,
                    ..self
                },
            },
    {
        let mut source = self;
        match metadata {
            None => {
                source.dovi = None;
            },
            Some(dovi) => {
                source.primaries = ColorPrimaries::Bt2020;
                source.transfer = TransferFunction::Pq;
                source.reference_white_nits =
                reference_white_for_transfer(TransferFunction::Pq).at_least(
                    F32 { bits: ONE_BITS },
                );
                let black: Option<F32> = dovi.black_nits();
                let mastering_peak = dovi.mastering_peak_nits();
                let peak = dovi.frame_peak_nits();
                if peak.is_positive() {
                    source.nominal_peak_nits = peak.at_least(F32 { bits: ONE_BITS });
                } else if !source.nominal_peak_nits.is_nan()
                    && !source.reference_white_nits.less_than(source.nominal_peak_nits) {
                    source.nominal_peak_nits = nominal_peak_for_transfer(TransferFunction::Pq);
                }
                if black.is_some() || is_usable(peak) || source.hdr_metadata.is_some() {
                    let hdr: HdrMetadata = match source.hdr_metadata {
                        Some(hdr) => hdr,
                        None => HdrMetadata::new(None, None),
                    };
                    let mut mastering: MasteringDisplayMetadata = match hdr.mastering_display {
                        Some(mastering) => mastering,
                        None => MasteringDisplayMetadata {
                            display_primaries: None,
                            white_point: None,
                            min_luminance_nits: None,
                            max_luminance_nits: None,
                        },
                    };
                    if black.is_some() {
                        mastering.min_luminance_nits = black;
                    }
                    if is_usable(mastering_peak) {
                        mastering.max_luminance_nits = Some(mastering_peak);
                    }
                    source.hdr_metadata = Some(
                        HdrMetadata::new(Some(mastering), hdr.content_light),
                    );
                }
                source.dovi = Some(dovi);
            },
        }
        source
    }

    /// Attaches a measured average luminance. A measurement that is no
    /// luminance is taken as none.
    pub fn measured_scene_avg_nits(self, scene_avg_nits: Option<F32>) -> (source: Self)
        ensures
            source == (SourceColorState {
                measured_scene_avg_nits: if scene_avg_nits is Some && usable(
                    scene_avg_nits.unwrap(),
                ) {
                    scene_avg_nits
                } else {
                    None
                },
                ..self
            }),
    {
        let mut source = self;
        source.measured_scene_avg_nits = None;
        if let Some(value) = scene_avg_nits {
            if is_usable(value) {
                source.measured_scene_avg_nits = Some(value);
            }
        }
        source
    }

    pub fn reference_white_nits(self, white: F32) -> (source: Self)
        ensures
            source == (SourceColorState { reference_white_nits: at_least_one(white), ..self }),
    {
        let mut source = self;
        source.reference_white_nits = white.at_least(F32 { bits: ONE_BITS });
        source
    }

    /// The source has a high dynamic range: by its transfer function, or by a
    /// peak above one and a half times its reference white.
    pub open spec fn hdr(self) -> bool {
        ||| self.transfer == TransferFunction::Pq
        ||| self.transfer == TransferFunction::Hlg
        ||| product(self.reference_white_nits, F32 { bits: ONE_AND_A_HALF_BITS }).below(
            self.nominal_peak_nits,
        )
    }

    pub fn is_hdr(&self) -> (hdr: bool)
        ensures
            hdr == self.hdr(),
    {
        if matches!(self.transfer, TransferFunction::Pq | TransferFunction::Hlg) {
            return true;
        }
        self.reference_white_nits.times(F32 { bits: ONE_AND_A_HALF_BITS }).less_than(
            self.nominal_peak_nits,
        )
    }

    /// The peak that stays the same from frame to frame: the mastering display's
    /// where it is known, else the nominal one.
    pub open spec fn static_peak(self) -> F32 {
        match self.hdr_metadata {
            Some(hdr) => match hdr.mastering_peak() {
                Some(peak) => if usable(peak) {
                    peak
                } else {
                    self.nominal_peak_nits
                },
                None => self.nominal_peak_nits,
            },
            None => self.nominal_peak_nits,
        }
    }

    pub fn static_source_peak_nits(&self) -> (nits: F32)
        ensures
            nits == self.static_peak(),
    {
        if let Some(hdr) = self.hdr_metadata {
            if let Some(mastering) = hdr.mastering_display {
                if let Some(peak) = mastering.max_luminance_nits {
                    if is_usable(peak) {
                        return peak;
                    }
                }
            }
        }
        self.nominal_peak_nits
    }

    /// The average luminance of the scene: measured, else the frame's own, else
    /// the brightest frame's, else zero.
    pub open spec fn scene_average(self) -> F32 {
        let dynamic = match self.dovi {
            Some(dovi) => dovi.frame_average(),
            None => None,
        };
        let level = match self.hdr_metadata {
            Some(hdr) => hdr.frame_average_level(),
            None => 0,
        };
        if self.measured_scene_avg_nits is Some {
            self.measured_scene_avg_nits.unwrap()
        } else if dynamic is Some {
            dynamic.unwrap()
        } else if level != 0 {
            known_level(level).unwrap()
        } else {
            F32 { bits: 0 }
        }
    }

    pub fn source_scene_avg_nits(&self) -> (nits: F32)
        ensures
            nits == self.scene_average(),
    {
        if let Some(measured) = self.measured_scene_avg_nits {
            return measured;
        }
        if let Some(dovi) = &self.dovi {
            if let Some(average) = dovi.frame_average_nits() {
                return average;
            }
        }
        if let Some(hdr) = self.hdr_metadata {
            if let Some(level) = hdr.max_frame_average_light_level_nits() {
                return level;
            }
        }
        F32 { bits: 0 }
    }
}

impl Default for SourceColorState {
    fn default() -> (source: Self)
        ensures
            source == SourceColorState::plain(ColorPrimaries::Unknown, TransferFunction::Unknown),
    {
        SourceColorState::new(ColorPrimaries::Unknown, TransferFunction::Unknown)
    }
}

/// The brightness of a frame never changes the static peak: two frames whose
/// dynamic metadata differ in nothing but the frame's own luminances have the
/// same static metadata, wherever the mastering display's peak is known.
pub proof fn law_frame_brightness_keeps_the_static_peak(
    source: SourceColorState,
    a: DoviSourceMetadata,
    b: DoviSourceMetadata,
)
    requires
        a.source_min_pq == b.source_min_pq,
        a.source_max_pq == b.source_max_pq,
        a.nits.source_min == b.nits.source_min,
        a.nits.source_max == b.nits.source_max,
        usable(a.mastering_peak()),
        usable(a.frame_peak()) && usable(b.frame_peak()),
    ensures
        merged_metadata(source.hdr_metadata, a) == merged_metadata(source.hdr_metadata, b),
        merged_metadata(source.hdr_metadata, a).unwrap().mastering_peak() == Some(
            a.mastering_peak(),
        ),
{
}

/// The colours of a target surface.
#[derive(Debug, Clone, Copy, PartialEq, Eq, Structural)]
pub struct TargetColorState {
    pub primaries: ColorPrimaries,
    pub transfer: TransferFunction,
    pub peak_nits: F32,
    pub reference_white_nits: F32,
    pub edr_headroom: F32,
}

impl TargetColorState {
    /// A standard-range target.
    pub open spec fn standard(primaries: ColorPrimaries) -> Self {
        TargetColorState {
            primaries,
            transfer: TransferFunction::Srgb,
            peak_nits: F32 { bits: HUNDRED_BITS },
            reference_white_nits: F32 { bits: HUNDRED_BITS },
            edr_headroom: F32 { bits: ONE_BITS },
        }
    }

    pub fn sdr(primaries: ColorPrimaries) -> (target: Self)
        ensures
            target == TargetColorState::standard(primaries),
    {
        TargetColorState {
            primaries,
            transfer: TransferFunction::Srgb,
            peak_nits: F32 { bits: HUNDRED_BITS },
            reference_white_nits: F32 { bits: HUNDRED_BITS },
            edr_headroom: F32 { bits: ONE_BITS },
        }
    }

    /// A standard-range target for sources that are tone mapped down to it: its
    /// peak and white follow the reference white of high-dynamic-range sources.
    pub fn sdr_tone_map_target(primaries: ColorPrimaries) -> (target: Self)
        ensures
            target == (TargetColorState {
                primaries,
                transfer: TransferFunction::Srgb,
                peak_nits: F32 { bits: TWO_HUNDRED_THREE_BITS },
                reference_white_nits: F32 { bits: TWO_HUNDRED_THREE_BITS },
                edr_headroom: F32 { bits: ONE_BITS },
            }),
    {
        TargetColorState {
            primaries,
            transfer: TransferFunction::Srgb,
            peak_nits: F32 { bits: TWO_HUNDRED_THREE_BITS },
            reference_white_nits: F32 { bits: TWO_HUNDRED_THREE_BITS },
            edr_headroom: F32 { bits: ONE_BITS },
        }
    }

    /// The target is an extended linear one with this white and headroom: its
    /// peak is their product.
    pub open spec fn extends(
        self,
        primaries: ColorPrimaries,
        reference_white_nits: F32,
        headroom: F32,
    ) -> bool {
        &&& self.primaries == primaries
        &&& self.transfer == TransferFunction::Srgb
        &&& self.reference_white_nits == at_least_one(reference_white_nits)
        &&& self.edr_headroom == at_least_one(headroom)
        &&& self.peak_nits == product(self.reference_white_nits, self.edr_headroom)
    }

    pub fn apple_edr(primaries: ColorPrimaries, headroom: F32) -> (target: Self)
        ensures
            target.extends(primaries, F32 { bits: TWO_HUNDRED_THREE_BITS }, headroom),
    {
        TargetColorState::extended_linear(
            primaries,
            F32 { bits: TWO_HUNDRED_THREE_BITS },
            headroom,
        )
    }

    pub fn extended_linear(
        primaries: ColorPrimaries,
        reference_white_nits: F32,
        headroom: F32,
    ) -> (target: Self)
        ensures
            target.extends(primaries, reference_white_nits, headroom),
    {
        let white = reference_white_nits.at_least(F32 { bits: ONE_BITS });
        let headroom = headroom.at_least(F32 { bits: ONE_BITS });
        TargetColorState {
            primaries,
            transfer: TransferFunction::Srgb,
            peak_nits: white.times(headroom),
            reference_white_nits: white,
            edr_headroom: headroom,
        }
    }

    pub fn hdr10(primaries: ColorPrimaries) -> (target: Self)
        ensures
            target == (TargetColorState {
                primaries,
                transfer: TransferFunction::Pq,
                peak_nits: F32 { bits: TEN_THOUSAND_BITS },
                reference_white_nits: F32 { bits: TWO_HUNDRED_THREE_BITS },
                edr_headroom: F32 { bits: ONE_BITS },
            }),
    {
        TargetColorState {
            primaries,
            transfer: TransferFunction::Pq,
            peak_nits: F32 { bits: TEN_THOUSAND_BITS },
            reference_white_nits: F32 { bits: TWO_HUNDRED_THREE_BITS },
            edr_headroom: F32 { bits: ONE_BITS },
        }
    }
}

impl Default for TargetColorState {
    fn default() -> (target: Self)
        ensures
            target == TargetColorState::standard(ColorPrimaries::Bt709),
    {
        TargetColorState::sdr(ColorPrimaries::Bt709)
    }
}

} // verus!
