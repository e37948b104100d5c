//! Colour description: primaries, transfer functions, ranges and matrices.
use crate::float::F32;
use crate::product::{lemma_nearest, nearest, nearest_to};
use vstd::prelude::*;

verus! {

/// The set of primaries of a signal or a display.
#[derive(Debug, Clone, Copy, PartialEq, Eq, Hash, Structural)]
pub enum ColorPrimaries {
    Unknown,
    Bt709,
    Bt2020,
    DisplayP3,
}

/// How code values relate to light.
#[derive(Debug, Clone, Copy, PartialEq, Eq, Hash, Structural)]
pub enum TransferFunction {
    Unknown,
    Srgb,
    Bt1886,
    Pq,
    Hlg,
}

/// Which code values black and white have.
#[derive(Debug, Clone, Copy, PartialEq, Eq, Structural)]
pub enum ColorRange {
    Unspecified,
    Limited,
    Full,
}

impl Default for ColorRange {
    fn default() -> (range: Self)
        ensures
            range == ColorRange::Unspecified,
    {
        ColorRange::Unspecified
    }
}

impl ColorRange {
    /// The range itself, or the fallback where none is specified.
    pub fn resolve(self, fallback: Self) -> (range: Self)
        ensures
            range == if self == ColorRange::Unspecified {
                fallback
            } else {
                self
            },
    {
        match self {
            ColorRange::Unspecified => fallback,
            _ => self,
        }
    }
}

/// How luma and chroma are formed from red, green and blue.
#[derive(Debug, Clone, Copy, PartialEq, Eq, Structural)]
pub enum MatrixCoefficients {
    Unspecified,
    Identity,
    Bt601,
    Bt709,
    Bt2020NonConstantLuminance,
}

impl Default for MatrixCoefficients {
    fn default() -> (matrix: Self)
        ensures
            matrix == MatrixCoefficients::Unspecified,
    {
        MatrixCoefficients::Unspecified
    }
}

/// The matrix itself, or the one that goes with the primaries.
pub open spec fn resolved_matrix(
    matrix: MatrixCoefficients,
    primaries: ColorPrimaries,
) -> MatrixCoefficients {
    if matrix != MatrixCoefficients::Unspecified {
        matrix
    } else if primaries == ColorPrimaries::Bt2020 {
        MatrixCoefficients::Bt2020NonConstantLuminance
    } else {
        MatrixCoefficients::Bt709
    }
}

/// The weights of red, green and blue in luma.
#[derive(Debug, Clone, Copy, PartialEq, Eq, Structural)]
pub struct LumaCoefficients {
    pub kr: F32,
    pub kg: F32,
    pub kb: F32,
}

impl LumaCoefficients {
    pub fn new(kr: F32, kg: F32, kb: F32) -> (coefficients: Self)
        ensures
            coefficients == (LumaCoefficients { kr, kg, kb }),
    {
        LumaCoefficients { kr, kg, kb }
    }

    /// The weights are these ten-thousandths.
    pub open spec fn are(self, kr: int, kg: int, kb: int) -> bool {
        nearest(self.kr, kr, 10000) && nearest(self.kg, kg, 10000) && nearest(self.kb, kb, 10000)
    }
}

impl MatrixCoefficients {
    pub fn resolve(self, primaries: ColorPrimaries) -> (matrix: Self)
        ensures
            matrix == resolved_matrix(self, primaries),
    {
        if self != MatrixCoefficients::Unspecified {
            return self;
        }
        match primaries {
            ColorPrimaries::Bt2020 => MatrixCoefficients::Bt2020NonConstantLuminance,
            ColorPrimaries::Bt709 | ColorPrimaries::DisplayP3 => MatrixCoefficients::Bt709,
            ColorPrimaries::Unknown => MatrixCoefficients::Bt709,
        }
    }

    /// The luma weights of the resolved matrix.
    pub fn luma_coefficients(self, primaries: ColorPrimaries) -> (coefficients: LumaCoefficients)
        ensures
            match resolved_matrix(self, primaries) {
                MatrixCoefficients::Bt601 => coefficients.are(2990, 5870, 1140),
                MatrixCoefficients::Bt2020NonConstantLuminance => coefficients.are(
                    2627,
                    6780,
                    593,
                ),
                _ => coefficients.are(2126, 7152, 722),
            },
    {
        proof {
            vstd::arithmetic::power2::lemma2_to64();
            lemma_nearest(F32 { bits: 0x3e99_1687 }, 2990, 10000, 125, 0x2000000);
            lemma_nearest(F32 { bits: 0x3f16_45a2 }, 5870, 10000, 126, 0x1000000);
            lemma_nearest(F32 { bits: 0x3de9_78d5 }, 1140, 10000, 123, 0x8000000);
            lemma_nearest(F32 { bits: 0x3e86_809d }, 2627, 10000, 125, 0x2000000);
            lemma_nearest(F32 { bits: 0x3f2d_9168 }, 6780, 10000, 126, 0x1000000);
            lemma_nearest(F32 { bits: 0x3d72_e48f }, 593, 10000, 122, 0x10000000);
            lemma_nearest(F32 { bits: 0x3e59_b3d0 }, 2126, 10000, 124, 0x4000000);
            lemma_nearest(F32 { bits: 0x3f37_1759 }, 7152, 10000, 126, 0x1000000);
            lemma_nearest(F32 { bits: 0x3d93_dd98 }, 722, 10000, 123, 0x8000000);
        }
        match self.resolve(primaries) {
            MatrixCoefficients::Bt601 => LumaCoefficients::new(
                F32 { bits: 0x3e99_1687 },
                F32 { bits: 0x3f16_45a2 },
                F32 { bits: 0x3de9_78d5 },
            ),
            MatrixCoefficients::Bt2020NonConstantLuminance => LumaCoefficients::new(
                F32 { bits: 0x3e86_809d },
                F32 { bits: 0x3f2d_9168 },
                F32 { bits: 0x3d72_e48f },
            ),
            MatrixCoefficients::Identity
            | MatrixCoefficients::Bt709
            | MatrixCoefficients::Unspecified => LumaCoefficients::new(
                F32 { bits: 0x3e59_b3d0 },
                F32 { bits: 0x3f37_1759 },
                F32 { bits: 0x3d93_dd98 },
            ),
        }
    }
}

/// Primaries with BT.709 for unknown ones.
pub open spec fn resolved_primaries(primaries: ColorPrimaries) -> ColorPrimaries {
    if primaries == ColorPrimaries::Unknown {
        ColorPrimaries::Bt709
    } else {
        primaries
    }
}

pub fn resolve_primaries(primaries: ColorPrimaries) -> (resolved: ColorPrimaries)
    ensures
        resolved == resolved_primaries(primaries),
{
    match primaries {
        ColorPrimaries::Unknown => ColorPrimaries::Bt709,
        _ => primaries,
    }
}

/// The number of resolved primaries.
pub open spec fn primaries_number(primaries: ColorPrimaries) -> u32 {
    match primaries {
        ColorPrimaries::Bt709 => 0,
        ColorPrimaries::Bt2020 => 1,
        ColorPrimaries::DisplayP3 => 2,
        ColorPrimaries::Unknown => 0,
    }
}

pub fn primaries_code(primaries: ColorPrimaries) -> (code: u32)
    ensures
        code == primaries_number(primaries),
{
    match resolve_primaries(primaries) {
        ColorPrimaries::Bt709 => 0,
        ColorPrimaries::Bt2020 => 1,
        ColorPrimaries::DisplayP3 => 2,
        ColorPrimaries::Unknown => 0,
    }
}

/// The primaries with a number; numbers without any are BT.709.
pub open spec fn numbered_primaries(code: u32) -> ColorPrimaries {
    if code == 1 {
        ColorPrimaries::Bt2020
    } else if code == 2 {
        ColorPrimaries::DisplayP3
    } else {
        ColorPrimaries::Bt709
    }
}

pub fn code_to_primaries(code: u32) -> (primaries: ColorPrimaries)
    ensures
        primaries == numbered_primaries(code),
{
    match code {
        1 => ColorPrimaries::Bt2020,
        2 => ColorPrimaries::DisplayP3,
        _ => ColorPrimaries::Bt709,
    }
}

/// Source and target primaries in one number, the source in the high byte.
pub open spec fn packed_primaries(source: ColorPrimaries, target: ColorPrimaries) -> int {
    primaries_number(source) * 0x100 + primaries_number(target)
}

pub fn gamut_primaries_code(source: ColorPrimaries, target: ColorPrimaries) -> (code: u32)
    ensures
        code == packed_primaries(source, target),
{
    let high: u32 = primaries_code(source);
    let low: u32 = primaries_code(target);
    proof {
        assert((high << 8) | low == high * 0x100 + low) by (bit_vector)
            requires
                high <= 2,
                low <= 2,
        ;
    }
    (high << 8) | low
}

/// The primaries packed into one number come out of it again, resolved.
pub proof fn law_packed_primaries_round_trip(
    source: ColorPrimaries,
    target: ColorPrimaries,
    code: u32,
)
    requires
        code == packed_primaries(source, target),
    ensures
        code >> 8 == primaries_number(source),
        code & 0xff == primaries_number(target),
        numbered_primaries(code >> 8) == resolved_primaries(source),
        numbered_primaries(code & 0xff) == resolved_primaries(target),
{
    let high = primaries_number(source);
    let low = primaries_number(target);
    assert(code >> 8 == high && code & 0xff == low) by (bit_vector)
        requires
            high <= 2,
            low <= 2,
            code == high * 0x100 + low,
    ;
}

/// The number by which shaders know a transfer function.
pub open spec fn transfer_number(transfer: TransferFunction) -> u32 {
    match transfer {
        TransferFunction::Srgb => 1,
        TransferFunction::Bt1886 => 2,
        TransferFunction::Pq => 3,
        TransferFunction::Hlg => 4,
        TransferFunction::Unknown => 1,
    }
}

pub fn transfer_code(transfer: TransferFunction) -> (code: u32)
    ensures
        code == transfer_number(transfer),
{
    match transfer {
        TransferFunction::Srgb => 1,
        TransferFunction::Bt1886 => 2,
        TransferFunction::Pq => 3,
        TransferFunction::Hlg => 4,
        TransferFunction::Unknown => 1,
    }
}

/// A point of the chromaticity diagram.
#[derive(Debug, Clone, Copy, PartialEq, Eq, Structural)]
pub struct Chromaticity {
    pub x: F32,
    pub y: F32,
}

impl Chromaticity {
    pub fn new(x: F32, y: F32) -> (point: Self)
        ensures
            point == (Chromaticity { x, y }),
    {
        Chromaticity { x, y }
    }

    /// The point with these ten-thousandths, each rounded to a number.
    pub open spec fn at(x: int, y: int) -> Self {
        Chromaticity { x: nearest_to(x, 10000), y: nearest_to(y, 10000) }
    }
}

/// The primaries and the white of a colour space.
#[derive(Debug, Clone, Copy, PartialEq, Eq, Structural)]
pub struct PrimariesCoordinates {
    pub red: Chromaticity,
    pub green: Chromaticity,
    pub blue: Chromaticity,
    pub white: Chromaticity,
}

impl PrimariesCoordinates {
    pub fn new(
        red: Chromaticity,
        green: Chromaticity,
        blue: Chromaticity,
        white: Chromaticity,
    ) -> (coordinates: Self)
        ensures
            coordinates == (PrimariesCoordinates { red, green, blue, white }),
    {
        PrimariesCoordinates { red, green, blue, white }
    }
}

fn d65_white() -> (white: Chromaticity)
    ensures
        white == Chromaticity::at(3127, 3290),
{
    proof {
        vstd::arithmetic::power2::lemma2_to64();
        lemma_nearest(F32 { bits: 0x3ea0_1a37 }, 3127, 10000, 125, 0x2000000);
        lemma_nearest(F32 { bits: 0x3ea8_72b0 }, 3290, 10000, 125, 0x2000000);
    }
    Chromaticity::new(F32 { bits: 0x3ea0_1a37 }, F32 { bits: 0x3ea8_72b0 })
}

/// Where the primaries lie, all with the white of daylight at 6500 kelvin.
pub open spec fn coordinates_of(primaries: ColorPrimaries) -> PrimariesCoordinates {
    let white = Chromaticity::at(3127, 3290);
    match resolved_primaries(primaries) {
        ColorPrimaries::Bt2020 => PrimariesCoordinates {
            red: Chromaticity::at(7080, 2920),
            green: Chromaticity::at(1700, 7970),
            blue: Chromaticity::at(1310, 460),
            white,
        },
        ColorPrimaries::DisplayP3 => PrimariesCoordinates {
            red: Chromaticity::at(6800, 3200),
            green: Chromaticity::at(2650, 6900),
            blue: Chromaticity::at(1500, 600),
            white,
        },
        _ => PrimariesCoordinates {
            red: Chromaticity::at(6400, 3300),
            green: Chromaticity::at(3000, 6000),
            blue: Chromaticity::at(1500, 600),
            white,
        },
    }
}

pub fn primaries_coordinates(primaries: ColorPrimaries) -> (coordinates: PrimariesCoordinates)
    ensures
        coordinates == coordinates_of(primaries),
{
    proof {
        vstd::arithmetic::power2::lemma2_to64();
        lemma_nearest(F32 { bits: 0x3f35_3f7d }, 7080, 10000, 126, 0x1000000);
        lemma_nearest(F32 { bits: 0x3e95_8106 }, 2920, 10000, 125, 0x2000000);
        lemma_nearest(F32 { bits: 0x3e2e_147b }, 1700, 10000, 124, 0x4000000);
        lemma_nearest(F32 { bits: 0x3f4c_0831 }, 7970, 10000, 126, 0x1000000);
        lemma_nearest(F32 { bits: 0x3e06_24dd }, 1310, 10000, 124, 0x4000000);
        lemma_nearest(F32 { bits: 0x3d3c_6a7f }, 460, 10000, 122, 0x10000000);
        lemma_nearest(F32 { bits: 0x3f2e_147b }, 6800, 10000, 126, 0x1000000);
        lemma_nearest(F32 { bits: 0x3ea3_d70a }, 3200, 10000, 125, 0x2000000);
        lemma_nearest(F32 { bits: 0x3e87_ae14 }, 2650, 10000, 125, 0x2000000);
        lemma_nearest(F32 { bits: 0x3f30_a3d7 }, 6900, 10000, 126, 0x1000000);
        lemma_nearest(F32 { bits: 0x3e19_999a }, 1500, 10000, 124, 0x4000000);
        lemma_nearest(F32 { bits: 0x3d75_c28f }, 600, 10000, 122, 0x10000000);
        lemma_nearest(F32 { bits: 0x3f23_d70a }, 6400, 10000, 126, 0x1000000);
        lemma_nearest(F32 { bits: 0x3ea8_f5c3 }, 3300, 10000, 125, 0x2000000);
        lemma_nearest(F32 { bits: 0x3e99_999a }, 3000, 10000, 125, 0x2000000);
        lemma_nearest(F32 { bits: 0x3f19_999a }, 6000, 10000, 126, 0x1000000);
    }
    match resolve_primaries(primaries) {
        ColorPrimaries::Bt2020 => PrimariesCoordinates::new(
            Chromaticity::new(F32 { bits: 0x3f35_3f7d }, F32 { bits: 0x3e95_8106 }),
            Chromaticity::new(F32 { bits: 0x3e2e_147b }, F32 { bits: 0x3f4c_0831 }),
            Chromaticity::new(F32 { bits: 0x3e06_24dd }, F32 { bits: 0x3d3c_6a7f }),
            d65_white(),
        ),
        ColorPrimaries::DisplayP3 => PrimariesCoordinates::new(
            Chromaticity::new(F32 { bits: 0x3f2e_147b }, F32 { bits: 0x3ea3_d70a }),
            Chromaticity::new(F32 { bits: 0x3e87_ae14 }, F32 { bits: 0x3f30_a3d7 }),
            Chromaticity::new(F32 { bits: 0x3e19_999a }, F32 { bits: 0x3d75_c28f }),
            d65_white(),
        ),
        ColorPrimaries::Bt709 | ColorPrimaries::Unknown => PrimariesCoordinates::new(
            Chromaticity::new(F32 { bits: 0x3f23_d70a }, F32 { bits: 0x3ea8_f5c3 }),
            Chromaticity::new(F32 { bits: 0x3e99_999a }, F32 { bits: 0x3f19_999a }),
            Chromaticity::new(F32 { bits: 0x3e19_999a }, F32 { bits: 0x3d75_c28f }),
            d65_white(),
        ),
    }
}

} // verus!
