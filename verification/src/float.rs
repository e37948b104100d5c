//! Single-precision numbers by their encoding: what they mean and how they
//! are ordered.
use vstd::arithmetic::power2::{lemma_pow2_adds, lemma_pow2_pos, lemma_pow2_unfold, pow2};
use vstd::prelude::*;

verus! {

/// A single-precision number, held as its 32-bit encoding. `==` compares the
/// encodings.
#[derive(Debug, Clone, Copy, PartialEq, Eq, Hash, Structural)]
pub struct F32 {
    pub bits: u32,
}

/// The exponent field of an encoding.
pub open spec fn exponent(bits: u32) -> int {
    (bits as int / 0x80_0000) % 0x100
}

/// The fraction field of an encoding.
pub open spec fn fraction(bits: u32) -> int {
    bits as int % 0x80_0000
}

/// The sign bit of an encoding is set.
pub open spec fn negative(bits: u32) -> bool {
    bits >= 0x8000_0000
}

/// The absolute value in units of the smallest positive number, two to the
/// power of minus 149. Infinity counts as the number after the largest.
pub open spec fn magnitude(bits: u32) -> int {
    if exponent(bits) == 0 {
        fraction(bits)
    } else {
        (fraction(bits) + 0x80_0000) * pow2((exponent(bits) - 1) as nat)
    }
}

impl F32 {
    pub open spec fn nan(self) -> bool {
        exponent(self.bits) == 0xff && fraction(self.bits) != 0
    }

    pub open spec fn finite(self) -> bool {
        exponent(self.bits) != 0xff
    }

    /// Not one of the many encodings of no number but the usual one.
    pub open spec fn canonical(self) -> bool {
        self.nan() ==> self.bits == 0x7fc0_0000
    }

    /// The value in units of the smallest positive number.
    pub open spec fn units(self) -> int {
        if negative(self.bits) {
            -magnitude(self.bits)
        } else {
            magnitude(self.bits)
        }
    }

    /// The place among all numbers, with both zeros in one place.
    pub open spec fn rank(self) -> int {
        if negative(self.bits) {
            0x8000_0000 - self.bits
        } else {
            self.bits as int
        }
    }

    /// `self < other`, which no NaN is part of.
    pub open spec fn below(self, other: F32) -> bool {
        !self.nan() && !other.nan() && self.rank() < other.rank()
    }

    /// The value is the integer `n`.
    pub open spec fn equals(self, n: int) -> bool {
        self.finite() && self.units() == n * pow2(149)
    }

    pub fn from_bits(bits: u32) -> (value: Self)
        ensures
            value.bits == bits,
    {
        F32 { bits }
    }

    pub fn to_bits(self) -> (bits: u32)
        ensures
            bits == self.bits,
    {
        self.bits
    }

    pub fn is_nan(self) -> (nan: bool)
        ensures
            nan == self.nan(),
    {
        (self.bits / 0x80_0000) % 0x100 == 0xff && self.bits % 0x80_0000 != 0
    }

    pub fn is_finite(self) -> (finite: bool)
        ensures
            finite == self.finite(),
    {
        (self.bits / 0x80_0000) % 0x100 != 0xff
    }

    fn place(self) -> (place: i64)
        ensures
            place == self.rank(),
    {
        if self.bits >= 0x8000_0000 {
            0x8000_0000i64 - self.bits as i64
        } else {
            self.bits as i64
        }
    }

    /// `self < other`.
    pub fn less_than(self, other: F32) -> (less: bool)
        ensures
            less == self.below(other),
    {
        !self.is_nan() && !other.is_nan() && self.place() < other.place()
    }

    /// `self == other` as numbers, which no NaN is.
    pub open spec fn equal_number(self, other: F32) -> bool {
        !self.nan() && !other.nan() && self.rank() == other.rank()
    }

    /// `self == other` as numbers.
    pub fn same_number(self, other: F32) -> (same: bool)
        ensures
            same == self.equal_number(other),
    {
        !self.is_nan() && !other.is_nan() && self.place() == other.place()
    }

    /// `self > 0`.
    pub fn is_positive(self) -> (positive: bool)
        ensures
            positive == (F32 { bits: 0 }).below(self),
    {
        (F32 { bits: 0 }).less_than(self)
    }

    /// The smaller of two numbers; the other one where one is no number.
    pub open spec fn lesser(self, other: F32) -> F32 {
        if self.nan() || other.below(self) {
            other
        } else {
            self
        }
    }

    /// The larger of two numbers; the other one where one is no number.
    pub open spec fn greater(self, other: F32) -> F32 {
        if self.nan() || self.below(other) {
            other
        } else {
            self
        }
    }

    /// The number brought into a range.
    pub open spec fn clamped(self, low: F32, high: F32) -> F32 {
        if self.below(low) {
            low
        } else if high.below(self) {
            high
        } else {
            self
        }
    }

    /// Brings the number into a range. What is no number stays none.
    pub fn clamp_to(self, low: F32, high: F32) -> (value: F32)
        requires
            !low.nan() && !high.nan() && !high.below(low),
        ensures
            value == self.clamped(low, high),
    {
        if self.less_than(low) {
            low
        } else if high.less_than(self) {
            high
        } else {
            self
        }
    }

    /// The number without its sign.
    pub open spec fn without_sign(self) -> F32 {
        F32 {
            bits: if negative(self.bits) {
                (self.bits - 0x8000_0000) as u32
            } else {
                self.bits
            },
        }
    }

    pub fn abs(self) -> (value: F32)
        ensures
            value == self.without_sign(),
    {
        if self.bits >= 0x8000_0000 {
            F32 { bits: self.bits - 0x8000_0000 }
        } else {
            self
        }
    }

    pub fn min_of(self, other: F32) -> (value: F32)
        ensures
            value == self.lesser(other),
    {
        if self.is_nan() || other.less_than(self) {
            other
        } else {
            self
        }
    }

    pub fn max_of(self, other: F32) -> (value: F32)
        ensures
            value == self.greater(other),
    {
        if self.is_nan() || self.less_than(other) {
            other
        } else {
            self
        }
    }

    /// The larger of a number and `floor`; `floor` where there is no number.
    pub fn at_least(self, floor: F32) -> (value: F32)
        ensures
            value == if floor.below(self) {
                self
            } else {
                floor
            },
    {
        if floor.less_than(self) {
            self
        } else {
            floor
        }
    }
}

/// The encoding of one half.
pub const HALF_BITS: u32 = 0x3f00_0000;

/// The encoding of 1.
pub const ONE_BITS: u32 = 0x3f80_0000;

/// The encoding of 100.
pub const HUNDRED_BITS: u32 = 0x42c8_0000;

/// The encoding of 203.
pub const TWO_HUNDRED_THREE_BITS: u32 = 0x434b_0000;

/// The encoding of 1000.
pub const THOUSAND_BITS: u32 = 0x447a_0000;

/// The encoding of 10000.
pub const TEN_THOUSAND_BITS: u32 = 0x461c_4000;

/// The constants are the numbers that they are named after.
pub proof fn lemma_constants_are_what_they_say()
    ensures
        (F32 { bits: ONE_BITS }).equals(1),
        (F32 { bits: HUNDRED_BITS }).equals(100),
        (F32 { bits: TWO_HUNDRED_THREE_BITS }).equals(203),
        (F32 { bits: THOUSAND_BITS }).equals(1000),
        (F32 { bits: TEN_THOUSAND_BITS }).equals(10000),
{
    vstd::arithmetic::power2::lemma2_to64();
    lemma_whole(ONE_BITS, 0, 1);
    lemma_whole(HUNDRED_BITS, 6, 100);
    lemma_whole(TWO_HUNDRED_THREE_BITS, 7, 203);
    lemma_whole(THOUSAND_BITS, 9, 1000);
    lemma_whole(TEN_THOUSAND_BITS, 13, 10000);
}

proof fn lemma_magnitude_step(bits: u32)
    requires
        bits < 0x7fff_ffff,
    ensures
        0 <= magnitude(bits) < magnitude((bits + 1) as u32),
{
    let next = (bits + 1) as u32;
    let e = exponent(bits);
    if e > 0 {
        lemma_pow2_pos((e - 1) as nat);
        let p = pow2((e - 1) as nat) as int;
        assert((fraction(bits) + 0x80_0000) * p >= 0) by (nonlinear_arith)
            requires
                fraction(bits) >= 0,
                p > 0,
        ;
        if fraction(bits) < 0x7f_ffff {
            assert(exponent(next) == e);
            assert(fraction(next) == fraction(bits) + 1);
            assert((fraction(bits) + 1 + 0x80_0000) * p == (fraction(bits) + 0x80_0000) * p + p)
                by (nonlinear_arith);
        } else {
            assert(exponent(next) == e + 1);
            assert(fraction(next) == 0);
            lemma_pow2_unfold(e as nat);
            assert((0 + 0x80_0000) * (2 * p) == 0x100_0000 * p) by (nonlinear_arith);
            assert((0x7f_ffff + 0x80_0000) * p < 0x100_0000 * p) by (nonlinear_arith)
                requires
                    p > 0,
            ;
        }
    } else {
        if fraction(bits) < 0x7f_ffff {
            assert(exponent(next) == 0);
            assert(fraction(next) == fraction(bits) + 1);
        } else {
            assert(exponent(next) == 1);
            assert(fraction(next) == 0);
            vstd::arithmetic::power2::lemma2_to64();
        }
    }
}

/// Larger encodings without a sign are larger numbers.
pub proof fn lemma_magnitude_not_negative(bits: u32)
    ensures
        magnitude(bits) >= 0,
{
    if exponent(bits) > 0 {
        lemma_pow2_pos((exponent(bits) - 1) as nat);
        let p = pow2((exponent(bits) - 1) as nat) as int;
        assert((fraction(bits) + 0x80_0000) * p >= 0) by (nonlinear_arith)
            requires
                fraction(bits) >= 0,
                p > 0,
        ;
    }
}

pub proof fn lemma_magnitude_increases(a: u32, b: u32)
    requires
        a < b < 0x8000_0000,
    ensures
        0 <= magnitude(a) < magnitude(b),
    decreases b - a,
{
    lemma_magnitude_step(a);
    if a + 1 < b {
        lemma_magnitude_increases((a + 1) as u32, b);
    }
}

pub proof fn lemma_magnitude_ignores_sign(bits: u32)
    requires
        negative(bits),
    ensures
        magnitude(bits) == magnitude((bits - 0x8000_0000) as u32),
{
    let plain = (bits - 0x8000_0000) as u32;
    assert(exponent(bits) == exponent(plain)) by {
        assert(bits as int / 0x80_0000 == plain as int / 0x80_0000 + 0x100);
    }
    assert(fraction(bits) == fraction(plain));
}

proof fn lemma_rank_orders_plain(a: u32, b: u32)
    requires
        a < 0x8000_0000,
        b < 0x8000_0000,
    ensures
        a < b <==> magnitude(a) < magnitude(b),
        magnitude(a) >= 0,
        magnitude(a) == 0 <==> a == 0,
{
    if a < b {
        lemma_magnitude_increases(a, b);
    } else if b < a {
        lemma_magnitude_increases(b, a);
    }
    assert(magnitude(0) == 0);
    if a > 0 {
        lemma_magnitude_increases(0, a);
    }
}

/// The order of the encodings is the order of the values: of two numbers one
/// is below the other exactly where its value is smaller.
pub proof fn law_order_is_numeric(a: F32, b: F32)
    requires
        !a.nan(),
        !b.nan(),
    ensures
        a.below(b) <==> a.units() < b.units(),
{
    let pa = if negative(a.bits) {
        (a.bits - 0x8000_0000) as u32
    } else {
        a.bits
    };
    let pb = if negative(b.bits) {
        (b.bits - 0x8000_0000) as u32
    } else {
        b.bits
    };
    if negative(a.bits) {
        lemma_magnitude_ignores_sign(a.bits);
    }
    if negative(b.bits) {
        lemma_magnitude_ignores_sign(b.bits);
    }
    lemma_rank_orders_plain(pa, pb);
    lemma_rank_orders_plain(pb, pa);
}

/// An encoding with exponent field `127 + e` and no lower fraction bits than
/// the units is the integer that its leading bits spell.
pub proof fn lemma_whole(bits: u32, e: nat, n: int)
    requires
        e <= 23,
        bits < 0x8000_0000,
        exponent(bits) == 127 + e,
        fraction(bits) + 0x80_0000 == n * pow2((23 - e) as nat),
    ensures
        (F32 { bits }).equals(n),
{
    let value = F32 { bits };
    lemma_pow2_adds((23 - e) as nat, (126 + e) as nat);
    assert((n * pow2((23 - e) as nat)) * pow2((126 + e) as nat) == n * (pow2((23 - e) as nat)
        * pow2((126 + e) as nat))) by (nonlinear_arith);
}

} // verus!
