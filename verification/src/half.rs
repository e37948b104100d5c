//! Half-precision numbers: conversion from and to single precision, packing of
//! texels and reading back of captured pixels.
use crate::float::{exponent, fraction, lemma_magnitude_increases, magnitude, negative, F32};
use vstd::arithmetic::power2::{
    lemma_pow2_adds, lemma_pow2_pos, lemma_pow2_strictly_increases, lemma_pow2_unfold, pow2,
};
use vstd::prelude::*;

verus! {

/// The exponent field of a half-precision encoding.
pub open spec fn half_exponent(bits: int) -> int {
    (bits / 0x400) % 0x20
}

/// The fraction field of a half-precision encoding.
pub open spec fn half_fraction(bits: int) -> int {
    bits % 0x400
}

/// The absolute value in units of the smallest positive half-precision number,
/// two to the power of minus 24. Infinity counts as the number after the
/// largest.
pub open spec fn half_magnitude(bits: int) -> int {
    if half_exponent(bits) == 0 {
        half_fraction(bits)
    } else {
        (half_fraction(bits) + 0x400) * pow2((half_exponent(bits) - 1) as nat)
    }
}

/// The encoding of positive infinity.
pub const HALF_INFINITY: u16 = 0x7c00;

/// Single-precision units in one half-precision unit.
pub open spec fn units_per_half_unit() -> int {
    pow2(125) as int
}

/// Twice the value in the middle between an encoding and the next.
pub open spec fn midpoint(n: int) -> int {
    (half_magnitude(n) + half_magnitude(n + 1)) * units_per_half_unit()
}

/// `n` is the encoding to which a magnitude rounds: the magnitude lies between
/// the midpoints on either side of it, and on a midpoint the even encoding wins.
pub open spec fn rounds_to(units: int, n: int) -> bool {
    &&& 0 <= n <= HALF_INFINITY
    &&& n > 0 ==> {
        ||| midpoint(n - 1) < 2 * units
        ||| midpoint(n - 1) == 2 * units && n % 2 == 0
    }
    &&& n < HALF_INFINITY ==> {
        ||| 2 * units < midpoint(n)
        ||| 2 * units == midpoint(n) && n % 2 == 0
    }
}

/// The half-precision encoding nearest to a single-precision number, ties to
/// even. A NaN gives a quiet payload of one.
pub open spec fn narrows_to(value: F32, half: u16) -> bool {
    let sign: int = if negative(value.bits) {
        0x8000
    } else {
        0
    };
    if value.nan() {
        half == sign + HALF_INFINITY + 1
    } else {
        half >= sign && rounds_to(magnitude(value.bits), half - sign)
    }
}

proof fn lemma_half_step(n: int)
    requires
        0 <= n < HALF_INFINITY,
    ensures
        0 <= half_magnitude(n) < half_magnitude(n + 1),
        half_magnitude(n + 1) - half_magnitude(n) == if half_exponent(n) == 0 {
            1
        } else {
            pow2((half_exponent(n) - 1) as nat) as int
        },
{
    let e = half_exponent(n);
    vstd::arithmetic::power2::lemma2_to64();
    if e > 0 {
        lemma_pow2_pos((e - 1) as nat);
        let p = pow2((e - 1) as nat) as int;
        assert((half_fraction(n) + 0x400) * p >= 0) by (nonlinear_arith)
            requires
                half_fraction(n) >= 0,
                p > 0,
        ;
        if half_fraction(n) < 0x3ff {
            assert(half_exponent(n + 1) == e);
            assert(half_fraction(n + 1) == half_fraction(n) + 1);
            assert((half_fraction(n) + 1 + 0x400) * p == (half_fraction(n) + 0x400) * p + p)
                by (nonlinear_arith);
            assert(half_magnitude(n + 1) == (half_fraction(n) + 1 + 0x400) * p);
        } else {
            assert(half_exponent(n + 1) == e + 1);
            assert(half_fraction(n + 1) == 0);
            lemma_pow2_unfold(e as nat);
            assert((0 + 0x400) * (2 * p) == 0x800 * p) by (nonlinear_arith);
            assert((0x3ff + 0x400) * p == 0x7ff * p) by (nonlinear_arith);
            assert(0x7ff * p + p == 0x800 * p) by (nonlinear_arith);
            assert(half_magnitude(n) == 0x7ff * p);
            assert(half_magnitude(n + 1) == 0x800 * p);
        }
    } else {
        if half_fraction(n) < 0x3ff {
            assert(half_exponent(n + 1) == 0);
            assert(half_fraction(n + 1) == half_fraction(n) + 1);
        } else {
            assert(half_exponent(n + 1) == 1);
            assert(half_fraction(n + 1) == 0);
        }
    }
}

/// Larger encodings without a sign are larger numbers.
pub proof fn lemma_half_increases(a: int, b: int)
    requires
        0 <= a < b <= HALF_INFINITY,
    ensures
        0 <= half_magnitude(a) < half_magnitude(b),
    decreases b - a,
{
    lemma_half_step(a);
    if a + 1 < b {
        lemma_half_increases(a + 1, b);
    }
}

/// The magnitude is `low` half units and a remainder in steps of `step`, with
/// `full` steps to the next encoding: then comparing the remainder with half of
/// `full` decides the rounding.
proof fn lemma_round(units: int, low: int, rem: int, step: int, full: int, up: bool)
    requires
        0 <= low < HALF_INFINITY,
        step > 0,
        0 <= rem < full,
        units == half_magnitude(low) * units_per_half_unit() + rem * step,
        full * step == (half_magnitude(low + 1) - half_magnitude(low)) * units_per_half_unit(),
        up == (2 * rem > full || (2 * rem == full && low % 2 == 1)),
    ensures
        rounds_to(
            units,
            if up {
                low + 1
            } else {
                low
            },
        ),
{
    let s = units_per_half_unit();
    lemma_pow2_pos(125);
    lemma_half_step(low);
    let h0 = half_magnitude(low);
    let h1 = half_magnitude(low + 1);
    assert(midpoint(low) == 2 * (h0 * s) + full * step) by (nonlinear_arith)
        requires
            midpoint(low) == (h0 + h1) * s,
            full * step == (h1 - h0) * s,
    ;
    assert(2 * (rem * step) == (2 * rem) * step) by (nonlinear_arith);
    if 2 * rem > full {
        assert((2 * rem) * step > full * step) by (nonlinear_arith)
            requires
                2 * rem > full,
                step > 0,
        ;
    } else if 2 * rem < full {
        assert((2 * rem) * step < full * step) by (nonlinear_arith)
            requires
                2 * rem < full,
                step > 0,
        ;
    }
    assert(rem * step >= 0) by (nonlinear_arith)
        requires
            rem >= 0,
            step > 0,
    ;
    assert(rem * step < full * step) by (nonlinear_arith)
        requires
            rem < full,
            step > 0,
    ;
    assert((h1 - h0) * s == h1 * s - h0 * s) by (nonlinear_arith);
    if low > 0 {
        lemma_half_step(low - 1);
        let hp = half_magnitude(low - 1);
        assert((hp + h0) * s < 2 * (h0 * s)) by (nonlinear_arith)
            requires
                hp < h0,
                s > 0,
        ;
    }
    if low + 1 < HALF_INFINITY {
        lemma_half_step(low + 1);
        let h2 = half_magnitude(low + 2);
        assert((h1 + h2) * s > 2 * (h1 * s)) by (nonlinear_arith)
            requires
                h1 < h2,
                s > 0,
        ;
    }
}

/// Magnitudes from the smallest normal half-precision number up to infinity.
fn round_normal(exp: u32, mant: u32) -> (half: u16)
    requires
        113 <= exp <= 142,
        mant < 0x80_0000,
    ensures
        rounds_to((mant + 0x80_0000) * pow2((exp - 1) as nat), half as int),
{
    let low: u32 = (exp - 112) * 0x400 + mant / 0x2000;
    let rem: u32 = mant % 0x2000;
    let up: bool = rem > 0x1000 || (rem == 0x1000 && low % 2 == 1);
    proof {
        let top = mant as int / 0x2000;
        let step = pow2((exp - 1) as nat) as int;
        let s = units_per_half_unit();
        assert(half_exponent(low as int) == exp - 112);
        assert(half_fraction(low as int) == top);
        lemma_half_step(low as int);
        lemma_pow2_pos((exp - 1) as nat);
        lemma_pow2_adds((exp - 113) as nat, 125);
        lemma_pow2_adds(13, (exp - 1) as nat);
        vstd::arithmetic::power2::lemma2_to64();
        let p = pow2((exp - 113) as nat) as int;
        assert(p * s == pow2((exp + 12) as nat));
        assert(0x2000 * step == pow2((exp + 12) as nat));
        assert(((top + 0x400) * p) * s == (top + 0x400) * (p * s)) by (nonlinear_arith);
        assert((top * 0x2000 + rem + 0x80_0000) * step == (top + 0x400) * (0x2000 * step) + rem
            * step) by (nonlinear_arith);
        lemma_round(
            (mant + 0x80_0000) * step,
            low as int,
            rem as int,
            step,
            0x2000,
            up,
        );
    }
    if up {
        (low + 1) as u16
    } else {
        low as u16
    }
}

/// Magnitudes below the smallest normal half-precision number that are not
/// below half of the smallest positive one.
fn round_subnormal(exp: u32, mant: u32) -> (half: u16)
    requires
        102 <= exp <= 112,
        mant < 0x80_0000,
    ensures
        rounds_to((mant + 0x80_0000) * pow2((exp - 1) as nat), half as int),
{
    let shift: u32 = 126 - exp;
    proof {
        vstd::arithmetic::power2::lemma2_to64();
        lemma_pow2_strictly_increases(13, shift as nat);
        if shift < 24 {
            lemma_pow2_strictly_increases(shift as nat, 24);
        }
        vstd::bits::lemma_u32_shl_is_mul(1, shift);
    }
    let full: u32 = 1u32 << shift;
    let m: u32 = mant + 0x80_0000;
    let low: u32 = m / full;
    let rem: u32 = m % full;
    proof {
        assert(low < 0x400) by (nonlinear_arith)
            requires
                low == m as int / full as int,
                m < 0x100_0000,
                full >= 0x4000,
        ;
    }
    let up: bool = rem > full / 2 || (rem == full / 2 && low % 2 == 1);
    proof {
        let step = pow2((exp - 1) as nat) as int;
        let s = units_per_half_unit();
        lemma_pow2_pos((exp - 1) as nat);
        lemma_pow2_adds(shift as nat, (exp - 1) as nat);
        assert(full * step == s);
        lemma_pow2_unfold(shift as nat);
        assert(full == 2 * (full / 2));
        assert(half_magnitude(low as int) == low);
        lemma_half_step(low as int);
        vstd::arithmetic::div_mod::lemma_fundamental_div_mod(m as int, full as int);
        assert((full * low + rem) * step == low * (full * step) + rem * step) by (nonlinear_arith);
        assert(1 * s == s);
        lemma_round(m * step, low as int, rem as int, step, full as int, up);
    }
    if up {
        (low + 1) as u16
    } else {
        low as u16
    }
}

/// Magnitudes of at least the number after the largest round to infinity.
proof fn lemma_rounds_to_infinity(bits: u32)
    requires
        exponent(bits) >= 143,
        bits < 0x8000_0000,
    ensures
        rounds_to(magnitude(bits), HALF_INFINITY as int),
{
    let top: u32 = 0x4780_0000;
    assert(exponent(top) == 143 && fraction(top) == 0);
    if top < bits {
        lemma_magnitude_increases(top, bits);
    }
    assert(half_exponent(0x7c00) == 31 && half_fraction(0x7c00) == 0);
    lemma_pow2_adds(23, 142);
    lemma_pow2_adds(10, 30);
    lemma_pow2_adds(40, 125);
    vstd::arithmetic::power2::lemma2_to64();
    let s = units_per_half_unit();
    lemma_pow2_pos(125);
    assert(half_magnitude(0x7c00) == pow2(40));
    assert(magnitude(top) == pow2(40) * s);
    lemma_half_step(0x7bff);
    assert((half_magnitude(0x7bff) + pow2(40)) * s < 2 * (pow2(40) * s)) by (nonlinear_arith)
        requires
            half_magnitude(0x7bff) < pow2(40),
            s > 0,
    ;
}

/// Magnitudes below half of the smallest positive number round to zero.
proof fn lemma_rounds_to_zero(bits: u32)
    requires
        exponent(bits) < 102,
        bits < 0x8000_0000,
    ensures
        rounds_to(magnitude(bits), 0),
{
    let top: u32 = 0x3300_0000;
    assert(exponent(top) == 102 && fraction(top) == 0);
    lemma_magnitude_increases(bits, top);
    lemma_pow2_adds(23, 101);
    lemma_pow2_unfold(125);
    vstd::arithmetic::power2::lemma2_to64();
    let s = units_per_half_unit();
    assert(half_magnitude(0) == 0);
    assert(half_magnitude(1) == 1);
    assert(1 * s == s);
    assert(2 * magnitude(top) == s);
}

/// Converts to half precision, rounding to nearest with ties to even.
pub fn f32_to_f16(value: F32) -> (half: u16)
    ensures
        narrows_to(value, half),
{
    let bits: u32 = value.bits;
    let sign: u16 = if bits >= 0x8000_0000 {
        0x8000
    } else {
        0
    };
    let exp: u32 = (bits / 0x80_0000) % 0x100;
    let mant: u32 = bits % 0x80_0000;
    let ghost plain: u32 = if negative(bits) {
        (bits - 0x8000_0000) as u32
    } else {
        bits
    };
    proof {
        if negative(bits) {
            crate::float::lemma_magnitude_ignores_sign(bits);
            assert(bits as int / 0x80_0000 == plain as int / 0x80_0000 + 0x100);
        }
        assert(exponent(plain) == exp && fraction(plain) == mant);
    }
    if exp == 0xff && mant != 0 {
        return sign + HALF_INFINITY + 1;
    }
    if exp >= 143 {
        proof {
            lemma_rounds_to_infinity(plain);
        }
        return sign + HALF_INFINITY;
    }
    if exp < 102 {
        proof {
            lemma_rounds_to_zero(plain);
        }
        return sign;
    }
    let half: u16 = if exp >= 113 {
        round_normal(exp, mant)
    } else {
        round_subnormal(exp, mant)
    };
    sign + half
}

proof fn lemma_distance(units: int, n: int, k: int)
    requires
        rounds_to(units, n),
        0 <= k <= HALF_INFINITY,
        k != n,
    ensures
        n < k ==> 2 * units <= (half_magnitude(n) + half_magnitude(k)) * units_per_half_unit(),
        k < n ==> 2 * units >= (half_magnitude(n) + half_magnitude(k)) * units_per_half_unit(),
        half_magnitude(n) != half_magnitude(k),
{
    let s = units_per_half_unit();
    lemma_pow2_pos(125);
    if n < k {
        lemma_half_increases(n, k);
        if n + 1 < k {
            lemma_half_increases(n + 1, k);
        }
        let a = half_magnitude(n) + half_magnitude(n + 1);
        let b = half_magnitude(n) + half_magnitude(k);
        assert(a * s <= b * s) by (nonlinear_arith)
            requires
                a <= b,
                s > 0,
        ;
    } else {
        lemma_half_increases(k, n);
        if k < n - 1 {
            lemma_half_increases(k, n - 1);
        }
        let a = half_magnitude(n - 1) + half_magnitude(n);
        let b = half_magnitude(n) + half_magnitude(k);
        assert(b * s <= a * s) by (nonlinear_arith)
            requires
                b <= a,
                s > 0,
        ;
    }
}

/// The distance between a single-precision and a half-precision magnitude.
pub open spec fn distance(units: int, n: int) -> int {
    let d = units - half_magnitude(n) * units_per_half_unit();
    if d < 0 {
        -d
    } else {
        d
    }
}

/// No other half-precision magnitude is closer to the number than the one it
/// rounds to.
pub proof fn law_rounding_is_nearest(units: int, n: int, k: int)
    requires
        rounds_to(units, n),
        0 <= k <= HALF_INFINITY,
    ensures
        distance(units, n) <= distance(units, k),
{
    let s = units_per_half_unit();
    if k != n {
        lemma_distance(units, n, k);
        let hn = half_magnitude(n);
        let hk = half_magnitude(k);
        lemma_pow2_pos(125);
        assert((hn + hk) * s == hn * s + hk * s) by (nonlinear_arith);
        if n < k {
            lemma_half_increases(n, k);
            assert(hn * s < hk * s) by (nonlinear_arith)
                requires
                    hn < hk,
                    s > 0,
            ;
        } else {
            lemma_half_increases(k, n);
            assert(hk * s < hn * s) by (nonlinear_arith)
                requires
                    hk < hn,
                    s > 0,
            ;
        }
    }
}

/// A magnitude rounds to one encoding only.
pub proof fn law_rounding_is_unique(units: int, n: int, k: int)
    requires
        rounds_to(units, n),
        rounds_to(units, k),
    ensures
        n == k,
{
    if n != k {
        let (a, b) = if n < k {
            (n, k)
        } else {
            (k, n)
        };
        let s = units_per_half_unit();
        lemma_pow2_pos(125);
        if a + 1 < b {
            lemma_half_increases(a + 1, b);
            lemma_half_increases(a, b - 1);
            let low = half_magnitude(a) + half_magnitude(a + 1);
            let high = half_magnitude(b - 1) + half_magnitude(b);
            assert(low * s < high * s) by (nonlinear_arith)
                requires
                    low < high,
                    s > 0,
            ;
        }
    }
}

/// The single-precision number with the value of a half-precision one.
pub open spec fn widens_to(half: u16, value: F32) -> bool {
    let sign: int = if half >= 0x8000 {
        0x8000_0000
    } else {
        0
    };
    &&& negative(value.bits) == (half >= 0x8000)
    &&& if half_exponent(half as int) == 0x1f {
        value.bits == sign + 0x7f80_0000 + half_fraction(half as int) * 0x2000
    } else {
        value.finite() && magnitude(value.bits) == half_magnitude(half as int)
            * units_per_half_unit()
    }
}

/// Converts a half-precision encoding to the number it stands for.
pub fn half_to_f32(half: u16) -> (value: F32)
    ensures
        widens_to(half, value),
{
    let sign: u32 = if half >= 0x8000 {
        0x8000_0000
    } else {
        0
    };
    let exp: u32 = (half as u32 / 0x400) % 0x20;
    let frac: u32 = half as u32 % 0x400;
    let mut e: u32 = exp + 112;
    let mut m: u32 = frac;
    if exp == 0x1f {
        return F32 { bits: sign + 0x7f80_0000 + frac * 0x2000 };
    }
    if exp == 0 {
        if frac == 0 {
            proof {
                assert(magnitude(sign) == 0);
                assert(0 * units_per_half_unit() == 0);
            }
            return F32 { bits: sign };
        }
        e = 113;
        proof {
            vstd::arithmetic::power2::lemma2_to64();
            assert(frac * pow2(10) == m * pow2((e - 103) as nat));
        }
        while m < 0x400
            invariant
                103 <= e <= 113,
                0 < frac < 0x400,
                0 < m < 0x800,
                frac * pow2(10) == m * pow2((e - 103) as nat),
            decreases e,
        {
            proof {
                vstd::arithmetic::power2::lemma2_to64();
                if e == 103 {
                    assert(m * 1 == m);
                    assert(frac * 1024 >= 1024);
                }
                lemma_pow2_unfold((e - 103) as nat);
                let p = pow2((e - 104) as nat) as int;
                assert(m * (2 * p) == (2 * m) * p) by (nonlinear_arith);
            }
            m = m * 2;
            e = e - 1;
        }
        m = m - 0x400;
    }
    let bits: u32 = sign + e * 0x80_0000 + m * 0x2000;
    proof {
        assert(fraction(bits) == m * 0x2000);
        assert(exponent(bits) == e) by {
            assert(bits as int / 0x80_0000 == sign as int / 0x80_0000 + e);
        }
        let p = pow2((e - 1) as nat) as int;
        assert((m * 0x2000 + 0x80_0000) * p == (m + 0x400) * (0x2000 * p)) by (nonlinear_arith);
        vstd::arithmetic::power2::lemma2_to64();
        lemma_pow2_adds(13, (e - 1) as nat);
        if exp == 0 {
            lemma_pow2_adds((e - 103) as nat, 115);
            lemma_pow2_adds(10, 115);
            let q = pow2((e - 103) as nat) as int;
            let r = pow2(115) as int;
            assert(((m + 0x400) * q) * r == (m + 0x400) * (q * r)) by (nonlinear_arith);
            assert((frac * 0x400) * r == frac * (0x400 * r)) by (nonlinear_arith);
        } else {
            lemma_pow2_adds((exp - 1) as nat, 125);
            let q = pow2((exp - 1) as nat) as int;
            let r = pow2(125) as int;
            assert(((m + 0x400) * q) * r == (m + 0x400) * (q * r)) by (nonlinear_arith);
        }
    }
    F32 { bits }
}

/// A half-precision number that is widened and narrowed again comes back.
pub proof fn law_half_round_trips(half: u16, value: F32, back: u16)
    requires
        widens_to(half, value),
        narrows_to(value, back),
        half_exponent(half as int) != 0x1f || half_fraction(half as int) == 0,
    ensures
        back == half,
{
    let sign: int = if half >= 0x8000 {
        0x8000
    } else {
        0
    };
    let n = half - sign;
    let s = units_per_half_unit();
    lemma_pow2_pos(125);
    assert(half_exponent(n) == half_exponent(half as int)) by {
        assert(half as int / 0x400 == n / 0x400 + sign / 0x400);
    }
    assert(half_fraction(n) == half_fraction(half as int));
    assert(n <= HALF_INFINITY);
    if half_exponent(half as int) == 0x1f {
        assert(n == HALF_INFINITY);
        assert(value.bits == (if half >= 0x8000 {
            0x8000_0000int
        } else {
            0
        }) + 0x7f80_0000);
        assert(exponent(value.bits) == 0xff && fraction(value.bits) == 0);
        if half >= 0x8000 {
            crate::float::lemma_magnitude_ignores_sign(value.bits);
        }
        lemma_rounds_to_infinity(0x7f80_0000);
        law_rounding_is_unique(magnitude(value.bits), n, back - sign);
    } else {
        let u = magnitude(value.bits);
        assert(u == half_magnitude(n) * s);
        if n > 0 {
            lemma_half_step(n - 1);
            let a = half_magnitude(n - 1);
            let b = half_magnitude(n);
            assert((a + b) * s < 2 * (b * s)) by (nonlinear_arith)
                requires
                    a < b,
                    s > 0,
            ;
        }
        if n < HALF_INFINITY {
            lemma_half_step(n);
            let a = half_magnitude(n);
            let b = half_magnitude(n + 1);
            assert((a + b) * s > 2 * (a * s)) by (nonlinear_arith)
                requires
                    a < b,
                    s > 0,
            ;
        }
        assert(rounds_to(u, n));
        law_rounding_is_unique(u, n, back - sign);
    }
}

/// The magnitude of one.
proof fn lemma_one()
    ensures
        half_magnitude(0x3c00) == 0x100_0000,
{
    vstd::arithmetic::power2::lemma2_to64();
    assert(half_exponent(0x3c00) == 15);
    assert(half_fraction(0x3c00) == 0);
    assert(pow2(14) == 0x4000);
    assert((half_exponent(0x3c00) - 1) as nat == 14);
}

/// Below one the magnitude is below that of one.
proof fn lemma_below_one(n: int)
    requires
        0 <= n < 0x3c00,
    ensures
        0 <= half_magnitude(n) < 0x100_0000,
{
    lemma_half_increases(n, 0x3c00);
    lemma_one();
    lemma_pow2_pos((half_exponent(n) - 1) as nat);
    if half_exponent(n) != 0 {
        let a = half_fraction(n) + 0x400;
        let b = pow2((half_exponent(n) - 1) as nat) as int;
        assert(a * b >= 0) by (nonlinear_arith)
            requires
                a >= 0,
                b >= 0,
        ;
    }
}

/// The 8-bit level of a half-precision number: clamped to the unit interval,
/// scaled to 255 and rounded, with ties away from zero. A NaN gives zero.
pub open spec fn unorm8(half: u16) -> int {
    if half >= 0x8000 || half > HALF_INFINITY {
        0
    } else if half >= 0x3c00 {
        255
    } else {
        (2 * 255 * half_magnitude(half as int) + pow2(24)) / (2 * pow2(24) as int)
    }
}

/// The level of a magnitude below one.
fn level_of(value: u64) -> (level: u8)
    requires
        value < 0x100_0000,
    ensures
        level == (510 * value + 0x100_0000) / 0x200_0000,
{
    ((510 * value + 0x100_0000) / 0x200_0000) as u8
}

pub fn half_to_unorm8(half: u16) -> (level: u8)
    ensures
        level == unorm8(half),
{
    if half >= 0x8000 || half > HALF_INFINITY {
        return 0;
    }
    if half >= 0x3c00 {
        return 255;
    }
    let exp: u32 = half as u32 / 0x400;
    let frac: u32 = half as u32 % 0x400;
    proof {
        vstd::arithmetic::power2::lemma2_to64();
        assert(half_exponent(half as int) == exp);
        lemma_below_one(half as int);
    }
    let value: u64 = if exp == 0 {
        frac as u64
    } else {
        let shift: u64 = exp as u64 - 1;
        proof {
            lemma_pow2_pos(shift as nat);
            assert(half_fraction(half as int) == frac);
            assert((half_exponent(half as int) - 1) as nat == shift as nat);
            assert((frac + 0x400) * pow2(shift as nat) == half_magnitude(half as int));
            vstd::bits::lemma_u64_shl_is_mul((frac + 0x400) as u64, shift);
        }
        (frac as u64 + 0x400) << shift
    };
    proof {
        assert(value == half_magnitude(half as int));
        assert(value < 0x100_0000);
    }
    level_of(value)
}

/// The level of a magnitude below one, in plain numbers.
proof fn lemma_level(n: u16)
    requires
        n < 0x3c00,
    ensures
        0 <= half_magnitude(n as int) < 0x100_0000,
        unorm8(n) == (510 * half_magnitude(n as int) + 0x100_0000) / 0x200_0000,
        0 <= unorm8(n) <= 255,
{
    lemma_below_one(n as int);
    vstd::arithmetic::power2::lemma2_to64();
    assert(pow2(24) == 0x100_0000);
}

proof fn lemma_levels_follow(x: int, y: int)
    requires
        x < y,
    ensures
        (510 * x + 0x100_0000) / 0x200_0000 <= (510 * y + 0x100_0000) / 0x200_0000,
{
    vstd::arithmetic::div_mod::lemma_div_is_ordered(
        510 * x + 0x100_0000,
        510 * y + 0x100_0000,
        0x200_0000,
    );
}

/// A larger number never gives a smaller level.
pub proof fn law_levels_are_monotonic(a: u16, b: u16)
    requires
        a <= b <= HALF_INFINITY,
    ensures
        0 <= unorm8(a) <= unorm8(b) <= 255,
{
    if b < 0x3c00 {
        lemma_level(a);
        lemma_level(b);
        if a < b {
            lemma_half_increases(a as int, b as int);
            lemma_levels_follow(half_magnitude(a as int), half_magnitude(b as int));
        }
    } else if a < 0x3c00 {
        lemma_level(a);
    }
}

} // verus!
