//! The quotient of two single-precision numbers, rounded to nearest with ties
//! to even.
use crate::float::{exponent, fraction, magnitude, negative, F32};
use crate::product::{
    fraction_rounds_to, law_fraction_rounds_to_one_number, lemma_encoding, lemma_not_nan, lemma_round_fraction, lemma_single_step,
    lemma_unsigned, middle, parts, plain_magnitude, unsigned, SINGLE_INFINITY,
};
use vstd::arithmetic::power2::{
    lemma_pow2_adds, lemma_pow2_pos, lemma_pow2_strictly_increases, lemma_pow2_unfold, pow2,
};
use vstd::prelude::*;

verus! {

/// `value` is the quotient of `a` and `b`.
pub open spec fn is_quotient(a: F32, b: F32, value: F32) -> bool {
    let a_zero = unsigned(a.bits) == 0;
    let b_zero = unsigned(b.bits) == 0;
    if a.nan() || b.nan() || (!a.finite() && !b.finite()) || (a_zero && b_zero) {
        value.nan()
    } else {
        &&& !value.nan()
        &&& negative(value.bits) == (negative(a.bits) != negative(b.bits))
        &&& if !a.finite() || b_zero {
            unsigned(value.bits) == SINGLE_INFINITY
        } else if a_zero || !b.finite() {
            unsigned(value.bits) == 0
        } else {
            fraction_rounds_to(
                magnitude(a.bits) * pow2(149),
                magnitude(b.bits),
                unsigned(value.bits),
            )
        }
    }
}

/// The numerator is `m` times two to the power of `k`, the denominator `d`
/// times two to the power of `l`; both of `m` and `d` have at most 24 bits.
fn round_ratio(m: u64, k: u32, d: u64, l: u32) -> (n: u32)
    requires
        0 < m < 0x100_0000,
        0 < d < 0x100_0000,
        149 <= k <= 402,
        l <= 253,
    ensures
        fraction_rounds_to(m * pow2(k as nat), d * pow2(l as nat), n as int),
{
    let ghost num = m * pow2(k as nat);
    let ghost den = d * pow2(l as nat);
    proof {
        lemma_pow2_pos(k as nat);
        lemma_pow2_pos(l as nat);
        assert(den > 0) by (nonlinear_arith)
            requires
                den == d * pow2(l as nat),
                d > 0,
                pow2(l as nat) > 0,
        ;
    }
    if k < l {
        let shift: u32 = l - k;
        if shift >= 26 {
            proof {
                lemma_small_ratio(m as int, k as nat, d as int, l as nat);
            }
            return 0;
        }
        proof {
            vstd::arithmetic::power2::lemma2_to64();
            vstd::arithmetic::power2::lemma2_to64_rest();
            lemma_pow2_strictly_increases(shift as nat, 26);
            lemma_pow2_pos(shift as nat);
            let p = pow2(shift as nat) as int;
            assert(0 < d * p < 0x4_0000_0000_0000) by (nonlinear_arith)
                requires
                    0 < d < 0x100_0000,
                    0 < p < 0x400_0000,
            ;
            vstd::bits::lemma_u64_shl_is_mul(d, shift as u64);
        }
        let full: u64 = d << (shift as u64);
        let q: u64 = m / full;
        let rem: u64 = m % full;
        proof {
            assert(q <= m) by (nonlinear_arith)
                requires
                    q == m as int / full as int,
                    full >= 1,
                    m >= 0,
            ;
            lemma_encoding(q as int, 0);
        }
        let low: u32 = q as u32;
        let up: bool = 2 * rem > full || (2 * rem == full && low % 2 == 1);
        proof {
            let step = pow2(k as nat) as int;
            vstd::arithmetic::div_mod::lemma_fundamental_div_mod(m as int, full as int);
            lemma_pow2_adds(shift as nat, k as nat);
            let p = pow2(shift as nat) as int;
            assert((d * p) * step == d * (p * step)) by (nonlinear_arith);
            assert(full * step == den);
            assert((full * q + rem) * step == q * (full * step) + rem * step) by (nonlinear_arith);
            vstd::arithmetic::power2::lemma2_to64();
            assert(0 * 0x80_0000 + q as int == low as int);
            assert(q * pow2(0) == q);
            assert((q + 1) * pow2(0) == q + 1);
            assert(plain_magnitude(low as int) == q);
            assert(plain_magnitude(low + 1) == q + 1);
            assert(1 * den == den);
            lemma_round_fraction(num, den, low as int, rem as int, step, full as int, up);
        }
        return if up {
            low + 1
        } else {
            low
        };
    }
    let mut t: u64 = m;
    let mut e: u32 = k - l;
    proof {
        lemma_pow2_adds((k - l) as nat, l as nat);
    }
    while e > 0 && t * 2 < d * 0x100_0000
        invariant
            0 < d < 0x100_0000,
            0 < t < d * 0x100_0000 <= 0x1_0000_0000_0000,
            e <= 402,
            num == t * pow2((e + l) as nat),
        decreases e,
    {
        proof {
            lemma_pow2_unfold((e + l) as nat);
            let half = pow2((e + l - 1) as nat) as int;
            assert(t * (2 * half) == (2 * t) * half) by (nonlinear_arith);
        }
        t = t * 2;
        e = e - 1;
    }
    let q: u64 = t / d;
    let rem: u64 = t % d;
    proof {
        vstd::arithmetic::div_mod::lemma_fundamental_div_mod(t as int, d as int);
        assert(q < 0x100_0000) by (nonlinear_arith)
            requires
                t == d * q + rem,
                rem >= 0,
                t < d * 0x100_0000,
                d > 0,
        ;
        if e > 0 {
            assert(q >= 0x80_0000) by (nonlinear_arith)
                requires
                    t == d * q + rem,
                    rem < d,
                    2 * t >= d * 0x100_0000,
                    d > 0,
            ;
        }
    }
    let ghost scale = pow2((e + l) as nat) as int;
    proof {
        lemma_pow2_pos((e + l) as nat);
        lemma_pow2_adds(e as nat, l as nat);
        let unit = pow2(e as nat) as int;
        let p = pow2(l as nat) as int;
        assert(scale == unit * p);
        assert((q * unit) * (d * p) == (d * q) * (unit * p)) by (nonlinear_arith);
        assert(((q + 1) * unit - q * unit) * (d * p) == d * (unit * p)) by (nonlinear_arith);
        assert((d * q + rem) * scale == (d * q) * scale + rem * scale) by (nonlinear_arith);
    }
    if e >= 254 {
        proof {
            lemma_large_ratio(num, den, q as int, e as nat, rem * scale);
        }
        return SINGLE_INFINITY;
    }
    proof {
        lemma_encoding(q as int, e as int);
    }
    let low: u32 = e * 0x80_0000 + q as u32;
    let up: bool = 2 * rem > d || (2 * rem == d && low % 2 == 1);
    proof {
        lemma_round_fraction(num, den, low as int, rem as int, scale, d as int, up);
    }
    if up {
        low + 1
    } else {
        low
    }
}

proof fn lemma_small_ratio(m: int, k: nat, d: int, l: nat)
    requires
        0 < m < 0x100_0000,
        0 < d,
        l >= k + 26,
    ensures
        fraction_rounds_to(m * pow2(k), d * pow2(l), 0),
{
    vstd::arithmetic::power2::lemma2_to64();
    lemma_pow2_pos(k);
    lemma_pow2_pos(l);
    lemma_pow2_adds(26, k);
    if l > k + 26 {
        lemma_pow2_strictly_increases(26 + k, l);
    }
    assert(exponent(1u32) == 0 && fraction(1u32) == 1);
    assert(middle(0) == 1);
    let p = pow2(k) as int;
    let r = pow2(l) as int;
    assert(2 * (m * p) < d * r) by (nonlinear_arith)
        requires
            0 < m < 0x100_0000,
            p > 0,
            r >= 0x400_0000 * p,
            d >= 1,
    ;
    assert(1 * (d * r) == d * r);
}

proof fn lemma_large_ratio(num: int, den: int, q: int, e: nat, rest: int)
    requires
        den > 0,
        q >= 0x80_0000,
        e >= 254,
        rest >= 0,
        num == (q * pow2(e)) * den + rest,
    ensures
        fraction_rounds_to(num, den, SINGLE_INFINITY as int),
{
    let top = pow2(254) as int;
    lemma_pow2_pos(254);
    if e > 254 {
        lemma_pow2_strictly_increases(254, e);
    }
    let p = pow2(e) as int;
    assert(q * p >= 0x80_0000 * top) by (nonlinear_arith)
        requires
            q >= 0x80_0000,
            p >= top,
            top > 0,
    ;
    assert(exponent(SINGLE_INFINITY) == 255 && fraction(SINGLE_INFINITY) == 0);
    assert(plain_magnitude(SINGLE_INFINITY as int) == 0x80_0000 * top);
    lemma_single_step(SINGLE_INFINITY - 1);
    let before = plain_magnitude(SINGLE_INFINITY - 1);
    let last = 0x80_0000 * top;
    assert((before + last) * den < 2 * (last * den)) by (nonlinear_arith)
        requires
            before < last,
            den > 0,
    ;
    let reached = q * p;
    assert(last * den <= reached * den) by (nonlinear_arith)
        requires
            last <= reached,
            den > 0,
    ;
}

/// The quotient of two numbers.
pub open spec fn quotient(a: F32, b: F32) -> F32 {
    choose|value: F32| is_quotient(a, b, value) && value.canonical()
}

/// Two numbers have at most one quotient.
proof fn lemma_quotients_agree(a: F32, b: F32, p: F32, q: F32)
    requires
        is_quotient(a, b, p),
        is_quotient(a, b, q),
    ensures
        p == q || (p.nan() && q.nan()),
{
    if !p.nan() && a.finite() && b.finite() && unsigned(a.bits) != 0 && unsigned(b.bits) != 0 {
        lemma_unsigned(b);
        crate::float::lemma_magnitude_increases(0, unsigned(b.bits) as u32);
        law_fraction_rounds_to_one_number(
            magnitude(a.bits) * pow2(149),
            magnitude(b.bits),
            unsigned(p.bits),
            unsigned(q.bits),
        );
    }
}

impl F32 {
    /// The quotient, rounded to nearest with ties to even.
    pub fn over(self, other: F32) -> (value: F32)
        ensures
            is_quotient(self, other, value),
            value == quotient(self, other),
    {
        let value = self.over_any(other);
        proof {
            lemma_quotients_agree(self, other, value, quotient(self, other));
        }
        value
    }

    fn over_any(self, other: F32) -> (value: F32)
        ensures
            is_quotient(self, other, value),
            value.canonical(),
    {
        if self.is_nan() || other.is_nan() {
            return F32 { bits: 0x7fc0_0000 };
        }
        proof {
            lemma_unsigned(self);
            lemma_unsigned(other);
        }
        let a: u32 = if self.bits >= 0x8000_0000 {
            self.bits - 0x8000_0000
        } else {
            self.bits
        };
        let b: u32 = if other.bits >= 0x8000_0000 {
            other.bits - 0x8000_0000
        } else {
            other.bits
        };
        let sign: u32 = if (self.bits >= 0x8000_0000) != (other.bits >= 0x8000_0000) {
            0x8000_0000
        } else {
            0
        };
        proof {
            lemma_not_nan(sign, 0);
            lemma_not_nan(sign, SINGLE_INFINITY);
        }
        if (a == SINGLE_INFINITY && b == SINGLE_INFINITY) || (a == 0 && b == 0) {
            return F32 { bits: 0x7fc0_0000 };
        }
        if a == SINGLE_INFINITY || b == 0 {
            return F32 { bits: sign + SINGLE_INFINITY };
        }
        if a == 0 || b == SINGLE_INFINITY {
            return F32 { bits: sign };
        }
        let (x, k) = parts(a);
        let (y, l) = parts(b);
        proof {
            lemma_pow2_adds(k as nat, 149);
            let p = pow2(k as nat) as int;
            let r = pow2(149) as int;
            assert((x * p) * r == x * (p * r)) by (nonlinear_arith);
        }
        let n: u32 = round_ratio(x, k + 149, y, l);
        proof {
            lemma_not_nan(sign, n);
        }
        F32 { bits: sign + n }
    }
}

} // verus!
