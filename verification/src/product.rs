//! The product of two single-precision numbers, rounded to nearest with ties
//! to even.
use crate::float::{exponent, fraction, lemma_magnitude_increases, magnitude, negative, F32};
use vstd::arithmetic::power2::{
    lemma_pow2_adds, lemma_pow2_pos, lemma_pow2_strictly_increases, lemma_pow2_unfold, pow2,
};
use vstd::prelude::*;

verus! {

/// The encoding of positive infinity.
pub const SINGLE_INFINITY: u32 = 0x7f80_0000;

/// The absolute value of the encoding `n` without a sign.
pub open spec fn plain_magnitude(n: int) -> int {
    magnitude(n as u32)
}

/// Twice the value in the middle between an encoding and the next.
pub open spec fn middle(n: int) -> int {
    plain_magnitude(n) + plain_magnitude(n + 1)
}

/// `n` is the encoding to which the fraction `num / den` rounds: the fraction
/// lies between the middles on either side of it, and on a middle the even
/// encoding wins.
pub open spec fn fraction_rounds_to(num: int, den: int, n: int) -> bool {
    &&& 0 <= n <= SINGLE_INFINITY
    &&& n > 0 ==> {
        ||| middle(n - 1) * den < 2 * num
        ||| middle(n - 1) * den == 2 * num && n % 2 == 0
    }
    &&& n < SINGLE_INFINITY ==> {
        ||| 2 * num < middle(n) * den
        ||| 2 * num == middle(n) * den && n % 2 == 0
    }
}

/// The encoding without its sign.
pub open spec fn unsigned(bits: u32) -> int {
    if negative(bits) {
        bits - 0x8000_0000
    } else {
        bits as int
    }
}

/// `value` is the product of `a` and `b`.
pub open spec fn is_product(a: F32, b: F32, value: F32) -> bool {
    let a_zero = unsigned(a.bits) == 0;
    let b_zero = unsigned(b.bits) == 0;
    if a.nan() || b.nan() || (!a.finite() && b_zero) || (a_zero && !b.finite()) {
        value.nan()
    } else {
        &&& !value.nan()
        &&& negative(value.bits) == (negative(a.bits) != negative(b.bits))
        &&& if !a.finite() || !b.finite() {
            unsigned(value.bits) == SINGLE_INFINITY
        } else {
            fraction_rounds_to(
                magnitude(a.bits) * magnitude(b.bits),
                pow2(149) as int,
                unsigned(value.bits),
            )
        }
    }
}

pub proof fn lemma_single_step(n: int)
    requires
        0 <= n < SINGLE_INFINITY,
    ensures
        0 <= plain_magnitude(n) < plain_magnitude(n + 1),
{
    lemma_magnitude_increases(n as u32, (n + 1) as u32);
}

/// The numerator is `low` units and a remainder in steps of `step`, with `full`
/// steps to the next encoding: then comparing the remainder with half of `full`
/// decides the rounding.
pub proof fn lemma_round_fraction(
    num: int,
    den: int,
    low: int,
    rem: int,
    step: int,
    full: int,
    up: bool,
)
    requires
        0 <= low < SINGLE_INFINITY,
        den > 0,
        step > 0,
        0 <= rem < full,
        num == plain_magnitude(low) * den + rem * step,
        full * step == (plain_magnitude(low + 1) - plain_magnitude(low)) * den,
        up == (2 * rem > full || (2 * rem == full && low % 2 == 1)),
    ensures
        fraction_rounds_to(
            num,
            den,
            if up {
                low + 1
            } else {
                low
            },
        ),
{
    let h0 = plain_magnitude(low);
    let h1 = plain_magnitude(low + 1);
    lemma_single_step(low);
    assert(middle(low) * den == 2 * (h0 * den) + full * step) by (nonlinear_arith)
        requires
            middle(low) == h0 + h1,
            full * step == (h1 - h0) * den,
    ;
    assert(2 * (rem * step) == (2 * rem) * step) by (nonlinear_arith);
    if 2 * rem > full {
        assert((2 * rem) * step > full * step) by (nonlinear_arith)
            requires
                2 * rem > full,
                step > 0,
        ;
    } else if 2 * rem < full {
        assert((2 * rem) * step < full * step) by (nonlinear_arith)
            requires
                2 * rem < full,
                step > 0,
        ;
    }
    assert(0 <= rem * step < full * step) by (nonlinear_arith)
        requires
            0 <= rem < full,
            step > 0,
    ;
    assert((h1 - h0) * den == h1 * den - h0 * den) by (nonlinear_arith);
    if low > 0 {
        lemma_single_step(low - 1);
        let hp = plain_magnitude(low - 1);
        assert((hp + h0) * den < 2 * (h0 * den)) by (nonlinear_arith)
            requires
                hp < h0,
                den > 0,
        ;
    }
    if low + 1 < SINGLE_INFINITY {
        lemma_single_step(low + 1);
        let h2 = plain_magnitude(low + 2);
        assert((h1 + h2) * den > 2 * (h1 * den)) by (nonlinear_arith)
            requires
                h1 < h2,
                den > 0,
        ;
    }
}

/// The encoding whose magnitude is `q` times two to the power of `e`.
pub proof fn lemma_encoding(q: int, e: int)
    requires
        0 <= q < 0x100_0000,
        0 <= e <= 253,
        e > 0 ==> q >= 0x80_0000,
    ensures
        0 <= e * 0x80_0000 + q < SINGLE_INFINITY,
        plain_magnitude(e * 0x80_0000 + q) == q * pow2(e as nat),
        plain_magnitude(e * 0x80_0000 + q + 1) == (q + 1) * pow2(e as nat),
{
    lemma_encoding_value(q, e);
    if q + 1 < 0x100_0000 {
        lemma_encoding_value(q + 1, e);
    } else {
        lemma_encoding_value(0x80_0000, e + 1);
        lemma_pow2_unfold((e + 1) as nat);
        let p = pow2(e as nat) as int;
        assert(0x80_0000 * (2 * p) == 0x100_0000 * p) by (nonlinear_arith);
    }
}

proof fn lemma_encoding_value(q: int, e: int)
    requires
        0 <= q < 0x100_0000,
        0 <= e <= 254,
        e > 0 ==> q >= 0x80_0000,
    ensures
        plain_magnitude(e * 0x80_0000 + q) == q * pow2(e as nat),
{
    let n = e * 0x80_0000 + q;
    let bits = n as u32;
    if q >= 0x80_0000 {
        assert(bits as int / 0x80_0000 == e + 1);
        assert(exponent(bits) == e + 1);
        assert(fraction(bits) == q - 0x80_0000);
    } else {
        assert(e == 0);
        assert(exponent(bits) == 0);
        assert(fraction(bits) == q);
        vstd::arithmetic::power2::lemma2_to64();
        vstd::arithmetic::power2::lemma2_to64_rest();
    }
}

/// Rounds `p` times two to the power of `j`, counted in units of the smallest
/// positive number over two to the power of 149.
pub fn round_scaled(p: u64, j: u32) -> (n: u32)
    requires
        0 < p,
        j <= 506,
    ensures
        fraction_rounds_to(p * pow2(j as nat), pow2(149) as int, n as int),
{
    let ghost den = pow2(149) as int;
    let ghost num = p * pow2(j as nat);
    let mut t: u64 = p;
    let mut k: u32 = j;
    while t < 0x80_0000 && k > 149
        invariant
            0 < t,
            k <= 506,
            num == t * pow2(k as nat),
        decreases k,
    {
        proof {
            lemma_pow2_unfold(k as nat);
            let half = pow2((k - 1) as nat) as int;
            assert(t * (2 * half) == (t * 2) * half) by (nonlinear_arith);
        }
        t = t * 2;
        k = k - 1;
    }
    let mut s: u32 = 0;
    let mut q: u64 = t;
    proof {
        vstd::arithmetic::power2::lemma2_to64();
        vstd::arithmetic::power2::lemma2_to64_rest();
        assert(t as int / 1 == t);
    }
    while q >= 0x100_0000 || k + s < 149
        invariant
            0 < t,
            k <= 506,
            s <= 150,
            k + s <= 149 || q >= 0x80_0000,
            q == t as int / pow2(s as nat) as int,
            q <= t,
            s >= 64 ==> q == 0,
        decreases (if k + s < 149 {
            149 - (k + s)
        } else {
            0
        }) + q,
    {
        proof {
            lemma_pow2_unfold((s + 1) as nat);
            lemma_pow2_pos(s as nat);
            vstd::arithmetic::div_mod::lemma_div_denominator(t as int, pow2(s as nat) as int, 2);
            assert(pow2(s as nat) * 2 == pow2((s + 1) as nat));
            if s + 1 >= 64 {
                vstd::arithmetic::power2::lemma2_to64();
                vstd::arithmetic::power2::lemma2_to64_rest();
                if s + 1 > 64 {
                    lemma_pow2_strictly_increases(64, (s + 1) as nat);
                }
                vstd::arithmetic::div_mod::lemma_basic_div(t as int, pow2((s + 1) as nat) as int);
            }
        }
        q = q / 2;
        s = s + 1;
    }
    let e: u32 = k + s - 149;
    if e >= 254 {
        proof {
            lemma_overflow(num, q as int, t as int, k as nat, s as nat);
        }
        return SINGLE_INFINITY;
    }
    proof {
        lemma_encoding(q as int, e as int);
        lemma_pow2_pos(149);
        lemma_pow2_pos(k as nat);
        lemma_pow2_pos(s as nat);
        lemma_pow2_adds(s as nat, k as nat);
        lemma_pow2_adds(e as nat, 149);
    }
    let low: u32 = e * 0x80_0000 + q as u32;
    let ghost step = pow2(k as nat) as int;
    let ghost full = pow2(s as nat) as int;
    let ghost rem = t as int % full;
    proof {
        vstd::arithmetic::div_mod::lemma_fundamental_div_mod(t as int, full);
        vstd::arithmetic::div_mod::lemma_mod_bound(t as int, full);
        let unit = pow2(e as nat) as int;
        assert(full * step == unit * den);
        assert((full * q + rem) * step == (q * (full * step)) + rem * step) by (nonlinear_arith);
        assert(q * (unit * den) == (q * unit) * den) by (nonlinear_arith);
        assert(((q + 1) * unit - q * unit) * den == unit * den) by (nonlinear_arith);
    }
    let up: bool = if s == 0 {
        proof {
            assert(full == 1);
            assert(rem == 0);
        }
        false
    } else if s >= 64 {
        proof {
            vstd::arithmetic::power2::lemma2_to64();
            vstd::arithmetic::power2::lemma2_to64_rest();
            if s > 64 {
                lemma_pow2_unfold(65);
                if s > 65 {
                    lemma_pow2_strictly_increases(65, s as nat);
                }
            }
            vstd::arithmetic::div_mod::lemma_small_mod(t as nat, full as nat);
        }
        s == 64 && (t > 0x8000_0000_0000_0000 || (t == 0x8000_0000_0000_0000 && low % 2 == 1))
    } else {
        proof {
            vstd::arithmetic::power2::lemma2_to64();
            vstd::arithmetic::power2::lemma2_to64_rest();
            if s < 63 {
                lemma_pow2_strictly_increases(s as nat, 63);
            }
            vstd::bits::lemma_u64_shl_is_mul(1, s as u64);
        }
        let whole: u64 = 1u64 << (s as u64);
        let rest: u64 = t % whole;
        2 * rest > whole || (2 * rest == whole && low % 2 == 1)
    };
    proof {
        lemma_round_fraction(num, den, low as int, rem, step, full, up);
    }
    if up {
        low + 1
    } else {
        low
    }
}

proof fn lemma_overflow(num: int, q: int, t: int, k: nat, s: nat)
    requires
        q >= 0x80_0000,
        t > 0,
        q == t / pow2(s) as int,
        num == t * pow2(k),
        k + s >= 403,
    ensures
        fraction_rounds_to(num, pow2(149) as int, SINGLE_INFINITY as int),
{
    let den = pow2(149) as int;
    let full = pow2(s) as int;
    let step = pow2(k) as int;
    lemma_pow2_pos(149);
    lemma_pow2_pos(k);
    lemma_pow2_pos(s);
    vstd::arithmetic::div_mod::lemma_fundamental_div_mod(t, full);
    vstd::arithmetic::div_mod::lemma_mod_bound(t, full);
    assert(t >= 0x80_0000 * full) by (nonlinear_arith)
        requires
            t == full * q + t % full,
            t % full >= 0,
            q >= 0x80_0000,
            full > 0,
    ;
    lemma_pow2_adds(s, k);
    assert(t * step >= 0x80_0000 * (full * step)) by (nonlinear_arith)
        requires
            t >= 0x80_0000 * full,
            step > 0,
    ;
    if k + s > 403 {
        lemma_pow2_strictly_increases(403, k + s);
    }
    lemma_pow2_adds(254, 149);
    let top = pow2(254) as int;
    assert(exponent(SINGLE_INFINITY) == 255 && fraction(SINGLE_INFINITY) == 0);
    assert(plain_magnitude(SINGLE_INFINITY as int) == 0x80_0000 * top);
    lemma_single_step(SINGLE_INFINITY - 1);
    let before = plain_magnitude(SINGLE_INFINITY - 1);
    let last = 0x80_0000 * top;
    assert((before + last) * den < 2 * (last * den)) by (nonlinear_arith)
        requires
            before < last,
            den > 0,
    ;
    assert(last * den == 0x80_0000 * (top * den)) by (nonlinear_arith)
        requires
            last == 0x80_0000 * top,
    ;
}

/// The significand and the scale of an encoding without a sign.
pub fn parts(bits: u32) -> (parts: (u64, u32))
    requires
        0 < bits < SINGLE_INFINITY,
    ensures
        0 < parts.0 < 0x100_0000,
        parts.1 <= 253,
        parts.1 > 0 ==> parts.0 >= 0x80_0000,
        parts.1 * 0x80_0000 + parts.0 == bits,
        magnitude(bits) == parts.0 * pow2(parts.1 as nat),
{
    let field: u32 = bits / 0x80_0000;
    proof {
        vstd::arithmetic::power2::lemma2_to64();
        assert(exponent(bits) == field);
    }
    if field == 0 {
        proof {
            assert(fraction(bits) == bits);
            assert(bits as u64 * pow2(0) == bits);
        }
        (bits as u64, 0)
    } else {
        proof {
            assert(fraction(bits) == bits as int % 0x80_0000);
        }
        ((bits % 0x80_0000 + 0x80_0000) as u64, field - 1)
    }
}

/// An encoding below infinity is finite, and one of zero is zero.
pub proof fn lemma_unsigned(value: F32)
    requires
        !value.nan(),
    ensures
        0 <= unsigned(value.bits) <= SINGLE_INFINITY,
        magnitude(value.bits) == plain_magnitude(unsigned(value.bits)),
        value.finite() <==> unsigned(value.bits) < SINGLE_INFINITY,
{
    if negative(value.bits) {
        crate::float::lemma_magnitude_ignores_sign(value.bits);
        let plain = (value.bits - 0x8000_0000) as u32;
        assert(value.bits as int / 0x80_0000 == plain as int / 0x80_0000 + 0x100);
    }
}

proof fn lemma_zero_product(a: F32, b: F32, sign: u32)
    requires
        !a.nan() && !b.nan(),
        a.finite() && b.finite(),
        unsigned(a.bits) == 0 || unsigned(b.bits) == 0,
        sign == if negative(a.bits) != negative(b.bits) {
            0x8000_0000u32
        } else {
            0
        },
    ensures
        is_product(a, b, F32 { bits: sign }),
{
    lemma_unsigned(a);
    lemma_unsigned(b);
    let x = magnitude(a.bits);
    let y = magnitude(b.bits);
    assert(magnitude(0) == 0);
    assert(x * y == 0) by (nonlinear_arith)
        requires
            x == 0 || y == 0,
    ;
    lemma_single_step(0);
    lemma_pow2_pos(149);
    assert(middle(0) * pow2(149) > 0) by (nonlinear_arith)
        requires
            middle(0) > 0,
            pow2(149) > 0,
    ;
    lemma_not_nan(sign, 0);
    assert(unsigned(sign) == 0);
}

proof fn lemma_scales_multiply(x: int, k: nat, y: int, l: nat)
    ensures
        (x * pow2(k)) * (y * pow2(l)) == (x * y) * pow2(k + l),
{
    lemma_pow2_adds(k, l);
    let p = pow2(k) as int;
    let q = pow2(l) as int;
    assert((x * p) * (y * q) == (x * y) * (p * q)) by (nonlinear_arith);
}

/// The product of two numbers.
pub open spec fn product(a: F32, b: F32) -> F32 {
    choose|value: F32| is_product(a, b, value) && value.canonical()
}

impl F32 {
    /// The product, rounded to nearest with ties to even.
    pub fn times(self, other: F32) -> (value: F32)
        ensures
            is_product(self, other, value),
            value == product(self, other),
    {
        let value = self.times_any(other);
        proof {
            lemma_products_agree(self, other, value, product(self, other));
        }
        value
    }

    fn times_any(self, other: F32) -> (value: F32)
        ensures
            is_product(self, other, value),
            value.canonical(),
    {
        if self.is_nan() || other.is_nan() {
            return F32 { bits: 0x7fc0_0000 };
        }
        proof {
            lemma_unsigned(self);
            lemma_unsigned(other);
        }
        let a: u32 = if self.bits >= 0x8000_0000 {
            self.bits - 0x8000_0000
        } else {
            self.bits
        };
        let b: u32 = if other.bits >= 0x8000_0000 {
            other.bits - 0x8000_0000
        } else {
            other.bits
        };
        let sign: u32 = if (self.bits >= 0x8000_0000) != (other.bits >= 0x8000_0000) {
            0x8000_0000
        } else {
            0
        };
        if a == SINGLE_INFINITY || b == SINGLE_INFINITY {
            if a == 0 || b == 0 {
                return F32 { bits: 0x7fc0_0000 };
            }
            proof {
                lemma_not_nan(sign, SINGLE_INFINITY);
            }
            return F32 { bits: sign + SINGLE_INFINITY };
        }
        if a == 0 || b == 0 {
            proof {
                lemma_zero_product(self, other, sign);
            }
            return F32 { bits: sign };
        }
        let (x, k) = parts(a);
        let (y, l) = parts(b);
        proof {
            assert(0 < x * y < 0x1_0000_0000_0000) by (nonlinear_arith)
                requires
                    0 < x < 0x100_0000,
                    0 < y < 0x100_0000,
            ;
            lemma_scales_multiply(x as int, k as nat, y as int, l as nat);
        }
        let n: u32 = round_scaled(x * y, k + l);
        proof {
            lemma_not_nan(sign, n);
        }
        F32 { bits: sign + n }
    }
}

/// Two numbers have at most one product.
pub proof fn lemma_products_agree(a: F32, b: F32, p: F32, q: F32)
    requires
        is_product(a, b, p),
        is_product(a, b, q),
    ensures
        p == q || (p.nan() && q.nan()),
{
    if !p.nan() {
        if a.finite() && b.finite() {
            lemma_pow2_pos(149);
            law_fraction_rounds_to_one_number(
                magnitude(a.bits) * magnitude(b.bits),
                pow2(149) as int,
                unsigned(p.bits),
                unsigned(q.bits),
            );
        }
    }
}

/// `value` is the integer `n`, rounded to nearest with ties to even.
pub open spec fn is_integer(n: int, value: F32) -> bool {
    &&& !value.nan()
    &&& !negative(value.bits)
    &&& fraction_rounds_to(n * pow2(298), pow2(149) as int, value.bits as int)
}

/// The integer `n` as a number, rounded to nearest with ties to even.
pub open spec fn integer_value(n: int) -> F32 {
    choose|value: F32| is_integer(n, value)
}

proof fn lemma_integer_value(n: int, value: F32)
    requires
        is_integer(n, value),
    ensures
        value == integer_value(n),
{
    lemma_pow2_pos(149);
    law_fraction_rounds_to_one_number(
        n * pow2(298),
        pow2(149) as int,
        value.bits as int,
        integer_value(n).bits as int,
    );
}

impl F32 {
    /// The number nearest to an integer.
    pub fn from_u32(n: u32) -> (value: F32)
        ensures
            is_integer(n as int, value),
            value == integer_value(n as int),
    {
        F32::from_u64(n as u64)
    }

    /// The number nearest to an integer.
    pub fn from_u64(n: u64) -> (value: F32)
        ensures
            is_integer(n as int, value),
            value == integer_value(n as int),
    {
        if n == 0 {
            proof {
                lemma_single_step(0);
                lemma_pow2_pos(149);
                assert(middle(0) * pow2(149) > 0) by (nonlinear_arith)
                    requires
                        middle(0) > 0,
                        pow2(149) > 0,
                ;
            }
            let zero = F32 { bits: 0 };
            proof {
                lemma_integer_value(0, zero);
            }
            return zero;
        }
        let bits: u32 = round_scaled(n, 298);
        proof {
            lemma_not_nan(0, bits);
            lemma_integer_value(n as int, F32 { bits });
        }
        F32 { bits }
    }
}

/// A signed integer as a number.
pub open spec fn signed_value(n: int) -> F32 {
    if n < 0 {
        F32 { bits: (integer_value(-n).bits + 0x8000_0000) as u32 }
    } else {
        integer_value(n)
    }
}

impl F32 {
    /// The number nearest to a signed integer.
    pub fn from_i32(n: i32) -> (value: F32)
        ensures
            value == signed_value(n as int),
    {
        if n < 0 {
            let size = F32::from_u32((-(n as i64)) as u32);
            F32 { bits: size.bits + 0x8000_0000 }
        } else {
            F32::from_u32(n as u32)
        }
    }
}

/// An integer below two to the power of 24 is a number itself.
pub proof fn law_small_integers_are_exact(n: int, value: F32)
    requires
        0 <= n < 0x100_0000,
        is_integer(n, value),
    ensures
        value.equals(n),
{
    let den = pow2(149) as int;
    lemma_pow2_pos(149);
    lemma_pow2_adds(149, 149);
    let exact = exact_encoding(n, 149);
    lemma_exact_encoding(n, 149);
    let units = n * pow2(149);
    assert(units * den == n * pow2(298)) by (nonlinear_arith)
        requires
            units == n * pow2(149),
            pow2(298) == pow2(149) * den,
            den == pow2(149),
    ;
    lemma_exact_rounds(units, den, exact);
    law_fraction_rounds_to_one_number(n * pow2(298), den, value.bits as int, exact);
}

/// `value` is the number nearest to the fraction `num / den`.
pub open spec fn nearest(value: F32, num: int, den: int) -> bool {
    &&& !value.nan()
    &&& !negative(value.bits)
    &&& fraction_rounds_to(num * pow2(149), den, value.bits as int)
}

/// The number nearest to the fraction `num / den`.
pub open spec fn nearest_to(num: int, den: int) -> F32 {
    choose|value: F32| nearest(value, num, den)
}

/// A constant is nearest to a fraction where the two differ by less than half
/// of the constant's last place. `last` is the number of last places in one.
pub proof fn lemma_nearest(value: F32, num: int, den: int, field: int, last: int)
    requires
        den > 0,
        !negative(value.bits),
        1 <= field <= 149,
        exponent(value.bits) == field,
        fraction(value.bits) > 0,
        last == pow2((150 - field) as nat),
        (2 * (fraction(value.bits) + 0x80_0000) - 1) * den < 2 * (num * last),
        2 * (num * last) < (2 * (fraction(value.bits) + 0x80_0000) + 1) * den,
    ensures
        nearest(value, num, den),
        value == nearest_to(num, den),
{
    let e = exponent(value.bits) - 1;
    let q = fraction(value.bits) + 0x80_0000;
    let n = value.bits as int;
    assert(n == e * 0x80_0000 + q);
    lemma_encoding(q, e);
    lemma_encoding(q - 1, e);
    lemma_pow2_adds((149 - e) as nat, e as nat);
    lemma_pow2_pos(e as nat);
    let unit = pow2(e as nat) as int;
    let scale = pow2((149 - e) as nat) as int;
    assert(2 * (num * (scale * unit)) == (2 * (num * scale)) * unit) by (nonlinear_arith);
    assert(((q - 1) * unit + q * unit) * den == ((2 * q - 1) * den) * unit) by (nonlinear_arith);
    assert((q * unit + (q + 1) * unit) * den == ((2 * q + 1) * den) * unit) by (nonlinear_arith);
    let low = (2 * q - 1) * den;
    let high = (2 * q + 1) * den;
    let twice = 2 * (num * scale);
    assert(low * unit < twice * unit && twice * unit < high * unit) by (nonlinear_arith)
        requires
            low < twice < high,
            unit > 0,
    ;
    assert(nearest(value, num, den));
    law_fraction_rounds_to_one_number(num * pow2(149), den, n, nearest_to(num, den).bits as int);
}

/// The encoding of `n` times two to the power of `e`.
spec fn exact_encoding(n: int, e: int) -> int
    decreases e,
{
    if e <= 0 || n >= 0x80_0000 {
        e * 0x80_0000 + n
    } else {
        exact_encoding(2 * n, e - 1)
    }
}

proof fn lemma_exact_encoding(n: int, e: int)
    requires
        0 <= n < 0x100_0000,
        0 <= e <= 149,
    ensures
        0 <= exact_encoding(n, e) < SINGLE_INFINITY,
        plain_magnitude(exact_encoding(n, e)) == n * pow2(e as nat),
    decreases e,
{
    if e <= 0 || n >= 0x80_0000 {
        lemma_encoding(n, e);
    } else {
        lemma_exact_encoding(2 * n, e - 1);
        lemma_pow2_unfold(e as nat);
        let p = pow2((e - 1) as nat) as int;
        assert((2 * n) * p == n * (2 * p)) by (nonlinear_arith);
    }
}

pub proof fn lemma_exact_rounds(units: int, den: int, n: int)
    requires
        den > 0,
        0 <= n < SINGLE_INFINITY,
        plain_magnitude(n) == units,
    ensures
        fraction_rounds_to(units * den, den, n),
{
    lemma_single_step(n);
    let after = plain_magnitude(n + 1);
    assert((units + after) * den > 2 * (units * den)) by (nonlinear_arith)
        requires
            units < after,
            den > 0,
    ;
    if n > 0 {
        lemma_single_step(n - 1);
        let before = plain_magnitude(n - 1);
        assert((before + units) * den < 2 * (units * den)) by (nonlinear_arith)
            requires
                before < units,
                den > 0,
        ;
    }
}

pub proof fn lemma_not_nan(sign: u32, n: u32)
    requires
        sign == 0 || sign == 0x8000_0000,
        n <= SINGLE_INFINITY,
    ensures
        !(F32 { bits: (sign + n) as u32 }).nan(),
        negative((sign + n) as u32) == (sign != 0),
{
    let bits = (sign + n) as u32;
    assert(fraction(bits) == n as int % 0x80_0000);
    assert(bits as int / 0x80_0000 == sign as int / 0x80_0000 + n as int / 0x80_0000);
}

/// A fraction rounds to one encoding only.
pub proof fn law_fraction_rounds_to_one_number(num: int, den: int, n: int, k: int)
    requires
        den > 0,
        fraction_rounds_to(num, den, n),
        fraction_rounds_to(num, den, k),
    ensures
        n == k,
{
    if n != k {
        let (a, b) = if n < k {
            (n, k)
        } else {
            (k, n)
        };
        if a + 1 < b {
            lemma_single_step(a);
            lemma_magnitude_increases((a + 1) as u32, b as u32);
            lemma_magnitude_increases(a as u32, (b - 1) as u32);
            let low = middle(a);
            let high = middle(b - 1);
            assert(low * den < high * den) by (nonlinear_arith)
                requires
                    low < high,
                    den > 0,
            ;
        }
    }
}

} // verus!
