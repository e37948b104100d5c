//! How far rounded results lie from the exact ones.
use crate::float::{
    exponent, fraction, lemma_constants_are_what_they_say, lemma_magnitude_not_negative, magnitude,
    negative, F32, ONE_BITS,
};
use crate::product::{
    fraction_rounds_to, integer_value, is_integer, is_product, law_fraction_rounds_to_one_number,
    lemma_exact_rounds, lemma_not_nan, lemma_round_fraction, lemma_single_step,
    lemma_unsigned, middle, nearest, nearest_to, plain_magnitude, product, signed_value, unsigned,
    SINGLE_INFINITY,
};
use crate::quotient::{is_quotient, quotient};
use crate::sum::{difference, is_sum, opposite, sum};
use vstd::arithmetic::power2::{
    lemma_pow2_adds, lemma_pow2_pos, lemma_pow2_strictly_increases, lemma_pow2_unfold, pow2,
};
use vstd::prelude::*;

verus! {

/// The smallest positive numbers in one.
pub open spec fn scale() -> real {
    pow2(149) as int as real
}

impl F32 {
    /// The value of a finite number.
    #[verifier::opaque]
    pub open spec fn value(self) -> real {
        self.units() as real / scale()
    }
}

/// The absolute value.
pub open spec fn size_of(x: real) -> real {
    if x < 0 as real {
        -x
    } else {
        x
    }
}

/// `x` is as close to `exact` as a rounded result: up to half a unit in the last
/// of 24 binary places, or a tiny amount near zero.
pub open spec fn rounded(x: real, exact: real) -> bool {
    0x100_0000 as real * size_of(x - exact) <= size_of(exact) + tiny()
}

/// Two to the power of minus 64.
pub open spec fn tiny() -> real {
    1 as real / 0x1_0000_0000_0000_0000int as real
}

/// Two to the power of 64: results up to it are far from infinity.
pub open spec fn large() -> real {
    0x1_0000_0000_0000_0000int as real
}

/// The step to the next encoding is one unit, or at most one part in two to the
/// power of 23.
#[verifier::spinoff_prover]
proof fn lemma_step_is_small(n: int)
    requires
        0 <= n < SINGLE_INFINITY,
    ensures
        plain_magnitude(n) >= 0,
        ({
            let step = plain_magnitude(n + 1) - plain_magnitude(n);
            step == 1 || (step > 1 && 0x80_0000 * step <= plain_magnitude(n))
        }),
{
    let bits = n as u32;
    let next = (n + 1) as u32;
    let e = exponent(bits);
    lemma_magnitude_not_negative(bits);
    lemma_single_step(n);
    if e > 0 {
        let p = pow2((e - 1) as nat) as int;
        let f = fraction(bits);
        lemma_pow2_pos((e - 1) as nat);
        assert((f + 0x80_0000) * p >= 0x80_0000 * p) by (nonlinear_arith)
            requires
                f >= 0,
                p > 0,
        ;
        if f < 0x7f_ffff {
            assert(exponent(next) == e);
            assert(fraction(next) == f + 1);
            assert((f + 1 + 0x80_0000) * p == (f + 0x80_0000) * p + p) by (nonlinear_arith);
        } else {
            assert(exponent(next) == e + 1);
            assert(fraction(next) == 0);
            lemma_pow2_unfold(e as nat);
            assert((0 + 0x80_0000) * (2 * p) == 0x100_0000 * p) by (nonlinear_arith);
            assert((0x7f_ffff + 0x80_0000) * p == 0x100_0000 * p - p) by (nonlinear_arith);
        }
    } else {
        if fraction(bits) < 0x7f_ffff {
            assert(exponent(next) == 0);
            assert(fraction(next) == fraction(bits) + 1);
        } else {
            assert(exponent(next) == 1);
            assert(fraction(next) == 0);
            vstd::arithmetic::power2::lemma2_to64();
        }
    }
}

/// A rounded fraction differs from the fraction by half a step at most.
#[verifier::spinoff_prover]
proof fn lemma_rounding_error(num: int, den: int, n: int)
    requires
        fraction_rounds_to(num, den, n),
        0 <= num,
        0 < den,
        n < SINGLE_INFINITY,
    ensures
        ({
            let off = plain_magnitude(n) * den - num;
            &&& 0x200_0000 * off <= 2 * num + 0x100_0000 * den
            &&& 0x200_0000 * -off <= 2 * num + 0x100_0000 * den
        }),
{
    let m = plain_magnitude(n);
    let off = m * den - num;
    lemma_step_is_small(n);
    if off <= 0 {
        let step = plain_magnitude(n + 1) - m;
        assert(middle(n) * den == 2 * (m * den) + step * den) by (nonlinear_arith)
            requires
                middle(n) == 2 * m + step,
        ;
        assert(2 * -off <= step * den);
        if step > 1 {
            assert(0x80_0000 * (step * den) <= m * den) by (nonlinear_arith)
                requires
                    0x80_0000 * step <= m,
                    den > 0,
            ;
        } else {
            assert(step * den == den) by (nonlinear_arith)
                requires
                    step == 1,
            ;
        }
    } else {
        assert(n > 0) by {
            if n == 0 {
                assert(m == 0);
                assert(m * den == 0) by (nonlinear_arith)
                    requires
                        m == 0,
                ;
            }
        }
        lemma_step_is_small(n - 1);
        let before = plain_magnitude(n - 1);
        let step = m - before;
        assert(middle(n - 1) * den == 2 * (m * den) - step * den) by (nonlinear_arith)
            requires
                middle(n - 1) == 2 * m - step,
        ;
        assert(2 * off <= step * den);
        assert(middle(n - 1) * den >= 2 * (before * den)) by (nonlinear_arith)
            requires
                middle(n - 1) >= 2 * before,
                den > 0,
        ;
        if step > 1 {
            assert(0x80_0000 * (step * den) <= before * den) by (nonlinear_arith)
                requires
                    0x80_0000 * step <= before,
                    den > 0,
            ;
        } else {
            assert(step * den == den) by (nonlinear_arith)
                requires
                    step == 1,
            ;
        }
    }
}

/// Every fraction rounds to some encoding from `n` on, where it is not below `n`.
#[verifier::spinoff_prover]
proof fn lemma_rounding_from(num: int, den: int, n: int) -> (found: int)
    requires
        0 <= n <= SINGLE_INFINITY,
        0 < den,
        plain_magnitude(n) * den <= num,
    ensures
        fraction_rounds_to(num, den, found),
    decreases SINGLE_INFINITY - n,
{
    let m = plain_magnitude(n);
    if n == SINGLE_INFINITY {
        lemma_single_step(n - 1);
        let before = plain_magnitude(n - 1);
        assert((before + m) * den < 2 * (m * den)) by (nonlinear_arith)
            requires
                before < m,
                den > 0,
        ;
        n
    } else if plain_magnitude(n + 1) * den <= num {
        lemma_rounding_from(num, den, n + 1)
    } else {
        let rem = num - m * den;
        let full = (plain_magnitude(n + 1) - m) * den;
        assert(full == plain_magnitude(n + 1) * den - m * den) by (nonlinear_arith)
            requires
                full == (plain_magnitude(n + 1) - m) * den,
        ;
        let up = 2 * rem > full || (2 * rem == full && n % 2 == 1);
        lemma_round_fraction(num, den, n, rem, 1, full, up);
        if up {
            n + 1
        } else {
            n
        }
    }
}

/// Every fraction rounds to some encoding.
#[verifier::spinoff_prover]
proof fn lemma_rounding_exists(num: int, den: int) -> (found: int)
    requires
        0 <= num,
        0 < den,
    ensures
        fraction_rounds_to(num, den, found),
{
    assert(plain_magnitude(0) == 0);
    lemma_rounding_from(num, den, 0)
}

/// Two to the power of 149 in figures.
#[verifier::spinoff_prover]
proof fn lemma_scale()
    ensures
        pow2(149) == 0x20_0000 * (0x1_0000_0000_0000_0000 * 0x1_0000_0000_0000_0000),
        scale() > 0x100_0000 as real * large(),
{
    vstd::arithmetic::power2::lemma2_to64();
    vstd::arithmetic::power2::lemma2_to64_rest();
    lemma_pow2_adds(64, 64);
    lemma_pow2_adds(128, 21);
}

/// A fraction that is not large rounds to a number close to it.
#[verifier::spinoff_prover]
proof fn lemma_close(num: int, den: int, n: int, exact: real)
    requires
        fraction_rounds_to(num, den, n),
        0 <= num,
        0 < den,
        exact * (den as real * scale()) == num as real,
        exact <= large(),
    ensures
        n < SINGLE_INFINITY,
        rounded(plain_magnitude(n) as real / scale(), exact),
        0 as real <= exact,
{
    lemma_scale();
    let s = scale();
    let d = den as real;
    let w = num as real;
    assert(exact >= 0 as real) by (nonlinear_arith)
        requires
            exact * (d * s) == w,
            w >= 0 as real,
            d > 0 as real,
            s > 0 as real,
    ;
    if n == SINGLE_INFINITY {
        let last = SINGLE_INFINITY - 1;
        assert(exponent(last as u32) == 254);
        lemma_pow2_strictly_increases(213, 253);
        lemma_pow2_adds(149, 64);
        vstd::arithmetic::power2::lemma2_to64_rest();
        let p = pow2(253) as int;
        let f = fraction(last as u32);
        assert((f + 0x80_0000) * p >= p) by (nonlinear_arith)
            requires
                f >= 0,
                p > 0,
        ;
        lemma_single_step(last);
        let m = middle(last);
        assert(m >= 2 * p);
        let bound = pow2(213) as int;
        assert(bound as real == large() * s);
        assert(m * den >= (2 * p) * den) by (nonlinear_arith)
            requires
                m >= 2 * p,
                den > 0,
        ;
        assert((2 * p) * den > (2 * bound) * den) by (nonlinear_arith)
            requires
                p > bound,
                den > 0,
        ;
        assert(w <= large() * s * d) by (nonlinear_arith)
            requires
                exact * (d * s) == w,
                exact <= large(),
                d > 0 as real,
                s > 0 as real,
        ;
        assert((2 * bound) * den == 2 * (bound * den)) by (nonlinear_arith);
        lemma_real_product(bound, den);
        assert(num <= bound * den);
    } else {
        lemma_rounding_error(num, den, n);
        lemma_step_is_small(n);
        let m = plain_magnitude(n);
        let x = m as real / s;
        let md = (m * den) as real;
        lemma_real_product(m, den);
        assert(x * s == m as real) by (nonlinear_arith)
            requires
                x == m as real / s,
                s > 0 as real,
        ;
        lemma_divided(x, exact, m as real, w, d, s);
    }
}

/// The bound of a rounding, divided by the scale.
#[verifier::spinoff_prover]
proof fn lemma_divided(x: real, exact: real, m: real, w: real, d: real, s: real)
    requires
        x * s == m,
        exact * (d * s) == w,
        d > 0 as real,
        s > 0x100_0000 as real * large(),
        exact >= 0 as real,
        0x200_0000 as real * (m * d - w) <= 2 as real * w + 0x100_0000 as real * d,
        0x200_0000 as real * (w - m * d) <= 2 as real * w + 0x100_0000 as real * d,
    ensures
        rounded(x, exact),
{
    let ds = d * s;
    assert(ds > 0 as real) by (nonlinear_arith)
        requires
            ds == d * s,
            d > 0 as real,
            s > 0 as real,
    ;
    assert(m * d == x * ds) by (nonlinear_arith)
        requires
            x * s == m,
            ds == d * s,
    ;
    assert(0x100_0000 as real * d <= 2 as real * (tiny() * ds)) by (nonlinear_arith)
        requires
            ds == d * s,
            d > 0 as real,
            s > 0x100_0000 as real * large(),
            tiny() * large() == 1 as real,
            tiny() > 0 as real,
    ;
    let off = x - exact;
    assert(x * ds - exact * ds == off * ds) by (nonlinear_arith)
        requires
            off == x - exact,
    ;
    let bound = exact + tiny();
    assert(exact * ds + tiny() * ds == bound * ds) by (nonlinear_arith)
        requires
            bound == exact + tiny(),
    ;
    assert(0x100_0000 as real * (off * ds) <= bound * ds);
    assert(-(0x100_0000 as real * (off * ds)) <= bound * ds);
    assert(0x100_0000 as real * off <= bound) by (nonlinear_arith)
        requires
            0x100_0000 as real * (off * ds) <= bound * ds,
            ds > 0 as real,
    ;
    assert(-(0x100_0000 as real * off) <= bound) by (nonlinear_arith)
        requires
            -(0x100_0000 as real * (off * ds)) <= bound * ds,
            ds > 0 as real,
    ;
}

#[verifier::spinoff_prover]
pub proof fn lemma_real_product(a: int, b: int)
    ensures
        (a * b) as real == a as real * b as real,
{
    assert((a * b) as real == a as real * b as real) by (nonlinear_arith);
}

/// The value of a number by its magnitude.
#[verifier::spinoff_prover]
pub proof fn lemma_value(a: F32)
    requires
        a.finite(),
    ensures
        a.value() * scale() == a.units() as real,
        size_of(a.value()) * scale() == magnitude(a.bits) as real,
        size_of(a.value()) == magnitude(a.bits) as real / scale(),
        magnitude(a.bits) >= 0,
        negative(a.bits) ==> a.value() <= 0 as real,
        !negative(a.bits) ==> a.value() >= 0 as real,
{
    reveal(F32::value);
    lemma_scale();
    lemma_magnitude_not_negative(a.bits);
    let s = scale();
    let u = a.units() as real;
    let m = magnitude(a.bits) as real;
    let x = u / s;
    let y = m / s;
    assert(x * s == u && y * s == m) by (nonlinear_arith)
        requires
            x == u / s,
            y == m / s,
            s > 0 as real,
    ;
    assert(y >= 0 as real) by (nonlinear_arith)
        requires
            y * s == m,
            m >= 0 as real,
            s > 0 as real,
    ;
    assert(-y * s == -m) by (nonlinear_arith)
        requires
            y * s == m,
    ;
    assert(x == y || x == -y) by (nonlinear_arith)
        requires
            x * s == u,
            y * s == m,
            u == m || u == -m,
            s > 0 as real,
    ;
    if negative(a.bits) {
        assert(x == -y) by (nonlinear_arith)
            requires
                x * s == u,
                y * s == m,
                u == -m,
                s > 0 as real,
        ;
    } else {
        assert(x == y) by (nonlinear_arith)
            requires
                x * s == u,
                y * s == m,
                u == m,
                s > 0 as real,
        ;
    }
}

/// A whole number has its own value.
#[verifier::spinoff_prover]
pub proof fn lemma_whole_value(a: F32, n: int)
    requires
        a.equals(n),
    ensures
        a.value() == n as real,
{
    lemma_scale();
    lemma_value(a);
    lemma_real_product(n, pow2(149) as int);
    let x = a.value();
    let s = scale();
    let w = n as real;
    assert(x == w) by (nonlinear_arith)
        requires
            x * s == w * s,
            s > 0 as real,
    ;
}

/// The values of zero and one.
#[verifier::spinoff_prover]
pub proof fn lemma_zero_and_one()
    ensures
        (F32 { bits: 0 }).finite(),
        (F32 { bits: 0 }).value() == 0 as real,
        (F32 { bits: ONE_BITS }).finite(),
        (F32 { bits: ONE_BITS }).value() == 1 as real,
{
    let zero = F32 { bits: 0 };
    assert(zero.units() == 0);
    assert(zero.equals(0));
    lemma_whole_value(zero, 0);
    lemma_constants_are_what_they_say();
    lemma_whole_value(F32 { bits: ONE_BITS }, 1);
}

/// A number whose sign and magnitude are rounded from a value is close to it.
#[verifier::spinoff_prover]
proof fn lemma_rounded_number(value: F32, num: int, den: int, exact: real)
    requires
        !value.nan(),
        fraction_rounds_to(num, den, unsigned(value.bits)),
        0 <= num,
        0 < den,
        size_of(exact) * (den as real * scale()) == num as real,
        size_of(exact) <= large(),
        exact > 0 as real ==> !negative(value.bits),
        exact < 0 as real ==> negative(value.bits),
    ensures
        value.finite(),
        rounded(value.value(), exact),
{
    lemma_unsigned(value);
    lemma_close(num, den, unsigned(value.bits), size_of(exact));
    lemma_value(value);
}

/// The encoding with a sign and a rounded magnitude.
#[verifier::spinoff_prover]
proof fn lemma_signed_encoding(minus: bool, n: int) -> (value: F32)
    requires
        0 <= n <= SINGLE_INFINITY,
    ensures
        !value.nan(),
        unsigned(value.bits) == n,
        negative(value.bits) == minus,
{
    let sign: u32 = if minus {
        0x8000_0000
    } else {
        0
    };
    lemma_not_nan(sign, n as u32);
    F32 { bits: (sign + n as u32) as u32 }
}

/// A product that is not large is the exact product, rounded.
#[verifier::spinoff_prover]
pub proof fn lemma_product_is_close(a: F32, b: F32)
    requires
        a.finite(),
        b.finite(),
        size_of(a.value() * b.value()) <= large(),
    ensures
        product(a, b).finite(),
        rounded(product(a, b).value(), a.value() * b.value()),
        is_product(a, b, product(a, b)),
{
    lemma_value(a);
    lemma_value(b);
    lemma_scale();
    let s = scale();
    let ma = magnitude(a.bits);
    let mb = magnitude(b.bits);
    let exact = a.value() * b.value();
    let num = ma * mb;
    assert(num >= 0) by (nonlinear_arith)
        requires
            num == ma * mb,
            ma >= 0,
            mb >= 0,
    ;
    lemma_real_product(ma, mb);
    let va = a.value();
    let vb = b.value();
    let sa = size_of(va);
    let sb = size_of(vb);
    assert(size_of(exact) == sa * sb) by {
        lemma_size_of_product(va, vb);
    }
    assert((sa * sb) * (s * s) == (sa * s) * (sb * s)) by (nonlinear_arith);
    let n = lemma_rounding_exists(num, pow2(149) as int);
    let witness = lemma_signed_encoding(negative(a.bits) != negative(b.bits), n);
    assert(is_product(a, b, witness) && witness.canonical());
    let value = product(a, b);
    assert(is_product(a, b, value));
    assert(exact > 0 as real ==> negative(a.bits) == negative(b.bits)) by (nonlinear_arith)
        requires
            exact == va * vb,
            negative(a.bits) ==> va <= 0 as real,
            !negative(a.bits) ==> va >= 0 as real,
            negative(b.bits) ==> vb <= 0 as real,
            !negative(b.bits) ==> vb >= 0 as real,
    ;
    assert(exact < 0 as real ==> negative(a.bits) != negative(b.bits)) by (nonlinear_arith)
        requires
            exact == va * vb,
            negative(a.bits) ==> va <= 0 as real,
            !negative(a.bits) ==> va >= 0 as real,
            negative(b.bits) ==> vb <= 0 as real,
            !negative(b.bits) ==> vb >= 0 as real,
    ;
    lemma_rounded_number(value, num, pow2(149) as int, exact);
}

#[verifier::spinoff_prover]
pub proof fn lemma_size_of_product(a: real, b: real)
    ensures
        size_of(a * b) == size_of(a) * size_of(b),
{
    let p = a * b;
    let sa = size_of(a);
    let sb = size_of(b);
    assert(p == sa * sb || p == -(sa * sb)) by (nonlinear_arith)
        requires
            p == a * b,
            sa == a || sa == -a,
            sb == b || sb == -b,
    ;
    assert(sa * sb >= 0 as real) by (nonlinear_arith)
        requires
            sa >= 0 as real,
            sb >= 0 as real,
    ;
}

/// A sum that is not large is the exact sum, rounded.
#[verifier::spinoff_prover]
pub proof fn lemma_sum_is_close(a: F32, b: F32)
    requires
        a.finite(),
        b.finite(),
        size_of(a.value() + b.value()) <= large(),
    ensures
        sum(a, b).finite(),
        rounded(sum(a, b).value(), a.value() + b.value()),
        is_sum(a, b, sum(a, b)),
{
    lemma_value(a);
    lemma_value(b);
    lemma_scale();
    let s = scale();
    let units = a.units() + b.units();
    let num = crate::sum::size(units);
    let exact = a.value() + b.value();
    let va = a.value();
    let vb = b.value();
    assert(exact * s == units as real) by (nonlinear_arith)
        requires
            exact == va + vb,
            va * s + vb * s == units as real,
    ;
    let minus = if units == 0 {
        negative(a.bits) && negative(b.bits)
    } else {
        units < 0
    };
    let n = lemma_rounding_exists(num, 1);
    let witness = lemma_signed_encoding(minus, n);
    assert(is_sum(a, b, witness) && witness.canonical());
    let value = sum(a, b);
    assert(is_sum(a, b, value));
    assert((exact > 0 as real) == (units > 0) && (exact < 0 as real) == (units < 0)) by {
        let u = units as real;
        assert((exact > 0 as real) == (u > 0 as real) && (exact < 0 as real) == (u < 0 as real))
            by (nonlinear_arith)
            requires
                exact * s == u,
                s > 0 as real,
        ;
    }
    assert(-exact * s == -(exact * s)) by (nonlinear_arith);
    assert(1int as real * s == s);
    lemma_rounded_number(value, num, 1, exact);
}

/// The opposite has the opposite value.
#[verifier::spinoff_prover]
pub proof fn lemma_opposite_value(a: F32)
    requires
        a.finite(),
    ensures
        opposite(a).finite(),
        opposite(a).value() == -a.value(),
{
    let b = opposite(a);
    lemma_unsigned(a);
    let n = unsigned(a.bits);
    lemma_not_nan(0, n as u32);
    lemma_not_nan(0x8000_0000, n as u32);
    assert(!b.nan());
    lemma_unsigned(b);
    assert(b.units() == -a.units());
    lemma_value(a);
    lemma_value(b);
    let va = a.value();
    let vb = b.value();
    let s = scale();
    let u = a.units() as real;
    lemma_scale();
    assert(vb == -va) by (nonlinear_arith)
        requires
            va * s == u,
            vb * s == -u,
            s > 0 as real,
    ;
}

/// A difference that is not large is the exact difference, rounded.
#[verifier::spinoff_prover]
pub proof fn lemma_difference_is_close(a: F32, b: F32)
    requires
        a.finite(),
        b.finite(),
        size_of(a.value() - b.value()) <= large(),
    ensures
        difference(a, b).finite(),
        rounded(difference(a, b).value(), a.value() - b.value()),
{
    lemma_opposite_value(b);
    lemma_sum_is_close(a, opposite(b));
}

/// A quotient that is not large is the exact quotient, rounded.
#[verifier::spinoff_prover]
pub proof fn lemma_quotient_is_close(a: F32, b: F32, exact: real)
    requires
        a.finite(),
        b.finite(),
        b.value() != 0 as real,
        exact * b.value() == a.value(),
        size_of(exact) <= large(),
    ensures
        quotient(a, b).finite(),
        rounded(quotient(a, b).value(), exact),
{
    lemma_value(a);
    lemma_value(b);
    lemma_scale();
    lemma_unsigned(a);
    lemma_unsigned(b);
    let s = scale();
    let ma = magnitude(a.bits);
    let mb = magnitude(b.bits);
    let va = a.value();
    let vb = b.value();
    let sa = size_of(va);
    let sb = size_of(vb);
    lemma_size_of_product(exact, vb);
    assert(mb > 0) by {
        assert(sb * s > 0 as real) by (nonlinear_arith)
            requires
                sb > 0 as real,
                s > 0 as real,
        ;
    }
    assert(plain_magnitude(0) == 0);
    assert(unsigned(b.bits) != 0);
    let num = ma * pow2(149);
    assert(num >= 0) by (nonlinear_arith)
        requires
            num == ma * pow2(149),
            ma >= 0,
            pow2(149) > 0,
    ;
    lemma_real_product(ma, pow2(149) as int);
    let se = size_of(exact);
    assert(se * (mb as real * s) == ma as real * s) by (nonlinear_arith)
        requires
            se * sb == sa,
            sa * s == ma as real,
            sb * s == mb as real,
    ;
    let n = if unsigned(a.bits) == 0 {
        0
    } else {
        lemma_rounding_exists(num, mb)
    };
    let minus = negative(a.bits) != negative(b.bits);
    let witness = lemma_signed_encoding(minus, n);
    assert(is_quotient(a, b, witness) && witness.canonical());
    let value = quotient(a, b);
    assert(is_quotient(a, b, value));
    if unsigned(a.bits) == 0 {
        assert(ma == 0);
        assert(sa == 0 as real) by (nonlinear_arith)
            requires
                sa * s == 0 as real,
                s > 0 as real,
        ;
        assert(exact == 0 as real) by (nonlinear_arith)
            requires
                exact * vb == 0 as real,
                vb != 0 as real,
        ;
        lemma_unsigned(value);
        lemma_value(value);
    } else {
        assert(exact > 0 as real ==> negative(a.bits) == negative(b.bits)) by (nonlinear_arith)
            requires
                exact * vb == va,
                vb != 0 as real,
                negative(a.bits) ==> va <= 0 as real,
                !negative(a.bits) ==> va >= 0 as real,
                negative(b.bits) ==> vb <= 0 as real,
                !negative(b.bits) ==> vb >= 0 as real,
        ;
        assert(exact < 0 as real ==> negative(a.bits) != negative(b.bits)) by (nonlinear_arith)
            requires
                exact * vb == va,
                vb != 0 as real,
                negative(a.bits) ==> va <= 0 as real,
                !negative(a.bits) ==> va >= 0 as real,
                negative(b.bits) ==> vb <= 0 as real,
                !negative(b.bits) ==> vb >= 0 as real,
        ;
        lemma_rounded_number(value, num, mb, exact);
    }
}

/// The number nearest to a fraction is the fraction, rounded.
#[verifier::spinoff_prover]
pub proof fn lemma_nearest_is_close(num: int, den: int, exact: real)
    requires
        0 <= num,
        0 < den,
        exact * den as real == num as real,
        exact <= large(),
    ensures
        nearest_to(num, den).finite(),
        !negative(nearest_to(num, den).bits),
        rounded(nearest_to(num, den).value(), exact),
{
    lemma_scale();
    let s = scale();
    let d = den as real;
    let scaled = num * pow2(149);
    assert(scaled >= 0) by (nonlinear_arith)
        requires
            scaled == num * pow2(149),
            num >= 0,
            pow2(149) > 0,
    ;
    lemma_real_product(num, pow2(149) as int);
    assert(exact >= 0 as real) by (nonlinear_arith)
        requires
            exact * d >= 0 as real,
            d > 0 as real,
    ;
    assert(exact * (d * s) == num as real * s) by (nonlinear_arith)
        requires
            exact * d == num as real,
    ;
    let n = lemma_rounding_exists(scaled, den);
    let witness = lemma_signed_encoding(false, n);
    assert(nearest(witness, num, den));
    let value = nearest_to(num, den);
    assert(nearest(value, num, den));
    lemma_rounded_number(value, scaled, den, exact);
}

/// The order of numbers is the order of their values.
#[verifier::spinoff_prover]
pub proof fn lemma_order_of_values(a: F32, b: F32)
    requires
        a.finite(),
        b.finite(),
    ensures
        !a.nan() && !b.nan(),
        a.below(b) <==> a.value() < b.value(),
{
    crate::float::law_order_is_numeric(a, b);
    lemma_value(a);
    lemma_value(b);
    lemma_scale();
    let s = scale();
    let va = a.value();
    let vb = b.value();
    assert((va < vb) == (va * s < vb * s)) by (nonlinear_arith)
        requires
            s > 0 as real,
    ;
}

/// Without its sign a number has its absolute value.
#[verifier::spinoff_prover]
pub proof fn lemma_without_sign(a: F32)
    requires
        a.finite(),
    ensures
        a.without_sign().finite(),
        a.without_sign().value() == size_of(a.value()),
{
    let b = a.without_sign();
    lemma_unsigned(a);
    lemma_not_nan(0, unsigned(a.bits) as u32);
    assert(!b.nan());
    lemma_unsigned(b);
    lemma_value(a);
    lemma_value(b);
}

/// A rounded fraction that is itself a number is that number.
#[verifier::spinoff_prover]
proof fn lemma_exact_magnitude(value: F32, num: int, den: int, exact: F32)
    requires
        !value.nan(),
        exact.finite(),
        den > 0,
        num == magnitude(exact.bits) * den,
        fraction_rounds_to(num, den, unsigned(value.bits)),
    ensures
        value.finite(),
        magnitude(value.bits) == magnitude(exact.bits),
{
    lemma_unsigned(value);
    lemma_unsigned(exact);
    lemma_exact_rounds(magnitude(exact.bits), den, unsigned(exact.bits));
    law_fraction_rounds_to_one_number(num, den, unsigned(value.bits), unsigned(exact.bits));
}

/// A sum that is itself a number is not rounded.
#[verifier::spinoff_prover]
pub proof fn lemma_exact_sum(a: F32, b: F32, exact: F32)
    requires
        a.finite(),
        b.finite(),
        exact.finite(),
        exact.value() == a.value() + b.value(),
    ensures
        sum(a, b).finite(),
        sum(a, b).value() == exact.value(),
{
    lemma_value(a);
    lemma_value(b);
    lemma_value(exact);
    lemma_scale();
    let s = scale();
    let units = a.units() + b.units();
    let va = a.value();
    let vb = b.value();
    let ve = exact.value();
    assert(ve * s == va * s + vb * s) by (nonlinear_arith)
        requires
            ve == va + vb,
    ;
    assert(exact.units() == units);
    let num = crate::sum::size(units);
    let minus = if units == 0 {
        negative(a.bits) && negative(b.bits)
    } else {
        units < 0
    };
    let n = lemma_rounding_exists(num, 1);
    let witness = lemma_signed_encoding(minus, n);
    assert(is_sum(a, b, witness) && witness.canonical());
    let value = sum(a, b);
    assert(is_sum(a, b, value));
    lemma_exact_magnitude(value, num, 1, exact);
    lemma_value(value);
    let v = value.value();
    assert(value.units() == units);
    assert(v == ve) by (nonlinear_arith)
        requires
            v * s == ve * s,
            s > 0 as real,
    ;
}

/// Zero times a number is zero.
#[verifier::spinoff_prover]
pub proof fn lemma_zero_product(b: F32)
    requires
        b.finite(),
    ensures
        product(F32 { bits: 0 }, b).finite(),
        product(F32 { bits: 0 }, b).value() == 0 as real,
{
    let zero = F32 { bits: 0 };
    lemma_zero_and_one();
    assert(zero.value() * b.value() == 0 as real) by (nonlinear_arith)
        requires
            zero.value() == 0 as real,
    ;
    lemma_product_is_close(zero, b);
    lemma_scale();
    let value = product(zero, b);
    assert(magnitude(0) == 0);
    assert(magnitude(zero.bits) * magnitude(b.bits) == 0) by (nonlinear_arith)
        requires
            magnitude(zero.bits) == 0,
    ;
    lemma_exact_magnitude(value, 0, pow2(149) as int, zero);
    lemma_value(value);
    let s = scale();
    let v = value.value();
    assert(v == 0 as real) by (nonlinear_arith)
        requires
            v * s == 0 as real,
            s > 0 as real,
    ;
}

/// A whole number is close to itself, and small ones are themselves.
#[verifier::spinoff_prover]
pub proof fn lemma_integer_is_close(n: int)
    requires
        0 <= n <= 0x1_0000_0000_0000_0000,
    ensures
        integer_value(n).finite(),
        !negative(integer_value(n).bits),
        rounded(integer_value(n).value(), n as real),
        n < 0x100_0000 ==> integer_value(n).value() == n as real,
{
    lemma_scale();
    lemma_pow2_adds(149, 149);
    lemma_pow2_pos(298);
    let den = pow2(149) as int;
    let num = n * pow2(298);
    assert(num >= 0) by (nonlinear_arith)
        requires
            num == n * pow2(298),
            n >= 0,
            pow2(298) > 0,
    ;
    let found = lemma_rounding_exists(num, den);
    let witness = lemma_signed_encoding(false, found);
    assert(is_integer(n, witness));
    let value = integer_value(n);
    assert(is_integer(n, value));
    let w = n as real;
    let s = scale();
    lemma_real_product(den, den);
    lemma_real_product(n, pow2(298) as int);
    assert(w * (den as real * s) == num as real) by (nonlinear_arith)
        requires
            s == den as real,
            num as real == w * (den as real * den as real),
    ;
    lemma_rounded_number(value, num, den, w);
    if n < 0x100_0000 {
        crate::product::law_small_integers_are_exact(n, value);
        lemma_whole_value(value, n);
    }
}

/// A signed whole number has its value and its sign.
#[verifier::spinoff_prover]
pub proof fn lemma_signed_is_close(n: int)
    requires
        -0x1_0000_0000 <= n <= 0x1_0000_0000,
    ensures
        signed_value(n).finite(),
        rounded(signed_value(n).value(), n as real),
        -0x100_0000 < n < 0x100_0000 ==> signed_value(n).value() == n as real,
{
    if n < 0 {
        lemma_integer_is_close(-n);
        let plain = integer_value(-n);
        lemma_unsigned(plain);
        assert(opposite(plain) == signed_value(n));
        lemma_opposite_value(plain);
    } else {
        lemma_integer_is_close(n);
    }
}

/// The number nearest to a fraction is the one that is named so.
#[verifier::spinoff_prover]
pub proof fn lemma_is_nearest(value: F32, num: int, den: int)
    requires
        den > 0,
        nearest(value, num, den),
    ensures
        value == nearest_to(num, den),
{
    let named = nearest_to(num, den);
    assert(nearest(named, num, den));
    law_fraction_rounds_to_one_number(
        num * pow2(149),
        den,
        value.bits as int,
        named.bits as int,
    );
}

/// An encoding whose fraction is one half is one and a half times a power of two,
/// here of one.
#[verifier::spinoff_prover]
pub proof fn lemma_half_more(value: F32)
    requires
        value.bits == 0x3fc0_0000,
    ensures
        value.finite(),
        value.value() == 3 as real / 2 as real,
{
    lemma_pow2_adds(22, 126);
    lemma_pow2_unfold(149);
    lemma_pow2_adds(22, 127);
    lemma_pow2_unfold(127);
    vstd::arithmetic::power2::lemma2_to64();
    let p = pow2(126) as int;
    assert(exponent(value.bits) == 127);
    assert(fraction(value.bits) == 0x40_0000);
    assert(value.units() == 0xc0_0000 * p);
    assert(pow2(149) == 0x80_0000 * p) by {
        lemma_pow2_adds(23, 126);
    }
    lemma_value(value);
    lemma_scale();
    let v = value.value();
    let q = p as real;
    lemma_real_product(0xc0_0000, p);
    lemma_real_product(0x80_0000, p);
    assert(v == 3 as real / 2 as real) by (nonlinear_arith)
        requires
            v * (0x80_0000 as real * q) == 0xc0_0000 as real * q,
            q > 0 as real,
    ;
}

/// The number one half.
#[verifier::spinoff_prover]
pub proof fn lemma_one_half(value: F32)
    requires
        value.bits == 0x3f00_0000,
    ensures
        value.finite(),
        value.value() == 1 as real / 2 as real,
{
    vstd::arithmetic::power2::lemma2_to64();
    let p = pow2(125) as int;
    assert(exponent(value.bits) == 126);
    assert(fraction(value.bits) == 0);
    assert(value.units() == 0x80_0000 * p);
    assert(pow2(149) == 0x100_0000 * p) by {
        lemma_pow2_adds(24, 125);
    }
    lemma_value(value);
    lemma_scale();
    let v = value.value();
    let q = p as real;
    lemma_real_product(0x80_0000, p);
    lemma_real_product(0x100_0000, p);
    assert(v == 1 as real / 2 as real) by (nonlinear_arith)
        requires
            v * (0x100_0000 as real * q) == 0x80_0000 as real * q,
            q > 0 as real,
    ;
}

} // verus!
