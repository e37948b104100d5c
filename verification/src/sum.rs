//! The sum and the difference of two single-precision numbers, rounded to
//! nearest with ties to even.
use crate::float::{magnitude, negative, F32};
use crate::product::{
    fraction_rounds_to, law_fraction_rounds_to_one_number, lemma_encoding, lemma_exact_rounds, lemma_not_nan,
    lemma_unsigned, middle, parts, plain_magnitude, round_scaled, unsigned, SINGLE_INFINITY,
};
use vstd::arithmetic::power2::{
    lemma_pow2_adds, lemma_pow2_pos, lemma_pow2_strictly_increases, lemma_pow2_unfold, pow2,
};
use vstd::prelude::*;

verus! {

/// The absolute value of an integer.
pub open spec fn size(n: int) -> int {
    if n < 0 {
        -n
    } else {
        n
    }
}

/// `value` is the sum of `a` and `b`. Numbers that cancel out give positive
/// zero.
pub open spec fn is_sum(a: F32, b: F32, value: F32) -> bool {
    let exact = a.units() + b.units();
    if a.nan() || b.nan() || (!a.finite() && !b.finite() && negative(a.bits) != negative(b.bits)) {
        value.nan()
    } else if !a.finite() {
        value == a
    } else if !b.finite() {
        value == b
    } else {
        &&& !value.nan()
        &&& negative(value.bits) == if exact == 0 {
            negative(a.bits) && negative(b.bits)
        } else {
            exact < 0
        }
        &&& fraction_rounds_to(size(exact), 1, unsigned(value.bits))
    }
}

/// A common factor does not change how a fraction rounds.
proof fn lemma_common_factor(num: int, c: int, n: int)
    requires
        c > 0,
        fraction_rounds_to(num * c, c, n),
    ensures
        fraction_rounds_to(num, 1, n),
{
    if n > 0 {
        let m = middle(n - 1);
        assert((m * c < 2 * (num * c)) ==> m < 2 * num) by (nonlinear_arith)
            requires
                c > 0,
        ;
        assert((m * c == 2 * (num * c)) ==> m == 2 * num) by (nonlinear_arith)
            requires
                c > 0,
        ;
    }
    if n < SINGLE_INFINITY {
        let m = middle(n);
        assert((2 * (num * c) < m * c) ==> 2 * num < m) by (nonlinear_arith)
            requires
                c > 0,
        ;
        assert((2 * (num * c) == m * c) ==> 2 * num == m) by (nonlinear_arith)
            requires
                c > 0,
        ;
    }
}

/// A number that is far smaller than the other one is rounded away.
proof fn lemma_far_apart(n: int, x: int, k: nat, y: int, l: nat, exact: int)
    requires
        0x80_0000 <= x < 0x100_0000,
        30 < k - l,
        k <= 253,
        0 < y < 0x100_0000,
        n == k * 0x80_0000 + x,
        exact == x * pow2(k) + y * pow2(l) || exact == x * pow2(k) - y * pow2(l),
    ensures
        exact > 0,
        fraction_rounds_to(exact, 1, n),
{
    let unit = pow2((k - 1) as nat) as int;
    let small = pow2(l) as int;
    lemma_pow2_pos(l);
    lemma_pow2_unfold(k);
    lemma_pow2_adds(l, (k - 1 - l) as nat);
    vstd::arithmetic::power2::lemma2_to64();
    if k - 1 - l > 30 {
        lemma_pow2_strictly_increases(30, (k - 1 - l) as nat);
    }
    let gap = pow2((k - 1 - l) as nat) as int;
    assert(pow2(30) == 0x4000_0000);
    assert(4 * (y * small) < unit) by (nonlinear_arith)
        requires
            unit == small * gap,
            gap >= 0x4000_0000,
            0 < y < 0x100_0000,
            small > 0,
    ;
    assert(y * small > 0) by (nonlinear_arith)
        requires
            y > 0,
            small > 0,
    ;
    lemma_encoding(x, k as int);
    assert(x * (2 * unit) == 2 * (x * unit)) by (nonlinear_arith);
    assert((x + 1) * (2 * unit) == 2 * (x * unit) + 2 * unit) by (nonlinear_arith);
    assert(x * unit >= unit) by (nonlinear_arith)
        requires
            x >= 1,
            unit > 0,
    ;
    if x > 0x80_0000 {
        lemma_encoding(x - 1, k as int);
        assert((x - 1) * (2 * unit) == 2 * (x * unit) - 2 * unit) by (nonlinear_arith);
    } else {
        lemma_encoding(0xff_ffff, k - 1);
        assert(n - 1 == (k - 1) * 0x80_0000 + 0xff_ffff);
        assert(0xff_ffff * unit == 2 * (x * unit) - unit) by (nonlinear_arith)
            requires
                x == 0x80_0000,
        ;
    }
}

/// What two magnitudes at different scales come to at the smaller scale.
proof fn lemma_common_scale(x: int, d: nat, y: int, l: nat)
    ensures
        (x * pow2(d) + y) * pow2(l) == x * pow2(d + l) + y * pow2(l),
        (x * pow2(d) - y) * pow2(l) == x * pow2(d + l) - y * pow2(l),
        forall|p: int| #[trigger] (p * pow2(l + 149)) == (p * pow2(l)) * pow2(149),
{
    lemma_pow2_adds(d, l);
    lemma_pow2_adds(l, 149);
    let a = pow2(d) as int;
    let b = pow2(l) as int;
    let c = pow2(149) as int;
    assert((x * a + y) * b == x * (a * b) + y * b) by (nonlinear_arith);
    assert((x * a - y) * b == x * (a * b) - y * b) by (nonlinear_arith);
    assert forall|p: int| #[trigger] (p * pow2(l + 149)) == (p * pow2(l)) * pow2(149) by {
        assert(p * (b * c) == (p * b) * c) by (nonlinear_arith);
    }
}

/// The magnitude of the sum of two magnitudes, the first at least as large as
/// the second, or of their difference.
fn combine(high: u32, low: u32, subtract: bool) -> (n: u32)
    requires
        0 < low <= high < SINGLE_INFINITY,
        subtract ==> low < high,
    ensures
        n <= SINGLE_INFINITY,
        fraction_rounds_to(
            if subtract {
                magnitude(high) - magnitude(low)
            } else {
                magnitude(high) + magnitude(low)
            },
            1,
            n as int,
        ),
{
    let (x, k) = parts(high);
    let (y, l) = parts(low);
    proof {
        assert(k >= l) by {
            if k < l {
                assert(k * 0x80_0000 + x < l * 0x80_0000 + y);
            }
        }
    }
    let ghost exact = if subtract {
        magnitude(high) - magnitude(low)
    } else {
        magnitude(high) + magnitude(low)
    };
    if k - l > 30 {
        proof {
            lemma_far_apart(high as int, x as int, k as nat, y as int, l as nat, exact);
        }
        return high;
    }
    let d: u64 = (k - l) as u64;
    proof {
        vstd::arithmetic::power2::lemma2_to64();
        if d < 30 {
            lemma_pow2_strictly_increases(d as nat, 30);
        }
        lemma_pow2_pos(d as nat);
        let scale = pow2(d as nat) as int;
        assert(0 < x * scale <= 0x100_0000 * 0x4000_0000) by (nonlinear_arith)
            requires
                0 < x < 0x100_0000,
                0 < scale <= 0x4000_0000,
        ;
        vstd::bits::lemma_u64_shl_is_mul(x, d);
        lemma_common_scale(x as int, d as nat, y as int, l as nat);
        lemma_pow2_pos(l as nat);
    }
    let big: u64 = x << d;
    proof {
        assert(big == x * pow2(d as nat));
        if subtract {
            crate::float::lemma_magnitude_increases(low, high);
            let scale = pow2(l as nat) as int;
            assert(big > y) by (nonlinear_arith)
                requires
                    (big - y) * scale > 0,
                    scale > 0,
            ;
        }
    }
    let p: u64 = if subtract {
        big - y
    } else {
        big + y
    };
    proof {
        assert(exact == p * pow2(l as nat));
        assert(p * pow2((l + 149) as nat) == (p * pow2(l as nat)) * pow2(149));
    }
    let n: u32 = round_scaled(p, l + 149);
    proof {
        lemma_pow2_pos(149);
        lemma_common_factor(exact, pow2(149) as int, n as int);
    }
    n
}

/// An encoding is its own rounding.
proof fn lemma_exact(value: F32)
    requires
        value.finite(),
    ensures
        fraction_rounds_to(size(value.units()), 1, unsigned(value.bits)),
{
    lemma_unsigned(value);
    let n = unsigned(value.bits);
    crate::float::lemma_magnitude_not_negative(value.bits);
    lemma_exact_rounds(plain_magnitude(n), 1, n);
}

/// Sums that need no rounding: with a zero, or of numbers that cancel out.
proof fn lemma_sum_with_zero(a: F32, b: F32)
    requires
        a.finite(),
        b.finite(),
    ensures
        unsigned(b.bits) == 0 && unsigned(a.bits) > 0 ==> is_sum(a, b, a),
        unsigned(a.bits) == 0 && unsigned(b.bits) > 0 ==> is_sum(a, b, b),
        unsigned(a.bits) == 0 && unsigned(b.bits) == 0 ==> {
            &&& negative(b.bits) ==> is_sum(a, b, a)
            &&& !negative(b.bits) ==> is_sum(a, b, b)
        },
        unsigned(a.bits) == unsigned(b.bits) && negative(a.bits) != negative(b.bits) ==> is_sum(
            a,
            b,
            F32 { bits: 0 },
        ),
{
    lemma_unsigned(a);
    lemma_unsigned(b);
    lemma_exact(a);
    lemma_exact(b);
    let zero = F32 { bits: 0 };
    lemma_not_nan(0, 0);
    lemma_exact(zero);
    assert(plain_magnitude(0) == 0);
    assert(zero.units() == 0);
    if unsigned(a.bits) > 0 {
        crate::float::lemma_magnitude_increases(0, unsigned(a.bits) as u32);
    }
    if unsigned(b.bits) > 0 {
        crate::float::lemma_magnitude_increases(0, unsigned(b.bits) as u32);
    }
}

/// The rounded magnitude with the sign of the larger number is the sum.
proof fn lemma_combined(a: F32, b: F32, sign: u32, n: u32)
    requires
        a.finite(),
        b.finite(),
        unsigned(a.bits) > 0,
        unsigned(b.bits) > 0,
        unsigned(a.bits) == unsigned(b.bits) ==> negative(a.bits) == negative(b.bits),
        n <= SINGLE_INFINITY,
        sign == if (if unsigned(a.bits) >= unsigned(b.bits) {
            negative(a.bits)
        } else {
            negative(b.bits)
        }) {
            0x8000_0000u32
        } else {
            0
        },
        ({
            let x = plain_magnitude(unsigned(a.bits));
            let y = plain_magnitude(unsigned(b.bits));
            let high = if unsigned(a.bits) >= unsigned(b.bits) {
                x
            } else {
                y
            };
            let low = if unsigned(a.bits) >= unsigned(b.bits) {
                y
            } else {
                x
            };
            fraction_rounds_to(
                if negative(a.bits) != negative(b.bits) {
                    high - low
                } else {
                    high + low
                },
                1,
                n as int,
            )
        }),
    ensures
        is_sum(a, b, F32 { bits: (sign + n) as u32 }),
{
    lemma_unsigned(a);
    lemma_unsigned(b);
    let x = unsigned(a.bits);
    let y = unsigned(b.bits);
    crate::float::lemma_magnitude_increases(0, x as u32);
    crate::float::lemma_magnitude_increases(0, y as u32);
    assert(plain_magnitude(0) == 0);
    if x < y {
        crate::float::lemma_magnitude_increases(x as u32, y as u32);
    } else if y < x {
        crate::float::lemma_magnitude_increases(y as u32, x as u32);
    }
    lemma_not_nan(sign, n);
    assert(unsigned((sign + n) as u32) == n);
}

impl F32 {
    /// The sum, rounded to nearest with ties to even.
    pub fn plus(self, other: F32) -> (value: F32)
        ensures
            is_sum(self, other, value),
            value == sum(self, other),
    {
        let value = self.plus_any(other);
        proof {
            lemma_sum(self, other, value);
        }
        value
    }

    fn plus_any(self, other: F32) -> (value: F32)
        ensures
            is_sum(self, other, value),
            value.canonical(),
    {
        if self.is_nan() || other.is_nan() {
            return F32 { bits: 0x7fc0_0000 };
        }
        if !self.is_finite() {
            if !other.is_finite() && (self.bits >= 0x8000_0000) != (other.bits >= 0x8000_0000) {
                return F32 { bits: 0x7fc0_0000 };
            }
            return self;
        }
        if !other.is_finite() {
            return other;
        }
        self.plus_finite(other)
    }

    fn plus_finite(self, other: F32) -> (value: F32)
        requires
            self.finite(),
            other.finite(),
        ensures
            is_sum(self, other, value),
            !value.nan(),
    {
        proof {
            lemma_unsigned(self);
            lemma_unsigned(other);
            lemma_sum_with_zero(self, other);
        }
        let a_negative: bool = self.bits >= 0x8000_0000;
        let b_negative: bool = other.bits >= 0x8000_0000;
        let a: u32 = if a_negative {
            self.bits - 0x8000_0000
        } else {
            self.bits
        };
        let b: u32 = if b_negative {
            other.bits - 0x8000_0000
        } else {
            other.bits
        };
        if b == 0 {
            if a == 0 && !b_negative {
                return other;
            }
            return self;
        }
        if a == 0 {
            return other;
        }
        if a == b && a_negative != b_negative {
            return F32 { bits: 0 };
        }
        let (high, low, down) = if a >= b {
            (a, b, a_negative)
        } else {
            (b, a, b_negative)
        };
        let n: u32 = combine(high, low, a_negative != b_negative);
        let sign: u32 = if down {
            0x8000_0000
        } else {
            0
        };
        proof {
            lemma_not_nan(sign, n);
            lemma_combined(self, other, sign, n);
        }
        F32 { bits: sign + n }
    }

    /// The difference, rounded to nearest with ties to even.
    pub fn minus(self, other: F32) -> (value: F32)
        ensures
            value == difference(self, other),
    {
        self.plus(other.negated())
    }

    /// The number with the other sign.
    pub fn negated(self) -> (value: F32)
        ensures
            value == opposite(self),
    {
        if self.bits >= 0x8000_0000 {
            F32 { bits: self.bits - 0x8000_0000 }
        } else {
            F32 { bits: self.bits + 0x8000_0000 }
        }
    }
}

/// The sum of two numbers.
pub open spec fn sum(a: F32, b: F32) -> F32 {
    choose|value: F32| is_sum(a, b, value) && value.canonical()
}

/// The number with the other sign.
pub open spec fn opposite(a: F32) -> F32 {
    F32 {
        bits: if negative(a.bits) {
            (a.bits - 0x8000_0000) as u32
        } else {
            (a.bits + 0x8000_0000) as u32
        },
    }
}

/// The difference of two numbers.
pub open spec fn difference(a: F32, b: F32) -> F32 {
    sum(a, opposite(b))
}

proof fn lemma_sum(a: F32, b: F32, value: F32)
    requires
        is_sum(a, b, value),
        value.canonical(),
    ensures
        value == sum(a, b),
{
    let other = sum(a, b);
    if !value.nan() && a.finite() && b.finite() {
        law_fraction_rounds_to_one_number(
            size(a.units() + b.units()),
            1,
            unsigned(value.bits),
            unsigned(other.bits),
        );
    }
}

} // verus!
