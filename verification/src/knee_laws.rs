//! Where the knee of a tone curve lies.
use crate::accuracy::{
    lemma_difference_is_close, lemma_nearest_is_close, lemma_order_of_values,
    lemma_product_is_close, lemma_quotient_is_close, lemma_real_product, lemma_sum_is_close,
    lemma_whole_value, lemma_zero_and_one, size_of,
};
use crate::float::{lemma_whole, F32, ONE_BITS};
use crate::knee::{
    adaptation_at, has_room, knee_ceiling, knee_floor, knee_place, mix, smooth, source_knee,
    target_knee, THREE_BITS, TWO_BITS,
};
use crate::product::{lemma_unsigned, nearest_to, product};
use crate::quotient::quotient;
use crate::sum::{difference, sum};
use vstd::prelude::*;

verus! {

/// A code from zero to one.
#[verifier::opaque]
pub open spec fn is_code(a: F32) -> bool {
    a.finite() && 0 as real <= a.value() && a.value() <= 1 as real
}

/// Two codes that are at least a thousandth apart.
#[verifier::opaque]
pub open spec fn apart(low: F32, high: F32) -> bool {
    low.value() + 1 as real / 1000 as real <= high.value()
}

/// The value at a share of a range, in tenths.
pub open spec fn at_tenths(low: F32, high: F32, tenths: int) -> real {
    (tenths as real * high.value() + (10 - tenths) as real * low.value()) / 10 as real
}

/// The number is within a hundred-thousandth of the value at a share of a range.
#[verifier::opaque]
pub open spec fn lies_at(a: F32, low: F32, high: F32, tenths: int) -> bool {
    a.finite() && size_of(a.value() - at_tenths(low, high, tenths)) * 100_000 as real <= 1 as real
}

/// The number is in the part of a range that a knee may lie in, up to a
/// hundred-thousandth.
#[verifier::opaque]
pub open spec fn lies_within(a: F32, low: F32, high: F32) -> bool {
    &&& a.finite()
    &&& (at_tenths(low, high, 1) - a.value()) * 100_000 as real <= 1 as real
    &&& (a.value() - at_tenths(low, high, 8)) * 100_000 as real <= 1 as real
}

/// The number is in the part of a range that a knee may lie in, by more than a
/// hundred-thousandth.
#[verifier::opaque]
pub open spec fn lies_well_within(a: F32, low: F32, high: F32) -> bool {
    &&& a.finite()
    &&& (a.value() - at_tenths(low, high, 1)) * 100_000 as real >= 1 as real
    &&& (at_tenths(low, high, 8) - a.value()) * 100_000 as real >= 1 as real
}

/// A product of numbers up to one differs little from that of close numbers.
#[verifier::spinoff_prover]
proof fn lemma_close_factors(x: real, b: real, q: real, bound: real)
    requires
        0 as real <= b,
        b <= 1 as real,
        size_of(x - q) <= bound,
    ensures
        size_of(x * b - q * b) <= bound,
{
    let d = x - q;
    let p = d * b;
    assert(p <= bound && -p <= bound) by (nonlinear_arith)
        requires
            p == d * b,
            0 as real <= b,
            b <= 1 as real,
            -bound <= d,
            d <= bound,
    ;
    assert(x * b - q * b == p) by (nonlinear_arith)
        requires
            p == (x - q) * b,
    ;
}

/// Mixing two codes by tenths gives the value at that share, up to a millionth.
#[verifier::spinoff_prover]
proof fn lemma_mix(a: F32, b: F32, tenths: int)
    requires
        is_code(a),
        is_code(b),
        1 <= tenths <= 9,
    ensures
        ({
            let mixed = mix(a, b, nearest_to(tenths, 10));
            &&& mixed.finite()
            &&& size_of(mixed.value() - at_tenths(a, b, tenths)) * 1_000_000 as real <= 1 as real
        }),
{
    reveal(is_code);
    let q = tenths as real / 10 as real;
    let x = nearest_to(tenths, 10);
    lemma_nearest_is_close(tenths, 10, q);
    lemma_zero_and_one();
    let one = F32 { bits: ONE_BITS };
    let vx = x.value();
    let va = a.value();
    let vb = b.value();
    lemma_difference_is_close(one, x);
    let rest = difference(one, x);
    let vr = rest.value();
    let ulp = 1 as real / 0x80_0000 as real;
    assert(size_of(vx - q) <= ulp);
    assert(size_of(vr - (1 as real - q)) <= 2 as real * ulp);
    lemma_close_factors(vx, vb, q, ulp);
    lemma_close_factors(vr, va, 1 as real - q, 2 as real * ulp);
    assert(0 as real <= q * vb && q * vb <= 1 as real) by (nonlinear_arith)
        requires
            0 as real <= q,
            q <= 1 as real,
            0 as real <= vb,
            vb <= 1 as real,
    ;
    let s = 1 as real - q;
    assert(0 as real <= s * va && s * va <= 1 as real) by (nonlinear_arith)
        requires
            0 as real <= s,
            s <= 1 as real,
            0 as real <= va,
            va <= 1 as real,
    ;
    lemma_product_is_close(x, b);
    lemma_product_is_close(rest, a);
    let p = product(x, b);
    let r = product(rest, a);
    lemma_sum_is_close(p, r);
    let exact = q * vb + s * va;
    assert(exact <= 1 as real) by (nonlinear_arith)
        requires
            exact == q * vb + s * va,
            s == 1 as real - q,
            0 as real <= q,
            q <= 1 as real,
            va <= 1 as real,
            vb <= 1 as real,
    ;
    let t = tenths as real;
    assert(q * vb == t * vb / 10 as real) by (nonlinear_arith)
        requires
            q == t / 10 as real,
    ;
    let u = (10 - tenths) as real;
    assert(s * va == u * va / 10 as real) by (nonlinear_arith)
        requires
            s == u / 10 as real,
    ;
}

/// The values at a tenth, four tenths and eight tenths of a range.
#[verifier::spinoff_prover]
proof fn lemma_tenths(low: F32, high: F32)
    ensures
        at_tenths(low, high, 1) == (high.value() + 9 as real * low.value()) / 10 as real,
        at_tenths(low, high, 4) == (4 as real * high.value() + 6 as real * low.value())
            / 10 as real,
        at_tenths(low, high, 8) == (8 as real * high.value() + 2 as real * low.value())
            / 10 as real,
{
    assert((10 - 1) as real == 9 as real);
    assert((10 - 4) as real == 6 as real);
    assert((10 - 8) as real == 2 as real);
    let h = high.value();
    let one = 1int as real;
    assert(one * h == h) by (nonlinear_arith)
        requires
            one == 1 as real,
    ;
}

/// The bounds of the part that a knee may lie in, as values.
#[verifier::spinoff_prover]
proof fn lemma_bounds(low: F32, high: F32)
    requires
        is_code(low),
        is_code(high),
        apart(low, high),
    ensures
        ({
            let floor = knee_floor(low, high);
            let ceiling = knee_ceiling(low, high);
            let middle = mix(low, high, nearest_to(4, 10));
            let span = high.value() - low.value();
            let slack = 1 as real / 1_000_000 as real;
            &&& floor.finite() && ceiling.finite() && middle.finite()
            &&& size_of(floor.value() - at_tenths(low, high, 1)) <= slack
            &&& size_of(ceiling.value() - at_tenths(low, high, 8)) <= slack
            &&& size_of(middle.value() - at_tenths(low, high, 4)) <= slack
            &&& floor.value() < middle.value() && middle.value() < ceiling.value()
            &&& -slack <= floor.value() && ceiling.value() <= 1 as real + slack
        }),
{
    lemma_mix(low, high, 1);
    lemma_mix(low, high, 4);
    lemma_mix(low, high, 8);
    lemma_tenths(low, high);
    reveal(apart);
    reveal(is_code);
}

/// A range of codes that are at least a thousandth apart leaves room for a
/// knee.
#[verifier::spinoff_prover]
pub proof fn law_ordinary_ranges_have_room(low: F32, high: F32)
    requires
        is_code(low),
        is_code(high),
        apart(low, high),
    ensures
        has_room(low, high),
{
    lemma_bounds(low, high);
    lemma_order_of_values(knee_ceiling(low, high), knee_floor(low, high));
}

/// A number brought into a range lies in it.
#[verifier::spinoff_prover]
proof fn lemma_clamped(a: F32, low: F32, high: F32)
    requires
        !a.nan(),
        low.finite(),
        high.finite(),
        low.value() <= high.value(),
    ensures
        a.clamped(low, high).finite(),
        low.value() <= a.clamped(low, high).value(),
        a.clamped(low, high).value() <= high.value(),
{
    lemma_order_of_values(low, high);
    lemma_order_of_values(high, low);
    if a.finite() {
        lemma_order_of_values(a, low);
        lemma_order_of_values(high, a);
    } else {
        lemma_unsigned(a);
        lemma_unsigned(low);
        lemma_unsigned(high);
        assert(a.below(low) || high.below(a));
    }
}

/// The knee of the source for two codes at least a thousandth apart. It lies
/// between a tenth and eight tenths of the range; the average itself is the knee
/// where it lies there, and four tenths of the range where it is not known.
#[verifier::spinoff_prover]
pub proof fn law_source_knee_follows_the_average(low: F32, high: F32, average: F32)
    requires
        is_code(low),
        is_code(high),
        apart(low, high),
    ensures
        lies_within(source_knee(low, high, average), low, high),
        (F32 { bits: 0 }).below(average) && lies_well_within(average, low, high) ==> source_knee(
            low,
            high,
            average,
        ) == average,
        !(F32 { bits: 0 }).below(average) ==> lies_at(
            source_knee(low, high, average),
            low,
            high,
            4,
        ),
{
    lemma_bounds(low, high);
    let floor = knee_floor(low, high);
    let ceiling = knee_ceiling(low, high);
    let middle = mix(low, high, nearest_to(4, 10));
    let known = (F32 { bits: 0 }).below(average);
    let wanted = if known {
        average
    } else {
        middle
    };
    lemma_order_of_values(middle, floor);
    lemma_clamped(wanted, floor, ceiling);
    reveal(lies_within);
    reveal(lies_well_within);
    reveal(lies_at);
    lemma_order_of_values(middle, floor);
    lemma_order_of_values(ceiling, middle);
    if known && lies_well_within(average, low, high) {
        lemma_order_of_values(average, floor);
        lemma_order_of_values(ceiling, average);
    }
}

/// A brighter average never lowers the knee of the source.
#[verifier::spinoff_prover]
pub proof fn law_source_knee_rises_with_the_average(
    low: F32,
    high: F32,
    darker: F32,
    brighter: F32,
)
    requires
        has_room(low, high),
        (F32 { bits: 0 }).below(darker),
        !brighter.nan(),
        !brighter.below(darker),
    ensures
        !source_knee(low, high, brighter).below(source_knee(low, high, darker)),
{
    assert((F32 { bits: 0 }).below(brighter));
}

/// A finite number of limited size.
#[verifier::opaque]
spec fn sized(a: F32, bound: int) -> bool {
    a.finite() && size_of(a.value()) <= bound as real
}

#[verifier::spinoff_prover]
proof fn lemma_sized_product(a: F32, b: F32, m: int, n: int)
    requires
        sized(a, m),
        sized(b, n),
        0 <= m,
        0 <= n,
        m * n <= 0x7f_ffff,
    ensures
        sized(product(a, b), m * n + 1),
{
    reveal(sized);
    let x = a.value();
    let y = b.value();
    let p = x * y;
    let u = m as real;
    let v = n as real;
    assert(p <= u * v && -p <= u * v) by (nonlinear_arith)
        requires
            p == x * y,
            -u <= x,
            x <= u,
            -v <= y,
            y <= v,
    ;
    lemma_real_product(m, n);
    lemma_product_is_close(a, b);
}

#[verifier::spinoff_prover]
proof fn lemma_sized_sum(a: F32, b: F32, m: int, n: int)
    requires
        sized(a, m),
        sized(b, n),
        0 <= m,
        0 <= n,
        m + n <= 0x7f_ffff,
    ensures
        sized(sum(a, b), m + n + 1),
        sized(difference(a, b), m + n + 1),
{
    reveal(sized);
    lemma_sum_is_close(a, b);
    lemma_difference_is_close(a, b);
}

#[verifier::spinoff_prover]
proof fn lemma_sized_mix(a: F32, b: F32, x: F32, m: int, n: int, k: int)
    requires
        sized(a, m),
        sized(b, n),
        sized(x, k),
        0 <= m,
        0 <= n,
        0 <= k <= 0x7f_0000,
        k * n + (k + 2) * m + 2 <= 0x7f_ffff,
    ensures
        sized(mix(a, b, x), k * n + (k + 2) * m + 3),
{
    let one = F32 { bits: ONE_BITS };
    assert(sized(one, 1)) by {
        reveal(sized);
        lemma_zero_and_one();
    }
    assert(k * n >= 0 && (k + 2) * m >= 0) by (nonlinear_arith)
        requires
            m >= 0,
            n >= 0,
            k >= 0,
    ;
    lemma_sized_product(x, b, k, n);
    lemma_sized_sum(one, x, 1, k);
    lemma_sized_product(difference(one, x), a, k + 2, m);
    lemma_sized_sum(
        product(x, b),
        product(difference(one, x), a),
        k * n + 1,
        (k + 2) * m + 1,
    );
}

/// A step between two edges that are a quarter or more apart stays small.
#[verifier::spinoff_prover]
proof fn lemma_sized_smooth(edge0: F32, edge1: F32, x: F32)
    requires
        sized(x, 5000),
        sized(edge0, 1),
        sized(edge1, 1),
        difference(edge1, edge0).finite(),
        4 as real * size_of(difference(edge1, edge0).value()) >= 1 as real,
    ensures
        sized(smooth(edge0, edge1, x), 15),
{
    lemma_sized_sum(x, edge0, 5000, 1);
    let num = difference(x, edge0);
    let den = difference(edge1, edge0);
    let zero = F32 { bits: 0 };
    let one = F32 { bits: ONE_BITS };
    lemma_zero_and_one();
    let quo = quotient(num, den);
    let t = quo.clamped(zero, one);
    assert(quo.finite()) by {
        reveal(sized);
        let a = num.value();
        let b = den.value();
        let exact = a / b;
        assert(exact * b == a) by (nonlinear_arith)
            requires
                exact == a / b,
                b != 0 as real,
        ;
        assert(exact <= 20_008 as real && -exact <= 20_008 as real) by (nonlinear_arith)
            requires
                exact * b == a,
                -5_002 as real <= a,
                a <= 5_002 as real,
                4 as real * b >= 1 as real || 4 as real * b <= -1 as real,
        ;
        lemma_quotient_is_close(num, den, exact);
    }
    lemma_order_of_values(quo, quo);
    lemma_clamped(quo, zero, one);
    let two = F32 { bits: TWO_BITS };
    let three = F32 { bits: THREE_BITS };
    assert(sized(t, 1) && sized(two, 2) && sized(three, 3)) by {
        reveal(sized);
        lemma_two_and_three();
    }
    lemma_sized_product(t, t, 1, 1);
    lemma_sized_product(two, t, 2, 1);
    lemma_sized_sum(three, product(two, t), 3, 3);
    lemma_sized_product(product(t, t), difference(three, product(two, t)), 2, 7);
}

/// The values of two and three.
#[verifier::spinoff_prover]
proof fn lemma_two_and_three()
    ensures
        (F32 { bits: TWO_BITS }).finite(),
        (F32 { bits: TWO_BITS }).value() == 2 as real,
        (F32 { bits: THREE_BITS }).finite(),
        (F32 { bits: THREE_BITS }).value() == 3 as real,
{
    vstd::arithmetic::power2::lemma2_to64();
    lemma_whole(TWO_BITS, 1, 2);
    lemma_whole(THREE_BITS, 1, 3);
    lemma_whole_value(F32 { bits: TWO_BITS }, 2);
    lemma_whole_value(F32 { bits: THREE_BITS }, 3);
}

/// The tenths that knees are measured by are well apart.
#[verifier::spinoff_prover]
proof fn lemma_edges()
    ensures
        ({
            let low = nearest_to(1, 10);
            let middle = nearest_to(4, 10);
            let high = nearest_to(8, 10);
            &&& sized(low, 1) && sized(middle, 1) && sized(high, 1)
            &&& difference(middle, high).finite()
            &&& 4 as real * size_of(difference(middle, high).value()) >= 1 as real
            &&& difference(middle, low).finite()
            &&& 4 as real * size_of(difference(middle, low).value()) >= 1 as real
        }),
{
    reveal(sized);
    let low = nearest_to(1, 10);
    let middle = nearest_to(4, 10);
    let high = nearest_to(8, 10);
    lemma_nearest_is_close(1, 10, 1 as real / 10 as real);
    lemma_nearest_is_close(4, 10, 4 as real / 10 as real);
    lemma_nearest_is_close(8, 10, 8 as real / 10 as real);
    lemma_difference_is_close(middle, high);
    lemma_difference_is_close(middle, low);
}

/// The place of a knee in a range of codes is limited.
#[verifier::spinoff_prover]
proof fn lemma_sized_place(low: F32, high: F32, knee: F32)
    requires
        is_code(low),
        is_code(high),
        apart(low, high),
        sized(knee, 2),
    ensures
        sized(knee_place(low, high, knee), 5000),
{
    reveal(is_code);
    reveal(apart);
    reveal(sized);
    let range = difference(high, low);
    let least = nearest_to(1, 1_000_000);
    lemma_difference_is_close(high, low);
    lemma_difference_is_close(knee, low);
    lemma_nearest_is_close(1, 1_000_000, 1 as real / 1_000_000 as real);
    lemma_order_of_values(least, range);
    let num = difference(knee, low);
    let a = num.value();
    let b = range.value();
    assert(a <= 4 as real && -a <= 4 as real);
    assert(1_000 as real * b >= 9 as real / 10 as real);
    let exact = a / b;
    assert(exact * b == a && exact <= 4_500 as real && -exact <= 4_500 as real)
        by (nonlinear_arith)
        requires
            exact == a / b,
            a <= 4 as real,
            -a <= 4 as real,
            1_000 as real * b >= 9 as real / 10 as real,
    ;
    lemma_quotient_is_close(num, range, exact);
}

/// Both knees for two ranges of codes at least a thousandth apart lie between a
/// tenth and eight tenths of their ranges.
#[verifier::spinoff_prover]
pub proof fn law_knees_lie_in_ordinary_ranges(
    input_min: F32,
    input_max: F32,
    input_avg: F32,
    output_min: F32,
    output_max: F32,
    knee_adaptation: F32,
)
    requires
        is_code(input_min),
        is_code(input_max),
        apart(input_min, input_max),
        is_code(output_min),
        is_code(output_max),
        apart(output_min, output_max),
        !knee_adaptation.nan(),
    ensures
        ({
            let source = source_knee(input_min, input_max, input_avg);
            let target = target_knee(
                source,
                knee_place(input_min, input_max, source),
                output_min,
                output_max,
                knee_adaptation,
            );
            &&& lies_within(source, input_min, input_max)
            &&& lies_within(target, output_min, output_max)
        }),
{
    law_source_knee_follows_the_average(input_min, input_max, input_avg);
    let knee = source_knee(input_min, input_max, input_avg);
    let zero = F32 { bits: 0 };
    let one = F32 { bits: ONE_BITS };
    lemma_zero_and_one();
    assert(sized(knee, 2)) by {
        reveal(sized);
        reveal(is_code);
        reveal(lies_within);
        lemma_tenths(input_min, input_max);
    }
    lemma_sized_place(input_min, input_max, knee);
    let place = knee_place(input_min, input_max, knee);
    assert(sized(one, 1) && sized(output_min, 1) && sized(output_max, 1)) by {
        reveal(sized);
        reveal(is_code);
    }
    let adapted = mix(output_min, output_max, place);
    lemma_sized_mix(output_min, output_max, place, 1, 1, 5000);
    lemma_edges();
    let low = nearest_to(1, 10);
    let middle = nearest_to(4, 10);
    let high = nearest_to(8, 10);
    lemma_sized_smooth(high, middle, place);
    lemma_sized_smooth(low, middle, place);
    let step = product(smooth(high, middle, place), smooth(low, middle, place));
    lemma_sized_product(smooth(high, middle, place), smooth(low, middle, place), 15, 15);
    lemma_sized_sum(one, step, 1, 226);
    let wanted = knee_adaptation.clamped(zero, one);
    lemma_clamped(knee_adaptation, zero, one);
    assert(sized(wanted, 1)) by {
        reveal(sized);
    }
    lemma_sized_mix(wanted, one, difference(one, step), 1, 1, 228);
    let adaptation = adaptation_at(place, knee_adaptation);
    lemma_sized_mix(knee, adapted, adaptation, 2, 10_005, 461);
    let free = mix(knee, adapted, adaptation);
    lemma_bounds(output_min, output_max);
    assert(free.finite()) by {
        reveal(sized);
    }
    lemma_order_of_values(free, free);
    lemma_clamped(free, knee_floor(output_min, output_max), knee_ceiling(output_min, output_max));
    reveal(lies_within);
}

} // verus!
