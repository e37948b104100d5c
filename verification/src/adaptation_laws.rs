//! How the knee of a tone curve follows from the range of the source to that of
//! the target.
use crate::accuracy::{
    lemma_difference_is_close, lemma_nearest_is_close, lemma_order_of_values,
    lemma_product_is_close, lemma_quotient_is_close, lemma_size_of_product, lemma_sum_is_close,
    lemma_whole_value, lemma_zero_and_one, rounded, size_of,
};
use crate::float::{F32, ONE_BITS};
use crate::knee::{
    adaptation_at, knee_ceiling, knee_floor, knee_place, mix, smooth, target_knee, THREE_BITS,
    TWO_BITS,
};
use crate::product::{nearest_to, product};
use crate::quotient::quotient;
use crate::sum::difference;
use vstd::prelude::*;

verus! {

/// A number between minus two and two.
pub open spec fn small(x: F32) -> bool {
    x.finite() && size_of(x.value()) <= 2 as real
}

/// A share of a whole, up to rounding.
pub open spec fn a_share(x: F32) -> bool {
    x.finite() && -1 as real <= 1000 as real * x.value() && 1000 as real * x.value()
        <= 1001 as real
}

/// The value at a share of the way from one number to another.
#[verifier::opaque]
pub open spec fn between_at(a: real, b: real, x: real) -> real {
    a + x * (b - a)
}

#[verifier::spinoff_prover]
proof fn lemma_mix_bounds(x: real, a: real, b: real, r: real, p: real, q: real, m: real)
    requires
        size_of(a) <= 2 as real,
        size_of(b) <= 2 as real,
        -1 as real <= 1000 as real * x,
        1000 as real * x <= 1001 as real,
        rounded(r, 1 as real - x),
        rounded(p, x * b),
        rounded(q, r * a),
        rounded(m, p + q),
    ensures
        1_000_000 as real * size_of(m - between_at(a, b, x)) <= 1 as real,
{
    reveal(between_at);
    let e1 = x * b;
    let e2 = r * a;
    let e3 = (1 as real - x) * a;
    assert(a + x * (b - a) == e1 + e3) by (nonlinear_arith)
        requires
            e1 == x * b,
            e3 == (1 as real - x) * a,
    ;
    lemma_size_of_product(x, b);
    lemma_size_of_product(r, a);
    let d = r - (1 as real - x);
    lemma_size_of_product(d, a);
    assert(e2 - e3 == d * a) by (nonlinear_arith)
        requires
            e2 == r * a,
            e3 == (1 as real - x) * a,
            d == r - (1 as real - x),
    ;
    let sa = size_of(a);
    let sb = size_of(b);
    let sx = size_of(x);
    let sr = size_of(r);
    let sd = size_of(d);
    assert(sx * sb <= 3 as real && sr * sa <= 3 as real && sd * sa <= 2 as real * sd)
        by (nonlinear_arith)
        requires
            0 as real <= sa <= 2 as real,
            0 as real <= sb <= 2 as real,
            0 as real <= sx <= 3 as real / 2 as real,
            0 as real <= sr <= 3 as real / 2 as real,
            0 as real <= sd,
    ;
}

/// Mixing two numbers gives the value at the share of the way between them, up to
/// a millionth.
#[verifier::spinoff_prover]
pub proof fn law_mixing_goes_the_share_of_the_way(a: F32, b: F32, x: F32)
    requires
        small(a),
        small(b),
        a_share(x),
    ensures
        mix(a, b, x).finite(),
        1_000_000 as real * size_of(
            mix(a, b, x).value() - between_at(a.value(), b.value(), x.value()),
        ) <= 1 as real,
{
    lemma_zero_and_one();
    let one = F32 { bits: ONE_BITS };
    let va = a.value();
    let vb = b.value();
    let vx = x.value();
    lemma_difference_is_close(one, x);
    let rest = difference(one, x);
    let vr = rest.value();
    lemma_size_of_product(vx, vb);
    lemma_size_of_product(vr, va);
    let sa = size_of(va);
    let sb = size_of(vb);
    let sx = size_of(vx);
    let sr = size_of(vr);
    assert(sx * sb <= 3 as real && sr * sa <= 3 as real) by (nonlinear_arith)
        requires
            0 as real <= sa <= 2 as real,
            0 as real <= sb <= 2 as real,
            0 as real <= sx <= 3 as real / 2 as real,
            0 as real <= sr <= 3 as real / 2 as real,
    ;
    lemma_product_is_close(x, b);
    lemma_product_is_close(rest, a);
    lemma_sum_is_close(product(x, b), product(rest, a));
    lemma_mix_bounds(
        vx,
        va,
        vb,
        vr,
        product(x, b).value(),
        product(rest, a).value(),
        mix(a, b, x).value(),
    );
}

#[verifier::spinoff_prover]
proof fn lemma_step_bounds(t: real, p: real, q: real, r: real, s: real)
    requires
        0 as real <= t <= 1 as real,
        rounded(p, t * t),
        rounded(q, 2 as real * t),
        rounded(r, 3 as real - q),
        rounded(s, p * r),
    ensures
        -1 as real <= 1_000_000 as real * s,
        1_000_000 as real * s <= 1_000_001 as real,
{
    let e = t * t;
    assert(0 as real <= e <= 1 as real) by (nonlinear_arith)
        requires
            e == t * t,
            0 as real <= t <= 1 as real,
    ;
    let f = 3 as real - 2 as real * t;
    let exact = e * f;
    assert(0 as real <= exact <= 1 as real) by (nonlinear_arith)
        requires
            exact == e * f,
            e == t * t,
            f == 3 as real - 2 as real * t,
            0 as real <= t <= 1 as real,
    ;
    let dp = p - e;
    let dr = r - f;
    assert(10_000_000 as real * size_of(dp) <= 1 as real);
    assert(10_000_000 as real * size_of(dr) <= 4 as real);
    assert(p * r == exact + dp * r + e * dr) by (nonlinear_arith)
        requires
            exact == e * f,
            dp == p - e,
            dr == r - f,
    ;
    lemma_size_of_product(dp, r);
    lemma_size_of_product(e, dr);
    let sp = size_of(dp);
    let sr = size_of(dr);
    let w = size_of(r);
    assert(sp * w <= 4 as real * sp && e * sr <= sr) by (nonlinear_arith)
        requires
            0 as real <= w <= 4 as real,
            0 as real <= e <= 1 as real,
            sp >= 0 as real,
            sr >= 0 as real,
    ;
    assert(size_of(e) == e);
}

/// The values of two and three.
#[verifier::spinoff_prover]
proof fn lemma_two_three()
    ensures
        (F32 { bits: TWO_BITS }).finite(),
        (F32 { bits: TWO_BITS }).value() == 2 as real,
        (F32 { bits: THREE_BITS }).finite(),
        (F32 { bits: THREE_BITS }).value() == 3 as real,
{
    vstd::arithmetic::power2::lemma2_to64();
    crate::float::lemma_whole(TWO_BITS, 1, 2);
    crate::float::lemma_whole(THREE_BITS, 1, 3);
    lemma_whole_value(F32 { bits: TWO_BITS }, 2);
    lemma_whole_value(F32 { bits: THREE_BITS }, 3);
}

/// The cubic step stays between nothing and all.
#[verifier::spinoff_prover]
proof fn lemma_step_is_a_share(edge0: F32, edge1: F32, x: F32)
    requires
        !quotient(difference(x, edge0), difference(edge1, edge0)).nan(),
    ensures
        smooth(edge0, edge1, x).finite(),
        -1 as real <= 1_000_000 as real * smooth(edge0, edge1, x).value(),
        1_000_000 as real * smooth(edge0, edge1, x).value() <= 1_000_001 as real,
{
    let zero = F32 { bits: 0 };
    let one = F32 { bits: ONE_BITS };
    let two = F32 { bits: TWO_BITS };
    let three = F32 { bits: THREE_BITS };
    lemma_zero_and_one();
    lemma_two_three();
    let raw = quotient(difference(x, edge0), difference(edge1, edge0));
    let t = raw.clamped(zero, one);
    assert(t.finite() && 0 as real <= t.value() <= 1 as real) by {
        if raw.finite() {
            lemma_order_of_values(raw, zero);
            lemma_order_of_values(one, raw);
        }
    }
    let v = t.value();
    assert(0 as real <= v * v <= 1 as real) by (nonlinear_arith)
        requires
            0 as real <= v <= 1 as real,
    ;
    lemma_product_is_close(t, t);
    lemma_product_is_close(two, t);
    lemma_difference_is_close(three, product(two, t));
    let p = product(t, t);
    let r = difference(three, product(two, t));
    lemma_size_of_product(p.value(), r.value());
    let sp = size_of(p.value());
    let sr = size_of(r.value());
    assert(sp * sr <= 16 as real) by (nonlinear_arith)
        requires
            0 as real <= sp <= 4 as real,
            0 as real <= sr <= 4 as real,
    ;
    lemma_product_is_close(p, r);
    lemma_step_bounds(
        v,
        p.value(),
        product(two, t).value(),
        r.value(),
        product(p, r).value(),
    );
}

/// The edges of the steps, and what lies between them.
#[verifier::spinoff_prover]
proof fn lemma_edge_quotient(edge0: F32, edge1: F32, x: F32)
    requires
        edge0.finite() && edge1.finite(),
        small(edge0) && small(edge1),
        x.finite(),
        size_of(x.value()) <= 10_000 as real,
        10 as real * size_of(edge1.value() - edge0.value()) >= 1 as real,
    ensures
        !quotient(difference(x, edge0), difference(edge1, edge0)).nan(),
{
    lemma_difference_is_close(x, edge0);
    lemma_difference_is_close(edge1, edge0);
    let a = difference(x, edge0);
    let b = difference(edge1, edge0);
    let va = a.value();
    let vb = b.value();
    assert(20 as real * size_of(vb) >= 1 as real);
    let e = va / vb;
    assert(e * vb == va) by (nonlinear_arith)
        requires
            e == va / vb,
            vb != 0 as real,
    ;
    lemma_size_of_product(e, vb);
    let se = size_of(e);
    let sb = size_of(vb);
    assert(se <= 1_000_000 as real) by (nonlinear_arith)
        requires
            se * sb <= 20_000 as real,
            20 as real * sb >= 1 as real,
            se >= 0 as real,
    ;
    lemma_quotient_is_close(a, b, e);
    lemma_order_of_values(quotient(a, b), quotient(a, b));
}

/// How far the knee follows is never less than what is configured, and never more
/// than all the way, up to rounding.
#[verifier::spinoff_prover]
proof fn lemma_adaptation(place: F32, knee_adaptation: F32)
    requires
        place.finite(),
        size_of(place.value()) <= 10_000 as real,
        !knee_adaptation.nan(),
    ensures
        ({
            let zero = F32 { bits: 0 };
            let one = F32 { bits: ONE_BITS };
            let wanted = knee_adaptation.clamped(zero, one).value();
            let adaptation = adaptation_at(place, knee_adaptation);
            &&& knee_adaptation.clamped(zero, one).finite()
            &&& 0 as real <= wanted <= 1 as real
            &&& adaptation.finite()
            &&& 10_000 as real * (wanted - adaptation.value()) <= 1 as real
            &&& 10_000 as real * (adaptation.value() - 1 as real) <= 1 as real
        }),
{
    let zero = F32 { bits: 0 };
    let one = F32 { bits: ONE_BITS };
    let low = nearest_to(1, 10);
    let middle = nearest_to(4, 10);
    let high = nearest_to(8, 10);
    lemma_zero_and_one();
    lemma_nearest_is_close(1, 10, 1 as real / 10 as real);
    lemma_nearest_is_close(4, 10, 4 as real / 10 as real);
    lemma_nearest_is_close(8, 10, 8 as real / 10 as real);
    lemma_edge_quotient(high, middle, place);
    lemma_edge_quotient(low, middle, place);
    lemma_step_is_a_share(high, middle, place);
    lemma_step_is_a_share(low, middle, place);
    let s = smooth(high, middle, place);
    let t = smooth(low, middle, place);
    let vs = s.value();
    let vt = t.value();
    let e = vs * vt;
    assert(-1 as real <= 100_000 as real * e && 100_000 as real * e <= 100_001 as real)
        by (nonlinear_arith)
        requires
            e == vs * vt,
            -1 as real <= 1_000_000 as real * vs,
            1_000_000 as real * vs <= 1_000_001 as real,
            -1 as real <= 1_000_000 as real * vt,
            1_000_000 as real * vt <= 1_000_001 as real,
    ;
    lemma_product_is_close(s, t);
    lemma_difference_is_close(one, product(s, t));
    let tuning = difference(one, product(s, t));
    let wanted = knee_adaptation.clamped(zero, one);
    assert(wanted.finite() && 0 as real <= wanted.value() <= 1 as real) by {
        if knee_adaptation.finite() {
            lemma_order_of_values(knee_adaptation, zero);
            lemma_order_of_values(one, knee_adaptation);
        }
    }
    law_mixing_goes_the_share_of_the_way(wanted, one, tuning);
    let w = wanted.value();
    let u = tuning.value();
    lemma_way_up(w, u);
}

#[verifier::spinoff_prover]
proof fn lemma_way_up(w: real, u: real)
    requires
        0 as real <= w <= 1 as real,
        -2 as real <= 100_000 as real * u,
        100_000 as real * u <= 100_002 as real,
    ensures
        100_000 as real * (w - between_at(w, 1 as real, u)) <= 2 as real,
        100_000 as real * (between_at(w, 1 as real, u) - 1 as real) <= 2 as real,
{
    reveal(between_at);
    let r = 1 as real - w;
    let m = u * r;
    assert(-2 as real <= 100_000 as real * m && 100_000 as real * (m - r) <= 2 as real)
        by (nonlinear_arith)
        requires
            m == u * r,
            0 as real <= r <= 1 as real,
            -2 as real <= 100_000 as real * u,
            100_000 as real * u <= 100_002 as real,
    ;
}

/// A code of the perceptual quantizer.
pub open spec fn of_unit(x: F32) -> bool {
    x.finite() && 0 as real <= x.value() && x.value() <= 1 as real
}

/// A place in a range, up to rounding.
pub open spec fn a_place(x: F32) -> bool {
    x.finite() && -1 as real <= 10_000 as real * x.value() && 10_000 as real * x.value()
        <= 10_001 as real
}

/// The smaller of two values.
pub open spec fn smaller(a: real, b: real) -> real {
    if a < b {
        a
    } else {
        b
    }
}

/// The larger of two values.
pub open spec fn larger(a: real, b: real) -> real {
    if a < b {
        b
    } else {
        a
    }
}

/// On the way from one code to another, one stays between the two.
#[verifier::spinoff_prover]
proof fn lemma_on_the_way(a: real, b: real, x: real)
    requires
        -1 as real <= 2 as real * a && a <= 3 as real / 2 as real,
        -1 as real <= 2 as real * b && b <= 3 as real / 2 as real,
        -1 as real <= 10_000 as real * x,
        10_000 as real * x <= 10_001 as real,
    ensures
        5_000 as real * (smaller(a, b) - between_at(a, b, x)) <= 1 as real,
        5_000 as real * (between_at(a, b, x) - larger(a, b)) <= 1 as real,
{
    reveal(between_at);
    let d = b - a;
    let m = x * d;
    if d >= 0 as real {
        assert(-d <= 10_000 as real * m && 10_000 as real * (m - d) <= d) by (nonlinear_arith)
            requires
                m == x * d,
                d >= 0 as real,
                -1 as real <= 10_000 as real * x,
                10_000 as real * x <= 10_001 as real,
        ;
    } else {
        assert(10_000 as real * m <= -d && 10_000 as real * (d - m) <= -d) by (nonlinear_arith)
            requires
                m == x * d,
                d <= 0 as real,
                -1 as real <= 10_000 as real * x,
                10_000 as real * x <= 10_001 as real,
        ;
    }
}

/// All the way is the end of it.
#[verifier::spinoff_prover]
proof fn lemma_all_the_way(a: real, b: real, x: real)
    requires
        -1 as real <= 2 as real * a && a <= 3 as real / 2 as real,
        -1 as real <= 2 as real * b && b <= 3 as real / 2 as real,
        -1 as real <= 10_000 as real * (x - 1 as real),
        10_000 as real * (x - 1 as real) <= 1 as real,
    ensures
        5_000 as real * size_of(between_at(a, b, x) - b) <= 1 as real,
{
    reveal(between_at);
    let d = b - a;
    let y = x - 1 as real;
    assert(a + x * d - b == y * d) by (nonlinear_arith)
        requires
            d == b - a,
            y == x - 1 as real,
    ;
    lemma_size_of_product(y, d);
    let sy = size_of(y);
    let sd = size_of(d);
    assert(10_000 as real * (sy * sd) <= 2 as real) by (nonlinear_arith)
        requires
            10_000 as real * sy <= 1 as real,
            0 as real <= sd <= 2 as real,
            sy >= 0 as real,
    ;
}

/// The knee before it is held in its range.
#[verifier::spinoff_prover]
proof fn lemma_free_knee(
    knee: F32,
    place: F32,
    output_min: F32,
    output_max: F32,
    knee_adaptation: F32,
)
    requires
        of_unit(knee),
        a_place(place),
        of_unit(output_min),
        of_unit(output_max),
        !knee_adaptation.nan(),
    ensures
        ({
            let adapted = mix(output_min, output_max, place);
            let free = mix(knee, adapted, adaptation_at(place, knee_adaptation));
            let there = between_at(output_min.value(), output_max.value(), place.value());
            &&& free.finite()
            &&& 2_000 as real * (smaller(knee.value(), there) - free.value()) <= 1 as real
            &&& 2_000 as real * (free.value() - larger(knee.value(), there)) <= 1 as real
            &&& (F32 { bits: ONE_BITS }).value() <= knee_adaptation.clamped(
                F32 { bits: 0 },
                F32 { bits: ONE_BITS },
            ).value() ==> 2_000 as real * size_of(free.value() - there) <= 1 as real
        }),
{
    lemma_zero_and_one();
    let adapted = mix(output_min, output_max, place);
    law_mixing_goes_the_share_of_the_way(output_min, output_max, place);
    lemma_on_the_way(output_min.value(), output_max.value(), place.value());
    lemma_adaptation(place, knee_adaptation);
    let follow = adaptation_at(place, knee_adaptation);
    law_mixing_goes_the_share_of_the_way(knee, adapted, follow);
    lemma_on_the_way(knee.value(), adapted.value(), follow.value());
    if (F32 { bits: ONE_BITS }).value() <= knee_adaptation.clamped(
        F32 { bits: 0 },
        F32 { bits: ONE_BITS },
    ).value() {
        lemma_all_the_way(knee.value(), adapted.value(), follow.value());
    }
}

/// A number held in a range that its target lies in keeps close to the target.
#[verifier::spinoff_prover]
proof fn lemma_held(free: F32, low: F32, high: F32, a: real, b: real)
    requires
        free.finite() && low.finite() && high.finite(),
        low.value() <= high.value(),
        low.value() <= a && a <= high.value(),
        low.value() <= b && b <= high.value(),
        a <= b,
        2_000 as real * (a - free.value()) <= 1 as real,
        2_000 as real * (free.value() - b) <= 1 as real,
    ensures
        free.clamped(low, high).finite(),
        2_000 as real * (a - free.clamped(low, high).value()) <= 1 as real,
        2_000 as real * (free.clamped(low, high).value() - b) <= 1 as real,
{
    lemma_order_of_values(free, low);
    lemma_order_of_values(high, free);
}

/// The knee on the target's side lies between the knee on the source's side and
/// the place that the knee has in the source's range, looked up in the target's,
/// up to a two-thousandth, as far as both are places that a knee may have. With
/// full adaptation it is that place.
pub proof fn law_the_knee_moves_towards_its_place(
    knee: F32,
    place: F32,
    output_min: F32,
    output_max: F32,
    knee_adaptation: F32,
)
    requires
        of_unit(knee),
        a_place(place),
        of_unit(output_min),
        of_unit(output_max),
        !knee_adaptation.nan(),
        knee_floor(output_min, output_max).finite(),
        knee_ceiling(output_min, output_max).finite(),
        ({
            let low = knee_floor(output_min, output_max).value();
            let high = knee_ceiling(output_min, output_max).value();
            let there = between_at(output_min.value(), output_max.value(), place.value());
            &&& low <= knee.value() && knee.value() <= high
            &&& low <= there && there <= high
        }),
    ensures
        ({
            let target = target_knee(knee, place, output_min, output_max, knee_adaptation);
            let there = between_at(output_min.value(), output_max.value(), place.value());
            &&& target.finite()
            &&& 2_000 as real * (smaller(knee.value(), there) - target.value()) <= 1 as real
            &&& 2_000 as real * (target.value() - larger(knee.value(), there)) <= 1 as real
            &&& !knee_adaptation.below(F32 { bits: ONE_BITS }) ==> 2_000 as real * size_of(
                target.value() - there,
            ) <= 1 as real
        }),
{
    let zero = F32 { bits: 0 };
    let one = F32 { bits: ONE_BITS };
    lemma_zero_and_one();
    lemma_free_knee(knee, place, output_min, output_max, knee_adaptation);
    let there = between_at(output_min.value(), output_max.value(), place.value());
    let adapted = mix(output_min, output_max, place);
    let free = mix(knee, adapted, adaptation_at(place, knee_adaptation));
    let low = knee_floor(output_min, output_max);
    let high = knee_ceiling(output_min, output_max);
    lemma_held(
        free,
        low,
        high,
        smaller(knee.value(), there),
        larger(knee.value(), there),
    );
    if !knee_adaptation.below(one) {
        assert(knee_adaptation.clamped(zero, one).value() >= 1 as real) by {
            if knee_adaptation.finite() {
                lemma_order_of_values(knee_adaptation, one);
                lemma_order_of_values(one, knee_adaptation);
                lemma_order_of_values(knee_adaptation, zero);
            }
        }
        lemma_held(free, low, high, there, there);
    }
}

/// Where source and target have the same range, the knee stays where it is.
pub proof fn law_equal_ranges_keep_the_knee(
    low: F32,
    high: F32,
    knee: F32,
    knee_adaptation: F32,
)
    requires
        of_unit(low),
        of_unit(high),
        of_unit(knee),
        1000 as real * (high.value() - low.value()) >= 1 as real,
        low.value() <= knee.value() && knee.value() <= high.value(),
        !knee_adaptation.nan(),
        knee_floor(low, high).finite(),
        knee_ceiling(low, high).finite(),
        1000 as real * (knee.value() - knee_floor(low, high).value()) >= 1 as real,
        1000 as real * (knee_ceiling(low, high).value() - knee.value()) >= 1 as real,
    ensures
        1000 as real * size_of(
            target_knee(knee, knee_place(low, high, knee), low, high, knee_adaptation).value()
                - knee.value(),
        ) <= 1 as real,
{
    let place = knee_place(low, high, knee);
    lemma_place_in_range(low, high, knee);
    law_the_knee_moves_towards_its_place(knee, place, low, high, knee_adaptation);
}

#[verifier::spinoff_prover]
proof fn lemma_quotient_of_ranges(x: real, y: real, r: real, q: real, z: real, e: real)
    requires
        rounded(r, x),
        rounded(q, y),
        z * x == y,
        e * r == q,
        1000 as real * x >= 1 as real,
        x <= 1 as real,
        0 as real <= y && y <= x,
    ensures
        1_000_000 as real * size_of(e - z) <= 1 as real,
        0 as real <= z && z <= 1 as real,
{
    assert(0 as real <= z && z <= 1 as real) by (nonlinear_arith)
        requires
            z * x == y,
            0 as real <= y && y <= x,
            1000 as real * x >= 1 as real,
    ;
    let n = 0x100_0000 as real;
    let dr = x - r;
    let dq = q - y;
    assert(n * size_of(dr) <= 2 as real * x && n * size_of(dq) <= 2 as real * x);
    let off = e - z;
    assert(off * r == dq + z * dr) by (nonlinear_arith)
        requires
            off == e - z,
            e * r == q,
            z * x == y,
            dr == x - r,
            dq == q - y,
    ;
    lemma_size_of_product(off, r);
    lemma_size_of_product(z, dr);
    let so = size_of(off);
    let sr = size_of(r);
    let sd = size_of(dr);
    assert(z * sd <= sd) by (nonlinear_arith)
        requires
            0 as real <= z && z <= 1 as real,
            sd >= 0 as real,
    ;
    assert(n * (so * sr) <= 4 as real * x);
    assert(2 as real * sr >= x);
    assert(n * so <= 8 as real) by (nonlinear_arith)
        requires
            n * (so * sr) <= 4 as real * x,
            2 as real * sr >= x,
            x > 0 as real,
            so >= 0 as real,
            n > 0 as real,
    ;
}

#[verifier::spinoff_prover]
proof fn lemma_back_at_the_knee(x: real, y: real, z: real, v: real, a: real)
    requires
        z * x == y,
        200_000 as real * size_of(v - z) <= 1 as real,
        1000 as real * x >= 1 as real,
        x <= 1 as real,
    ensures
        200_000 as real * size_of(between_at(a, a + x, v) - (a + y)) <= 1 as real,
{
    reveal(between_at);
    let d = v - z;
    assert(v * x - y == d * x) by (nonlinear_arith)
        requires
            d == v - z,
            z * x == y,
    ;
    lemma_size_of_product(d, x);
    let sd = size_of(d);
    assert(sd * x <= sd) by (nonlinear_arith)
        requires
            0 as real <= x <= 1 as real,
            sd >= 0 as real,
    ;
}

/// The place of a knee in its own range leads back to the knee.
#[verifier::spinoff_prover]
proof fn lemma_place_in_range(low: F32, high: F32, knee: F32)
    requires
        of_unit(low),
        of_unit(high),
        of_unit(knee),
        1000 as real * (high.value() - low.value()) >= 1 as real,
        low.value() <= knee.value() && knee.value() <= high.value(),
    ensures
        a_place(knee_place(low, high, knee)),
        200_000 as real * size_of(
            between_at(low.value(), high.value(), knee_place(low, high, knee).value())
                - knee.value(),
        ) <= 1 as real,
{
    let least = nearest_to(1, 1_000_000);
    lemma_nearest_is_close(1, 1_000_000, 1 as real / 1_000_000 as real);
    lemma_difference_is_close(high, low);
    lemma_difference_is_close(knee, low);
    let range = difference(high, low);
    let part = difference(knee, low);
    lemma_order_of_values(least, range);
    let r = range.value();
    let q = part.value();
    let x = high.value() - low.value();
    let y = knee.value() - low.value();
    let z = y / x;
    assert(z * x == y) by (nonlinear_arith)
        requires
            z == y / x,
            x > 0 as real,
    ;
    let e = q / r;
    assert(e * r == q) by (nonlinear_arith)
        requires
            e == q / r,
            r > 0 as real,
    ;
    lemma_quotient_of_ranges(x, y, r, q, z, e);
    lemma_quotient_is_close(part, range, e);
    let v = quotient(part, range).value();
    lemma_back_at_the_knee(x, y, z, v, low.value());
}

} // verus!
