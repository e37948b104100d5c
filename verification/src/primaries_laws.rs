//! The matrices of the known primaries, in numbers.
use crate::accuracy::{
    lemma_difference_is_close, lemma_nearest_is_close, lemma_opposite_value,
    lemma_product_is_close, lemma_quotient_is_close, lemma_size_of_product, lemma_whole_value,
    lemma_zero_and_one, rounded, size_of,
};
use crate::anchors::two;
use crate::color::{coordinates_of, resolved_primaries, Chromaticity, ColorPrimaries};
use crate::float::{lemma_whole, F32, ONE_BITS};
use crate::inverse::{
    adjugate, cells_within, crossed, exact_det, invertible, law_products_are_rows_times_columns,
    law_the_inverse_undoes_a_matrix, lemma_common, lemma_itself, lemma_near_inverse,
    lemma_near_product, lemma_near_sum, lemma_nearer, lemma_regroup, minor_size, near,
    row_by_column, unit,
};
use crate::matrix::{
    applied, between, columns, cone_cells, crosstalk_cells, dot, inverted, multiplied,
    rgb_to_cones, rgb_to_xyz, scaled_columns, tristimulus,
};
use crate::product::{nearest_to, product};
use crate::quotient::quotient;
use crate::sum::{difference, opposite, sum};
use vstd::prelude::*;

verus! {

#[verifier::spinoff_prover]
proof fn lemma_point_bounds(
    x: real,
    y: real,
    v: real,
    u: real,
    n: real,
    m: real,
    p: real,
    q: real,
    exact_x: real,
    exact_z: real,
)
    requires
        0 as real <= x && x <= 3 as real / 4 as real,
        1 as real <= 25 as real * y && y <= 4 as real / 5 as real,
        x + y <= 1 as real,
        rounded(v, x),
        rounded(u, y),
        rounded(n, 1 as real - v),
        rounded(m, n - u),
        exact_x * u == v,
        exact_z * u == m,
        rounded(p, exact_x),
        rounded(q, exact_z),
    ensures
        5_000_000 as real * size_of(p * y - x) <= 1 as real,
        2_500_000 as real * size_of(q * y - (1 as real - x - y)) <= 1 as real,
{
    let big = 0x100_0000 as real;
    let du = u - y;
    let a = exact_x * y;
    let b = exact_z * y;
    assert(big * size_of(du) <= y + y / 100 as real);
    assert(big * size_of(v - x) <= 4 as real / 5 as real);
    let m0 = 1 as real - x - y;
    assert(big * size_of(m - m0) <= 7 as real / 2 as real);
    lemma_ratio(exact_x, u, v, y, x, du);
    lemma_ratio(exact_z, u, m, y, m0, du);
    lemma_rounded_times(p, exact_x, y);
    lemma_rounded_times(q, exact_z, y);
}

/// A ratio times a close denominator is close to the numerator.
#[verifier::spinoff_prover]
proof fn lemma_ratio(e: real, u: real, v: real, y: real, x: real, du: real)
    requires
        e * u == v,
        du == u - y,
        0x100_0000 as real * size_of(du) <= y + y / 100 as real,
        1 as real <= 25 as real * y,
        size_of(v) <= 101 as real / 100 as real,
    ensures
        0x100_0000 as real * size_of(e * y - v) <= 103 as real / 100 as real * size_of(v),
        size_of(e * y) <= 103 as real / 100 as real,
{
    let big = 0x100_0000 as real;
    let a = e * y;
    let d = e * du;
    assert(a == v - d) by (nonlinear_arith)
        requires
            e * u == v,
            du == u - y,
            a == e * y,
            d == e * du,
    ;
    lemma_size_of_product(e, du);
    lemma_size_of_product(e, y);
    let se = size_of(e);
    let sd = size_of(du);
    assert(big * (se * sd) <= se * y + se * y / 100 as real) by (nonlinear_arith)
        requires
            big * sd <= y + y / 100 as real,
            se >= 0 as real,
    ;
    assert(size_of(y) == y);
}

#[verifier::spinoff_prover]
proof fn lemma_rounded_times(p: real, e: real, y: real)
    requires
        rounded(p, e),
        1 as real <= 25 as real * y,
        y <= 1 as real,
    ensures
        0x100_0000 as real * size_of(p * y - e * y) <= size_of(e * y) + 1 as real / 1000 as real,
{
    let d = p - e;
    lemma_size_of_product(d, y);
    lemma_size_of_product(e, y);
    assert(p * y - e * y == d * y) by (nonlinear_arith)
        requires
            d == p - e,
    ;
    let sd = size_of(d);
    let se = size_of(e);
    let t = crate::accuracy::tiny();
    assert(0x100_0000 as real * (sd * y) <= se * y + t) by (nonlinear_arith)
        requires
            0x100_0000 as real * sd <= se + t,
            0 as real <= y,
            y <= 1 as real,
            t >= 0 as real,
    ;
    assert(size_of(y) == y);
}

/// The colour of unit luminance at a point has nearly the point's ratios.
#[verifier::spinoff_prover]
proof fn lemma_point(xn: int, yn: int)
    requires
        0 <= xn <= 7500,
        400 <= yn <= 8000,
        xn + yn <= 10000,
    ensures
        ({
            let c = tristimulus(Chromaticity::at(xn, yn));
            let x = xn as real / 10000 as real;
            let y = yn as real / 10000 as real;
            &&& c[0].finite() && c[1].finite() && c[2].finite()
            &&& c[1].value() == 1 as real
            &&& 5_000_000 as real * size_of(c[0].value() * y - x) <= 1 as real
            &&& 2_500_000 as real * size_of(c[2].value() * y - (1 as real - x - y)) <= 1 as real
        }),
{
    let one = F32 { bits: ONE_BITS };
    lemma_zero_and_one();
    let x = xn as real / 10000 as real;
    let y = yn as real / 10000 as real;
    let fx = nearest_to(xn, 10000);
    let fy = nearest_to(yn, 10000);
    lemma_nearest_is_close(xn, 10000, x);
    lemma_nearest_is_close(yn, 10000, y);
    lemma_difference_is_close(one, fx);
    let n = difference(one, fx);
    lemma_difference_is_close(n, fy);
    let m = difference(n, fy);
    let v = fx.value();
    let u = fy.value();
    let ex = v / u;
    let ez = m.value() / u;
    assert(ex * u == v && ez * u == m.value()) by (nonlinear_arith)
        requires
            ex == v / u,
            ez == m.value() / u,
            u > 0 as real,
    ;
    lemma_size_of_product(ex, u);
    lemma_size_of_product(ez, u);
    let sx = size_of(ex);
    let sz = size_of(ez);
    assert(sx <= 100 as real && sz <= 100 as real) by (nonlinear_arith)
        requires
            sx * u <= 2 as real,
            sz * u <= 2 as real,
            50 as real * u >= 1 as real,
    ;
    lemma_quotient_is_close(fx, fy, ex);
    lemma_quotient_is_close(m, fy, ez);
    lemma_point_bounds(
        x,
        y,
        v,
        u,
        n.value(),
        m.value(),
        quotient(fx, fy).value(),
        quotient(m, fy).value(),
        ex,
        ez,
    );
}

/// A number, in hundred-millionths, and how far off it may be.
pub struct Figure(pub int, pub int);

/// A number is where its figure says.
#[verifier::opaque]
pub open spec fn at(x: real, l: Figure) -> bool {
    size_of(x * 1_0000_0000int as real - l.0 as real) <= l.1 as real
}

pub open spec fn distance(a: int, b: int) -> int {
    if a <= b {
        b - a
    } else {
        a - b
    }
}

/// How far off a product may be, in units of a product.
pub open spec fn slack(x: Figure, y: Figure) -> int {
    distance(x.0, 0) * y.1 + distance(y.0, 0) * x.1 + x.1 * y.1
}

pub open spec fn proper(x: Figure) -> bool {
    0 <= x.1
}

#[verifier::spinoff_prover]
proof fn lemma_slack(x: real, y: real, u: Figure, v: Figure)
    requires
        at(x, u),
        at(y, v),
    ensures
        size_of(
            two(x, y) * 1_0000_0000int as real * 1_0000_0000int as real - (u.0 * v.0) as real,
        ) <= slack(u, v) as real,
{
    reveal(two);
    reveal(at);
    let big = 1_0000_0000int as real;
    let a = x * big;
    let b = y * big;
    let p = u.0 as real;
    let q = v.0 as real;
    let e = u.1 as real;
    let f = v.1 as real;
    assert(two(x, y) * big * big == a * b) by (nonlinear_arith)
        requires
            a == x * big,
            b == y * big,
            two(x, y) == x * y,
    ;
    assert((u.0 * v.0) as real == p * q) by (nonlinear_arith)
        requires
            p == u.0 as real,
            q == v.0 as real,
    ;
    let dp = distance(u.0, 0);
    let dq = distance(v.0, 0);
    assert((dp * v.1 + dq * u.1 + u.1 * v.1) as real == dp as real * f + dq as real * e + e * f)
        by (nonlinear_arith)
        requires
            e == u.1 as real,
            f == v.1 as real,
    ;
    let da = a - p;
    let db = b - q;
    assert(a * b - p * q == p * db + q * da + da * db) by (nonlinear_arith)
        requires
            da == a - p,
            db == b - q,
    ;
    lemma_size_of_product(p, db);
    lemma_size_of_product(q, da);
    lemma_size_of_product(da, db);
    assert(size_of(p) == dp as real && size_of(q) == dq as real);
    lemma_times(size_of(p), size_of(db), size_of(p), f);
    lemma_times(size_of(q), size_of(da), size_of(q), e);
    lemma_times(size_of(da), size_of(db), e, f);
}

proof fn lemma_times(x: real, y: real, a: real, b: real)
    requires
        0 as real <= x <= a,
        0 as real <= y <= b,
    ensures
        x * y <= a * b,
{
    assert(x * y <= a * b) by (nonlinear_arith)
        requires
            0 as real <= x <= a,
            0 as real <= y <= b,
    ;
}

/// The figures of two products' difference.
pub open spec fn minor_fits(
    x: Figure,
    y: Figure,
    z: Figure,
    w: Figure,
    l: Figure,
) -> bool {
    distance(x.0 * y.0 - z.0 * w.0, l.0 * 1_0000_0000) + slack(x, y) + slack(z, w) <= l.1
        * 1_0000_0000
}

#[verifier::spinoff_prover]
proof fn lemma_at_minor(
    x: real,
    y: real,
    z: real,
    w: real,
    a: Figure,
    b: Figure,
    c: Figure,
    d: Figure,
    l: Figure,
)
    requires
        at(x, a),
        at(y, b),
        at(z, c),
        at(w, d),
        minor_fits(a, b, c, d, l),
    ensures
        at(two(x, y) - two(z, w), l),
{
    lemma_slack(x, y, a, b);
    lemma_slack(z, w, c, d);
    reveal(at);
}

/// The figures of three products' sum, the middle one with a sign.
pub open spec fn three_fit(
    x: Figure,
    y: Figure,
    z: Figure,
    a: Figure,
    b: Figure,
    c: Figure,
    sign: int,
    l: Figure,
) -> bool {
    distance(x.0 * a.0 + sign * (y.0 * b.0) + z.0 * c.0, l.0 * 1_0000_0000) + slack(x, a) + slack(
        y,
        b,
    ) + slack(z, c) <= l.1 * 1_0000_0000
}

#[verifier::spinoff_prover]
proof fn lemma_at_three(
    x: (real, real, real),
    y: (real, real, real),
    a: Figure,
    b: Figure,
    c: Figure,
    d: Figure,
    e: Figure,
    f: Figure,
    l: Figure,
)
    requires
        at(x.0, a),
        at(x.1, b),
        at(x.2, c),
        at(y.0, d),
        at(y.1, e),
        at(y.2, f),
    ensures
        three_fit(a, b, c, d, e, f, 1, l) ==> at(
            two(x.0, y.0) + two(x.1, y.1) + two(x.2, y.2),
            l,
        ),
        three_fit(a, b, c, d, e, f, -1, l) ==> at(
            two(x.0, y.0) - two(x.1, y.1) + two(x.2, y.2),
            l,
        ),
{
    lemma_slack(x.0, y.0, a, d);
    lemma_slack(x.1, y.1, b, e);
    lemma_slack(x.2, y.2, c, f);
    reveal(at);
}

/// The figures of a quotient.
pub open spec fn quotient_fits(n: Figure, d: Figure, l: Figure) -> bool {
    &&& 0 < d.0 - d.1
    &&& distance(n.0 * 1_0000_0000, l.0 * d.0) + n.1 * 1_0000_0000 + distance(l.0, 0) * d.1
        <= l.1 * (d.0 - d.1)
}

#[verifier::spinoff_prover]
proof fn lemma_at_quotient(i: real, n: real, d: real, a: Figure, b: Figure, l: Figure)
    requires
        at(n, a),
        at(d, b),
        proper(b),
        two(i, d) == 1 as real,
        quotient_fits(a, b, l),
    ensures
        at(two(i, n), l),
{
    reveal(two);
    reveal(at);
    let big = 1_0000_0000int as real;
    let q = i * n;
    assert(q * d == n) by (nonlinear_arith)
        requires
            i * d == 1 as real,
            q == i * n,
    ;
    let dd = d * big;
    let nn = n * big;
    let b0 = b.0 as real;
    let a0 = a.0 as real;
    let l0 = l.0 as real;
    let off = q * big - l0;
    let ed = dd - b0;
    let en = nn - a0;
    assert(off * dd == (a0 * big - l0 * b0) + en * big - l0 * ed) by (nonlinear_arith)
        requires
            q * d == n,
            dd == d * big,
            nn == n * big,
            off == q * big - l0,
            ed == dd - b0,
            en == nn - a0,
    ;
    lemma_size_of_product(l0, ed);
    lemma_size_of_product(off, dd);
    let b1 = b.1 as real;
    lemma_times(size_of(l0), size_of(ed), size_of(l0), b1);
    let lhs = distance(a.0 * 1_0000_0000, l.0 * b.0) + a.1 * 1_0000_0000 + distance(l.0, 0) * b.1;
    assert((l.0 * b.0) as real == l0 * b0 && (distance(l.0, 0) * b.1) as real == size_of(l0) * b1
        && (l.1 * (b.0 - b.1)) as real == l.1 as real * (b0 - b1)) by (nonlinear_arith)
        requires
            l0 == l.0 as real,
            b0 == b.0 as real,
            b1 == b.1 as real,
            size_of(l0) == distance(l.0, 0) as real,
    ;
    let so = size_of(off);
    let l1 = l.1 as real;
    assert(size_of(dd) == dd && dd >= b0 - b1);
    assert(so * dd <= l1 * (b0 - b1));
    assert(so <= l1) by (nonlinear_arith)
        requires
            so * dd <= l1 * (b0 - b1),
            dd >= b0 - b1,
            b0 - b1 > 0 as real,
            so >= 0 as real,
    ;
}

/// The figures of a point's ratios.
pub open spec fn point_fits(xn: int, yn: int, x: Figure, z: Figure) -> bool {
    &&& 0 <= xn <= 7500
    &&& 400 <= yn <= 8000
    &&& xn + yn <= 10000
    &&& 200_000 + distance(xn * 1_0000_0000, x.0 * yn) <= x.1 * yn
    &&& 400_000 + distance((10000 - xn - yn) * 1_0000_0000, z.0 * yn) <= z.1 * yn
}

#[verifier::spinoff_prover]
proof fn lemma_at_point(xn: int, yn: int, x: Figure, z: Figure)
    requires
        point_fits(xn, yn, x, z),
    ensures
        ({
            let c = tristimulus(Chromaticity::at(xn, yn));
            &&& c[0].finite() && c[1].finite() && c[2].finite()
            &&& at(c[0].value(), x)
            &&& at(c[1].value(), Figure(1_0000_0000, 0))
            &&& at(c[2].value(), z)
        }),
{
    lemma_point(xn, yn);
    let c = tristimulus(Chromaticity::at(xn, yn));
    let y = yn as real / 10000 as real;
    lemma_at_ratio(c[0].value(), y, yn, xn, 200_000, x);
    lemma_at_ratio(c[2].value(), y, yn, 10000 - xn - yn, 400_000, z);
    reveal(at);
}

#[verifier::spinoff_prover]
proof fn lemma_at_ratio(v: real, y: real, yn: int, num: int, most: int, l: Figure)
    requires
        y == yn as real / 10000 as real,
        yn > 0,
        size_of(v * y - num as real / 10000 as real) * 1_0000_0000_0000int as real <= most as real,
        most + distance(num * 1_0000_0000, l.0 * yn) <= l.1 * yn,
    ensures
        at(v, l),
{
    reveal(at);
    let big = 1_0000_0000int as real;
    let w = v * big;
    let n = yn as real;
    let off = w - l.0 as real;
    let l0 = l.0 as real;
    let l1 = l.1 as real;
    assert(w * n == v * y * (1_0000_0000_0000int as real)) by (nonlinear_arith)
        requires
            w == v * big,
            big == 1_0000_0000int as real,
            y == n / 10000 as real,
    ;
    assert((l.0 * yn) as real == l0 * n && (l.1 * yn) as real == l1 * n) by (nonlinear_arith)
        requires
            l0 == l.0 as real,
            l1 == l.1 as real,
            n == yn as real,
    ;
    assert(off * n == w * n - l0 * n) by (nonlinear_arith)
        requires
            off == w - l0,
    ;
    lemma_size_of_product(off, n);
    let so = size_of(off);
    assert(so * n <= l1 * n);
    assert(so <= l1) by (nonlinear_arith)
        requires
            so * n <= l1 * n,
            n > 0 as real,
    ;
}

/// One weight of the primaries, close to what it is without rounding.
#[verifier::spinoff_prover]
proof fn lemma_weight(m: Seq<F32>, i: real, w: Seq<F32>, j: int, size: real)
    requires
        invertible(m, 5 as real / 2 as real, 1 as real, 18 as real, 3, i),
        size_of(i) * 18 as real <= 1 as real,
        w.len() == 3,
        w[0].finite() && size_of(w[0].value()) <= 5 as real / 4 as real,
        w[1].finite() && size_of(w[1].value()) <= 5 as real / 4 as real,
        w[2].finite() && size_of(w[2].value()) <= 5 as real / 4 as real,
        0 <= j < 3,
        size == minor_size(5 as real / 2 as real, 1 as real, 18 as real, j),
    ensures
        ({
            let exact = two(adjugate(m, 3 * j), w[0].value()) + two(
                adjugate(m, 3 * j + 1),
                w[1].value(),
            ) + two(adjugate(m, 3 * j + 2), w[2].value());
            let x = applied(inverted(m), w)[j];
            &&& x.finite()
            &&& 0x100_0000 as real * size_of(x.value() - two(i, exact)) <= 42 as real * size
        }),
{
    let p = 5 as real / 2 as real;
    let g = 5 as real / 4 as real;
    let most = two(size, size_of(i));
    let part = two(most, g);
    lemma_weight_sizes(size, size_of(i), j);
    let inv = inverted(m);
    assert((3 * j) / 3 == j && (3 * j + 1) / 3 == j && (3 * j + 2) / 3 == j);
    lemma_near_inverse(m, p, 1 as real, 18 as real, 3, i, 3 * j);
    lemma_near_inverse(m, p, 1 as real, 18 as real, 3, i, 3 * j + 1);
    lemma_near_inverse(m, p, 1 as real, 18 as real, 3, i, 3 * j + 2);
    lemma_itself(w[0], g);
    lemma_itself(w[1], g);
    lemma_itself(w[2], g);
    let a0 = adjugate(m, 3 * j);
    let a1 = adjugate(m, 3 * j + 1);
    let a2 = adjugate(m, 3 * j + 2);
    let e0 = two(two(a0, i), w[0].value());
    let e1 = two(two(a1, i), w[1].value());
    let e2 = two(two(a2, i), w[2].value());
    lemma_near_product(inv[3 * j], w[0], two(a0, i), w[0].value(), most, g, 191, 0);
    lemma_near_product(inv[3 * j + 1], w[1], two(a1, i), w[1].value(), most, g, 191, 0);
    lemma_near_product(inv[3 * j + 2], w[2], two(a2, i), w[2].value(), most, g, 191, 0);
    let p0 = product(inv[3 * j], w[0]);
    let p1 = product(inv[3 * j + 1], w[1]);
    let p2 = product(inv[3 * j + 2], w[2]);
    lemma_near_sum(p0, p1, e0, e1, part, part, 193);
    lemma_nearer(p2, e2, part, 193, part, 195);
    lemma_near_sum(sum(p0, p1), p2, e0 + e1, e2, part + part, part, 195);
    lemma_weight_exact(a0, a1, a2, i, w[0].value(), w[1].value(), w[2].value());
    lemma_near_off(
        sum(sum(p0, p1), p2),
        e0 + e1 + e2,
        part + part + part,
        42 as real * size,
    );
}

#[verifier::spinoff_prover]
proof fn lemma_near_off(x: F32, exact: real, size: real, most: real)
    requires
        near(x, exact, size, 197),
        197 as real * size <= most,
    ensures
        x.finite(),
        0x100_0000 as real * size_of(x.value() - exact) <= most,
{
    reveal(near);
}

#[verifier::spinoff_prover]
proof fn lemma_weight_sizes(size: real, i: real, j: int)
    requires
        0 <= j < 3,
        size == minor_size(5 as real / 2 as real, 1 as real, 18 as real, j),
        i * 18 as real <= 1 as real,
        i * 1024 as real >= 1 as real,
    ensures
        ({
            let most = two(size, i);
            let part = two(most, 5 as real / 4 as real);
            &&& most > 0 as real
            &&& crate::inverse::moderate(part)
            &&& crate::inverse::moderate(part + part)
            &&& crate::inverse::moderate(part + part + part)
            &&& 197 as real * (part + part + part) <= 42 as real * size
        }),
{
    let most = two(size, i);
    let part = two(most, 5 as real / 4 as real);
    lemma_minor_sizes(size, j);
    lemma_weight_part(size, i, most, part);
}

proof fn lemma_minor_sizes(size: real, j: int)
    requires
        0 <= j < 3,
        size == minor_size(5 as real / 2 as real, 1 as real, 18 as real, j),
    ensures
        j == 0 ==> size == 36 as real,
        j == 1 ==> size == 90 as real,
        j == 2 ==> size == 5 as real,
{
    reveal(two);
}

#[verifier::spinoff_prover]
proof fn lemma_weight_part(size: real, i: real, most: real, part: real)
    requires
        5 as real <= size <= 90 as real,
        i * 18 as real <= 1 as real,
        i * 1024 as real >= 1 as real,
        most == two(size, i),
        part == two(most, 5 as real / 4 as real),
    ensures
        most * 1024 as real >= size,
        most * 18 as real <= size,
        part == most + most / 4 as real,
{
    lemma_product_is(size, i);
    lemma_product_is(most, 5 as real / 4 as real);
    assert(most * 1024 as real >= size && most * 18 as real <= size) by (nonlinear_arith)
        requires
            most == size * i,
            i * 18 as real <= 1 as real,
            i * 1024 as real >= 1 as real,
            size > 0 as real,
    ;
    assert(part == most + most / 4 as real) by (nonlinear_arith)
        requires
            part == most * (5 as real / 4 as real),
    ;
}

proof fn lemma_product_is(x: real, y: real)
    ensures
        two(x, y) == x * y,
{
    reveal(two);
}

#[verifier::spinoff_prover]
proof fn lemma_weight_exact(
    a0: real,
    a1: real,
    a2: real,
    i: real,
    v0: real,
    v1: real,
    v2: real,
)
    ensures
        two(two(a0, i), v0) + two(two(a1, i), v1) + two(two(a2, i), v2) == two(
            i,
            two(a0, v0) + two(a1, v1) + two(a2, v2),
        ),
{
    lemma_regroup(a0, i, v0);
    lemma_regroup(a1, i, v1);
    lemma_regroup(a2, i, v2);
    lemma_common(i, two(a0, v0), two(a1, v1));
    lemma_common(i, two(a0, v0) + two(a1, v1), two(a2, v2));
}

/// A figure that is more off.
#[verifier::spinoff_prover]
proof fn lemma_at_wider(x: real, exact: real, l: Figure, off: real, most: Figure)
    requires
        at(exact, l),
        size_of(x - exact) * 1_0000_0000int as real <= off,
        l.0 == most.0,
        l.1 as real + off <= most.1 as real,
    ensures
        at(x, most),
{
    reveal(at);
}

/// The figures of a rounded product.
pub open spec fn rounded_fits(x: Figure, y: Figure, l: Figure) -> bool {
    &&& distance(l.0, 0) + l.1 <= 2_0000_0000
    &&& distance(x.0 * y.0, l.0 * 1_0000_0000) + slack(x, y) + 20 * 1_0000_0000 <= l.1
        * 1_0000_0000
}

#[verifier::spinoff_prover]
proof fn lemma_at_rounded(x: F32, y: F32, a: Figure, b: Figure, l: Figure)
    requires
        x.finite() && y.finite(),
        at(x.value(), a),
        at(y.value(), b),
        rounded_fits(a, b, l),
    ensures
        product(x, y).finite(),
        at(product(x, y).value(), l),
{
    let v = two(x.value(), y.value());
    assert(size_of(v * 1_0000_0000int as real - l.0 as real) <= (l.1 - 20) as real) by {
        lemma_slack(x.value(), y.value(), a, b);
    }
    lemma_product_of(x, y);
    reveal(at);
}

#[verifier::spinoff_prover]
proof fn lemma_product_of(x: F32, y: F32)
    requires
        x.finite() && y.finite(),
        size_of(two(x.value(), y.value())) <= 16 as real,
    ensures
        product(x, y).finite(),
        rounded(product(x, y).value(), two(x.value(), y.value())),
{
    assert(x.value() * y.value() == two(x.value(), y.value())) by {
        reveal(two);
    }
    lemma_product_is_close(x, y);
}

/// The figures of a set of primaries: the ratios of the points, the cofactors
/// and the determinant of their matrix, the sums and the weights that make white,
/// the matrix to XYZ, the matrix to cone responses and its
/// determinant, and the determinant of the matrix to XYZ.
pub struct Figures {
    pub a: Figure,
    pub b: Figure,
    pub c: Figure,
    pub d: Figure,
    pub e: Figure,
    pub f: Figure,
    pub wx: Figure,
    pub wz: Figure,
    pub n0: Figure,
    pub n1: Figure,
    pub n2: Figure,
    pub n3: Figure,
    pub n4: Figure,
    pub n5: Figure,
    pub n6: Figure,
    pub n7: Figure,
    pub n8: Figure,
    pub turned: Figure,
    pub det: Figure,
    pub t0: Figure,
    pub t1: Figure,
    pub t2: Figure,
    pub s0: Figure,
    pub s1: Figure,
    pub s2: Figure,
    pub x0: Figure,
    pub x1: Figure,
    pub x2: Figure,
    pub x3: Figure,
    pub x4: Figure,
    pub x5: Figure,
    pub x6: Figure,
    pub x7: Figure,
    pub x8: Figure,
    pub l0: Figure,
    pub l1: Figure,
    pub l2: Figure,
    pub l3: Figure,
    pub l4: Figure,
    pub l5: Figure,
    pub l6: Figure,
    pub l7: Figure,
    pub l8: Figure,
    pub k0: Figure,
    pub k1: Figure,
    pub k2: Figure,
    pub end: Figure,
    pub j0: Figure,
    pub j1: Figure,
    pub j2: Figure,
    pub span: Figure,
}

impl Figures {
    /// The figures of the cofactors and of the weights follow from those of the
    /// points.
    #[verifier::opaque]
    pub open spec fn weighed(self) -> bool {
        &&& minor_fits(Figure(1_0000_0000, 0), self.f, Figure(1_0000_0000, 0), self.e, self.n0)
        &&& minor_fits(self.c, self.e, self.b, self.f, self.n1)
        &&& minor_fits(self.b, Figure(1_0000_0000, 0), self.c, Figure(1_0000_0000, 0), self.n2)
        &&& minor_fits(Figure(1_0000_0000, 0), self.d, Figure(1_0000_0000, 0), self.f, self.n3)
        &&& minor_fits(self.a, self.f, self.c, self.d, self.n4)
        &&& minor_fits(self.c, Figure(1_0000_0000, 0), self.a, Figure(1_0000_0000, 0), self.n5)
        &&& minor_fits(Figure(1_0000_0000, 0), self.e, Figure(1_0000_0000, 0), self.d, self.n6)
        &&& minor_fits(self.b, self.d, self.a, self.e, self.n7)
        &&& minor_fits(self.a, Figure(1_0000_0000, 0), self.b, Figure(1_0000_0000, 0), self.n8)
        &&& minor_fits(Figure(1_0000_0000, 0), self.f, Figure(1_0000_0000, 0), self.d, self.turned)
        &&& three_fit(self.a, self.b, self.c, self.n0, self.turned, self.n6, -1, self.det)
        &&& three_fit(
            self.n0,
            self.n1,
            self.n2,
            self.wx,
            Figure(1_0000_0000, 0),
            self.wz,
            1,
            self.t0,
        )
        &&& three_fit(
            self.n3,
            self.n4,
            self.n5,
            self.wx,
            Figure(1_0000_0000, 0),
            self.wz,
            1,
            self.t1,
        )
        &&& three_fit(
            self.n6,
            self.n7,
            self.n8,
            self.wx,
            Figure(1_0000_0000, 0),
            self.wz,
            1,
            self.t2,
        )
        &&& quotient_fits(self.t0, self.det, Figure(self.s0.0, self.s0.1 - 9100))
        &&& quotient_fits(self.t1, self.det, Figure(self.s1.0, self.s1.1 - 22600))
        &&& quotient_fits(self.t2, self.det, Figure(self.s2.0, self.s2.1 - 1300))
        &&& 0 <= self.det.1
        &&& 18_0000_0000 <= self.det.0 - self.det.1
        &&& self.det.0 + self.det.1 <= 1000_0000_0000
        &&& distance(self.a.0, 0) + self.a.1 <= 2_5000_0000
        &&& distance(self.d.0, 0) + self.d.1 <= 2_5000_0000
        &&& distance(self.b.0, 0) + self.b.1 <= 1_0000_0000
        &&& distance(self.e.0, 0) + self.e.1 <= 1_0000_0000
        &&& distance(self.c.0, 0) + self.c.1 <= 18_0000_0000
        &&& distance(self.f.0, 0) + self.f.1 <= 18_0000_0000
        &&& distance(self.wx.0, 0) + self.wx.1 <= 1_2500_0000
        &&& distance(self.wz.0, 0) + self.wz.1 <= 1_2500_0000
    }

    /// The figures of the matrix to XYZ follow from those of the weights.
    #[verifier::opaque]
    pub open spec fn scaled(self) -> bool {
        &&& rounded_fits(self.a, self.s0, self.x0)
        &&& rounded_fits(self.b, self.s1, self.x1)
        &&& rounded_fits(self.c, self.s2, self.x2)
        &&& rounded_fits(Figure(1_0000_0000, 0), self.s0, self.x3)
        &&& rounded_fits(Figure(1_0000_0000, 0), self.s1, self.x4)
        &&& rounded_fits(Figure(1_0000_0000, 0), self.s2, self.x5)
        &&& rounded_fits(self.d, self.s0, self.x6)
        &&& rounded_fits(self.e, self.s1, self.x7)
        &&& rounded_fits(self.f, self.s2, self.x8)
    }

    /// The figures of the matrix to cone responses follow from those of the
    /// matrix to XYZ.
    #[verifier::opaque]
    pub open spec fn seen(self) -> bool {
        &&& three_fit(
            cone_figure(0),
            cone_figure(1),
            cone_figure(2),
            self.x0,
            self.x3,
            self.x6,
            1,
            Figure(self.l0.0, self.l0.1 - 10_000),
        )
        &&& three_fit(
            cone_figure(0),
            cone_figure(1),
            cone_figure(2),
            self.x1,
            self.x4,
            self.x7,
            1,
            Figure(self.l1.0, self.l1.1 - 10_000),
        )
        &&& three_fit(
            cone_figure(0),
            cone_figure(1),
            cone_figure(2),
            self.x2,
            self.x5,
            self.x8,
            1,
            Figure(self.l2.0, self.l2.1 - 10_000),
        )
        &&& three_fit(
            cone_figure(3),
            cone_figure(4),
            cone_figure(5),
            self.x0,
            self.x3,
            self.x6,
            1,
            Figure(self.l3.0, self.l3.1 - 10_000),
        )
        &&& three_fit(
            cone_figure(3),
            cone_figure(4),
            cone_figure(5),
            self.x1,
            self.x4,
            self.x7,
            1,
            Figure(self.l4.0, self.l4.1 - 10_000),
        )
        &&& three_fit(
            cone_figure(3),
            cone_figure(4),
            cone_figure(5),
            self.x2,
            self.x5,
            self.x8,
            1,
            Figure(self.l5.0, self.l5.1 - 10_000),
        )
        &&& three_fit(
            cone_figure(6),
            cone_figure(7),
            cone_figure(8),
            self.x0,
            self.x3,
            self.x6,
            1,
            Figure(self.l6.0, self.l6.1 - 10_000),
        )
        &&& three_fit(
            cone_figure(6),
            cone_figure(7),
            cone_figure(8),
            self.x1,
            self.x4,
            self.x7,
            1,
            Figure(self.l7.0, self.l7.1 - 10_000),
        )
        &&& three_fit(
            cone_figure(6),
            cone_figure(7),
            cone_figure(8),
            self.x2,
            self.x5,
            self.x8,
            1,
            Figure(self.l8.0, self.l8.1 - 10_000),
        )
        &&& distance(self.l0.0, 0) + self.l0.1 <= 1_0000_0000
        &&& distance(self.l1.0, 0) + self.l1.1 <= 1_0000_0000
        &&& distance(self.l2.0, 0) + self.l2.1 <= 1_0000_0000
        &&& distance(self.l3.0, 0) + self.l3.1 <= 1_0000_0000
        &&& distance(self.l4.0, 0) + self.l4.1 <= 1_0000_0000
        &&& distance(self.l5.0, 0) + self.l5.1 <= 1_0000_0000
        &&& distance(self.l6.0, 0) + self.l6.1 <= 1_0000_0000
        &&& distance(self.l7.0, 0) + self.l7.1 <= 1_0000_0000
        &&& distance(self.l8.0, 0) + self.l8.1 <= 1_0000_0000
        &&& minor_fits(self.l4, self.l8, self.l5, self.l7, self.k0)
        &&& minor_fits(self.l3, self.l8, self.l5, self.l6, self.k1)
        &&& minor_fits(self.l3, self.l7, self.l4, self.l6, self.k2)
        &&& three_fit(self.l0, self.l1, self.l2, self.k0, self.k1, self.k2, -1, self.end)
        &&& 1_0000_0000 <= 13 * (self.end.0 - self.end.1)
        &&& self.end.0 + self.end.1 <= 1_0000_0000
    }

    /// The figures of the determinant of the matrix to XYZ follow, and equal parts
    /// make white, to which all cones answer alike.
    #[verifier::opaque]
    pub open spec fn spanned(self) -> bool {
        &&& minor_fits(self.x4, self.x8, self.x5, self.x7, self.j0)
        &&& minor_fits(self.x3, self.x8, self.x5, self.x6, self.j1)
        &&& minor_fits(self.x3, self.x7, self.x4, self.x6, self.j2)
        &&& three_fit(self.x0, self.x1, self.x2, self.j0, self.j1, self.j2, -1, self.span)
        &&& 1_3310_0000 <= 7 * (self.span.0 - self.span.1)
        &&& self.span.0 + self.span.1 <= 1_0000_0000
        &&& distance(self.x0.0, 0) + self.x0.1 <= 1_1000_0000
        &&& distance(self.x1.0, 0) + self.x1.1 <= 1_1000_0000
        &&& distance(self.x2.0, 0) + self.x2.1 <= 1_1000_0000
        &&& distance(self.x3.0, 0) + self.x3.1 <= 1_1000_0000
        &&& distance(self.x4.0, 0) + self.x4.1 <= 1_1000_0000
        &&& distance(self.x5.0, 0) + self.x5.1 <= 1_1000_0000
        &&& distance(self.x6.0, 0) + self.x6.1 <= 1_1000_0000
        &&& distance(self.x7.0, 0) + self.x7.1 <= 1_1000_0000
        &&& distance(self.x8.0, 0) + self.x8.1 <= 1_1000_0000
        &&& distance(self.x0.0 + self.x1.0 + self.x2.0, 95045593) + self.x0.1 + self.x1.1
            + self.x2.1 <= 49_000
        &&& distance(self.x3.0 + self.x4.0 + self.x5.0, 100000000) + self.x3.1 + self.x4.1
            + self.x5.1 <= 49_000
        &&& distance(self.x6.0 + self.x7.0 + self.x8.0, 108905775) + self.x6.1 + self.x7.1
            + self.x8.1 <= 49_000
        &&& distance(self.l0.0 + self.l1.0 + self.l2.0, 1_0000_0000) + self.l0.1 + self.l1.1
            + self.l2.1 <= 200_000
        &&& distance(self.l3.0 + self.l4.0 + self.l5.0, 1_0000_0000) + self.l3.1 + self.l4.1
            + self.l5.1 <= 200_000
        &&& distance(self.l6.0 + self.l7.0 + self.l8.0, 1_0000_0000) + self.l6.1 + self.l7.1
            + self.l8.1 <= 200_000
    }

    /// The points of three primaries stand where the figures say.
    pub open spec fn places(self, m: Seq<F32>, w: Seq<F32>) -> bool {
        &&& m.len() == 9
        &&& w.len() == 3
        &&& forall|n: int| 0 <= n < 9 ==> (#[trigger] m[n]).finite()
        &&& w[0].finite() && w[1].finite() && w[2].finite()
        &&& at(m[0].value(), self.a)
        &&& at(m[1].value(), self.b)
        &&& at(m[2].value(), self.c)
        &&& at(m[3].value(), Figure(1_0000_0000, 0))
        &&& at(m[4].value(), Figure(1_0000_0000, 0))
        &&& at(m[5].value(), Figure(1_0000_0000, 0))
        &&& at(m[6].value(), self.d)
        &&& at(m[7].value(), self.e)
        &&& at(m[8].value(), self.f)
        &&& at(w[0].value(), self.wx)
        &&& at(w[1].value(), Figure(1_0000_0000, 0))
        &&& at(w[2].value(), self.wz)
    }

    /// The weights of three primaries are what the figures say.
    pub open spec fn weighs(self, s: Seq<F32>) -> bool {
        &&& s.len() == 3
        &&& s[0].finite() && at(s[0].value(), self.s0)
        &&& s[1].finite() && at(s[1].value(), self.s1)
        &&& s[2].finite() && at(s[2].value(), self.s2)
    }

    /// The matrix to XYZ is what the figures say.
    pub open spec fn scales(self, x: Seq<F32>) -> bool {
        &&& x.len() == 9
        &&& x[0].finite() && at(x[0].value(), self.x0)
        &&& x[1].finite() && at(x[1].value(), self.x1)
        &&& x[2].finite() && at(x[2].value(), self.x2)
        &&& x[3].finite() && at(x[3].value(), self.x3)
        &&& x[4].finite() && at(x[4].value(), self.x4)
        &&& x[5].finite() && at(x[5].value(), self.x5)
        &&& x[6].finite() && at(x[6].value(), self.x6)
        &&& x[7].finite() && at(x[7].value(), self.x7)
        &&& x[8].finite() && at(x[8].value(), self.x8)
    }

    /// The matrix to cone responses is what the figures say.
    pub open spec fn sees(self, l: Seq<F32>) -> bool {
        &&& l.len() == 9
        &&& l[0].finite() && at(l[0].value(), self.l0)
        &&& l[1].finite() && at(l[1].value(), self.l1)
        &&& l[2].finite() && at(l[2].value(), self.l2)
        &&& l[3].finite() && at(l[3].value(), self.l3)
        &&& l[4].finite() && at(l[4].value(), self.l4)
        &&& l[5].finite() && at(l[5].value(), self.l5)
        &&& l[6].finite() && at(l[6].value(), self.l6)
        &&& l[7].finite() && at(l[7].value(), self.l7)
        &&& l[8].finite() && at(l[8].value(), self.l8)
    }
}

/// The figures of the matrix from XYZ to cone responses.
pub open spec fn cone_figure(n: int) -> Figure {
    if n == 0 {
        Figure(35916880, 10100)
    } else if n == 1 {
        Figure(69760480, 10100)
    } else if n == 2 {
        Figure(-3578840, 10100)
    } else if n == 3 {
        Figure(-19218640, 10100)
    } else if n == 4 {
        Figure(110039840, 10100)
    } else if n == 5 {
        Figure(7554040, 10100)
    } else if n == 6 {
        Figure(695760, 10100)
    } else if n == 7 {
        Figure(7491680, 10100)
    } else {
        Figure(84335800, 10100)
    }
}

/// A number within its figure.
proof fn lemma_at_size(x: real, l: Figure, most: real)
    requires
        at(x, l),
        (distance(l.0, 0) + l.1) as real <= most * 1_0000_0000int as real,
    ensures
        size_of(x) <= most,
{
    reveal(at);
}

proof fn lemma_reciprocal(d: real)
    requires
        d != 0 as real,
    ensures
        two(1 as real / d, d) == 1 as real,
        size_of(1 as real / d) > 0 as real,
{
    let i = 1 as real / d;
    assert(i * d == 1 as real && i != 0 as real) by (nonlinear_arith)
        requires
            i == 1 as real / d,
            d != 0 as real,
    ;
    lemma_product_is(i, d);
}

/// The reciprocal of a number that is neither small nor large.
#[verifier::spinoff_prover]
proof fn lemma_reciprocal_size(d: real, least: real, most: real)
    requires
        0 as real <= least,
        (0 as real) < least <= d <= most,
    ensures
        size_of(1 as real / d) * most >= 1 as real,
        size_of(1 as real / d) * least <= 1 as real,
        1 as real / d > 0 as real,
{
    let i = 1 as real / d;
    assert(i > 0 as real && i * most >= 1 as real && i * least <= 1 as real) by (nonlinear_arith)
        requires
            i == 1 as real / d,
            (0 as real) < least <= d <= most,
    ;
}

/// The cofactors of three primaries are what the figures say.
pub open spec fn cofactors(m: Seq<F32>, n: Figures) -> bool {
    &&& at(adjugate(m, 0), n.n0)
    &&& at(adjugate(m, 1), n.n1)
    &&& at(adjugate(m, 2), n.n2)
    &&& at(adjugate(m, 3), n.n3)
    &&& at(adjugate(m, 4), n.n4)
    &&& at(adjugate(m, 5), n.n5)
    &&& at(adjugate(m, 6), n.n6)
    &&& at(adjugate(m, 7), n.n7)
    &&& at(adjugate(m, 8), n.n8)
    &&& at(exact_det(m), n.det)
}

#[verifier::spinoff_prover]
proof fn lemma_cofactors(m: Seq<F32>, w: Seq<F32>, n: Figures)
    requires
        n.places(m, w),
        n.weighed(),
    ensures
        cofactors(m, n),
{
    reveal(Figures::weighed);
    let v0 = m[0].value();
    let v1 = m[1].value();
    let v2 = m[2].value();
    let v3 = m[3].value();
    let v4 = m[4].value();
    let v5 = m[5].value();
    let v6 = m[6].value();
    let v7 = m[7].value();
    let v8 = m[8].value();
    lemma_at_minor(v4, v8, v5, v7, Figure(1_0000_0000, 0), n.f, Figure(1_0000_0000, 0), n.e, n.n0);
    lemma_at_minor(v2, v7, v1, v8, n.c, n.e, n.b, n.f, n.n1);
    lemma_at_minor(v1, v5, v2, v4, n.b, Figure(1_0000_0000, 0), n.c, Figure(1_0000_0000, 0), n.n2);
    lemma_at_minor(v5, v6, v3, v8, Figure(1_0000_0000, 0), n.d, Figure(1_0000_0000, 0), n.f, n.n3);
    lemma_at_minor(v0, v8, v2, v6, n.a, n.f, n.c, n.d, n.n4);
    lemma_at_minor(v2, v3, v0, v5, n.c, Figure(1_0000_0000, 0), n.a, Figure(1_0000_0000, 0), n.n5);
    lemma_at_minor(v3, v7, v4, v6, Figure(1_0000_0000, 0), n.e, Figure(1_0000_0000, 0), n.d, n.n6);
    lemma_at_minor(v1, v6, v0, v7, n.b, n.d, n.a, n.e, n.n7);
    lemma_at_minor(v0, v4, v1, v3, n.a, Figure(1_0000_0000, 0), n.b, Figure(1_0000_0000, 0), n.n8);
    lemma_at_minor(
        v3,
        v8,
        v5,
        v6,
        Figure(1_0000_0000, 0),
        n.f,
        Figure(1_0000_0000, 0),
        n.d,
        n.turned,
    );
    lemma_at_three(
        (v0, v1, v2),
        (crossed(m, 4, 8, 5, 7), crossed(m, 3, 8, 5, 6), crossed(m, 3, 7, 4, 6)),
        n.a,
        n.b,
        n.c,
        n.n0,
        n.turned,
        n.n6,
        n.det,
    );
}

/// The matrix of three primaries can be undone.
#[verifier::spinoff_prover]
proof fn lemma_unscaled(m: Seq<F32>, w: Seq<F32>, n: Figures)
    requires
        n.places(m, w),
        n.weighed(),
        cofactors(m, n),
    ensures
        invertible(
            m,
            5 as real / 2 as real,
            1 as real,
            18 as real,
            3,
            1 as real / exact_det(m),
        ),
        size_of(1 as real / exact_det(m)) * 18 as real <= 1 as real,
        two(1 as real / exact_det(m), exact_det(m)) == 1 as real,
{
    reveal(Figures::weighed);
    let d = exact_det(m);
    assert(18 as real <= d <= 1024 as real) by {
        reveal(at);
    }
    lemma_reciprocal(d);
    lemma_reciprocal_size(d, 18 as real, 1024 as real);
    lemma_at_size(m[0].value(), n.a, 5 as real / 2 as real);
    lemma_at_size(m[1].value(), n.b, 1 as real);
    lemma_at_size(m[2].value(), n.c, 18 as real);
    lemma_at_size(m[3].value(), Figure(1_0000_0000, 0), 5 as real / 2 as real);
    lemma_at_size(m[4].value(), Figure(1_0000_0000, 0), 1 as real);
    lemma_at_size(m[5].value(), Figure(1_0000_0000, 0), 18 as real);
    lemma_at_size(m[6].value(), n.d, 5 as real / 2 as real);
    lemma_at_size(m[7].value(), n.e, 1 as real);
    lemma_at_size(m[8].value(), n.f, 18 as real);
    lemma_sizes_of_primaries(d);
}

proof fn lemma_sizes_of_primaries(d: real)
    requires
        18 as real <= d,
    ensures
        two(5 as real / 2 as real, two(1 as real, 18 as real)) <= two(3 as real, size_of(d)),
{
    lemma_product_is(1 as real, 18 as real);
    lemma_product_is(5 as real / 2 as real, 18 as real);
    lemma_product_is(3 as real, size_of(d));
}

/// The weights of three primaries.
#[verifier::spinoff_prover]
proof fn lemma_weights(m: Seq<F32>, w: Seq<F32>, n: Figures)
    requires
        n.places(m, w),
        n.weighed(),
    ensures
        n.weighs(applied(inverted(m), w)),
{
    reveal(Figures::weighed);
    lemma_cofactors(m, w, n);
    lemma_unscaled(m, w, n);
    let d = exact_det(m);
    let i = 1 as real / d;
    let g = 5 as real / 4 as real;
    lemma_at_size(w[0].value(), n.wx, g);
    lemma_at_size(w[1].value(), Figure(1_0000_0000, 0), g);
    lemma_at_size(w[2].value(), n.wz, g);
    let v = (w[0].value(), w[1].value(), w[2].value());
    let p = 5 as real / 2 as real;
    let u0 = (adjugate(m, 0), adjugate(m, 1), adjugate(m, 2));
    let e0 = two(u0.0, v.0) + two(u0.1, v.1) + two(u0.2, v.2);
    lemma_at_three(u0, v, n.n0, n.n1, n.n2, n.wx, Figure(1_0000_0000, 0), n.wz, n.t0);
    lemma_at_quotient(i, e0, d, n.t0, n.det, Figure(n.s0.0, n.s0.1 - 9100));
    let z0 = minor_size(p, 1 as real, 18 as real, 0);
    lemma_minor_sizes(z0, 0);
    lemma_weight(m, i, w, 0, z0);
    lemma_at_wider(
        applied(inverted(m), w)[0].value(),
        two(i, e0),
        Figure(n.s0.0, n.s0.1 - 9100),
        9100 as real,
        n.s0,
    );
    let u1 = (adjugate(m, 3), adjugate(m, 4), adjugate(m, 5));
    let e1 = two(u1.0, v.0) + two(u1.1, v.1) + two(u1.2, v.2);
    lemma_at_three(u1, v, n.n3, n.n4, n.n5, n.wx, Figure(1_0000_0000, 0), n.wz, n.t1);
    lemma_at_quotient(i, e1, d, n.t1, n.det, Figure(n.s1.0, n.s1.1 - 22600));
    let z1 = minor_size(p, 1 as real, 18 as real, 1);
    lemma_minor_sizes(z1, 1);
    lemma_weight(m, i, w, 1, z1);
    lemma_at_wider(
        applied(inverted(m), w)[1].value(),
        two(i, e1),
        Figure(n.s1.0, n.s1.1 - 22600),
        22600 as real,
        n.s1,
    );
    let u2 = (adjugate(m, 6), adjugate(m, 7), adjugate(m, 8));
    let e2 = two(u2.0, v.0) + two(u2.1, v.1) + two(u2.2, v.2);
    lemma_at_three(u2, v, n.n6, n.n7, n.n8, n.wx, Figure(1_0000_0000, 0), n.wz, n.t2);
    lemma_at_quotient(i, e2, d, n.t2, n.det, Figure(n.s2.0, n.s2.1 - 1300));
    let z2 = minor_size(p, 1 as real, 18 as real, 2);
    lemma_minor_sizes(z2, 2);
    lemma_weight(m, i, w, 2, z2);
    lemma_at_wider(
        applied(inverted(m), w)[2].value(),
        two(i, e2),
        Figure(n.s2.0, n.s2.1 - 1300),
        1300 as real,
        n.s2,
    );
}

/// The matrix of the weighed primaries.
#[verifier::spinoff_prover]
proof fn lemma_scaled(m: Seq<F32>, w: Seq<F32>, s: Seq<F32>, n: Figures)
    requires
        n.places(m, w),
        n.weighs(s),
        n.scaled(),
    ensures
        n.scales(scaled_columns(m, s)),
{
    reveal(Figures::scaled);
    lemma_at_rounded(m[0], s[0], n.a, n.s0, n.x0);
    lemma_at_rounded(m[1], s[1], n.b, n.s1, n.x1);
    lemma_at_rounded(m[2], s[2], n.c, n.s2, n.x2);
    lemma_at_rounded(m[3], s[0], Figure(1_0000_0000, 0), n.s0, n.x3);
    lemma_at_rounded(m[4], s[1], Figure(1_0000_0000, 0), n.s1, n.x4);
    lemma_at_rounded(m[5], s[2], Figure(1_0000_0000, 0), n.s2, n.x5);
    lemma_at_rounded(m[6], s[0], n.d, n.s0, n.x6);
    lemma_at_rounded(m[7], s[1], n.e, n.s1, n.x7);
    lemma_at_rounded(m[8], s[2], n.f, n.s2, n.x8);
}

/// A fraction of small numbers, rounded.
#[verifier::spinoff_prover]
proof fn lemma_at_fraction(n: int, d: int, x: real, l: Figure)
    requires
        0 <= n,
        0 < d,
        x * d as real == n as real,
        0 as real <= x,
        x <= 3 as real / 2 as real,
        x * 1_0000_0000int as real == l.0 as real,
        10 <= l.1,
    ensures
        nearest_to(n, d).finite(),
        at(nearest_to(n, d).value(), l),
        at(opposite(nearest_to(n, d)).value(), Figure(-l.0, l.1)),
        opposite(nearest_to(n, d)).finite(),
{
    lemma_nearest_is_close(n, d, x);
    lemma_opposite_value(nearest_to(n, d));
    reveal(at);
}

/// The share of the other cones, and what is left to a cone's own.
#[verifier::spinoff_prover]
proof fn lemma_crosstalk()
    ensures
        ({
            let m = crosstalk_cells();
            &&& m.len() == 9
            &&& forall|n: int| 0 <= n < 9 ==> (#[trigger] m[n]).finite()
            &&& at(m[0].value(), Figure(92000000, 20))
            &&& at(m[1].value(), Figure(4000000, 2))
            &&& at(m[2].value(), Figure(4000000, 2))
            &&& at(m[3].value(), Figure(4000000, 2))
            &&& at(m[4].value(), Figure(92000000, 20))
            &&& at(m[5].value(), Figure(4000000, 2))
            &&& at(m[6].value(), Figure(4000000, 2))
            &&& at(m[7].value(), Figure(4000000, 2))
            &&& at(m[8].value(), Figure(92000000, 20))
        }),
{
    let c = nearest_to(4, 100);
    let twice = F32 { bits: 0x4000_0000 };
    let one = F32 { bits: ONE_BITS };
    lemma_zero_and_one();
    lemma_nearest_is_close(4, 100, 4 as real / 100 as real);
    lemma_whole_two();
    lemma_product_is(twice.value(), c.value());
    lemma_product_of(twice, c);
    lemma_difference_is_close(one, product(twice, c));
    reveal(at);
}

/// The cones' sensitivities.
#[verifier::spinoff_prover]
proof fn lemma_cone_cells()
    ensures
        ({
            let m = cone_cells();
            &&& m.len() == 9
            &&& forall|n: int| 0 <= n < 9 ==> (#[trigger] m[n]).finite()
            &&& at(m[0].value(), Figure(40024000, 12))
            &&& at(m[1].value(), Figure(70760000, 12))
            &&& at(m[2].value(), Figure(-8081000, 12))
            &&& at(m[3].value(), Figure(-22630000, 12))
            &&& at(m[4].value(), Figure(116532000, 12))
            &&& at(m[5].value(), Figure(4570000, 12))
            &&& at(m[6].value(), Figure(0, 0))
            &&& at(m[7].value(), Figure(0, 0))
            &&& at(m[8].value(), Figure(91822000, 12))
        }),
{
    let hundred = 100000 as real;
    lemma_zero_and_one();
    lemma_at_fraction(40024, 100000, 40024 as real / hundred, Figure(40024000, 12));
    lemma_at_fraction(70760, 100000, 70760 as real / hundred, Figure(70760000, 12));
    lemma_at_fraction(8081, 100000, 8081 as real / hundred, Figure(8081000, 12));
    lemma_at_fraction(22630, 100000, 22630 as real / hundred, Figure(22630000, 12));
    lemma_at_fraction(116532, 100000, 116532 as real / hundred, Figure(116532000, 12));
    lemma_at_fraction(4570, 100000, 4570 as real / hundred, Figure(4570000, 12));
    lemma_at_fraction(91822, 100000, 91822 as real / hundred, Figure(91822000, 12));
    assert(at(0 as real, Figure(0, 0))) by {
        reveal(at);
    }
}

/// From XYZ to cone responses with crosstalk.
pub open spec fn cone_numbers(m: Seq<F32>) -> bool {
    &&& m.len() == 9
    &&& m[0].finite() && at(m[0].value(), cone_figure(0))
    &&& m[1].finite() && at(m[1].value(), cone_figure(1))
    &&& m[2].finite() && at(m[2].value(), cone_figure(2))
    &&& m[3].finite() && at(m[3].value(), cone_figure(3))
    &&& m[4].finite() && at(m[4].value(), cone_figure(4))
    &&& m[5].finite() && at(m[5].value(), cone_figure(5))
    &&& m[6].finite() && at(m[6].value(), cone_figure(6))
    &&& m[7].finite() && at(m[7].value(), cone_figure(7))
    &&& m[8].finite() && at(m[8].value(), cone_figure(8))
}

/// The figure of a cell of a product.
#[verifier::spinoff_prover]
proof fn lemma_at_cell(
    a: Seq<F32>,
    b: Seq<F32>,
    row: int,
    column: int,
    x: Figure,
    y: Figure,
    z: Figure,
    u: Figure,
    v: Figure,
    w: Figure,
    l: Figure,
    wide: Figure,
)
    requires
        cells_within(a, 4 as real),
        cells_within(b, 4 as real),
        0 <= row < 3,
        0 <= column < 3,
        at(a[3 * row].value(), x),
        at(a[3 * row + 1].value(), y),
        at(a[3 * row + 2].value(), z),
        at(b[column].value(), u),
        at(b[column + 3].value(), v),
        at(b[column + 6].value(), w),
        three_fit(x, y, z, u, v, w, 1, l),
        l.0 == wide.0,
        l.1 + 10_000 <= wide.1,
    ensures
        multiplied(a, b)[3 * row + column].finite(),
        at(multiplied(a, b)[3 * row + column].value(), wide),
{
    law_products_are_rows_times_columns(a, b, row, column);
    lemma_at_three(
        (a[3 * row].value(), a[3 * row + 1].value(), a[3 * row + 2].value()),
        (b[column].value(), b[column + 3].value(), b[column + 6].value()),
        x,
        y,
        z,
        u,
        v,
        w,
        l,
    );
    lemma_at_wider(
        multiplied(a, b)[3 * row + column].value(),
        row_by_column(a, b, row, column),
        l,
        10_000 as real,
        wide,
    );
}

#[verifier::spinoff_prover]
proof fn lemma_cones()
    ensures
        cone_numbers(multiplied(crosstalk_cells(), cone_cells())),
{
    lemma_crosstalk();
    lemma_cone_cells();
    let t = crosstalk_cells();
    let c = cone_cells();
    let four = 4 as real;
    lemma_at_size(t[0].value(), Figure(92000000, 20), four);
    lemma_at_size(c[0].value(), Figure(40024000, 12), four);
    lemma_at_size(t[1].value(), Figure(4000000, 2), four);
    lemma_at_size(c[1].value(), Figure(70760000, 12), four);
    lemma_at_size(t[2].value(), Figure(4000000, 2), four);
    lemma_at_size(c[2].value(), Figure(-8081000, 12), four);
    lemma_at_size(t[3].value(), Figure(4000000, 2), four);
    lemma_at_size(c[3].value(), Figure(-22630000, 12), four);
    lemma_at_size(t[4].value(), Figure(92000000, 20), four);
    lemma_at_size(c[4].value(), Figure(116532000, 12), four);
    lemma_at_size(t[5].value(), Figure(4000000, 2), four);
    lemma_at_size(c[5].value(), Figure(4570000, 12), four);
    lemma_at_size(t[6].value(), Figure(4000000, 2), four);
    lemma_at_size(c[6].value(), Figure(0, 0), four);
    lemma_at_size(t[7].value(), Figure(4000000, 2), four);
    lemma_at_size(c[7].value(), Figure(0, 0), four);
    lemma_at_size(t[8].value(), Figure(92000000, 20), four);
    lemma_at_size(c[8].value(), Figure(91822000, 12), four);
    lemma_nine_within(t);
    lemma_nine_within(c);
    assert(three_fit(
        Figure(92000000, 20), Figure(4000000, 2), Figure(4000000, 2), Figure(40024000, 12),
        Figure(-22630000, 12), Figure(0, 0), 1, Figure(35916880, 100),
    )) by (nonlinear_arith);
    lemma_at_cell(
        t,
        c,
        0,
        0,
        Figure(92000000, 20),
        Figure(4000000, 2),
        Figure(4000000, 2),
        Figure(40024000, 12),
        Figure(-22630000, 12),
        Figure(0, 0),
        Figure(35916880, 100),
        cone_figure(0),
    );
    assert(three_fit(
        Figure(92000000, 20), Figure(4000000, 2), Figure(4000000, 2), Figure(70760000, 12),
        Figure(116532000, 12), Figure(0, 0), 1, Figure(69760480, 100),
    )) by (nonlinear_arith);
    lemma_at_cell(
        t,
        c,
        0,
        1,
        Figure(92000000, 20),
        Figure(4000000, 2),
        Figure(4000000, 2),
        Figure(70760000, 12),
        Figure(116532000, 12),
        Figure(0, 0),
        Figure(69760480, 100),
        cone_figure(1),
    );
    assert(three_fit(
        Figure(92000000, 20), Figure(4000000, 2), Figure(4000000, 2), Figure(-8081000, 12),
        Figure(4570000, 12), Figure(91822000, 12), 1, Figure(-3578840, 100),
    )) by (nonlinear_arith);
    lemma_at_cell(
        t,
        c,
        0,
        2,
        Figure(92000000, 20),
        Figure(4000000, 2),
        Figure(4000000, 2),
        Figure(-8081000, 12),
        Figure(4570000, 12),
        Figure(91822000, 12),
        Figure(-3578840, 100),
        cone_figure(2),
    );
    assert(three_fit(
        Figure(4000000, 2), Figure(92000000, 20), Figure(4000000, 2), Figure(40024000, 12),
        Figure(-22630000, 12), Figure(0, 0), 1, Figure(-19218640, 100),
    )) by (nonlinear_arith);
    lemma_at_cell(
        t,
        c,
        1,
        0,
        Figure(4000000, 2),
        Figure(92000000, 20),
        Figure(4000000, 2),
        Figure(40024000, 12),
        Figure(-22630000, 12),
        Figure(0, 0),
        Figure(-19218640, 100),
        cone_figure(3),
    );
    assert(three_fit(
        Figure(4000000, 2), Figure(92000000, 20), Figure(4000000, 2), Figure(70760000, 12),
        Figure(116532000, 12), Figure(0, 0), 1, Figure(110039840, 100),
    )) by (nonlinear_arith);
    lemma_at_cell(
        t,
        c,
        1,
        1,
        Figure(4000000, 2),
        Figure(92000000, 20),
        Figure(4000000, 2),
        Figure(70760000, 12),
        Figure(116532000, 12),
        Figure(0, 0),
        Figure(110039840, 100),
        cone_figure(4),
    );
    assert(three_fit(
        Figure(4000000, 2), Figure(92000000, 20), Figure(4000000, 2), Figure(-8081000, 12),
        Figure(4570000, 12), Figure(91822000, 12), 1, Figure(7554040, 100),
    )) by (nonlinear_arith);
    lemma_at_cell(
        t,
        c,
        1,
        2,
        Figure(4000000, 2),
        Figure(92000000, 20),
        Figure(4000000, 2),
        Figure(-8081000, 12),
        Figure(4570000, 12),
        Figure(91822000, 12),
        Figure(7554040, 100),
        cone_figure(5),
    );
    assert(three_fit(
        Figure(4000000, 2), Figure(4000000, 2), Figure(92000000, 20), Figure(40024000, 12),
        Figure(-22630000, 12), Figure(0, 0), 1, Figure(695760, 100),
    )) by (nonlinear_arith);
    lemma_at_cell(
        t,
        c,
        2,
        0,
        Figure(4000000, 2),
        Figure(4000000, 2),
        Figure(92000000, 20),
        Figure(40024000, 12),
        Figure(-22630000, 12),
        Figure(0, 0),
        Figure(695760, 100),
        cone_figure(6),
    );
    assert(three_fit(
        Figure(4000000, 2), Figure(4000000, 2), Figure(92000000, 20), Figure(70760000, 12),
        Figure(116532000, 12), Figure(0, 0), 1, Figure(7491680, 100),
    )) by (nonlinear_arith);
    lemma_at_cell(
        t,
        c,
        2,
        1,
        Figure(4000000, 2),
        Figure(4000000, 2),
        Figure(92000000, 20),
        Figure(70760000, 12),
        Figure(116532000, 12),
        Figure(0, 0),
        Figure(7491680, 100),
        cone_figure(7),
    );
    assert(three_fit(
        Figure(4000000, 2), Figure(4000000, 2), Figure(92000000, 20), Figure(-8081000, 12),
        Figure(4570000, 12), Figure(91822000, 12), 1, Figure(84335800, 100),
    )) by (nonlinear_arith);
    lemma_at_cell(
        t,
        c,
        2,
        2,
        Figure(4000000, 2),
        Figure(4000000, 2),
        Figure(92000000, 20),
        Figure(-8081000, 12),
        Figure(4570000, 12),
        Figure(91822000, 12),
        Figure(84335800, 100),
        cone_figure(8),
    );
}

/// Nine cells within four.
proof fn lemma_nine_within(m: Seq<F32>)
    requires
        m.len() == 9,
        m[0].finite() && size_of(m[0].value()) <= 4 as real,
        m[1].finite() && size_of(m[1].value()) <= 4 as real,
        m[2].finite() && size_of(m[2].value()) <= 4 as real,
        m[3].finite() && size_of(m[3].value()) <= 4 as real,
        m[4].finite() && size_of(m[4].value()) <= 4 as real,
        m[5].finite() && size_of(m[5].value()) <= 4 as real,
        m[6].finite() && size_of(m[6].value()) <= 4 as real,
        m[7].finite() && size_of(m[7].value()) <= 4 as real,
        m[8].finite() && size_of(m[8].value()) <= 4 as real,
    ensures
        cells_within(m, 4 as real),
{
    assert forall|n: int| 0 <= n < 9 implies (#[trigger] m[n]).finite() && size_of(m[n].value())
        <= 4 as real by {
        assert(n == 0 || n == 1 || n == 2 || n == 3 || n == 4 || n == 5 || n == 6 || n == 7 || n
            == 8);
    }
}

proof fn lemma_whole_two()
    ensures
        (F32 { bits: 0x4000_0000 }).finite(),
        (F32 { bits: 0x4000_0000 }).value() == 2 as real,
{
    vstd::arithmetic::power2::lemma2_to64();
    lemma_whole(0x4000_0000, 1, 2);
    lemma_whole_value(F32 { bits: 0x4000_0000 }, 2);
}

/// The matrix to cone responses, in numbers.
#[verifier::spinoff_prover]
proof fn lemma_seen(k: Seq<F32>, x: Seq<F32>, n: Figures)
    requires
        cone_numbers(k),
        n.scales(x),
        n.scaled(),
        n.seen(),
    ensures
        n.sees(multiplied(k, x)),
{
    reveal(Figures::scaled);
    reveal(Figures::seen);
    let four = 4 as real;
    lemma_at_size(k[0].value(), cone_figure(0), four);
    lemma_at_size(x[0].value(), n.x0, four);
    lemma_at_size(k[1].value(), cone_figure(1), four);
    lemma_at_size(x[1].value(), n.x1, four);
    lemma_at_size(k[2].value(), cone_figure(2), four);
    lemma_at_size(x[2].value(), n.x2, four);
    lemma_at_size(k[3].value(), cone_figure(3), four);
    lemma_at_size(x[3].value(), n.x3, four);
    lemma_at_size(k[4].value(), cone_figure(4), four);
    lemma_at_size(x[4].value(), n.x4, four);
    lemma_at_size(k[5].value(), cone_figure(5), four);
    lemma_at_size(x[5].value(), n.x5, four);
    lemma_at_size(k[6].value(), cone_figure(6), four);
    lemma_at_size(x[6].value(), n.x6, four);
    lemma_at_size(k[7].value(), cone_figure(7), four);
    lemma_at_size(x[7].value(), n.x7, four);
    lemma_at_size(k[8].value(), cone_figure(8), four);
    lemma_at_size(x[8].value(), n.x8, four);
    lemma_nine_within(k);
    lemma_nine_within(x);
    lemma_at_cell(
        k,
        x,
        0,
        0,
        cone_figure(0),
        cone_figure(1),
        cone_figure(2),
        n.x0,
        n.x3,
        n.x6,
        Figure(n.l0.0, n.l0.1 - 10_000),
        n.l0,
    );
    lemma_at_cell(
        k,
        x,
        0,
        1,
        cone_figure(0),
        cone_figure(1),
        cone_figure(2),
        n.x1,
        n.x4,
        n.x7,
        Figure(n.l1.0, n.l1.1 - 10_000),
        n.l1,
    );
    lemma_at_cell(
        k,
        x,
        0,
        2,
        cone_figure(0),
        cone_figure(1),
        cone_figure(2),
        n.x2,
        n.x5,
        n.x8,
        Figure(n.l2.0, n.l2.1 - 10_000),
        n.l2,
    );
    lemma_at_cell(
        k,
        x,
        1,
        0,
        cone_figure(3),
        cone_figure(4),
        cone_figure(5),
        n.x0,
        n.x3,
        n.x6,
        Figure(n.l3.0, n.l3.1 - 10_000),
        n.l3,
    );
    lemma_at_cell(
        k,
        x,
        1,
        1,
        cone_figure(3),
        cone_figure(4),
        cone_figure(5),
        n.x1,
        n.x4,
        n.x7,
        Figure(n.l4.0, n.l4.1 - 10_000),
        n.l4,
    );
    lemma_at_cell(
        k,
        x,
        1,
        2,
        cone_figure(3),
        cone_figure(4),
        cone_figure(5),
        n.x2,
        n.x5,
        n.x8,
        Figure(n.l5.0, n.l5.1 - 10_000),
        n.l5,
    );
    lemma_at_cell(
        k,
        x,
        2,
        0,
        cone_figure(6),
        cone_figure(7),
        cone_figure(8),
        n.x0,
        n.x3,
        n.x6,
        Figure(n.l6.0, n.l6.1 - 10_000),
        n.l6,
    );
    lemma_at_cell(
        k,
        x,
        2,
        1,
        cone_figure(6),
        cone_figure(7),
        cone_figure(8),
        n.x1,
        n.x4,
        n.x7,
        Figure(n.l7.0, n.l7.1 - 10_000),
        n.l7,
    );
    lemma_at_cell(
        k,
        x,
        2,
        2,
        cone_figure(6),
        cone_figure(7),
        cone_figure(8),
        n.x2,
        n.x5,
        n.x8,
        Figure(n.l8.0, n.l8.1 - 10_000),
        n.l8,
    );
}

/// The matrix to cone responses can be undone.
#[verifier::spinoff_prover]
proof fn lemma_cones_invertible(l: Seq<F32>, n: Figures)
    requires
        n.sees(l),
        n.seen(),
    ensures
        invertible(l, 1 as real, 1 as real, 1 as real, 13, 1 as real / exact_det(l)),
{
    reveal(Figures::seen);
    let v0 = l[0].value();
    let v1 = l[1].value();
    let v2 = l[2].value();
    let v3 = l[3].value();
    let v4 = l[4].value();
    let v5 = l[5].value();
    let v6 = l[6].value();
    let v7 = l[7].value();
    let v8 = l[8].value();
    lemma_at_minor(v4, v8, v5, v7, n.l4, n.l8, n.l5, n.l7, n.k0);
    lemma_at_minor(v3, v8, v5, v6, n.l3, n.l8, n.l5, n.l6, n.k1);
    lemma_at_minor(v3, v7, v4, v6, n.l3, n.l7, n.l4, n.l6, n.k2);
    lemma_at_three(
        (v0, v1, v2),
        (crossed(l, 4, 8, 5, 7), crossed(l, 3, 8, 5, 6), crossed(l, 3, 7, 4, 6)),
        n.l0,
        n.l1,
        n.l2,
        n.k0,
        n.k1,
        n.k2,
        n.end,
    );
    let d = exact_det(l);
    assert(1 as real <= 13 as real * d && d <= 1 as real) by {
        reveal(at);
    }
    lemma_reciprocal(d);
    lemma_reciprocal_size(d, 1 as real / 13 as real, 1 as real);
    lemma_at_size(v0, n.l0, 1 as real);
    lemma_at_size(v1, n.l1, 1 as real);
    lemma_at_size(v2, n.l2, 1 as real);
    lemma_at_size(v3, n.l3, 1 as real);
    lemma_at_size(v4, n.l4, 1 as real);
    lemma_at_size(v5, n.l5, 1 as real);
    lemma_at_size(v6, n.l6, 1 as real);
    lemma_at_size(v7, n.l7, 1 as real);
    lemma_at_size(v8, n.l8, 1 as real);
    lemma_sizes_of_cones(d);
}

proof fn lemma_sizes_of_cones(d: real)
    requires
        1 as real <= 13 as real * d,
    ensures
        two(1 as real, two(1 as real, 1 as real)) <= two(13 as real, size_of(d)),
{
    lemma_product_is(1 as real, 1 as real);
    lemma_product_is(13 as real, size_of(d));
}

/// The figures of BT.709.
pub open spec fn bt709_figures() -> Figures {
    Figures {
        a: Figure(193939394, 61),
        b: Figure(50000000, 34),
        c: Figure(250000000, 334),
        d: Figure(9090909, 122),
        e: Figure(16666667, 67),
        f: Figure(1316666667, 667),
        wx: Figure(95045593, 62),
        wz: Figure(108905775, 122),
        n0: Figure(1300000000, 734),
        n1: Figure(-616666666, 1005),
        n2: Figure(-200000000, 368),
        n3: Figure(-1307575758, 789),
        n4: Figure(2530808082, 2433),
        n5: Figure(56060606, 395),
        n6: Figure(7575758, 189),
        n7: Figure(-27777778, 205),
        n8: Figure(143939394, 95),
        turned: Figure(1307575758, 789),
        det: Figure(1886363638, 3554),
        t0: Figure(401114493, 3154),
        t1: Figure(1349068186, 4493),
        t2: Figure(136180959, 669),
        s0: Figure(21263901, 9308),
        s1: Figure(71516868, 22974),
        s2: Figure(7219232, 1350),
        x0: Figure(41239081, 18086),
        x1: Figure(35758434, 11532),
        x2: Figure(18048080, 3420),
        x3: Figure(21263901, 9328),
        x4: Figure(71516868, 22994),
        x5: Figure(7219232, 1370),
        x6: Figure(1933082, 893),
        x7: Figure(11919478, 3898),
        x8: Figure(95053221, 17844),
        l0: Figure(29576409, 29547),
        l1: Figure(62307245, 42365),
        l2: Figure(8116675, 24978),
        l3: Figure(15619198, 30319),
        l4: Figure(72725165, 49857),
        l5: Figure(11655794, 25668),
        l6: Figure(3510229, 18090),
        l7: Figure(15658995, 27133),
        l8: Figure(80830307, 37331),
        k0: Figure(56958794, 74657),
        k1: Figure(12215901, 33364),
        k2: Figure(-107010, 23910),
        end: Figure(9226289, 66884),
        j0: Figure(67118592, 35068),
        j1: Figure(20072469, 12754),
        j2: Figure(1152066, 3025),
        span: Figure(20709416, 34070),
    }
}

#[verifier::spinoff_prover]
proof fn lemma_bt709_weighed()
    ensures
        bt709_figures().weighed(),
{
    reveal(Figures::weighed);
    assert(minor_fits(
        Figure(100000000, 0), Figure(1316666667, 667), Figure(100000000, 0),
        Figure(16666667, 67), Figure(1300000000, 734),
    )) by (nonlinear_arith);
    assert(minor_fits(
        Figure(250000000, 334), Figure(16666667, 67), Figure(50000000, 34),
        Figure(1316666667, 667), Figure(-616666666, 1005),
    )) by (nonlinear_arith);
    assert(minor_fits(
        Figure(50000000, 34), Figure(100000000, 0), Figure(250000000, 334), Figure(100000000, 0),
        Figure(-200000000, 368),
    )) by (nonlinear_arith);
    assert(minor_fits(
        Figure(100000000, 0), Figure(9090909, 122), Figure(100000000, 0),
        Figure(1316666667, 667), Figure(-1307575758, 789),
    )) by (nonlinear_arith);
    assert(minor_fits(
        Figure(193939394, 61), Figure(1316666667, 667), Figure(250000000, 334),
        Figure(9090909, 122), Figure(2530808082, 2433),
    )) by (nonlinear_arith);
    assert(minor_fits(
        Figure(250000000, 334), Figure(100000000, 0), Figure(193939394, 61),
        Figure(100000000, 0), Figure(56060606, 395),
    )) by (nonlinear_arith);
    assert(minor_fits(
        Figure(100000000, 0), Figure(16666667, 67), Figure(100000000, 0), Figure(9090909, 122),
        Figure(7575758, 189),
    )) by (nonlinear_arith);
    assert(minor_fits(
        Figure(50000000, 34), Figure(9090909, 122), Figure(193939394, 61), Figure(16666667, 67),
        Figure(-27777778, 205),
    )) by (nonlinear_arith);
    assert(minor_fits(
        Figure(193939394, 61), Figure(100000000, 0), Figure(50000000, 34), Figure(100000000, 0),
        Figure(143939394, 95),
    )) by (nonlinear_arith);
    assert(minor_fits(
        Figure(100000000, 0), Figure(1316666667, 667), Figure(100000000, 0),
        Figure(9090909, 122), Figure(1307575758, 789),
    )) by (nonlinear_arith);
    assert(three_fit(
        Figure(193939394, 61), Figure(50000000, 34), Figure(250000000, 334),
        Figure(1300000000, 734), Figure(1307575758, 789), Figure(7575758, 189), -1,
        Figure(1886363638, 3554),
    )) by (nonlinear_arith);
    assert(three_fit(
        Figure(1300000000, 734), Figure(-616666666, 1005), Figure(-200000000, 368),
        Figure(95045593, 62), Figure(100000000, 0), Figure(108905775, 122), 1,
        Figure(401114493, 3154),
    )) by (nonlinear_arith);
    assert(three_fit(
        Figure(-1307575758, 789), Figure(2530808082, 2433), Figure(56060606, 395),
        Figure(95045593, 62), Figure(100000000, 0), Figure(108905775, 122), 1,
        Figure(1349068186, 4493),
    )) by (nonlinear_arith);
    assert(three_fit(
        Figure(7575758, 189), Figure(-27777778, 205), Figure(143939394, 95),
        Figure(95045593, 62), Figure(100000000, 0), Figure(108905775, 122), 1,
        Figure(136180959, 669),
    )) by (nonlinear_arith);
    assert(quotient_fits(
        Figure(401114493, 3154), Figure(1886363638, 3554), Figure(21263901, 208),
    )) by (nonlinear_arith);
    assert(quotient_fits(
        Figure(1349068186, 4493), Figure(1886363638, 3554), Figure(71516868, 374),
    )) by (nonlinear_arith);
    assert(quotient_fits(
        Figure(136180959, 669), Figure(1886363638, 3554), Figure(7219232, 50),
    )) by (nonlinear_arith);
}

#[verifier::spinoff_prover]
proof fn lemma_bt709_scaled()
    ensures
        bt709_figures().scaled(),
{
    reveal(Figures::scaled);
    assert(rounded_fits(
        Figure(193939394, 61), Figure(21263901, 9308), Figure(41239081, 18086),
    )) by (nonlinear_arith);
    assert(rounded_fits(
        Figure(50000000, 34), Figure(71516868, 22974), Figure(35758434, 11532),
    )) by (nonlinear_arith);
    assert(rounded_fits(
        Figure(250000000, 334), Figure(7219232, 1350), Figure(18048080, 3420),
    )) by (nonlinear_arith);
    assert(rounded_fits(
        Figure(100000000, 0), Figure(21263901, 9308), Figure(21263901, 9328),
    )) by (nonlinear_arith);
    assert(rounded_fits(
        Figure(100000000, 0), Figure(71516868, 22974), Figure(71516868, 22994),
    )) by (nonlinear_arith);
    assert(rounded_fits(
        Figure(100000000, 0), Figure(7219232, 1350), Figure(7219232, 1370),
    )) by (nonlinear_arith);
    assert(rounded_fits(
        Figure(9090909, 122), Figure(21263901, 9308), Figure(1933082, 893),
    )) by (nonlinear_arith);
    assert(rounded_fits(
        Figure(16666667, 67), Figure(71516868, 22974), Figure(11919478, 3898),
    )) by (nonlinear_arith);
    assert(rounded_fits(
        Figure(1316666667, 667), Figure(7219232, 1350), Figure(95053221, 17844),
    )) by (nonlinear_arith);
}

#[verifier::spinoff_prover]
proof fn lemma_bt709_seen()
    ensures
        bt709_figures().seen(),
{
    reveal(Figures::seen);
    assert(three_fit(
        Figure(35916880, 10100), Figure(69760480, 10100), Figure(-3578840, 10100),
        Figure(41239081, 18086), Figure(21263901, 9328), Figure(1933082, 893), 1,
        Figure(29576409, 19547),
    )) by (nonlinear_arith);
    assert(three_fit(
        Figure(35916880, 10100), Figure(69760480, 10100), Figure(-3578840, 10100),
        Figure(35758434, 11532), Figure(71516868, 22994), Figure(11919478, 3898), 1,
        Figure(62307245, 32365),
    )) by (nonlinear_arith);
    assert(three_fit(
        Figure(35916880, 10100), Figure(69760480, 10100), Figure(-3578840, 10100),
        Figure(18048080, 3420), Figure(7219232, 1370), Figure(95053221, 17844), 1,
        Figure(8116675, 14978),
    )) by (nonlinear_arith);
    assert(three_fit(
        Figure(-19218640, 10100), Figure(110039840, 10100), Figure(7554040, 10100),
        Figure(41239081, 18086), Figure(21263901, 9328), Figure(1933082, 893), 1,
        Figure(15619198, 20319),
    )) by (nonlinear_arith);
    assert(three_fit(
        Figure(-19218640, 10100), Figure(110039840, 10100), Figure(7554040, 10100),
        Figure(35758434, 11532), Figure(71516868, 22994), Figure(11919478, 3898), 1,
        Figure(72725165, 39857),
    )) by (nonlinear_arith);
    assert(three_fit(
        Figure(-19218640, 10100), Figure(110039840, 10100), Figure(7554040, 10100),
        Figure(18048080, 3420), Figure(7219232, 1370), Figure(95053221, 17844), 1,
        Figure(11655794, 15668),
    )) by (nonlinear_arith);
    assert(three_fit(
        Figure(695760, 10100), Figure(7491680, 10100), Figure(84335800, 10100),
        Figure(41239081, 18086), Figure(21263901, 9328), Figure(1933082, 893), 1,
        Figure(3510229, 8090),
    )) by (nonlinear_arith);
    assert(three_fit(
        Figure(695760, 10100), Figure(7491680, 10100), Figure(84335800, 10100),
        Figure(35758434, 11532), Figure(71516868, 22994), Figure(11919478, 3898), 1,
        Figure(15658995, 17133),
    )) by (nonlinear_arith);
    assert(three_fit(
        Figure(695760, 10100), Figure(7491680, 10100), Figure(84335800, 10100),
        Figure(18048080, 3420), Figure(7219232, 1370), Figure(95053221, 17844), 1,
        Figure(80830307, 27331),
    )) by (nonlinear_arith);
    assert(minor_fits(
        Figure(72725165, 49857), Figure(80830307, 37331), Figure(11655794, 25668),
        Figure(15658995, 27133), Figure(56958794, 74657),
    )) by (nonlinear_arith);
    assert(minor_fits(
        Figure(15619198, 30319), Figure(80830307, 37331), Figure(11655794, 25668),
        Figure(3510229, 18090), Figure(12215901, 33364),
    )) by (nonlinear_arith);
    assert(minor_fits(
        Figure(15619198, 30319), Figure(15658995, 27133), Figure(72725165, 49857),
        Figure(3510229, 18090), Figure(-107010, 23910),
    )) by (nonlinear_arith);
    assert(three_fit(
        Figure(29576409, 29547), Figure(62307245, 42365), Figure(8116675, 24978),
        Figure(56958794, 74657), Figure(12215901, 33364), Figure(-107010, 23910), -1,
        Figure(9226289, 66884),
    )) by (nonlinear_arith);
}

#[verifier::spinoff_prover]
proof fn lemma_bt709_spanned()
    ensures
        bt709_figures().spanned(),
{
    reveal(Figures::spanned);
    assert(minor_fits(
        Figure(71516868, 22994), Figure(95053221, 17844), Figure(7219232, 1370),
        Figure(11919478, 3898), Figure(67118592, 35068),
    )) by (nonlinear_arith);
    assert(minor_fits(
        Figure(21263901, 9328), Figure(95053221, 17844), Figure(7219232, 1370),
        Figure(1933082, 893), Figure(20072469, 12754),
    )) by (nonlinear_arith);
    assert(minor_fits(
        Figure(21263901, 9328), Figure(11919478, 3898), Figure(71516868, 22994),
        Figure(1933082, 893), Figure(1152066, 3025),
    )) by (nonlinear_arith);
    assert(three_fit(
        Figure(41239081, 18086), Figure(35758434, 11532), Figure(18048080, 3420),
        Figure(67118592, 35068), Figure(20072469, 12754), Figure(1152066, 3025), -1,
        Figure(20709416, 34070),
    )) by (nonlinear_arith);
}

#[verifier::spinoff_prover]
proof fn lemma_bt709_points()
    ensures
        bt709_figures().places(
            columns(
                tristimulus(Chromaticity::at(6400, 3300)),
                tristimulus(Chromaticity::at(3000, 6000)),
                tristimulus(Chromaticity::at(1500, 600)),
            ),
            tristimulus(Chromaticity::at(3127, 3290)),
        ),
{
    assert(point_fits(
        6400, 3300, Figure(193939394, 61), Figure(9090909, 122),
    )) by (nonlinear_arith);
    lemma_at_point(6400, 3300, Figure(193939394, 61), Figure(9090909, 122));
    assert(point_fits(3000, 6000, Figure(50000000, 34), Figure(16666667, 67))) by (nonlinear_arith);
    lemma_at_point(3000, 6000, Figure(50000000, 34), Figure(16666667, 67));
    assert(point_fits(
        1500, 600, Figure(250000000, 334), Figure(1316666667, 667),
    )) by (nonlinear_arith);
    lemma_at_point(1500, 600, Figure(250000000, 334), Figure(1316666667, 667));
    assert(point_fits(
        3127, 3290, Figure(95045593, 62), Figure(108905775, 122),
    )) by (nonlinear_arith);
    lemma_at_point(3127, 3290, Figure(95045593, 62), Figure(108905775, 122));
    let m = columns(
        tristimulus(Chromaticity::at(6400, 3300)),
        tristimulus(Chromaticity::at(3000, 6000)),
        tristimulus(Chromaticity::at(1500, 600)),
    );
    assert forall|n: int| 0 <= n < 9 implies (#[trigger] m[n]).finite() by {
        assert(n == 0 || n == 1 || n == 2 || n == 3 || n == 4 || n == 5 || n == 6 || n == 7 || n
            == 8);
    }
}

/// The figures of BT.2020.
pub open spec fn bt2020_figures() -> Figures {
    Figures {
        a: Figure(242465753, 69),
        b: Figure(21329987, 26),
        c: Figure(284782609, 436),
        d: Figure(0, 137),
        e: Figure(4140527, 51),
        f: Figure(1789130435, 870),
        wx: Figure(95045593, 62),
        wz: Figure(108905775, 122),
        n0: Figure(1784989908, 921),
        n1: Figure(-369829788, 815),
        n2: Figure(-263452622, 462),
        n3: Figure(-1789130435, 1007),
        n4: Figure(4338028581, 3735),
        n5: Figure(42316856, 505),
        n6: Figure(4140527, 188),
        n7: Figure(-10039360, 156),
        n8: Figure(221135766, 95),
        turned: Figure(1789130435, 1007),
        det: Figure(3958159433, 4699),
        t0: Figure(1039809335, 3622),
        t1: Figure(2683624449, 6404),
        t2: Figure(234725648, 711),
        s0: Figure(26270022, 9224),
        s1: Figure(67799807, 22843),
        s2: Figure(5930172, 1326),
        x0: Figure(63695807, 22404),
        x1: Figure(14461690, 4911),
        x2: Figure(16888099, 3823),
        x3: Figure(26270022, 9244),
        x4: Figure(67799807, 22863),
        x5: Figure(5930172, 1346),
        x6: Figure(0, 57),
        x7: Figure(2807269, 1001),
        x8: Figure(106098512, 23796),
        l0: Figure(41203640, 33588),
        l1: Figure(52391191, 36344),
        l2: Figure(6405499, 26188),
        l3: Figure(16666022, 33573),
        l4: Figure(72039521, 44773),
        l5: Figure(11294613, 27038),
        l6: Figure(2411236, 19987),
        l7: Figure(7547496, 21187),
        l8: Figure(90040799, 43220),
        k0: Figure(64012500, 75909),
        k1: Figure(14733880, 40363),
        k2: Figure(-479176, 21560),
        end: Figure(18625531, 80832),
        j0: Figure(71768110, 40495),
        j1: Figure(27872102, 16065),
        j2: Figure(737470, 562),
        span: Figure(41807045, 45699),
    }
}

#[verifier::spinoff_prover]
proof fn lemma_bt2020_weighed()
    ensures
        bt2020_figures().weighed(),
{
    reveal(Figures::weighed);
    assert(minor_fits(
        Figure(100000000, 0), Figure(1789130435, 870), Figure(100000000, 0), Figure(4140527, 51),
        Figure(1784989908, 921),
    )) by (nonlinear_arith);
    assert(minor_fits(
        Figure(284782609, 436), Figure(4140527, 51), Figure(21329987, 26),
        Figure(1789130435, 870), Figure(-369829788, 815),
    )) by (nonlinear_arith);
    assert(minor_fits(
        Figure(21329987, 26), Figure(100000000, 0), Figure(284782609, 436), Figure(100000000, 0),
        Figure(-263452622, 462),
    )) by (nonlinear_arith);
    assert(minor_fits(
        Figure(100000000, 0), Figure(0, 137), Figure(100000000, 0), Figure(1789130435, 870),
        Figure(-1789130435, 1007),
    )) by (nonlinear_arith);
    assert(minor_fits(
        Figure(242465753, 69), Figure(1789130435, 870), Figure(284782609, 436), Figure(0, 137),
        Figure(4338028581, 3735),
    )) by (nonlinear_arith);
    assert(minor_fits(
        Figure(284782609, 436), Figure(100000000, 0), Figure(242465753, 69),
        Figure(100000000, 0), Figure(42316856, 505),
    )) by (nonlinear_arith);
    assert(minor_fits(
        Figure(100000000, 0), Figure(4140527, 51), Figure(100000000, 0), Figure(0, 137),
        Figure(4140527, 188),
    )) by (nonlinear_arith);
    assert(minor_fits(
        Figure(21329987, 26), Figure(0, 137), Figure(242465753, 69), Figure(4140527, 51),
        Figure(-10039360, 156),
    )) by (nonlinear_arith);
    assert(minor_fits(
        Figure(242465753, 69), Figure(100000000, 0), Figure(21329987, 26), Figure(100000000, 0),
        Figure(221135766, 95),
    )) by (nonlinear_arith);
    assert(minor_fits(
        Figure(100000000, 0), Figure(1789130435, 870), Figure(100000000, 0), Figure(0, 137),
        Figure(1789130435, 1007),
    )) by (nonlinear_arith);
    assert(three_fit(
        Figure(242465753, 69), Figure(21329987, 26), Figure(284782609, 436),
        Figure(1784989908, 921), Figure(1789130435, 1007), Figure(4140527, 188), -1,
        Figure(3958159433, 4699),
    )) by (nonlinear_arith);
    assert(three_fit(
        Figure(1784989908, 921), Figure(-369829788, 815), Figure(-263452622, 462),
        Figure(95045593, 62), Figure(100000000, 0), Figure(108905775, 122), 1,
        Figure(1039809335, 3622),
    )) by (nonlinear_arith);
    assert(three_fit(
        Figure(-1789130435, 1007), Figure(4338028581, 3735), Figure(42316856, 505),
        Figure(95045593, 62), Figure(100000000, 0), Figure(108905775, 122), 1,
        Figure(2683624449, 6404),
    )) by (nonlinear_arith);
    assert(three_fit(
        Figure(4140527, 188), Figure(-10039360, 156), Figure(221135766, 95),
        Figure(95045593, 62), Figure(100000000, 0), Figure(108905775, 122), 1,
        Figure(234725648, 711),
    )) by (nonlinear_arith);
    assert(quotient_fits(
        Figure(1039809335, 3622), Figure(3958159433, 4699), Figure(26270022, 124),
    )) by (nonlinear_arith);
    assert(quotient_fits(
        Figure(2683624449, 6404), Figure(3958159433, 4699), Figure(67799807, 243),
    )) by (nonlinear_arith);
    assert(quotient_fits(
        Figure(234725648, 711), Figure(3958159433, 4699), Figure(5930172, 26),
    )) by (nonlinear_arith);
}

#[verifier::spinoff_prover]
proof fn lemma_bt2020_scaled()
    ensures
        bt2020_figures().scaled(),
{
    reveal(Figures::scaled);
    assert(rounded_fits(
        Figure(242465753, 69), Figure(26270022, 9224), Figure(63695807, 22404),
    )) by (nonlinear_arith);
    assert(rounded_fits(
        Figure(21329987, 26), Figure(67799807, 22843), Figure(14461690, 4911),
    )) by (nonlinear_arith);
    assert(rounded_fits(
        Figure(284782609, 436), Figure(5930172, 1326), Figure(16888099, 3823),
    )) by (nonlinear_arith);
    assert(rounded_fits(
        Figure(100000000, 0), Figure(26270022, 9224), Figure(26270022, 9244),
    )) by (nonlinear_arith);
    assert(rounded_fits(
        Figure(100000000, 0), Figure(67799807, 22843), Figure(67799807, 22863),
    )) by (nonlinear_arith);
    assert(rounded_fits(
        Figure(100000000, 0), Figure(5930172, 1326), Figure(5930172, 1346),
    )) by (nonlinear_arith);
    assert(rounded_fits(
        Figure(0, 137), Figure(26270022, 9224), Figure(0, 57),
    )) by (nonlinear_arith);
    assert(rounded_fits(
        Figure(4140527, 51), Figure(67799807, 22843), Figure(2807269, 1001),
    )) by (nonlinear_arith);
    assert(rounded_fits(
        Figure(1789130435, 870), Figure(5930172, 1326), Figure(106098512, 23796),
    )) by (nonlinear_arith);
}

#[verifier::spinoff_prover]
proof fn lemma_bt2020_seen()
    ensures
        bt2020_figures().seen(),
{
    reveal(Figures::seen);
    assert(three_fit(
        Figure(35916880, 10100), Figure(69760480, 10100), Figure(-3578840, 10100),
        Figure(63695807, 22404), Figure(26270022, 9244), Figure(0, 57), 1,
        Figure(41203640, 23588),
    )) by (nonlinear_arith);
    assert(three_fit(
        Figure(35916880, 10100), Figure(69760480, 10100), Figure(-3578840, 10100),
        Figure(14461690, 4911), Figure(67799807, 22863), Figure(2807269, 1001), 1,
        Figure(52391191, 26344),
    )) by (nonlinear_arith);
    assert(three_fit(
        Figure(35916880, 10100), Figure(69760480, 10100), Figure(-3578840, 10100),
        Figure(16888099, 3823), Figure(5930172, 1346), Figure(106098512, 23796), 1,
        Figure(6405499, 16188),
    )) by (nonlinear_arith);
    assert(three_fit(
        Figure(-19218640, 10100), Figure(110039840, 10100), Figure(7554040, 10100),
        Figure(63695807, 22404), Figure(26270022, 9244), Figure(0, 57), 1,
        Figure(16666022, 23573),
    )) by (nonlinear_arith);
    assert(three_fit(
        Figure(-19218640, 10100), Figure(110039840, 10100), Figure(7554040, 10100),
        Figure(14461690, 4911), Figure(67799807, 22863), Figure(2807269, 1001), 1,
        Figure(72039521, 34773),
    )) by (nonlinear_arith);
    assert(three_fit(
        Figure(-19218640, 10100), Figure(110039840, 10100), Figure(7554040, 10100),
        Figure(16888099, 3823), Figure(5930172, 1346), Figure(106098512, 23796), 1,
        Figure(11294613, 17038),
    )) by (nonlinear_arith);
    assert(three_fit(
        Figure(695760, 10100), Figure(7491680, 10100), Figure(84335800, 10100),
        Figure(63695807, 22404), Figure(26270022, 9244), Figure(0, 57), 1, Figure(2411236, 9987),
    )) by (nonlinear_arith);
    assert(three_fit(
        Figure(695760, 10100), Figure(7491680, 10100), Figure(84335800, 10100),
        Figure(14461690, 4911), Figure(67799807, 22863), Figure(2807269, 1001), 1,
        Figure(7547496, 11187),
    )) by (nonlinear_arith);
    assert(three_fit(
        Figure(695760, 10100), Figure(7491680, 10100), Figure(84335800, 10100),
        Figure(16888099, 3823), Figure(5930172, 1346), Figure(106098512, 23796), 1,
        Figure(90040799, 33220),
    )) by (nonlinear_arith);
    assert(minor_fits(
        Figure(72039521, 44773), Figure(90040799, 43220), Figure(11294613, 27038),
        Figure(7547496, 21187), Figure(64012500, 75909),
    )) by (nonlinear_arith);
    assert(minor_fits(
        Figure(16666022, 33573), Figure(90040799, 43220), Figure(11294613, 27038),
        Figure(2411236, 19987), Figure(14733880, 40363),
    )) by (nonlinear_arith);
    assert(minor_fits(
        Figure(16666022, 33573), Figure(7547496, 21187), Figure(72039521, 44773),
        Figure(2411236, 19987), Figure(-479176, 21560),
    )) by (nonlinear_arith);
    assert(three_fit(
        Figure(41203640, 33588), Figure(52391191, 36344), Figure(6405499, 26188),
        Figure(64012500, 75909), Figure(14733880, 40363), Figure(-479176, 21560), -1,
        Figure(18625531, 80832),
    )) by (nonlinear_arith);
}

#[verifier::spinoff_prover]
proof fn lemma_bt2020_spanned()
    ensures
        bt2020_figures().spanned(),
{
    reveal(Figures::spanned);
    assert(minor_fits(
        Figure(67799807, 22863), Figure(106098512, 23796), Figure(5930172, 1346),
        Figure(2807269, 1001), Figure(71768110, 40495),
    )) by (nonlinear_arith);
    assert(minor_fits(
        Figure(26270022, 9244), Figure(106098512, 23796), Figure(5930172, 1346), Figure(0, 57),
        Figure(27872102, 16065),
    )) by (nonlinear_arith);
    assert(minor_fits(
        Figure(26270022, 9244), Figure(2807269, 1001), Figure(67799807, 22863), Figure(0, 57),
        Figure(737470, 562),
    )) by (nonlinear_arith);
    assert(three_fit(
        Figure(63695807, 22404), Figure(14461690, 4911), Figure(16888099, 3823),
        Figure(71768110, 40495), Figure(27872102, 16065), Figure(737470, 562), -1,
        Figure(41807045, 45699),
    )) by (nonlinear_arith);
}

#[verifier::spinoff_prover]
proof fn lemma_bt2020_points()
    ensures
        bt2020_figures().places(
            columns(
                tristimulus(Chromaticity::at(7080, 2920)),
                tristimulus(Chromaticity::at(1700, 7970)),
                tristimulus(Chromaticity::at(1310, 460)),
            ),
            tristimulus(Chromaticity::at(3127, 3290)),
        ),
{
    assert(point_fits(7080, 2920, Figure(242465753, 69), Figure(0, 137))) by (nonlinear_arith);
    lemma_at_point(7080, 2920, Figure(242465753, 69), Figure(0, 137));
    assert(point_fits(1700, 7970, Figure(21329987, 26), Figure(4140527, 51))) by (nonlinear_arith);
    lemma_at_point(1700, 7970, Figure(21329987, 26), Figure(4140527, 51));
    assert(point_fits(
        1310, 460, Figure(284782609, 436), Figure(1789130435, 870),
    )) by (nonlinear_arith);
    lemma_at_point(1310, 460, Figure(284782609, 436), Figure(1789130435, 870));
    assert(point_fits(
        3127, 3290, Figure(95045593, 62), Figure(108905775, 122),
    )) by (nonlinear_arith);
    lemma_at_point(3127, 3290, Figure(95045593, 62), Figure(108905775, 122));
    let m = columns(
        tristimulus(Chromaticity::at(7080, 2920)),
        tristimulus(Chromaticity::at(1700, 7970)),
        tristimulus(Chromaticity::at(1310, 460)),
    );
    assert forall|n: int| 0 <= n < 9 implies (#[trigger] m[n]).finite() by {
        assert(n == 0 || n == 1 || n == 2 || n == 3 || n == 4 || n == 5 || n == 6 || n == 7 || n
            == 8);
    }
}

/// The figures of Display P3.
pub open spec fn p3_figures() -> Figures {
    Figures {
        a: Figure(212500000, 63),
        b: Figure(38405797, 30),
        c: Figure(250000000, 334),
        d: Figure(0, 125),
        e: Figure(6521739, 59),
        f: Figure(1316666667, 667),
        wx: Figure(95045593, 62),
        wz: Figure(108905775, 122),
        n0: Figure(1310144928, 726),
        n1: Figure(-489371980, 821),
        n2: Figure(-211594203, 364),
        n3: Figure(-1316666667, 792),
        n4: Figure(2797916667, 2560),
        n5: Figure(37500000, 397),
        n6: Figure(6521739, 184),
        n7: Figure(-13858695, 178),
        n8: Figure(174094203, 93),
        turned: Figure(1316666667, 792),
        det: Figure(2294685992, 3550),
        t0: Figure(525424729, 2979),
        t1: Figure(1587322691, 4608),
        t2: Figure(181938572, 672),
        s0: Figure(22897457, 9266),
        s1: Figure(69173852, 22908),
        s2: Figure(7928691, 1342),
        x0: Figure(48657096, 19725),
        x1: Figure(26566769, 8839),
        x2: Figure(19821728, 3402),
        x3: Figure(22897457, 9286),
        x4: Figure(69173852, 22928),
        x5: Figure(7928691, 1362),
        x6: Figure(0, 49),
        x7: Figure(4511338, 1555),
        x8: Figure(104394432, 17744),
        l0: Figure(33449487, 30795),
        l1: Figure(57636512, 39355),
        l2: Figure(8914329, 26157),
        l3: Figure(15845093, 31243),
        l4: Figure(71353813, 47176),
        l5: Figure(12801249, 26843),
        l6: Figure(2053941, 18105),
        l7: Figure(9171798, 23220),
        l8: Figure(88773783, 38440),
        k0: Figure(62169374, 74768),
        k1: Figure(13803358, 36713),
        k2: Figure(-12285, 20449),
        end: Figure(12838467, 72617),
        j0: Figure(71855960, 36399),
        j1: Figure(23903670, 13763),
        j2: Figure(1032982, 810),
        span: Figure(28817346, 37859),
    }
}

#[verifier::spinoff_prover]
proof fn lemma_p3_weighed()
    ensures
        p3_figures().weighed(),
{
    reveal(Figures::weighed);
    assert(minor_fits(
        Figure(100000000, 0), Figure(1316666667, 667), Figure(100000000, 0), Figure(6521739, 59),
        Figure(1310144928, 726),
    )) by (nonlinear_arith);
    assert(minor_fits(
        Figure(250000000, 334), Figure(6521739, 59), Figure(38405797, 30),
        Figure(1316666667, 667), Figure(-489371980, 821),
    )) by (nonlinear_arith);
    assert(minor_fits(
        Figure(38405797, 30), Figure(100000000, 0), Figure(250000000, 334), Figure(100000000, 0),
        Figure(-211594203, 364),
    )) by (nonlinear_arith);
    assert(minor_fits(
        Figure(100000000, 0), Figure(0, 125), Figure(100000000, 0), Figure(1316666667, 667),
        Figure(-1316666667, 792),
    )) by (nonlinear_arith);
    assert(minor_fits(
        Figure(212500000, 63), Figure(1316666667, 667), Figure(250000000, 334), Figure(0, 125),
        Figure(2797916667, 2560),
    )) by (nonlinear_arith);
    assert(minor_fits(
        Figure(250000000, 334), Figure(100000000, 0), Figure(212500000, 63),
        Figure(100000000, 0), Figure(37500000, 397),
    )) by (nonlinear_arith);
    assert(minor_fits(
        Figure(100000000, 0), Figure(6521739, 59), Figure(100000000, 0), Figure(0, 125),
        Figure(6521739, 184),
    )) by (nonlinear_arith);
    assert(minor_fits(
        Figure(38405797, 30), Figure(0, 125), Figure(212500000, 63), Figure(6521739, 59),
        Figure(-13858695, 178),
    )) by (nonlinear_arith);
    assert(minor_fits(
        Figure(212500000, 63), Figure(100000000, 0), Figure(38405797, 30), Figure(100000000, 0),
        Figure(174094203, 93),
    )) by (nonlinear_arith);
    assert(minor_fits(
        Figure(100000000, 0), Figure(1316666667, 667), Figure(100000000, 0), Figure(0, 125),
        Figure(1316666667, 792),
    )) by (nonlinear_arith);
    assert(three_fit(
        Figure(212500000, 63), Figure(38405797, 30), Figure(250000000, 334),
        Figure(1310144928, 726), Figure(1316666667, 792), Figure(6521739, 184), -1,
        Figure(2294685992, 3550),
    )) by (nonlinear_arith);
    assert(three_fit(
        Figure(1310144928, 726), Figure(-489371980, 821), Figure(-211594203, 364),
        Figure(95045593, 62), Figure(100000000, 0), Figure(108905775, 122), 1,
        Figure(525424729, 2979),
    )) by (nonlinear_arith);
    assert(three_fit(
        Figure(-1316666667, 792), Figure(2797916667, 2560), Figure(37500000, 397),
        Figure(95045593, 62), Figure(100000000, 0), Figure(108905775, 122), 1,
        Figure(1587322691, 4608),
    )) by (nonlinear_arith);
    assert(three_fit(
        Figure(6521739, 184), Figure(-13858695, 178), Figure(174094203, 93),
        Figure(95045593, 62), Figure(100000000, 0), Figure(108905775, 122), 1,
        Figure(181938572, 672),
    )) by (nonlinear_arith);
    assert(quotient_fits(
        Figure(525424729, 2979), Figure(2294685992, 3550), Figure(22897457, 166),
    )) by (nonlinear_arith);
    assert(quotient_fits(
        Figure(1587322691, 4608), Figure(2294685992, 3550), Figure(69173852, 308),
    )) by (nonlinear_arith);
    assert(quotient_fits(
        Figure(181938572, 672), Figure(2294685992, 3550), Figure(7928691, 42),
    )) by (nonlinear_arith);
}

#[verifier::spinoff_prover]
proof fn lemma_p3_scaled()
    ensures
        p3_figures().scaled(),
{
    reveal(Figures::scaled);
    assert(rounded_fits(
        Figure(212500000, 63), Figure(22897457, 9266), Figure(48657096, 19725),
    )) by (nonlinear_arith);
    assert(rounded_fits(
        Figure(38405797, 30), Figure(69173852, 22908), Figure(26566769, 8839),
    )) by (nonlinear_arith);
    assert(rounded_fits(
        Figure(250000000, 334), Figure(7928691, 1342), Figure(19821728, 3402),
    )) by (nonlinear_arith);
    assert(rounded_fits(
        Figure(100000000, 0), Figure(22897457, 9266), Figure(22897457, 9286),
    )) by (nonlinear_arith);
    assert(rounded_fits(
        Figure(100000000, 0), Figure(69173852, 22908), Figure(69173852, 22928),
    )) by (nonlinear_arith);
    assert(rounded_fits(
        Figure(100000000, 0), Figure(7928691, 1342), Figure(7928691, 1362),
    )) by (nonlinear_arith);
    assert(rounded_fits(
        Figure(0, 125), Figure(22897457, 9266), Figure(0, 49),
    )) by (nonlinear_arith);
    assert(rounded_fits(
        Figure(6521739, 59), Figure(69173852, 22908), Figure(4511338, 1555),
    )) by (nonlinear_arith);
    assert(rounded_fits(
        Figure(1316666667, 667), Figure(7928691, 1342), Figure(104394432, 17744),
    )) by (nonlinear_arith);
}

#[verifier::spinoff_prover]
proof fn lemma_p3_seen()
    ensures
        p3_figures().seen(),
{
    reveal(Figures::seen);
    assert(three_fit(
        Figure(35916880, 10100), Figure(69760480, 10100), Figure(-3578840, 10100),
        Figure(48657096, 19725), Figure(22897457, 9286), Figure(0, 49), 1,
        Figure(33449487, 20795),
    )) by (nonlinear_arith);
    assert(three_fit(
        Figure(35916880, 10100), Figure(69760480, 10100), Figure(-3578840, 10100),
        Figure(26566769, 8839), Figure(69173852, 22928), Figure(4511338, 1555), 1,
        Figure(57636512, 29355),
    )) by (nonlinear_arith);
    assert(three_fit(
        Figure(35916880, 10100), Figure(69760480, 10100), Figure(-3578840, 10100),
        Figure(19821728, 3402), Figure(7928691, 1362), Figure(104394432, 17744), 1,
        Figure(8914329, 16157),
    )) by (nonlinear_arith);
    assert(three_fit(
        Figure(-19218640, 10100), Figure(110039840, 10100), Figure(7554040, 10100),
        Figure(48657096, 19725), Figure(22897457, 9286), Figure(0, 49), 1,
        Figure(15845093, 21243),
    )) by (nonlinear_arith);
    assert(three_fit(
        Figure(-19218640, 10100), Figure(110039840, 10100), Figure(7554040, 10100),
        Figure(26566769, 8839), Figure(69173852, 22928), Figure(4511338, 1555), 1,
        Figure(71353813, 37176),
    )) by (nonlinear_arith);
    assert(three_fit(
        Figure(-19218640, 10100), Figure(110039840, 10100), Figure(7554040, 10100),
        Figure(19821728, 3402), Figure(7928691, 1362), Figure(104394432, 17744), 1,
        Figure(12801249, 16843),
    )) by (nonlinear_arith);
    assert(three_fit(
        Figure(695760, 10100), Figure(7491680, 10100), Figure(84335800, 10100),
        Figure(48657096, 19725), Figure(22897457, 9286), Figure(0, 49), 1, Figure(2053941, 8105),
    )) by (nonlinear_arith);
    assert(three_fit(
        Figure(695760, 10100), Figure(7491680, 10100), Figure(84335800, 10100),
        Figure(26566769, 8839), Figure(69173852, 22928), Figure(4511338, 1555), 1,
        Figure(9171798, 13220),
    )) by (nonlinear_arith);
    assert(three_fit(
        Figure(695760, 10100), Figure(7491680, 10100), Figure(84335800, 10100),
        Figure(19821728, 3402), Figure(7928691, 1362), Figure(104394432, 17744), 1,
        Figure(88773783, 28440),
    )) by (nonlinear_arith);
    assert(minor_fits(
        Figure(71353813, 47176), Figure(88773783, 38440), Figure(12801249, 26843),
        Figure(9171798, 23220), Figure(62169374, 74768),
    )) by (nonlinear_arith);
    assert(minor_fits(
        Figure(15845093, 31243), Figure(88773783, 38440), Figure(12801249, 26843),
        Figure(2053941, 18105), Figure(13803358, 36713),
    )) by (nonlinear_arith);
    assert(minor_fits(
        Figure(15845093, 31243), Figure(9171798, 23220), Figure(71353813, 47176),
        Figure(2053941, 18105), Figure(-12285, 20449),
    )) by (nonlinear_arith);
    assert(three_fit(
        Figure(33449487, 30795), Figure(57636512, 39355), Figure(8914329, 26157),
        Figure(62169374, 74768), Figure(13803358, 36713), Figure(-12285, 20449), -1,
        Figure(12838467, 72617),
    )) by (nonlinear_arith);
}

#[verifier::spinoff_prover]
proof fn lemma_p3_spanned()
    ensures
        p3_figures().spanned(),
{
    reveal(Figures::spanned);
    assert(minor_fits(
        Figure(69173852, 22928), Figure(104394432, 17744), Figure(7928691, 1362),
        Figure(4511338, 1555), Figure(71855960, 36399),
    )) by (nonlinear_arith);
    assert(minor_fits(
        Figure(22897457, 9286), Figure(104394432, 17744), Figure(7928691, 1362), Figure(0, 49),
        Figure(23903670, 13763),
    )) by (nonlinear_arith);
    assert(minor_fits(
        Figure(22897457, 9286), Figure(4511338, 1555), Figure(69173852, 22928), Figure(0, 49),
        Figure(1032982, 810),
    )) by (nonlinear_arith);
    assert(three_fit(
        Figure(48657096, 19725), Figure(26566769, 8839), Figure(19821728, 3402),
        Figure(71855960, 36399), Figure(23903670, 13763), Figure(1032982, 810), -1,
        Figure(28817346, 37859),
    )) by (nonlinear_arith);
}

#[verifier::spinoff_prover]
proof fn lemma_p3_points()
    ensures
        p3_figures().places(
            columns(
                tristimulus(Chromaticity::at(6800, 3200)),
                tristimulus(Chromaticity::at(2650, 6900)),
                tristimulus(Chromaticity::at(1500, 600)),
            ),
            tristimulus(Chromaticity::at(3127, 3290)),
        ),
{
    assert(point_fits(6800, 3200, Figure(212500000, 63), Figure(0, 125))) by (nonlinear_arith);
    lemma_at_point(6800, 3200, Figure(212500000, 63), Figure(0, 125));
    assert(point_fits(2650, 6900, Figure(38405797, 30), Figure(6521739, 59))) by (nonlinear_arith);
    lemma_at_point(2650, 6900, Figure(38405797, 30), Figure(6521739, 59));
    assert(point_fits(
        1500, 600, Figure(250000000, 334), Figure(1316666667, 667),
    )) by (nonlinear_arith);
    lemma_at_point(1500, 600, Figure(250000000, 334), Figure(1316666667, 667));
    assert(point_fits(
        3127, 3290, Figure(95045593, 62), Figure(108905775, 122),
    )) by (nonlinear_arith);
    lemma_at_point(3127, 3290, Figure(95045593, 62), Figure(108905775, 122));
    let m = columns(
        tristimulus(Chromaticity::at(6800, 3200)),
        tristimulus(Chromaticity::at(2650, 6900)),
        tristimulus(Chromaticity::at(1500, 600)),
    );
    assert forall|n: int| 0 <= n < 9 implies (#[trigger] m[n]).finite() by {
        assert(n == 0 || n == 1 || n == 2 || n == 3 || n == 4 || n == 5 || n == 6 || n == 7 || n
            == 8);
    }
}

/// The figures of the known primaries.
#[verifier::opaque]
pub open spec fn figures_of(primaries: ColorPrimaries) -> Figures {
    match resolved_primaries(primaries) {
        ColorPrimaries::Bt2020 => bt2020_figures(),
        ColorPrimaries::DisplayP3 => p3_figures(),
        _ => bt709_figures(),
    }
}

/// The figures of the known primaries are those of their matrices.
#[verifier::spinoff_prover]
proof fn lemma_figures(primaries: ColorPrimaries)
    ensures
        ({
            let n = figures_of(primaries);
            &&& n.seen()
            &&& n.scaled()
            &&& n.spanned()
            &&& n.scales(rgb_to_xyz(primaries))
            &&& n.sees(rgb_to_cones(primaries))
        }),
{
    reveal(figures_of);
    let n = figures_of(primaries);
    let c = coordinates_of(primaries);
    let m = columns(tristimulus(c.red), tristimulus(c.green), tristimulus(c.blue));
    let w = tristimulus(c.white);
    match resolved_primaries(primaries) {
        ColorPrimaries::Bt2020 => {
            lemma_bt2020_points();
            lemma_bt2020_weighed();
            lemma_bt2020_scaled();
            lemma_bt2020_seen();
            lemma_bt2020_spanned();
        },
        ColorPrimaries::DisplayP3 => {
            lemma_p3_points();
            lemma_p3_weighed();
            lemma_p3_scaled();
            lemma_p3_seen();
            lemma_p3_spanned();
        },
        _ => {
            lemma_bt709_points();
            lemma_bt709_weighed();
            lemma_bt709_scaled();
            lemma_bt709_seen();
            lemma_bt709_spanned();
        },
    }
    lemma_weights(m, w, n);
    lemma_scaled(m, w, applied(inverted(m), w), n);
    lemma_cones();
    lemma_seen(multiplied(crosstalk_cells(), cone_cells()), rgb_to_xyz(primaries), n);
}

/// The way back from the cone responses of a set of primaries undoes the way
/// there, whichever comes first.
pub proof fn law_cone_responses_lead_back(primaries: ColorPrimaries, row: int, column: int)
    requires
        0 <= row < 3,
        0 <= column < 3,
    ensures
        ({
            let there = rgb_to_cones(primaries);
            let back = inverted(there);
            &&& 100 as real * size_of(row_by_column(back, there, row, column) - unit(row, column))
                <= 1 as real
            &&& 100 as real * size_of(row_by_column(there, back, row, column) - unit(row, column))
                <= 1 as real
        }),
{
    let l = rgb_to_cones(primaries);
    lemma_figures(primaries);
    lemma_cones_invertible(l, figures_of(primaries));
    law_the_inverse_undoes_a_matrix(l, 1 as real, 13, 1 as real / exact_det(l), row, column);
}

/// The matrix to XYZ can be undone.
#[verifier::spinoff_prover]
proof fn lemma_xyz_invertible(x: Seq<F32>, n: Figures)
    requires
        n.scales(x),
        n.spanned(),
    ensures
        ({
            let s = 11 as real / 10 as real;
            invertible(x, s, s, s, 7, 1 as real / exact_det(x))
        }),
        7 as real * exact_det(x) >= 1331 as real / 1000 as real,
{
    reveal(Figures::spanned);
    let s = 11 as real / 10 as real;
    let v0 = x[0].value();
    let v1 = x[1].value();
    let v2 = x[2].value();
    let v3 = x[3].value();
    let v4 = x[4].value();
    let v5 = x[5].value();
    let v6 = x[6].value();
    let v7 = x[7].value();
    let v8 = x[8].value();
    lemma_at_minor(v4, v8, v5, v7, n.x4, n.x8, n.x5, n.x7, n.j0);
    lemma_at_minor(v3, v8, v5, v6, n.x3, n.x8, n.x5, n.x6, n.j1);
    lemma_at_minor(v3, v7, v4, v6, n.x3, n.x7, n.x4, n.x6, n.j2);
    lemma_at_three(
        (v0, v1, v2),
        (crossed(x, 4, 8, 5, 7), crossed(x, 3, 8, 5, 6), crossed(x, 3, 7, 4, 6)),
        n.x0,
        n.x1,
        n.x2,
        n.j0,
        n.j1,
        n.j2,
        n.span,
    );
    let d = exact_det(x);
    assert(7 as real * d >= 1331 as real / 1000 as real && d <= 1 as real) by {
        reveal(at);
    }
    lemma_reciprocal(d);
    lemma_reciprocal_size(d, 1 as real / 7 as real, 1 as real);
    lemma_at_size(v0, n.x0, s);
    lemma_at_size(v1, n.x1, s);
    lemma_at_size(v2, n.x2, s);
    lemma_at_size(v3, n.x3, s);
    lemma_at_size(v4, n.x4, s);
    lemma_at_size(v5, n.x5, s);
    lemma_at_size(v6, n.x6, s);
    lemma_at_size(v7, n.x7, s);
    lemma_at_size(v8, n.x8, s);
    lemma_sizes_of_xyz(d);
}

proof fn lemma_sizes_of_xyz(d: real)
    requires
        7 as real * d >= 1331 as real / 1000 as real,
    ensures
        ({
            let s = 11 as real / 10 as real;
            two(s, two(s, s)) <= two(7 as real, size_of(d))
        }),
{
    let s = 11 as real / 10 as real;
    lemma_product_is(s, s);
    lemma_product_is(s, 121 as real / 100 as real);
    lemma_product_is(7 as real, size_of(d));
}

/// Equal parts of three primaries make white: the rows of the matrix to XYZ come
/// to the white point of unit luminance.
pub proof fn law_equal_parts_make_white(primaries: ColorPrimaries)
    ensures
        ({
            let x = rgb_to_xyz(primaries);
            let red = 3127 as real / 3290 as real;
            let blue = 3583 as real / 3290 as real;
            &&& 2000 as real * size_of(x[0].value() + x[1].value() + x[2].value() - red)
                <= 1 as real
            &&& 2000 as real * size_of(x[3].value() + x[4].value() + x[5].value() - 1 as real)
                <= 1 as real
            &&& 2000 as real * size_of(x[6].value() + x[7].value() + x[8].value() - blue)
                <= 1 as real
        }),
{
    lemma_figures(primaries);
    lemma_white(rgb_to_xyz(primaries), figures_of(primaries));
}

#[verifier::spinoff_prover]
proof fn lemma_white(x: Seq<F32>, n: Figures)
    requires
        n.scales(x),
        n.spanned(),
    ensures
        ({
            let red = 3127 as real / 3290 as real;
            let blue = 3583 as real / 3290 as real;
            &&& 2000 as real * size_of(x[0].value() + x[1].value() + x[2].value() - red)
                <= 1 as real
            &&& 2000 as real * size_of(x[3].value() + x[4].value() + x[5].value() - 1 as real)
                <= 1 as real
            &&& 2000 as real * size_of(x[6].value() + x[7].value() + x[8].value() - blue)
                <= 1 as real
        }),
{
    reveal(Figures::spanned);
    reveal(at);
}

/// A product of a number that was moved a little moves a little.
#[verifier::spinoff_prover]
proof fn lemma_moved(x: real, y: real, m: real, c: real, g: real, most: real)
    requires
        size_of(x - y) <= c,
        size_of(m) <= g,
        c * g <= most,
    ensures
        size_of(two(x, m) - two(y, m)) <= most,
        size_of(two(m, x) - two(m, y)) <= most,
{
    lemma_product_is(x, m);
    lemma_product_is(y, m);
    lemma_product_is(m, x);
    lemma_product_is(m, y);
    let d = x - y;
    assert(x * m - y * m == d * m && m * x - m * y == d * m) by (nonlinear_arith)
        requires
            d == x - y,
    ;
    lemma_size_of_product(d, m);
    lemma_times(size_of(d), size_of(m), c, g);
}

/// The cells of an inverse are not large.
#[verifier::spinoff_prover]
proof fn lemma_inverse_cell(x: Seq<F32>, n: int)
    requires
        ({
            let s = 11 as real / 10 as real;
            invertible(x, s, s, s, 7, 1 as real / exact_det(x))
        }),
        7 as real * exact_det(x) >= 1331 as real / 1000 as real,
        0 <= n < 9,
    ensures
        inverted(x)[n].finite(),
        size_of(inverted(x)[n].value()) <= 16 as real,
{
    let s = 11 as real / 10 as real;
    let d = exact_det(x);
    let i = 1 as real / d;
    lemma_near_inverse(x, s, s, s, 7, i, n);
    lemma_reciprocal_size(d, 1331 as real / 7000 as real, d);
    let z = minor_size(s, s, s, n / 3);
    lemma_product_is(s, s);
    let size = two(z, size_of(i));
    lemma_product_is(z, size_of(i));
    lemma_cell_bound(z, size_of(i), size);
    lemma_near_size(inverted(x)[n], two(adjugate(x, n), i), size);
}

proof fn lemma_cell_bound(z: real, i: real, size: real)
    requires
        z == 242 as real / 100 as real,
        0 as real <= i,
        i * (1331 as real / 7000 as real) <= 1 as real,
        size == z * i,
    ensures
        size <= 13 as real,
{
    assert(size <= 13 as real) by (nonlinear_arith)
        requires
            z == 242 as real / 100 as real,
            i * (1331 as real / 7000 as real) <= 1 as real,
            size == z * i,
    ;
}

#[verifier::spinoff_prover]
proof fn lemma_near_size(x: F32, exact: real, size: real)
    requires
        near(x, exact, size, 431),
        size <= 13 as real,
    ensures
        x.finite(),
        size_of(x.value()) <= 16 as real,
{
    reveal(near);
    assert(431 as real * size <= 5603 as real);
    assert(size_of(x.value() - exact) <= 1 as real);
}

/// A sum of three products of numbers that are not large.
#[verifier::spinoff_prover]
proof fn lemma_wide_dot(a: F32, b: F32, c: F32, x: F32, y: F32, z: F32)
    requires
        a.finite() && b.finite() && c.finite() && x.finite() && y.finite() && z.finite(),
        size_of(a.value()) <= 16 as real,
        size_of(b.value()) <= 16 as real,
        size_of(c.value()) <= 16 as real,
        size_of(x.value()) <= 4 as real,
        size_of(y.value()) <= 4 as real,
        size_of(z.value()) <= 4 as real,
    ensures
        dot(a, b, c, x, y, z).finite(),
        10_000 as real * size_of(
            dot(a, b, c, x, y, z).value() - (two(a.value(), x.value()) + two(b.value(), y.value())
                + two(c.value(), z.value())),
        ) <= 1 as real,
{
    let wide = 16 as real;
    let four = 4 as real;
    lemma_product_is(wide, four);
    let size = 64 as real;
    lemma_itself(a, wide);
    lemma_itself(b, wide);
    lemma_itself(c, wide);
    lemma_itself(x, four);
    lemma_itself(y, four);
    lemma_itself(z, four);
    lemma_near_product(a, x, a.value(), x.value(), wide, four, 0, 0);
    lemma_near_product(b, y, b.value(), y.value(), wide, four, 0, 0);
    lemma_near_product(c, z, c.value(), z.value(), wide, four, 0, 0);
    let e0 = two(a.value(), x.value());
    let e1 = two(b.value(), y.value());
    let e2 = two(c.value(), z.value());
    lemma_near_sum(product(a, x), product(b, y), e0, e1, size, size, 2);
    lemma_nearer(product(c, z), e2, size, 2, size, 4);
    lemma_near_sum(
        sum(product(a, x), product(b, y)),
        product(c, z),
        e0 + e1,
        e2,
        size + size,
        size,
        4,
    );
    lemma_six_off(dot(a, b, c, x, y, z), e0 + e1 + e2, size + size + size);
}

#[verifier::spinoff_prover]
proof fn lemma_six_off(x: F32, exact: real, size: real)
    requires
        near(x, exact, size, 6),
        size == 192 as real,
    ensures
        x.finite(),
        10_000 as real * size_of(x.value() - exact) <= 1 as real,
{
    reveal(near);
}

/// Rows of a product of three, either way of grouping.
#[verifier::spinoff_prover]
proof fn lemma_grouped(
    t: (real, real, real),
    p: (real, real, real),
    q: (real, real, real),
    r: (real, real, real),
    x: (real, real, real),
)
    ensures
        two(t.0, two(p.0, x.0) + two(p.1, x.1) + two(p.2, x.2)) + two(
            t.1,
            two(q.0, x.0) + two(q.1, x.1) + two(q.2, x.2),
        ) + two(t.2, two(r.0, x.0) + two(r.1, x.1) + two(r.2, x.2)) == two(
            two(t.0, p.0) + two(t.1, q.0) + two(t.2, r.0),
            x.0,
        ) + two(two(t.0, p.1) + two(t.1, q.1) + two(t.2, r.1), x.1) + two(
            two(t.0, p.2) + two(t.1, q.2) + two(t.2, r.2),
            x.2,
        ),
{
    lemma_spread(t.0, p, x);
    lemma_spread(t.1, q, x);
    lemma_spread(t.2, r, x);
    lemma_gathered(two(t.0, p.0), two(t.1, q.0), two(t.2, r.0), x.0);
    lemma_gathered(two(t.0, p.1), two(t.1, q.1), two(t.2, r.1), x.1);
    lemma_gathered(two(t.0, p.2), two(t.1, q.2), two(t.2, r.2), x.2);
}

#[verifier::spinoff_prover]
proof fn lemma_spread(t: real, p: (real, real, real), x: (real, real, real))
    ensures
        two(t, two(p.0, x.0) + two(p.1, x.1) + two(p.2, x.2)) == two(two(t, p.0), x.0) + two(
            two(t, p.1),
            x.1,
        ) + two(two(t, p.2), x.2),
{
    lemma_common(t, two(p.0, x.0), two(p.1, x.1));
    lemma_common(t, two(p.0, x.0) + two(p.1, x.1), two(p.2, x.2));
    lemma_regroup(t, p.0, x.0);
    lemma_regroup(t, p.1, x.1);
    lemma_regroup(t, p.2, x.2);
}

#[verifier::spinoff_prover]
proof fn lemma_gathered(a: real, b: real, c: real, x: real)
    ensures
        two(a + b + c, x) == two(a, x) + two(b, x) + two(c, x),
{
    lemma_common(x, a, b);
    lemma_common(x, a + b, c);
}

/// A row that is nearly one of the unit rows picks a number out of three.
#[verifier::spinoff_prover]
proof fn lemma_picked(p: (real, real, real), x: (real, real, real), row: int)
    requires
        0 <= row < 3,
        100 as real * size_of(p.0 - unit(row, 0)) <= 1 as real,
        100 as real * size_of(p.1 - unit(row, 1)) <= 1 as real,
        100 as real * size_of(p.2 - unit(row, 2)) <= 1 as real,
        size_of(x.0) <= 11 as real / 10 as real,
        size_of(x.1) <= 11 as real / 10 as real,
        size_of(x.2) <= 11 as real / 10 as real,
    ensures
        ({
            let picked = if row == 0 {
                x.0
            } else if row == 1 {
                x.1
            } else {
                x.2
            };
            size_of(two(p.0, x.0) + two(p.1, x.1) + two(p.2, x.2) - picked) <= 33 as real
                / 1000 as real
        }),
{
    let c = 1 as real / 100 as real;
    let g = 11 as real / 10 as real;
    let most = 11 as real / 1000 as real;
    lemma_moved(p.0, unit(row, 0), x.0, c, g, most);
    lemma_moved(p.1, unit(row, 1), x.1, c, g, most);
    lemma_moved(p.2, unit(row, 2), x.2, c, g, most);
    lemma_unit_times(x.0);
    lemma_unit_times(x.1);
    lemma_unit_times(x.2);
}

proof fn lemma_unit_times(x: real)
    ensures
        two(1 as real, x) == x,
        two(0 as real, x) == 0 as real,
        two(x, 1 as real) == x,
        two(x, 0 as real) == 0 as real,
{
    lemma_product_is(1 as real, x);
    lemma_product_is(0 as real, x);
    lemma_product_is(x, 1 as real);
    lemma_product_is(x, 0 as real);
}

/// A matrix times a rounded product with its inverse is the other matrix.
#[verifier::spinoff_prover]
proof fn lemma_through(t: Seq<F32>, x: Seq<F32>, row: int, column: int)
    requires
        ({
            let s = 11 as real / 10 as real;
            &&& invertible(t, s, s, s, 7, 1 as real / exact_det(t))
            &&& cells_within(t, s)
            &&& cells_within(x, s)
        }),
        7 as real * exact_det(t) >= 1331 as real / 1000 as real,
        0 <= row < 3,
        0 <= column < 3,
    ensures
        25 as real * size_of(
            row_by_column(t, multiplied(inverted(t), x), row, column) - x[3 * row
                + column].value(),
        ) <= 1 as real,
{
    let s = 11 as real / 10 as real;
    let v = inverted(t);
    let b = multiplied(v, x);
    lemma_inverse_cell(t, 0);
    lemma_inverse_cell(t, 1);
    lemma_inverse_cell(t, 2);
    lemma_inverse_cell(t, 3);
    lemma_inverse_cell(t, 4);
    lemma_inverse_cell(t, 5);
    lemma_inverse_cell(t, 6);
    lemma_inverse_cell(t, 7);
    lemma_inverse_cell(t, 8);
    let w = (x[column].value(), x[column + 3].value(), x[column + 6].value());
    lemma_wide_dot(v[0], v[1], v[2], x[column], x[column + 3], x[column + 6]);
    assert((0 + column) / 3 == 0 && (0 + column) % 3 == column);
    let p0 = (v[0].value(), v[1].value(), v[2].value());
    let e0 = two(p0.0, w.0) + two(p0.1, w.1) + two(p0.2, w.2);
    lemma_wide_dot(v[3], v[4], v[5], x[column], x[column + 3], x[column + 6]);
    assert((3 + column) / 3 == 1 && (3 + column) % 3 == column);
    let p1 = (v[3].value(), v[4].value(), v[5].value());
    let e1 = two(p1.0, w.0) + two(p1.1, w.1) + two(p1.2, w.2);
    lemma_wide_dot(v[6], v[7], v[8], x[column], x[column + 3], x[column + 6]);
    assert((6 + column) / 3 == 2 && (6 + column) % 3 == column);
    let p2 = (v[6].value(), v[7].value(), v[8].value());
    let e2 = two(p2.0, w.0) + two(p2.1, w.1) + two(p2.2, w.2);
    let u = (t[3 * row].value(), t[3 * row + 1].value(), t[3 * row + 2].value());
    let c = 1 as real / 10_000 as real;
    let most = 11 as real / 100_000 as real;
    lemma_moved(b[column].value(), e0, u.0, c, s, most);
    lemma_moved(b[column + 3].value(), e1, u.1, c, s, most);
    lemma_moved(b[column + 6].value(), e2, u.2, c, s, most);
    lemma_grouped(u, p0, p1, p2, w);
    let i = 1 as real / exact_det(t);
    law_the_inverse_undoes_a_matrix(t, s, 7, i, row, 0);
    law_the_inverse_undoes_a_matrix(t, s, 7, i, row, 1);
    law_the_inverse_undoes_a_matrix(t, s, 7, i, row, 2);
    lemma_picked(
        (
            row_by_column(t, v, row, 0),
            row_by_column(t, v, row, 1),
            row_by_column(t, v, row, 2),
        ),
        w,
        row,
    );
}

/// The cells of the matrix to XYZ are moderate.
#[verifier::spinoff_prover]
proof fn lemma_xyz_cells(x: Seq<F32>, n: Figures)
    requires
        n.scales(x),
        n.spanned(),
    ensures
        cells_within(x, 11 as real / 10 as real),
{
    reveal(Figures::spanned);
    let s = 11 as real / 10 as real;
    lemma_at_size(x[0].value(), n.x0, s);
    lemma_at_size(x[1].value(), n.x1, s);
    lemma_at_size(x[2].value(), n.x2, s);
    lemma_at_size(x[3].value(), n.x3, s);
    lemma_at_size(x[4].value(), n.x4, s);
    lemma_at_size(x[5].value(), n.x5, s);
    lemma_at_size(x[6].value(), n.x6, s);
    lemma_at_size(x[7].value(), n.x7, s);
    lemma_at_size(x[8].value(), n.x8, s);
    assert forall|n: int| 0 <= n < 9 implies (#[trigger] x[n]).finite() && size_of(x[n].value())
        <= s by {
        assert(n == 0 || n == 1 || n == 2 || n == 3 || n == 4 || n == 5 || n == 6 || n == 7 || n
            == 8);
    }
}

/// A colour stays where it is when its primaries change: what the target's
/// primaries make of the converted amounts is what the source's make of the
/// amounts before.
pub proof fn law_colours_stay_where_they_are(
    source: ColorPrimaries,
    target: ColorPrimaries,
    row: int,
    column: int,
)
    requires
        0 <= row < 3,
        0 <= column < 3,
    ensures
        25 as real * size_of(
            row_by_column(rgb_to_xyz(target), between(source, target), row, column) - rgb_to_xyz(
                source,
            )[3 * row + column].value(),
        ) <= 1 as real,
{
    let x = rgb_to_xyz(source);
    let t = rgb_to_xyz(target);
    lemma_figures(source);
    lemma_figures(target);
    lemma_xyz_invertible(t, figures_of(target));
    lemma_xyz_cells(x, figures_of(source));
    lemma_xyz_cells(t, figures_of(target));
    if resolved_primaries(source) == resolved_primaries(target) {
        lemma_zero_and_one();
        lemma_unit_times(t[3 * row].value());
        lemma_unit_times(t[3 * row + 1].value());
        lemma_unit_times(t[3 * row + 2].value());
        assert(column == 0 || column == 1 || column == 2);
    } else {
        lemma_through(t, x, row, column);
    }
}

/// White excites all cones alike, whatever primaries make it, and so does every
/// grey.
pub proof fn law_white_excites_all_cones_alike(primaries: ColorPrimaries)
    ensures
        ({
            let l = rgb_to_cones(primaries);
            &&& 500 as real * size_of(l[0].value() + l[1].value() + l[2].value() - 1 as real)
                <= 1 as real
            &&& 500 as real * size_of(l[3].value() + l[4].value() + l[5].value() - 1 as real)
                <= 1 as real
            &&& 500 as real * size_of(l[6].value() + l[7].value() + l[8].value() - 1 as real)
                <= 1 as real
        }),
{
    lemma_figures(primaries);
    lemma_balanced(rgb_to_cones(primaries), figures_of(primaries));
}

#[verifier::spinoff_prover]
proof fn lemma_balanced(l: Seq<F32>, n: Figures)
    requires
        n.sees(l),
        n.spanned(),
    ensures
        500 as real * size_of(l[0].value() + l[1].value() + l[2].value() - 1 as real) <= 1 as real,
        500 as real * size_of(l[3].value() + l[4].value() + l[5].value() - 1 as real) <= 1 as real,
        500 as real * size_of(l[6].value() + l[7].value() + l[8].value() - 1 as real) <= 1 as real,
{
    reveal(Figures::spanned);
    reveal(at);
}

/// The point of one of three primaries.
pub open spec fn point_of(primaries: ColorPrimaries, column: int) -> Chromaticity {
    let c = coordinates_of(primaries);
    if column == 0 {
        c.red
    } else if column == 1 {
        c.green
    } else {
        c.blue
    }
}

/// A column of the matrix to XYZ stands at a point.
pub open spec fn stands_at(x: Seq<F32>, column: int, point: Chromaticity) -> bool {
    let y = point.y.value();
    let z = 1 as real - point.x.value() - y;
    &&& 2000 as real * size_of(
        two(x[column].value(), y) - two(x[column + 3].value(), point.x.value()),
    ) <= 1 as real
    &&& 2000 as real * size_of(two(x[column + 6].value(), y) - two(x[column + 3].value(), z))
        <= 1 as real
}

#[verifier::spinoff_prover]
proof fn lemma_stands(
    x: Seq<F32>,
    column: int,
    xn: int,
    yn: int,
    a: Figure,
    b: Figure,
    c: Figure,
    p: Figure,
    q: Figure,
    r: Figure,
)
    requires
        0 <= column < 3,
        0 <= xn <= 10000,
        0 <= yn <= 10000,
        p == Figure(10000 * xn, 12),
        q == Figure(10000 * yn, 12),
        r == Figure(10000 * (10000 - xn - yn), 24),
        at(x[column].value(), a),
        at(x[column + 3].value(), b),
        at(x[column + 6].value(), c),
        minor_fits(a, q, b, p, Figure(0, 50_000)),
        minor_fits(c, q, b, r, Figure(0, 50_000)),
    ensures
        stands_at(x, column, Chromaticity::at(xn, yn)),
{
    let point = Chromaticity::at(xn, yn);
    let z = 1 as real - point.x.value() - point.y.value();
    lemma_at_fraction(xn, 10000, xn as real / 10000 as real, p);
    lemma_at_fraction(yn, 10000, yn as real / 10000 as real, q);
    assert(at(z, r)) by {
        reveal(at);
    }
    let u = x[column].value();
    let v = x[column + 3].value();
    let w = x[column + 6].value();
    lemma_at_minor(u, point.y.value(), v, point.x.value(), a, q, b, p, Figure(0, 50_000));
    lemma_at_minor(w, point.y.value(), v, z, c, q, b, r, Figure(0, 50_000));
    reveal(at);
}

#[verifier::spinoff_prover]
proof fn lemma_bt709_stands(x: Seq<F32>)
    requires
        bt709_figures().scales(x),
    ensures
        stands_at(x, 0, Chromaticity::at(6400, 3300)),
        stands_at(x, 1, Chromaticity::at(3000, 6000)),
        stands_at(x, 2, Chromaticity::at(1500, 600)),
{
    assert(minor_fits(
        Figure(41239081, 18086), Figure(33000000, 12), Figure(21263901, 9328),
        Figure(64000000, 12), Figure(0, 50_000),
    )) by (nonlinear_arith);
    assert(minor_fits(
        Figure(1933082, 893), Figure(33000000, 12), Figure(21263901, 9328), Figure(3000000, 24),
        Figure(0, 50_000),
    )) by (nonlinear_arith);
    lemma_stands(
        x,
        0,
        6400,
        3300,
        Figure(41239081, 18086),
        Figure(21263901, 9328),
        Figure(1933082, 893),
        Figure(64000000, 12),
        Figure(33000000, 12),
        Figure(3000000, 24),
    );
    assert(minor_fits(
        Figure(35758434, 11532), Figure(60000000, 12), Figure(71516868, 22994),
        Figure(30000000, 12), Figure(0, 50_000),
    )) by (nonlinear_arith);
    assert(minor_fits(
        Figure(11919478, 3898), Figure(60000000, 12), Figure(71516868, 22994),
        Figure(10000000, 24), Figure(0, 50_000),
    )) by (nonlinear_arith);
    lemma_stands(
        x,
        1,
        3000,
        6000,
        Figure(35758434, 11532),
        Figure(71516868, 22994),
        Figure(11919478, 3898),
        Figure(30000000, 12),
        Figure(60000000, 12),
        Figure(10000000, 24),
    );
    assert(minor_fits(
        Figure(18048080, 3420), Figure(6000000, 12), Figure(7219232, 1370), Figure(15000000, 12),
        Figure(0, 50_000),
    )) by (nonlinear_arith);
    assert(minor_fits(
        Figure(95053221, 17844), Figure(6000000, 12), Figure(7219232, 1370),
        Figure(79000000, 24), Figure(0, 50_000),
    )) by (nonlinear_arith);
    lemma_stands(
        x,
        2,
        1500,
        600,
        Figure(18048080, 3420),
        Figure(7219232, 1370),
        Figure(95053221, 17844),
        Figure(15000000, 12),
        Figure(6000000, 12),
        Figure(79000000, 24),
    );
}

#[verifier::spinoff_prover]
proof fn lemma_bt2020_stands(x: Seq<F32>)
    requires
        bt2020_figures().scales(x),
    ensures
        stands_at(x, 0, Chromaticity::at(7080, 2920)),
        stands_at(x, 1, Chromaticity::at(1700, 7970)),
        stands_at(x, 2, Chromaticity::at(1310, 460)),
{
    assert(minor_fits(
        Figure(63695807, 22404), Figure(29200000, 12), Figure(26270022, 9244),
        Figure(70800000, 12), Figure(0, 50_000),
    )) by (nonlinear_arith);
    assert(minor_fits(
        Figure(0, 57), Figure(29200000, 12), Figure(26270022, 9244), Figure(0, 24),
        Figure(0, 50_000),
    )) by (nonlinear_arith);
    lemma_stands(
        x,
        0,
        7080,
        2920,
        Figure(63695807, 22404),
        Figure(26270022, 9244),
        Figure(0, 57),
        Figure(70800000, 12),
        Figure(29200000, 12),
        Figure(0, 24),
    );
    assert(minor_fits(
        Figure(14461690, 4911), Figure(79700000, 12), Figure(67799807, 22863),
        Figure(17000000, 12), Figure(0, 50_000),
    )) by (nonlinear_arith);
    assert(minor_fits(
        Figure(2807269, 1001), Figure(79700000, 12), Figure(67799807, 22863),
        Figure(3300000, 24), Figure(0, 50_000),
    )) by (nonlinear_arith);
    lemma_stands(
        x,
        1,
        1700,
        7970,
        Figure(14461690, 4911),
        Figure(67799807, 22863),
        Figure(2807269, 1001),
        Figure(17000000, 12),
        Figure(79700000, 12),
        Figure(3300000, 24),
    );
    assert(minor_fits(
        Figure(16888099, 3823), Figure(4600000, 12), Figure(5930172, 1346), Figure(13100000, 12),
        Figure(0, 50_000),
    )) by (nonlinear_arith);
    assert(minor_fits(
        Figure(106098512, 23796), Figure(4600000, 12), Figure(5930172, 1346),
        Figure(82300000, 24), Figure(0, 50_000),
    )) by (nonlinear_arith);
    lemma_stands(
        x,
        2,
        1310,
        460,
        Figure(16888099, 3823),
        Figure(5930172, 1346),
        Figure(106098512, 23796),
        Figure(13100000, 12),
        Figure(4600000, 12),
        Figure(82300000, 24),
    );
}

#[verifier::spinoff_prover]
proof fn lemma_p3_stands(x: Seq<F32>)
    requires
        p3_figures().scales(x),
    ensures
        stands_at(x, 0, Chromaticity::at(6800, 3200)),
        stands_at(x, 1, Chromaticity::at(2650, 6900)),
        stands_at(x, 2, Chromaticity::at(1500, 600)),
{
    assert(minor_fits(
        Figure(48657096, 19725), Figure(32000000, 12), Figure(22897457, 9286),
        Figure(68000000, 12), Figure(0, 50_000),
    )) by (nonlinear_arith);
    assert(minor_fits(
        Figure(0, 49), Figure(32000000, 12), Figure(22897457, 9286), Figure(0, 24),
        Figure(0, 50_000),
    )) by (nonlinear_arith);
    lemma_stands(
        x,
        0,
        6800,
        3200,
        Figure(48657096, 19725),
        Figure(22897457, 9286),
        Figure(0, 49),
        Figure(68000000, 12),
        Figure(32000000, 12),
        Figure(0, 24),
    );
    assert(minor_fits(
        Figure(26566769, 8839), Figure(69000000, 12), Figure(69173852, 22928),
        Figure(26500000, 12), Figure(0, 50_000),
    )) by (nonlinear_arith);
    assert(minor_fits(
        Figure(4511338, 1555), Figure(69000000, 12), Figure(69173852, 22928),
        Figure(4500000, 24), Figure(0, 50_000),
    )) by (nonlinear_arith);
    lemma_stands(
        x,
        1,
        2650,
        6900,
        Figure(26566769, 8839),
        Figure(69173852, 22928),
        Figure(4511338, 1555),
        Figure(26500000, 12),
        Figure(69000000, 12),
        Figure(4500000, 24),
    );
    assert(minor_fits(
        Figure(19821728, 3402), Figure(6000000, 12), Figure(7928691, 1362), Figure(15000000, 12),
        Figure(0, 50_000),
    )) by (nonlinear_arith);
    assert(minor_fits(
        Figure(104394432, 17744), Figure(6000000, 12), Figure(7928691, 1362),
        Figure(79000000, 24), Figure(0, 50_000),
    )) by (nonlinear_arith);
    lemma_stands(
        x,
        2,
        1500,
        600,
        Figure(19821728, 3402),
        Figure(7928691, 1362),
        Figure(104394432, 17744),
        Figure(15000000, 12),
        Figure(6000000, 12),
        Figure(79000000, 24),
    );
}

/// Each of three primaries stands at its point: the columns of the matrix to XYZ
/// have the points' ratios.
pub proof fn law_primaries_stand_at_their_points(primaries: ColorPrimaries, column: int)
    requires
        0 <= column < 3,
    ensures
        ({
            let x = rgb_to_xyz(primaries);
            let point = point_of(primaries, column);
            let y = point.y.value();
            let z = 1 as real - point.x.value() - y;
            &&& 2000 as real * size_of(
                two(x[column].value(), y) - two(x[column + 3].value(), point.x.value()),
            ) <= 1 as real
            &&& 2000 as real * size_of(
                two(x[column + 6].value(), y) - two(x[column + 3].value(), z),
            ) <= 1 as real
        }),
{
    reveal(figures_of);
    let x = rgb_to_xyz(primaries);
    lemma_figures(primaries);
    match resolved_primaries(primaries) {
        ColorPrimaries::Bt2020 => {
            lemma_bt2020_stands(x);
        },
        ColorPrimaries::DisplayP3 => {
            lemma_p3_stands(x);
        },
        _ => {
            lemma_bt709_stands(x);
        },
    }
    assert(stands_at(x, column, point_of(primaries, column)));
}

} // verus!
