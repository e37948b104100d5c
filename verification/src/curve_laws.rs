//! Where the curve of ST 2094-10 passes.
use crate::accuracy::{
    large, lemma_difference_is_close, lemma_nearest_is_close, lemma_opposite_value,
    lemma_order_of_values, lemma_product_is_close, lemma_quotient_is_close, lemma_size_of_product,
    lemma_sum_is_close, lemma_without_sign, lemma_zero_and_one, rounded, size_of, tiny,
};
use crate::anchors::{
    curve_value, first, four, lemma_curve, lemma_does_not_fall, lemma_fractions, lemma_signs,
    lemma_size_of_first,
    lemma_size_of_second, lemma_size_of_system, lemma_size_of_third, lemma_system_bounds,
    lemma_two_of_three, lemma_two_of_two, lemma_units, lemma_values, nearly_solved, passes, second,
    system, third, three, two, well_spread,
};
use crate::float::{F32, ONE_BITS};
use crate::knee::{anchor_cells, cramer, curve_through, determines, with_column, Knee};
use crate::pipeline::{target_black, VideoRenderPipeline};
use crate::matrix::{determinant, minor};
use crate::product::{nearest_to, product};
use crate::quotient::quotient;
use crate::sum::{difference, opposite, sum};
use vstd::prelude::*;

verus! {

/// One part in two to the power of 23.
spec fn ulp(w: real) -> real {
    w / 0x80_0000 as real
}

/// A result that is `k` rounding errors of numbers of size `w` from an exact
/// value of at most that size.
#[verifier::opaque]
spec fn nearly(a: F32, exact: real, w: real, k: int) -> bool {
    &&& a.finite()
    &&& size_of(a.value() - exact) <= k as real * ulp(w)
    &&& size_of(exact) <= w
    &&& tiny() <= w
    &&& w <= 0x1000_0000_0000_0000int as real
}

#[verifier::spinoff_prover]
proof fn lemma_nearly_itself(a: F32, w: real)
    requires
        a.finite(),
        size_of(a.value()) <= w,
        tiny() <= w,
        w <= 0x1000_0000_0000_0000int as real,
    ensures
        nearly(a, a.value(), w, 0),
{
    reveal(nearly);
    let e = ulp(w);
    assert(0int as real * e == 0 as real) by (nonlinear_arith);
}

/// One rounding of a number of size up to a hundredth more than `w`.
#[verifier::spinoff_prover]
proof fn lemma_one_rounding(x: real, v: real, w: real)
    requires
        rounded(x, v),
        size_of(v) <= 101 as real / 100 as real * w,
        tiny() <= w,
    ensures
        size_of(x - v) <= 102 as real / 100 as real * ulp(w),
{
}

#[verifier::spinoff_prover]
proof fn lemma_nearly_opposite(a: F32, exact: real, w: real, k: int)
    requires
        nearly(a, exact, w, k),
    ensures
        nearly(opposite(a), -exact, w, k),
{
    reveal(nearly);
    lemma_opposite_value(a);
}

/// The exact product of two inexact factors.
#[verifier::spinoff_prover]
proof fn lemma_factors(
    x: real,
    y: real,
    ex: real,
    ey: real,
    wx: real,
    wy: real,
    dx: real,
    dy: real,
    kx: real,
    ky: real,
)
    requires
        x == ex + dx,
        y == ey + dy,
        size_of(ex) <= wx,
        size_of(ey) <= wy,
        size_of(dx) <= kx * ulp(wx),
        size_of(dy) <= ky * ulp(wy),
        wx > 0 as real,
        wy > 0 as real,
        0 as real <= kx,
        kx <= 100 as real,
        0 as real <= ky,
        ky <= 100 as real,
    ensures
        size_of(x * y - ex * ey) <= (kx + ky + 1 as real / 100 as real) * ulp(wx * wy),
        size_of(x * y) <= 101 as real / 100 as real * (wx * wy),
        size_of(ex * ey) <= wx * wy,
{
    let w = wx * wy;
    assert(w > 0 as real) by (nonlinear_arith)
        requires
            w == wx * wy,
            wx > 0 as real,
            wy > 0 as real,
    ;
    let a = ex * dy;
    let b = dx * ey;
    let c = dx * dy;
    let e = ex * ey;
    assert(x * y - e == a + b + c) by (nonlinear_arith)
        requires
            x == ex + dx,
            y == ey + dy,
            a == ex * dy,
            b == dx * ey,
            c == dx * dy,
            e == ex * ey,
    ;
    let ux = kx * ulp(wx);
    let uy = ky * ulp(wy);
    lemma_size_bound(ex, dy, wx, uy);
    lemma_size_bound(dx, ey, ux, wy);
    lemma_size_bound(dx, dy, ux, uy);
    lemma_size_bound(ex, ey, wx, wy);
    assert(wx * uy == ky * ulp(w)) by (nonlinear_arith)
        requires
            uy == ky * ulp(wy),
            w == wx * wy,
    ;
    assert(ux * wy == kx * ulp(w)) by (nonlinear_arith)
        requires
            ux == kx * ulp(wx),
            w == wx * wy,
    ;
    let g = ulp(w);
    assert(ux * uy == (kx * ky) * ulp(g)) by (nonlinear_arith)
        requires
            ux == kx * ulp(wx),
            uy == ky * ulp(wy),
            w == wx * wy,
            g == ulp(w),
    ;
    assert(kx * ky <= 10_000 as real && kx * ky >= 0 as real) by (nonlinear_arith)
        requires
            0 as real <= kx,
            kx <= 100 as real,
            0 as real <= ky,
            ky <= 100 as real,
    ;
    let kk = kx * ky;
    assert(kk * ulp(g) <= 10_000 as real * ulp(g)) by (nonlinear_arith)
        requires
            kk <= 10_000 as real,
            ulp(g) >= 0 as real,
    ;
    assert((kx + ky + 1 as real / 100 as real) * g == kx * g + ky * g + g / 100 as real)
        by (nonlinear_arith);
    assert(kx * g <= 100 as real * g && ky * g <= 100 as real * g) by (nonlinear_arith)
        requires
            kx <= 100 as real,
            ky <= 100 as real,
            g >= 0 as real,
    ;
}

#[verifier::spinoff_prover]
proof fn lemma_size_bound(x: real, y: real, u: real, v: real)
    requires
        size_of(x) <= u,
        size_of(y) <= v,
    ensures
        size_of(x * y) <= u * v,
{
    let p = x * y;
    assert(p <= u * v && -p <= u * v) by (nonlinear_arith)
        requires
            p == x * y,
            -u <= x,
            x <= u,
            -v <= y,
            y <= v,
    ;
}

#[verifier::spinoff_prover]
proof fn lemma_nearly_product(
    a: F32,
    b: F32,
    ea: real,
    eb: real,
    wa: real,
    wb: real,
    ka: int,
    kb: int,
)
    requires
        nearly(a, ea, wa, ka),
        nearly(b, eb, wb, kb),
        0 <= ka <= 100,
        0 <= kb <= 100,
        tiny() <= two(wa, wb),
        two(wa, wb) <= 0x1000_0000_0000_0000int as real,
    ensures
        nearly(product(a, b), two(ea, eb), two(wa, wb), ka + kb + 2),
{
    reveal(nearly);
    reveal(two);
    let x = a.value();
    let y = b.value();
    let w = wa * wb;
    lemma_factors(x, y, ea, eb, wa, wb, x - ea, y - eb, ka as real, kb as real);
    lemma_product_is_close(a, b);
    let p = product(a, b).value();
    lemma_one_rounding(p, x * y, w);
    let g = ulp(w);
    let k = ka as real + kb as real;
    assert((ka + kb + 2) as real == k + 2 as real);
    assert((k + 1 as real / 100 as real) * g + 102 as real / 100 as real * g <= (k + 2 as real)
        * g) by (nonlinear_arith)
        requires
            g >= 0 as real,
    ;
}

/// A sum of two inexact terms.
#[verifier::spinoff_prover]
proof fn lemma_terms(dx: real, dy: real, kx: real, ky: real, k: real, wx: real, wy: real)
    requires
        size_of(dx) <= kx * ulp(wx),
        size_of(dy) <= ky * ulp(wy),
        kx <= k,
        ky <= k,
        wx > 0 as real,
        wy > 0 as real,
    ensures
        size_of(dx) + size_of(dy) <= k * ulp(wx + wy),
{
    let gx = ulp(wx);
    let gy = ulp(wy);
    assert(kx * gx <= k * gx) by (nonlinear_arith)
        requires
            kx <= k,
            gx > 0 as real,
    ;
    assert(ky * gy <= k * gy) by (nonlinear_arith)
        requires
            ky <= k,
            gy > 0 as real,
    ;
    let g = ulp(wx + wy);
    assert(g == gx + gy);
    assert(k * g == k * gx + k * gy) by (nonlinear_arith)
        requires
            g == gx + gy,
    ;
}

#[verifier::spinoff_prover]
proof fn lemma_nearly_sum(
    a: F32,
    b: F32,
    ea: real,
    eb: real,
    wa: real,
    wb: real,
    ka: int,
    kb: int,
    k: int,
)
    requires
        nearly(a, ea, wa, ka),
        nearly(b, eb, wb, kb),
        0 <= ka <= k,
        0 <= kb <= k,
        k <= 100,
        wa + wb <= 0x1000_0000_0000_0000int as real,
    ensures
        nearly(sum(a, b), ea + eb, wa + wb, k + 2),
        nearly(difference(a, b), ea - eb, wa + wb, k + 2),
{
    reveal(nearly);
    let x = a.value();
    let y = b.value();
    let w = wa + wb;
    lemma_terms(x - ea, y - eb, ka as real, kb as real, k as real, wa, wb);
    let g = ulp(w);
    let kr = k as real;
    assert(kr * g <= 100 as real * g) by (nonlinear_arith)
        requires
            kr <= 100 as real,
            g >= 0 as real,
    ;
    lemma_sum_is_close(a, b);
    lemma_difference_is_close(a, b);
    lemma_one_rounding(sum(a, b).value(), x + y, w);
    lemma_one_rounding(difference(a, b).value(), x - y, w);
    assert((k + 2) as real == kr + 2 as real);
    assert((kr + 2 as real) * g == kr * g + 2 as real * g) by (nonlinear_arith);
}

/// More rounding errors are allowed for.
#[verifier::spinoff_prover]
proof fn lemma_nearly_looser(a: F32, exact: real, w: real, k: int, more: int)
    requires
        nearly(a, exact, w, k),
        k <= more,
    ensures
        nearly(a, exact, w, more),
{
    reveal(nearly);
    let g = ulp(w);
    let x = k as real;
    let y = more as real;
    assert(x * g <= y * g) by (nonlinear_arith)
        requires
            x <= y,
            g >= 0 as real,
    ;
}

/// The least size that a cell of a matrix counts with.
spec fn least_cell() -> real {
    1 as real / 0x10_0000 as real
}

/// The largest size that a cell of a matrix counts with.
spec fn largest_cell() -> real {
    0x1000_0000 as real
}

spec fn cell_size(w: real) -> bool {
    least_cell() <= w && w <= largest_cell()
}

#[verifier::spinoff_prover]
proof fn lemma_pair(a: real, b: real)
    requires
        cell_size(a),
        cell_size(b),
    ensures
        1 as real / 0x100_0000_0000int as real <= two(a, b),
        two(a, b) <= 0x100_0000_0000_0000int as real,
{
    reveal(two);
    let l = least_cell();
    let m = largest_cell();
    assert(l * l <= a * b && a * b <= m * m) by (nonlinear_arith)
        requires
            l > 0 as real,
            l <= a,
            a <= m,
            l <= b,
            b <= m,
    ;
    assert(l * l == 1 as real / 0x100_0000_0000int as real);
    assert(m * m == 0x100_0000_0000_0000int as real);
}

#[verifier::spinoff_prover]
proof fn lemma_nearly_minor(
    a: F32,
    b: F32,
    c: F32,
    d: F32,
    ea: real,
    eb: real,
    ec: real,
    ed: real,
    wa: real,
    wb: real,
    wc: real,
    wd: real,
)
    requires
        nearly(a, ea, wa, 2),
        nearly(b, eb, wb, 2),
        nearly(c, ec, wc, 2),
        nearly(d, ed, wd, 2),
        cell_size(wa),
        cell_size(wb),
        cell_size(wc),
        cell_size(wd),
    ensures
        nearly(minor(a, b, c, d), two(ea, eb) - two(ec, ed), two(wa, wb) + two(wc, wd), 8),
        two(wa, wb) + two(wc, wd) >= 1 as real / 0x100_0000_0000int as real,
{
    lemma_pair(wa, wb);
    lemma_pair(wc, wd);
    lemma_nearly_product(a, b, ea, eb, wa, wb, 2, 2);
    lemma_nearly_product(c, d, ec, ed, wc, wd, 2, 2);
    lemma_nearly_sum(
        product(a, b),
        product(c, d),
        two(ea, eb),
        two(ec, ed),
        two(wa, wb),
        two(wc, wd),
        6,
        6,
        6,
    );
}

/// The determinant of exact cells.
spec fn exact_determinant(e: Seq<real>) -> real {
    two(e[0], two(e[4], e[8]) - two(e[5], e[7])) - two(e[1], two(e[3], e[8]) - two(e[5], e[6]))
        + two(e[2], two(e[3], e[7]) - two(e[4], e[6]))
}

/// The size of the terms of a determinant.
spec fn determinant_size(w: Seq<real>) -> real {
    two(w[0], two(w[4], w[8]) + two(w[5], w[7])) + two(w[1], two(w[3], w[8]) + two(w[5], w[6]))
        + two(w[2], two(w[3], w[7]) + two(w[4], w[6]))
}

/// A cell times a minor.
#[verifier::spinoff_prover]
proof fn lemma_nearly_term(a: F32, b: F32, ea: real, eb: real, wa: real, wb: real)
    requires
        nearly(a, ea, wa, 2),
        nearly(b, eb, wb, 8),
        cell_size(wa),
        wb >= 1 as real / 0x100_0000_0000int as real,
        two(wa, wb) <= 0x100_0000_0000_0000int as real,
    ensures
        nearly(product(a, b), two(ea, eb), two(wa, wb), 12),
{
    assert(two(wa, wb) >= tiny()) by {
        reveal(two);
        let l = least_cell();
        let k = 1 as real / 0x100_0000_0000int as real;
        assert(l * k <= wa * wb) by (nonlinear_arith)
            requires
                l > 0 as real,
                k > 0 as real,
                l <= wa,
                k <= wb,
        ;
        assert(l * k >= tiny());
    }
    lemma_nearly_product(a, b, ea, eb, wa, wb, 2, 8);
}

#[verifier::spinoff_prover]
proof fn lemma_nearly_determinant(m: Seq<F32>, e: Seq<real>, w: Seq<real>)
    requires
        forall|i: int| 0 <= i < 9 ==> #[trigger] nearly(m[i], e[i], w[i], 2),
        forall|i: int| 0 <= i < 9 ==> cell_size(#[trigger] w[i]),
        determinant_size(w) <= 0x100_0000_0000_0000int as real,
    ensures
        nearly(determinant(m), exact_determinant(e), determinant_size(w), 16),
{
    assert(nearly(m[0], e[0], w[0], 2) && nearly(m[1], e[1], w[1], 2) && nearly(
        m[2],
        e[2],
        w[2],
        2,
    ));
    assert(nearly(m[3], e[3], w[3], 2) && nearly(m[4], e[4], w[4], 2) && nearly(
        m[5],
        e[5],
        w[5],
        2,
    ));
    assert(nearly(m[6], e[6], w[6], 2) && nearly(m[7], e[7], w[7], 2) && nearly(
        m[8],
        e[8],
        w[8],
        2,
    ));
    assert(cell_size(w[0]) && cell_size(w[1]) && cell_size(w[2]));
    lemma_nearly_minor(
        m[4],
        m[8],
        m[5],
        m[7],
        e[4],
        e[8],
        e[5],
        e[7],
        w[4],
        w[8],
        w[5],
        w[7],
    );
    lemma_nearly_minor(
        m[3],
        m[8],
        m[5],
        m[6],
        e[3],
        e[8],
        e[5],
        e[6],
        w[3],
        w[8],
        w[5],
        w[6],
    );
    lemma_nearly_minor(
        m[3],
        m[7],
        m[4],
        m[6],
        e[3],
        e[7],
        e[4],
        e[6],
        w[3],
        w[7],
        w[4],
        w[6],
    );
    let m1 = minor(m[4], m[8], m[5], m[7]);
    let m2 = minor(m[3], m[8], m[5], m[6]);
    let m3 = minor(m[3], m[7], m[4], m[6]);
    let e1 = two(e[4], e[8]) - two(e[5], e[7]);
    let e2 = two(e[3], e[8]) - two(e[5], e[6]);
    let e3 = two(e[3], e[7]) - two(e[4], e[6]);
    let w1 = two(w[4], w[8]) + two(w[5], w[7]);
    let w2 = two(w[3], w[8]) + two(w[5], w[6]);
    let w3 = two(w[3], w[7]) + two(w[4], w[6]);
    let t1 = two(w[0], w1);
    let t2 = two(w[1], w2);
    let t3 = two(w[2], w3);
    lemma_positive_product(w[0], w1);
    lemma_positive_product(w[1], w2);
    lemma_positive_product(w[2], w3);
    lemma_nearly_term(m[0], m1, e[0], e1, w[0], w1);
    lemma_nearly_term(m[1], m2, e[1], e2, w[1], w2);
    lemma_nearly_term(m[2], m3, e[2], e3, w[2], w3);
    let p1 = product(m[0], m1);
    let p2 = product(m[1], m2);
    let p3 = product(m[2], m3);
    lemma_nearly_sum(p1, p2, two(e[0], e1), two(e[1], e2), t1, t2, 12, 12, 12);
    lemma_nearly_sum(
        difference(p1, p2),
        p3,
        two(e[0], e1) - two(e[1], e2),
        two(e[2], e3),
        t1 + t2,
        t3,
        14,
        12,
        14,
    );
}

#[verifier::spinoff_prover]
proof fn lemma_positive_product(a: real, b: real)
    requires
        a > 0 as real,
        b > 0 as real,
    ensures
        two(a, b) > 0 as real,
{
    reveal(two);
    assert(a * b > 0 as real) by (nonlinear_arith)
        requires
            a > 0 as real,
            b > 0 as real,
    ;
}

/// A coefficient times the determinant of the system is close to the exact
/// determinant that it is the quotient of.
#[verifier::spinoff_prover]
proof fn lemma_coefficient(n: F32, d: F32, exact: real, w: real)
    requires
        nearly(n, exact, w, 16),
        d.finite(),
        d.value() != 0 as real,
        size_of(d.value()) <= w * large(),
        2 as real * w <= size_of(d.value()) * large(),
    ensures
        quotient(n, d).finite(),
        size_of(two(d.value(), quotient(n, d).value()) - exact) <= 18 as real * ulp(w),
{
    reveal(nearly);
    reveal(two);
    let x = n.value();
    let y = d.value();
    let z = x / y;
    let sy = size_of(y);
    let sz = size_of(z);
    let sx = size_of(x);
    let kr = 16int as real;
    let g = ulp(w);
    assert(kr * g == 16 as real * g) by (nonlinear_arith)
        requires
            kr == 16 as real,
    ;
    assert(size_of(x - exact) <= kr * g);
    assert(sx <= 101 as real / 100 as real * w);
    assert(z * y == x) by (nonlinear_arith)
        requires
            z == x / y,
            y != 0 as real,
    ;
    assert(sz * sy == sx) by {
        lemma_size_of_product(z, y);
    }
    assert(sz <= large()) by (nonlinear_arith)
        requires
            sz * sy == sx,
            sx <= 2 as real * w,
            2 as real * w <= sy * large(),
            sy > 0 as real,
    ;
    lemma_quotient_is_close(n, d, z);
    let c = quotient(n, d).value();
    let off = c - z;
    let so = size_of(off);
    lemma_size_of_product(off, y);
    assert(y * c - x == off * y) by (nonlinear_arith)
        requires
            off == c - z,
            z * y == x,
    ;
    assert(0x100_0000 as real * (so * sy) <= sz * sy + tiny() * sy) by (nonlinear_arith)
        requires
            0x100_0000 as real * so <= sz + tiny(),
            sy >= 0 as real,
    ;
    assert(tiny() * sy <= w) by (nonlinear_arith)
        requires
            sy <= w * large(),
            tiny() * large() == 1 as real,
            tiny() > 0 as real,
    ;
}

/// Anchors of a tone curve as they come about: the first lies at zero, each is
/// well apart from the next, the curve does not bend far below a straight line,
/// and the second is not next to nothing. Luminances go up to 16384 nits.
#[verifier::opaque]
pub open spec fn well_anchored(x: Seq<F32>, y: Seq<F32>) -> bool {
    &&& x.len() == 3
    &&& y.len() == 3
    &&& x[0].finite() && x[1].finite() && x[2].finite()
    &&& y[0].finite() && y[1].finite() && y[2].finite()
    &&& x[0].value() == 0 as real
    &&& well_spread(x[1].value(), x[2].value(), y[0].value(), y[1].value(), y[2].value())
    &&& 64 as real * x[1].value() >= 1 as real
    &&& 64 as real * y[1].value() >= 1 as real
    &&& x[2].value() <= 0x4000 as real
    &&& y[2].value() <= 0x4000 as real
}

/// The plain facts of spread points.
#[verifier::spinoff_prover]
proof fn lemma_spread(a: real, b: real, p: real, q: real, r: real)
    requires
        well_spread(a, b, p, q, r),
    ensures
        a > 0 as real,
        2 as real * a <= b,
        p >= 0 as real,
        2 as real * p <= q,
        q > 0 as real,
        2 as real * q <= r,
{
    reveal(well_spread);
}

/// Bounds of a product by bounds of its factors.
#[verifier::spinoff_prover]
proof fn lemma_between(x: real, y: real, low: real, lower: real, high: real, higher: real)
    requires
        0 as real <= low,
        low <= x,
        x <= high,
        0 as real <= lower,
        lower <= y,
        y <= higher,
    ensures
        low * lower <= two(x, y),
        two(x, y) <= high * higher,
{
    reveal(two);
    assert(low * lower <= x * y && x * y <= high * higher) by (nonlinear_arith)
        requires
            0 as real <= low,
            low <= x,
            x <= high,
            0 as real <= lower,
            lower <= y,
            y <= higher,
    ;
}

/// A cell that is taken over from the anchors.
#[verifier::spinoff_prover]
proof fn lemma_plain_cell(a: F32, w: real)
    requires
        a.finite(),
        size_of(a.value()) <= w,
        cell_size(w),
    ensures
        nearly(a, a.value(), w, 2),
{
    lemma_nearly_itself(a, w);
    lemma_nearly_looser(a, a.value(), w, 0, 2);
}

/// A cell that is a place times a value, negated.
#[verifier::spinoff_prover]
proof fn lemma_crossed_cell(y: F32, x: F32, wy: real, wx: real)
    requires
        y.finite(),
        x.finite(),
        size_of(y.value()) <= wy,
        size_of(x.value()) <= wx,
        cell_size(wy),
        cell_size(wx),
    ensures
        nearly(product(opposite(y), x), -two(y.value(), x.value()), two(wy, wx), 2),
{
    lemma_nearly_itself(y, wy);
    lemma_nearly_itself(x, wx);
    lemma_nearly_opposite(y, y.value(), wy, 0);
    lemma_pair(wy, wx);
    lemma_nearly_product(opposite(y), x, -y.value(), x.value(), wy, wx, 0, 0);
    lemma_signs(y.value(), x.value());
}

/// The cells of the system: what they are close to, and their sizes.
#[verifier::opaque]
spec fn cells_hold(x: Seq<F32>, y: Seq<F32>) -> bool {
    let a = x[1].value();
    let b = x[2].value();
    let p = y[0].value();
    let q = y[1].value();
    let r = y[2].value();
    &&& nearly(F32 { bits: ONE_BITS }, 1 as real, 1 as real, 2)
    &&& nearly(x[0], 0 as real, a / 16 as real, 2)
    &&& nearly(x[1], a, a, 2)
    &&& nearly(x[2], b, b, 2)
    &&& nearly(y[0], p, q / 2 as real, 2)
    &&& nearly(y[1], q, q, 2)
    &&& nearly(y[2], r, r, 2)
    &&& nearly(product(opposite(y[0]), x[0]), 0 as real, two(a, q) / 32 as real, 2)
    &&& nearly(product(opposite(y[1]), x[1]), -two(a, q), two(a, q), 2)
    &&& nearly(product(opposite(y[2]), x[2]), -two(b, r), two(b, r), 2)
    &&& cell_size(1 as real)
    &&& cell_size(a / 16 as real) && cell_size(a) && cell_size(b)
    &&& cell_size(q / 2 as real) && cell_size(q) && cell_size(r)
    &&& cell_size(two(a, q) / 32 as real) && cell_size(two(a, q)) && cell_size(two(b, r))
}

/// The sizes of the cells are neither too small nor too large.
#[verifier::spinoff_prover]
proof fn lemma_cell_sizes(a: real, b: real, p: real, q: real, r: real)
    requires
        well_spread(a, b, p, q, r),
        64 as real * a >= 1 as real,
        64 as real * q >= 1 as real,
        b <= 0x4000 as real,
        r <= 0x4000 as real,
    ensures
        p >= 0 as real && p <= q / 2 as real,
        a >= 0 as real && b >= 0 as real && q >= 0 as real && r >= 0 as real,
        cell_size(1 as real),
        cell_size(a / 16 as real) && cell_size(a) && cell_size(b),
        cell_size(q / 2 as real) && cell_size(q) && cell_size(r),
        cell_size(two(a, q) / 32 as real) && cell_size(two(a, q)) && cell_size(two(b, r)),
{
    lemma_spread(a, b, p, q, r);
    let small = 1 as real / 64 as real;
    lemma_between(a, q, small, small, 0x2000 as real, 0x2000 as real);
    lemma_between(b, r, small, small, 0x4000 as real, 0x4000 as real);
}

/// The cell of the first anchor, which lies at zero.
#[verifier::spinoff_prover]
proof fn lemma_first_cell(y: F32, x: F32, q: real, a: real)
    requires
        y.finite(),
        x.finite(),
        x.value() == 0 as real,
        size_of(y.value()) <= q / 2 as real,
        a >= 0 as real,
        cell_size(q / 2 as real),
        cell_size(a / 16 as real),
    ensures
        nearly(product(opposite(y), x), 0 as real, two(a, q) / 32 as real, 2),
{
    lemma_crossed_cell(y, x, q / 2 as real, a / 16 as real);
    lemma_units(y.value());
    lemma_fractions(q, a / 16 as real);
    lemma_fractions(q, a);
    lemma_signs(q, a);
}

/// The cell of another anchor.
#[verifier::spinoff_prover]
proof fn lemma_other_cell(y: F32, x: F32)
    requires
        y.finite(),
        x.finite(),
        y.value() >= 0 as real,
        x.value() >= 0 as real,
        cell_size(y.value()),
        cell_size(x.value()),
    ensures
        nearly(
            product(opposite(y), x),
            -two(x.value(), y.value()),
            two(x.value(), y.value()),
            2,
        ),
{
    lemma_crossed_cell(y, x, y.value(), x.value());
    lemma_signs(y.value(), x.value());
}

#[verifier::spinoff_prover]
proof fn lemma_cells(x: Seq<F32>, y: Seq<F32>)
    requires
        well_anchored(x, y),
    ensures
        cells_hold(x, y),
{
    reveal(well_anchored);
    let a = x[1].value();
    let b = x[2].value();
    let p = y[0].value();
    let q = y[1].value();
    let r = y[2].value();
    lemma_cell_sizes(a, b, p, q, r);
    lemma_zero_and_one();
    lemma_plain_cell(F32 { bits: ONE_BITS }, 1 as real);
    lemma_plain_cell(x[0], a / 16 as real);
    lemma_plain_cell(x[1], a);
    lemma_plain_cell(x[2], b);
    lemma_plain_cell(y[0], q / 2 as real);
    lemma_plain_cell(y[1], q);
    lemma_plain_cell(y[2], r);
    lemma_first_cell(y[0], x[0], q, a);
    lemma_other_cell(y[1], x[1]);
    lemma_other_cell(y[2], x[2]);
    reveal(cells_hold);
}

/// Bounds of the products of anchors.
#[verifier::spinoff_prover]
proof fn lemma_upper(x: Seq<F32>, y: Seq<F32>)
    requires
        well_anchored(x, y),
    ensures
        ({
            let a = x[1].value();
            let b = x[2].value();
            let q = y[1].value();
            let r = y[2].value();
            &&& 1 as real / 0x4_0000 as real <= three(a, b, r)
            &&& three(a, b, r) <= 0x200_0000_0000int as real
            &&& three(a, b, r) <= 64 as real * four(a, b, q, r)
            &&& four(a, b, q, r) <= 0x2000 as real * three(a, b, r)
            &&& 1 as real / 0x4_0000 as real <= three(b, q, r)
            &&& three(b, q, r) <= 0x200_0000_0000int as real
            &&& two(a, r) <= 0x800_0000 as real
            &&& 1 as real / 0x1000 as real <= two(b, q)
            &&& two(b, q) <= 0x800_0000 as real
        }),
{
    reveal(well_anchored);
    let a = x[1].value();
    let b = x[2].value();
    let p = y[0].value();
    let q = y[1].value();
    let r = y[2].value();
    lemma_spread(a, b, p, q, r);
    let small = 1 as real / 64 as real;
    lemma_between(b, r, small, small, 0x4000 as real, 0x4000 as real);
    lemma_between(a, two(b, r), small, small * small, 0x2000 as real, 0x4000 as real
        * 0x4000 as real);
    lemma_two_of_two(a, b, r);
    lemma_between(q, two(b, r), small, small * small, 0x2000 as real, 0x4000 as real
        * 0x4000 as real);
    lemma_two_of_two(b, q, r);
    lemma_between(a, r, small, small, 0x2000 as real, 0x4000 as real);
    lemma_between(b, q, small, small, 0x4000 as real, 0x2000 as real);
    let t = three(a, b, r);
    lemma_between(q, t, small, t, 0x2000 as real, t);
    lemma_two_of_three(a, b, q, r);
}

/// The exact cells of the system.
#[verifier::opaque]
spec fn system_cells(a: real, b: real, p: real, q: real, r: real) -> Seq<real> {
    seq![
        1 as real,
        0 as real,
        0 as real,
        1 as real,
        a,
        -two(a, q),
        1 as real,
        b,
        -two(b, r),
    ]
}

/// The sizes of the cells of the system.
#[verifier::opaque]
spec fn system_sizes(a: real, b: real, p: real, q: real, r: real) -> Seq<real> {
    seq![
        1 as real,
        a / 16 as real,
        two(a, q) / 32 as real,
        1 as real,
        a,
        two(a, q),
        1 as real,
        b,
        two(b, r),
    ]
}

#[verifier::spinoff_prover]
proof fn lemma_system_cells(m: Seq<F32>, x: Seq<F32>, y: Seq<F32>)
    requires
        cells_hold(x, y),
        m == anchor_cells(x, y),
        y.len() == 3,
    ensures
        ({
            let e = system_cells(
                x[1].value(),
                x[2].value(),
                y[0].value(),
                y[1].value(),
                y[2].value(),
            );
            let w = system_sizes(
                x[1].value(),
                x[2].value(),
                y[0].value(),
                y[1].value(),
                y[2].value(),
            );
            &&& forall|i: int| 0 <= i < 9 ==> #[trigger] nearly(m[i], e[i], w[i], 2)
            &&& forall|i: int| 0 <= i < 9 ==> cell_size(#[trigger] w[i])
        }),
{
    reveal(cells_hold);
    reveal(system_cells);
    reveal(system_sizes);
    let e = system_cells(
        x[1].value(),
        x[2].value(),
        y[0].value(),
        y[1].value(),
        y[2].value(),
    );
    let w = system_sizes(
        x[1].value(),
        x[2].value(),
        y[0].value(),
        y[1].value(),
        y[2].value(),
    );
    assert forall|i: int| 0 <= i < 9 implies #[trigger] nearly(m[i], e[i], w[i], 2) by {
        assert(i == 0 || i == 1 || i == 2 || i == 3 || i == 4 || i == 5 || i == 6 || i == 7 || i
            == 8);
    }
    assert forall|i: int| 0 <= i < 9 implies cell_size(#[trigger] w[i]) by {
        assert(i == 0 || i == 1 || i == 2 || i == 3 || i == 4 || i == 5 || i == 6 || i == 7 || i
            == 8);
    }
}

/// The exact cells of the determinant that gives the value at zero.
#[verifier::opaque]
spec fn first_cells(a: real, b: real, p: real, q: real, r: real) -> Seq<real> {
    seq![
        p,
        0 as real,
        0 as real,
        q,
        a,
        -two(a, q),
        r,
        b,
        -two(b, r),
    ]
}

/// The sizes of the cells of the determinant that gives the value at zero.
#[verifier::opaque]
spec fn first_sizes(a: real, b: real, p: real, q: real, r: real) -> Seq<real> {
    seq![
        q / 2 as real,
        a / 16 as real,
        two(a, q) / 32 as real,
        q,
        a,
        two(a, q),
        r,
        b,
        two(b, r),
    ]
}

#[verifier::spinoff_prover]
proof fn lemma_first_cells(m: Seq<F32>, x: Seq<F32>, y: Seq<F32>)
    requires
        cells_hold(x, y),
        m == with_column(anchor_cells(x, y), 0, y),
        y.len() == 3,
    ensures
        ({
            let e = first_cells(
                x[1].value(),
                x[2].value(),
                y[0].value(),
                y[1].value(),
                y[2].value(),
            );
            let w = first_sizes(
                x[1].value(),
                x[2].value(),
                y[0].value(),
                y[1].value(),
                y[2].value(),
            );
            &&& forall|i: int| 0 <= i < 9 ==> #[trigger] nearly(m[i], e[i], w[i], 2)
            &&& forall|i: int| 0 <= i < 9 ==> cell_size(#[trigger] w[i])
        }),
{
    reveal(cells_hold);
    reveal(first_cells);
    reveal(first_sizes);
    let e = first_cells(
        x[1].value(),
        x[2].value(),
        y[0].value(),
        y[1].value(),
        y[2].value(),
    );
    let w = first_sizes(
        x[1].value(),
        x[2].value(),
        y[0].value(),
        y[1].value(),
        y[2].value(),
    );
    assert forall|i: int| 0 <= i < 9 implies #[trigger] nearly(m[i], e[i], w[i], 2) by {
        assert(i == 0 || i == 1 || i == 2 || i == 3 || i == 4 || i == 5 || i == 6 || i == 7 || i
            == 8);
    }
    assert forall|i: int| 0 <= i < 9 implies cell_size(#[trigger] w[i]) by {
        assert(i == 0 || i == 1 || i == 2 || i == 3 || i == 4 || i == 5 || i == 6 || i == 7 || i
            == 8);
    }
}

/// The exact cells of the determinant above the fraction bar.
#[verifier::opaque]
spec fn second_cells(a: real, b: real, p: real, q: real, r: real) -> Seq<real> {
    seq![
        1 as real,
        p,
        0 as real,
        1 as real,
        q,
        -two(a, q),
        1 as real,
        r,
        -two(b, r),
    ]
}

/// The sizes of the cells of the determinant above the fraction bar.
#[verifier::opaque]
spec fn second_sizes(a: real, b: real, p: real, q: real, r: real) -> Seq<real> {
    seq![
        1 as real,
        q / 2 as real,
        two(a, q) / 32 as real,
        1 as real,
        q,
        two(a, q),
        1 as real,
        r,
        two(b, r),
    ]
}

#[verifier::spinoff_prover]
proof fn lemma_second_cells(m: Seq<F32>, x: Seq<F32>, y: Seq<F32>)
    requires
        cells_hold(x, y),
        m == with_column(anchor_cells(x, y), 1, y),
        y.len() == 3,
    ensures
        ({
            let e = second_cells(
                x[1].value(),
                x[2].value(),
                y[0].value(),
                y[1].value(),
                y[2].value(),
            );
            let w = second_sizes(
                x[1].value(),
                x[2].value(),
                y[0].value(),
                y[1].value(),
                y[2].value(),
            );
            &&& forall|i: int| 0 <= i < 9 ==> #[trigger] nearly(m[i], e[i], w[i], 2)
            &&& forall|i: int| 0 <= i < 9 ==> cell_size(#[trigger] w[i])
        }),
{
    reveal(cells_hold);
    reveal(second_cells);
    reveal(second_sizes);
    let e = second_cells(
        x[1].value(),
        x[2].value(),
        y[0].value(),
        y[1].value(),
        y[2].value(),
    );
    let w = second_sizes(
        x[1].value(),
        x[2].value(),
        y[0].value(),
        y[1].value(),
        y[2].value(),
    );
    assert forall|i: int| 0 <= i < 9 implies #[trigger] nearly(m[i], e[i], w[i], 2) by {
        assert(i == 0 || i == 1 || i == 2 || i == 3 || i == 4 || i == 5 || i == 6 || i == 7 || i
            == 8);
    }
    assert forall|i: int| 0 <= i < 9 implies cell_size(#[trigger] w[i]) by {
        assert(i == 0 || i == 1 || i == 2 || i == 3 || i == 4 || i == 5 || i == 6 || i == 7 || i
            == 8);
    }
}

/// The exact cells of the determinant below the fraction bar.
#[verifier::opaque]
spec fn third_cells(a: real, b: real, p: real, q: real, r: real) -> Seq<real> {
    seq![
        1 as real,
        0 as real,
        p,
        1 as real,
        a,
        q,
        1 as real,
        b,
        r,
    ]
}

/// The sizes of the cells of the determinant below the fraction bar.
#[verifier::opaque]
spec fn third_sizes(a: real, b: real, p: real, q: real, r: real) -> Seq<real> {
    seq![
        1 as real,
        a / 16 as real,
        q / 2 as real,
        1 as real,
        a,
        q,
        1 as real,
        b,
        r,
    ]
}

#[verifier::spinoff_prover]
proof fn lemma_third_cells(m: Seq<F32>, x: Seq<F32>, y: Seq<F32>)
    requires
        cells_hold(x, y),
        m == with_column(anchor_cells(x, y), 2, y),
        y.len() == 3,
    ensures
        ({
            let e = third_cells(
                x[1].value(),
                x[2].value(),
                y[0].value(),
                y[1].value(),
                y[2].value(),
            );
            let w = third_sizes(
                x[1].value(),
                x[2].value(),
                y[0].value(),
                y[1].value(),
                y[2].value(),
            );
            &&& forall|i: int| 0 <= i < 9 ==> #[trigger] nearly(m[i], e[i], w[i], 2)
            &&& forall|i: int| 0 <= i < 9 ==> cell_size(#[trigger] w[i])
        }),
{
    reveal(cells_hold);
    reveal(third_cells);
    reveal(third_sizes);
    let e = third_cells(
        x[1].value(),
        x[2].value(),
        y[0].value(),
        y[1].value(),
        y[2].value(),
    );
    let w = third_sizes(
        x[1].value(),
        x[2].value(),
        y[0].value(),
        y[1].value(),
        y[2].value(),
    );
    assert forall|i: int| 0 <= i < 9 implies #[trigger] nearly(m[i], e[i], w[i], 2) by {
        assert(i == 0 || i == 1 || i == 2 || i == 3 || i == 4 || i == 5 || i == 6 || i == 7 || i
            == 8);
    }
    assert forall|i: int| 0 <= i < 9 implies cell_size(#[trigger] w[i]) by {
        assert(i == 0 || i == 1 || i == 2 || i == 3 || i == 4 || i == 5 || i == 6 || i == 7 || i
            == 8);
    }
}

#[verifier::spinoff_prover]
proof fn lemma_system_value(a: real, b: real, p: real, q: real, r: real)
    requires
        well_spread(a, b, p, q, r),
    ensures
        exact_determinant(system_cells(a, b, p, q, r)) == system(a, b, q, r),
        ({
            let w = determinant_size(system_sizes(a, b, p, q, r));
            w >= three(a, b, r) && w * 100 as real <= 161 as real * three(a, b, r)
        }),
{
    reveal(system_cells);
    reveal(system_sizes);
    let aq = two(a, q);
    let br = two(b, r);
    lemma_units(two(a, br) + two(aq, b));
    lemma_units(br);
    lemma_units(aq);
    lemma_units(b);
    lemma_units(a);
    lemma_units(two(a, -br) - two(-aq, b));
    lemma_units(two(1 as real, -br) - two(-aq, 1 as real));
    lemma_units(two(1 as real, b) - two(a, 1 as real));
    lemma_values(a, b, p, q, r);
    lemma_size_of_system(a, b, p, q, r);
}

#[verifier::spinoff_prover]
proof fn lemma_first_value(a: real, b: real, p: real, q: real, r: real)
    requires
        well_spread(a, b, p, q, r),
    ensures
        exact_determinant(first_cells(a, b, p, q, r)) == first(a, b, p, q, r),
        ({
            let w = determinant_size(first_sizes(a, b, p, q, r));
            w * 4 as real >= four(a, b, q, r) && w * 100 as real <= 88 as real * four(a, b, q, r)
        }),
{
    reveal(first_cells);
    reveal(first_sizes);
    let aq = two(a, q);
    let br = two(b, r);
    lemma_units(two(q, -br) - two(-aq, r));
    lemma_units(two(q, b) - two(a, r));
    lemma_values(a, b, p, q, r);
    lemma_size_of_first(a, b, p, q, r);
}

#[verifier::spinoff_prover]
proof fn lemma_second_value(a: real, b: real, p: real, q: real, r: real)
    requires
        well_spread(a, b, p, q, r),
    ensures
        exact_determinant(second_cells(a, b, p, q, r)) == second(a, b, p, q, r),
        ({
            let w = determinant_size(second_sizes(a, b, p, q, r));
            w >= three(b, q, r) && w * 100 as real <= 215 as real * three(b, q, r)
        }),
{
    reveal(second_cells);
    reveal(second_sizes);
    let aq = two(a, q);
    let br = two(b, r);
    lemma_units(two(q, br) + two(aq, r));
    lemma_units(br);
    lemma_units(-br);
    lemma_units(aq);
    lemma_units(-aq);
    lemma_units(r);
    lemma_units(q);
    lemma_units(two(q, -br) - two(-aq, r));
    lemma_units(two(1 as real, r) - two(q, 1 as real));
    lemma_values(a, b, p, q, r);
    lemma_size_of_second(a, b, p, q, r);
}

#[verifier::spinoff_prover]
proof fn lemma_third_value(a: real, b: real, p: real, q: real, r: real)
    requires
        well_spread(a, b, p, q, r),
    ensures
        exact_determinant(third_cells(a, b, p, q, r)) == third(a, b, p, q, r),
        ({
            let w = determinant_size(third_sizes(a, b, p, q, r));
            &&& w >= two(b, q)
            &&& w * 100 as real <= 110 as real * two(a, r) + 176 as real * two(b, q)
        }),
{
    reveal(third_cells);
    reveal(third_sizes);
    let aq = two(a, q);
    let br = two(b, r);
    lemma_units(two(a, r) + two(q, b));
    lemma_units(r);
    lemma_units(q);
    lemma_units(b);
    lemma_units(a);
    lemma_units(two(a, r) - two(q, b));
    lemma_units(two(1 as real, r) - two(q, 1 as real));
    lemma_values(a, b, p, q, r);
    lemma_size_of_third(a, b, p, q, r);
}

/// The determinant of the system is close to the exact one.
#[verifier::spinoff_prover]
proof fn lemma_system_det(x: Seq<F32>, y: Seq<F32>)
    requires
        well_anchored(x, y),
    ensures
        ({
            let a = x[1].value();
            let b = x[2].value();
            let q = y[1].value();
            let r = y[2].value();
            let d = determinant(anchor_cells(x, y));
            &&& d.finite()
            &&& size_of(d.value() - system(a, b, q, r)) <= 26 as real / 0x80_0000 as real * three(
                a,
                b,
                r,
            )
        }),
{
    lemma_cells(x, y);
    lemma_upper(x, y);
    reveal(well_anchored);
    let a = x[1].value();
    let b = x[2].value();
    let p = y[0].value();
    let q = y[1].value();
    let r = y[2].value();
    let m = anchor_cells(x, y);
    let e = system_cells(a, b, p, q, r);
    let w = system_sizes(a, b, p, q, r);
    lemma_system_cells(m, x, y);
    lemma_system_value(a, b, p, q, r);
    lemma_nearly_determinant(m, e, w);
    let size = determinant_size(w);
    lemma_from_nearly(determinant(m), system(a, b, q, r), size);
}

/// What sixteen rounding errors are at most.
#[verifier::spinoff_prover]
proof fn lemma_from_nearly(v: F32, exact: real, w: real)
    requires
        nearly(v, exact, w, 16),
    ensures
        v.finite(),
        size_of(v.value() - exact) <= 16 as real / 0x80_0000 as real * w,
        w > 0 as real,
{
    reveal(nearly);
    let k: int = 16;
    let kr = k as real;
    let g = ulp(w);
    assert(kr * g == 16 as real * g) by (nonlinear_arith)
        requires
            kr == 16 as real,
    ;
    assert(size_of(v.value() - exact) <= kr * g);
}

/// The determinant of the system is well away from zero.
#[verifier::spinoff_prover]
proof fn lemma_system_is_large(x: Seq<F32>, y: Seq<F32>)
    requires
        well_anchored(x, y),
    ensures
        ({
            let t = three(x[1].value(), x[2].value(), y[2].value());
            let d = determinant(anchor_cells(x, y));
            &&& d.finite()
            &&& d.value() < 0 as real
            &&& 100 as real * size_of(d.value()) >= 49 as real * t
            &&& size_of(d.value()) <= 2 as real * t
        }),
{
    lemma_system_det(x, y);
    lemma_upper(x, y);
    reveal(well_anchored);
    lemma_system_bounds(
        x[1].value(),
        x[2].value(),
        y[0].value(),
        y[1].value(),
        y[2].value(),
    );
}

/// The coefficient at zero.
#[verifier::spinoff_prover]
proof fn lemma_first_coefficient(x: Seq<F32>, y: Seq<F32>)
    requires
        well_anchored(x, y),
    ensures
        ({
            let a = x[1].value();
            let b = x[2].value();
            let p = y[0].value();
            let q = y[1].value();
            let r = y[2].value();
            let d = determinant(anchor_cells(x, y));
            let c = quotient(determinant(with_column(anchor_cells(x, y), 0, y)), d);
            &&& c.finite()
            &&& size_of(two(d.value(), c.value()) - first(a, b, p, q, r)) <= 16 as real
                / 0x80_0000 as real * four(a, b, q, r)
        }),
{
    lemma_cells(x, y);
    lemma_upper(x, y);
    lemma_system_is_large(x, y);
    reveal(well_anchored);
    let a = x[1].value();
    let b = x[2].value();
    let p = y[0].value();
    let q = y[1].value();
    let r = y[2].value();
    let m = with_column(anchor_cells(x, y), 0, y);
    let w = first_sizes(a, b, p, q, r);
    lemma_first_cells(m, x, y);
    lemma_first_value(a, b, p, q, r);
    lemma_nearly_determinant(m, first_cells(a, b, p, q, r), w);
    lemma_coefficient(
        determinant(m),
        determinant(anchor_cells(x, y)),
        first(a, b, p, q, r),
        determinant_size(w),
    );
}

/// The coefficient above the fraction bar.
#[verifier::spinoff_prover]
proof fn lemma_second_coefficient(x: Seq<F32>, y: Seq<F32>)
    requires
        well_anchored(x, y),
    ensures
        ({
            let a = x[1].value();
            let b = x[2].value();
            let p = y[0].value();
            let q = y[1].value();
            let r = y[2].value();
            let d = determinant(anchor_cells(x, y));
            let c = quotient(determinant(with_column(anchor_cells(x, y), 1, y)), d);
            &&& c.finite()
            &&& size_of(two(d.value(), c.value()) - second(a, b, p, q, r)) <= 39 as real
                / 0x80_0000 as real * three(b, q, r)
        }),
{
    lemma_cells(x, y);
    lemma_upper(x, y);
    lemma_system_is_large(x, y);
    reveal(well_anchored);
    let a = x[1].value();
    let b = x[2].value();
    let p = y[0].value();
    let q = y[1].value();
    let r = y[2].value();
    let m = with_column(anchor_cells(x, y), 1, y);
    let w = second_sizes(a, b, p, q, r);
    lemma_second_cells(m, x, y);
    lemma_second_value(a, b, p, q, r);
    lemma_nearly_determinant(m, second_cells(a, b, p, q, r), w);
    lemma_coefficient(
        determinant(m),
        determinant(anchor_cells(x, y)),
        second(a, b, p, q, r),
        determinant_size(w),
    );
}

/// The coefficient below the fraction bar.
#[verifier::spinoff_prover]
proof fn lemma_third_coefficient(x: Seq<F32>, y: Seq<F32>)
    requires
        well_anchored(x, y),
    ensures
        ({
            let a = x[1].value();
            let b = x[2].value();
            let p = y[0].value();
            let q = y[1].value();
            let r = y[2].value();
            let d = determinant(anchor_cells(x, y));
            let c = quotient(determinant(with_column(anchor_cells(x, y), 2, y)), d);
            &&& c.finite()
            &&& size_of(two(d.value(), c.value()) - third(a, b, p, q, r)) <= 20 as real
                / 0x80_0000 as real * two(a, r) + 32 as real / 0x80_0000 as real * two(b, q)
        }),
{
    lemma_cells(x, y);
    lemma_upper(x, y);
    lemma_system_is_large(x, y);
    reveal(well_anchored);
    let a = x[1].value();
    let b = x[2].value();
    let p = y[0].value();
    let q = y[1].value();
    let r = y[2].value();
    let m = with_column(anchor_cells(x, y), 2, y);
    let w = third_sizes(a, b, p, q, r);
    lemma_third_cells(m, x, y);
    lemma_third_value(a, b, p, q, r);
    lemma_nearly_determinant(m, third_cells(a, b, p, q, r), w);
    lemma_coefficient(
        determinant(m),
        determinant(anchor_cells(x, y)),
        third(a, b, p, q, r),
        determinant_size(w),
    );
}

/// The anchors determine a curve.
#[verifier::spinoff_prover]
proof fn lemma_determined(x: Seq<F32>, y: Seq<F32>)
    requires
        well_anchored(x, y),
    ensures
        determines(x, y),
{
    lemma_system_is_large(x, y);
    lemma_upper(x, y);
    let d = determinant(anchor_cells(x, y));
    let least = nearest_to(1, 1_000_000_000_000);
    lemma_nearest_is_close(1, 1_000_000_000_000, 1 as real / 1_000_000_000_000int as real);
    lemma_without_sign(d);
    lemma_order_of_values(d.without_sign(), least);
}

/// The curve that is solved from well-spread anchors passes through them: at
/// each of the three places its value is the anchor's, up to a ten-thousandth of
/// the highest one, and its denominator is positive there.
#[verifier::spinoff_prover]
pub proof fn law_curve_passes_through_its_anchors(x: Seq<F32>, y: Seq<F32>)
    requires
        well_anchored(x, y),
    ensures
        ({
            let c = curve_through(x, y);
            let c1 = c[0].value();
            let c2 = c[1].value();
            let c3 = c[2].value();
            &&& c == cramer(x, y)
            &&& forall|k: int|
                0 <= k < 3 ==> passes(
                    c1,
                    c2,
                    c3,
                    (#[trigger] x[k]).value(),
                    y[k].value(),
                    y[2].value(),
                )
        }),
{
    lemma_determined(x, y);
    lemma_first_coefficient(x, y);
    lemma_second_coefficient(x, y);
    lemma_third_coefficient(x, y);
    lemma_system_det(x, y);
    reveal(well_anchored);
    let a = x[1].value();
    let b = x[2].value();
    let p = y[0].value();
    let q = y[1].value();
    let r = y[2].value();
    let d = determinant(anchor_cells(x, y)).value();
    let c = cramer(x, y);
    assert(nearly_solved(
        a,
        b,
        p,
        q,
        r,
        d,
        two(d, c[0].value()),
        two(d, c[1].value()),
        two(d, c[2].value()),
    )) by {
        reveal(nearly_solved);
    }
    lemma_curve(a, b, p, q, r, d, c[0].value(), c[1].value(), c[2].value());
    assert forall|k: int| 0 <= k < 3 implies passes(
        c[0].value(),
        c[1].value(),
        c[2].value(),
        (#[trigger] x[k]).value(),
        y[k].value(),
        r,
    ) by {
        assert(k == 0 || k == 1 || k == 2);
    }
}

/// The curve that is solved from well-spread anchors does not fall between the
/// first and the last of them: where `s` is not above `t`, neither is its value.
#[verifier::spinoff_prover]
pub proof fn law_curve_does_not_fall(x: Seq<F32>, y: Seq<F32>, s: real, t: real)
    requires
        well_anchored(x, y),
        x[0].value() <= s,
        s <= t,
        t <= x[2].value(),
    ensures
        ({
            let c = curve_through(x, y);
            let c1 = c[0].value();
            let c2 = c[1].value();
            let c3 = c[2].value();
            curve_value(c1, c2, c3, s) <= curve_value(c1, c2, c3, t)
        }),
{
    law_curve_passes_through_its_anchors(x, y);
    reveal(well_anchored);
    let c = curve_through(x, y);
    let a = x[1].value();
    let b = x[2].value();
    let p = y[0].value();
    let q = y[1].value();
    let r = y[2].value();
    lemma_spread(a, b, p, q, r);
    assert(passes(c[0].value(), c[1].value(), c[2].value(), x[0].value(), p, r));
    assert(passes(c[0].value(), c[1].value(), c[2].value(), b, r, r));
    lemma_does_not_fall(c[0].value(), c[1].value(), c[2].value(), b, p, r, s, t);
}

/// The tone curve of a frame joins the blacks, the knees and the peaks of source
/// and target: black of the source is shown as the target's black, the knee on
/// one side as the knee on the other, and the source's peak as the target's peak,
/// up to a ten-thousandth of that. Other operators have no such curve.
pub proof fn law_the_tone_curve_joins_source_and_target(
    pipeline: VideoRenderPipeline,
    knee: Knee,
    black: F32,
)
    requires
        black == target_black(pipeline.target, pipeline.tone_map.contrast_ratio),
        pipeline.tone_map.operator is St209410 ==> well_anchored(
            seq![F32 { bits: 0 }, knee.source, pipeline.source.nominal_peak_nits],
            seq![black, knee.target, pipeline.target.peak_nits],
        ),
    ensures
        ({
            let c = pipeline.coefficients(knee);
            let c1 = c[0].value();
            let c2 = c[1].value();
            let c3 = c[2].value();
            let peak = pipeline.target.peak_nits.value();
            &&& pipeline.tone_map.operator is St209410 ==> {
                &&& passes(c1, c2, c3, 0 as real, black.value(), peak)
                &&& passes(c1, c2, c3, knee.source.value(), knee.target.value(), peak)
                &&& passes(c1, c2, c3, pipeline.source.nominal_peak_nits.value(), peak, peak)
            }
            &&& !(pipeline.tone_map.operator is St209410) ==> forall|k: int|
                0 <= k < 4 ==> (#[trigger] c[k]).bits == 0
        }),
{
    if pipeline.tone_map.operator is St209410 {
        let x = seq![F32 { bits: 0 }, knee.source, pipeline.source.nominal_peak_nits];
        let y = seq![black, knee.target, pipeline.target.peak_nits];
        law_curve_passes_through_its_anchors(x, y);
        lemma_zero_and_one();
        let c = pipeline.coefficients(knee);
        assert(c == curve_through(x, y));
        assert(x[0] == F32 { bits: 0 } && x[1] == knee.source && x[2]
            == pipeline.source.nominal_peak_nits);
        assert(y[0] == black && y[1] == knee.target && y[2] == pipeline.target.peak_nits);
        assert(passes(
            c[0].value(),
            c[1].value(),
            c[2].value(),
            x[0].value(),
            y[0].value(),
            y[2].value(),
        ));
        assert(passes(
            c[0].value(),
            c[1].value(),
            c[2].value(),
            x[1].value(),
            y[1].value(),
            y[2].value(),
        ));
        assert(passes(
            c[0].value(),
            c[1].value(),
            c[2].value(),
            x[2].value(),
            y[2].value(),
            y[2].value(),
        ));
    }
}

} // verus!
