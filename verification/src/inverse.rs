//! How close the inverse of a matrix comes to undoing it.
use crate::accuracy::{
    lemma_difference_is_close, lemma_product_is_close, lemma_quotient_is_close,
    lemma_size_of_product, lemma_sum_is_close, lemma_zero_and_one, size_of, tiny,
};
use crate::anchors::{three, two};
use crate::float::{F32, ONE_BITS};
use crate::matrix::{applied, determinant, dot, inverted, minor, multiplied};
use crate::product::product;
use crate::quotient::quotient;
use crate::sum::{difference, sum};
use vstd::prelude::*;

verus! {

/// `x` is `exact` up to `k` roundings of numbers of this size.
#[verifier::opaque]
pub open spec fn near(x: F32, exact: real, size: real, k: int) -> bool {
    &&& x.finite()
    &&& size_of(exact) <= size
    &&& 0x100_0000 as real * size_of(x.value() - exact) <= k as real * size
}

/// Sizes that are neither tiny nor large.
pub open spec fn moderate(size: real) -> bool {
    &&& size * 0x1_0000_0000int as real >= 1 as real
    &&& size <= 0x1_0000_0000int as real
}

/// A number is itself.
#[verifier::spinoff_prover]
pub proof fn lemma_itself(x: F32, size: real)
    requires
        x.finite(),
        size_of(x.value()) <= size,
    ensures
        near(x, x.value(), size, 0),
{
    reveal(near);
    assert(0 as real * size == 0 as real) by (nonlinear_arith);
}

#[verifier::spinoff_prover]
proof fn lemma_product_bounds(a: real, b: real, ea: real, eb: real, sa: real, sb: real, ka: real,
    kb: real, p: real)
    requires
        size_of(ea) <= sa,
        size_of(eb) <= sb,
        0x100_0000 as real * size_of(a - ea) <= ka * sa,
        0x100_0000 as real * size_of(b - eb) <= kb * sb,
        0 as real <= ka <= 2000 as real,
        0 as real <= kb <= 2000 as real,
        moderate(sa * sb),
        sa > 0 as real,
        sb > 0 as real,
        0x100_0000 as real * size_of(p - a * b) <= size_of(a * b) + tiny(),
    ensures
        size_of(ea * eb) <= sa * sb,
        0x100_0000 as real * size_of(p - ea * eb) <= (ka + kb + 2 as real) * (sa * sb),
{
    let n = 0x100_0000 as real;
    let s = sa * sb;
    lemma_size_of_product(ea, eb);
    let xa = size_of(ea);
    let xb = size_of(eb);
    assert(xa * xb <= s) by (nonlinear_arith)
        requires
            0 as real <= xa <= sa,
            0 as real <= xb <= sb,
            s == sa * sb,
    ;
    let da = a - ea;
    let db = b - eb;
    assert(a * b == ea * eb + ea * db + eb * da + da * db) by (nonlinear_arith)
        requires
            da == a - ea,
            db == b - eb,
    ;
    let t1 = ea * db;
    let t2 = eb * da;
    let t3 = da * db;
    lemma_size_of_product(ea, db);
    lemma_size_of_product(eb, da);
    lemma_size_of_product(da, db);
    let ya = size_of(da);
    let yb = size_of(db);
    assert(n * (xa * yb) <= kb * s) by (nonlinear_arith)
        requires
            n * yb <= kb * sb,
            0 as real <= xa <= sa,
            yb >= 0 as real,
            sb > 0 as real,
            kb >= 0 as real,
            s == sa * sb,
            n == 0x100_0000 as real,
    ;
    assert(n * (xb * ya) <= ka * s) by (nonlinear_arith)
        requires
            n * ya <= ka * sa,
            0 as real <= xb <= sb,
            ya >= 0 as real,
            sa > 0 as real,
            ka >= 0 as real,
            s == sa * sb,
            n == 0x100_0000 as real,
    ;
    let ua = n * ya;
    let ub = n * yb;
    assert(ua <= 2000 as real * sa) by (nonlinear_arith)
        requires
            ua <= ka * sa,
            ka <= 2000 as real,
            sa > 0 as real,
    ;
    assert(ub <= 2000 as real * sb) by (nonlinear_arith)
        requires
            ub <= kb * sb,
            kb <= 2000 as real,
            sb > 0 as real,
    ;
    assert(ua * ub <= 4_000_000 as real * s) by (nonlinear_arith)
        requires
            0 as real <= ua <= 2000 as real * sa,
            0 as real <= ub <= 2000 as real * sb,
            sa > 0 as real,
            sb > 0 as real,
            s == sa * sb,
    ;
    assert(n * (n * (ya * yb)) == ua * ub) by (nonlinear_arith)
        requires
            ua == n * ya,
            ub == n * yb,
    ;
    assert(n * (ya * yb) <= s / 4 as real);
    assert(ka * s <= 2000 as real * s && kb * s <= 2000 as real * s) by (nonlinear_arith)
        requires
            ka <= 2000 as real,
            kb <= 2000 as real,
            s > 0 as real,
    ;
    assert(s > 0 as real);
    assert((ka + kb + 2 as real) * s == ka * s + kb * s + 2 as real * s) by (nonlinear_arith);
    assert(tiny() <= s / 1000 as real);
    let moved = t1 + t2 + t3;
    assert(n * size_of(moved) <= kb * s + ka * s + s / 4 as real);
    assert(size_of(a * b) <= s + s / 1000 as real);
}

/// The product of two numbers that are nearly known.
#[verifier::spinoff_prover]
pub proof fn lemma_near_product(a: F32, b: F32, ea: real, eb: real, sa: real, sb: real, ka: int,
    kb: int)
    requires
        near(a, ea, sa, ka),
        near(b, eb, sb, kb),
        0 <= ka <= 2000,
        0 <= kb <= 2000,
        moderate(two(sa, sb)),
        sa > 0 as real,
        sb > 0 as real,
    ensures
        near(product(a, b), two(ea, eb), two(sa, sb), ka + kb + 2),
{
    reveal(near);
    reveal(two);
    let va = a.value();
    let vb = b.value();
    let s = sa * sb;
    let fa = ka as real;
    let fb = kb as real;
    assert(size_of(va) <= 2 as real * sa) by (nonlinear_arith)
        requires
            size_of(ea) <= sa,
            0x100_0000 as real * size_of(va - ea) <= fa * sa,
            0 as real <= fa <= 2000 as real,
            sa > 0 as real,
    ;
    assert(size_of(vb) <= 2 as real * sb) by (nonlinear_arith)
        requires
            size_of(eb) <= sb,
            0x100_0000 as real * size_of(vb - eb) <= fb * sb,
            0 as real <= fb <= 2000 as real,
            sb > 0 as real,
    ;
    lemma_size_of_product(va, vb);
    let xa = size_of(va);
    let xb = size_of(vb);
    assert(xa * xb <= 4 as real * s) by (nonlinear_arith)
        requires
            0 as real <= xa <= 2 as real * sa,
            0 as real <= xb <= 2 as real * sb,
            s == sa * sb,
    ;
    lemma_product_is_close(a, b);
    lemma_product_bounds(va, vb, ea, eb, sa, sb, fa, fb, product(a, b).value());
    assert((ka + kb + 2) as real == fa + fb + 2 as real);
}

#[verifier::spinoff_prover]
proof fn lemma_wider(k: real, s: real, most: real, more: real)
    requires
        0 as real <= k <= more,
        0 as real <= s <= most,
    ensures
        k * s <= more * most,
{
    assert(k * s <= more * most) by (nonlinear_arith)
        requires
            0 as real <= k <= more,
            0 as real <= s <= most,
    ;
}

/// A nearly known number is known a little less well, too.
#[verifier::spinoff_prover]
pub proof fn lemma_nearer(x: F32, exact: real, size: real, k: int, most: real, more: int)
    requires
        near(x, exact, size, k),
        size <= most,
        0 <= k <= more,
    ensures
        near(x, exact, most, more),
{
    reveal(near);
    lemma_wider(k as real, size, most, more as real);
}

/// The sum of two numbers that are nearly known.
#[verifier::spinoff_prover]
pub proof fn lemma_near_sum(a: F32, b: F32, ea: real, eb: real, sa: real, sb: real, k: int)
    requires
        near(a, ea, sa, k),
        near(b, eb, sb, k),
        0 <= k <= 2000,
        moderate(sa + sb),
    ensures
        near(sum(a, b), ea + eb, sa + sb, k + 2),
        near(difference(a, b), ea - eb, sa + sb, k + 2),
{
    reveal(near);
    let n = 0x100_0000 as real;
    let f = k as real;
    let s = sa + sb;
    assert(f * sa + f * sb == f * s) by (nonlinear_arith)
        requires
            s == sa + sb,
    ;
    assert(f * s <= 2000 as real * s) by (nonlinear_arith)
        requires
            f <= 2000 as real,
            s >= 0 as real,
    ;
    assert((k + 2) as real * s == f * s + 2 as real * s) by (nonlinear_arith)
        requires
            (k + 2) as real == f + 2 as real,
    ;
    assert(tiny() <= s / 1000 as real);
    lemma_sum_is_close(a, b);
    lemma_difference_is_close(a, b);
}

/// The determinant of two rows and two columns of nearly known numbers: of the
/// four numbers two lie in one column and two in the other.
#[verifier::spinoff_prover]
proof fn lemma_near_minor(a: F32, b: F32, c: F32, d: F32, s: real, t: real)
    requires
        a.finite() && b.finite() && c.finite() && d.finite(),
        size_of(a.value()) <= s,
        size_of(b.value()) <= t,
        size_of(c.value()) <= t,
        size_of(d.value()) <= s,
        moderate(two(s, t)),
        moderate(two(s, t) + two(s, t)),
        s > 0 as real,
        t > 0 as real,
    ensures
        near(
            minor(a, b, c, d),
            two(a.value(), b.value()) - two(c.value(), d.value()),
            two(s, t) + two(s, t),
            4,
        ),
{
    lemma_itself(a, s);
    lemma_itself(b, t);
    lemma_itself(c, t);
    lemma_itself(d, s);
    assert(two(t, s) == two(s, t)) by {
        reveal(two);
        assert(t * s == s * t) by (nonlinear_arith);
    }
    lemma_near_product(a, b, a.value(), b.value(), s, t, 0, 0);
    lemma_near_product(c, d, c.value(), d.value(), t, s, 0, 0);
    lemma_near_sum(
        product(a, b),
        product(c, d),
        two(a.value(), b.value()),
        two(c.value(), d.value()),
        two(s, t),
        two(s, t),
        2,
    );
}

/// The exact determinant of two rows and two columns.
pub open spec fn crossed(m: Seq<F32>, a: int, b: int, c: int, d: int) -> real {
    two(m[a].value(), m[b].value()) - two(m[c].value(), m[d].value())
}

/// The exact determinant.
pub open spec fn exact_det(m: Seq<F32>) -> real {
    two(m[0].value(), crossed(m, 4, 8, 5, 7)) - two(m[1].value(), crossed(m, 3, 8, 5, 6)) + two(
        m[2].value(),
        crossed(m, 3, 7, 4, 6),
    )
}

/// The cells of a column are numbers of at most this size.
pub open spec fn column_within(m: Seq<F32>, j: int, size: real) -> bool {
    &&& m[j].finite() && size_of(m[j].value()) <= size
    &&& m[j + 3].finite() && size_of(m[j + 3].value()) <= size
    &&& m[j + 6].finite() && size_of(m[j + 6].value()) <= size
}

/// Nine cells with columns of these sizes.
pub open spec fn sized(m: Seq<F32>, p: real, q: real, r: real) -> bool {
    &&& m.len() == 9
    &&& column_within(m, 0, p)
    &&& column_within(m, 1, q)
    &&& column_within(m, 2, r)
    &&& 1 as real <= 256 as real * p && p <= 256 as real
    &&& 1 as real <= 256 as real * q && q <= 256 as real
    &&& 1 as real <= 256 as real * r && r <= 256 as real
}

#[verifier::spinoff_prover]
proof fn lemma_two_sizes(s: real, t: real)
    requires
        1 as real <= 256 as real * s && s <= 256 as real,
        1 as real <= 256 as real * t && t <= 256 as real,
    ensures
        1 as real <= 65536 as real * two(s, t),
        two(s, t) <= 65536 as real,
        moderate(two(s, t)),
        moderate(two(s, t) + two(s, t)),
{
    reveal(two);
    let u = s * t;
    assert(1 as real <= 65536 as real * u && u <= 65536 as real) by (nonlinear_arith)
        requires
            u == s * t,
            1 as real <= 256 as real * s,
            s <= 256 as real,
            1 as real <= 256 as real * t,
            t <= 256 as real,
    ;
}

#[verifier::spinoff_prover]
proof fn lemma_three_sizes(p: real, q: real, r: real)
    requires
        1 as real <= 256 as real * p && p <= 256 as real,
        1 as real <= 256 as real * q && q <= 256 as real,
        1 as real <= 256 as real * r && r <= 256 as real,
    ensures
        ({
            let all = two(p, two(q, r));
            &&& two(p, two(q, r) + two(q, r)) == all + all
            &&& two(q, two(p, r) + two(p, r)) == all + all
            &&& two(r, two(p, q) + two(p, q)) == all + all
            &&& all * 0x100_0000 as real >= 1 as real
            &&& all <= 0x100_0000 as real
            &&& moderate(all + all)
            &&& moderate(all + all + (all + all))
            &&& moderate(all + all + (all + all) + (all + all))
        }),
{
    reveal(two);
    let a = q * r;
    let b = p * r;
    let c = p * q;
    assert(p * (a + a) == p * a + p * a) by (nonlinear_arith);
    assert(q * (b + b) == p * a + p * a) by (nonlinear_arith)
        requires
            a == q * r,
            b == p * r,
    ;
    assert(r * (c + c) == p * a + p * a) by (nonlinear_arith)
        requires
            a == q * r,
            c == p * q,
    ;
    lemma_two_sizes(q, r);
    let all = p * a;
    assert(all * 0x100_0000 as real >= 1 as real && all <= 0x100_0000 as real)
        by (nonlinear_arith)
        requires
            all == p * a,
            1 as real <= 256 as real * p,
            p <= 256 as real,
            1 as real <= 65536 as real * a,
            a <= 65536 as real,
    ;
}

/// The determinant of three rows is nearly the exact one.
#[verifier::spinoff_prover]
proof fn lemma_near_determinant(m: Seq<F32>, p: real, q: real, r: real)
    requires
        sized(m, p, q, r),
    ensures
        ({
            let all = two(p, two(q, r));
            near(determinant(m), exact_det(m), all + all + (all + all) + (all + all), 10)
        }),
{
    let all = two(p, two(q, r));
    lemma_two_sizes(q, r);
    lemma_two_sizes(p, r);
    lemma_two_sizes(p, q);
    lemma_three_sizes(p, q, r);
    lemma_near_minor(m[4], m[8], m[5], m[7], q, r);
    lemma_near_minor(m[3], m[8], m[5], m[6], p, r);
    lemma_near_minor(m[3], m[7], m[4], m[6], p, q);
    lemma_itself(m[0], p);
    lemma_itself(m[1], q);
    lemma_itself(m[2], r);
    let a = minor(m[4], m[8], m[5], m[7]);
    let b = minor(m[3], m[8], m[5], m[6]);
    let c = minor(m[3], m[7], m[4], m[6]);
    lemma_near_product(
        m[0],
        a,
        m[0].value(),
        crossed(m, 4, 8, 5, 7),
        p,
        two(q, r) + two(q, r),
        0,
        4,
    );
    lemma_near_product(
        m[1],
        b,
        m[1].value(),
        crossed(m, 3, 8, 5, 6),
        q,
        two(p, r) + two(p, r),
        0,
        4,
    );
    lemma_near_product(
        m[2],
        c,
        m[2].value(),
        crossed(m, 3, 7, 4, 6),
        r,
        two(p, q) + two(p, q),
        0,
        4,
    );
    let x = product(m[0], a);
    let y = product(m[1], b);
    let z = product(m[2], c);
    lemma_near_sum(
        x,
        y,
        two(m[0].value(), crossed(m, 4, 8, 5, 7)),
        two(m[1].value(), crossed(m, 3, 8, 5, 6)),
        all + all,
        all + all,
        6,
    );
    lemma_nearer(
        z,
        two(m[2].value(), crossed(m, 3, 7, 4, 6)),
        all + all,
        6,
        all + all,
        8,
    );
    lemma_near_sum(
        difference(x, y),
        z,
        two(m[0].value(), crossed(m, 4, 8, 5, 7)) - two(m[1].value(), crossed(m, 3, 8, 5, 6)),
        two(m[2].value(), crossed(m, 3, 7, 4, 6)),
        all + all + (all + all),
        all + all,
        8,
    );
}

#[verifier::spinoff_prover]
proof fn lemma_reciprocal_bounds(d: real, e: real, i: real, q: real, x: real, k: real)
    requires
        i * e == 1 as real,
        q * d == 1 as real,
        0x100_0000 as real * size_of(d - e) <= k * size_of(e),
        0 as real <= k <= 1500 as real,
        moderate(size_of(i)),
        0x100_0000 as real * size_of(x - q) <= size_of(q) + tiny(),
    ensures
        0x100_0000 as real * size_of(x - i) <= (k + 5 as real) * size_of(i),
        size_of(q) <= 2 as real * size_of(i),
{
    let n = 0x100_0000 as real;
    let se = size_of(e);
    let si = size_of(i);
    let sq = size_of(q);
    let sd = size_of(d);
    lemma_size_of_product(i, e);
    lemma_size_of_product(q, d);
    let off = d - e;
    let so = size_of(off);
    assert(q - i == -(q * off * i)) by (nonlinear_arith)
        requires
            i * e == 1 as real,
            q * d == 1 as real,
            off == d - e,
    ;
    lemma_size_of_product(q, off);
    lemma_size_of_product(q * off, i);
    let w = so * si;
    assert(w >= 0 as real) by (nonlinear_arith)
        requires
            w == so * si,
            so >= 0 as real,
            si >= 0 as real,
    ;
    assert(n * w <= k) by (nonlinear_arith)
        requires
            n * so <= k * se,
            si * se == 1 as real,
            w == so * si,
            si > 0 as real,
    ;
    assert(size_of(q - i) == sq * w) by (nonlinear_arith)
        requires
            size_of(q - i) == (sq * so) * si,
            w == so * si,
    ;
    assert(sq * w <= sq / 1000 as real) by (nonlinear_arith)
        requires
            n * w <= k,
            k <= 1500 as real,
            n == 0x100_0000 as real,
            w >= 0 as real,
            sq >= 0 as real,
    ;
    assert(sq <= si + si / 500 as real);
    assert(n * (sq * w) <= (k + k / 1000 as real + k / 1000 as real) * si) by (nonlinear_arith)
        requires
            n * w <= k,
            sq <= si + si / 500 as real,
            sq >= 0 as real,
            si > 0 as real,
            k >= 0 as real,
            w >= 0 as real,
            n > 0 as real,
    ;
    assert(n * size_of(q - i) <= (k + k / 500 as real) * si);
    assert(tiny() <= si / 1000 as real);
    assert((k + k / 500 as real) * si == k * si + (k * si) / 500 as real) by (nonlinear_arith);
    assert((k + 5 as real) * si == k * si + 5 as real * si) by (nonlinear_arith);
    assert(k * si <= 1500 as real * si) by (nonlinear_arith)
        requires
            k <= 1500 as real,
            si > 0 as real,
    ;
    // One rounding of the quotient, and what the denominator was off.
    assert(n * size_of(x - i) <= n * size_of(x - q) + n * size_of(q - i));
}

/// One over a nearly known number that is not too small for its size.
#[verifier::spinoff_prover]
proof fn lemma_near_reciprocal(x: F32, exact: real, size: real, ratio: int, i: real)
    requires
        near(x, exact, size, 10),
        size <= 6 as real * two(ratio as real, size_of(exact)),
        1 <= ratio <= 20,
        two(i, exact) == 1 as real,
        moderate(size_of(i)),
    ensures
        near(quotient(F32 { bits: ONE_BITS }, x), i, size_of(i), 60 * ratio + 5),
{
    reveal(near);
    reveal(two);
    lemma_zero_and_one();
    let one = F32 { bits: ONE_BITS };
    let d = x.value();
    let e = exact;
    let se = size_of(e);
    let f = ratio as real;
    let k = 60 as real * f;
    assert(10 as real * size <= k * se) by (nonlinear_arith)
        requires
            size <= 6 as real * (f * se),
            k == 60 as real * f,
    ;
    assert(0x100_0000 as real * size_of(d - e) <= 1500 as real * se) by (nonlinear_arith)
        requires
            0x100_0000 as real * size_of(d - e) <= k * se,
            k <= 1200 as real,
            se >= 0 as real,
    ;
    lemma_size_of_product(i, e);
    assert(se > 0 as real) by (nonlinear_arith)
        requires
            size_of(i) * se == 1 as real,
            se >= 0 as real,
    ;
    assert(d != 0 as real);
    let q = 1 as real / d;
    assert(q * d == 1 as real) by (nonlinear_arith)
        requires
            q == 1 as real / d,
            d != 0 as real,
    ;
    lemma_size_of_product(q, d);
    let sq = size_of(q);
    let si = size_of(i);
    assert(sq <= 2 as real * si) by (nonlinear_arith)
        requires
            sq * size_of(d) == 1 as real,
            si * se == 1 as real,
            2 as real * size_of(d) >= se,
            se > 0 as real,
            sq >= 0 as real,
            si >= 0 as real,
    ;
    lemma_quotient_is_close(one, x, q);
    lemma_reciprocal_bounds(d, e, i, q, quotient(one, x).value(), k);
    assert((60 * ratio + 5) as real == k + 5 as real);
}

/// One cell of the inverse: a minor of two columns over the determinant.
#[verifier::spinoff_prover]
proof fn lemma_near_cell(cell: F32, exact: real, size: real, scale: F32, i: real, k: int)
    requires
        near(cell, exact, size, 4),
        near(scale, i, size_of(i), k),
        0 <= k <= 1300,
        size > 0 as real,
        size_of(i) > 0 as real,
        moderate(two(size, size_of(i))),
    ensures
        near(product(cell, scale), two(exact, i), two(size, size_of(i)), k + 6),
{
    lemma_near_product(cell, scale, exact, i, size, size_of(i), 4, k);
}

/// The cells of the exact adjugate, row by row.
pub open spec fn adjugate(m: Seq<F32>, n: int) -> real {
    if n == 0 {
        crossed(m, 4, 8, 5, 7)
    } else if n == 1 {
        crossed(m, 2, 7, 1, 8)
    } else if n == 2 {
        crossed(m, 1, 5, 2, 4)
    } else if n == 3 {
        crossed(m, 5, 6, 3, 8)
    } else if n == 4 {
        crossed(m, 0, 8, 2, 6)
    } else if n == 5 {
        crossed(m, 2, 3, 0, 5)
    } else if n == 6 {
        crossed(m, 3, 7, 4, 6)
    } else if n == 7 {
        crossed(m, 1, 6, 0, 7)
    } else {
        crossed(m, 0, 4, 1, 3)
    }
}

/// The size of the minors in a row of the adjugate: they lack the column with the
/// row's number.
pub open spec fn minor_size(p: real, q: real, r: real, row: int) -> real {
    if row == 0 {
        two(q, r) + two(q, r)
    } else if row == 1 {
        two(p, r) + two(p, r)
    } else {
        two(p, q) + two(p, q)
    }
}

/// The matrix has columns of these sizes, and its determinant, whose inverse is
/// `i`, is not too small for them.
pub open spec fn invertible(m: Seq<F32>, p: real, q: real, r: real, ratio: int, i: real) -> bool {
    &&& sized(m, p, q, r)
    &&& 1 <= ratio <= 20
    &&& two(p, two(q, r)) <= two(ratio as real, size_of(exact_det(m)))
    &&& two(i, exact_det(m)) == 1 as real
    &&& size_of(i) * 1024 as real >= 1 as real
    &&& size_of(i) <= 1024 as real
}

#[verifier::spinoff_prover]
proof fn lemma_cell_size(s: real, t: real)
    requires
        1 as real <= 65536 as real * s && s <= 131072 as real,
        t * 1024 as real >= 1 as real,
        t <= 1024 as real,
    ensures
        moderate(two(s, t)),
{
    reveal(two);
    let u = s * t;
    assert(u * 0x1_0000_0000int as real >= 1 as real && u <= 0x1_0000_0000int as real)
        by (nonlinear_arith)
        requires
            u == s * t,
            1 as real <= 65536 as real * s,
            s <= 131072 as real,
            t * 1024 as real >= 1 as real,
            t <= 1024 as real,
    ;
}

/// Every cell of the inverse is nearly the exact one.
#[verifier::spinoff_prover]
pub proof fn lemma_near_inverse(
    m: Seq<F32>,
    p: real,
    q: real,
    r: real,
    ratio: int,
    i: real,
    n: int,
)
    requires
        invertible(m, p, q, r, ratio, i),
        0 <= n < 9,
    ensures
        near(
            inverted(m)[n],
            two(adjugate(m, n), i),
            two(minor_size(p, q, r, n / 3), size_of(i)),
            60 * ratio + 11,
        ),
{
    let all = two(p, two(q, r));
    lemma_two_sizes(q, r);
    lemma_two_sizes(p, r);
    lemma_two_sizes(p, q);
    lemma_three_sizes(p, q, r);
    lemma_near_determinant(m, p, q, r);
    let scale = quotient(F32 { bits: ONE_BITS }, determinant(m));
    lemma_near_reciprocal(
        determinant(m),
        exact_det(m),
        all + all + (all + all) + (all + all),
        ratio,
        i,
    );
    let size = minor_size(p, q, r, n / 3);
    lemma_cell_size(size, size_of(i));
    let k = 60 * ratio + 5;
    if n == 0 {
        lemma_near_minor(m[4], m[8], m[5], m[7], q, r);
        lemma_near_cell(minor(m[4], m[8], m[5], m[7]), adjugate(m, n), size, scale, i, k);
    } else if n == 1 {
        lemma_swapped(q, r);
        lemma_near_minor(m[2], m[7], m[1], m[8], r, q);
        lemma_near_cell(minor(m[2], m[7], m[1], m[8]), adjugate(m, n), size, scale, i, k);
    } else if n == 2 {
        lemma_near_minor(m[1], m[5], m[2], m[4], q, r);
        lemma_near_cell(minor(m[1], m[5], m[2], m[4]), adjugate(m, n), size, scale, i, k);
    } else if n == 3 {
        lemma_swapped(p, r);
        lemma_near_minor(m[5], m[6], m[3], m[8], r, p);
        lemma_near_cell(minor(m[5], m[6], m[3], m[8]), adjugate(m, n), size, scale, i, k);
    } else if n == 4 {
        lemma_near_minor(m[0], m[8], m[2], m[6], p, r);
        lemma_near_cell(minor(m[0], m[8], m[2], m[6]), adjugate(m, n), size, scale, i, k);
    } else if n == 5 {
        lemma_swapped(p, r);
        lemma_near_minor(m[2], m[3], m[0], m[5], r, p);
        lemma_near_cell(minor(m[2], m[3], m[0], m[5]), adjugate(m, n), size, scale, i, k);
    } else if n == 6 {
        lemma_near_minor(m[3], m[7], m[4], m[6], p, q);
        lemma_near_cell(minor(m[3], m[7], m[4], m[6]), adjugate(m, n), size, scale, i, k);
    } else if n == 7 {
        lemma_swapped(p, q);
        lemma_near_minor(m[1], m[6], m[0], m[7], q, p);
        lemma_near_cell(minor(m[1], m[6], m[0], m[7]), adjugate(m, n), size, scale, i, k);
    } else {
        lemma_near_minor(m[0], m[4], m[1], m[3], p, q);
        lemma_near_cell(minor(m[0], m[4], m[1], m[3]), adjugate(m, n), size, scale, i, k);
    }
}

#[verifier::spinoff_prover]
proof fn lemma_swapped(s: real, t: real)
    ensures
        two(s, t) == two(t, s),
{
    reveal(two);
    assert(s * t == t * s) by (nonlinear_arith);
}

/// A minor times a number, multiplied out.
#[verifier::spinoff_prover]
proof fn lemma_minor_times(x: real, y: real, z: real, w: real, v: real)
    ensures
        two(two(x, y) - two(z, w), v) == three(x, y, v) - three(z, w, v),
        two(v, two(x, y) - two(z, w)) == three(x, y, v) - three(z, w, v),
{
    reveal(two);
    reveal(three);
    assert((x * y - z * w) * v == x * y * v - z * w * v) by (nonlinear_arith);
    assert(v * (x * y - z * w) == x * y * v - z * w * v) by (nonlinear_arith);
}

/// The order of factors does not matter.
#[verifier::spinoff_prover]
proof fn lemma_triple(x: real, y: real, z: real)
    ensures
        three(x, z, y) == three(x, y, z),
        three(y, x, z) == three(x, y, z),
        three(y, z, x) == three(x, y, z),
        three(z, x, y) == three(x, y, z),
        three(z, y, x) == three(x, y, z),
{
    reveal(three);
    assert(x * z * y == x * y * z) by (nonlinear_arith);
    assert(y * x * z == x * y * z) by (nonlinear_arith);
    assert(y * z * x == x * y * z) by (nonlinear_arith);
    assert(z * x * y == x * y * z) by (nonlinear_arith);
    assert(z * y * x == x * y * z) by (nonlinear_arith);
}

/// A matrix times its adjugate, on either side, is the determinant times the
/// identity: one cell of the product.
#[verifier::spinoff_prover]
proof fn lemma_adjugate_cell(m: Seq<F32>, row: int, column: int)
    requires
        m.len() == 9,
        0 <= row < 3,
        0 <= column < 3,
    ensures
        two(adjugate(m, 3 * row), m[column].value()) + two(
            adjugate(m, 3 * row + 1),
            m[column + 3].value(),
        ) + two(adjugate(m, 3 * row + 2), m[column + 6].value()) == if row == column {
            exact_det(m)
        } else {
            0 as real
        },
        two(adjugate(m, column), m[3 * row].value()) + two(
            adjugate(m, column + 3),
            m[3 * row + 1].value(),
        ) + two(adjugate(m, column + 6), m[3 * row + 2].value()) == if row == column {
            exact_det(m)
        } else {
            0 as real
        },
{
    let a = m[0].value();
    let b = m[1].value();
    let c = m[2].value();
    let d = m[3].value();
    let e = m[4].value();
    let f = m[5].value();
    let g = m[6].value();
    let h = m[7].value();
    let i = m[8].value();
    if row == 0 && column == 0 {
        lemma_minor_times(b, f, c, e, g);
        lemma_minor_times(c, h, b, i, d);
        lemma_minor_times(d, h, e, g, c);
        lemma_minor_times(d, i, f, g, b);
        lemma_minor_times(e, i, f, h, a);
        lemma_minor_times(f, g, d, i, b);
        lemma_triple(a, e, i);
        lemma_triple(a, f, h);
        lemma_triple(b, d, i);
        lemma_triple(b, f, g);
        lemma_triple(c, d, h);
        lemma_triple(c, e, g);
    } else if row == 0 && column == 1 {
        lemma_minor_times(a, i, c, g, b);
        lemma_minor_times(b, f, c, e, h);
        lemma_minor_times(b, g, a, h, c);
        lemma_minor_times(c, h, b, i, a);
        lemma_minor_times(c, h, b, i, e);
        lemma_minor_times(e, i, f, h, b);
        lemma_triple(a, b, i);
        lemma_triple(a, c, h);
        lemma_triple(b, c, g);
        lemma_triple(b, e, i);
        lemma_triple(b, f, h);
        lemma_triple(c, e, h);
    } else if row == 0 && column == 2 {
        lemma_minor_times(a, e, b, d, c);
        lemma_minor_times(b, f, c, e, a);
        lemma_minor_times(b, f, c, e, i);
        lemma_minor_times(c, d, a, f, b);
        lemma_minor_times(c, h, b, i, f);
        lemma_minor_times(e, i, f, h, c);
        lemma_triple(a, b, f);
        lemma_triple(a, c, e);
        lemma_triple(b, c, d);
        lemma_triple(b, f, i);
        lemma_triple(c, e, i);
        lemma_triple(c, f, h);
    } else if row == 1 && column == 0 {
        lemma_minor_times(a, i, c, g, d);
        lemma_minor_times(c, d, a, f, g);
        lemma_minor_times(d, h, e, g, f);
        lemma_minor_times(e, i, f, h, d);
        lemma_minor_times(f, g, d, i, a);
        lemma_minor_times(f, g, d, i, e);
        lemma_triple(a, d, i);
        lemma_triple(a, f, g);
        lemma_triple(c, d, g);
        lemma_triple(d, e, i);
        lemma_triple(d, f, h);
        lemma_triple(e, f, g);
    } else if row == 1 && column == 1 {
        lemma_minor_times(a, i, c, g, e);
        lemma_minor_times(b, g, a, h, f);
        lemma_minor_times(c, d, a, f, h);
        lemma_minor_times(c, h, b, i, d);
        lemma_minor_times(d, h, e, g, c);
        lemma_minor_times(d, i, f, g, b);
        lemma_minor_times(e, i, f, h, a);
        lemma_minor_times(f, g, d, i, b);
        lemma_triple(a, e, i);
        lemma_triple(a, f, h);
        lemma_triple(b, d, i);
        lemma_triple(b, f, g);
        lemma_triple(c, d, h);
        lemma_triple(c, e, g);
    } else if row == 1 && column == 2 {
        lemma_minor_times(a, e, b, d, f);
        lemma_minor_times(a, i, c, g, f);
        lemma_minor_times(b, f, c, e, d);
        lemma_minor_times(c, d, a, f, e);
        lemma_minor_times(c, d, a, f, i);
        lemma_minor_times(f, g, d, i, c);
        lemma_triple(a, e, f);
        lemma_triple(a, f, i);
        lemma_triple(b, d, f);
        lemma_triple(c, d, e);
        lemma_triple(c, d, i);
        lemma_triple(c, f, g);
    } else if row == 2 && column == 0 {
        lemma_minor_times(a, e, b, d, g);
        lemma_minor_times(b, g, a, h, d);
        lemma_minor_times(d, h, e, g, a);
        lemma_minor_times(d, h, e, g, i);
        lemma_minor_times(e, i, f, h, g);
        lemma_minor_times(f, g, d, i, h);
        lemma_triple(a, d, h);
        lemma_triple(a, e, g);
        lemma_triple(b, d, g);
        lemma_triple(d, h, i);
        lemma_triple(e, g, i);
        lemma_triple(f, g, h);
    } else if row == 2 && column == 1 {
        lemma_minor_times(a, e, b, d, h);
        lemma_minor_times(a, i, c, g, h);
        lemma_minor_times(b, g, a, h, e);
        lemma_minor_times(b, g, a, h, i);
        lemma_minor_times(c, h, b, i, g);
        lemma_minor_times(d, h, e, g, b);
        lemma_triple(a, e, h);
        lemma_triple(a, h, i);
        lemma_triple(b, d, h);
        lemma_triple(b, e, g);
        lemma_triple(b, g, i);
        lemma_triple(c, g, h);
    } else if row == 2 && column == 2 {
        lemma_minor_times(a, e, b, d, i);
        lemma_minor_times(b, f, c, e, g);
        lemma_minor_times(b, g, a, h, f);
        lemma_minor_times(c, d, a, f, h);
        lemma_minor_times(d, h, e, g, c);
        lemma_minor_times(d, i, f, g, b);
        lemma_minor_times(e, i, f, h, a);
        lemma_triple(a, e, i);
        lemma_triple(a, f, h);
        lemma_triple(b, d, i);
        lemma_triple(b, f, g);
        lemma_triple(c, d, h);
        lemma_triple(c, e, g);
    }
}

/// A row of the product of two matrices, exactly.
pub open spec fn row_by_column(a: Seq<F32>, b: Seq<F32>, row: int, column: int) -> real {
    two(a[3 * row].value(), b[column].value()) + two(
        a[3 * row + 1].value(),
        b[column + 3].value(),
    ) + two(a[3 * row + 2].value(), b[column + 6].value())
}

/// The identity.
pub open spec fn unit(row: int, column: int) -> real {
    if row == column {
        1 as real
    } else {
        0 as real
    }
}

/// Three numbers that are nearly known, times three others.
#[verifier::spinoff_prover]
proof fn lemma_three_products(
    x: (real, real, real),
    y: (real, real, real),
    c: (real, real, real),
    m: (real, real, real),
    g: (real, real, real),
)
    requires
        0x100_0000 as real * size_of(x.0 - y.0) <= c.0,
        0x100_0000 as real * size_of(x.1 - y.1) <= c.1,
        0x100_0000 as real * size_of(x.2 - y.2) <= c.2,
        size_of(m.0) <= g.0,
        size_of(m.1) <= g.1,
        size_of(m.2) <= g.2,
    ensures
        0x100_0000 as real * size_of(
            (two(x.0, m.0) + two(x.1, m.1) + two(x.2, m.2)) - (two(y.0, m.0) + two(y.1, m.1) + two(
                y.2,
                m.2,
            )),
        ) <= two(c.0, g.0) + two(c.1, g.1) + two(c.2, g.2),
{
    lemma_off_times(x.0, y.0, c.0, m.0, g.0);
    lemma_off_times(x.1, y.1, c.1, m.1, g.1);
    lemma_off_times(x.2, y.2, c.2, m.2, g.2);
}

#[verifier::spinoff_prover]
proof fn lemma_off_times(x: real, y: real, c: real, m: real, g: real)
    requires
        0x100_0000 as real * size_of(x - y) <= c,
        size_of(m) <= g,
    ensures
        0x100_0000 as real * size_of(two(x, m) - two(y, m)) <= two(c, g),
{
    reveal(two);
    let off = x - y;
    lemma_size_of_product(off, m);
    assert(x * m - y * m == off * m) by (nonlinear_arith)
        requires
            off == x - y,
    ;
    let so = size_of(off);
    let sm = size_of(m);
    assert(0x100_0000 as real * (so * sm) <= c * g) by (nonlinear_arith)
        requires
            0x100_0000 as real * so <= c,
            0 as real <= sm <= g,
            so >= 0 as real,
    ;
}

/// How far one cell of the inverse may be off, times the size of the column that
/// it lacks, is the same for all of them.
#[verifier::spinoff_prover]
proof fn lemma_cell_weight(p: real, q: real, r: real, row: int, i: real, d: real, ratio: int)
    requires
        1 as real <= 256 as real * p && p <= 256 as real,
        1 as real <= 256 as real * q && q <= 256 as real,
        1 as real <= 256 as real * r && r <= 256 as real,
        0 <= row < 3,
        1 <= ratio <= 20,
        two(p, two(q, r)) <= two(ratio as real, size_of(d)),
        two(i, d) == 1 as real,
    ensures
        ({
            let c = two((60 * ratio + 11) as real, two(minor_size(p, q, r, row), size_of(i)));
            let g = if row == 0 {
                p
            } else if row == 1 {
                q
            } else {
                r
            };
            two(c, g) <= 50_000 as real
        }),
{
    lemma_three_sizes(p, q, r);
    let g = if row == 0 {
        p
    } else if row == 1 {
        q
    } else {
        r
    };
    let ms = minor_size(p, q, r, row);
    let all = two(p, two(q, r));
    assert(two(g, ms) == all + all);
    let si = size_of(i);
    let f = ratio as real;
    let k = (60 * ratio + 11) as real;
    lemma_over_det(all, f, i, d);
    lemma_regroup(k, two(ms, si), g);
    lemma_regroup(ms, si, g);
    lemma_regroup(si, ms, g);
    lemma_swapped(ms, si);
    lemma_swapped(ms, g);
    lemma_swapped(si, two(ms, g));
    lemma_common(si, all, all);
    assert(two(two(ms, si), g) == two(si, two(ms, g)));
    assert(two(si, all + all) == two(si, all) + two(si, all));
    lemma_swapped(si, all);
    lemma_bounded_product(k, two(two(ms, si), g), 1211 as real, 40 as real);
}

/// Factors in another order.
#[verifier::spinoff_prover]
pub proof fn lemma_regroup(a: real, b: real, c: real)
    ensures
        two(two(a, b), c) == two(b, two(a, c)),
        two(two(a, b), c) == two(a, two(b, c)),
{
    reveal(two);
    assert((a * b) * c == b * (a * c)) by (nonlinear_arith);
    assert((a * b) * c == a * (b * c)) by (nonlinear_arith);
}

/// A common factor of a sum.
#[verifier::spinoff_prover]
pub proof fn lemma_common(i: real, x: real, y: real)
    ensures
        two(i, x) + two(i, y) == two(i, x + y),
        two(x, i) + two(y, i) == two(x + y, i),
{
    reveal(two);
    assert(i * x + i * y == i * (x + y)) by (nonlinear_arith);
    assert(x * i + y * i == (x + y) * i) by (nonlinear_arith);
}

#[verifier::spinoff_prover]
proof fn lemma_bounded_product(k: real, w: real, most: real, top: real)
    requires
        0 as real <= k <= most,
        w <= top,
        0 as real <= top,
    ensures
        two(k, w) <= most * top,
{
    reveal(two);
    assert(k * w <= most * top) by (nonlinear_arith)
        requires
            0 as real <= k <= most,
            w <= top,
            0 as real <= top,
    ;
}

#[verifier::spinoff_prover]
proof fn lemma_over_det(all: real, f: real, i: real, d: real)
    requires
        all <= two(f, size_of(d)),
        two(i, d) == 1 as real,
    ensures
        two(all, size_of(i)) <= f,
{
    reveal(two);
    lemma_size_of_product(i, d);
    let si = size_of(i);
    let sd = size_of(d);
    assert(all * si <= f) by (nonlinear_arith)
        requires
            all <= f * sd,
            si * sd == 1 as real,
            si >= 0 as real,
    ;
}

/// A matrix times its inverse is nearly the identity.
#[verifier::spinoff_prover]
proof fn lemma_right_inverse(
    m: Seq<F32>,
    p: real,
    q: real,
    r: real,
    ratio: int,
    i: real,
    row: int,
    column: int,
)
    requires
        invertible(m, p, q, r, ratio, i),
        0 <= row < 3,
        0 <= column < 3,
    ensures
        100 as real * size_of(row_by_column(m, inverted(m), row, column) - unit(row, column))
            <= 1 as real,
{
    let inv = inverted(m);
    lemma_near_inverse(m, p, q, r, ratio, i, column);
    lemma_near_inverse(m, p, q, r, ratio, i, column + 3);
    lemma_near_inverse(m, p, q, r, ratio, i, column + 6);
    let k = (60 * ratio + 11) as real;
    let d = exact_det(m);
    lemma_cell_weight(p, q, r, 0, i, d, ratio);
    lemma_cell_weight(p, q, r, 1, i, d, ratio);
    lemma_cell_weight(p, q, r, 2, i, d, ratio);
    let x = (inv[column].value(), inv[column + 3].value(), inv[column + 6].value());
    let a0 = adjugate(m, column);
    let a1 = adjugate(m, column + 3);
    let a2 = adjugate(m, column + 6);
    let y = (two(a0, i), two(a1, i), two(a2, i));
    let c = (
        two(k, two(minor_size(p, q, r, 0), size_of(i))),
        two(k, two(minor_size(p, q, r, 1), size_of(i))),
        two(k, two(minor_size(p, q, r, 2), size_of(i))),
    );
    let v = (m[3 * row].value(), m[3 * row + 1].value(), m[3 * row + 2].value());
    assert(column / 3 == 0 && (column + 3) / 3 == 1 && (column + 6) / 3 == 2);
    assert(size_of(v.0) <= p && size_of(v.1) <= q && size_of(v.2) <= r) by {
        assert(row == 0 || row == 1 || row == 2);
    }
    let kk = 60 * ratio + 11;
    lemma_off(inv[column], y.0, two(minor_size(p, q, r, 0), size_of(i)), kk);
    lemma_off(inv[column + 3], y.1, two(minor_size(p, q, r, 1), size_of(i)), kk);
    lemma_off(inv[column + 6], y.2, two(minor_size(p, q, r, 2), size_of(i)), kk);
    lemma_three_products(x, y, c, v, (p, q, r));
    lemma_adjugate_cell(m, row, column);
    lemma_exact_cell(a0, a1, a2, i, d, v.0, v.1, v.2, row == column);
    let u = unit(row, column);
    assert(two(y.0, v.0) + two(y.1, v.1) + two(y.2, v.2) == u);
    lemma_swapped(v.0, x.0);
    lemma_swapped(v.1, x.1);
    lemma_swapped(v.2, x.2);
}

/// How far a nearly known number may be off.
#[verifier::spinoff_prover]
proof fn lemma_off(x: F32, exact: real, size: real, k: int)
    requires
        near(x, exact, size, k),
    ensures
        0x100_0000 as real * size_of(x.value() - exact) <= two(k as real, size),
{
    reveal(near);
    reveal(two);
}

/// The exact cells give exactly the identity.
#[verifier::spinoff_prover]
proof fn lemma_exact_cell(
    a0: real,
    a1: real,
    a2: real,
    i: real,
    d: real,
    v0: real,
    v1: real,
    v2: real,
    same: bool,
)
    requires
        two(i, d) == 1 as real,
        two(a0, v0) + two(a1, v1) + two(a2, v2) == if same {
            d
        } else {
            0 as real
        },
    ensures
        two(two(a0, i), v0) + two(two(a1, i), v1) + two(two(a2, i), v2) == if same {
            1 as real
        } else {
            0 as real
        },
{
    lemma_regroup(a0, i, v0);
    lemma_regroup(a1, i, v1);
    lemma_regroup(a2, i, v2);
    lemma_common(i, two(a0, v0), two(a1, v1));
    lemma_common(i, two(a0, v0) + two(a1, v1), two(a2, v2));
    lemma_no_product(i);
}

#[verifier::spinoff_prover]
proof fn lemma_no_product(i: real)
    ensures
        two(i, 0 as real) == 0 as real,
{
    reveal(two);
    assert(i * (0 as real) == 0 as real) by (nonlinear_arith);
}

/// The inverse of a matrix times the matrix is nearly the identity, where its
/// columns are of one size.
#[verifier::spinoff_prover]
proof fn lemma_left_inverse(m: Seq<F32>, s: real, ratio: int, i: real, row: int, column: int)
    requires
        invertible(m, s, s, s, ratio, i),
        0 <= row < 3,
        0 <= column < 3,
    ensures
        100 as real * size_of(row_by_column(inverted(m), m, row, column) - unit(row, column))
            <= 1 as real,
{
    let inv = inverted(m);
    lemma_near_inverse(m, s, s, s, ratio, i, 3 * row);
    lemma_near_inverse(m, s, s, s, ratio, i, 3 * row + 1);
    lemma_near_inverse(m, s, s, s, ratio, i, 3 * row + 2);
    let k = (60 * ratio + 11) as real;
    let d = exact_det(m);
    lemma_cell_weight(s, s, s, 0, i, d, ratio);
    let x = (inv[3 * row].value(), inv[3 * row + 1].value(), inv[3 * row + 2].value());
    let a0 = adjugate(m, 3 * row);
    let a1 = adjugate(m, 3 * row + 1);
    let a2 = adjugate(m, 3 * row + 2);
    let y = (two(a0, i), two(a1, i), two(a2, i));
    let each = two(k, two(minor_size(s, s, s, 0), size_of(i)));
    let v = (m[column].value(), m[column + 3].value(), m[column + 6].value());
    assert((3 * row) / 3 == row && (3 * row + 1) / 3 == row && (3 * row + 2) / 3 == row);
    assert(size_of(v.0) <= s && size_of(v.1) <= s && size_of(v.2) <= s) by {
        assert(column == 0 || column == 1 || column == 2);
    }
    assert(minor_size(s, s, s, row) == minor_size(s, s, s, 0));
    let kk = 60 * ratio + 11;
    let size = two(minor_size(s, s, s, 0), size_of(i));
    lemma_off(inv[3 * row], y.0, size, kk);
    lemma_off(inv[3 * row + 1], y.1, size, kk);
    lemma_off(inv[3 * row + 2], y.2, size, kk);
    lemma_three_products(x, y, (each, each, each), v, (s, s, s));
    lemma_adjugate_cell(m, row, column);
    lemma_exact_cell(a0, a1, a2, i, d, v.0, v.1, v.2, row == column);
    let u = unit(row, column);
    assert(two(y.0, v.0) + two(y.1, v.1) + two(y.2, v.2) == u);
}

/// The inverse of a matrix undoes it from either side, up to a hundredth, where
/// its cells have at most the size `s` and its determinant is not too small for
/// them.
pub proof fn law_the_inverse_undoes_a_matrix(
    m: Seq<F32>,
    s: real,
    ratio: int,
    i: real,
    row: int,
    column: int,
)
    requires
        invertible(m, s, s, s, ratio, i),
        0 <= row < 3,
        0 <= column < 3,
    ensures
        100 as real * size_of(row_by_column(inverted(m), m, row, column) - unit(row, column))
            <= 1 as real,
        100 as real * size_of(row_by_column(m, inverted(m), row, column) - unit(row, column))
            <= 1 as real,
{
    lemma_left_inverse(m, s, ratio, i, row, column);
    lemma_right_inverse(m, s, s, s, ratio, i, row, column);
}

/// Nine numbers of at most this size.
pub open spec fn cells_within(m: Seq<F32>, size: real) -> bool {
    &&& m.len() == 9
    &&& forall|n: int|
        0 <= n < 9 ==> (#[trigger] m[n]).finite() && size_of(m[n].value()) <= size
}

/// A product of two numbers of at most four, nearly.
#[verifier::spinoff_prover]
proof fn lemma_product_of_fours(a: F32, b: F32)
    requires
        a.finite() && b.finite(),
        size_of(a.value()) <= 4 as real,
        size_of(b.value()) <= 4 as real,
    ensures
        near(product(a, b), two(a.value(), b.value()), 16 as real, 2),
{
    let four = 4 as real;
    assert(two(four, four) == 16 as real) by {
        reveal(two);
    }
    lemma_itself(a, four);
    lemma_itself(b, four);
    lemma_near_product(a, b, a.value(), b.value(), four, four, 0, 0);
}

/// A row times a column is the sum of the products, nearly.
#[verifier::spinoff_prover]
proof fn lemma_near_dot(a: F32, b: F32, c: F32, x: F32, y: F32, z: F32)
    requires
        a.finite() && b.finite() && c.finite() && x.finite() && y.finite() && z.finite(),
        size_of(a.value()) <= 4 as real,
        size_of(b.value()) <= 4 as real,
        size_of(c.value()) <= 4 as real,
        size_of(x.value()) <= 4 as real,
        size_of(y.value()) <= 4 as real,
        size_of(z.value()) <= 4 as real,
    ensures
        dot(a, b, c, x, y, z).finite(),
        10_000 as real * size_of(
            dot(a, b, c, x, y, z).value() - (two(a.value(), x.value()) + two(b.value(), y.value())
                + two(c.value(), z.value())),
        ) <= 1 as real,
{
    let s = 16 as real;
    lemma_product_of_fours(a, x);
    lemma_product_of_fours(b, y);
    lemma_product_of_fours(c, z);
    let e = two(a.value(), x.value());
    let f = two(b.value(), y.value());
    let g = two(c.value(), z.value());
    lemma_near_sum(product(a, x), product(b, y), e, f, s, s, 2);
    lemma_nearer(product(c, z), g, s, 2, s, 4);
    lemma_near_sum(sum(product(a, x), product(b, y)), product(c, z), e + f, g, s + s, s, 4);
    reveal(near);
}

/// The product of two matrices has rows times columns for cells, up to a
/// ten-thousandth, where the cells of both have at most the size four.
pub proof fn law_products_are_rows_times_columns(a: Seq<F32>, b: Seq<F32>, row: int, column: int)
    requires
        cells_within(a, 4 as real),
        cells_within(b, 4 as real),
        0 <= row < 3,
        0 <= column < 3,
    ensures
        multiplied(a, b)[3 * row + column].finite(),
        10_000 as real * size_of(
            multiplied(a, b)[3 * row + column].value() - row_by_column(a, b, row, column),
        ) <= 1 as real,
{
    let n = 3 * row + column;
    assert(n / 3 == row && n % 3 == column);
    lemma_near_dot(
        a[3 * row],
        a[3 * row + 1],
        a[3 * row + 2],
        b[column],
        b[column + 3],
        b[column + 6],
    );
}

/// A matrix applied to a column gives rows times the column, up to a
/// ten-thousandth.
pub proof fn law_a_matrix_takes_columns_to_columns(a: Seq<F32>, v: Seq<F32>, row: int)
    requires
        cells_within(a, 4 as real),
        v.len() == 3,
        forall|k: int|
            0 <= k < 3 ==> (#[trigger] v[k]).finite() && size_of(v[k].value()) <= 4 as real,
        0 <= row < 3,
    ensures
        applied(a, v)[row].finite(),
        10_000 as real * size_of(
            applied(a, v)[row].value() - (two(a[3 * row].value(), v[0].value()) + two(
                a[3 * row + 1].value(),
                v[1].value(),
            ) + two(a[3 * row + 2].value(), v[2].value())),
        ) <= 1 as real,
{
    lemma_near_dot(a[3 * row], a[3 * row + 1], a[3 * row + 2], v[0], v[1], v[2]);
}

} // verus!
