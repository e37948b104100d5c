//! The rational curve through three points, in exact arithmetic: how far small
//! errors of its coefficients move it.
use crate::accuracy::size_of;
use vstd::prelude::*;

verus! {

/// Points at zero, `a` and `b` with the values `p`, `q` and `r`, each well apart
/// from the next, on a curve that does not bend far below a straight line.
#[verifier::opaque]
pub open spec fn well_spread(a: real, b: real, p: real, q: real, r: real) -> bool {
    &&& a > 0 as real
    &&& 2 as real * a <= b
    &&& p >= 0 as real
    &&& 2 as real * p <= q
    &&& q > 0 as real
    &&& 2 as real * q <= r
    &&& a * r <= 2 as real * (b * q)
}

/// A product. Products are kept closed, so that sums of them stay linear.
#[verifier::opaque]
pub open spec fn two(x: real, y: real) -> real {
    x * y
}

#[verifier::opaque]
pub open spec fn three(x: real, y: real, z: real) -> real {
    x * y * z
}

#[verifier::opaque]
pub open spec fn four(x: real, y: real, z: real, v: real) -> real {
    x * y * z * v
}

/// The determinant of the system.
pub open spec fn system(a: real, b: real, q: real, r: real) -> real {
    three(a, b, q) - three(a, b, r)
}

/// The determinant that gives the value at zero.
pub open spec fn first(a: real, b: real, p: real, q: real, r: real) -> real {
    two(p, system(a, b, q, r))
}

/// The determinant that gives the coefficient above the fraction bar.
pub open spec fn second(a: real, b: real, p: real, q: real, r: real) -> real {
    three(a, q, r) - three(b, q, r) + two(p, two(b, r) - two(a, q))
}

/// The determinant that gives the coefficient below the fraction bar.
pub open spec fn third(a: real, b: real, p: real, q: real, r: real) -> real {
    two(a, r) - two(b, q) + two(p, b - a)
}

/// The bound of a product by one of its factors.
#[verifier::spinoff_prover]
proof fn lemma_times(c: real, x: real, bound: real)
    requires
        c >= 0 as real,
        size_of(x) <= bound,
    ensures
        size_of(two(c, x)) <= two(c, bound),
{
    reveal(two);
    let y = c * x;
    assert(y <= c * bound && -y <= c * bound) by (nonlinear_arith)
        requires
            y == c * x,
            c >= 0 as real,
            x <= bound,
            -x <= bound,
    ;
}

/// Parts in two to the power of 23, as they count the roundings.
spec fn parts(n: int) -> real {
    n as real / 0x80_0000 as real
}

/// Products with the numbers of roundings that occur.
#[verifier::spinoff_prover]
proof fn lemma_by_parts(x: real)
    ensures
        two(parts(20), x) == 20 as real / 0x80_0000 as real * x,
        two(parts(26), x) == 26 as real / 0x80_0000 as real * x,
        two(parts(32), x) == 32 as real / 0x80_0000 as real * x,
        two(parts(39), x) == 39 as real / 0x80_0000 as real * x,
{
    reveal(two);
    assert(parts(20) == 20 as real / 0x80_0000 as real);
    assert(parts(26) == 26 as real / 0x80_0000 as real);
    assert(parts(32) == 32 as real / 0x80_0000 as real);
    assert(parts(39) == 39 as real / 0x80_0000 as real);
}

/// A factor goes into a product of parts.
#[verifier::spinoff_prover]
proof fn lemma_into_parts(c: real, k: real, x: real)
    ensures
        two(c, two(k, x)) == two(k, two(c, x)),
{
    lemma_two_of_two(c, k, x);
}

/// How the products of the points compare.
#[verifier::spinoff_prover]
proof fn lemma_compare(a: real, b: real, p: real, q: real, r: real)
    requires
        well_spread(a, b, p, q, r),
    ensures
        a > 0 as real && b > 0 as real && p >= 0 as real && q > 0 as real && r > 0 as real,
        2 as real * p <= q,
        three(a, b, r) > 0 as real,
        four(a, b, q, r) > 0 as real,
        three(b, b, q) > 0 as real,
        2 as real * three(a, b, q) <= three(a, b, r),
        2 as real * three(a, a, r) <= three(a, b, r),
        2 as real * four(a, b, q, q) <= four(a, b, q, r),
        2 as real * four(a, a, q, r) <= four(a, b, q, r),
        2 as real * four(a, b, q, r) <= four(b, b, q, r),
        2 as real * four(a, b, q, r) <= four(a, b, r, r),
        four(a, b, r, r) <= 2 as real * four(b, b, q, r),
        three(a, b, r) <= 2 as real * three(b, b, q),
{
    reveal(well_spread);
    reveal(three);
    reveal(four);
    let ab = a * b;
    assert(ab > 0 as real) by (nonlinear_arith)
        requires
            ab == a * b,
            a > 0 as real,
            b > 0 as real,
    ;
    lemma_compare_above(ab, q, r);
    lemma_compare_left(a, b, q, r);
    lemma_compare_bend(a, b, q, r);
    assert(b * b > 0 as real) by (nonlinear_arith)
        requires
            b > 0 as real,
    ;
    assert(b * b * q > 0 as real) by (nonlinear_arith)
        requires
            b * b > 0 as real,
            q > 0 as real,
    ;
}

#[verifier::spinoff_prover]
proof fn lemma_compare_above(c: real, q: real, r: real)
    requires
        c > 0 as real,
        q > 0 as real,
        2 as real * q <= r,
    ensures
        c * r > 0 as real,
        c * q * r > 0 as real,
        2 as real * (c * q) <= c * r,
        2 as real * (c * q * q) <= c * q * r,
        2 as real * (c * q * r) <= c * r * r,
{
    let x = c * q;
    assert(x > 0 as real && 2 as real * x <= c * r) by (nonlinear_arith)
        requires
            x == c * q,
            c > 0 as real,
            q > 0 as real,
            2 as real * q <= r,
    ;
    assert(2 as real * (x * q) <= x * r) by (nonlinear_arith)
        requires
            x > 0 as real,
            2 as real * q <= r,
    ;
    assert(x * r > 0 as real) by (nonlinear_arith)
        requires
            x > 0 as real,
            r > 0 as real,
    ;
    let y = c * r;
    assert(2 as real * (x * r) <= y * r) by (nonlinear_arith)
        requires
            2 as real * x <= y,
            r > 0 as real,
    ;
}

#[verifier::spinoff_prover]
proof fn lemma_compare_left(a: real, b: real, q: real, r: real)
    requires
        a > 0 as real,
        2 as real * a <= b,
        q > 0 as real,
        r > 0 as real,
    ensures
        2 as real * (a * a * r) <= a * b * r,
        2 as real * (a * a * q * r) <= a * b * q * r,
        2 as real * (a * b * q * r) <= b * b * q * r,
{
    let aa = a * a;
    let ab = a * b;
    let bb = b * b;
    assert(2 as real * aa <= ab && 2 as real * ab <= bb) by (nonlinear_arith)
        requires
            aa == a * a,
            ab == a * b,
            bb == b * b,
            a > 0 as real,
            2 as real * a <= b,
    ;
    assert(2 as real * (aa * r) <= ab * r) by (nonlinear_arith)
        requires
            2 as real * aa <= ab,
            r > 0 as real,
    ;
    assert(2 as real * (aa * q) <= ab * q && 2 as real * (ab * q) <= bb * q) by (nonlinear_arith)
        requires
            2 as real * aa <= ab,
            2 as real * ab <= bb,
            q > 0 as real,
    ;
    let x = aa * q;
    let y = ab * q;
    let z = bb * q;
    assert(2 as real * (x * r) <= y * r && 2 as real * (y * r) <= z * r) by (nonlinear_arith)
        requires
            2 as real * x <= y,
            2 as real * y <= z,
            r > 0 as real,
    ;
}

#[verifier::spinoff_prover]
proof fn lemma_compare_bend(a: real, b: real, q: real, r: real)
    requires
        b > 0 as real,
        r > 0 as real,
        a * r <= 2 as real * (b * q),
    ensures
        a * b * r <= 2 as real * (b * b * q),
        a * b * r * r <= 2 as real * (b * b * q * r),
{
    let x = a * b * r;
    let y = b * b * q;
    assert(x <= 2 as real * y) by (nonlinear_arith)
        requires
            x == a * b * r,
            y == b * b * q,
            b > 0 as real,
            a * r <= 2 as real * (b * q),
    ;
    assert(x * r <= 2 as real * (y * r)) by (nonlinear_arith)
        requires
            x <= 2 as real * y,
            r > 0 as real,
    ;
}

/// A product with a sum, multiplied out.
#[verifier::spinoff_prover]
pub proof fn lemma_two(c: real, x: real, y: real)
    ensures
        two(c, x + y) == two(c, x) + two(c, y),
        two(c, x - y) == two(c, x) - two(c, y),
        two(c, -x) == -two(c, x),
{
    reveal(two);
    assert(c * (x + y) == c * x + c * y) by (nonlinear_arith);
    assert(c * (x - y) == c * x - c * y) by (nonlinear_arith);
    assert(c * -x == -(c * x)) by (nonlinear_arith);
}

/// Products of products, in one order.
#[verifier::spinoff_prover]
pub proof fn lemma_two_of_two(x: real, y: real, z: real)
    ensures
        two(x, two(y, z)) == three(x, y, z),
        two(y, two(x, z)) == three(x, y, z),
        two(z, two(x, y)) == three(x, y, z),
        two(x, y) == two(y, x),
{
    reveal(two);
    reveal(three);
    assert(x * (y * z) == x * y * z) by (nonlinear_arith);
    assert(y * (x * z) == x * y * z) by (nonlinear_arith);
    assert(z * (x * y) == x * y * z) by (nonlinear_arith);
    assert(x * y == y * x) by (nonlinear_arith);
}

/// Products of products, in one order.
#[verifier::spinoff_prover]
pub proof fn lemma_two_of_three(x: real, y: real, z: real, v: real)
    ensures
        two(x, three(y, z, v)) == four(x, y, z, v),
        two(y, three(x, z, v)) == four(x, y, z, v),
        two(z, three(x, y, v)) == four(x, y, z, v),
        two(v, three(x, y, z)) == four(x, y, z, v),
{
    reveal(two);
    reveal(three);
    reveal(four);
    assert(x * (y * z * v) == x * y * z * v) by (nonlinear_arith);
    assert(y * (x * z * v) == x * y * z * v) by (nonlinear_arith);
    assert(z * (x * y * v) == x * y * z * v) by (nonlinear_arith);
    assert(v * (x * y * z) == x * y * z * v) by (nonlinear_arith);
}

/// The products that occur, in one order.
#[verifier::spinoff_prover]
proof fn lemma_forms(a: real, b: real, q: real, r: real)
    ensures
        two(a, three(b, q, r)) == four(a, b, q, r),
        two(b, three(b, q, r)) == four(b, b, q, r),
        two(q, three(a, b, r)) == four(a, b, q, r),
        two(r, three(a, b, r)) == four(a, b, r, r),
        two(a, two(a, r)) == three(a, a, r),
        two(a, two(b, q)) == three(a, b, q),
        two(b, two(a, r)) == three(a, b, r),
        two(b, two(b, q)) == three(b, b, q),
        two(q, three(a, a, r)) == four(a, a, q, r),
        two(q, three(a, b, q)) == four(a, b, q, q),
        two(r, three(b, b, q)) == four(b, b, q, r),
{
    lemma_two_of_three(a, b, q, r);
    lemma_two_of_three(b, b, q, r);
    lemma_two_of_three(a, b, r, r);
    lemma_two_of_three(a, a, q, r);
    lemma_two_of_three(a, b, q, q);
    lemma_two_of_two(a, a, r);
    lemma_two_of_two(a, b, q);
    lemma_two_of_two(a, b, r);
    lemma_two_of_two(b, b, q);
}

/// A solution of the system whose parts are off by a few roundings.
#[verifier::opaque]
pub open spec fn nearly_solved(
    a: real,
    b: real,
    p: real,
    q: real,
    r: real,
    d: real,
    d1: real,
    d2: real,
    d3: real,
) -> bool {
    let e = 0x80_0000 as real;
    &&& size_of(d - system(a, b, q, r)) <= 26 as real / e * three(a, b, r)
    &&& size_of(d1 - first(a, b, p, q, r)) <= 16 as real / e * four(a, b, q, r)
    &&& size_of(d2 - second(a, b, p, q, r)) <= 39 as real / e * three(b, q, r)
    &&& size_of(d3 - third(a, b, p, q, r)) <= 20 as real / e * two(a, r) + 32 as real / e * two(
        b,
        q,
    )
}

/// What the errors of the parts make of the equation at a point.
#[verifier::spinoff_prover]
proof fn lemma_parts(
    x: real,
    y: real,
    d: real,
    d1: real,
    d2: real,
    d3: real,
    s: real,
    n1: real,
    n2: real,
    n3: real,
)
    requires
        n1 + two(x, n2) == two(y, s + two(x, n3)),
    ensures
        d1 + two(x, d2) - two(y, d + two(x, d3)) == (d1 - n1) + two(x, d2 - n2) - two(y, d - s)
            - two(y, two(x, d3 - n3)),
        d + two(x, d3) == (d - s) + two(x, d3 - n3) + (s + two(x, n3)),
{
    lemma_two(x, d2, n2);
    lemma_two(x, d3, n3);
    lemma_two(y, d, two(x, d3));
    lemma_two(y, s, two(x, n3));
    lemma_two(y, d, s);
    lemma_two(y, two(x, d3), two(x, n3));
}

/// The denominator at the second point.
spec fn under_second(a: real, b: real, p: real, r: real) -> real {
    three(a, b, r) - three(a, b, p) - three(a, a, r) + three(a, a, p)
}

/// The denominator at the third point.
spec fn under_third(a: real, b: real, p: real, q: real) -> real {
    three(b, b, q) - three(b, b, p) - three(a, b, q) + three(a, b, p)
}

/// The exact solution passes through the second point.
#[verifier::spinoff_prover]
proof fn lemma_exact_at_second(a: real, b: real, p: real, q: real, r: real)
    ensures
        first(a, b, p, q, r) + two(a, second(a, b, p, q, r)) == two(
            q,
            system(a, b, q, r) + two(a, third(a, b, p, q, r)),
        ),
        system(a, b, q, r) + two(a, third(a, b, p, q, r)) == -under_second(a, b, p, r),
{
    // the coefficient below the bar
    lemma_two(p, b, a);
    lemma_two(a, two(a, r) - two(b, q), two(p, b - a));
    lemma_two(a, two(a, r), two(b, q));
    lemma_two(a, two(p, b), two(p, a));
    lemma_two_of_two(a, a, r);
    lemma_two_of_two(a, b, q);
    lemma_two_of_two(a, b, p);
    lemma_two_of_two(a, a, p);
    lemma_two_of_two(b, p, p);
    lemma_two_of_two(a, p, p);
    // the value at zero
    lemma_two(p, three(a, b, q), three(a, b, r));
    lemma_two_of_three(a, b, p, q);
    lemma_two_of_three(a, b, p, r);
    // the coefficient above the bar
    lemma_two(p, two(b, r), two(a, q));
    lemma_two(a, three(a, q, r) - three(b, q, r), two(p, two(b, r) - two(a, q)));
    lemma_two(a, three(a, q, r), three(b, q, r));
    lemma_two(a, two(p, two(b, r)), two(p, two(a, q)));
    lemma_two_of_two(b, p, r);
    lemma_two_of_two(a, p, q);
    lemma_two_of_three(a, a, q, r);
    lemma_two_of_three(a, b, q, r);
    lemma_two_of_three(a, a, p, q);
    // the denominator times the value
    let f = under_second(a, b, p, r);
    lemma_two(q, f, f);
    lemma_two(q, three(a, b, r) - three(a, b, p) - three(a, a, r), three(a, a, p));
    lemma_two(q, three(a, b, r) - three(a, b, p), three(a, a, r));
    lemma_two(q, three(a, b, r), three(a, b, p));
}

/// The exact solution passes through the third point.
#[verifier::spinoff_prover]
proof fn lemma_exact_at_third(a: real, b: real, p: real, q: real, r: real)
    ensures
        first(a, b, p, q, r) + two(b, second(a, b, p, q, r)) == two(
            r,
            system(a, b, q, r) + two(b, third(a, b, p, q, r)),
        ),
        system(a, b, q, r) + two(b, third(a, b, p, q, r)) == -under_third(a, b, p, q),
{
    // the coefficient below the bar
    lemma_two(p, b, a);
    lemma_two(b, two(a, r) - two(b, q), two(p, b - a));
    lemma_two(b, two(a, r), two(b, q));
    lemma_two(b, two(p, b), two(p, a));
    lemma_two_of_two(a, b, r);
    lemma_two_of_two(b, b, q);
    lemma_two_of_two(b, b, p);
    lemma_two_of_two(a, b, p);
    lemma_two_of_two(b, p, p);
    lemma_two_of_two(a, p, p);
    // the value at zero
    lemma_two(p, three(a, b, q), three(a, b, r));
    lemma_two_of_three(a, b, p, q);
    lemma_two_of_three(a, b, p, r);
    // the coefficient above the bar
    lemma_two(p, two(b, r), two(a, q));
    lemma_two(b, three(a, q, r) - three(b, q, r), two(p, two(b, r) - two(a, q)));
    lemma_two(b, three(a, q, r), three(b, q, r));
    lemma_two(b, two(p, two(b, r)), two(p, two(a, q)));
    lemma_two_of_two(b, p, r);
    lemma_two_of_two(a, p, q);
    lemma_two_of_three(a, b, q, r);
    lemma_two_of_three(b, b, q, r);
    lemma_two_of_three(b, b, p, r);
    // the denominator times the value
    let f = under_third(a, b, p, q);
    lemma_two(r, f, f);
    lemma_two(r, three(b, b, q) - three(b, b, p) - three(a, b, q), three(a, b, p));
    lemma_two(r, three(b, b, q) - three(b, b, p), three(a, b, q));
    lemma_two(r, three(b, b, q), three(b, b, p));
}

/// The exact denominators are not small.
#[verifier::spinoff_prover]
proof fn lemma_denominators(a: real, b: real, p: real, q: real, r: real)
    requires
        well_spread(a, b, p, q, r),
    ensures
        4 as real * under_second(a, b, p, r) >= three(a, b, r),
        4 as real * under_third(a, b, p, q) >= three(b, b, q),
        2 as real * system(a, b, q, r) <= -three(a, b, r),
{
    lemma_compare(a, b, p, q, r);
    reveal(well_spread);
    lemma_grid(a, b, p, r);
    lemma_grid(b, b, p, q);
    lemma_low(b, a, b, p, q);
    lemma_low(a, a, b, p, r);
}

/// Twice a lower value, where two factors are common.
#[verifier::spinoff_prover]
proof fn lemma_grid(x: real, b: real, p: real, q: real)
    requires
        x > 0 as real,
        b > 0 as real,
        p >= 0 as real,
        2 as real * p <= q,
    ensures
        three(x, b, p) >= 0 as real,
        2 as real * three(x, b, p) <= three(x, b, q),
        three(x, b, q) >= 0 as real,
{
    reveal(three);
    let c = x * b;
    assert(c > 0 as real) by (nonlinear_arith)
        requires
            c == x * b,
            x > 0 as real,
            b > 0 as real,
    ;
    assert(c * p >= 0 as real && 2 as real * (c * p) <= c * q) by (nonlinear_arith)
        requires
            c > 0 as real,
            p >= 0 as real,
            2 as real * p <= q,
    ;
}

/// What is left of a product where both of two factors are taken twice.
#[verifier::spinoff_prover]
proof fn lemma_low(c: real, a: real, b: real, p: real, q: real)
    requires
        c > 0 as real,
        2 as real * a <= b,
        a > 0 as real,
        2 as real * p <= q,
        p >= 0 as real,
    ensures
        2 as real * three(c, a, q) <= three(c, b, q),
        three(c, b, q) - 2 as real * three(c, b, p) - 2 as real * three(c, a, q) + 4 as real
            * three(c, a, p) >= 0 as real,
        three(c, a, q) == three(a, c, q),
        three(c, a, p) == three(a, c, p),
{
    reveal(three);
    let h = b - 2 as real * a;
    let k = q - 2 as real * p;
    let ca = c * a;
    let cb = c * b;
    let ch = c * h;
    assert(ch >= 0 as real && ch == cb - 2 as real * ca) by (nonlinear_arith)
        requires
            ch == c * h,
            cb == c * b,
            ca == c * a,
            h == b - 2 as real * a,
            h >= 0 as real,
            c > 0 as real,
    ;
    assert(ch * k >= 0 as real && ch * q >= 0 as real) by (nonlinear_arith)
        requires
            ch >= 0 as real,
            k >= 0 as real,
            q >= 0 as real,
    ;
    assert(ch * q == cb * q - 2 as real * (ca * q)) by (nonlinear_arith)
        requires
            ch == cb - 2 as real * ca,
    ;
    assert(ch * p == cb * p - 2 as real * (ca * p)) by (nonlinear_arith)
        requires
            ch == cb - 2 as real * ca,
    ;
    assert(ch * k == ch * q - 2 as real * (ch * p)) by (nonlinear_arith)
        requires
            k == q - 2 as real * p,
    ;
    assert(c * a == a * c) by (nonlinear_arith);
}

/// A gap that is small against a denominator, both measured by a product.
#[verifier::spinoff_prover]
proof fn lemma_gap(gap: real, under: real, r: real, t: real, tr: real)
    requires
        10_000 as real * size_of(gap) <= 22 as real / 100 as real * tr,
        -under >= 24 as real / 100 as real * t,
        tr == two(r, t),
        r > 0 as real,
        t > 0 as real,
    ensures
        under < 0 as real,
        10_000 as real * size_of(gap) <= two(r, -under),
{
    reveal(two);
    let v = -under;
    assert(r * v >= 24 as real / 100 as real * (r * t)) by (nonlinear_arith)
        requires
            v >= 24 as real / 100 as real * t,
            r > 0 as real,
    ;
    assert(r * t > 0 as real) by (nonlinear_arith)
        requires
            r > 0 as real,
            t > 0 as real,
    ;
}

/// At the second point.
#[verifier::spinoff_prover]
proof fn lemma_at_second(
    a: real,
    b: real,
    p: real,
    q: real,
    r: real,
    d: real,
    d1: real,
    d2: real,
    d3: real,
)
    requires
        well_spread(a, b, p, q, r),
        nearly_solved(a, b, p, q, r, d, d1, d2, d3),
    ensures
        d + two(a, d3) < 0 as real,
        10_000 as real * size_of(d1 + two(a, d2) - two(q, d + two(a, d3))) <= two(r, -(d + two(a, d3))),
{
    reveal(nearly_solved);
    let s = system(a, b, q, r);
    let n1 = first(a, b, p, q, r);
    let n2 = second(a, b, p, q, r);
    let n3 = third(a, b, p, q, r);
    lemma_compare(a, b, p, q, r);
    lemma_exact_at_second(a, b, p, q, r);
    lemma_denominators(a, b, p, q, r);
    lemma_parts(a, q, d, d1, d2, d3, s, n1, n2, n3);
    lemma_forms(a, b, q, r);
    lemma_by_parts(three(b, q, r));
    lemma_times(a, d2 - n2, two(parts(39), three(b, q, r)));
    lemma_into_parts(a, parts(39), three(b, q, r));
    lemma_by_parts(two(a, three(b, q, r)));
    lemma_by_parts(three(a, b, r));
    lemma_times(q, d - s, two(parts(26), three(a, b, r)));
    lemma_into_parts(q, parts(26), three(a, b, r));
    lemma_by_parts(two(q, three(a, b, r)));
    lemma_by_parts(two(a, r));
    lemma_by_parts(two(b, q));
    let bound = two(parts(20), two(a, r)) + two(parts(32), two(b, q));
    lemma_times(a, d3 - n3, bound);
    lemma_two(a, two(parts(20), two(a, r)), two(parts(32), two(b, q)));
    lemma_into_parts(a, parts(20), two(a, r));
    lemma_into_parts(a, parts(32), two(b, q));
    lemma_by_parts(three(a, a, r));
    lemma_by_parts(three(a, b, q));
    lemma_times(q, two(a, d3 - n3), two(a, bound));
    lemma_two(q, two(parts(20), three(a, a, r)), two(parts(32), three(a, b, q)));
    lemma_into_parts(q, parts(20), three(a, a, r));
    lemma_into_parts(q, parts(32), three(a, b, q));
    lemma_by_parts(four(a, a, q, r));
    lemma_by_parts(four(a, b, q, q));
    lemma_gap(
        d1 + two(a, d2) - two(q, d + two(a, d3)),
        d + two(a, d3),
        r,
        three(a, b, r),
        four(a, b, r, r),
    );
}

/// At the third point.
#[verifier::spinoff_prover]
proof fn lemma_at_third(
    a: real,
    b: real,
    p: real,
    q: real,
    r: real,
    d: real,
    d1: real,
    d2: real,
    d3: real,
)
    requires
        well_spread(a, b, p, q, r),
        nearly_solved(a, b, p, q, r, d, d1, d2, d3),
    ensures
        d + two(b, d3) < 0 as real,
        10_000 as real * size_of(d1 + two(b, d2) - two(r, d + two(b, d3))) <= two(r, -(d + two(b, d3))),
{
    reveal(nearly_solved);
    let s = system(a, b, q, r);
    let n1 = first(a, b, p, q, r);
    let n2 = second(a, b, p, q, r);
    let n3 = third(a, b, p, q, r);
    lemma_compare(a, b, p, q, r);
    lemma_exact_at_third(a, b, p, q, r);
    lemma_denominators(a, b, p, q, r);
    lemma_parts(b, r, d, d1, d2, d3, s, n1, n2, n3);
    lemma_forms(a, b, q, r);
    lemma_by_parts(three(b, q, r));
    lemma_times(b, d2 - n2, two(parts(39), three(b, q, r)));
    lemma_into_parts(b, parts(39), three(b, q, r));
    lemma_by_parts(two(b, three(b, q, r)));
    lemma_by_parts(three(a, b, r));
    lemma_times(r, d - s, two(parts(26), three(a, b, r)));
    lemma_into_parts(r, parts(26), three(a, b, r));
    lemma_by_parts(two(r, three(a, b, r)));
    lemma_by_parts(two(a, r));
    lemma_by_parts(two(b, q));
    let bound = two(parts(20), two(a, r)) + two(parts(32), two(b, q));
    lemma_times(b, d3 - n3, bound);
    lemma_two(b, two(parts(20), two(a, r)), two(parts(32), two(b, q)));
    lemma_into_parts(b, parts(20), two(a, r));
    lemma_into_parts(b, parts(32), two(b, q));
    lemma_by_parts(three(a, b, r));
    lemma_by_parts(three(b, b, q));
    lemma_times(r, two(b, d3 - n3), two(b, bound));
    lemma_two(r, two(parts(20), three(a, b, r)), two(parts(32), three(b, b, q)));
    lemma_into_parts(r, parts(20), three(a, b, r));
    lemma_into_parts(r, parts(32), three(b, b, q));
    lemma_by_parts(four(a, b, r, r));
    lemma_by_parts(four(b, b, q, r));
    lemma_gap(
        d1 + two(b, d2) - two(r, d + two(b, d3)),
        d + two(b, d3),
        r,
        three(b, b, q),
        four(b, b, q, r),
    );
}

/// A larger factor gives a larger product.
#[verifier::spinoff_prover]
proof fn lemma_larger(p: real, q: real, x: real)
    requires
        p <= q,
        x >= 0 as real,
    ensures
        two(p, x) <= two(q, x),
{
    reveal(two);
    assert(p * x <= q * x) by (nonlinear_arith)
        requires
            p <= q,
            x >= 0 as real,
    ;
}

/// At zero.
#[verifier::spinoff_prover]
proof fn lemma_at_zero(
    a: real,
    b: real,
    p: real,
    q: real,
    r: real,
    d: real,
    d1: real,
    d2: real,
    d3: real,
)
    requires
        well_spread(a, b, p, q, r),
        nearly_solved(a, b, p, q, r, d, d1, d2, d3),
    ensures
        d < 0 as real,
        10_000 as real * size_of(d1 - two(p, d)) <= two(r, -d),
{
    reveal(nearly_solved);
    let s = system(a, b, q, r);
    let n1 = first(a, b, p, q, r);
    lemma_compare(a, b, p, q, r);
    lemma_denominators(a, b, p, q, r);
    lemma_forms(a, b, q, r);
    lemma_by_parts(three(a, b, r));
    let bound = two(parts(26), three(a, b, r));
    lemma_times(p, d - s, bound);
    lemma_larger(p, q, bound);
    lemma_into_parts(q, parts(26), three(a, b, r));
    lemma_by_parts(two(q, three(a, b, r)));
    lemma_two(p, d, s);
    lemma_gap(d1 - two(p, d), d, r, three(a, b, r), four(a, b, r, r));
}

/// The value of the curve with these coefficients.
#[verifier::opaque]
pub open spec fn curve_value(c1: real, c2: real, c3: real, x: real) -> real {
    (c1 + c2 * x) / (1 as real + c3 * x)
}

/// The curve with these coefficients passes a point within a ten-thousandth of
/// `r`, and its denominator is positive there.
#[verifier::opaque]
pub open spec fn passes(c1: real, c2: real, c3: real, x: real, y: real, r: real) -> bool {
    let under = 1 as real + c3 * x;
    &&& under > 0 as real
    &&& 10_000 as real * size_of(curve_value(c1, c2, c3, x) - y) <= r
}

/// A gap that is small against the denominator is small after the division.
#[verifier::spinoff_prover]
proof fn lemma_passes(
    x: real,
    y: real,
    r: real,
    d: real,
    c1: real,
    c2: real,
    c3: real,
)
    requires
        d < 0 as real,
        d + two(x, two(d, c3)) < 0 as real,
        10_000 as real * size_of(
            two(d, c1) + two(x, two(d, c2)) - two(y, d + two(x, two(d, c3))),
        ) <= two(r, -(d + two(x, two(d, c3)))),
    ensures
        passes(c1, c2, c3, x, y, r),
{
    reveal(passes);
    reveal(curve_value);
    let m = 1 as real + c3 * x;
    let n = c1 + c2 * x;
    let v = n / m;
    let k = v - y;
    let g = -d;
    let under = d + two(x, two(d, c3));
    let gap = two(d, c1) + two(x, two(d, c2)) - two(y, under);
    assert(under == -two(g, m)) by {
        reveal(two);
        assert(d + x * (d * c3) == -(g * m)) by (nonlinear_arith)
            requires
                m == 1 as real + c3 * x,
                g == -d,
        ;
    }
    assert(two(g, m) > 0 as real);
    assert(m > 0 as real) by {
        reveal(two);
        assert(m > 0 as real) by (nonlinear_arith)
            requires
                g * m > 0 as real,
                g > 0 as real,
        ;
    }
    assert(two(v, m) == n) by {
        reveal(two);
        assert(v * m == n) by (nonlinear_arith)
            requires
                v == n / m,
                m > 0 as real,
        ;
    }
    assert(two(d, c1) + two(x, two(d, c2)) == -two(g, n)) by {
        reveal(two);
        assert(d * c1 + x * (d * c2) == -(g * n)) by (nonlinear_arith)
            requires
                n == c1 + c2 * x,
                g == -d,
        ;
    }
    lemma_two_of_two(v, g, m);
    lemma_two_of_two(y, g, m);
    lemma_two(y, two(g, m), 0 as real);
    lemma_two_of_two(r, g, m);
    let gm = two(g, m);
    assert(gap == two(y, gm) - two(v, gm));
    lemma_two_right(gm, y, v);
    lemma_divide(gap, v - y, r, gm);
}

/// A common right factor.
#[verifier::spinoff_prover]
proof fn lemma_two_right(c: real, x: real, y: real)
    ensures
        two(x, c) - two(y, c) == -two(c, y - x),
{
    lemma_two(c, y, x);
    lemma_two_of_two(c, x, x);
    lemma_two_of_two(c, y, y);
}

#[verifier::spinoff_prover]
proof fn lemma_divide(gap: real, k: real, r: real, w: real)
    requires
        gap == -two(w, k),
        w > 0 as real,
        10_000 as real * size_of(gap) <= two(r, w),
    ensures
        10_000 as real * size_of(k) <= r,
{
    reveal(two);
    assert(10_000 as real * k <= r && -(10_000 as real * k) <= r) by (nonlinear_arith)
        requires
            10_000 as real * (w * k) <= r * w,
            -(10_000 as real * (w * k)) <= r * w,
            w > 0 as real,
    ;
}

/// A nearly solved system gives a curve that passes all three points.
#[verifier::spinoff_prover]
pub proof fn lemma_curve(
    a: real,
    b: real,
    p: real,
    q: real,
    r: real,
    d: real,
    c1: real,
    c2: real,
    c3: real,
)
    requires
        well_spread(a, b, p, q, r),
        nearly_solved(a, b, p, q, r, d, two(d, c1), two(d, c2), two(d, c3)),
    ensures
        passes(c1, c2, c3, 0 as real, p, r),
        passes(c1, c2, c3, a, q, r),
        passes(c1, c2, c3, b, r, r),
{
    lemma_at_zero(a, b, p, q, r, d, two(d, c1), two(d, c2), two(d, c3));
    lemma_at_second(a, b, p, q, r, d, two(d, c1), two(d, c2), two(d, c3));
    lemma_at_third(a, b, p, q, r, d, two(d, c1), two(d, c2), two(d, c3));
    lemma_units(two(d, c3));
    lemma_units(two(d, c2));
    lemma_passes(0 as real, p, r, d, c1, c2, c3);
    lemma_passes(a, q, r, d, c1, c2, c3);
    lemma_passes(b, r, r, d, c1, c2, c3);
}

/// Products with zero and one.
#[verifier::spinoff_prover]
pub proof fn lemma_units(x: real)
    ensures
        two(0 as real, x) == 0 as real,
        two(x, 0 as real) == 0 as real,
        two(1 as real, x) == x,
        two(x, 1 as real) == x,
{
    reveal(two);
}

/// Products with a negated factor, and in the other order.
#[verifier::spinoff_prover]
pub proof fn lemma_signs(x: real, y: real)
    ensures
        two(x, y) == two(y, x),
        two(x, -y) == -two(x, y),
        two(-x, y) == -two(x, y),
{
    lemma_two(x, y, y);
    lemma_two(y, x, x);
    lemma_two_of_two(x, y, y);
    lemma_two_of_two(-x, y, y);
}

/// Products with a fraction of a factor.
#[verifier::spinoff_prover]
pub proof fn lemma_fractions(x: real, y: real)
    ensures
        two(x / 2 as real, y) == two(x, y) / 2 as real,
        two(x / 16 as real, y) == two(x, y) / 16 as real,
        two(x / 32 as real, y) == two(x, y) / 32 as real,
        two(x, y / 16 as real) == two(x, y) / 16 as real,
{
    reveal(two);
    assert((x / 2 as real) * y == x * y / 2 as real) by (nonlinear_arith);
    assert((x / 16 as real) * y == x * y / 16 as real) by (nonlinear_arith);
    assert((x / 32 as real) * y == x * y / 32 as real) by (nonlinear_arith);
    assert(x * (y / 16 as real) == x * y / 16 as real) by (nonlinear_arith);
}

/// The determinants of the exact cells.
#[verifier::spinoff_prover]
pub proof fn lemma_values(a: real, b: real, p: real, q: real, r: real)
    ensures
        two(a, -two(b, r)) - two(-two(a, q), b) == system(a, b, q, r),
        two(q, -two(b, r)) - two(-two(a, q), r) - two(p, -two(b, r) + two(a, q)) == second(
            a,
            b,
            p,
            q,
            r,
        ),
        two(a, r) - two(q, b) + two(p, b - a) == third(a, b, p, q, r),
{
    lemma_signs(a, two(b, r));
    lemma_signs(two(a, q), b);
    lemma_signs(b, two(a, q));
    lemma_two_of_two(a, b, r);
    lemma_two_of_two(a, b, q);
    lemma_signs(q, two(b, r));
    lemma_signs(two(a, q), r);
    lemma_two_of_two(b, q, r);
    lemma_two_of_two(a, q, r);
    lemma_two(p, two(b, r), two(a, q));
    lemma_two(p, -two(b, r), two(a, q));
    lemma_two(p, two(b, r), two(b, r));
    lemma_signs(b, q);
}

/// The size of the system.
#[verifier::spinoff_prover]
pub proof fn lemma_size_of_system(a: real, b: real, p: real, q: real, r: real)
    requires
        well_spread(a, b, p, q, r),
    ensures
        ({
            let w = two(a, two(b, r)) + two(two(a, q), b) + two(
                a / 16 as real,
                two(b, r) + two(a, q),
            ) + two(two(a, q) / 32 as real, b + a);
            three(a, b, r) <= w && w * 100 as real <= 161 as real * three(a, b, r)
        }),
{
    lemma_compare(a, b, p, q, r);
    let aq = two(a, q);
    lemma_two_of_two(a, b, r);
    lemma_two_of_two(a, b, q);
    lemma_two_of_two(a, a, q);
    lemma_signs(aq, b);
    lemma_signs(aq, a);
    lemma_fractions(a, two(b, r) + aq);
    lemma_two(a, two(b, r), aq);
    lemma_fractions(aq, b + a);
    lemma_two(aq, b, a);
    reveal(well_spread);
    lemma_grid(a, a, q / 2 as real, q);
    lemma_grid(a, b, q / 2 as real, q);
    lemma_grid(a, a, q, r);
}

/// The size of the determinant that gives the value at zero.
#[verifier::spinoff_prover]
pub proof fn lemma_size_of_first(a: real, b: real, p: real, q: real, r: real)
    requires
        well_spread(a, b, p, q, r),
    ensures
        ({
            let aq = two(a, q);
            let w = two(q / 2 as real, two(a, two(b, r)) + two(aq, b)) + two(
                a / 16 as real,
                two(q, two(b, r)) + two(aq, r),
            ) + two(aq / 32 as real, two(q, b) + two(a, r));
            w * 4 as real >= four(a, b, q, r) && w * 100 as real <= 88 as real * four(a, b, q, r)
        }),
{
    lemma_compare(a, b, p, q, r);
    let aq = two(a, q);
    let br = two(b, r);
    lemma_two_of_two(a, b, r);
    lemma_two_of_two(a, b, q);
    lemma_signs(aq, b);
    lemma_fractions(q, three(a, b, r) + three(a, b, q));
    lemma_two(q, three(a, b, r), three(a, b, q));
    lemma_two_of_three(a, b, q, r);
    lemma_two_of_three(a, b, q, q);
    lemma_two_of_two(b, q, r);
    lemma_signs(aq, r);
    lemma_two_of_two(a, q, r);
    lemma_fractions(a, three(b, q, r) + three(a, q, r));
    lemma_two(a, three(b, q, r), three(a, q, r));
    lemma_two_of_three(a, a, q, r);
    lemma_fractions(aq, two(q, b) + two(a, r));
    lemma_two(aq, two(q, b), two(a, r));
    lemma_signs(q, b);
    lemma_two_of_two(aq, b, q);
    lemma_signs(aq, q);
    lemma_two_of_two(a, q, q);
    lemma_two_of_two(aq, a, r);
    reveal(well_spread);
    lemma_not_negative_four(a, b, q);
    lemma_not_negative_fours(a, q, r);
}

#[verifier::spinoff_prover]
proof fn lemma_not_negative_four(a: real, b: real, q: real)
    requires
        a > 0 as real,
        b > 0 as real,
    ensures
        four(a, b, q, q) >= 0 as real,
{
    reveal(four);
    let x = a * b;
    let y = q * q;
    assert(x > 0 as real && y >= 0 as real) by (nonlinear_arith)
        requires
            x == a * b,
            y == q * q,
            a > 0 as real,
            b > 0 as real,
    ;
    assert(a * b * q * q == x * y) by (nonlinear_arith)
        requires
            x == a * b,
            y == q * q,
    ;
    assert(x * y >= 0 as real) by (nonlinear_arith)
        requires
            x > 0 as real,
            y >= 0 as real,
    ;
}

#[verifier::spinoff_prover]
proof fn lemma_not_negative_fours(a: real, q: real, r: real)
    requires
        q > 0 as real,
        r > 0 as real,
    ensures
        four(a, a, q, r) >= 0 as real,
{
    reveal(four);
    let x = a * a;
    assert(x >= 0 as real) by (nonlinear_arith)
        requires
            x == a * a,
    ;
    let y = x * q;
    assert(y >= 0 as real) by (nonlinear_arith)
        requires
            y == x * q,
            x >= 0 as real,
            q > 0 as real,
    ;
    assert(y * r >= 0 as real) by (nonlinear_arith)
        requires
            y >= 0 as real,
            r > 0 as real,
    ;
}

/// Half of a left factor.
#[verifier::spinoff_prover]
proof fn lemma_left(a: real, b: real, x: real)
    requires
        2 as real * a <= b,
        x >= 0 as real,
    ensures
        2 as real * two(a, x) <= two(b, x),
{
    reveal(two);
    assert(2 as real * (a * x) <= b * x) by (nonlinear_arith)
        requires
            2 as real * a <= b,
            x >= 0 as real,
    ;
}

/// The size of the determinant above the fraction bar.
#[verifier::spinoff_prover]
pub proof fn lemma_size_of_second(a: real, b: real, p: real, q: real, r: real)
    requires
        well_spread(a, b, p, q, r),
    ensures
        ({
            let aq = two(a, q);
            let w = two(q, two(b, r)) + two(aq, r) + two(q / 2 as real, two(b, r) + aq) + two(
                aq / 32 as real,
                r + q,
            );
            w >= three(b, q, r) && w * 100 as real <= 215 as real * three(b, q, r)
        }),
{
    lemma_compare(a, b, p, q, r);
    let aq = two(a, q);
    lemma_two_of_two(b, q, r);
    lemma_signs(aq, r);
    lemma_two_of_two(a, q, r);
    lemma_fractions(q, two(b, r) + aq);
    lemma_two(q, two(b, r), aq);
    lemma_two_of_two(a, q, q);
    lemma_fractions(aq, r + q);
    lemma_two(aq, r, q);
    lemma_signs(aq, q);
    reveal(well_spread);
    lemma_grid(a, q, q, r);
    lemma_grid(q, r, 0 as real, a);
    lemma_two_of_two(a, q, r);
    assert(two(q, r) >= 0 as real) by {
        reveal(two);
        assert(q * r >= 0 as real) by (nonlinear_arith)
            requires
                q > 0 as real,
                r > 0 as real,
        ;
    }
    lemma_left(a, b, two(q, r));
}

/// The size of the determinant below the fraction bar.
#[verifier::spinoff_prover]
pub proof fn lemma_size_of_third(a: real, b: real, p: real, q: real, r: real)
    requires
        well_spread(a, b, p, q, r),
    ensures
        ({
            let w = two(a, r) + two(q, b) + two(a / 16 as real, r + q) + two(
                q / 2 as real,
                b + a,
            );
            &&& w >= two(b, q)
            &&& w * 100 as real <= 110 as real * two(a, r) + 176 as real * two(b, q)
            &&& two(a, r) >= 0 as real
            &&& two(b, q) >= 0 as real
        }),
{
    reveal(well_spread);
    lemma_fractions(a, r + q);
    lemma_two(a, r, q);
    lemma_fractions(q, b + a);
    lemma_two(q, b, a);
    lemma_signs(q, b);
    lemma_signs(q, a);
    lemma_signs(a, r);
    lemma_left(a, b, q);
    lemma_left(q, r, a);
    assert(two(a, q) >= 0 as real) by {
        reveal(two);
        assert(a * q >= 0 as real) by (nonlinear_arith)
            requires
                a > 0 as real,
                q > 0 as real,
        ;
    }
}

/// The determinant of the system lies between half of its larger product and
/// the whole of it, negated.
#[verifier::spinoff_prover]
pub proof fn lemma_system_bounds(a: real, b: real, p: real, q: real, r: real)
    requires
        well_spread(a, b, p, q, r),
    ensures
        three(a, b, r) > 0 as real,
        2 as real * system(a, b, q, r) <= -three(a, b, r),
        system(a, b, q, r) >= -three(a, b, r),
{
    lemma_compare(a, b, p, q, r);
    lemma_grid(a, b, 0 as real, q);
}

/// The denominator is positive between zero and a place where it is.
#[verifier::spinoff_prover]
proof fn lemma_positive_between(c3: real, x: real, b: real)
    requires
        0 as real <= x,
        x <= b,
        1 as real + c3 * b > 0 as real,
    ensures
        1 as real + c3 * x > 0 as real,
{
    if c3 >= 0 as real {
        assert(c3 * x >= 0 as real) by (nonlinear_arith)
            requires
                c3 >= 0 as real,
                x >= 0 as real,
        ;
    } else {
        assert(c3 * x >= c3 * b) by (nonlinear_arith)
            requires
                c3 < 0 as real,
                x <= b,
        ;
    }
}

/// How far the curve rises between two places, with the denominators taken over.
#[verifier::spinoff_prover]
proof fn lemma_rise(c1: real, c2: real, c3: real, s: real, t: real)
    ensures
        two(c1 + two(c2, t), 1 as real + two(c3, s)) - two(c1 + two(c2, s), 1 as real + two(c3, t))
            == two(c2 - two(c1, c3), t - s),
{
    let ct = two(c2, t);
    let cs = two(c2, s);
    let es = two(c3, s);
    let et = two(c3, t);
    lemma_sums(c1, ct, es);
    lemma_sums(c1, cs, et);
    // the products of two coefficients and two places cancel out
    lemma_two_of_two(c2, t, es);
    lemma_two_of_two(c2, s, et);
    lemma_cross(c2, t, c3, s);
    lemma_two_of_two(c1, c3, s);
    lemma_two_of_two(c1, c3, t);
    lemma_two(c2 - two(c1, c3), t, s);
    lemma_signs(c2 - two(c1, c3), t);
    lemma_signs(c2 - two(c1, c3), s);
    lemma_two(t, c2, two(c1, c3));
    lemma_two(s, c2, two(c1, c3));
    lemma_signs(t, c2);
    lemma_signs(s, c2);
    lemma_two_of_two(t, c1, c3);
    lemma_two_of_two(s, c1, c3);
}

/// A sum of two times one and more.
#[verifier::spinoff_prover]
proof fn lemma_sums(x: real, y: real, z: real)
    ensures
        two(x + y, 1 as real + z) == x + y + two(x, z) + two(y, z),
{
    lemma_two(x + y, 1 as real, z);
    lemma_units(x + y);
    lemma_signs(x + y, z);
    lemma_two(z, x, y);
    lemma_signs(z, x);
    lemma_signs(z, y);
}

/// The same four factors, paired in two ways.
#[verifier::spinoff_prover]
proof fn lemma_cross(x: real, t: real, z: real, s: real)
    ensures
        two(two(x, t), two(z, s)) == two(two(x, s), two(z, t)),
{
    lemma_two_of_two(two(x, t), z, s);
    lemma_two_of_two(two(x, s), z, t);
    lemma_signs(two(x, t), s);
    lemma_signs(two(x, s), t);
    lemma_two_of_two(s, x, t);
    lemma_two_of_two(t, x, s);
    lemma_two_of_two(x, s, t);
}

/// A quotient is at most another where the crossed products are.
#[verifier::spinoff_prover]
proof fn lemma_quotients(n: real, m: real, o: real, l: real)
    requires
        m > 0 as real,
        l > 0 as real,
        two(n, l) <= two(o, m),
    ensures
        n / m <= o / l,
{
    reveal(two);
    let v = n / m;
    let w = o / l;
    assert(v * m == n && w * l == o) by (nonlinear_arith)
        requires
            v == n / m,
            w == o / l,
            m > 0 as real,
            l > 0 as real,
    ;
    let k = m * l;
    assert(k > 0 as real) by (nonlinear_arith)
        requires
            k == m * l,
            m > 0 as real,
            l > 0 as real,
    ;
    assert(v * k == n * l) by (nonlinear_arith)
        requires
            v * m == n,
            k == m * l,
    ;
    assert(w * k == o * m) by (nonlinear_arith)
        requires
            w * l == o,
            k == m * l,
    ;
    assert(v <= w) by (nonlinear_arith)
        requires
            v * k <= w * k,
            k > 0 as real,
    ;
}

/// The signs of the factors of a product that is positive.
#[verifier::spinoff_prover]
proof fn lemma_factor_is_positive(x: real, b: real)
    requires
        two(x, b) > 0 as real,
        b > 0 as real,
    ensures
        x > 0 as real,
{
    reveal(two);
    assert(x > 0 as real) by (nonlinear_arith)
        requires
            x * b > 0 as real,
            b > 0 as real,
    ;
}

#[verifier::spinoff_prover]
proof fn lemma_product_is_not_negative(x: real, y: real)
    requires
        x >= 0 as real,
        y >= 0 as real,
    ensures
        two(x, y) >= 0 as real,
{
    reveal(two);
    assert(x * y >= 0 as real) by (nonlinear_arith)
        requires
            x >= 0 as real,
            y >= 0 as real,
    ;
}

/// A curve that passes a low first point and a high last one rises: its
/// coefficients turn upwards.
#[verifier::spinoff_prover]
proof fn lemma_turns_upwards(c1: real, c2: real, c3: real, b: real, p: real, r: real)
    requires
        passes(c1, c2, c3, 0 as real, p, r),
        passes(c1, c2, c3, b, r, r),
        b > 0 as real,
        4 as real * p <= r,
        r > 0 as real,
    ensures
        c2 - two(c1, c3) > 0 as real,
        1 as real + two(c3, b) > 0 as real,
{
    lemma_at_its_start(c1, c2, c3, p, r);
    lemma_at_its_end(c1, c2, c3, b, r);
    let m = 1 as real + two(c3, b);
    lemma_rise(c1, c2, c3, 0 as real, b);
    lemma_units(c2);
    lemma_units(c3);
    lemma_units(c1 + two(c2, b));
    let low = two(c1, m);
    let high = c1 + two(c2, b);
    lemma_more(high, low, c1, r, m);
    lemma_factor_is_positive(c2 - two(c1, c3), b);
}

#[verifier::spinoff_prover]
proof fn lemma_more(high: real, low: real, c1: real, r: real, m: real)
    requires
        m > 0 as real,
        low == two(c1, m),
        10_000 as real * high >= 9_999 as real * two(r, m),
        10_000 as real * c1 < 9_999 as real * r,
    ensures
        high > low,
{
    reveal(two);
    assert(10_000 as real * (c1 * m) < 9_999 as real * (r * m)) by (nonlinear_arith)
        requires
            10_000 as real * c1 < 9_999 as real * r,
            m > 0 as real,
    ;
}

#[verifier::spinoff_prover]
proof fn lemma_at_its_start(c1: real, c2: real, c3: real, p: real, r: real)
    requires
        passes(c1, c2, c3, 0 as real, p, r),
    ensures
        10_000 as real * size_of(c1 - p) <= r,
{
    reveal(passes);
    reveal(curve_value);
    assert(c3 * 0 as real == 0 as real && c2 * 0 as real == 0 as real) by (nonlinear_arith);
    let v = c1 / 1 as real;
    assert(v == c1);
}

#[verifier::spinoff_prover]
proof fn lemma_at_its_end(c1: real, c2: real, c3: real, b: real, r: real)
    requires
        passes(c1, c2, c3, b, r, r),
    ensures
        1 as real + two(c3, b) > 0 as real,
        10_000 as real * (c1 + two(c2, b)) >= 9_999 as real * two(r, 1 as real + two(c3, b)),
{
    reveal(passes);
    reveal(curve_value);
    reveal(two);
    let m = 1 as real + c3 * b;
    let n = c1 + c2 * b;
    let v = n / m;
    assert(v * m == n) by (nonlinear_arith)
        requires
            v == n / m,
            m > 0 as real,
    ;
    assert(10_000 as real * (v * m) >= 9_999 as real * (r * m)) by (nonlinear_arith)
        requires
            10_000 as real * v >= 9_999 as real * r,
            m > 0 as real,
    ;
}

/// A curve that passes a low first point and a high last one does not fall
/// between them.
#[verifier::spinoff_prover]
pub proof fn lemma_does_not_fall(
    c1: real,
    c2: real,
    c3: real,
    b: real,
    p: real,
    r: real,
    s: real,
    t: real,
)
    requires
        passes(c1, c2, c3, 0 as real, p, r),
        passes(c1, c2, c3, b, r, r),
        b > 0 as real,
        4 as real * p <= r,
        r > 0 as real,
        0 as real <= s,
        s <= t,
        t <= b,
    ensures
        curve_value(c1, c2, c3, s) <= curve_value(c1, c2, c3, t),
{
    lemma_turns_upwards(c1, c2, c3, b, p, r);
    lemma_rise(c1, c2, c3, s, t);
    lemma_product_is_not_negative(c2 - two(c1, c3), t - s);
    assert(1 as real + two(c3, s) > 0 as real && 1 as real + two(c3, t) > 0 as real) by {
        reveal(two);
        lemma_positive_between(c3, s, b);
        lemma_positive_between(c3, t, b);
    }
    let n = c1 + two(c2, s);
    let m = 1 as real + two(c3, s);
    let o = c1 + two(c2, t);
    let l = 1 as real + two(c3, t);
    lemma_quotients(n, m, o, l);
    assert(curve_value(c1, c2, c3, s) == n / m && curve_value(c1, c2, c3, t) == o / l) by {
        reveal(curve_value);
        reveal(two);
    }
}

} // verus!
