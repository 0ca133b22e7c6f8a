//! The composition law stays on the curve: the proof.
//!
//! With `s = a x^2 + y^2` and `t = b x^2 y^2` a point is on the curve where
//! `s` is `1 + t`. What the composed point lacks to satisfy the equation,
//! multiplied by the squares of both denominators, is a polynomial in `s` and
//! `t` of the two points that vanishes where both are on the curve. The
//! polynomial identities are each small enough to be checked at once; the
//! rest is arithmetic with remainders.

use crate::algebra::groups::ecg::{cross_term, edwards_add, on_curve};
use crate::number_theory::{
    inverse, is_inverse, lemma_inverse_modulus, lemma_remainder_difference, lemma_same_remainder,
};
use vstd::arithmetic::div_mod::*;
use vstd::prelude::*;

verus! {

/// The square of a sum.
proof fn square_of_sum(p: int, q: int) by (nonlinear_arith)
    ensures
        (p + q) * (p + q) == p * p + 2 * (p * q) + q * q,
{
}

/// The square of a difference.
proof fn square_of_difference(p: int, q: int) by (nonlinear_arith)
    ensures
        (p - q) * (p - q) == p * p - 2 * (p * q) + q * q,
{
}

/// The product of two sums.
proof fn product_of_sums(p: int, q: int, r: int, s: int) by (nonlinear_arith)
    ensures
        (p + q) * (r + s) == p * r + p * s + q * r + q * s,
{
}

/// The products of the shapes that the cleared equation is made of.
proof fn product_of_two_terms(s: int, t: int, v: int, m: int) by (nonlinear_arith)
    ensures
        (s + 2 * t) * (v - 2 * m) == s * v - 2 * (s * m) + 2 * (t * v) - 4 * (t * m),
        (s - 2 * t) * (v + 2 * m) == s * v + 2 * (s * m) - 2 * (t * v) - 4 * (t * m),
        (v + 2 * m) * (v - 2 * m) == v * v - 4 * (m * m),
{
}

/// A multiple of a sum of four terms.
proof fn multiple_of_four_terms(k: int, p: int, q: int, r: int, t: int) by (nonlinear_arith)
    ensures
        k * (p - 2 * q + 2 * r - 4 * t) == k * p - 2 * (k * q) + 2 * (k * r) - 4 * (k * t),
{
}

/// A multiple of a sum of three terms.
proof fn multiple_of_three_terms(k: int, p: int, q: int, r: int) by (nonlinear_arith)
    ensures
        k * (p + 2 * q + r) == k * p + 2 * (k * q) + k * r,
        k * (p + q - 4 * r) == k * p + k * q - 4 * (k * r),
{
}

/// A multiple of a sum, and a sum of multiples.
proof fn multiple_of_sum(k: int, p: int, q: int) by (nonlinear_arith)
    ensures
        k * (p + q) == k * p + k * q,
        k * p + q * p == (k + q) * p,
{
}

/// The defect of a point times a factor.
proof fn difference_times(p: int, q: int, r: int, k: int) by (nonlinear_arith)
    ensures
        (p + q - (1 + r)) * k == p * k + q * k - k - r * k,
{
}

/// The squares of `1 + m` and `1 - m`, and what their product comes to.
proof fn squares_about_one(m: int, u: int) by (nonlinear_arith)
    ensures
        (1 + m) * (1 + m) == 1 + m * m + 2 * m,
        (1 - m) * (1 - m) == 1 + m * m - 2 * m,
        (1 + u) * (1 + u) - 4 * u == (1 - u) * (1 - u),
{
}

/// Factors change places between two products.
proof fn exchange(p: int, q: int, r: int, s: int) by (nonlinear_arith)
    ensures
        (p * q) * (r * s) == (p * r) * (q * s),
        (p * q) * (r * s) == (p * s) * (r * q),
{
}

/// A factor moves into a product, to either side.
proof fn regroup(k: int, p: int, q: int) by (nonlinear_arith)
    ensures
        k * (p * q) == (k * p) * q,
        k * (p * q) == p * (k * q),
        (k * p) * q == (k * q) * p,
{
}

/// On the curve the polynomial vanishes.
proof fn vanishing(p1: int, p2: int) by (nonlinear_arith)
    ensures
        ((1 + p1) * (1 + p2)) * (1 + p1 * p2) - (1 - p1 * p2) * (1 - p1 * p2) - p1 * ((1 + p2) * (1
            + p2)) - p2 * ((1 + p1) * (1 + p1)) == 0,
{
}

/// The products of coordinates that occur, each in the grouping that the
/// proof works with.
proof fn monomials(a: int, b: int, x1: int, y1: int, x2: int, y2: int) by (nonlinear_arith)
    ensures
        (y1 * y2) * (a * (x1 * x2)) == a * ((x1 * y2) * (y1 * x2)),
        (a * (x1 * x2)) * (a * (x1 * x2)) == (a * (x1 * x1)) * (a * (x2 * x2)),
        b * x1 * x2 * y1 * y2 == b * ((x1 * y2) * (y1 * x2)),
        a * x1 * x2 == a * (x1 * x2),
        a * x1 * x1 == a * (x1 * x1),
        b * x1 * x1 * y1 * y1 == b * ((x1 * x1) * (y1 * y1)),
{
}

/// The products of squared coordinates that occur.
proof fn monomials_of_squares(a: int, b: int, a1: int, b1: int, a2: int, b2: int)
    by (nonlinear_arith)
    ensures
        (a1 * b1) * ((a * a2) * (a * a2)) == (b1 * a2) * ((a * a1) * (a * a2)),
        (a1 * b1) * ((a * a2) * b2) == a * ((a1 * b1) * (a2 * b2)),
        (a1 * b1) * (b2 * b2) == (a1 * b2) * (b1 * b2),
        (a2 * b2) * ((a * a1) * (a * a1)) == (a1 * b2) * ((a * a1) * (a * a2)),
        (a2 * b2) * ((a * a1) * b1) == a * ((a1 * b1) * (a2 * b2)),
        (a2 * b2) * (b1 * b1) == (b1 * a2) * (b1 * b2),
{
}

/// The square of the cross term is the product of the squared coordinates.
proof fn monomials_of_the_cross_term(a: int, b: int, x1: int, y1: int, x2: int, y2: int)
    by (nonlinear_arith)
    ensures
        ((x1 * y2) * (y1 * x2)) * ((x1 * y2) * (y1 * x2)) == ((x1 * x1) * (y1 * y1)) * ((x2 * x2)
            * (y2 * y2)),
{
}

/// The terms that cancel between the products of the cleared equation.
proof fn crossing(a: int, b: int, s: int, t: int, v: int, q: int) by (nonlinear_arith)
    ensures
        a * (s * (b * t)) == b * (s * (a * t)),
        a * (t * v) == (a * t) * v,
        a * (t * (b * t)) == (a * t) * (b * t),
        b * (t * (a * t)) == (a * t) * (b * t),
        b * (t * q) == q * (b * t),
        b * (a * q) == (a * b) * q,
{
}

/// The curve equation with both denominators cleared, for the numerators
/// `x`, `y` and the squared denominators `dd1`, `dd2` of the composition law:
/// what is left of `a x^2 dd2 + y^2 dd1` over `dd1 dd2 + b x^2 y^2`.
spec fn cleared(a: int, b: int, xx: int, yy: int, dd1: int, dd2: int) -> int {
    a * (xx * dd2) + yy * dd1 - dd1 * dd2 - b * (xx * yy)
}

/// The same in terms of `s = a x^2 + y^2` and `t = b x^2 y^2` of each of
/// the two points.
spec fn residual(s1: int, t1: int, s2: int, t2: int) -> int {
    (s1 * s2) * (1 + t1 * t2) - (1 - t1 * t2) * (1 - t1 * t2) - t1 * (s2 * s2) - t2 * (s1 * s1)
}

/// The cleared equation of the composed point is the residual of the two
/// points.
proof fn lemma_cleared_is_residual(a: int, b: int, x1: int, y1: int, x2: int, y2: int)
    ensures
        ({
            let m = b * ((x1 * y2) * (y1 * x2));
            let x = x1 * y2 + y1 * x2;
            let y = y1 * y2 - a * (x1 * x2);
            cleared(a, b, x * x, y * y, (1 + m) * (1 + m), (1 - m) * (1 - m)) == residual(
                a * (x1 * x1) + y1 * y1,
                b * ((x1 * x1) * (y1 * y1)),
                a * (x2 * x2) + y2 * y2,
                b * ((x2 * x2) * (y2 * y2)),
            )
        }),
{
    let alpha = x1 * y2;
    let beta = y1 * x2;
    let gamma = y1 * y2;
    let delta = x1 * x2;
    let a1 = x1 * x1;
    let b1 = y1 * y1;
    let a2 = x2 * x2;
    let b2 = y2 * y2;
    let t = alpha * beta;
    let m = b * t;
    let w = a * t;
    let c = a1 * b2;
    let d = b1 * a2;
    let e = b1 * b2;
    let f = (a * a1) * (a * a2);
    let s = c + d;
    let q = e + f;
    let t1 = a1 * b1;
    let t2 = a2 * b2;
    let p1 = b * t1;
    let p2 = b * t2;
    let s1 = a * a1 + b1;
    let s2 = a * a2 + b2;
    let u = m * m;
    let v = 1 + u;
    let x = alpha + beta;
    let y = gamma - a * delta;
    let xx = x * x;
    let yy = y * y;
    let dd1 = (1 + m) * (1 + m);
    let dd2 = (1 - m) * (1 - m);

    // the squares of the numerators
    square_of_sum(alpha, beta);
    exchange(x1, y2, x1, y2);
    exchange(y1, x2, y1, x2);
    assert(xx == s + 2 * t);
    square_of_difference(gamma, a * delta);
    exchange(y1, y2, y1, y2);
    monomials(a, b, x1, y1, x2, y2);
    assert(yy == q - 2 * w);

    // the squares of the denominators
    squares_about_one(m, u);
    assert(dd1 == v + 2 * m);
    assert(dd2 == v - 2 * m);

    // the four products of the cleared equation
    product_of_two_terms(s, t, v, m);
    multiple_of_four_terms(a, s * v, s * m, t * v, t * m);
    assert(xx * dd2 == (s + 2 * t) * (v - 2 * m));
    assert(a * (xx * dd2) == a * (s * v) - 2 * (a * (s * m)) + 2 * (a * (t * v)) - 4 * (a * (t
        * m)));
    product_of_two_terms(q, w, v, m);
    assert(yy * dd1 == (q - 2 * w) * (v + 2 * m));
    assert(yy * dd1 == q * v + 2 * (q * m) - 2 * (w * v) - 4 * (w * m));
    assert(dd1 * dd2 == (v + 2 * m) * (v - 2 * m));
    assert(dd1 * dd2 == v * v - 4 * u);
    product_of_two_terms(s, t, q, w);
    multiple_of_four_terms(b, s * q, s * w, t * q, t * w);
    assert(xx * yy == (s + 2 * t) * (q - 2 * w));
    assert(b * (xx * yy) == b * (s * q) - 2 * (b * (s * w)) + 2 * (b * (t * q)) - 4 * (b * (t
        * w)));

    // what cancels between them
    crossing(a, b, s, t, v, q);
    assert(a * (s * m) == b * (s * w));
    assert(a * (t * v) == w * v);
    assert(a * (t * m) == w * m);
    assert(b * (t * w) == w * m);
    assert(b * (t * q) == q * m);
    let whole = cleared(a, b, xx, yy, dd1, dd2);
    assert(whole == a * (s * v) + q * v - 4 * (w * m) - (v * v - 4 * u) - b * (s * q));

    // a s + q is s1 s2
    regroup(a, s, v);
    multiple_of_sum(a * s, v, q);
    assert(a * (s * v) + q * v == (a * s + q) * v);
    product_of_sums(a * a1, b1, a * a2, b2);
    multiple_of_sum(a, c, d);
    regroup(a, a1, b2);
    regroup(a, b1, a2);
    assert(a * s + q == s1 * s2);

    // s q in terms of s1, s2
    product_of_sums(c, d, e, f);
    square_of_sum(a * a2, b2);
    square_of_sum(a * a1, b1);
    multiple_of_three_terms(t1, (a * a2) * (a * a2), (a * a2) * b2, b2 * b2);
    multiple_of_three_terms(t2, (a * a1) * (a * a1), (a * a1) * b1, b1 * b1);
    monomials_of_squares(a, b, a1, b1, a2, b2);
    let z = a * (t1 * t2);
    assert(t1 * (s2 * s2) == d * f + 2 * z + c * e);
    assert(t2 * (s1 * s1) == c * f + 2 * z + d * e);
    assert(s * q == t1 * (s2 * s2) + t2 * (s1 * s1) - 4 * z);
    multiple_of_three_terms(b, t1 * (s2 * s2), t2 * (s1 * s1), z);
    regroup(b, t1, s2 * s2);
    regroup(b, t2, s1 * s1);
    assert(b * (s * q) == p1 * (s2 * s2) + p2 * (s1 * s1) - 4 * (b * z));

    // the cross term in terms of t1, t2
    monomials_of_the_cross_term(a, b, x1, y1, x2, y2);
    assert(t * t == t1 * t2);
    exchange(a, t, b, t);
    crossing(a, b, s, t, v, t1 * t2);
    assert(w * m == b * z);
    exchange(b, t, b, t);
    exchange(b, t1, b, t2);
    assert(u == p1 * p2);
    assert(whole == (s1 * s2) * (1 + u) - (1 - u) * (1 - u) - p1 * (s2 * s2) - p2 * (s1 * s1));
}

/// Products of numbers with the same remainders have the same remainder.
proof fn lemma_same_product(a: int, b: int, c: int, d: int, p: int)
    requires
        p > 0,
        a % p == c % p,
        b % p == d % p,
    ensures
        (a * b) % p == (c * d) % p,
{
    lemma_mul_mod_noop_general(a, b, p);
    lemma_mul_mod_noop_general(c, d, p);
}

/// Sums and differences of numbers with the same remainders have the same
/// remainder.
proof fn lemma_same_sum(a: int, b: int, c: int, d: int, p: int)
    requires
        p > 0,
        a % p == c % p,
        b % p == d % p,
    ensures
        (a + b) % p == (c + d) % p,
        (a - b) % p == (c - d) % p,
{
    lemma_add_mod_noop(a, b, p);
    lemma_add_mod_noop(c, d, p);
    lemma_sub_mod_noop(a, b, p);
    lemma_sub_mod_noop(c, d, p);
}

/// A factor with an inverse can be cancelled from a multiple of `p`.
proof fn lemma_cancel(g: int, w: int, i: int, p: int)
    requires
        p > 1,
        (g * w) % p == 0,
        (w * i) % p == 1,
    ensures
        g % p == 0,
{
    lemma_small_mod(1, p as nat);
    lemma_small_mod(0, p as nat);
    lemma_same_product(g, w * i, g, 1, p);
    lemma_same_product(g * w, i, 0, i, p);
    regroup(g, w, i);
    assert(g * 1 == g && 0 * i == 0) by (nonlinear_arith);
}

/// What the point `(x, y)` lacks to satisfy the curve equation: the left side
/// less the right side.
spec fn defect(a: int, b: int, x: int, y: int) -> int {
    a * x * x + y * y - (1 + b * x * x * y * y)
}

/// A point is on the curve where its defect is a multiple of `p`.
proof fn lemma_on_curve_defect(a: nat, b: nat, p: nat, point: (nat, nat))
    requires
        p > 0,
    ensures
        on_curve(a, b, p, point) <==> defect(a as int, b as int, point.0 as int, point.1 as int)
            % (p as int) == 0,
{
    let (x, y) = point;
    let left = (a * x * x + y * y) as int;
    let right = (1 + b * x * x * y * y) as int;
    lemma_small_mod(0, p);
    if left % (p as int) == right % (p as int) {
        let k = lemma_remainder_difference(left, right, p as int);
        lemma_same_remainder(left - right, 0, k, p as int);
    }
    if (left - right) % (p as int) == 0 {
        let k = lemma_remainder_difference(left - right, 0, p as int);
        lemma_same_remainder(left, right, k, p as int);
    }
}

/// A coordinate of the composed point, times its denominator, leaves the
/// remainder of its numerator; and the denominator times its inverse leaves 1.
proof fn lemma_quotient(n: int, d: int, den: nat, i: nat, r: nat, p: nat)
    requires
        p > 1,
        is_inverse(den, i, p),
        den as int == d % (p as int),
        r as int == (((n % (p as int)) * i) % (p as int)),
    ensures
        (r * d) % (p as int) == n % (p as int),
        (d * i) % (p as int) == 1,
{
    let q = p as int;
    let reduced = n % q;
    lemma_mod_twice(n, q);
    lemma_mod_twice(d, q);
    lemma_mod_twice(reduced * i, q);
    lemma_small_mod(1, p);
    lemma_same_product(d, i as int, den as int, i as int, q);
    lemma_same_product(r as int, d, reduced * i, den as int, q);
    regroup(reduced, den as int, i as int);
    lemma_same_product(reduced, (den * i) as int, n, 1, q);
    assert(n * 1 == n) by (nonlinear_arith);
    assert((reduced * i) * den == reduced * (den * i)) by {
        regroup(reduced, i as int, den as int);
        regroup(reduced, den as int, i as int);
    }
}

/// Closure: the composition of two points of the curve, where it has a
/// result, is a point of the curve.
pub proof fn lemma_edwards_add_closed(
    a: nat,
    b: nat,
    p: nat,
    first: (nat, nat),
    second: (nat, nat),
)
    requires
        on_curve(a, b, p, first),
        on_curve(a, b, p, second),
        edwards_add(a, b, p, first, second) is Some,
    ensures
        on_curve(a, b, p, edwards_add(a, b, p, first, second)->Some_0),
{
    let q = p as int;
    let (x1n, y1n) = first;
    let (x2n, y2n) = second;
    let (x1, y1, x2, y2) = (x1n as int, y1n as int, x2n as int, y2n as int);
    let (ai, bi) = (a as int, b as int);
    let sum = edwards_add(a, b, p, first, second)->Some_0;
    let (x3, y3) = (sum.0 as int, sum.1 as int);

    // the parts of the law
    let mc = cross_term(b, p, first, second);
    let den1 = (1 + mc) % p;
    let den2 = ((1 - mc) % q) as nat;
    let i1 = inverse(den1, p);
    let i2 = inverse(den2, p);
    assert(is_inverse(den1, i1, p));
    assert(is_inverse(den2, i2, p));
    lemma_inverse_modulus(den1, i1, p);
    let m = bi * ((x1 * y2) * (y1 * x2));
    let x = x1 * y2 + y1 * x2;
    let y = y1 * y2 - ai * (x1 * x2);
    let d1 = 1 + m;
    let d2 = 1 - m;
    monomials(ai, bi, x1, y1, x2, y2);
    assert(mc as int == m % q);
    lemma_add_mod_noop_right(1, m, q);
    lemma_sub_mod_noop_right(1, m, q);
    lemma_mod_bound(1 - mc, q);
    lemma_mod_bound(y, q);
    lemma_quotient(x, d1, den1, i1, sum.0, p);
    lemma_quotient(y, d2, den2, i2, sum.1, p);
    let u3 = x3 * d1;
    let v3 = y3 * d2;
    let dd1 = d1 * d1;
    let dd2 = d2 * d2;
    let uu = u3 * u3;
    let vv = v3 * v3;
    let xx = x * x;
    let yy = y * y;

    // the cleared equation of the composed point is that of the numerators
    lemma_same_product(u3, u3, x, x, q);
    lemma_same_product(v3, v3, y, y, q);
    lemma_same_product(uu, dd2, xx, dd2, q);
    lemma_same_product(ai, uu * dd2, ai, xx * dd2, q);
    lemma_same_product(vv, dd1, yy, dd1, q);
    lemma_same_product(uu, vv, xx, yy, q);
    lemma_same_product(bi, uu * vv, bi, xx * yy, q);
    lemma_same_sum(ai * (uu * dd2), vv * dd1, ai * (xx * dd2), yy * dd1, q);
    lemma_same_sum(
        ai * (uu * dd2) + vv * dd1,
        dd1 * dd2,
        ai * (xx * dd2) + yy * dd1,
        dd1 * dd2,
        q,
    );
    lemma_same_sum(
        ai * (uu * dd2) + vv * dd1 - dd1 * dd2,
        bi * (uu * vv),
        ai * (xx * dd2) + yy * dd1 - dd1 * dd2,
        bi * (xx * yy),
        q,
    );
    assert(cleared(ai, bi, uu, vv, dd1, dd2) % q == cleared(ai, bi, xx, yy, dd1, dd2) % q);

    // which vanishes, both points being on the curve
    lemma_cleared_is_residual(ai, bi, x1, y1, x2, y2);
    let s1 = ai * (x1 * x1) + y1 * y1;
    let t1 = bi * ((x1 * x1) * (y1 * y1));
    let s2 = ai * (x2 * x2) + y2 * y2;
    let t2 = bi * ((x2 * x2) * (y2 * y2));
    monomials(ai, bi, x2, y2, x1, y1);
    assert(s1 % q == (1 + t1) % q);
    assert(s2 % q == (1 + t2) % q);
    let k = 1 + t1 * t2;
    lemma_same_product(s1, s2, 1 + t1, 1 + t2, q);
    lemma_same_product(s1 * s2, k, (1 + t1) * (1 + t2), k, q);
    lemma_same_product(s2, s2, 1 + t2, 1 + t2, q);
    lemma_same_product(t1, s2 * s2, t1, (1 + t2) * (1 + t2), q);
    lemma_same_product(s1, s1, 1 + t1, 1 + t1, q);
    lemma_same_product(t2, s1 * s1, t2, (1 + t1) * (1 + t1), q);
    let e = (1 - t1 * t2) * (1 - t1 * t2);
    lemma_same_sum((s1 * s2) * k, e, ((1 + t1) * (1 + t2)) * k, e, q);
    lemma_same_sum(
        (s1 * s2) * k - e,
        t1 * (s2 * s2),
        ((1 + t1) * (1 + t2)) * k - e,
        t1 * ((1 + t2) * (1 + t2)),
        q,
    );
    lemma_same_sum(
        (s1 * s2) * k - e - t1 * (s2 * s2),
        t2 * (s1 * s1),
        ((1 + t1) * (1 + t2)) * k - e - t1 * ((1 + t2) * (1 + t2)),
        t2 * ((1 + t1) * (1 + t1)),
        q,
    );
    vanishing(t1, t2);
    lemma_small_mod(0, p);
    assert(residual(s1, t1, s2, t2) % q == 0);
    assert(cleared(ai, bi, uu, vv, dd1, dd2) % q == 0);

    // it is the defect of the composed point times the squared denominators
    let a3 = x3 * x3;
    let b3 = y3 * y3;
    let g = defect(ai, bi, x3, y3);
    let w = dd1 * dd2;
    exchange(x3, d1, x3, d1);
    exchange(y3, d2, y3, d2);
    regroup(a3, dd1, dd2);
    regroup(ai, a3, w);
    regroup(b3, dd2, dd1);
    regroup(b3, dd1, dd2);
    exchange(a3, dd1, b3, dd2);
    regroup(bi, a3 * b3, w);
    monomials(ai, bi, x3, y3, x3, y3);
    difference_times(ai * a3, b3, bi * (a3 * b3), w);
    assert(ai * (uu * dd2) == (ai * a3) * w);
    assert(vv * dd1 == b3 * w);
    assert(bi * (uu * vv) == (bi * (a3 * b3)) * w);
    assert(cleared(ai, bi, uu, vv, dd1, dd2) == g * w);

    // and the squared denominators have an inverse
    let inv = ((i1 * i1) * (i2 * i2)) as int;
    let e1 = (d1 * i1) * (d1 * i1);
    let e2 = (d2 * i2) * (d2 * i2);
    lemma_small_mod(1, p);
    lemma_same_product(d1 * i1, d1 * i1, 1, 1, q);
    lemma_same_product(d2 * i2, d2 * i2, 1, 1, q);
    lemma_same_product(e1, e2, 1, 1, q);
    exchange(dd1, dd2, (i1 * i1) as int, (i2 * i2) as int);
    exchange(d1, d1, i1 as int, i1 as int);
    exchange(d2, d2, i2 as int, i2 as int);
    assert(w * inv == e1 * e2);
    lemma_cancel(g, w, inv, q);
    lemma_on_curve_defect(a, b, p, sum);
}

} // verus!
