//! Points of a twisted Edwards curve `a x^2 + y^2 = 1 + b x^2 y^2` over a
//! prime field, and the law that composes two of them.

use crate::algebra::fields::prime::{
    field_add, field_div, field_mul, field_sub, lemma_div_defined, FieldError, PrimeFieldEle,
};
use crate::number_theory::is_prime;
use vstd::arithmetic::div_mod::*;
use vstd::arithmetic::mul::lemma_mul_is_associative;
use vstd::prelude::*;

verus! {

/// Whether the point `(x, y)` satisfies the equation of the curve with the
/// coefficients `a` and `b` over the field of `p` elements.
pub open spec fn on_curve(a: nat, b: nat, p: nat, point: (nat, nat)) -> bool {
    let (x, y) = point;
    (a * x * x + y * y) % p == (1 + b * x * x * y * y) % p
}

/// The product `b x1 x2 y1 y2` that both denominators of the composition law
/// are made of.
pub open spec fn cross_term(b: nat, p: nat, first: (nat, nat), second: (nat, nat)) -> nat {
    (b * first.0 * second.0 * first.1 * second.1) % p
}

/// Whether one of the two denominators `1 + m` and `1 - m` of the composition
/// law is zero in the field of `p` elements.
pub open spec fn denominator_vanishes(b: nat, p: nat, first: (nat, nat), second: (nat, nat))
    -> bool {
    let m = cross_term(b, p, first, second);
    (1 + m) % p == 0 || (1 - m) % (p as int) == 0
}

/// The unified composition law of a twisted Edwards curve:
/// `x3 = (x1 y2 + y1 x2) / (1 + m)` and `y3 = (y1 y2 - a x1 x2) / (1 - m)`
/// with `m = b x1 x2 y1 y2`, all in the field of `p` elements. There is no
/// result where one of the two denominators has no inverse.
pub open spec fn edwards_add(a: nat, b: nat, p: nat, first: (nat, nat), second: (nat, nat))
    -> Option<(nat, nat)> {
    let (x1, y1) = first;
    let (x2, y2) = second;
    let m = cross_term(b, p, first, second);
    let x3 = field_div((x1 * y2 + y1 * x2) % p, (1 + m) % p, p);
    let y3 = field_div(
        ((y1 * y2 - a * x1 * x2) % (p as int)) as nat,
        ((1 - m) % (p as int)) as nat,
        p,
    );
    if x3 is Some && y3 is Some {
        Some((x3->Some_0, y3->Some_0))
    } else {
        None
    }
}

/// The composition law is commutative: the two points may change places.
pub proof fn lemma_edwards_add_commutes(
    a: nat,
    b: nat,
    p: nat,
    first: (nat, nat),
    second: (nat, nat),
)
    ensures
        edwards_add(a, b, p, first, second) == edwards_add(a, b, p, second, first),
{
    let (x1, y1) = first;
    let (x2, y2) = second;
    assert(b * x1 * x2 * y1 * y2 == b * x2 * x1 * y2 * y1) by (nonlinear_arith);
    assert(x1 * y2 + y1 * x2 == x2 * y1 + y2 * x1) by (nonlinear_arith);
    assert(y1 * y2 - a * x1 * x2 == y2 * y1 - a * x2 * x1) by (nonlinear_arith);
}

/// Over a prime field the composition has a result unless one of the two
/// denominators `1 + m` and `1 - m` is zero in the field.
pub proof fn lemma_edwards_add_defined(
    a: nat,
    b: nat,
    p: nat,
    first: (nat, nat),
    second: (nat, nat),
)
    requires
        is_prime(p),
    ensures
        edwards_add(a, b, p, first, second) is None <==> denominator_vanishes(b, p, first, second),
{
    let (x1, y1) = first;
    let (x2, y2) = second;
    let q = p as int;
    let m = cross_term(b, p, first, second);
    lemma_mod_twice((1 + m) as int, q);
    lemma_mod_twice(1 - m, q);
    lemma_mod_bound(1 - m, q);
    lemma_div_defined((x1 * y2 + y1 * x2) % p, (1 + m) % p, p);
    lemma_div_defined(((y1 * y2 - a * x1 * x2) % q) as nat, ((1 - m) % q) as nat, p);
}

/// The composition law, computed operation by operation in the field with
/// every intermediate result reduced, arrives at the terms of `edwards_add`.
pub proof fn lemma_edwards_terms(a: nat, b: nat, p: nat, first: (nat, nat), second: (nat, nat))
    requires
        p > 1,
    ensures
        ({
            let (x1, y1) = first;
            let (x2, y2) = second;
            let m = cross_term(b, p, first, second);
            &&& field_mul(field_mul(field_mul(field_mul(b % p, x1, p), x2, p), y1, p), y2, p) == m
            &&& field_add(field_mul(x1, y2, p), field_mul(y1, x2, p), p) == (x1 * y2 + y1 * x2)
                % p
            &&& field_add(1nat % p, m, p) == (1 + m) % p
            &&& field_sub(
                field_mul(y1, y2, p),
                field_mul(field_mul(a % p, x1, p), x2, p),
                p,
            ) == ((y1 * y2 - a * x1 * x2) % (p as int)) as nat
            &&& field_sub(1nat % p, m, p) == ((1 - m) % (p as int)) as nat
        }),
{
    let (x1, y1) = first;
    let (x2, y2) = second;
    let q = p as int;
    lemma_small_mod(1, p);
    lemma_mul_mod_noop_left(b as int, x1 as int, q);
    lemma_mul_mod_noop_left((b * x1) as int, x2 as int, q);
    lemma_mul_mod_noop_left((b * x1 * x2) as int, y1 as int, q);
    lemma_mul_mod_noop_left((b * x1 * x2 * y1) as int, y2 as int, q);
    lemma_add_mod_noop((x1 * y2) as int, (y1 * x2) as int, q);
    lemma_mul_mod_noop_left(a as int, x1 as int, q);
    lemma_mul_mod_noop_left((a * x1) as int, x2 as int, q);
    lemma_sub_mod_noop((y1 * y2) as int, (a * x1 * x2) as int, q);
}

/// The two sides of the curve equation, computed operation by operation in
/// the field with every intermediate result reduced, are the sides that
/// `on_curve` compares.
pub proof fn lemma_curve_sides(a: nat, b: nat, p: nat, point: (nat, nat))
    requires
        p > 1,
    ensures
        ({
            let (x, y) = point;
            let xx = field_mul(x, x, p);
            let yy = field_mul(y, y, p);
            &&& field_add(field_mul(a % p, xx, p), yy, p) == (a * x * x + y * y) % p
            &&& field_add(1nat % p, field_mul(field_mul(b % p, xx, p), yy, p), p) == (1 + b * x * x
                * y * y) % p
        }),
{
    let (x, y) = point;
    let q = p as int;
    lemma_small_mod(1, p);
    lemma_mul_mod_noop_general(a as int, (x * x) as int, q);
    lemma_mul_is_associative(a as int, x as int, x as int);
    lemma_add_mod_noop((a * x * x) as int, (y * y) as int, q);
    lemma_mul_mod_noop_general(b as int, (x * x) as int, q);
    lemma_mul_is_associative(b as int, x as int, x as int);
    lemma_mul_mod_noop_general((b * x * x) as int, (y * y) as int, q);
    lemma_mul_is_associative((b * x * x) as int, y as int, y as int);
    lemma_add_mod_noop_right(1, (b * x * x * y * y) as int, q);
}

/// A point of a twisted Edwards curve over the field whose elements are `F`.
pub trait CurvePoint<F: PrimeFieldEle>: Sized {
    /// The curve's coefficient `a`.
    spec fn coefficient_a() -> nat;

    /// The curve's coefficient `b`.
    spec fn coefficient_b() -> nat;

    /// The point's coordinates, each as the canonical representative of a
    /// field element.
    spec fn coordinates(&self) -> (nat, nat);

    /// The first coordinate.
    fn x(&self) -> (r: F)
        ensures
            r.residue() == self.coordinates().0,
    ;

    /// The second coordinate.
    fn y(&self) -> (r: F)
        ensures
            r.residue() == self.coordinates().1,
    ;

    /// The point with the given coordinates. Whether it lies on the curve is
    /// not examined.
    fn from_coordinates(x: F, y: F) -> (point: Self)
        ensures
            point.coordinates() == (x.residue(), y.residue()),
    ;

    /// The composition of two points by the curve's law. Where a denominator
    /// of the law is zero in the field there is no result, and the failure of
    /// the division is handed on. The composition of two points of the curve
    /// is a point of the curve.
    fn op(a: Self, b: Self) -> (r: Result<Self, FieldError>)
        ensures
            denominator_vanishes(
                Self::coefficient_b(),
                F::characteristic(),
                a.coordinates(),
                b.coordinates(),
            ) ==> r is Err && r->Err_0 == FieldError::NoInverse,
            !denominator_vanishes(
                Self::coefficient_b(),
                F::characteristic(),
                a.coordinates(),
                b.coordinates(),
            ) ==> r is Ok && edwards_add(
                Self::coefficient_a(),
                Self::coefficient_b(),
                F::characteristic(),
                a.coordinates(),
                b.coordinates(),
            ) == Some(r->Ok_0.coordinates()),
            r is Ok && on_curve(
                Self::coefficient_a(),
                Self::coefficient_b(),
                F::characteristic(),
                a.coordinates(),
            ) && on_curve(
                Self::coefficient_a(),
                Self::coefficient_b(),
                F::characteristic(),
                b.coordinates(),
            ) ==> on_curve(
                Self::coefficient_a(),
                Self::coefficient_b(),
                F::characteristic(),
                r->Ok_0.coordinates(),
            ),
    ;
}

} // verus!
