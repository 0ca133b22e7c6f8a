//! The points of Baby JubJub and their composition.

use crate::algebra::fields::prime::{FieldError, PrimeFieldEle};
use crate::algebra::groups::closure::lemma_edwards_add_closed;
use crate::algebra::groups::ecg::{
    edwards_add, lemma_curve_sides, lemma_edwards_add_defined, lemma_edwards_terms, on_curve,
    CurvePoint,
};
use crate::curves::baby_jubjub::certificate::lemma_baby_jubjub_prime;
use crate::curves::baby_jubjub::ff::{baby_jubjub_prime, BabyJubJubField, BabyJubJubFieldEle};
use crate::natural::{decimal_value, is_decimal, one};
use vstd::arithmetic::div_mod::*;
use vstd::prelude::*;

verus! {

/// The coefficient `a` of the curve equation.
pub const BABY_JUBJUB_A: u32 = 168700u32;

/// The coefficient `b` of the curve equation.
pub const BABY_JUBJUB_B: u32 = 168696u32;

/// A pair of coordinates in Baby JubJub's field.
#[derive(Debug)]
pub struct BabyJubJubCurve {
    pub x: BabyJubJubField,
    pub y: BabyJubJubField,
}

/// A point of the Baby JubJub group.
pub type BabyJubJubCurveGroup = BabyJubJubCurve;

impl CurvePoint<BabyJubJubFieldEle> for BabyJubJubCurve {
    open spec fn coefficient_a() -> nat {
        BABY_JUBJUB_A as nat
    }

    open spec fn coefficient_b() -> nat {
        BABY_JUBJUB_B as nat
    }

    open spec fn coordinates(&self) -> (nat, nat) {
        (self.x.residue(), self.y.residue())
    }

    fn x(&self) -> (r: BabyJubJubField) {
        self.x.clone()
    }

    fn y(&self) -> (r: BabyJubJubField) {
        self.y.clone()
    }

    fn from_coordinates(x: BabyJubJubField, y: BabyJubJubField) -> (point: Self) {
        BabyJubJubCurve { x, y }
    }

    fn op(a: Self, b: Self) -> (r: Result<Self, FieldError>) {
        proof {
            let (ca, cb, p) = (BABY_JUBJUB_A as nat, BABY_JUBJUB_B as nat, baby_jubjub_prime());
            let (first, second) = (a.coordinates(), b.coordinates());
            lemma_baby_jubjub_prime();
            lemma_small_mod(1, p);
            lemma_edwards_terms(ca, cb, p, first, second);
            lemma_edwards_add_defined(ca, cb, p, first, second);
            if on_curve(ca, cb, p, first) && on_curve(ca, cb, p, second) && edwards_add(
                ca,
                cb,
                p,
                first,
                second,
            ) is Some {
                lemma_edwards_add_closed(ca, cb, p, first, second);
            }
        }
        let m = BabyJubJubFieldEle::from_u32(BABY_JUBJUB_B).mul(a.x()).mul(b.x()).mul(a.y()).mul(
            b.y(),
        );
        let x_numerator = a.x().mul(b.y()).add(a.y().mul(b.x()));
        let x_denominator = BabyJubJubFieldEle::from_biguint(one()).add(m.clone());
        let y_numerator = a.y().mul(b.y()).sub(
            BabyJubJubFieldEle::from_u32(BABY_JUBJUB_A).mul(a.x()).mul(b.x()),
        );
        let y_denominator = BabyJubJubFieldEle::from_biguint(one()).sub(m);
        let x3 = x_numerator.div(x_denominator);
        let y3 = y_numerator.div(y_denominator);
        match x3 {
            Ok(x) => match y3 {
                Ok(y) => Ok(BabyJubJubCurve { x, y }),
                Err(e) => Err(e),
            },
            Err(e) => Err(e),
        }
    }
}

impl PartialEq for BabyJubJubCurve {
    fn eq(&self, other: &Self) -> (r: bool) {
        self.x == other.x && self.y == other.y
    }
}

impl vstd::std_specs::cmp::PartialEqSpecImpl for BabyJubJubCurve {
    open spec fn obeys_eq_spec() -> bool {
        true
    }

    open spec fn eq_spec(&self, other: &Self) -> bool {
        self.coordinates() == other.coordinates()
    }
}

impl Clone for BabyJubJubCurve {
    fn clone(&self) -> (point: Self)
        ensures
            point.coordinates() == self.coordinates(),
    {
        BabyJubJubCurve { x: self.x.clone(), y: self.y.clone() }
    }
}

impl BabyJubJubCurve {
    /// Whether the coordinates satisfy the curve equation
    /// `a x^2 + y^2 = 1 + b x^2 y^2`. No constructor asks this: a caller who
    /// takes coordinates from an untrusted source asks it here.
    pub fn is_on_curve(&self) -> (r: bool)
        ensures
            r == on_curve(
                Self::coefficient_a(),
                Self::coefficient_b(),
                baby_jubjub_prime(),
                self.coordinates(),
            ),
    {
        proof {
            let p = baby_jubjub_prime();
            lemma_curve_sides(BABY_JUBJUB_A as nat, BABY_JUBJUB_B as nat, p, self.coordinates());
            lemma_small_mod(1, p);
        }
        let xx = self.x().mul(self.x());
        let yy = self.y().mul(self.y());
        let left = BabyJubJubFieldEle::from_u32(BABY_JUBJUB_A).mul(xx.clone()).add(yy.clone());
        let right = BabyJubJubFieldEle::from_biguint(one()).add(
            BabyJubJubFieldEle::from_u32(BABY_JUBJUB_B).mul(xx).mul(yy),
        );
        left.equals(&right)
    }

    /// The point whose coordinates are given as a pair of decimal numerals.
    /// A text that is no decimal numeral is refused.
    pub fn try_from(pair: (&str, &str)) -> (r: Result<Self, FieldError>)
        ensures
            is_decimal(pair.0@) && is_decimal(pair.1@) ==> r is Ok && r->Ok_0.coordinates() == (
                decimal_value(pair.0@) % baby_jubjub_prime(),
                decimal_value(pair.1@) % baby_jubjub_prime(),
            ),
            !(is_decimal(pair.0@) && is_decimal(pair.1@)) ==> r is Err && r->Err_0
                == FieldError::MalformedInput,
    {
        match BabyJubJubFieldEle::try_from(pair.0) {
            Ok(x) => match BabyJubJubFieldEle::try_from(pair.1) {
                Ok(y) => Ok(BabyJubJubCurve { x, y }),
                Err(e) => Err(e),
            },
            Err(e) => Err(e),
        }
    }
}

} // verus!
