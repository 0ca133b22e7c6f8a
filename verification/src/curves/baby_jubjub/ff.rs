//! The field that Baby JubJub is defined over.

use crate::algebra::fields::prime::{FieldError, PrimeFieldEle};
use crate::curves::baby_jubjub::certificate::lemma_baby_jubjub_prime;
use crate::natural::{
    decimal_value, duplicate, from_decimal, from_limbs, is_decimal, limbs_value, nat_of,
    remainder, same,
};
use num_bigint::BigUint;
use vstd::arithmetic::div_mod::*;
use vstd::prelude::*;

verus! {

/// The field's prime in base 2^32, least significant digit first.
pub const BABY_JUBJUB_P: [u32; 8] = [
    0xf0000001u32,
    0x43e1f593u32,
    0x79b97091u32,
    0x2833e848u32,
    0x8181585du32,
    0xb85045b6u32,
    0xe131a029u32,
    0x30644e72u32,
];

/// The field's prime.
pub open spec fn baby_jubjub_prime() -> nat {
    21888242871839275222246405745257275088548364400416034343698204186575808495617nat
}

/// The digits of `BABY_JUBJUB_P` denote the field's prime.
pub proof fn lemma_prime_limbs()
    ensures
        limbs_value(BABY_JUBJUB_P@) == baby_jubjub_prime(),
{
    let s0 = BABY_JUBJUB_P@;
    let s1 = s0.drop_first();
    let s2 = s1.drop_first();
    let s3 = s2.drop_first();
    let s4 = s3.drop_first();
    let s5 = s4.drop_first();
    let s6 = s5.drop_first();
    let s7 = s6.drop_first();
    let s8 = s7.drop_first();
    assert(limbs_value(s8) == 0);
    assert(limbs_value(s7) == 0x30644e72);
    assert(limbs_value(s6) == 0x30644e72_e131a029);
    assert(limbs_value(s5) == 0x30644e72_e131a029_b85045b6);
    assert(limbs_value(s4) == 0x30644e72_e131a029_b85045b6_8181585d);
    assert(limbs_value(s3) == 0x30644e72_e131a029_b85045b6_8181585d_2833e848nat);
    assert(limbs_value(s2) == 0x30644e72_e131a029_b85045b6_8181585d_2833e848_79b97091nat);
    assert(limbs_value(s1) == 0x30644e72_e131a029_b85045b6_8181585d_2833e848_79b97091_43e1f593nat);
    assert(limbs_value(s0)
        == 0x30644e72_e131a029_b85045b6_8181585d_2833e848_79b97091_43e1f593_f0000001nat);
}

/// An element of Baby JubJub's field, held as its canonical representative.
#[derive(Debug)]
pub struct BabyJubJubFieldEle {
    value: BigUint,
}

/// An element of Baby JubJub's field.
pub type BabyJubJubField = BabyJubJubFieldEle;

impl BabyJubJubFieldEle {
    /// The number held is below the prime.
    #[verifier::type_invariant]
    spec fn canonical(&self) -> bool {
        nat_of(self.value) < baby_jubjub_prime()
    }
}

impl PrimeFieldEle for BabyJubJubFieldEle {
    open spec fn characteristic() -> nat {
        baby_jubjub_prime()
    }

    /// The number held, which the type's invariant keeps below the prime.
    /// It is reduced here so that `lemma_canonical` holds of every element
    /// that a specification may speak of, also of one that no program has
    /// built.
    closed spec fn residue(&self) -> nat {
        nat_of(self.value) % baby_jubjub_prime()
    }

    proof fn lemma_characteristic() {
        lemma_baby_jubjub_prime();
    }

    proof fn lemma_canonical(&self) {
        lemma_mod_pos_bound(nat_of(self.value) as int, baby_jubjub_prime() as int);
    }

    fn prime(&self) -> (p: BigUint) {
        proof {
            lemma_prime_limbs();
        }
        from_limbs(&BABY_JUBJUB_P)
    }

    fn value(&self) -> (v: BigUint) {
        proof {
            use_type_invariant(self);
            self.lemma_canonical();
            lemma_small_mod(nat_of(self.value), baby_jubjub_prime());
        }
        duplicate(&self.value)
    }

    fn from_biguint(value: BigUint) -> (e: Self) {
        proof {
            lemma_prime_limbs();
            lemma_mod_pos_bound(nat_of(value) as int, baby_jubjub_prime() as int);
            lemma_mod_twice(nat_of(value) as int, baby_jubjub_prime() as int);
        }
        let p = from_limbs(&BABY_JUBJUB_P);
        BabyJubJubFieldEle { value: remainder(&value, &p) }
    }
}

impl Clone for BabyJubJubFieldEle {
    fn clone(&self) -> (e: Self)
        ensures
            e.residue() == self.residue(),
    {
        proof {
            use_type_invariant(self);
        }
        BabyJubJubFieldEle { value: duplicate(&self.value) }
    }
}

impl PartialEq for BabyJubJubFieldEle {
    fn eq(&self, other: &Self) -> (r: bool) {
        proof {
            use_type_invariant(self);
            use_type_invariant(other);
            lemma_small_mod(nat_of(self.value), baby_jubjub_prime());
            lemma_small_mod(nat_of(other.value), baby_jubjub_prime());
        }
        same(&self.value, &other.value)
    }
}

impl vstd::std_specs::cmp::PartialEqSpecImpl for BabyJubJubFieldEle {
    open spec fn obeys_eq_spec() -> bool {
        true
    }

    open spec fn eq_spec(&self, other: &Self) -> bool {
        self.residue() == other.residue()
    }
}

impl BabyJubJubFieldEle {
    /// The element that a decimal numeral stands for. A text that is no
    /// decimal numeral is refused.
    pub fn try_from(text: &str) -> (r: Result<Self, FieldError>)
        ensures
            is_decimal(text@) ==> r is Ok && r->Ok_0.residue() == decimal_value(text@)
                % baby_jubjub_prime(),
            !is_decimal(text@) ==> r is Err && r->Err_0 == FieldError::MalformedInput,
    {
        match from_decimal(text) {
            Some(value) => Ok(Self::from_biguint(value)),
            None => Err(FieldError::MalformedInput),
        }
    }
}

} // verus!
