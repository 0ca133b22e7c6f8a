//! Prime fields: the integers modulo a prime, each element held as its
//! canonical representative.

use crate::natural::{
    difference, duplicate, from_u32, is_zero, less, nat_of, one, product, quotient_remainder,
    remainder, same, sum, zero,
};
use crate::number_theory::{
    gcd, has_inverse, inverse, is_inverse, is_prime, lemma_common_divisor_excludes_inverse,
    lemma_gcd_divides, lemma_inverse_is, lemma_inverse_modulus, lemma_inverse_of_remainder,
    lemma_prime_inverses, lemma_remainder_difference, lemma_same_remainder,
};
use num_bigint::BigUint;
use vstd::arithmetic::div_mod::*;
use vstd::arithmetic::mul::*;
use vstd::prelude::*;

verus! {

/// Why an operation on field elements gave no result.
#[derive(Debug, Clone, Copy, PartialEq, Eq, Structural)]
pub enum FieldError {
    /// The divisor is not invertible: it is zero in the field.
    NoInverse,
    /// A text that should denote a number does not.
    MalformedInput,
}

/// The sum of two residues modulo `p`.
pub open spec fn field_add(a: nat, b: nat, p: nat) -> nat {
    (a + b) % p
}

/// The difference of two residues modulo `p`.
pub open spec fn field_sub(a: nat, b: nat, p: nat) -> nat {
    ((a - b) % (p as int)) as nat
}

/// The product of two residues modulo `p`.
pub open spec fn field_mul(a: nat, b: nat, p: nat) -> nat {
    (a * b) % p
}

/// The quotient of two residues modulo `p`: the dividend times the inverse of
/// the divisor, where the divisor has one.
pub open spec fn field_div(a: nat, b: nat, p: nat) -> Option<nat> {
    if has_inverse(b, p) {
        Some((a * inverse(b, p)) % p)
    } else {
        None
    }
}

/// Sums, differences and products are canonical, and so is a quotient where
/// there is one.
pub proof fn lemma_results_canonical(a: nat, b: nat, p: nat)
    requires
        p > 0,
    ensures
        field_add(a, b, p) < p,
        field_sub(a, b, p) < p,
        field_mul(a, b, p) < p,
        field_div(a, b, p) matches Some(q) ==> q < p,
{
    lemma_mod_pos_bound((a + b) as int, p as int);
    lemma_mod_bound(a - b, p as int);
    lemma_mod_pos_bound((a * b) as int, p as int);
    lemma_mod_pos_bound((a * inverse(b, p)) as int, p as int);
}

/// Zero has no inverse, so a division by zero has no result.
pub proof fn lemma_zero_divisor(a: nat, p: nat)
    requires
        p > 0,
    ensures
        !has_inverse(0, p),
        field_div(a, 0, p) is None,
{
    assert forall|i: nat| !is_inverse(0, i, p) by {
        assert(0 * i == 0) by (nonlinear_arith);
        lemma_small_mod(0, p);
    }
}

/// In a prime field a division has a result unless the divisor is zero.
pub proof fn lemma_div_defined(a: nat, b: nat, p: nat)
    requires
        is_prime(p),
    ensures
        field_div(a, b, p) is None <==> b % p == 0,
{
    lemma_prime_inverses(p, b);
}

/// Division undoes multiplication: in a prime field `(x * y) / x` is `y`
/// for every `x` that is not zero.
pub proof fn lemma_div_undoes_mul(x: nat, y: nat, p: nat)
    requires
        is_prime(p),
        x % p != 0,
        y < p,
    ensures
        field_div(field_mul(x, y, p), x, p) == Some(y),
{
    lemma_prime_inverses(p, x);
    let i = inverse(x, p);
    assert(is_inverse(x, i, p));
    lemma_inverse_modulus(x, i, p);
    let k = lemma_remainder_difference((x * i) as int, 1, p as int);
    lemma_mul_mod_noop_left((x * y) as int, i as int, p as int);
    assert(x * y * i == y + (y * k) * p) by (nonlinear_arith)
        requires
            x * i == 1 + k * p,
    ;
    lemma_same_remainder((x * y * i) as int, y as int, y * k, p as int);
    lemma_small_mod(y, p);
}

/// One round of the extended Euclidean algorithm keeps the coefficient in
/// step with the remainder: where `t0 * b` and `t1 * b` leave the remainders
/// of `r0` and `r1`, the next coefficient times `b` leaves that of `r0 % r1`.
proof fn lemma_euclid_round(b: nat, m: nat, r0: nat, r1: nat, t0: nat, t1: nat, qt: nat, t2: nat)
    requires
        m > 0,
        r1 > 0,
        t0 < m,
        (t0 * b) % m == r0 % m,
        (t1 * b) % m == r1 % m,
        qt == ((r0 / r1) * t1) % m,
        t2 == if t0 < qt {
            t0 + m - qt
        } else {
            t0 - qt
        },
    ensures
        t2 < m,
        (t2 * b) % m == (r0 % r1) % m,
{
    let q = (r0 / r1) as int;
    let r2 = (r0 % r1) as int;
    lemma_mod_pos_bound(q * t1, m as int);
    lemma_fundamental_div_mod(r0 as int, r1 as int);
    let k0 = lemma_remainder_difference((t0 * b) as int, r0 as int, m as int);
    let k1 = lemma_remainder_difference((t1 * b) as int, r1 as int, m as int);
    lemma_small_mod(qt, m);
    let c = lemma_remainder_difference(q * t1, qt as int, m as int);
    let e: int = if t0 < qt {
        1
    } else {
        0
    };
    assert(t2 == t0 - qt + e * m);
    assert(t2 * b == r2 + (k0 - q * k1 + c * b + e * b) * m) by (nonlinear_arith)
        requires
            t0 * b == r0 + k0 * m,
            t1 * b == r1 + k1 * m,
            q * t1 == qt + c * m,
            t2 == t0 - qt + e * m,
            r0 == r1 * q + r2,
    ;
    lemma_same_remainder((t2 * b) as int, r2, k0 - q * k1 + c * b + e * b, m as int);
}

/// The inverse of `b` modulo `m`, by the extended Euclidean algorithm; `None`
/// where `b` has no inverse.
pub fn inverse_mod(b: &BigUint, m: &BigUint) -> (r: Option<BigUint>)
    ensures
        match r {
            Some(i) => is_inverse(nat_of(*b), nat_of(i), nat_of(*m)),
            None => !has_inverse(nat_of(*b), nat_of(*m)),
        },
{
    let unit = one();
    if !less(&unit, m) {
        proof {
            assert forall|i: nat| !is_inverse(nat_of(*b), i, nat_of(*m)) by {
                if is_inverse(nat_of(*b), i, nat_of(*m)) {
                    lemma_inverse_modulus(nat_of(*b), i, nat_of(*m));
                }
            }
        }
        return None;
    }
    let ghost modulus = nat_of(*m);
    let reduced = remainder(b, m);
    let ghost base = nat_of(reduced);
    let mut r0 = duplicate(m);
    let mut r1 = reduced;
    let mut t0 = zero();
    let mut t1 = one();
    proof {
        lemma_mod_pos_bound(nat_of(*b) as int, modulus as int);
        lemma_mod_self_0(modulus as int);
        lemma_small_mod(base, modulus);
        assert(nat_of(t0) * base == 0) by (nonlinear_arith)
            requires
                nat_of(t0) == 0,
        ;
        assert(nat_of(t1) * base == base) by (nonlinear_arith)
            requires
                nat_of(t1) == 1,
        ;
    }
    while !is_zero(&r1)
        invariant
            modulus == nat_of(*m),
            modulus > 1,
            gcd(nat_of(r0), nat_of(r1)) == gcd(modulus, base),
            nat_of(t0) < modulus,
            nat_of(t1) < modulus,
            (nat_of(t0) * base) % modulus == nat_of(r0) % modulus,
            (nat_of(t1) * base) % modulus == nat_of(r1) % modulus,
        decreases nat_of(r1),
    {
        let (q, r2) = quotient_remainder(&r0, &r1);
        let qt1 = product(&q, &t1);
        let qt = remainder(&qt1, m);
        proof {
            lemma_mod_pos_bound(nat_of(qt1) as int, modulus as int);
            lemma_mod_pos_bound(nat_of(r0) as int, nat_of(r1) as int);
        }
        let t2 = if less(&t0, &qt) {
            let lifted = sum(&t0, m);
            difference(&lifted, &qt)
        } else {
            difference(&t0, &qt)
        };
        proof {
            lemma_euclid_round(
                base,
                modulus,
                nat_of(r0),
                nat_of(r1),
                nat_of(t0),
                nat_of(t1),
                nat_of(qt),
                nat_of(t2),
            );
        }
        r0 = r1;
        r1 = r2;
        t0 = t1;
        t1 = t2;
    }
    proof {
        lemma_inverse_of_remainder(nat_of(*b), nat_of(t0), modulus);
        lemma_gcd_divides(modulus, base);
    }
    if same(&r0, &unit) {
        proof {
            lemma_small_mod(1, modulus);
            lemma_mul_is_commutative(nat_of(t0) as int, base as int);
        }
        Some(t0)
    } else {
        proof {
            lemma_common_divisor_excludes_inverse(base, modulus, nat_of(r0));
            assert forall|i: nat| !is_inverse(nat_of(*b), i, modulus) by {
                lemma_inverse_of_remainder(nat_of(*b), i, modulus);
                assert(!is_inverse(base, i, modulus));
            }
        }
        None
    }
}

/// An element of a prime field.
///
/// A type of elements names its field's prime and hands out the canonical
/// representative of each element; the arithmetic is the same for every field
/// and is provided here.
pub trait PrimeFieldEle: Sized {
    /// The prime that the field's arithmetic is taken modulo.
    spec fn characteristic() -> nat;

    /// The canonical representative of the element.
    spec fn residue(&self) -> nat;

    /// The characteristic is a prime.
    proof fn lemma_characteristic()
        ensures
            is_prime(Self::characteristic()),
    ;

    /// The representative of every element is below the characteristic.
    proof fn lemma_canonical(&self)
        ensures
            self.residue() < Self::characteristic(),
    ;

    /// The field's prime.
    fn prime(&self) -> (p: BigUint)
        ensures
            nat_of(p) == Self::characteristic(),
    ;

    /// The canonical representative of the element: a number below the
    /// prime.
    fn value(&self) -> (v: BigUint)
        ensures
            nat_of(v) == self.residue(),
            nat_of(v) < Self::characteristic(),
    ;

    /// The element that a number stands for: the number is reduced modulo the
    /// prime.
    fn from_biguint(value: BigUint) -> (e: Self)
        ensures
            e.residue() == nat_of(value) % Self::characteristic(),
            e.residue() < Self::characteristic(),
    ;

    /// The element that a small number stands for.
    fn from_u32(value: u32) -> (e: Self)
        ensures
            e.residue() == value as nat % Self::characteristic(),
            e.residue() < Self::characteristic(),
    {
        Self::from_biguint(from_u32(value))
    }

    /// The sum of two elements.
    fn add(self, other: Self) -> (r: Self)
        ensures
            r.residue() == field_add(self.residue(), other.residue(), Self::characteristic()),
            r.residue() < Self::characteristic(),
    {
        let s = sum(&self.value(), &other.value());
        Self::from_biguint(s)
    }

    /// The difference of two elements.
    fn sub(self, other: Self) -> (r: Self)
        ensures
            r.residue() == field_sub(self.residue(), other.residue(), Self::characteristic()),
            r.residue() < Self::characteristic(),
    {
        let p = self.prime();
        let a = self.value();
        let b = other.value();
        proof {
            Self::lemma_characteristic();
            other.lemma_canonical();
            lemma_same_remainder(
                nat_of(a) + nat_of(p) - nat_of(b),
                nat_of(a) - nat_of(b),
                1,
                nat_of(p) as int,
            );
        }
        let lifted = sum(&a, &p);
        let d = difference(&lifted, &b);
        Self::from_biguint(d)
    }

    /// The product of two elements.
    fn mul(self, other: Self) -> (r: Self)
        ensures
            r.residue() == field_mul(self.residue(), other.residue(), Self::characteristic()),
            r.residue() < Self::characteristic(),
    {
        let m = product(&self.value(), &other.value());
        Self::from_biguint(m)
    }

    /// The quotient of two elements: `self` times the inverse of `other`.
    /// The divisor zero, which alone has no inverse, is refused.
    fn div(self, other: Self) -> (r: Result<Self, FieldError>)
        ensures
            other.residue() == 0 ==> r is Err && r->Err_0 == FieldError::NoInverse,
            other.residue() != 0 ==> r is Ok && r->Ok_0.residue() < Self::characteristic()
                && field_div(self.residue(), other.residue(), Self::characteristic()) == Some(
                r->Ok_0.residue(),
            ),
    {
        let p = self.prime();
        let b = other.value();
        proof {
            Self::lemma_characteristic();
            other.lemma_canonical();
            lemma_div_defined(self.residue(), other.residue(), Self::characteristic());
            lemma_small_mod(other.residue(), Self::characteristic());
        }
        match inverse_mod(&b, &p) {
            Some(i) => {
                proof {
                    lemma_inverse_is(nat_of(b), nat_of(i), nat_of(p));
                }
                let m = product(&self.value(), &i);
                Ok(Self::from_biguint(m))
            },
            None => Err(FieldError::NoInverse),
        }
    }

    /// Whether two elements are the same element of the field.
    fn equals(&self, other: &Self) -> (r: bool)
        ensures
            r == (self.residue() == other.residue()),
    {
        same(&self.value(), &other.value())
    }
}

} // verus!
