//! A criterion for primality: a number `n` is prime where some `g` has the
//! multiplicative order `n - 1` modulo `n`, which a factorisation of `n - 1`
//! into primes makes checkable by a few exponentiations.

use crate::number_theory::{
    has_inverse, is_inverse, is_prime, lemma_inverse_modulus, lemma_invertible_prime,
    lemma_prime_invertible, lemma_remainder_difference,
};
use vstd::arithmetic::div_mod::*;
use vstd::arithmetic::mul::*;
use vstd::arithmetic::power::*;
use vstd::prelude::*;
use vstd::relations::injective_on;
use vstd::set_lib::*;

verus! {

/// The power `g^e` modulo `n`.
pub open spec fn power_mod(g: nat, e: nat, n: nat) -> nat {
    (pow(g as int, e) % (n as int)) as nat
}

/// The product of the numbers of a sequence.
pub open spec fn product(qs: Seq<nat>) -> nat
    decreases qs.len(),
{
    if qs.len() == 0 {
        1
    } else {
        product(qs.drop_last()) * qs.last()
    }
}

/// `d` is the multiplicative order of `g` modulo `n`: the least positive
/// exponent that takes `g` to 1.
pub open spec fn is_order(g: nat, n: nat, d: nat) -> bool {
    &&& d >= 1
    &&& power_mod(g, d, n) == 1
    &&& forall|k: nat| 1 <= k < d ==> power_mod(g, k, n) != 1
}

/// A power modulo `n` is below `n`.
pub proof fn lemma_power_mod_bound(g: nat, e: nat, n: nat)
    requires
        n > 0,
    ensures
        power_mod(g, e, n) < n,
        power_mod(g, e, n) == pow(g as int, e) % (n as int),
{
    lemma_mod_bound(pow(g as int, e), n as int);
}

/// Exponents add where powers multiply.
pub proof fn lemma_power_mod_adds(g: nat, a: nat, b: nat, n: nat)
    requires
        n > 0,
    ensures
        power_mod(g, a + b, n) == (power_mod(g, a, n) * power_mod(g, b, n)) % n,
{
    lemma_power_mod_bound(g, a, n);
    lemma_power_mod_bound(g, b, n);
    lemma_power_mod_bound(g, a + b, n);
    lemma_pow_adds(g as int, a, b);
    lemma_mul_mod_noop(pow(g as int, a), pow(g as int, b), n as int);
}

/// A power that is 1 stays 1 when its exponent is multiplied.
pub proof fn lemma_power_mod_multiple(g: nat, a: nat, c: nat, n: nat)
    requires
        n > 1,
        power_mod(g, a, n) == 1,
    ensures
        power_mod(g, a * c, n) == 1,
{
    lemma_power_mod_bound(g, a, n);
    lemma_power_mod_bound(g, a * c, n);
    lemma_pow_multiplies(g as int, a, c);
    lemma_pow_mod_noop(pow(g as int, a), c, n as int);
    lemma1_pow(c);
    lemma_small_mod(1, n);
}

/// Where some power of `g` is 1, `g` has an order, and it is no larger than
/// that exponent.
pub proof fn lemma_order_exists(g: nat, n: nat, bound: nat) -> (d: nat)
    requires
        bound >= 1,
        power_mod(g, bound, n) == 1,
    ensures
        is_order(g, n, d),
        d <= bound,
    decreases bound,
{
    if exists|k: nat| 1 <= k < bound && power_mod(g, k, n) == 1 {
        let k = choose|k: nat| 1 <= k < bound && power_mod(g, k, n) == 1;
        lemma_order_exists(g, n, k)
    } else {
        bound
    }
}

/// The order of `g` divides every exponent that takes `g` to 1.
pub proof fn lemma_order_divides(g: nat, n: nat, d: nat, e: nat)
    requires
        n > 1,
        is_order(g, n, d),
        power_mod(g, e, n) == 1,
    ensures
        e % d == 0,
{
    let q = e / d;
    let r = e % d;
    lemma_fundamental_div_mod(e as int, d as int);
    lemma_mod_pos_bound(e as int, d as int);
    lemma_div_pos_is_pos(e as int, d as int);
    lemma_power_mod_multiple(g, d, q, n);
    lemma_power_mod_adds(g, d * q, r, n);
    lemma_power_mod_bound(g, r, n);
    lemma_small_mod(power_mod(g, r, n), n);
    assert(1 * power_mod(g, r, n) == power_mod(g, r, n)) by (nonlinear_arith);
    assert(d * q + r == e);
    assert(power_mod(g, r, n) == 1);
}

/// Equal powers can be cancelled: where `g^(n-1)` is 1 and `g^i` equals
/// `g^(i+s)`, the power `g^s` is 1.
pub proof fn lemma_power_mod_cancel(g: nat, n: nat, i: nat, s: nat)
    requires
        n > 1,
        power_mod(g, (n - 1) as nat, n) == 1,
        power_mod(g, i, n) == power_mod(g, i + s, n),
    ensures
        power_mod(g, s, n) == 1,
{
    let t = ((n - 1) * i) as nat;
    let u = ((n - 2) * i) as nat;
    assert((n - 1) * i >= 0 && (n - 2) * i >= 0 && (n - 1) * i == i + (n - 2) * i)
        by (nonlinear_arith)
        requires
            n > 1,
    ;
    lemma_power_mod_multiple(g, (n - 1) as nat, i, n);
    lemma_power_mod_adds(g, i + s, u, n);
    lemma_power_mod_adds(g, i, u, n);
    lemma_power_mod_adds(g, s, t, n);
    lemma_power_mod_bound(g, s, n);
    lemma_small_mod(power_mod(g, s, n), n);
    assert(power_mod(g, s, n) * 1 == power_mod(g, s, n)) by (nonlinear_arith);
    assert(i + s + u == s + t);
}

/// Where `g^(n-1)` is 1, every power of `g` has an inverse, which is again a
/// power of `g`.
pub proof fn lemma_power_mod_unit(g: nat, n: nat, k: nat)
    requires
        n > 1,
        power_mod(g, (n - 1) as nat, n) == 1,
    ensures
        has_inverse(power_mod(g, k, n), n),
        power_mod(g, k, n) != 0,
{
    let u = ((n - 2) * k) as nat;
    let t = ((n - 1) * k) as nat;
    assert((n - 1) * k >= 0 && (n - 2) * k >= 0 && (n - 1) * k == k + (n - 2) * k)
        by (nonlinear_arith)
        requires
            n > 1,
    ;
    lemma_power_mod_multiple(g, (n - 1) as nat, k, n);
    lemma_power_mod_adds(g, k, u, n);
    lemma_power_mod_bound(g, u, n);
    assert(is_inverse(power_mod(g, k, n), power_mod(g, u, n), n));
    if power_mod(g, k, n) == 0 {
        assert(0 * power_mod(g, u, n) == 0) by (nonlinear_arith);
        lemma_small_mod(0, n);
    }
}

/// A product of primes is positive.
pub proof fn lemma_product_positive(qs: Seq<nat>)
    requires
        forall|k: int| 0 <= k < qs.len() ==> is_prime(#[trigger] qs[k]),
    ensures
        product(qs) > 0,
    decreases qs.len(),
{
    if qs.len() > 0 {
        lemma_product_positive(qs.drop_last());
        assert(is_prime(qs[qs.len() - 1]));
        lemma_mul_strictly_positive(product(qs.drop_last()) as int, qs.last() as int);
    }
}

/// A number above 1 that divides a product of primes is divisible by one of
/// them, whose place in the sequence is returned.
pub proof fn lemma_listed_factor(c: nat, j: nat, qs: Seq<nat>) -> (i: int)
    requires
        c > 1,
        c * j == product(qs),
        forall|k: int| 0 <= k < qs.len() ==> is_prime(#[trigger] qs[k]),
    ensures
        0 <= i < qs.len(),
        qs[i] > 0,
        c % qs[i] == 0,
    decreases qs.len(),
{
    if qs.len() == 0 {
        assert(false) by (nonlinear_arith)
            requires
                c > 1,
                c * j == 1,
        ;
        0
    } else {
        let q = qs.last();
        let front = qs.drop_last();
        let rest = product(front);
        assert(is_prime(qs[qs.len() - 1]));
        if c % q == 0 {
            qs.len() - 1
        } else {
            lemma_prime_invertible(q, c);
            let u = choose|u: nat| is_inverse(c, u, q);
            lemma_inverse_modulus(c, u, q);
            let k = lemma_remainder_difference((c * u) as int, 1, q as int);
            lemma_product_positive(front);
            let next = u * rest - k * j;
            assert(rest == c * next) by (nonlinear_arith)
                requires
                    c * u == 1 + k * q,
                    c * j == rest * q,
                    next == u * rest - k * j,
            ;
            assert(next > 0) by (nonlinear_arith)
                requires
                    rest == c * next,
                    rest > 0,
                    c > 1,
            ;
            lemma_mul_is_commutative(c as int, next);
            let i = lemma_listed_factor(c, next as nat, front);
            i
        }
    }
}

/// What is to be checked of `g` for each prime `q` of a factorisation of
/// `n - 1`: that `q` is prime and that `g^((n-1)/q)` is not 1 modulo `n`.
pub open spec fn witnessed(n: nat, g: nat, qs: Seq<nat>) -> bool {
    forall|k: int|
        0 <= k < qs.len() ==> is_prime(#[trigger] qs[k]) && power_mod(
            g,
            ((n - 1) / (qs[k] as int)) as nat,
            n,
        ) != 1
}

/// Where `g^(n-1)` is 1 and no `g^((n-1)/q)` is, for the primes `q` that
/// `n - 1` is made of, the order of `g` is `n - 1`.
pub proof fn lemma_full_order(n: nat, g: nat, qs: Seq<nat>)
    requires
        n > 1,
        product(qs) == n - 1,
        witnessed(n, g, qs),
        power_mod(g, (n - 1) as nat, n) == 1,
    ensures
        is_order(g, n, (n - 1) as nat),
{
    let top = (n - 1) as nat;
    let d = lemma_order_exists(g, n, top);
    lemma_order_divides(g, n, d, top);
    let c = top / d;
    lemma_fundamental_div_mod(top as int, d as int);
    lemma_div_pos_is_pos(top as int, d as int);
    assert(top == d * c);
    if c > 1 {
        lemma_mul_is_commutative(d as int, c as int);
        let i = lemma_listed_factor(c, d, qs);
        let q = qs[i];
        let rest = c / q;
        lemma_fundamental_div_mod(c as int, q as int);
        lemma_div_pos_is_pos(c as int, q as int);
        assert(top == q * (d * rest)) by (nonlinear_arith)
            requires
                top == d * c,
                c == q * rest,
        ;
        lemma_div_multiples_vanish((d * rest) as int, q as int);
        assert(top / q == d * rest);
        lemma_power_mod_multiple(g, d, rest, n);
        assert(false);
    }
    assert(c == 1) by (nonlinear_arith)
        requires
            top == d * c,
            top >= 1,
            c <= 1,
            d >= 1,
    ;
    assert(d == top) by (nonlinear_arith)
        requires
            top == d * c,
            c == 1,
    ;
}

/// Lucas's criterion: `n` is prime where `g^(n-1)` is 1 modulo `n` and
/// `g^((n-1)/q)` is not, for each prime `q` of a factorisation of `n - 1`.
pub proof fn lemma_lucas(n: nat, g: nat, qs: Seq<nat>)
    requires
        n > 1,
        product(qs) == n - 1,
        witnessed(n, g, qs),
        power_mod(g, (n - 1) as nat, n) == 1,
    ensures
        is_prime(n),
{
    let top = (n - 1) as nat;
    lemma_full_order(n, g, qs);
    let f = |k: int| power_mod(g, k as nat, n) as int;
    let exponents = set_int_range(0, top as int);
    let powers = exponents.map(f);
    let units = set_int_range(1, n as int);
    lemma_int_range(0, top as int);
    lemma_int_range(1, n as int);
    assert(injective_on(f, exponents)) by {
        assert forall|a: int, b: int|
            exponents.contains(a) && exponents.contains(b) && #[trigger] f(a) == #[trigger] f(
                b,
            ) implies a == b by {
            if a < b {
                lemma_power_mod_cancel(g, n, a as nat, (b - a) as nat);
                assert(false);
            }
            if b < a {
                lemma_power_mod_cancel(g, n, b as nat, (a - b) as nat);
                assert(false);
            }
        }
    }
    lemma_map_size(exponents, powers, f);
    assert(powers.subset_of(units)) by {
        assert forall|v: int| powers.contains(v) implies units.contains(v) by {
            let k = choose|k: int| exponents.contains(k) && v == f(k);
            lemma_power_mod_unit(g, n, k as nat);
            lemma_power_mod_bound(g, k as nat, n);
        }
    }
    lemma_subset_equality(powers, units);
    assert forall|b: nat| 0 < b < n implies #[trigger] has_inverse(b, n) by {
        assert(units.contains(b as int));
        assert(powers.contains(b as int));
        let k = choose|k: int| exponents.contains(k) && b as int == f(k);
        lemma_power_mod_unit(g, n, k as nat);
    }
    lemma_invertible_prime(n);
}

/// Nothing is to be checked for an empty factorisation.
pub proof fn lemma_witnessed_empty(n: nat, g: nat)
    ensures
        witnessed(n, g, Seq::<nat>::empty()),
        product(Seq::<nat>::empty()) == 1,
{
}

/// A factorisation grows by one prime `q` for which `g` has been checked.
pub proof fn lemma_witnessed_push(n: nat, g: nat, qs: Seq<nat>, q: nat)
    requires
        witnessed(n, g, qs),
        is_prime(q),
        power_mod(g, ((n - 1) / (q as int)) as nat, n) != 1,
    ensures
        witnessed(n, g, qs.push(q)),
        product(qs.push(q)) == product(qs) * q,
{
    assert(qs.push(q).drop_last() =~= qs);
    assert forall|k: int| 0 <= k < qs.push(q).len() implies is_prime(#[trigger] qs.push(q)[k])
        && power_mod(g, ((n - 1) / (qs.push(q)[k] as int)) as nat, n) != 1 by {
        if k < qs.len() {
            assert(qs.push(q)[k] == qs[k]);
        }
    }
}

/// The power with the exponent 0 is 1.
pub proof fn lemma_power_mod_start(g: nat, n: nat)
    requires
        n > 1,
    ensures
        power_mod(g, 0, n) == 1,
{
    lemma_pow0(g as int);
    lemma_small_mod(1, n);
}

/// One step of an exponentiation that takes in the exponent one binary digit
/// at a time: from `g^e` to `g^(2 e + bit)`, by a squaring and, where the
/// digit is 1, a multiplication by `g`. The exponent reached is returned.
pub proof fn lemma_power_mod_bit(g: nat, n: nat, e: nat, v: nat, bit: nat, r: nat) -> (next: nat)
    requires
        n > 1,
        power_mod(g, e, n) == v,
        bit <= 1,
        r == ((v * v) * (if bit == 1 {
            g
        } else {
            1
        })) % n,
    ensures
        next == 2 * e + bit,
        power_mod(g, next, n) == r,
{
    let m = n as int;
    lemma_power_mod_bound(g, e, n);
    lemma_power_mod_adds(g, e, e, n);
    lemma_power_mod_adds(g, e + e, bit, n);
    lemma_power_mod_bound(g, bit, n);
    lemma_pow0(g as int);
    lemma_pow1(g as int);
    lemma_small_mod(1, n);
    lemma_mul_mod_noop((v * v) as int, pow(g as int, bit), m);
    assert(e + e + bit == 2 * e + bit);
    2 * e + bit
}

/// A power of a power: where `g^a` is `x` and `x^e` is `y`, `g^(a e)` is `y`.
pub proof fn lemma_power_of_power(g: nat, n: nat, a: nat, x: nat, e: nat, y: nat)
    requires
        n > 1,
        power_mod(g, a, n) == x,
        power_mod(x, e, n) == y,
    ensures
        power_mod(g, a * e, n) == y,
{
    lemma_power_mod_bound(g, a, n);
    lemma_power_mod_bound(g, a * e, n);
    lemma_power_mod_bound(x, e, n);
    lemma_pow_multiplies(g as int, a, e);
    lemma_pow_mod_noop(pow(g as int, a), e, n as int);
}

} // verus!
