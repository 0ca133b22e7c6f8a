//! Divisibility, greatest common divisors and inverses modulo a number.

use vstd::arithmetic::div_mod::*;
use vstd::arithmetic::mul::*;
use vstd::prelude::*;

verus! {

/// The greatest common divisor, by Euclid's recursion.
pub open spec fn gcd(a: nat, b: nat) -> nat
    decreases b,
{
    if b == 0 {
        a
    } else {
        gcd(b, a % b)
    }
}

/// `i` is the inverse of `b` modulo `m`, in canonical form.
pub open spec fn is_inverse(b: nat, i: nat, m: nat) -> bool {
    i < m && (b * i) % m == 1
}

/// `b` has an inverse modulo `m`.
pub open spec fn has_inverse(b: nat, m: nat) -> bool {
    exists|i: nat| is_inverse(b, i, m)
}

/// The inverse of `b` modulo `m`, where there is one.
pub open spec fn inverse(b: nat, m: nat) -> nat {
    choose|i: nat| is_inverse(b, i, m)
}

/// Two numbers that differ by a multiple of `m` leave the same remainder.
pub proof fn lemma_same_remainder(x: int, y: int, k: int, m: int)
    requires
        m > 0,
        x == y + k * m,
    ensures
        x % m == y % m,
{
    lemma_mod_multiples_vanish(k, y, m);
    lemma_mul_is_commutative(k, m);
}

/// Two numbers that leave the same remainder differ by a multiple of `m`.
pub proof fn lemma_remainder_difference(x: int, y: int, m: int) -> (k: int)
    requires
        m > 0,
        x % m == y % m,
    ensures
        x == y + k * m,
{
    lemma_fundamental_div_mod(x, m);
    lemma_fundamental_div_mod(y, m);
    let k = x / m - y / m;
    lemma_mul_is_distributive_sub(m, x / m, y / m);
    lemma_mul_is_commutative(k, m);
    k
}

/// The greatest common divisor divides both numbers, and is positive unless
/// both are zero.
pub proof fn lemma_gcd_divides(a: nat, b: nat)
    requires
        a > 0 || b > 0,
    ensures
        gcd(a, b) > 0,
        a % gcd(a, b) == 0,
        b % gcd(a, b) == 0,
    decreases b,
{
    if b == 0 {
        lemma_mod_self_0(a as int);
    } else {
        let g = gcd(b, a % b);
        lemma_mod_pos_bound(a as int, b as int);
        lemma_gcd_divides(b, a % b);
        lemma_fundamental_div_mod(a as int, b as int);
        let kb = lemma_remainder_difference(b as int, 0, g as int);
        let kr = lemma_remainder_difference((a % b) as int, 0, g as int);
        let q = (a / b) as int;
        assert(a as int == 0 + (q * kb + kr) * g) by (nonlinear_arith)
            requires
                a as int == b * q + (a % b),
                b as int == 0 + kb * g,
                (a % b) as int == 0 + kr * g,
        ;
        lemma_same_remainder(a as int, 0, q * kb + kr, g as int);
    }
}

/// Only a modulus above 1 admits inverses, and 1 is then its own remainder.
pub proof fn lemma_inverse_modulus(b: nat, i: nat, m: nat)
    requires
        m > 0,
        is_inverse(b, i, m),
    ensures
        m > 1,
        1int % (m as int) == 1,
{
    lemma_mod_pos_bound((b * i) as int, m as int);
    lemma_small_mod(1, m);
}

/// A number with a divisor above 1 in common with the modulus has no inverse.
pub proof fn lemma_common_divisor_excludes_inverse(b: nat, m: nat, g: nat)
    requires
        m > 0,
        g > 1,
        b % g == 0,
        m % g == 0,
    ensures
        !has_inverse(b, m),
{
    if has_inverse(b, m) {
        let i = inverse(b, m);
        assert(is_inverse(b, i, m));
        lemma_inverse_modulus(b, i, m);
        let kb = lemma_remainder_difference(b as int, 0, g as int);
        let km = lemma_remainder_difference(m as int, 0, g as int);
        let k = lemma_remainder_difference((b * i) as int, 1, m as int);
        assert(1 == 0 + (kb * i - k * km) * g) by (nonlinear_arith)
            requires
                b as int == 0 + kb * g,
                m as int == 0 + km * g,
                (b * i) as int == 1 + k * m,
        ;
        lemma_same_remainder(1, 0, kb * i - k * km, g as int);
        lemma_small_mod(1, g);
        assert(false);
    }
}

/// A number has at most one inverse modulo `m`.
pub proof fn lemma_inverse_unique(b: nat, i: nat, j: nat, m: nat)
    requires
        m > 0,
        is_inverse(b, i, m),
        is_inverse(b, j, m),
    ensures
        i == j,
{
    lemma_inverse_modulus(b, i, m);
    let ki = lemma_remainder_difference((b * i) as int, 1, m as int);
    let kj = lemma_remainder_difference((b * j) as int, 1, m as int);
    assert(i as int == j + (j * ki - i * kj) * m) by (nonlinear_arith)
        requires
            (b * i) as int == 1 + ki * m,
            (b * j) as int == 1 + kj * m,
    ;
    lemma_same_remainder(i as int, j as int, j * ki - i * kj, m as int);
    lemma_small_mod(i, m);
    lemma_small_mod(j, m);
}

/// The chosen inverse is the inverse that is at hand.
pub proof fn lemma_inverse_is(b: nat, i: nat, m: nat)
    requires
        m > 0,
        is_inverse(b, i, m),
    ensures
        has_inverse(b, m),
        inverse(b, m) == i,
{
    lemma_inverse_unique(b, i, inverse(b, m), m);
}

/// Whether a number has an inverse depends on its remainder alone, and so
/// does the inverse.
pub proof fn lemma_inverse_of_remainder(b: nat, i: nat, m: nat)
    requires
        m > 0,
    ensures
        is_inverse(b % m, i, m) == is_inverse(b, i, m),
{
    lemma_mul_mod_noop_left(b as int, i as int, m as int);
}

/// A prime: a number above 1 that no number strictly between 1 and itself
/// divides.
pub open spec fn is_prime(p: nat) -> bool {
    p > 1 && forall|d: nat| 1 < d < p ==> #[trigger] (p % d) != 0
}

/// Bezout's identity: the greatest common divisor of two numbers is a
/// combination of them with integer coefficients, which are returned.
pub proof fn lemma_bezout(a: nat, b: nat) -> (c: (int, int))
    ensures
        a * c.0 + b * c.1 == gcd(a, b),
    decreases b,
{
    if b == 0 {
        (1, 0)
    } else {
        lemma_mod_pos_bound(a as int, b as int);
        lemma_fundamental_div_mod(a as int, b as int);
        let (x, y) = lemma_bezout(b, a % b);
        let q = (a / b) as int;
        let r = (a % b) as int;
        assert(a * y + b * (x - q * y) == b * x + r * y) by (nonlinear_arith)
            requires
                a == b * q + r,
        ;
        (y, x - q * y)
    }
}

/// A positive number is at least as large as each of its divisors.
pub proof fn lemma_divisor_bound(n: nat, d: nat)
    requires
        n > 0,
        d > 0,
        n % d == 0,
    ensures
        d <= n,
{
    let k = lemma_remainder_difference(n as int, 0, d as int);
    assert(d <= n) by (nonlinear_arith)
        requires
            n == 0 + k * d,
            n > 0,
            d > 0,
    ;
}

/// Modulo a prime, every number that the prime does not divide has an
/// inverse.
pub proof fn lemma_prime_invertible(p: nat, b: nat)
    requires
        is_prime(p),
        b % p != 0,
    ensures
        has_inverse(b, p),
{
    let r = b % p;
    lemma_mod_pos_bound(b as int, p as int);
    let g = gcd(p, r);
    lemma_gcd_divides(p, r);
    lemma_divisor_bound(r, g);
    assert(g == 1) by {
        if g != 1 {
            assert(p % g != 0);
        }
    }
    let (x, y) = lemma_bezout(p, r);
    let i = (y % (p as int)) as nat;
    lemma_mod_bound(y, p as int);
    lemma_mul_mod_noop_right(r as int, y, p as int);
    assert(r * y == 1 + (-x) * p) by (nonlinear_arith)
        requires
            p * x + r * y == 1,
    ;
    lemma_same_remainder(r * y, 1, -x, p as int);
    lemma_small_mod(1, p);
    assert(is_inverse(r, i, p));
    lemma_inverse_of_remainder(b, i, p);
    assert(is_inverse(b, i, p));
}

/// A number above 1 modulo which every smaller positive number has an
/// inverse is prime.
pub proof fn lemma_invertible_prime(m: nat)
    requires
        m > 1,
        forall|b: nat| 0 < b < m ==> #[trigger] has_inverse(b, m),
    ensures
        is_prime(m),
{
    assert forall|d: nat| 1 < d < m implies #[trigger] (m % d) != 0 by {
        if m % d == 0 {
            lemma_mod_self_0(d as int);
            lemma_common_divisor_excludes_inverse(d, m, d);
            assert(has_inverse(d, m));
        }
    }
}

/// Modulo a prime, the numbers with an inverse are those that the prime
/// does not divide.
pub proof fn lemma_prime_inverses(p: nat, b: nat)
    requires
        is_prime(p),
    ensures
        has_inverse(b, p) <==> b % p != 0,
{
    if b % p != 0 {
        lemma_prime_invertible(p, b);
    } else {
        assert forall|i: nat| !is_inverse(b, i, p) by {
            lemma_inverse_of_remainder(b, i, p);
            assert(0 * i == 0) by (nonlinear_arith);
            lemma_small_mod(0, p);
        }
    }
}

} // verus!
