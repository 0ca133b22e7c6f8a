//! The proof that the modulus of Baby JubJub's field is prime.
//!
//! The modulus `p` is prime by Lucas's criterion: 5 has the order `p - 1`
//! modulo `p`. The criterion asks for the primes that `p - 1` is made of, and
//! each of them is shown prime in the same way, down to 2.
//!
//! The powers that the criterion asks for are computed one binary digit of
//! the exponent at a time, each step stating the power reached. The power
//! with the exponent `(p - 1) / q` is reached for all primes `q` at once: from
//! the power whose exponent lacks every prime, the primes are put back group
//! by group.

use crate::curves::baby_jubjub::ff::baby_jubjub_prime;
use crate::number_theory::is_prime;
use crate::primality::{
    lemma_lucas, lemma_power_mod_bit, lemma_power_mod_start, lemma_power_of_power,
    lemma_witnessed_empty, lemma_witnessed_push, power_mod,
};
use vstd::prelude::*;

verus! {

/// 2 is prime.
proof fn lemma_prime_2()
    ensures
        is_prime(2),
{
}

/// A power modulo 3, one binary digit of the exponent at a time.
proof fn lemma_power_3_0()
    ensures
        power_mod(2nat, 1nat, 3nat) == 2nat,
{
    let n: nat = 3nat;
    let x: nat = 2nat;
    lemma_power_mod_start(x, n);
    let e0: nat = 0;
    let v0: nat = 1;
    let v1: nat = 2nat;
    let e1: nat = lemma_power_mod_bit(x, n, e0, v0, 1, v1);
}

/// A power modulo 3, one binary digit of the exponent at a time.
proof fn lemma_power_3_1()
    ensures
        power_mod(2nat, 2nat, 3nat) == 1nat,
{
    let n: nat = 3nat;
    let x: nat = 2nat;
    lemma_power_mod_start(x, n);
    let e0: nat = 0;
    let v0: nat = 1;
    let v1: nat = 2nat;
    let e1: nat = lemma_power_mod_bit(x, n, e0, v0, 1, v1);
    let v2: nat = 1nat;
    let e2: nat = lemma_power_mod_bit(x, n, e1, v1, 0, v2);
}

/// 3 is prime.
proof fn lemma_prime_3()
    ensures
        is_prime(3nat),
{
    let n: nat = 3nat;
    let g: nat = 2;
    lemma_power_3_0();
    lemma_power_3_1();
    lemma_power_of_power(g, n, 1nat, 2nat, 2nat, 1nat);
    lemma_prime_2();
    lemma_witnessed_empty(n, g);
    let s0: Seq<nat> = Seq::empty();
    lemma_witnessed_push(n, g, s0, 2);
    let s1: Seq<nat> = s0.push(2);
    lemma_lucas(n, g, s1);
}

/// A power modulo 5, one binary digit of the exponent at a time.
proof fn lemma_power_5_0()
    ensures
        power_mod(2nat, 2nat, 5nat) == 4nat,
{
    let n: nat = 5nat;
    let x: nat = 2nat;
    lemma_power_mod_start(x, n);
    let e0: nat = 0;
    let v0: nat = 1;
    let v1: nat = 2nat;
    let e1: nat = lemma_power_mod_bit(x, n, e0, v0, 1, v1);
    let v2: nat = 4nat;
    let e2: nat = lemma_power_mod_bit(x, n, e1, v1, 0, v2);
}

/// A power modulo 5, one binary digit of the exponent at a time.
proof fn lemma_power_5_1()
    ensures
        power_mod(4nat, 2nat, 5nat) == 1nat,
{
    let n: nat = 5nat;
    let x: nat = 4nat;
    lemma_power_mod_start(x, n);
    let e0: nat = 0;
    let v0: nat = 1;
    let v1: nat = 4nat;
    let e1: nat = lemma_power_mod_bit(x, n, e0, v0, 1, v1);
    let v2: nat = 1nat;
    let e2: nat = lemma_power_mod_bit(x, n, e1, v1, 0, v2);
}

/// 5 is prime.
proof fn lemma_prime_5()
    ensures
        is_prime(5nat),
{
    let n: nat = 5nat;
    let g: nat = 2;
    lemma_power_5_0();
    lemma_power_5_1();
    lemma_power_of_power(g, n, 2nat, 4nat, 2nat, 1nat);
    lemma_prime_2();
    lemma_witnessed_empty(n, g);
    let s0: Seq<nat> = Seq::empty();
    lemma_witnessed_push(n, g, s0, 2);
    let s1: Seq<nat> = s0.push(2);
    lemma_witnessed_push(n, g, s1, 2);
    let s2: Seq<nat> = s1.push(2);
    lemma_lucas(n, g, s2);
}

/// A power modulo 7, one binary digit of the exponent at a time.
proof fn lemma_power_7_0()
    ensures
        power_mod(3nat, 1nat, 7nat) == 3nat,
{
    let n: nat = 7nat;
    let x: nat = 3nat;
    lemma_power_mod_start(x, n);
    let e0: nat = 0;
    let v0: nat = 1;
    let v1: nat = 3nat;
    let e1: nat = lemma_power_mod_bit(x, n, e0, v0, 1, v1);
}

/// A power modulo 7, one binary digit of the exponent at a time.
proof fn lemma_power_7_1()
    ensures
        power_mod(3nat, 3nat, 7nat) == 6nat,
{
    let n: nat = 7nat;
    let x: nat = 3nat;
    lemma_power_mod_start(x, n);
    let e0: nat = 0;
    let v0: nat = 1;
    let v1: nat = 3nat;
    let e1: nat = lemma_power_mod_bit(x, n, e0, v0, 1, v1);
    let v2: nat = 6nat;
    let e2: nat = lemma_power_mod_bit(x, n, e1, v1, 1, v2);
}

/// A power modulo 7, one binary digit of the exponent at a time.
proof fn lemma_power_7_2()
    ensures
        power_mod(3nat, 2nat, 7nat) == 2nat,
{
    let n: nat = 7nat;
    let x: nat = 3nat;
    lemma_power_mod_start(x, n);
    let e0: nat = 0;
    let v0: nat = 1;
    let v1: nat = 3nat;
    let e1: nat = lemma_power_mod_bit(x, n, e0, v0, 1, v1);
    let v2: nat = 2nat;
    let e2: nat = lemma_power_mod_bit(x, n, e1, v1, 0, v2);
}

/// A power modulo 7, one binary digit of the exponent at a time.
proof fn lemma_power_7_3()
    ensures
        power_mod(6nat, 2nat, 7nat) == 1nat,
{
    let n: nat = 7nat;
    let x: nat = 6nat;
    lemma_power_mod_start(x, n);
    let e0: nat = 0;
    let v0: nat = 1;
    let v1: nat = 6nat;
    let e1: nat = lemma_power_mod_bit(x, n, e0, v0, 1, v1);
    let v2: nat = 1nat;
    let e2: nat = lemma_power_mod_bit(x, n, e1, v1, 0, v2);
}

/// 7 is prime.
proof fn lemma_prime_7()
    ensures
        is_prime(7nat),
{
    let n: nat = 7nat;
    let g: nat = 3;
    lemma_power_7_0();
    lemma_power_7_1();
    lemma_power_of_power(g, n, 1nat, 3nat, 3nat, 6nat);
    lemma_power_7_2();
    lemma_power_of_power(g, n, 1nat, 3nat, 2nat, 2nat);
    lemma_power_7_3();
    lemma_power_of_power(g, n, 3nat, 6nat, 2nat, 1nat);
    lemma_prime_2();
    lemma_prime_3();
    lemma_witnessed_empty(n, g);
    let s0: Seq<nat> = Seq::empty();
    lemma_witnessed_push(n, g, s0, 2);
    let s1: Seq<nat> = s0.push(2);
    lemma_witnessed_push(n, g, s1, 3);
    let s2: Seq<nat> = s1.push(3);
    lemma_lucas(n, g, s2);
}

/// A power modulo 11, one binary digit of the exponent at a time.
proof fn lemma_power_11_0()
    ensures
        power_mod(2nat, 1nat, 11nat) == 2nat,
{
    let n: nat = 11nat;
    let x: nat = 2nat;
    lemma_power_mod_start(x, n);
    let e0: nat = 0;
    let v0: nat = 1;
    let v1: nat = 2nat;
    let e1: nat = lemma_power_mod_bit(x, n, e0, v0, 1, v1);
}

/// A power modulo 11, one binary digit of the exponent at a time.
proof fn lemma_power_11_1()
    ensures
        power_mod(2nat, 5nat, 11nat) == 10nat,
{
    let n: nat = 11nat;
    let x: nat = 2nat;
    lemma_power_mod_start(x, n);
    let e0: nat = 0;
    let v0: nat = 1;
    let v1: nat = 2nat;
    let e1: nat = lemma_power_mod_bit(x, n, e0, v0, 1, v1);
    let v2: nat = 4nat;
    let e2: nat = lemma_power_mod_bit(x, n, e1, v1, 0, v2);
    let v3: nat = 10nat;
    let e3: nat = lemma_power_mod_bit(x, n, e2, v2, 1, v3);
}

/// A power modulo 11, one binary digit of the exponent at a time.
proof fn lemma_power_11_2()
    ensures
        power_mod(2nat, 2nat, 11nat) == 4nat,
{
    let n: nat = 11nat;
    let x: nat = 2nat;
    lemma_power_mod_start(x, n);
    let e0: nat = 0;
    let v0: nat = 1;
    let v1: nat = 2nat;
    let e1: nat = lemma_power_mod_bit(x, n, e0, v0, 1, v1);
    let v2: nat = 4nat;
    let e2: nat = lemma_power_mod_bit(x, n, e1, v1, 0, v2);
}

/// A power modulo 11, one binary digit of the exponent at a time.
proof fn lemma_power_11_3()
    ensures
        power_mod(10nat, 2nat, 11nat) == 1nat,
{
    let n: nat = 11nat;
    let x: nat = 10nat;
    lemma_power_mod_start(x, n);
    let e0: nat = 0;
    let v0: nat = 1;
    let v1: nat = 10nat;
    let e1: nat = lemma_power_mod_bit(x, n, e0, v0, 1, v1);
    let v2: nat = 1nat;
    let e2: nat = lemma_power_mod_bit(x, n, e1, v1, 0, v2);
}

/// 11 is prime.
proof fn lemma_prime_11()
    ensures
        is_prime(11nat),
{
    let n: nat = 11nat;
    let g: nat = 2;
    lemma_power_11_0();
    lemma_power_11_1();
    lemma_power_of_power(g, n, 1nat, 2nat, 5nat, 10nat);
    lemma_power_11_2();
    lemma_power_of_power(g, n, 1nat, 2nat, 2nat, 4nat);
    lemma_power_11_3();
    lemma_power_of_power(g, n, 5nat, 10nat, 2nat, 1nat);
    lemma_prime_2();
    lemma_prime_5();
    lemma_witnessed_empty(n, g);
    let s0: Seq<nat> = Seq::empty();
    lemma_witnessed_push(n, g, s0, 2);
    let s1: Seq<nat> = s0.push(2);
    lemma_witnessed_push(n, g, s1, 5);
    let s2: Seq<nat> = s1.push(5);
    lemma_lucas(n, g, s2);
}

/// A power modulo 13, one binary digit of the exponent at a time.
proof fn lemma_power_13_0()
    ensures
        power_mod(2nat, 2nat, 13nat) == 4nat,
{
    let n: nat = 13nat;
    let x: nat = 2nat;
    lemma_power_mod_start(x, n);
    let e0: nat = 0;
    let v0: nat = 1;
    let v1: nat = 2nat;
    let e1: nat = lemma_power_mod_bit(x, n, e0, v0, 1, v1);
    let v2: nat = 4nat;
    let e2: nat = lemma_power_mod_bit(x, n, e1, v1, 0, v2);
}

/// A power modulo 13, one binary digit of the exponent at a time.
proof fn lemma_power_13_1()
    ensures
        power_mod(4nat, 3nat, 13nat) == 12nat,
{
    let n: nat = 13nat;
    let x: nat = 4nat;
    lemma_power_mod_start(x, n);
    let e0: nat = 0;
    let v0: nat = 1;
    let v1: nat = 4nat;
    let e1: nat = lemma_power_mod_bit(x, n, e0, v0, 1, v1);
    let v2: nat = 12nat;
    let e2: nat = lemma_power_mod_bit(x, n, e1, v1, 1, v2);
}

/// A power modulo 13, one binary digit of the exponent at a time.
proof fn lemma_power_13_2()
    ensures
        power_mod(4nat, 2nat, 13nat) == 3nat,
{
    let n: nat = 13nat;
    let x: nat = 4nat;
    lemma_power_mod_start(x, n);
    let e0: nat = 0;
    let v0: nat = 1;
    let v1: nat = 4nat;
    let e1: nat = lemma_power_mod_bit(x, n, e0, v0, 1, v1);
    let v2: nat = 3nat;
    let e2: nat = lemma_power_mod_bit(x, n, e1, v1, 0, v2);
}

/// A power modulo 13, one binary digit of the exponent at a time.
proof fn lemma_power_13_3()
    ensures
        power_mod(12nat, 2nat, 13nat) == 1nat,
{
    let n: nat = 13nat;
    let x: nat = 12nat;
    lemma_power_mod_start(x, n);
    let e0: nat = 0;
    let v0: nat = 1;
    let v1: nat = 12nat;
    let e1: nat = lemma_power_mod_bit(x, n, e0, v0, 1, v1);
    let v2: nat = 1nat;
    let e2: nat = lemma_power_mod_bit(x, n, e1, v1, 0, v2);
}

/// 13 is prime.
proof fn lemma_prime_13()
    ensures
        is_prime(13nat),
{
    let n: nat = 13nat;
    let g: nat = 2;
    lemma_power_13_0();
    lemma_power_13_1();
    lemma_power_of_power(g, n, 2nat, 4nat, 3nat, 12nat);
    lemma_power_13_2();
    lemma_power_of_power(g, n, 2nat, 4nat, 2nat, 3nat);
    lemma_power_13_3();
    lemma_power_of_power(g, n, 6nat, 12nat, 2nat, 1nat);
    lemma_prime_2();
    lemma_prime_3();
    lemma_witnessed_empty(n, g);
    let s0: Seq<nat> = Seq::empty();
    lemma_witnessed_push(n, g, s0, 2);
    let s1: Seq<nat> = s0.push(2);
    lemma_witnessed_push(n, g, s1, 2);
    let s2: Seq<nat> = s1.push(2);
    lemma_witnessed_push(n, g, s2, 3);
    let s3: Seq<nat> = s2.push(3);
    lemma_lucas(n, g, s3);
}

/// A power modulo 17, one binary digit of the exponent at a time.
proof fn lemma_power_17_0()
    ensures
        power_mod(3nat, 8nat, 17nat) == 16nat,
{
    let n: nat = 17nat;
    let x: nat = 3nat;
    lemma_power_mod_start(x, n);
    let e0: nat = 0;
    let v0: nat = 1;
    let v1: nat = 3nat;
    let e1: nat = lemma_power_mod_bit(x, n, e0, v0, 1, v1);
    let v2: nat = 9nat;
    let e2: nat = lemma_power_mod_bit(x, n, e1, v1, 0, v2);
    let v3: nat = 13nat;
    let e3: nat = lemma_power_mod_bit(x, n, e2, v2, 0, v3);
    let v4: nat = 16nat;
    let e4: nat = lemma_power_mod_bit(x, n, e3, v3, 0, v4);
}

/// A power modulo 17, one binary digit of the exponent at a time.
proof fn lemma_power_17_1()
    ensures
        power_mod(16nat, 2nat, 17nat) == 1nat,
{
    let n: nat = 17nat;
    let x: nat = 16nat;
    lemma_power_mod_start(x, n);
    let e0: nat = 0;
    let v0: nat = 1;
    let v1: nat = 16nat;
    let e1: nat = lemma_power_mod_bit(x, n, e0, v0, 1, v1);
    let v2: nat = 1nat;
    let e2: nat = lemma_power_mod_bit(x, n, e1, v1, 0, v2);
}

/// 17 is prime.
proof fn lemma_prime_17()
    ensures
        is_prime(17nat),
{
    let n: nat = 17nat;
    let g: nat = 3;
    lemma_power_17_0();
    lemma_power_17_1();
    lemma_power_of_power(g, n, 8nat, 16nat, 2nat, 1nat);
    lemma_prime_2();
    lemma_witnessed_empty(n, g);
    let s0: Seq<nat> = Seq::empty();
    lemma_witnessed_push(n, g, s0, 2);
    let s1: Seq<nat> = s0.push(2);
    lemma_witnessed_push(n, g, s1, 2);
    let s2: Seq<nat> = s1.push(2);
    lemma_witnessed_push(n, g, s2, 2);
    let s3: Seq<nat> = s2.push(2);
    lemma_witnessed_push(n, g, s3, 2);
    let s4: Seq<nat> = s3.push(2);
    lemma_lucas(n, g, s4);
}

/// A power modulo 19, one binary digit of the exponent at a time.
proof fn lemma_power_19_0()
    ensures
        power_mod(2nat, 3nat, 19nat) == 8nat,
{
    let n: nat = 19nat;
    let x: nat = 2nat;
    lemma_power_mod_start(x, n);
    let e0: nat = 0;
    let v0: nat = 1;
    let v1: nat = 2nat;
    let e1: nat = lemma_power_mod_bit(x, n, e0, v0, 1, v1);
    let v2: nat = 8nat;
    let e2: nat = lemma_power_mod_bit(x, n, e1, v1, 1, v2);
}

/// A power modulo 19, one binary digit of the exponent at a time.
proof fn lemma_power_19_1()
    ensures
        power_mod(8nat, 3nat, 19nat) == 18nat,
{
    let n: nat = 19nat;
    let x: nat = 8nat;
    lemma_power_mod_start(x, n);
    let e0: nat = 0;
    let v0: nat = 1;
    let v1: nat = 8nat;
    let e1: nat = lemma_power_mod_bit(x, n, e0, v0, 1, v1);
    let v2: nat = 18nat;
    let e2: nat = lemma_power_mod_bit(x, n, e1, v1, 1, v2);
}

/// A power modulo 19, one binary digit of the exponent at a time.
proof fn lemma_power_19_2()
    ensures
        power_mod(8nat, 2nat, 19nat) == 7nat,
{
    let n: nat = 19nat;
    let x: nat = 8nat;
    lemma_power_mod_start(x, n);
    let e0: nat = 0;
    let v0: nat = 1;
    let v1: nat = 8nat;
    let e1: nat = lemma_power_mod_bit(x, n, e0, v0, 1, v1);
    let v2: nat = 7nat;
    let e2: nat = lemma_power_mod_bit(x, n, e1, v1, 0, v2);
}

/// A power modulo 19, one binary digit of the exponent at a time.
proof fn lemma_power_19_3()
    ensures
        power_mod(18nat, 2nat, 19nat) == 1nat,
{
    let n: nat = 19nat;
    let x: nat = 18nat;
    lemma_power_mod_start(x, n);
    let e0: nat = 0;
    let v0: nat = 1;
    let v1: nat = 18nat;
    let e1: nat = lemma_power_mod_bit(x, n, e0, v0, 1, v1);
    let v2: nat = 1nat;
    let e2: nat = lemma_power_mod_bit(x, n, e1, v1, 0, v2);
}

/// 19 is prime.
proof fn lemma_prime_19()
    ensures
        is_prime(19nat),
{
    let n: nat = 19nat;
    let g: nat = 2;
    lemma_power_19_0();
    lemma_power_19_1();
    lemma_power_of_power(g, n, 3nat, 8nat, 3nat, 18nat);
    lemma_power_19_2();
    lemma_power_of_power(g, n, 3nat, 8nat, 2nat, 7nat);
    lemma_power_19_3();
    lemma_power_of_power(g, n, 9nat, 18nat, 2nat, 1nat);
    lemma_prime_2();
    lemma_prime_3();
    lemma_witnessed_empty(n, g);
    let s0: Seq<nat> = Seq::empty();
    lemma_witnessed_push(n, g, s0, 2);
    let s1: Seq<nat> = s0.push(2);
    lemma_witnessed_push(n, g, s1, 3);
    let s2: Seq<nat> = s1.push(3);
    lemma_witnessed_push(n, g, s2, 3);
    let s3: Seq<nat> = s2.push(3);
    lemma_lucas(n, g, s3);
}

/// A power modulo 23, one binary digit of the exponent at a time.
proof fn lemma_power_23_0()
    ensures
        power_mod(5nat, 1nat, 23nat) == 5nat,
{
    let n: nat = 23nat;
    let x: nat = 5nat;
    lemma_power_mod_start(x, n);
    let e0: nat = 0;
    let v0: nat = 1;
    let v1: nat = 5nat;
    let e1: nat = lemma_power_mod_bit(x, n, e0, v0, 1, v1);
}

/// A power modulo 23, one binary digit of the exponent at a time.
proof fn lemma_power_23_1()
    ensures
        power_mod(5nat, 11nat, 23nat) == 22nat,
{
    let n: nat = 23nat;
    let x: nat = 5nat;
    lemma_power_mod_start(x, n);
    let e0: nat = 0;
    let v0: nat = 1;
    let v1: nat = 5nat;
    let e1: nat = lemma_power_mod_bit(x, n, e0, v0, 1, v1);
    let v2: nat = 2nat;
    let e2: nat = lemma_power_mod_bit(x, n, e1, v1, 0, v2);
    let v3: nat = 20nat;
    let e3: nat = lemma_power_mod_bit(x, n, e2, v2, 1, v3);
    let v4: nat = 22nat;
    let e4: nat = lemma_power_mod_bit(x, n, e3, v3, 1, v4);
}

/// A power modulo 23, one binary digit of the exponent at a time.
proof fn lemma_power_23_2()
    ensures
        power_mod(5nat, 2nat, 23nat) == 2nat,
{
    let n: nat = 23nat;
    let x: nat = 5nat;
    lemma_power_mod_start(x, n);
    let e0: nat = 0;
    let v0: nat = 1;
    let v1: nat = 5nat;
    let e1: nat = lemma_power_mod_bit(x, n, e0, v0, 1, v1);
    let v2: nat = 2nat;
    let e2: nat = lemma_power_mod_bit(x, n, e1, v1, 0, v2);
}

/// A power modulo 23, one binary digit of the exponent at a time.
proof fn lemma_power_23_3()
    ensures
        power_mod(22nat, 2nat, 23nat) == 1nat,
{
    let n: nat = 23nat;
    let x: nat = 22nat;
    lemma_power_mod_start(x, n);
    let e0: nat = 0;
    let v0: nat = 1;
    let v1: nat = 22nat;
    let e1: nat = lemma_power_mod_bit(x, n, e0, v0, 1, v1);
    let v2: nat = 1nat;
    let e2: nat = lemma_power_mod_bit(x, n, e1, v1, 0, v2);
}

/// 23 is prime.
proof fn lemma_prime_23()
    ensures
        is_prime(23nat),
{
    let n: nat = 23nat;
    let g: nat = 5;
    lemma_power_23_0();
    lemma_power_23_1();
    lemma_power_of_power(g, n, 1nat, 5nat, 11nat, 22nat);
    lemma_power_23_2();
    lemma_power_of_power(g, n, 1nat, 5nat, 2nat, 2nat);
    lemma_power_23_3();
    lemma_power_of_power(g, n, 11nat, 22nat, 2nat, 1nat);
    lemma_prime_2();
    lemma_prime_11();
    lemma_witnessed_empty(n, g);
    let s0: Seq<nat> = Seq::empty();
    lemma_witnessed_push(n, g, s0, 2);
    let s1: Seq<nat> = s0.push(2);
    lemma_witnessed_push(n, g, s1, 11);
    let s2: Seq<nat> = s1.push(11);
    lemma_lucas(n, g, s2);
}

/// A power modulo 29, one binary digit of the exponent at a time.
proof fn lemma_power_29_0()
    ensures
        power_mod(2nat, 2nat, 29nat) == 4nat,
{
    let n: nat = 29nat;
    let x: nat = 2nat;
    lemma_power_mod_start(x, n);
    let e0: nat = 0;
    let v0: nat = 1;
    let v1: nat = 2nat;
    let e1: nat = lemma_power_mod_bit(x, n, e0, v0, 1, v1);
    let v2: nat = 4nat;
    let e2: nat = lemma_power_mod_bit(x, n, e1, v1, 0, v2);
}

/// A power modulo 29, one binary digit of the exponent at a time.
proof fn lemma_power_29_1()
    ensures
        power_mod(4nat, 7nat, 29nat) == 28nat,
{
    let n: nat = 29nat;
    let x: nat = 4nat;
    lemma_power_mod_start(x, n);
    let e0: nat = 0;
    let v0: nat = 1;
    let v1: nat = 4nat;
    let e1: nat = lemma_power_mod_bit(x, n, e0, v0, 1, v1);
    let v2: nat = 6nat;
    let e2: nat = lemma_power_mod_bit(x, n, e1, v1, 1, v2);
    let v3: nat = 28nat;
    let e3: nat = lemma_power_mod_bit(x, n, e2, v2, 1, v3);
}

/// A power modulo 29, one binary digit of the exponent at a time.
proof fn lemma_power_29_2()
    ensures
        power_mod(4nat, 2nat, 29nat) == 16nat,
{
    let n: nat = 29nat;
    let x: nat = 4nat;
    lemma_power_mod_start(x, n);
    let e0: nat = 0;
    let v0: nat = 1;
    let v1: nat = 4nat;
    let e1: nat = lemma_power_mod_bit(x, n, e0, v0, 1, v1);
    let v2: nat = 16nat;
    let e2: nat = lemma_power_mod_bit(x, n, e1, v1, 0, v2);
}

/// A power modulo 29, one binary digit of the exponent at a time.
proof fn lemma_power_29_3()
    ensures
        power_mod(28nat, 2nat, 29nat) == 1nat,
{
    let n: nat = 29nat;
    let x: nat = 28nat;
    lemma_power_mod_start(x, n);
    let e0: nat = 0;
    let v0: nat = 1;
    let v1: nat = 28nat;
    let e1: nat = lemma_power_mod_bit(x, n, e0, v0, 1, v1);
    let v2: nat = 1nat;
    let e2: nat = lemma_power_mod_bit(x, n, e1, v1, 0, v2);
}

/// 29 is prime.
proof fn lemma_prime_29()
    ensures
        is_prime(29nat),
{
    let n: nat = 29nat;
    let g: nat = 2;
    lemma_power_29_0();
    lemma_power_29_1();
    lemma_power_of_power(g, n, 2nat, 4nat, 7nat, 28nat);
    lemma_power_29_2();
    lemma_power_of_power(g, n, 2nat, 4nat, 2nat, 16nat);
    lemma_power_29_3();
    lemma_power_of_power(g, n, 14nat, 28nat, 2nat, 1nat);
    lemma_prime_2();
    lemma_prime_7();
    lemma_witnessed_empty(n, g);
    let s0: Seq<nat> = Seq::empty();
    lemma_witnessed_push(n, g, s0, 2);
    let s1: Seq<nat> = s0.push(2);
    lemma_witnessed_push(n, g, s1, 2);
    let s2: Seq<nat> = s1.push(2);
    lemma_witnessed_push(n, g, s2, 7);
    let s3: Seq<nat> = s2.push(7);
    lemma_lucas(n, g, s3);
}

/// A power modulo 31, one binary digit of the exponent at a time.
proof fn lemma_power_31_0()
    ensures
        power_mod(3nat, 1nat, 31nat) == 3nat,
{
    let n: nat = 31nat;
    let x: nat = 3nat;
    lemma_power_mod_start(x, n);
    let e0: nat = 0;
    let v0: nat = 1;
    let v1: nat = 3nat;
    let e1: nat = lemma_power_mod_bit(x, n, e0, v0, 1, v1);
}

/// A power modulo 31, one binary digit of the exponent at a time.
proof fn lemma_power_31_1()
    ensures
        power_mod(3nat, 6nat, 31nat) == 16nat,
{
    let n: nat = 31nat;
    let x: nat = 3nat;
    lemma_power_mod_start(x, n);
    let e0: nat = 0;
    let v0: nat = 1;
    let v1: nat = 3nat;
    let e1: nat = lemma_power_mod_bit(x, n, e0, v0, 1, v1);
    let v2: nat = 27nat;
    let e2: nat = lemma_power_mod_bit(x, n, e1, v1, 1, v2);
    let v3: nat = 16nat;
    let e3: nat = lemma_power_mod_bit(x, n, e2, v2, 0, v3);
}

/// A power modulo 31, one binary digit of the exponent at a time.
proof fn lemma_power_31_2()
    ensures
        power_mod(3nat, 5nat, 31nat) == 26nat,
{
    let n: nat = 31nat;
    let x: nat = 3nat;
    lemma_power_mod_start(x, n);
    let e0: nat = 0;
    let v0: nat = 1;
    let v1: nat = 3nat;
    let e1: nat = lemma_power_mod_bit(x, n, e0, v0, 1, v1);
    let v2: nat = 9nat;
    let e2: nat = lemma_power_mod_bit(x, n, e1, v1, 0, v2);
    let v3: nat = 26nat;
    let e3: nat = lemma_power_mod_bit(x, n, e2, v2, 1, v3);
}

/// A power modulo 31, one binary digit of the exponent at a time.
proof fn lemma_power_31_3()
    ensures
        power_mod(26nat, 3nat, 31nat) == 30nat,
{
    let n: nat = 31nat;
    let x: nat = 26nat;
    lemma_power_mod_start(x, n);
    let e0: nat = 0;
    let v0: nat = 1;
    let v1: nat = 26nat;
    let e1: nat = lemma_power_mod_bit(x, n, e0, v0, 1, v1);
    let v2: nat = 30nat;
    let e2: nat = lemma_power_mod_bit(x, n, e1, v1, 1, v2);
}

/// A power modulo 31, one binary digit of the exponent at a time.
proof fn lemma_power_31_4()
    ensures
        power_mod(26nat, 2nat, 31nat) == 25nat,
{
    let n: nat = 31nat;
    let x: nat = 26nat;
    lemma_power_mod_start(x, n);
    let e0: nat = 0;
    let v0: nat = 1;
    let v1: nat = 26nat;
    let e1: nat = lemma_power_mod_bit(x, n, e0, v0, 1, v1);
    let v2: nat = 25nat;
    let e2: nat = lemma_power_mod_bit(x, n, e1, v1, 0, v2);
}

/// A power modulo 31, one binary digit of the exponent at a time.
proof fn lemma_power_31_5()
    ensures
        power_mod(30nat, 2nat, 31nat) == 1nat,
{
    let n: nat = 31nat;
    let x: nat = 30nat;
    lemma_power_mod_start(x, n);
    let e0: nat = 0;
    let v0: nat = 1;
    let v1: nat = 30nat;
    let e1: nat = lemma_power_mod_bit(x, n, e0, v0, 1, v1);
    let v2: nat = 1nat;
    let e2: nat = lemma_power_mod_bit(x, n, e1, v1, 0, v2);
}

/// 31 is prime.
proof fn lemma_prime_31()
    ensures
        is_prime(31nat),
{
    let n: nat = 31nat;
    let g: nat = 3;
    lemma_power_31_0();
    lemma_power_31_1();
    lemma_power_of_power(g, n, 1nat, 3nat, 6nat, 16nat);
    lemma_power_31_2();
    lemma_power_of_power(g, n, 1nat, 3nat, 5nat, 26nat);
    lemma_power_31_3();
    lemma_power_of_power(g, n, 5nat, 26nat, 3nat, 30nat);
    lemma_power_31_4();
    lemma_power_of_power(g, n, 5nat, 26nat, 2nat, 25nat);
    lemma_power_31_5();
    lemma_power_of_power(g, n, 15nat, 30nat, 2nat, 1nat);
    lemma_prime_2();
    lemma_prime_3();
    lemma_prime_5();
    lemma_witnessed_empty(n, g);
    let s0: Seq<nat> = Seq::empty();
    lemma_witnessed_push(n, g, s0, 2);
    let s1: Seq<nat> = s0.push(2);
    lemma_witnessed_push(n, g, s1, 3);
    let s2: Seq<nat> = s1.push(3);
    lemma_witnessed_push(n, g, s2, 5);
    let s3: Seq<nat> = s2.push(5);
    lemma_lucas(n, g, s3);
}

/// A power modulo 37, one binary digit of the exponent at a time.
proof fn lemma_power_37_0()
    ensures
        power_mod(2nat, 6nat, 37nat) == 27nat,
{
    let n: nat = 37nat;
    let x: nat = 2nat;
    lemma_power_mod_start(x, n);
    let e0: nat = 0;
    let v0: nat = 1;
    let v1: nat = 2nat;
    let e1: nat = lemma_power_mod_bit(x, n, e0, v0, 1, v1);
    let v2: nat = 8nat;
    let e2: nat = lemma_power_mod_bit(x, n, e1, v1, 1, v2);
    let v3: nat = 27nat;
    let e3: nat = lemma_power_mod_bit(x, n, e2, v2, 0, v3);
}

/// A power modulo 37, one binary digit of the exponent at a time.
proof fn lemma_power_37_1()
    ensures
        power_mod(27nat, 3nat, 37nat) == 36nat,
{
    let n: nat = 37nat;
    let x: nat = 27nat;
    lemma_power_mod_start(x, n);
    let e0: nat = 0;
    let v0: nat = 1;
    let v1: nat = 27nat;
    let e1: nat = lemma_power_mod_bit(x, n, e0, v0, 1, v1);
    let v2: nat = 36nat;
    let e2: nat = lemma_power_mod_bit(x, n, e1, v1, 1, v2);
}

/// A power modulo 37, one binary digit of the exponent at a time.
proof fn lemma_power_37_2()
    ensures
        power_mod(27nat, 2nat, 37nat) == 26nat,
{
    let n: nat = 37nat;
    let x: nat = 27nat;
    lemma_power_mod_start(x, n);
    let e0: nat = 0;
    let v0: nat = 1;
    let v1: nat = 27nat;
    let e1: nat = lemma_power_mod_bit(x, n, e0, v0, 1, v1);
    let v2: nat = 26nat;
    let e2: nat = lemma_power_mod_bit(x, n, e1, v1, 0, v2);
}

/// A power modulo 37, one binary digit of the exponent at a time.
proof fn lemma_power_37_3()
    ensures
        power_mod(36nat, 2nat, 37nat) == 1nat,
{
    let n: nat = 37nat;
    let x: nat = 36nat;
    lemma_power_mod_start(x, n);
    let e0: nat = 0;
    let v0: nat = 1;
    let v1: nat = 36nat;
    let e1: nat = lemma_power_mod_bit(x, n, e0, v0, 1, v1);
    let v2: nat = 1nat;
    let e2: nat = lemma_power_mod_bit(x, n, e1, v1, 0, v2);
}

/// 37 is prime.
proof fn lemma_prime_37()
    ensures
        is_prime(37nat),
{
    let n: nat = 37nat;
    let g: nat = 2;
    lemma_power_37_0();
    lemma_power_37_1();
    lemma_power_of_power(g, n, 6nat, 27nat, 3nat, 36nat);
    lemma_power_37_2();
    lemma_power_of_power(g, n, 6nat, 27nat, 2nat, 26nat);
    lemma_power_37_3();
    lemma_power_of_power(g, n, 18nat, 36nat, 2nat, 1nat);
    lemma_prime_2();
    lemma_prime_3();
    lemma_witnessed_empty(n, g);
    let s0: Seq<nat> = Seq::empty();
    lemma_witnessed_push(n, g, s0, 2);
    let s1: Seq<nat> = s0.push(2);
    lemma_witnessed_push(n, g, s1, 2);
    let s2: Seq<nat> = s1.push(2);
    lemma_witnessed_push(n, g, s2, 3);
    let s3: Seq<nat> = s2.push(3);
    lemma_witnessed_push(n, g, s3, 3);
    let s4: Seq<nat> = s3.push(3);
    lemma_lucas(n, g, s4);
}

/// A power modulo 41, one binary digit of the exponent at a time.
proof fn lemma_power_41_0()
    ensures
        power_mod(6nat, 4nat, 41nat) == 25nat,
{
    let n: nat = 41nat;
    let x: nat = 6nat;
    lemma_power_mod_start(x, n);
    let e0: nat = 0;
    let v0: nat = 1;
    let v1: nat = 6nat;
    let e1: nat = lemma_power_mod_bit(x, n, e0, v0, 1, v1);
    let v2: nat = 36nat;
    let e2: nat = lemma_power_mod_bit(x, n, e1, v1, 0, v2);
    let v3: nat = 25nat;
    let e3: nat = lemma_power_mod_bit(x, n, e2, v2, 0, v3);
}

/// A power modulo 41, one binary digit of the exponent at a time.
proof fn lemma_power_41_1()
    ensures
        power_mod(25nat, 5nat, 41nat) == 40nat,
{
    let n: nat = 41nat;
    let x: nat = 25nat;
    lemma_power_mod_start(x, n);
    let e0: nat = 0;
    let v0: nat = 1;
    let v1: nat = 25nat;
    let e1: nat = lemma_power_mod_bit(x, n, e0, v0, 1, v1);
    let v2: nat = 10nat;
    let e2: nat = lemma_power_mod_bit(x, n, e1, v1, 0, v2);
    let v3: nat = 40nat;
    let e3: nat = lemma_power_mod_bit(x, n, e2, v2, 1, v3);
}

/// A power modulo 41, one binary digit of the exponent at a time.
proof fn lemma_power_41_2()
    ensures
        power_mod(25nat, 2nat, 41nat) == 10nat,
{
    let n: nat = 41nat;
    let x: nat = 25nat;
    lemma_power_mod_start(x, n);
    let e0: nat = 0;
    let v0: nat = 1;
    let v1: nat = 25nat;
    let e1: nat = lemma_power_mod_bit(x, n, e0, v0, 1, v1);
    let v2: nat = 10nat;
    let e2: nat = lemma_power_mod_bit(x, n, e1, v1, 0, v2);
}

/// A power modulo 41, one binary digit of the exponent at a time.
proof fn lemma_power_41_3()
    ensures
        power_mod(40nat, 2nat, 41nat) == 1nat,
{
    let n: nat = 41nat;
    let x: nat = 40nat;
    lemma_power_mod_start(x, n);
    let e0: nat = 0;
    let v0: nat = 1;
    let v1: nat = 40nat;
    let e1: nat = lemma_power_mod_bit(x, n, e0, v0, 1, v1);
    let v2: nat = 1nat;
    let e2: nat = lemma_power_mod_bit(x, n, e1, v1, 0, v2);
}

/// 41 is prime.
proof fn lemma_prime_41()
    ensures
        is_prime(41nat),
{
    let n: nat = 41nat;
    let g: nat = 6;
    lemma_power_41_0();
    lemma_power_41_1();
    lemma_power_of_power(g, n, 4nat, 25nat, 5nat, 40nat);
    lemma_power_41_2();
    lemma_power_of_power(g, n, 4nat, 25nat, 2nat, 10nat);
    lemma_power_41_3();
    lemma_power_of_power(g, n, 20nat, 40nat, 2nat, 1nat);
    lemma_prime_2();
    lemma_prime_5();
    lemma_witnessed_empty(n, g);
    let s0: Seq<nat> = Seq::empty();
    lemma_witnessed_push(n, g, s0, 2);
    let s1: Seq<nat> = s0.push(2);
    lemma_witnessed_push(n, g, s1, 2);
    let s2: Seq<nat> = s1.push(2);
    lemma_witnessed_push(n, g, s2, 2);
    let s3: Seq<nat> = s2.push(2);
    lemma_witnessed_push(n, g, s3, 5);
    let s4: Seq<nat> = s3.push(5);
    lemma_lucas(n, g, s4);
}

/// A power modulo 47, one binary digit of the exponent at a time.
proof fn lemma_power_47_0()
    ensures
        power_mod(5nat, 1nat, 47nat) == 5nat,
{
    let n: nat = 47nat;
    let x: nat = 5nat;
    lemma_power_mod_start(x, n);
    let e0: nat = 0;
    let v0: nat = 1;
    let v1: nat = 5nat;
    let e1: nat = lemma_power_mod_bit(x, n, e0, v0, 1, v1);
}

/// A power modulo 47, one binary digit of the exponent at a time.
proof fn lemma_power_47_1()
    ensures
        power_mod(5nat, 23nat, 47nat) == 46nat,
{
    let n: nat = 47nat;
    let x: nat = 5nat;
    lemma_power_mod_start(x, n);
    let e0: nat = 0;
    let v0: nat = 1;
    let v1: nat = 5nat;
    let e1: nat = lemma_power_mod_bit(x, n, e0, v0, 1, v1);
    let v2: nat = 25nat;
    let e2: nat = lemma_power_mod_bit(x, n, e1, v1, 0, v2);
    let v3: nat = 23nat;
    let e3: nat = lemma_power_mod_bit(x, n, e2, v2, 1, v3);
    let v4: nat = 13nat;
    let e4: nat = lemma_power_mod_bit(x, n, e3, v3, 1, v4);
    let v5: nat = 46nat;
    let e5: nat = lemma_power_mod_bit(x, n, e4, v4, 1, v5);
}

/// A power modulo 47, one binary digit of the exponent at a time.
proof fn lemma_power_47_2()
    ensures
        power_mod(5nat, 2nat, 47nat) == 25nat,
{
    let n: nat = 47nat;
    let x: nat = 5nat;
    lemma_power_mod_start(x, n);
    let e0: nat = 0;
    let v0: nat = 1;
    let v1: nat = 5nat;
    let e1: nat = lemma_power_mod_bit(x, n, e0, v0, 1, v1);
    let v2: nat = 25nat;
    let e2: nat = lemma_power_mod_bit(x, n, e1, v1, 0, v2);
}

/// A power modulo 47, one binary digit of the exponent at a time.
proof fn lemma_power_47_3()
    ensures
        power_mod(46nat, 2nat, 47nat) == 1nat,
{
    let n: nat = 47nat;
    let x: nat = 46nat;
    lemma_power_mod_start(x, n);
    let e0: nat = 0;
    let v0: nat = 1;
    let v1: nat = 46nat;
    let e1: nat = lemma_power_mod_bit(x, n, e0, v0, 1, v1);
    let v2: nat = 1nat;
    let e2: nat = lemma_power_mod_bit(x, n, e1, v1, 0, v2);
}

/// 47 is prime.
proof fn lemma_prime_47()
    ensures
        is_prime(47nat),
{
    let n: nat = 47nat;
    let g: nat = 5;
    lemma_power_47_0();
    lemma_power_47_1();
    lemma_power_of_power(g, n, 1nat, 5nat, 23nat, 46nat);
    lemma_power_47_2();
    lemma_power_of_power(g, n, 1nat, 5nat, 2nat, 25nat);
    lemma_power_47_3();
    lemma_power_of_power(g, n, 23nat, 46nat, 2nat, 1nat);
    lemma_prime_2();
    lemma_prime_23();
    lemma_witnessed_empty(n, g);
    let s0: Seq<nat> = Seq::empty();
    lemma_witnessed_push(n, g, s0, 2);
    let s1: Seq<nat> = s0.push(2);
    lemma_witnessed_push(n, g, s1, 23);
    let s2: Seq<nat> = s1.push(23);
    lemma_lucas(n, g, s2);
}

/// A power modulo 53, one binary digit of the exponent at a time.
proof fn lemma_power_53_0()
    ensures
        power_mod(2nat, 2nat, 53nat) == 4nat,
{
    let n: nat = 53nat;
    let x: nat = 2nat;
    lemma_power_mod_start(x, n);
    let e0: nat = 0;
    let v0: nat = 1;
    let v1: nat = 2nat;
    let e1: nat = lemma_power_mod_bit(x, n, e0, v0, 1, v1);
    let v2: nat = 4nat;
    let e2: nat = lemma_power_mod_bit(x, n, e1, v1, 0, v2);
}

/// A power modulo 53, one binary digit of the exponent at a time.
proof fn lemma_power_53_1()
    ensures
        power_mod(4nat, 13nat, 53nat) == 52nat,
{
    let n: nat = 53nat;
    let x: nat = 4nat;
    lemma_power_mod_start(x, n);
    let e0: nat = 0;
    let v0: nat = 1;
    let v1: nat = 4nat;
    let e1: nat = lemma_power_mod_bit(x, n, e0, v0, 1, v1);
    let v2: nat = 11nat;
    let e2: nat = lemma_power_mod_bit(x, n, e1, v1, 1, v2);
    let v3: nat = 15nat;
    let e3: nat = lemma_power_mod_bit(x, n, e2, v2, 0, v3);
    let v4: nat = 52nat;
    let e4: nat = lemma_power_mod_bit(x, n, e3, v3, 1, v4);
}

/// A power modulo 53, one binary digit of the exponent at a time.
proof fn lemma_power_53_2()
    ensures
        power_mod(4nat, 2nat, 53nat) == 16nat,
{
    let n: nat = 53nat;
    let x: nat = 4nat;
    lemma_power_mod_start(x, n);
    let e0: nat = 0;
    let v0: nat = 1;
    let v1: nat = 4nat;
    let e1: nat = lemma_power_mod_bit(x, n, e0, v0, 1, v1);
    let v2: nat = 16nat;
    let e2: nat = lemma_power_mod_bit(x, n, e1, v1, 0, v2);
}

/// A power modulo 53, one binary digit of the exponent at a time.
proof fn lemma_power_53_3()
    ensures
        power_mod(52nat, 2nat, 53nat) == 1nat,
{
    let n: nat = 53nat;
    let x: nat = 52nat;
    lemma_power_mod_start(x, n);
    let e0: nat = 0;
    let v0: nat = 1;
    let v1: nat = 52nat;
    let e1: nat = lemma_power_mod_bit(x, n, e0, v0, 1, v1);
    let v2: nat = 1nat;
    let e2: nat = lemma_power_mod_bit(x, n, e1, v1, 0, v2);
}

/// 53 is prime.
proof fn lemma_prime_53()
    ensures
        is_prime(53nat),
{
    let n: nat = 53nat;
    let g: nat = 2;
    lemma_power_53_0();
    lemma_power_53_1();
    lemma_power_of_power(g, n, 2nat, 4nat, 13nat, 52nat);
    lemma_power_53_2();
    lemma_power_of_power(g, n, 2nat, 4nat, 2nat, 16nat);
    lemma_power_53_3();
    lemma_power_of_power(g, n, 26nat, 52nat, 2nat, 1nat);
    lemma_prime_2();
    lemma_prime_13();
    lemma_witnessed_empty(n, g);
    let s0: Seq<nat> = Seq::empty();
    lemma_witnessed_push(n, g, s0, 2);
    let s1: Seq<nat> = s0.push(2);
    lemma_witnessed_push(n, g, s1, 2);
    let s2: Seq<nat> = s1.push(2);
    lemma_witnessed_push(n, g, s2, 13);
    let s3: Seq<nat> = s2.push(13);
    lemma_lucas(n, g, s3);
}

/// A power modulo 71, one binary digit of the exponent at a time.
proof fn lemma_power_71_0()
    ensures
        power_mod(7nat, 1nat, 71nat) == 7nat,
{
    let n: nat = 71nat;
    let x: nat = 7nat;
    lemma_power_mod_start(x, n);
    let e0: nat = 0;
    let v0: nat = 1;
    let v1: nat = 7nat;
    let e1: nat = lemma_power_mod_bit(x, n, e0, v0, 1, v1);
}

/// A power modulo 71, one binary digit of the exponent at a time.
proof fn lemma_power_71_1()
    ensures
        power_mod(7nat, 10nat, 71nat) == 45nat,
{
    let n: nat = 71nat;
    let x: nat = 7nat;
    lemma_power_mod_start(x, n);
    let e0: nat = 0;
    let v0: nat = 1;
    let v1: nat = 7nat;
    let e1: nat = lemma_power_mod_bit(x, n, e0, v0, 1, v1);
    let v2: nat = 49nat;
    let e2: nat = lemma_power_mod_bit(x, n, e1, v1, 0, v2);
    let v3: nat = 51nat;
    let e3: nat = lemma_power_mod_bit(x, n, e2, v2, 1, v3);
    let v4: nat = 45nat;
    let e4: nat = lemma_power_mod_bit(x, n, e3, v3, 0, v4);
}

/// A power modulo 71, one binary digit of the exponent at a time.
proof fn lemma_power_71_2()
    ensures
        power_mod(7nat, 7nat, 71nat) == 14nat,
{
    let n: nat = 71nat;
    let x: nat = 7nat;
    lemma_power_mod_start(x, n);
    let e0: nat = 0;
    let v0: nat = 1;
    let v1: nat = 7nat;
    let e1: nat = lemma_power_mod_bit(x, n, e0, v0, 1, v1);
    let v2: nat = 59nat;
    let e2: nat = lemma_power_mod_bit(x, n, e1, v1, 1, v2);
    let v3: nat = 14nat;
    let e3: nat = lemma_power_mod_bit(x, n, e2, v2, 1, v3);
}

/// A power modulo 71, one binary digit of the exponent at a time.
proof fn lemma_power_71_3()
    ensures
        power_mod(14nat, 5nat, 71nat) == 70nat,
{
    let n: nat = 71nat;
    let x: nat = 14nat;
    lemma_power_mod_start(x, n);
    let e0: nat = 0;
    let v0: nat = 1;
    let v1: nat = 14nat;
    let e1: nat = lemma_power_mod_bit(x, n, e0, v0, 1, v1);
    let v2: nat = 54nat;
    let e2: nat = lemma_power_mod_bit(x, n, e1, v1, 0, v2);
    let v3: nat = 70nat;
    let e3: nat = lemma_power_mod_bit(x, n, e2, v2, 1, v3);
}

/// A power modulo 71, one binary digit of the exponent at a time.
proof fn lemma_power_71_4()
    ensures
        power_mod(14nat, 2nat, 71nat) == 54nat,
{
    let n: nat = 71nat;
    let x: nat = 14nat;
    lemma_power_mod_start(x, n);
    let e0: nat = 0;
    let v0: nat = 1;
    let v1: nat = 14nat;
    let e1: nat = lemma_power_mod_bit(x, n, e0, v0, 1, v1);
    let v2: nat = 54nat;
    let e2: nat = lemma_power_mod_bit(x, n, e1, v1, 0, v2);
}

/// A power modulo 71, one binary digit of the exponent at a time.
proof fn lemma_power_71_5()
    ensures
        power_mod(70nat, 2nat, 71nat) == 1nat,
{
    let n: nat = 71nat;
    let x: nat = 70nat;
    lemma_power_mod_start(x, n);
    let e0: nat = 0;
    let v0: nat = 1;
    let v1: nat = 70nat;
    let e1: nat = lemma_power_mod_bit(x, n, e0, v0, 1, v1);
    let v2: nat = 1nat;
    let e2: nat = lemma_power_mod_bit(x, n, e1, v1, 0, v2);
}

/// 71 is prime.
proof fn lemma_prime_71()
    ensures
        is_prime(71nat),
{
    let n: nat = 71nat;
    let g: nat = 7;
    lemma_power_71_0();
    lemma_power_71_1();
    lemma_power_of_power(g, n, 1nat, 7nat, 10nat, 45nat);
    lemma_power_71_2();
    lemma_power_of_power(g, n, 1nat, 7nat, 7nat, 14nat);
    lemma_power_71_3();
    lemma_power_of_power(g, n, 7nat, 14nat, 5nat, 70nat);
    lemma_power_71_4();
    lemma_power_of_power(g, n, 7nat, 14nat, 2nat, 54nat);
    lemma_power_71_5();
    lemma_power_of_power(g, n, 35nat, 70nat, 2nat, 1nat);
    lemma_prime_2();
    lemma_prime_5();
    lemma_prime_7();
    lemma_witnessed_empty(n, g);
    let s0: Seq<nat> = Seq::empty();
    lemma_witnessed_push(n, g, s0, 2);
    let s1: Seq<nat> = s0.push(2);
    lemma_witnessed_push(n, g, s1, 5);
    let s2: Seq<nat> = s1.push(5);
    lemma_witnessed_push(n, g, s2, 7);
    let s3: Seq<nat> = s2.push(7);
    lemma_lucas(n, g, s3);
}

/// A power modulo 83, one binary digit of the exponent at a time.
proof fn lemma_power_83_0()
    ensures
        power_mod(2nat, 1nat, 83nat) == 2nat,
{
    let n: nat = 83nat;
    let x: nat = 2nat;
    lemma_power_mod_start(x, n);
    let e0: nat = 0;
    let v0: nat = 1;
    let v1: nat = 2nat;
    let e1: nat = lemma_power_mod_bit(x, n, e0, v0, 1, v1);
}

/// A power modulo 83, one binary digit of the exponent at a time.
proof fn lemma_power_83_1()
    ensures
        power_mod(2nat, 41nat, 83nat) == 82nat,
{
    let n: nat = 83nat;
    let x: nat = 2nat;
    lemma_power_mod_start(x, n);
    let e0: nat = 0;
    let v0: nat = 1;
    let v1: nat = 2nat;
    let e1: nat = lemma_power_mod_bit(x, n, e0, v0, 1, v1);
    let v2: nat = 4nat;
    let e2: nat = lemma_power_mod_bit(x, n, e1, v1, 0, v2);
    let v3: nat = 32nat;
    let e3: nat = lemma_power_mod_bit(x, n, e2, v2, 1, v3);
    let v4: nat = 28nat;
    let e4: nat = lemma_power_mod_bit(x, n, e3, v3, 0, v4);
    let v5: nat = 37nat;
    let e5: nat = lemma_power_mod_bit(x, n, e4, v4, 0, v5);
    let v6: nat = 82nat;
    let e6: nat = lemma_power_mod_bit(x, n, e5, v5, 1, v6);
}

/// A power modulo 83, one binary digit of the exponent at a time.
proof fn lemma_power_83_2()
    ensures
        power_mod(2nat, 2nat, 83nat) == 4nat,
{
    let n: nat = 83nat;
    let x: nat = 2nat;
    lemma_power_mod_start(x, n);
    let e0: nat = 0;
    let v0: nat = 1;
    let v1: nat = 2nat;
    let e1: nat = lemma_power_mod_bit(x, n, e0, v0, 1, v1);
    let v2: nat = 4nat;
    let e2: nat = lemma_power_mod_bit(x, n, e1, v1, 0, v2);
}

/// A power modulo 83, one binary digit of the exponent at a time.
proof fn lemma_power_83_3()
    ensures
        power_mod(82nat, 2nat, 83nat) == 1nat,
{
    let n: nat = 83nat;
    let x: nat = 82nat;
    lemma_power_mod_start(x, n);
    let e0: nat = 0;
    let v0: nat = 1;
    let v1: nat = 82nat;
    let e1: nat = lemma_power_mod_bit(x, n, e0, v0, 1, v1);
    let v2: nat = 1nat;
    let e2: nat = lemma_power_mod_bit(x, n, e1, v1, 0, v2);
}

/// 83 is prime.
proof fn lemma_prime_83()
    ensures
        is_prime(83nat),
{
    let n: nat = 83nat;
    let g: nat = 2;
    lemma_power_83_0();
    lemma_power_83_1();
    lemma_power_of_power(g, n, 1nat, 2nat, 41nat, 82nat);
    lemma_power_83_2();
    lemma_power_of_power(g, n, 1nat, 2nat, 2nat, 4nat);
    lemma_power_83_3();
    lemma_power_of_power(g, n, 41nat, 82nat, 2nat, 1nat);
    lemma_prime_2();
    lemma_prime_41();
    lemma_witnessed_empty(n, g);
    let s0: Seq<nat> = Seq::empty();
    lemma_witnessed_push(n, g, s0, 2);
    let s1: Seq<nat> = s0.push(2);
    lemma_witnessed_push(n, g, s1, 41);
    let s2: Seq<nat> = s1.push(41);
    lemma_lucas(n, g, s2);
}

/// A power modulo 107, one binary digit of the exponent at a time.
proof fn lemma_power_107_0()
    ensures
        power_mod(2nat, 1nat, 107nat) == 2nat,
{
    let n: nat = 107nat;
    let x: nat = 2nat;
    lemma_power_mod_start(x, n);
    let e0: nat = 0;
    let v0: nat = 1;
    let v1: nat = 2nat;
    let e1: nat = lemma_power_mod_bit(x, n, e0, v0, 1, v1);
}

/// A power modulo 107, one binary digit of the exponent at a time.
proof fn lemma_power_107_1()
    ensures
        power_mod(2nat, 53nat, 107nat) == 106nat,
{
    let n: nat = 107nat;
    let x: nat = 2nat;
    lemma_power_mod_start(x, n);
    let e0: nat = 0;
    let v0: nat = 1;
    let v1: nat = 2nat;
    let e1: nat = lemma_power_mod_bit(x, n, e0, v0, 1, v1);
    let v2: nat = 8nat;
    let e2: nat = lemma_power_mod_bit(x, n, e1, v1, 1, v2);
    let v3: nat = 64nat;
    let e3: nat = lemma_power_mod_bit(x, n, e2, v2, 0, v3);
    let v4: nat = 60nat;
    let e4: nat = lemma_power_mod_bit(x, n, e3, v3, 1, v4);
    let v5: nat = 69nat;
    let e5: nat = lemma_power_mod_bit(x, n, e4, v4, 0, v5);
    let v6: nat = 106nat;
    let e6: nat = lemma_power_mod_bit(x, n, e5, v5, 1, v6);
}

/// A power modulo 107, one binary digit of the exponent at a time.
proof fn lemma_power_107_2()
    ensures
        power_mod(2nat, 2nat, 107nat) == 4nat,
{
    let n: nat = 107nat;
    let x: nat = 2nat;
    lemma_power_mod_start(x, n);
    let e0: nat = 0;
    let v0: nat = 1;
    let v1: nat = 2nat;
    let e1: nat = lemma_power_mod_bit(x, n, e0, v0, 1, v1);
    let v2: nat = 4nat;
    let e2: nat = lemma_power_mod_bit(x, n, e1, v1, 0, v2);
}

/// A power modulo 107, one binary digit of the exponent at a time.
proof fn lemma_power_107_3()
    ensures
        power_mod(106nat, 2nat, 107nat) == 1nat,
{
    let n: nat = 107nat;
    let x: nat = 106nat;
    lemma_power_mod_start(x, n);
    let e0: nat = 0;
    let v0: nat = 1;
    let v1: nat = 106nat;
    let e1: nat = lemma_power_mod_bit(x, n, e0, v0, 1, v1);
    let v2: nat = 1nat;
    let e2: nat = lemma_power_mod_bit(x, n, e1, v1, 0, v2);
}

/// 107 is prime.
proof fn lemma_prime_107()
    ensures
        is_prime(107nat),
{
    let n: nat = 107nat;
    let g: nat = 2;
    lemma_power_107_0();
    lemma_power_107_1();
    lemma_power_of_power(g, n, 1nat, 2nat, 53nat, 106nat);
    lemma_power_107_2();
    lemma_power_of_power(g, n, 1nat, 2nat, 2nat, 4nat);
    lemma_power_107_3();
    lemma_power_of_power(g, n, 53nat, 106nat, 2nat, 1nat);
    lemma_prime_2();
    lemma_prime_53();
    lemma_witnessed_empty(n, g);
    let s0: Seq<nat> = Seq::empty();
    lemma_witnessed_push(n, g, s0, 2);
    let s1: Seq<nat> = s0.push(2);
    lemma_witnessed_push(n, g, s1, 53);
    let s2: Seq<nat> = s1.push(53);
    lemma_lucas(n, g, s2);
}

/// A power modulo 137, one binary digit of the exponent at a time.
proof fn lemma_power_137_0()
    ensures
        power_mod(3nat, 4nat, 137nat) == 81nat,
{
    let n: nat = 137nat;
    let x: nat = 3nat;
    lemma_power_mod_start(x, n);
    let e0: nat = 0;
    let v0: nat = 1;
    let v1: nat = 3nat;
    let e1: nat = lemma_power_mod_bit(x, n, e0, v0, 1, v1);
    let v2: nat = 9nat;
    let e2: nat = lemma_power_mod_bit(x, n, e1, v1, 0, v2);
    let v3: nat = 81nat;
    let e3: nat = lemma_power_mod_bit(x, n, e2, v2, 0, v3);
}

/// A power modulo 137, one binary digit of the exponent at a time.
proof fn lemma_power_137_1()
    ensures
        power_mod(81nat, 17nat, 137nat) == 136nat,
{
    let n: nat = 137nat;
    let x: nat = 81nat;
    lemma_power_mod_start(x, n);
    let e0: nat = 0;
    let v0: nat = 1;
    let v1: nat = 81nat;
    let e1: nat = lemma_power_mod_bit(x, n, e0, v0, 1, v1);
    let v2: nat = 122nat;
    let e2: nat = lemma_power_mod_bit(x, n, e1, v1, 0, v2);
    let v3: nat = 88nat;
    let e3: nat = lemma_power_mod_bit(x, n, e2, v2, 0, v3);
    let v4: nat = 72nat;
    let e4: nat = lemma_power_mod_bit(x, n, e3, v3, 0, v4);
    let v5: nat = 136nat;
    let e5: nat = lemma_power_mod_bit(x, n, e4, v4, 1, v5);
}

/// A power modulo 137, one binary digit of the exponent at a time.
proof fn lemma_power_137_2()
    ensures
        power_mod(81nat, 2nat, 137nat) == 122nat,
{
    let n: nat = 137nat;
    let x: nat = 81nat;
    lemma_power_mod_start(x, n);
    let e0: nat = 0;
    let v0: nat = 1;
    let v1: nat = 81nat;
    let e1: nat = lemma_power_mod_bit(x, n, e0, v0, 1, v1);
    let v2: nat = 122nat;
    let e2: nat = lemma_power_mod_bit(x, n, e1, v1, 0, v2);
}

/// A power modulo 137, one binary digit of the exponent at a time.
proof fn lemma_power_137_3()
    ensures
        power_mod(136nat, 2nat, 137nat) == 1nat,
{
    let n: nat = 137nat;
    let x: nat = 136nat;
    lemma_power_mod_start(x, n);
    let e0: nat = 0;
    let v0: nat = 1;
    let v1: nat = 136nat;
    let e1: nat = lemma_power_mod_bit(x, n, e0, v0, 1, v1);
    let v2: nat = 1nat;
    let e2: nat = lemma_power_mod_bit(x, n, e1, v1, 0, v2);
}

/// 137 is prime.
proof fn lemma_prime_137()
    ensures
        is_prime(137nat),
{
    let n: nat = 137nat;
    let g: nat = 3;
    lemma_power_137_0();
    lemma_power_137_1();
    lemma_power_of_power(g, n, 4nat, 81nat, 17nat, 136nat);
    lemma_power_137_2();
    lemma_power_of_power(g, n, 4nat, 81nat, 2nat, 122nat);
    lemma_power_137_3();
    lemma_power_of_power(g, n, 68nat, 136nat, 2nat, 1nat);
    lemma_prime_2();
    lemma_prime_17();
    lemma_witnessed_empty(n, g);
    let s0: Seq<nat> = Seq::empty();
    lemma_witnessed_push(n, g, s0, 2);
    let s1: Seq<nat> = s0.push(2);
    lemma_witnessed_push(n, g, s1, 2);
    let s2: Seq<nat> = s1.push(2);
    lemma_witnessed_push(n, g, s2, 2);
    let s3: Seq<nat> = s2.push(2);
    lemma_witnessed_push(n, g, s3, 17);
    let s4: Seq<nat> = s3.push(17);
    lemma_lucas(n, g, s4);
}

/// A power modulo 223, one binary digit of the exponent at a time.
proof fn lemma_power_223_0()
    ensures
        power_mod(3nat, 1nat, 223nat) == 3nat,
{
    let n: nat = 223nat;
    let x: nat = 3nat;
    lemma_power_mod_start(x, n);
    let e0: nat = 0;
    let v0: nat = 1;
    let v1: nat = 3nat;
    let e1: nat = lemma_power_mod_bit(x, n, e0, v0, 1, v1);
}

/// A power modulo 223, one binary digit of the exponent at a time.
proof fn lemma_power_223_1()
    ensures
        power_mod(3nat, 37nat, 223nat) == 184nat,
{
    let n: nat = 223nat;
    let x: nat = 3nat;
    lemma_power_mod_start(x, n);
    let e0: nat = 0;
    let v0: nat = 1;
    let v1: nat = 3nat;
    let e1: nat = lemma_power_mod_bit(x, n, e0, v0, 1, v1);
    let v2: nat = 9nat;
    let e2: nat = lemma_power_mod_bit(x, n, e1, v1, 0, v2);
    let v3: nat = 81nat;
    let e3: nat = lemma_power_mod_bit(x, n, e2, v2, 0, v3);
    let v4: nat = 59nat;
    let e4: nat = lemma_power_mod_bit(x, n, e3, v3, 1, v4);
    let v5: nat = 136nat;
    let e5: nat = lemma_power_mod_bit(x, n, e4, v4, 0, v5);
    let v6: nat = 184nat;
    let e6: nat = lemma_power_mod_bit(x, n, e5, v5, 1, v6);
}

/// A power modulo 223, one binary digit of the exponent at a time.
proof fn lemma_power_223_2()
    ensures
        power_mod(184nat, 3nat, 223nat) == 222nat,
{
    let n: nat = 223nat;
    let x: nat = 184nat;
    lemma_power_mod_start(x, n);
    let e0: nat = 0;
    let v0: nat = 1;
    let v1: nat = 184nat;
    let e1: nat = lemma_power_mod_bit(x, n, e0, v0, 1, v1);
    let v2: nat = 222nat;
    let e2: nat = lemma_power_mod_bit(x, n, e1, v1, 1, v2);
}

/// A power modulo 223, one binary digit of the exponent at a time.
proof fn lemma_power_223_3()
    ensures
        power_mod(184nat, 2nat, 223nat) == 183nat,
{
    let n: nat = 223nat;
    let x: nat = 184nat;
    lemma_power_mod_start(x, n);
    let e0: nat = 0;
    let v0: nat = 1;
    let v1: nat = 184nat;
    let e1: nat = lemma_power_mod_bit(x, n, e0, v0, 1, v1);
    let v2: nat = 183nat;
    let e2: nat = lemma_power_mod_bit(x, n, e1, v1, 0, v2);
}

/// A power modulo 223, one binary digit of the exponent at a time.
proof fn lemma_power_223_4()
    ensures
        power_mod(3nat, 6nat, 223nat) == 60nat,
{
    let n: nat = 223nat;
    let x: nat = 3nat;
    lemma_power_mod_start(x, n);
    let e0: nat = 0;
    let v0: nat = 1;
    let v1: nat = 3nat;
    let e1: nat = lemma_power_mod_bit(x, n, e0, v0, 1, v1);
    let v2: nat = 27nat;
    let e2: nat = lemma_power_mod_bit(x, n, e1, v1, 1, v2);
    let v3: nat = 60nat;
    let e3: nat = lemma_power_mod_bit(x, n, e2, v2, 0, v3);
}

/// A power modulo 223, one binary digit of the exponent at a time.
proof fn lemma_power_223_5()
    ensures
        power_mod(222nat, 2nat, 223nat) == 1nat,
{
    let n: nat = 223nat;
    let x: nat = 222nat;
    lemma_power_mod_start(x, n);
    let e0: nat = 0;
    let v0: nat = 1;
    let v1: nat = 222nat;
    let e1: nat = lemma_power_mod_bit(x, n, e0, v0, 1, v1);
    let v2: nat = 1nat;
    let e2: nat = lemma_power_mod_bit(x, n, e1, v1, 0, v2);
}

/// 223 is prime.
proof fn lemma_prime_223()
    ensures
        is_prime(223nat),
{
    let n: nat = 223nat;
    let g: nat = 3;
    lemma_power_223_0();
    lemma_power_223_1();
    lemma_power_of_power(g, n, 1nat, 3nat, 37nat, 184nat);
    lemma_power_223_2();
    lemma_power_of_power(g, n, 37nat, 184nat, 3nat, 222nat);
    lemma_power_223_3();
    lemma_power_of_power(g, n, 37nat, 184nat, 2nat, 183nat);
    lemma_power_223_4();
    lemma_power_of_power(g, n, 1nat, 3nat, 6nat, 60nat);
    lemma_power_223_5();
    lemma_power_of_power(g, n, 111nat, 222nat, 2nat, 1nat);
    lemma_prime_2();
    lemma_prime_3();
    lemma_prime_37();
    lemma_witnessed_empty(n, g);
    let s0: Seq<nat> = Seq::empty();
    lemma_witnessed_push(n, g, s0, 2);
    let s1: Seq<nat> = s0.push(2);
    lemma_witnessed_push(n, g, s1, 3);
    let s2: Seq<nat> = s1.push(3);
    lemma_witnessed_push(n, g, s2, 37);
    let s3: Seq<nat> = s2.push(37);
    lemma_lucas(n, g, s3);
}

/// A power modulo 229, one binary digit of the exponent at a time.
proof fn lemma_power_229_0()
    ensures
        power_mod(6nat, 2nat, 229nat) == 36nat,
{
    let n: nat = 229nat;
    let x: nat = 6nat;
    lemma_power_mod_start(x, n);
    let e0: nat = 0;
    let v0: nat = 1;
    let v1: nat = 6nat;
    let e1: nat = lemma_power_mod_bit(x, n, e0, v0, 1, v1);
    let v2: nat = 36nat;
    let e2: nat = lemma_power_mod_bit(x, n, e1, v1, 0, v2);
}

/// A power modulo 229, one binary digit of the exponent at a time.
proof fn lemma_power_229_1()
    ensures
        power_mod(36nat, 19nat, 229nat) == 135nat,
{
    let n: nat = 229nat;
    let x: nat = 36nat;
    lemma_power_mod_start(x, n);
    let e0: nat = 0;
    let v0: nat = 1;
    let v1: nat = 36nat;
    let e1: nat = lemma_power_mod_bit(x, n, e0, v0, 1, v1);
    let v2: nat = 151nat;
    let e2: nat = lemma_power_mod_bit(x, n, e1, v1, 0, v2);
    let v3: nat = 130nat;
    let e3: nat = lemma_power_mod_bit(x, n, e2, v2, 0, v3);
    let v4: nat = 176nat;
    let e4: nat = lemma_power_mod_bit(x, n, e3, v3, 1, v4);
    let v5: nat = 135nat;
    let e5: nat = lemma_power_mod_bit(x, n, e4, v4, 1, v5);
}

/// A power modulo 229, one binary digit of the exponent at a time.
proof fn lemma_power_229_2()
    ensures
        power_mod(135nat, 3nat, 229nat) == 228nat,
{
    let n: nat = 229nat;
    let x: nat = 135nat;
    lemma_power_mod_start(x, n);
    let e0: nat = 0;
    let v0: nat = 1;
    let v1: nat = 135nat;
    let e1: nat = lemma_power_mod_bit(x, n, e0, v0, 1, v1);
    let v2: nat = 228nat;
    let e2: nat = lemma_power_mod_bit(x, n, e1, v1, 1, v2);
}

/// A power modulo 229, one binary digit of the exponent at a time.
proof fn lemma_power_229_3()
    ensures
        power_mod(135nat, 2nat, 229nat) == 134nat,
{
    let n: nat = 229nat;
    let x: nat = 135nat;
    lemma_power_mod_start(x, n);
    let e0: nat = 0;
    let v0: nat = 1;
    let v1: nat = 135nat;
    let e1: nat = lemma_power_mod_bit(x, n, e0, v0, 1, v1);
    let v2: nat = 134nat;
    let e2: nat = lemma_power_mod_bit(x, n, e1, v1, 0, v2);
}

/// A power modulo 229, one binary digit of the exponent at a time.
proof fn lemma_power_229_4()
    ensures
        power_mod(36nat, 6nat, 229nat) == 165nat,
{
    let n: nat = 229nat;
    let x: nat = 36nat;
    lemma_power_mod_start(x, n);
    let e0: nat = 0;
    let v0: nat = 1;
    let v1: nat = 36nat;
    let e1: nat = lemma_power_mod_bit(x, n, e0, v0, 1, v1);
    let v2: nat = 169nat;
    let e2: nat = lemma_power_mod_bit(x, n, e1, v1, 1, v2);
    let v3: nat = 165nat;
    let e3: nat = lemma_power_mod_bit(x, n, e2, v2, 0, v3);
}

/// A power modulo 229, one binary digit of the exponent at a time.
proof fn lemma_power_229_5()
    ensures
        power_mod(228nat, 2nat, 229nat) == 1nat,
{
    let n: nat = 229nat;
    let x: nat = 228nat;
    lemma_power_mod_start(x, n);
    let e0: nat = 0;
    let v0: nat = 1;
    let v1: nat = 228nat;
    let e1: nat = lemma_power_mod_bit(x, n, e0, v0, 1, v1);
    let v2: nat = 1nat;
    let e2: nat = lemma_power_mod_bit(x, n, e1, v1, 0, v2);
}

/// 229 is prime.
proof fn lemma_prime_229()
    ensures
        is_prime(229nat),
{
    let n: nat = 229nat;
    let g: nat = 6;
    lemma_power_229_0();
    lemma_power_229_1();
    lemma_power_of_power(g, n, 2nat, 36nat, 19nat, 135nat);
    lemma_power_229_2();
    lemma_power_of_power(g, n, 38nat, 135nat, 3nat, 228nat);
    lemma_power_229_3();
    lemma_power_of_power(g, n, 38nat, 135nat, 2nat, 134nat);
    lemma_power_229_4();
    lemma_power_of_power(g, n, 2nat, 36nat, 6nat, 165nat);
    lemma_power_229_5();
    lemma_power_of_power(g, n, 114nat, 228nat, 2nat, 1nat);
    lemma_prime_2();
    lemma_prime_3();
    lemma_prime_19();
    lemma_witnessed_empty(n, g);
    let s0: Seq<nat> = Seq::empty();
    lemma_witnessed_push(n, g, s0, 2);
    let s1: Seq<nat> = s0.push(2);
    lemma_witnessed_push(n, g, s1, 2);
    let s2: Seq<nat> = s1.push(2);
    lemma_witnessed_push(n, g, s2, 3);
    let s3: Seq<nat> = s2.push(3);
    lemma_witnessed_push(n, g, s3, 19);
    let s4: Seq<nat> = s3.push(19);
    lemma_lucas(n, g, s4);
}

/// A power modulo 379, one binary digit of the exponent at a time.
proof fn lemma_power_379_0()
    ensures
        power_mod(2nat, 9nat, 379nat) == 133nat,
{
    let n: nat = 379nat;
    let x: nat = 2nat;
    lemma_power_mod_start(x, n);
    let e0: nat = 0;
    let v0: nat = 1;
    let v1: nat = 2nat;
    let e1: nat = lemma_power_mod_bit(x, n, e0, v0, 1, v1);
    let v2: nat = 4nat;
    let e2: nat = lemma_power_mod_bit(x, n, e1, v1, 0, v2);
    let v3: nat = 16nat;
    let e3: nat = lemma_power_mod_bit(x, n, e2, v2, 0, v3);
    let v4: nat = 133nat;
    let e4: nat = lemma_power_mod_bit(x, n, e3, v3, 1, v4);
}

/// A power modulo 379, one binary digit of the exponent at a time.
proof fn lemma_power_379_1()
    ensures
        power_mod(133nat, 6nat, 379nat) == 125nat,
{
    let n: nat = 379nat;
    let x: nat = 133nat;
    lemma_power_mod_start(x, n);
    let e0: nat = 0;
    let v0: nat = 1;
    let v1: nat = 133nat;
    let e1: nat = lemma_power_mod_bit(x, n, e0, v0, 1, v1);
    let v2: nat = 184nat;
    let e2: nat = lemma_power_mod_bit(x, n, e1, v1, 1, v2);
    let v3: nat = 125nat;
    let e3: nat = lemma_power_mod_bit(x, n, e2, v2, 0, v3);
}

/// A power modulo 379, one binary digit of the exponent at a time.
proof fn lemma_power_379_2()
    ensures
        power_mod(133nat, 7nat, 379nat) == 328nat,
{
    let n: nat = 379nat;
    let x: nat = 133nat;
    lemma_power_mod_start(x, n);
    let e0: nat = 0;
    let v0: nat = 1;
    let v1: nat = 133nat;
    let e1: nat = lemma_power_mod_bit(x, n, e0, v0, 1, v1);
    let v2: nat = 184nat;
    let e2: nat = lemma_power_mod_bit(x, n, e1, v1, 1, v2);
    let v3: nat = 328nat;
    let e3: nat = lemma_power_mod_bit(x, n, e2, v2, 1, v3);
}

/// A power modulo 379, one binary digit of the exponent at a time.
proof fn lemma_power_379_3()
    ensures
        power_mod(328nat, 3nat, 379nat) == 378nat,
{
    let n: nat = 379nat;
    let x: nat = 328nat;
    lemma_power_mod_start(x, n);
    let e0: nat = 0;
    let v0: nat = 1;
    let v1: nat = 328nat;
    let e1: nat = lemma_power_mod_bit(x, n, e0, v0, 1, v1);
    let v2: nat = 378nat;
    let e2: nat = lemma_power_mod_bit(x, n, e1, v1, 1, v2);
}

/// A power modulo 379, one binary digit of the exponent at a time.
proof fn lemma_power_379_4()
    ensures
        power_mod(328nat, 2nat, 379nat) == 327nat,
{
    let n: nat = 379nat;
    let x: nat = 328nat;
    lemma_power_mod_start(x, n);
    let e0: nat = 0;
    let v0: nat = 1;
    let v1: nat = 328nat;
    let e1: nat = lemma_power_mod_bit(x, n, e0, v0, 1, v1);
    let v2: nat = 327nat;
    let e2: nat = lemma_power_mod_bit(x, n, e1, v1, 0, v2);
}

/// A power modulo 379, one binary digit of the exponent at a time.
proof fn lemma_power_379_5()
    ensures
        power_mod(378nat, 2nat, 379nat) == 1nat,
{
    let n: nat = 379nat;
    let x: nat = 378nat;
    lemma_power_mod_start(x, n);
    let e0: nat = 0;
    let v0: nat = 1;
    let v1: nat = 378nat;
    let e1: nat = lemma_power_mod_bit(x, n, e0, v0, 1, v1);
    let v2: nat = 1nat;
    let e2: nat = lemma_power_mod_bit(x, n, e1, v1, 0, v2);
}

/// 379 is prime.
proof fn lemma_prime_379()
    ensures
        is_prime(379nat),
{
    let n: nat = 379nat;
    let g: nat = 2;
    lemma_power_379_0();
    lemma_power_379_1();
    lemma_power_of_power(g, n, 9nat, 133nat, 6nat, 125nat);
    lemma_power_379_2();
    lemma_power_of_power(g, n, 9nat, 133nat, 7nat, 328nat);
    lemma_power_379_3();
    lemma_power_of_power(g, n, 63nat, 328nat, 3nat, 378nat);
    lemma_power_379_4();
    lemma_power_of_power(g, n, 63nat, 328nat, 2nat, 327nat);
    lemma_power_379_5();
    lemma_power_of_power(g, n, 189nat, 378nat, 2nat, 1nat);
    lemma_prime_2();
    lemma_prime_3();
    lemma_prime_7();
    lemma_witnessed_empty(n, g);
    let s0: Seq<nat> = Seq::empty();
    lemma_witnessed_push(n, g, s0, 2);
    let s1: Seq<nat> = s0.push(2);
    lemma_witnessed_push(n, g, s1, 3);
    let s2: Seq<nat> = s1.push(3);
    lemma_witnessed_push(n, g, s2, 3);
    let s3: Seq<nat> = s2.push(3);
    lemma_witnessed_push(n, g, s3, 3);
    let s4: Seq<nat> = s3.push(3);
    lemma_witnessed_push(n, g, s4, 7);
    let s5: Seq<nat> = s4.push(7);
    lemma_lucas(n, g, s5);
}

/// A power modulo 409, one binary digit of the exponent at a time.
proof fn lemma_power_409_0()
    ensures
        power_mod(21nat, 4nat, 409nat) == 206nat,
{
    let n: nat = 409nat;
    let x: nat = 21nat;
    lemma_power_mod_start(x, n);
    let e0: nat = 0;
    let v0: nat = 1;
    let v1: nat = 21nat;
    let e1: nat = lemma_power_mod_bit(x, n, e0, v0, 1, v1);
    let v2: nat = 32nat;
    let e2: nat = lemma_power_mod_bit(x, n, e1, v1, 0, v2);
    let v3: nat = 206nat;
    let e3: nat = lemma_power_mod_bit(x, n, e2, v2, 0, v3);
}

/// A power modulo 409, one binary digit of the exponent at a time.
proof fn lemma_power_409_1()
    ensures
        power_mod(206nat, 17nat, 409nat) == 356nat,
{
    let n: nat = 409nat;
    let x: nat = 206nat;
    lemma_power_mod_start(x, n);
    let e0: nat = 0;
    let v0: nat = 1;
    let v1: nat = 206nat;
    let e1: nat = lemma_power_mod_bit(x, n, e0, v0, 1, v1);
    let v2: nat = 309nat;
    let e2: nat = lemma_power_mod_bit(x, n, e1, v1, 0, v2);
    let v3: nat = 184nat;
    let e3: nat = lemma_power_mod_bit(x, n, e2, v2, 0, v3);
    let v4: nat = 318nat;
    let e4: nat = lemma_power_mod_bit(x, n, e3, v3, 0, v4);
    let v5: nat = 356nat;
    let e5: nat = lemma_power_mod_bit(x, n, e4, v4, 1, v5);
}

/// A power modulo 409, one binary digit of the exponent at a time.
proof fn lemma_power_409_2()
    ensures
        power_mod(356nat, 3nat, 409nat) == 408nat,
{
    let n: nat = 409nat;
    let x: nat = 356nat;
    lemma_power_mod_start(x, n);
    let e0: nat = 0;
    let v0: nat = 1;
    let v1: nat = 356nat;
    let e1: nat = lemma_power_mod_bit(x, n, e0, v0, 1, v1);
    let v2: nat = 408nat;
    let e2: nat = lemma_power_mod_bit(x, n, e1, v1, 1, v2);
}

/// A power modulo 409, one binary digit of the exponent at a time.
proof fn lemma_power_409_3()
    ensures
        power_mod(356nat, 2nat, 409nat) == 355nat,
{
    let n: nat = 409nat;
    let x: nat = 356nat;
    lemma_power_mod_start(x, n);
    let e0: nat = 0;
    let v0: nat = 1;
    let v1: nat = 356nat;
    let e1: nat = lemma_power_mod_bit(x, n, e0, v0, 1, v1);
    let v2: nat = 355nat;
    let e2: nat = lemma_power_mod_bit(x, n, e1, v1, 0, v2);
}

/// A power modulo 409, one binary digit of the exponent at a time.
proof fn lemma_power_409_4()
    ensures
        power_mod(206nat, 6nat, 409nat) == 5nat,
{
    let n: nat = 409nat;
    let x: nat = 206nat;
    lemma_power_mod_start(x, n);
    let e0: nat = 0;
    let v0: nat = 1;
    let v1: nat = 206nat;
    let e1: nat = lemma_power_mod_bit(x, n, e0, v0, 1, v1);
    let v2: nat = 259nat;
    let e2: nat = lemma_power_mod_bit(x, n, e1, v1, 1, v2);
    let v3: nat = 5nat;
    let e3: nat = lemma_power_mod_bit(x, n, e2, v2, 0, v3);
}

/// A power modulo 409, one binary digit of the exponent at a time.
proof fn lemma_power_409_5()
    ensures
        power_mod(408nat, 2nat, 409nat) == 1nat,
{
    let n: nat = 409nat;
    let x: nat = 408nat;
    lemma_power_mod_start(x, n);
    let e0: nat = 0;
    let v0: nat = 1;
    let v1: nat = 408nat;
    let e1: nat = lemma_power_mod_bit(x, n, e0, v0, 1, v1);
    let v2: nat = 1nat;
    let e2: nat = lemma_power_mod_bit(x, n, e1, v1, 0, v2);
}

/// 409 is prime.
proof fn lemma_prime_409()
    ensures
        is_prime(409nat),
{
    let n: nat = 409nat;
    let g: nat = 21;
    lemma_power_409_0();
    lemma_power_409_1();
    lemma_power_of_power(g, n, 4nat, 206nat, 17nat, 356nat);
    lemma_power_409_2();
    lemma_power_of_power(g, n, 68nat, 356nat, 3nat, 408nat);
    lemma_power_409_3();
    lemma_power_of_power(g, n, 68nat, 356nat, 2nat, 355nat);
    lemma_power_409_4();
    lemma_power_of_power(g, n, 4nat, 206nat, 6nat, 5nat);
    lemma_power_409_5();
    lemma_power_of_power(g, n, 204nat, 408nat, 2nat, 1nat);
    lemma_prime_2();
    lemma_prime_3();
    lemma_prime_17();
    lemma_witnessed_empty(n, g);
    let s0: Seq<nat> = Seq::empty();
    lemma_witnessed_push(n, g, s0, 2);
    let s1: Seq<nat> = s0.push(2);
    lemma_witnessed_push(n, g, s1, 2);
    let s2: Seq<nat> = s1.push(2);
    lemma_witnessed_push(n, g, s2, 2);
    let s3: Seq<nat> = s2.push(2);
    lemma_witnessed_push(n, g, s3, 3);
    let s4: Seq<nat> = s3.push(3);
    lemma_witnessed_push(n, g, s4, 17);
    let s5: Seq<nat> = s4.push(17);
    lemma_lucas(n, g, s5);
}

/// A power modulo 449, one binary digit of the exponent at a time.
proof fn lemma_power_449_0()
    ensures
        power_mod(3nat, 32nat, 449nat) == 431nat,
{
    let n: nat = 449nat;
    let x: nat = 3nat;
    lemma_power_mod_start(x, n);
    let e0: nat = 0;
    let v0: nat = 1;
    let v1: nat = 3nat;
    let e1: nat = lemma_power_mod_bit(x, n, e0, v0, 1, v1);
    let v2: nat = 9nat;
    let e2: nat = lemma_power_mod_bit(x, n, e1, v1, 0, v2);
    let v3: nat = 81nat;
    let e3: nat = lemma_power_mod_bit(x, n, e2, v2, 0, v3);
    let v4: nat = 275nat;
    let e4: nat = lemma_power_mod_bit(x, n, e3, v3, 0, v4);
    let v5: nat = 193nat;
    let e5: nat = lemma_power_mod_bit(x, n, e4, v4, 0, v5);
    let v6: nat = 431nat;
    let e6: nat = lemma_power_mod_bit(x, n, e5, v5, 0, v6);
}

/// A power modulo 449, one binary digit of the exponent at a time.
proof fn lemma_power_449_1()
    ensures
        power_mod(431nat, 7nat, 449nat) == 448nat,
{
    let n: nat = 449nat;
    let x: nat = 431nat;
    lemma_power_mod_start(x, n);
    let e0: nat = 0;
    let v0: nat = 1;
    let v1: nat = 431nat;
    let e1: nat = lemma_power_mod_bit(x, n, e0, v0, 1, v1);
    let v2: nat = 5nat;
    let e2: nat = lemma_power_mod_bit(x, n, e1, v1, 1, v2);
    let v3: nat = 448nat;
    let e3: nat = lemma_power_mod_bit(x, n, e2, v2, 1, v3);
}

/// A power modulo 449, one binary digit of the exponent at a time.
proof fn lemma_power_449_2()
    ensures
        power_mod(431nat, 2nat, 449nat) == 324nat,
{
    let n: nat = 449nat;
    let x: nat = 431nat;
    lemma_power_mod_start(x, n);
    let e0: nat = 0;
    let v0: nat = 1;
    let v1: nat = 431nat;
    let e1: nat = lemma_power_mod_bit(x, n, e0, v0, 1, v1);
    let v2: nat = 324nat;
    let e2: nat = lemma_power_mod_bit(x, n, e1, v1, 0, v2);
}

/// A power modulo 449, one binary digit of the exponent at a time.
proof fn lemma_power_449_3()
    ensures
        power_mod(448nat, 2nat, 449nat) == 1nat,
{
    let n: nat = 449nat;
    let x: nat = 448nat;
    lemma_power_mod_start(x, n);
    let e0: nat = 0;
    let v0: nat = 1;
    let v1: nat = 448nat;
    let e1: nat = lemma_power_mod_bit(x, n, e0, v0, 1, v1);
    let v2: nat = 1nat;
    let e2: nat = lemma_power_mod_bit(x, n, e1, v1, 0, v2);
}

/// 449 is prime.
proof fn lemma_prime_449()
    ensures
        is_prime(449nat),
{
    let n: nat = 449nat;
    let g: nat = 3;
    lemma_power_449_0();
    lemma_power_449_1();
    lemma_power_of_power(g, n, 32nat, 431nat, 7nat, 448nat);
    lemma_power_449_2();
    lemma_power_of_power(g, n, 32nat, 431nat, 2nat, 324nat);
    lemma_power_449_3();
    lemma_power_of_power(g, n, 224nat, 448nat, 2nat, 1nat);
    lemma_prime_2();
    lemma_prime_7();
    lemma_witnessed_empty(n, g);
    let s0: Seq<nat> = Seq::empty();
    lemma_witnessed_push(n, g, s0, 2);
    let s1: Seq<nat> = s0.push(2);
    lemma_witnessed_push(n, g, s1, 2);
    let s2: Seq<nat> = s1.push(2);
    lemma_witnessed_push(n, g, s2, 2);
    let s3: Seq<nat> = s2.push(2);
    lemma_witnessed_push(n, g, s3, 2);
    let s4: Seq<nat> = s3.push(2);
    lemma_witnessed_push(n, g, s4, 2);
    let s5: Seq<nat> = s4.push(2);
    lemma_witnessed_push(n, g, s5, 2);
    let s6: Seq<nat> = s5.push(2);
    lemma_witnessed_push(n, g, s6, 7);
    let s7: Seq<nat> = s6.push(7);
    lemma_lucas(n, g, s7);
}

/// A power modulo 491, one binary digit of the exponent at a time.
proof fn lemma_power_491_0()
    ensures
        power_mod(2nat, 7nat, 491nat) == 128nat,
{
    let n: nat = 491nat;
    let x: nat = 2nat;
    lemma_power_mod_start(x, n);
    let e0: nat = 0;
    let v0: nat = 1;
    let v1: nat = 2nat;
    let e1: nat = lemma_power_mod_bit(x, n, e0, v0, 1, v1);
    let v2: nat = 8nat;
    let e2: nat = lemma_power_mod_bit(x, n, e1, v1, 1, v2);
    let v3: nat = 128nat;
    let e3: nat = lemma_power_mod_bit(x, n, e2, v2, 1, v3);
}

/// A power modulo 491, one binary digit of the exponent at a time.
proof fn lemma_power_491_1()
    ensures
        power_mod(128nat, 10nat, 491nat) == 138nat,
{
    let n: nat = 491nat;
    let x: nat = 128nat;
    lemma_power_mod_start(x, n);
    let e0: nat = 0;
    let v0: nat = 1;
    let v1: nat = 128nat;
    let e1: nat = lemma_power_mod_bit(x, n, e0, v0, 1, v1);
    let v2: nat = 181nat;
    let e2: nat = lemma_power_mod_bit(x, n, e1, v1, 0, v2);
    let v3: nat = 268nat;
    let e3: nat = lemma_power_mod_bit(x, n, e2, v2, 1, v3);
    let v4: nat = 138nat;
    let e4: nat = lemma_power_mod_bit(x, n, e3, v3, 0, v4);
}

/// A power modulo 491, one binary digit of the exponent at a time.
proof fn lemma_power_491_2()
    ensures
        power_mod(128nat, 7nat, 491nat) == 390nat,
{
    let n: nat = 491nat;
    let x: nat = 128nat;
    lemma_power_mod_start(x, n);
    let e0: nat = 0;
    let v0: nat = 1;
    let v1: nat = 128nat;
    let e1: nat = lemma_power_mod_bit(x, n, e0, v0, 1, v1);
    let v2: nat = 91nat;
    let e2: nat = lemma_power_mod_bit(x, n, e1, v1, 1, v2);
    let v3: nat = 390nat;
    let e3: nat = lemma_power_mod_bit(x, n, e2, v2, 1, v3);
}

/// A power modulo 491, one binary digit of the exponent at a time.
proof fn lemma_power_491_3()
    ensures
        power_mod(390nat, 5nat, 491nat) == 490nat,
{
    let n: nat = 491nat;
    let x: nat = 390nat;
    lemma_power_mod_start(x, n);
    let e0: nat = 0;
    let v0: nat = 1;
    let v1: nat = 390nat;
    let e1: nat = lemma_power_mod_bit(x, n, e0, v0, 1, v1);
    let v2: nat = 381nat;
    let e2: nat = lemma_power_mod_bit(x, n, e1, v1, 0, v2);
    let v3: nat = 490nat;
    let e3: nat = lemma_power_mod_bit(x, n, e2, v2, 1, v3);
}

/// A power modulo 491, one binary digit of the exponent at a time.
proof fn lemma_power_491_4()
    ensures
        power_mod(390nat, 2nat, 491nat) == 381nat,
{
    let n: nat = 491nat;
    let x: nat = 390nat;
    lemma_power_mod_start(x, n);
    let e0: nat = 0;
    let v0: nat = 1;
    let v1: nat = 390nat;
    let e1: nat = lemma_power_mod_bit(x, n, e0, v0, 1, v1);
    let v2: nat = 381nat;
    let e2: nat = lemma_power_mod_bit(x, n, e1, v1, 0, v2);
}

/// A power modulo 491, one binary digit of the exponent at a time.
proof fn lemma_power_491_5()
    ensures
        power_mod(490nat, 2nat, 491nat) == 1nat,
{
    let n: nat = 491nat;
    let x: nat = 490nat;
    lemma_power_mod_start(x, n);
    let e0: nat = 0;
    let v0: nat = 1;
    let v1: nat = 490nat;
    let e1: nat = lemma_power_mod_bit(x, n, e0, v0, 1, v1);
    let v2: nat = 1nat;
    let e2: nat = lemma_power_mod_bit(x, n, e1, v1, 0, v2);
}

/// 491 is prime.
proof fn lemma_prime_491()
    ensures
        is_prime(491nat),
{
    let n: nat = 491nat;
    let g: nat = 2;
    lemma_power_491_0();
    lemma_power_491_1();
    lemma_power_of_power(g, n, 7nat, 128nat, 10nat, 138nat);
    lemma_power_491_2();
    lemma_power_of_power(g, n, 7nat, 128nat, 7nat, 390nat);
    lemma_power_491_3();
    lemma_power_of_power(g, n, 49nat, 390nat, 5nat, 490nat);
    lemma_power_491_4();
    lemma_power_of_power(g, n, 49nat, 390nat, 2nat, 381nat);
    lemma_power_491_5();
    lemma_power_of_power(g, n, 245nat, 490nat, 2nat, 1nat);
    lemma_prime_2();
    lemma_prime_5();
    lemma_prime_7();
    lemma_witnessed_empty(n, g);
    let s0: Seq<nat> = Seq::empty();
    lemma_witnessed_push(n, g, s0, 2);
    let s1: Seq<nat> = s0.push(2);
    lemma_witnessed_push(n, g, s1, 5);
    let s2: Seq<nat> = s1.push(5);
    lemma_witnessed_push(n, g, s2, 7);
    let s3: Seq<nat> = s2.push(7);
    lemma_witnessed_push(n, g, s3, 7);
    let s4: Seq<nat> = s3.push(7);
    lemma_lucas(n, g, s4);
}

/// A power modulo 661, one binary digit of the exponent at a time.
proof fn lemma_power_661_0()
    ensures
        power_mod(2nat, 2nat, 661nat) == 4nat,
{
    let n: nat = 661nat;
    let x: nat = 2nat;
    lemma_power_mod_start(x, n);
    let e0: nat = 0;
    let v0: nat = 1;
    let v1: nat = 2nat;
    let e1: nat = lemma_power_mod_bit(x, n, e0, v0, 1, v1);
    let v2: nat = 4nat;
    let e2: nat = lemma_power_mod_bit(x, n, e1, v1, 0, v2);
}

/// A power modulo 661, one binary digit of the exponent at a time.
proof fn lemma_power_661_1()
    ensures
        power_mod(4nat, 55nat, 661nat) == 297nat,
{
    let n: nat = 661nat;
    let x: nat = 4nat;
    lemma_power_mod_start(x, n);
    let e0: nat = 0;
    let v0: nat = 1;
    let v1: nat = 4nat;
    let e1: nat = lemma_power_mod_bit(x, n, e0, v0, 1, v1);
    let v2: nat = 64nat;
    let e2: nat = lemma_power_mod_bit(x, n, e1, v1, 1, v2);
    let v3: nat = 130nat;
    let e3: nat = lemma_power_mod_bit(x, n, e2, v2, 0, v3);
    let v4: nat = 178nat;
    let e4: nat = lemma_power_mod_bit(x, n, e3, v3, 1, v4);
    let v5: nat = 485nat;
    let e5: nat = lemma_power_mod_bit(x, n, e4, v4, 1, v5);
    let v6: nat = 297nat;
    let e6: nat = lemma_power_mod_bit(x, n, e5, v5, 1, v6);
}

/// A power modulo 661, one binary digit of the exponent at a time.
proof fn lemma_power_661_2()
    ensures
        power_mod(297nat, 3nat, 661nat) == 660nat,
{
    let n: nat = 661nat;
    let x: nat = 297nat;
    lemma_power_mod_start(x, n);
    let e0: nat = 0;
    let v0: nat = 1;
    let v1: nat = 297nat;
    let e1: nat = lemma_power_mod_bit(x, n, e0, v0, 1, v1);
    let v2: nat = 660nat;
    let e2: nat = lemma_power_mod_bit(x, n, e1, v1, 1, v2);
}

/// A power modulo 661, one binary digit of the exponent at a time.
proof fn lemma_power_661_3()
    ensures
        power_mod(297nat, 2nat, 661nat) == 296nat,
{
    let n: nat = 661nat;
    let x: nat = 297nat;
    lemma_power_mod_start(x, n);
    let e0: nat = 0;
    let v0: nat = 1;
    let v1: nat = 297nat;
    let e1: nat = lemma_power_mod_bit(x, n, e0, v0, 1, v1);
    let v2: nat = 296nat;
    let e2: nat = lemma_power_mod_bit(x, n, e1, v1, 0, v2);
}

/// A power modulo 661, one binary digit of the exponent at a time.
proof fn lemma_power_661_4()
    ensures
        power_mod(4nat, 6nat, 661nat) == 130nat,
{
    let n: nat = 661nat;
    let x: nat = 4nat;
    lemma_power_mod_start(x, n);
    let e0: nat = 0;
    let v0: nat = 1;
    let v1: nat = 4nat;
    let e1: nat = lemma_power_mod_bit(x, n, e0, v0, 1, v1);
    let v2: nat = 64nat;
    let e2: nat = lemma_power_mod_bit(x, n, e1, v1, 1, v2);
    let v3: nat = 130nat;
    let e3: nat = lemma_power_mod_bit(x, n, e2, v2, 0, v3);
}

/// A power modulo 661, one binary digit of the exponent at a time.
proof fn lemma_power_661_5()
    ensures
        power_mod(130nat, 11nat, 661nat) == 247nat,
{
    let n: nat = 661nat;
    let x: nat = 130nat;
    lemma_power_mod_start(x, n);
    let e0: nat = 0;
    let v0: nat = 1;
    let v1: nat = 130nat;
    let e1: nat = lemma_power_mod_bit(x, n, e0, v0, 1, v1);
    let v2: nat = 375nat;
    let e2: nat = lemma_power_mod_bit(x, n, e1, v1, 0, v2);
    let v3: nat = 634nat;
    let e3: nat = lemma_power_mod_bit(x, n, e2, v2, 1, v3);
    let v4: nat = 247nat;
    let e4: nat = lemma_power_mod_bit(x, n, e3, v3, 1, v4);
}

/// A power modulo 661, one binary digit of the exponent at a time.
proof fn lemma_power_661_6()
    ensures
        power_mod(130nat, 5nat, 661nat) == 634nat,
{
    let n: nat = 661nat;
    let x: nat = 130nat;
    lemma_power_mod_start(x, n);
    let e0: nat = 0;
    let v0: nat = 1;
    let v1: nat = 130nat;
    let e1: nat = lemma_power_mod_bit(x, n, e0, v0, 1, v1);
    let v2: nat = 375nat;
    let e2: nat = lemma_power_mod_bit(x, n, e1, v1, 0, v2);
    let v3: nat = 634nat;
    let e3: nat = lemma_power_mod_bit(x, n, e2, v2, 1, v3);
}

/// A power modulo 661, one binary digit of the exponent at a time.
proof fn lemma_power_661_7()
    ensures
        power_mod(660nat, 2nat, 661nat) == 1nat,
{
    let n: nat = 661nat;
    let x: nat = 660nat;
    lemma_power_mod_start(x, n);
    let e0: nat = 0;
    let v0: nat = 1;
    let v1: nat = 660nat;
    let e1: nat = lemma_power_mod_bit(x, n, e0, v0, 1, v1);
    let v2: nat = 1nat;
    let e2: nat = lemma_power_mod_bit(x, n, e1, v1, 0, v2);
}

/// 661 is prime.
proof fn lemma_prime_661()
    ensures
        is_prime(661nat),
{
    let n: nat = 661nat;
    let g: nat = 2;
    lemma_power_661_0();
    lemma_power_661_1();
    lemma_power_of_power(g, n, 2nat, 4nat, 55nat, 297nat);
    lemma_power_661_2();
    lemma_power_of_power(g, n, 110nat, 297nat, 3nat, 660nat);
    lemma_power_661_3();
    lemma_power_of_power(g, n, 110nat, 297nat, 2nat, 296nat);
    lemma_power_661_4();
    lemma_power_of_power(g, n, 2nat, 4nat, 6nat, 130nat);
    lemma_power_661_5();
    lemma_power_of_power(g, n, 12nat, 130nat, 11nat, 247nat);
    lemma_power_661_6();
    lemma_power_of_power(g, n, 12nat, 130nat, 5nat, 634nat);
    lemma_power_661_7();
    lemma_power_of_power(g, n, 330nat, 660nat, 2nat, 1nat);
    lemma_prime_2();
    lemma_prime_3();
    lemma_prime_5();
    lemma_prime_11();
    lemma_witnessed_empty(n, g);
    let s0: Seq<nat> = Seq::empty();
    lemma_witnessed_push(n, g, s0, 2);
    let s1: Seq<nat> = s0.push(2);
    lemma_witnessed_push(n, g, s1, 2);
    let s2: Seq<nat> = s1.push(2);
    lemma_witnessed_push(n, g, s2, 3);
    let s3: Seq<nat> = s2.push(3);
    lemma_witnessed_push(n, g, s3, 5);
    let s4: Seq<nat> = s3.push(5);
    lemma_witnessed_push(n, g, s4, 11);
    let s5: Seq<nat> = s4.push(11);
    lemma_lucas(n, g, s5);
}

/// A power modulo 823, one binary digit of the exponent at a time.
proof fn lemma_power_823_0()
    ensures
        power_mod(3nat, 1nat, 823nat) == 3nat,
{
    let n: nat = 823nat;
    let x: nat = 3nat;
    lemma_power_mod_start(x, n);
    let e0: nat = 0;
    let v0: nat = 1;
    let v1: nat = 3nat;
    let e1: nat = lemma_power_mod_bit(x, n, e0, v0, 1, v1);
}

/// A power modulo 823, one binary digit of the exponent at a time.
proof fn lemma_power_823_1()
    ensures
        power_mod(3nat, 137nat, 823nat) == 649nat,
{
    let n: nat = 823nat;
    let x: nat = 3nat;
    lemma_power_mod_start(x, n);
    let e0: nat = 0;
    let v0: nat = 1;
    let v1: nat = 3nat;
    let e1: nat = lemma_power_mod_bit(x, n, e0, v0, 1, v1);
    let v2: nat = 9nat;
    let e2: nat = lemma_power_mod_bit(x, n, e1, v1, 0, v2);
    let v3: nat = 81nat;
    let e3: nat = lemma_power_mod_bit(x, n, e2, v2, 0, v3);
    let v4: nat = 800nat;
    let e4: nat = lemma_power_mod_bit(x, n, e3, v3, 0, v4);
    let v5: nat = 764nat;
    let e5: nat = lemma_power_mod_bit(x, n, e4, v4, 1, v5);
    let v6: nat = 189nat;
    let e6: nat = lemma_power_mod_bit(x, n, e5, v5, 0, v6);
    let v7: nat = 332nat;
    let e7: nat = lemma_power_mod_bit(x, n, e6, v6, 0, v7);
    let v8: nat = 649nat;
    let e8: nat = lemma_power_mod_bit(x, n, e7, v7, 1, v8);
}

/// A power modulo 823, one binary digit of the exponent at a time.
proof fn lemma_power_823_2()
    ensures
        power_mod(649nat, 3nat, 823nat) == 822nat,
{
    let n: nat = 823nat;
    let x: nat = 649nat;
    lemma_power_mod_start(x, n);
    let e0: nat = 0;
    let v0: nat = 1;
    let v1: nat = 649nat;
    let e1: nat = lemma_power_mod_bit(x, n, e0, v0, 1, v1);
    let v2: nat = 822nat;
    let e2: nat = lemma_power_mod_bit(x, n, e1, v1, 1, v2);
}

/// A power modulo 823, one binary digit of the exponent at a time.
proof fn lemma_power_823_3()
    ensures
        power_mod(649nat, 2nat, 823nat) == 648nat,
{
    let n: nat = 823nat;
    let x: nat = 649nat;
    lemma_power_mod_start(x, n);
    let e0: nat = 0;
    let v0: nat = 1;
    let v1: nat = 649nat;
    let e1: nat = lemma_power_mod_bit(x, n, e0, v0, 1, v1);
    let v2: nat = 648nat;
    let e2: nat = lemma_power_mod_bit(x, n, e1, v1, 0, v2);
}

/// A power modulo 823, one binary digit of the exponent at a time.
proof fn lemma_power_823_4()
    ensures
        power_mod(3nat, 6nat, 823nat) == 729nat,
{
    let n: nat = 823nat;
    let x: nat = 3nat;
    lemma_power_mod_start(x, n);
    let e0: nat = 0;
    let v0: nat = 1;
    let v1: nat = 3nat;
    let e1: nat = lemma_power_mod_bit(x, n, e0, v0, 1, v1);
    let v2: nat = 27nat;
    let e2: nat = lemma_power_mod_bit(x, n, e1, v1, 1, v2);
    let v3: nat = 729nat;
    let e3: nat = lemma_power_mod_bit(x, n, e2, v2, 0, v3);
}

/// A power modulo 823, one binary digit of the exponent at a time.
proof fn lemma_power_823_5()
    ensures
        power_mod(822nat, 2nat, 823nat) == 1nat,
{
    let n: nat = 823nat;
    let x: nat = 822nat;
    lemma_power_mod_start(x, n);
    let e0: nat = 0;
    let v0: nat = 1;
    let v1: nat = 822nat;
    let e1: nat = lemma_power_mod_bit(x, n, e0, v0, 1, v1);
    let v2: nat = 1nat;
    let e2: nat = lemma_power_mod_bit(x, n, e1, v1, 0, v2);
}

/// 823 is prime.
proof fn lemma_prime_823()
    ensures
        is_prime(823nat),
{
    let n: nat = 823nat;
    let g: nat = 3;
    lemma_power_823_0();
    lemma_power_823_1();
    lemma_power_of_power(g, n, 1nat, 3nat, 137nat, 649nat);
    lemma_power_823_2();
    lemma_power_of_power(g, n, 137nat, 649nat, 3nat, 822nat);
    lemma_power_823_3();
    lemma_power_of_power(g, n, 137nat, 649nat, 2nat, 648nat);
    lemma_power_823_4();
    lemma_power_of_power(g, n, 1nat, 3nat, 6nat, 729nat);
    lemma_power_823_5();
    lemma_power_of_power(g, n, 411nat, 822nat, 2nat, 1nat);
    lemma_prime_2();
    lemma_prime_3();
    lemma_prime_137();
    lemma_witnessed_empty(n, g);
    let s0: Seq<nat> = Seq::empty();
    lemma_witnessed_push(n, g, s0, 2);
    let s1: Seq<nat> = s0.push(2);
    lemma_witnessed_push(n, g, s1, 3);
    let s2: Seq<nat> = s1.push(3);
    lemma_witnessed_push(n, g, s2, 137);
    let s3: Seq<nat> = s2.push(137);
    lemma_lucas(n, g, s3);
}

/// A power modulo 853, one binary digit of the exponent at a time.
proof fn lemma_power_853_0()
    ensures
        power_mod(2nat, 2nat, 853nat) == 4nat,
{
    let n: nat = 853nat;
    let x: nat = 2nat;
    lemma_power_mod_start(x, n);
    let e0: nat = 0;
    let v0: nat = 1;
    let v1: nat = 2nat;
    let e1: nat = lemma_power_mod_bit(x, n, e0, v0, 1, v1);
    let v2: nat = 4nat;
    let e2: nat = lemma_power_mod_bit(x, n, e1, v1, 0, v2);
}

/// A power modulo 853, one binary digit of the exponent at a time.
proof fn lemma_power_853_1()
    ensures
        power_mod(4nat, 71nat, 853nat) == 633nat,
{
    let n: nat = 853nat;
    let x: nat = 4nat;
    lemma_power_mod_start(x, n);
    let e0: nat = 0;
    let v0: nat = 1;
    let v1: nat = 4nat;
    let e1: nat = lemma_power_mod_bit(x, n, e0, v0, 1, v1);
    let v2: nat = 16nat;
    let e2: nat = lemma_power_mod_bit(x, n, e1, v1, 0, v2);
    let v3: nat = 256nat;
    let e3: nat = lemma_power_mod_bit(x, n, e2, v2, 0, v3);
    let v4: nat = 708nat;
    let e4: nat = lemma_power_mod_bit(x, n, e3, v3, 0, v4);
    let v5: nat = 506nat;
    let e5: nat = lemma_power_mod_bit(x, n, e4, v4, 1, v5);
    let v6: nat = 544nat;
    let e6: nat = lemma_power_mod_bit(x, n, e5, v5, 1, v6);
    let v7: nat = 633nat;
    let e7: nat = lemma_power_mod_bit(x, n, e6, v6, 1, v7);
}

/// A power modulo 853, one binary digit of the exponent at a time.
proof fn lemma_power_853_2()
    ensures
        power_mod(633nat, 3nat, 853nat) == 852nat,
{
    let n: nat = 853nat;
    let x: nat = 633nat;
    lemma_power_mod_start(x, n);
    let e0: nat = 0;
    let v0: nat = 1;
    let v1: nat = 633nat;
    let e1: nat = lemma_power_mod_bit(x, n, e0, v0, 1, v1);
    let v2: nat = 852nat;
    let e2: nat = lemma_power_mod_bit(x, n, e1, v1, 1, v2);
}

/// A power modulo 853, one binary digit of the exponent at a time.
proof fn lemma_power_853_3()
    ensures
        power_mod(633nat, 2nat, 853nat) == 632nat,
{
    let n: nat = 853nat;
    let x: nat = 633nat;
    lemma_power_mod_start(x, n);
    let e0: nat = 0;
    let v0: nat = 1;
    let v1: nat = 633nat;
    let e1: nat = lemma_power_mod_bit(x, n, e0, v0, 1, v1);
    let v2: nat = 632nat;
    let e2: nat = lemma_power_mod_bit(x, n, e1, v1, 0, v2);
}

/// A power modulo 853, one binary digit of the exponent at a time.
proof fn lemma_power_853_4()
    ensures
        power_mod(4nat, 6nat, 853nat) == 684nat,
{
    let n: nat = 853nat;
    let x: nat = 4nat;
    lemma_power_mod_start(x, n);
    let e0: nat = 0;
    let v0: nat = 1;
    let v1: nat = 4nat;
    let e1: nat = lemma_power_mod_bit(x, n, e0, v0, 1, v1);
    let v2: nat = 64nat;
    let e2: nat = lemma_power_mod_bit(x, n, e1, v1, 1, v2);
    let v3: nat = 684nat;
    let e3: nat = lemma_power_mod_bit(x, n, e2, v2, 0, v3);
}

/// A power modulo 853, one binary digit of the exponent at a time.
proof fn lemma_power_853_5()
    ensures
        power_mod(852nat, 2nat, 853nat) == 1nat,
{
    let n: nat = 853nat;
    let x: nat = 852nat;
    lemma_power_mod_start(x, n);
    let e0: nat = 0;
    let v0: nat = 1;
    let v1: nat = 852nat;
    let e1: nat = lemma_power_mod_bit(x, n, e0, v0, 1, v1);
    let v2: nat = 1nat;
    let e2: nat = lemma_power_mod_bit(x, n, e1, v1, 0, v2);
}

/// 853 is prime.
proof fn lemma_prime_853()
    ensures
        is_prime(853nat),
{
    let n: nat = 853nat;
    let g: nat = 2;
    lemma_power_853_0();
    lemma_power_853_1();
    lemma_power_of_power(g, n, 2nat, 4nat, 71nat, 633nat);
    lemma_power_853_2();
    lemma_power_of_power(g, n, 142nat, 633nat, 3nat, 852nat);
    lemma_power_853_3();
    lemma_power_of_power(g, n, 142nat, 633nat, 2nat, 632nat);
    lemma_power_853_4();
    lemma_power_of_power(g, n, 2nat, 4nat, 6nat, 684nat);
    lemma_power_853_5();
    lemma_power_of_power(g, n, 426nat, 852nat, 2nat, 1nat);
    lemma_prime_2();
    lemma_prime_3();
    lemma_prime_71();
    lemma_witnessed_empty(n, g);
    let s0: Seq<nat> = Seq::empty();
    lemma_witnessed_push(n, g, s0, 2);
    let s1: Seq<nat> = s0.push(2);
    lemma_witnessed_push(n, g, s1, 2);
    let s2: Seq<nat> = s1.push(2);
    lemma_witnessed_push(n, g, s2, 3);
    let s3: Seq<nat> = s2.push(3);
    lemma_witnessed_push(n, g, s3, 71);
    let s4: Seq<nat> = s3.push(71);
    lemma_lucas(n, g, s4);
}

/// A power modulo 983, one binary digit of the exponent at a time.
proof fn lemma_power_983_0()
    ensures
        power_mod(5nat, 1nat, 983nat) == 5nat,
{
    let n: nat = 983nat;
    let x: nat = 5nat;
    lemma_power_mod_start(x, n);
    let e0: nat = 0;
    let v0: nat = 1;
    let v1: nat = 5nat;
    let e1: nat = lemma_power_mod_bit(x, n, e0, v0, 1, v1);
}

/// A power modulo 983, one binary digit of the exponent at a time.
proof fn lemma_power_983_1()
    ensures
        power_mod(5nat, 491nat, 983nat) == 982nat,
{
    let n: nat = 983nat;
    let x: nat = 5nat;
    lemma_power_mod_start(x, n);
    let e0: nat = 0;
    let v0: nat = 1;
    let v1: nat = 5nat;
    let e1: nat = lemma_power_mod_bit(x, n, e0, v0, 1, v1);
    let v2: nat = 125nat;
    let e2: nat = lemma_power_mod_bit(x, n, e1, v1, 1, v2);
    let v3: nat = 468nat;
    let e3: nat = lemma_power_mod_bit(x, n, e2, v2, 1, v3);
    let v4: nat = 58nat;
    let e4: nat = lemma_power_mod_bit(x, n, e3, v3, 1, v4);
    let v5: nat = 415nat;
    let e5: nat = lemma_power_mod_bit(x, n, e4, v4, 0, v5);
    let v6: nat = 17nat;
    let e6: nat = lemma_power_mod_bit(x, n, e5, v5, 1, v6);
    let v7: nat = 289nat;
    let e7: nat = lemma_power_mod_bit(x, n, e6, v6, 0, v7);
    let v8: nat = 813nat;
    let e8: nat = lemma_power_mod_bit(x, n, e7, v7, 1, v8);
    let v9: nat = 982nat;
    let e9: nat = lemma_power_mod_bit(x, n, e8, v8, 1, v9);
}

/// A power modulo 983, one binary digit of the exponent at a time.
proof fn lemma_power_983_2()
    ensures
        power_mod(5nat, 2nat, 983nat) == 25nat,
{
    let n: nat = 983nat;
    let x: nat = 5nat;
    lemma_power_mod_start(x, n);
    let e0: nat = 0;
    let v0: nat = 1;
    let v1: nat = 5nat;
    let e1: nat = lemma_power_mod_bit(x, n, e0, v0, 1, v1);
    let v2: nat = 25nat;
    let e2: nat = lemma_power_mod_bit(x, n, e1, v1, 0, v2);
}

/// A power modulo 983, one binary digit of the exponent at a time.
proof fn lemma_power_983_3()
    ensures
        power_mod(982nat, 2nat, 983nat) == 1nat,
{
    let n: nat = 983nat;
    let x: nat = 982nat;
    lemma_power_mod_start(x, n);
    let e0: nat = 0;
    let v0: nat = 1;
    let v1: nat = 982nat;
    let e1: nat = lemma_power_mod_bit(x, n, e0, v0, 1, v1);
    let v2: nat = 1nat;
    let e2: nat = lemma_power_mod_bit(x, n, e1, v1, 0, v2);
}

/// 983 is prime.
proof fn lemma_prime_983()
    ensures
        is_prime(983nat),
{
    let n: nat = 983nat;
    let g: nat = 5;
    lemma_power_983_0();
    lemma_power_983_1();
    lemma_power_of_power(g, n, 1nat, 5nat, 491nat, 982nat);
    lemma_power_983_2();
    lemma_power_of_power(g, n, 1nat, 5nat, 2nat, 25nat);
    lemma_power_983_3();
    lemma_power_of_power(g, n, 491nat, 982nat, 2nat, 1nat);
    lemma_prime_2();
    lemma_prime_491();
    lemma_witnessed_empty(n, g);
    let s0: Seq<nat> = Seq::empty();
    lemma_witnessed_push(n, g, s0, 2);
    let s1: Seq<nat> = s0.push(2);
    lemma_witnessed_push(n, g, s1, 491);
    let s2: Seq<nat> = s1.push(491);
    lemma_lucas(n, g, s2);
}

/// A power modulo 1637, one binary digit of the exponent at a time.
proof fn lemma_power_1637_0()
    ensures
        power_mod(2nat, 2nat, 1637nat) == 4nat,
{
    let n: nat = 1637nat;
    let x: nat = 2nat;
    lemma_power_mod_start(x, n);
    let e0: nat = 0;
    let v0: nat = 1;
    let v1: nat = 2nat;
    let e1: nat = lemma_power_mod_bit(x, n, e0, v0, 1, v1);
    let v2: nat = 4nat;
    let e2: nat = lemma_power_mod_bit(x, n, e1, v1, 0, v2);
}

/// A power modulo 1637, one binary digit of the exponent at a time.
proof fn lemma_power_1637_1()
    ensures
        power_mod(4nat, 409nat, 1637nat) == 1636nat,
{
    let n: nat = 1637nat;
    let x: nat = 4nat;
    lemma_power_mod_start(x, n);
    let e0: nat = 0;
    let v0: nat = 1;
    let v1: nat = 4nat;
    let e1: nat = lemma_power_mod_bit(x, n, e0, v0, 1, v1);
    let v2: nat = 64nat;
    let e2: nat = lemma_power_mod_bit(x, n, e1, v1, 1, v2);
    let v3: nat = 822nat;
    let e3: nat = lemma_power_mod_bit(x, n, e2, v2, 0, v3);
    let v4: nat = 1240nat;
    let e4: nat = lemma_power_mod_bit(x, n, e3, v3, 0, v4);
    let v5: nat = 191nat;
    let e5: nat = lemma_power_mod_bit(x, n, e4, v4, 1, v5);
    let v6: nat = 231nat;
    let e6: nat = lemma_power_mod_bit(x, n, e5, v5, 1, v6);
    let v7: nat = 977nat;
    let e7: nat = lemma_power_mod_bit(x, n, e6, v6, 0, v7);
    let v8: nat = 158nat;
    let e8: nat = lemma_power_mod_bit(x, n, e7, v7, 0, v8);
    let v9: nat = 1636nat;
    let e9: nat = lemma_power_mod_bit(x, n, e8, v8, 1, v9);
}

/// A power modulo 1637, one binary digit of the exponent at a time.
proof fn lemma_power_1637_2()
    ensures
        power_mod(4nat, 2nat, 1637nat) == 16nat,
{
    let n: nat = 1637nat;
    let x: nat = 4nat;
    lemma_power_mod_start(x, n);
    let e0: nat = 0;
    let v0: nat = 1;
    let v1: nat = 4nat;
    let e1: nat = lemma_power_mod_bit(x, n, e0, v0, 1, v1);
    let v2: nat = 16nat;
    let e2: nat = lemma_power_mod_bit(x, n, e1, v1, 0, v2);
}

/// A power modulo 1637, one binary digit of the exponent at a time.
proof fn lemma_power_1637_3()
    ensures
        power_mod(1636nat, 2nat, 1637nat) == 1nat,
{
    let n: nat = 1637nat;
    let x: nat = 1636nat;
    lemma_power_mod_start(x, n);
    let e0: nat = 0;
    let v0: nat = 1;
    let v1: nat = 1636nat;
    let e1: nat = lemma_power_mod_bit(x, n, e0, v0, 1, v1);
    let v2: nat = 1nat;
    let e2: nat = lemma_power_mod_bit(x, n, e1, v1, 0, v2);
}

/// 1637 is prime.
proof fn lemma_prime_1637()
    ensures
        is_prime(1637nat),
{
    let n: nat = 1637nat;
    let g: nat = 2;
    lemma_power_1637_0();
    lemma_power_1637_1();
    lemma_power_of_power(g, n, 2nat, 4nat, 409nat, 1636nat);
    lemma_power_1637_2();
    lemma_power_of_power(g, n, 2nat, 4nat, 2nat, 16nat);
    lemma_power_1637_3();
    lemma_power_of_power(g, n, 818nat, 1636nat, 2nat, 1nat);
    lemma_prime_2();
    lemma_prime_409();
    lemma_witnessed_empty(n, g);
    let s0: Seq<nat> = Seq::empty();
    lemma_witnessed_push(n, g, s0, 2);
    let s1: Seq<nat> = s0.push(2);
    lemma_witnessed_push(n, g, s1, 2);
    let s2: Seq<nat> = s1.push(2);
    lemma_witnessed_push(n, g, s2, 409);
    let s3: Seq<nat> = s2.push(409);
    lemma_lucas(n, g, s3);
}

/// A power modulo 3691, one binary digit of the exponent at a time.
proof fn lemma_power_3691_0()
    ensures
        power_mod(2nat, 3nat, 3691nat) == 8nat,
{
    let n: nat = 3691nat;
    let x: nat = 2nat;
    lemma_power_mod_start(x, n);
    let e0: nat = 0;
    let v0: nat = 1;
    let v1: nat = 2nat;
    let e1: nat = lemma_power_mod_bit(x, n, e0, v0, 1, v1);
    let v2: nat = 8nat;
    let e2: nat = lemma_power_mod_bit(x, n, e1, v1, 1, v2);
}

/// A power modulo 3691, one binary digit of the exponent at a time.
proof fn lemma_power_3691_1()
    ensures
        power_mod(8nat, 30nat, 3691nat) == 1752nat,
{
    let n: nat = 3691nat;
    let x: nat = 8nat;
    lemma_power_mod_start(x, n);
    let e0: nat = 0;
    let v0: nat = 1;
    let v1: nat = 8nat;
    let e1: nat = lemma_power_mod_bit(x, n, e0, v0, 1, v1);
    let v2: nat = 512nat;
    let e2: nat = lemma_power_mod_bit(x, n, e1, v1, 1, v2);
    let v3: nat = 664nat;
    let e3: nat = lemma_power_mod_bit(x, n, e2, v2, 1, v3);
    let v4: nat = 2263nat;
    let e4: nat = lemma_power_mod_bit(x, n, e3, v3, 1, v4);
    let v5: nat = 1752nat;
    let e5: nat = lemma_power_mod_bit(x, n, e4, v4, 0, v5);
}

/// A power modulo 3691, one binary digit of the exponent at a time.
proof fn lemma_power_3691_2()
    ensures
        power_mod(8nat, 41nat, 3691nat) == 2763nat,
{
    let n: nat = 3691nat;
    let x: nat = 8nat;
    lemma_power_mod_start(x, n);
    let e0: nat = 0;
    let v0: nat = 1;
    let v1: nat = 8nat;
    let e1: nat = lemma_power_mod_bit(x, n, e0, v0, 1, v1);
    let v2: nat = 64nat;
    let e2: nat = lemma_power_mod_bit(x, n, e1, v1, 0, v2);
    let v3: nat = 3240nat;
    let e3: nat = lemma_power_mod_bit(x, n, e2, v2, 1, v3);
    let v4: nat = 396nat;
    let e4: nat = lemma_power_mod_bit(x, n, e3, v3, 0, v4);
    let v5: nat = 1794nat;
    let e5: nat = lemma_power_mod_bit(x, n, e4, v4, 0, v5);
    let v6: nat = 2763nat;
    let e6: nat = lemma_power_mod_bit(x, n, e5, v5, 1, v6);
}

/// A power modulo 3691, one binary digit of the exponent at a time.
proof fn lemma_power_3691_3()
    ensures
        power_mod(2763nat, 6nat, 3691nat) == 643nat,
{
    let n: nat = 3691nat;
    let x: nat = 2763nat;
    lemma_power_mod_start(x, n);
    let e0: nat = 0;
    let v0: nat = 1;
    let v1: nat = 2763nat;
    let e1: nat = lemma_power_mod_bit(x, n, e0, v0, 1, v1);
    let v2: nat = 259nat;
    let e2: nat = lemma_power_mod_bit(x, n, e1, v1, 1, v2);
    let v3: nat = 643nat;
    let e3: nat = lemma_power_mod_bit(x, n, e2, v2, 0, v3);
}

/// A power modulo 3691, one binary digit of the exponent at a time.
proof fn lemma_power_3691_4()
    ensures
        power_mod(2763nat, 5nat, 3691nat) == 3217nat,
{
    let n: nat = 3691nat;
    let x: nat = 2763nat;
    lemma_power_mod_start(x, n);
    let e0: nat = 0;
    let v0: nat = 1;
    let v1: nat = 2763nat;
    let e1: nat = lemma_power_mod_bit(x, n, e0, v0, 1, v1);
    let v2: nat = 1181nat;
    let e2: nat = lemma_power_mod_bit(x, n, e1, v1, 0, v2);
    let v3: nat = 3217nat;
    let e3: nat = lemma_power_mod_bit(x, n, e2, v2, 1, v3);
}

/// A power modulo 3691, one binary digit of the exponent at a time.
proof fn lemma_power_3691_5()
    ensures
        power_mod(3217nat, 3nat, 3691nat) == 3690nat,
{
    let n: nat = 3691nat;
    let x: nat = 3217nat;
    lemma_power_mod_start(x, n);
    let e0: nat = 0;
    let v0: nat = 1;
    let v1: nat = 3217nat;
    let e1: nat = lemma_power_mod_bit(x, n, e0, v0, 1, v1);
    let v2: nat = 3690nat;
    let e2: nat = lemma_power_mod_bit(x, n, e1, v1, 1, v2);
}

/// A power modulo 3691, one binary digit of the exponent at a time.
proof fn lemma_power_3691_6()
    ensures
        power_mod(3217nat, 2nat, 3691nat) == 3216nat,
{
    let n: nat = 3691nat;
    let x: nat = 3217nat;
    lemma_power_mod_start(x, n);
    let e0: nat = 0;
    let v0: nat = 1;
    let v1: nat = 3217nat;
    let e1: nat = lemma_power_mod_bit(x, n, e0, v0, 1, v1);
    let v2: nat = 3216nat;
    let e2: nat = lemma_power_mod_bit(x, n, e1, v1, 0, v2);
}

/// A power modulo 3691, one binary digit of the exponent at a time.
proof fn lemma_power_3691_7()
    ensures
        power_mod(3690nat, 2nat, 3691nat) == 1nat,
{
    let n: nat = 3691nat;
    let x: nat = 3690nat;
    lemma_power_mod_start(x, n);
    let e0: nat = 0;
    let v0: nat = 1;
    let v1: nat = 3690nat;
    let e1: nat = lemma_power_mod_bit(x, n, e0, v0, 1, v1);
    let v2: nat = 1nat;
    let e2: nat = lemma_power_mod_bit(x, n, e1, v1, 0, v2);
}

/// 3691 is prime.
proof fn lemma_prime_3691()
    ensures
        is_prime(3691nat),
{
    let n: nat = 3691nat;
    let g: nat = 2;
    lemma_power_3691_0();
    lemma_power_3691_1();
    lemma_power_of_power(g, n, 3nat, 8nat, 30nat, 1752nat);
    lemma_power_3691_2();
    lemma_power_of_power(g, n, 3nat, 8nat, 41nat, 2763nat);
    lemma_power_3691_3();
    lemma_power_of_power(g, n, 123nat, 2763nat, 6nat, 643nat);
    lemma_power_3691_4();
    lemma_power_of_power(g, n, 123nat, 2763nat, 5nat, 3217nat);
    lemma_power_3691_5();
    lemma_power_of_power(g, n, 615nat, 3217nat, 3nat, 3690nat);
    lemma_power_3691_6();
    lemma_power_of_power(g, n, 615nat, 3217nat, 2nat, 3216nat);
    lemma_power_3691_7();
    lemma_power_of_power(g, n, 1845nat, 3690nat, 2nat, 1nat);
    lemma_prime_2();
    lemma_prime_3();
    lemma_prime_5();
    lemma_prime_41();
    lemma_witnessed_empty(n, g);
    let s0: Seq<nat> = Seq::empty();
    lemma_witnessed_push(n, g, s0, 2);
    let s1: Seq<nat> = s0.push(2);
    lemma_witnessed_push(n, g, s1, 3);
    let s2: Seq<nat> = s1.push(3);
    lemma_witnessed_push(n, g, s2, 3);
    let s3: Seq<nat> = s2.push(3);
    lemma_witnessed_push(n, g, s3, 5);
    let s4: Seq<nat> = s3.push(5);
    lemma_witnessed_push(n, g, s4, 41);
    let s5: Seq<nat> = s4.push(41);
    lemma_lucas(n, g, s5);
}

/// A power modulo 4999, one binary digit of the exponent at a time.
proof fn lemma_power_4999_0()
    ensures
        power_mod(3nat, 7nat, 4999nat) == 2187nat,
{
    let n: nat = 4999nat;
    let x: nat = 3nat;
    lemma_power_mod_start(x, n);
    let e0: nat = 0;
    let v0: nat = 1;
    let v1: nat = 3nat;
    let e1: nat = lemma_power_mod_bit(x, n, e0, v0, 1, v1);
    let v2: nat = 27nat;
    let e2: nat = lemma_power_mod_bit(x, n, e1, v1, 1, v2);
    let v3: nat = 2187nat;
    let e3: nat = lemma_power_mod_bit(x, n, e2, v2, 1, v3);
}

/// A power modulo 4999, one binary digit of the exponent at a time.
proof fn lemma_power_4999_1()
    ensures
        power_mod(2187nat, 42nat, 4999nat) == 2420nat,
{
    let n: nat = 4999nat;
    let x: nat = 2187nat;
    lemma_power_mod_start(x, n);
    let e0: nat = 0;
    let v0: nat = 1;
    let v1: nat = 2187nat;
    let e1: nat = lemma_power_mod_bit(x, n, e0, v0, 1, v1);
    let v2: nat = 3925nat;
    let e2: nat = lemma_power_mod_bit(x, n, e1, v1, 0, v2);
    let v3: nat = 1643nat;
    let e3: nat = lemma_power_mod_bit(x, n, e2, v2, 1, v3);
    let v4: nat = 4988nat;
    let e4: nat = lemma_power_mod_bit(x, n, e3, v3, 0, v4);
    let v5: nat = 4679nat;
    let e5: nat = lemma_power_mod_bit(x, n, e4, v4, 1, v5);
    let v6: nat = 2420nat;
    let e6: nat = lemma_power_mod_bit(x, n, e5, v5, 0, v6);
}

/// A power modulo 4999, one binary digit of the exponent at a time.
proof fn lemma_power_4999_2()
    ensures
        power_mod(2187nat, 17nat, 4999nat) == 4284nat,
{
    let n: nat = 4999nat;
    let x: nat = 2187nat;
    lemma_power_mod_start(x, n);
    let e0: nat = 0;
    let v0: nat = 1;
    let v1: nat = 2187nat;
    let e1: nat = lemma_power_mod_bit(x, n, e0, v0, 1, v1);
    let v2: nat = 3925nat;
    let e2: nat = lemma_power_mod_bit(x, n, e1, v1, 0, v2);
    let v3: nat = 3706nat;
    let e3: nat = lemma_power_mod_bit(x, n, e2, v2, 0, v3);
    let v4: nat = 2183nat;
    let e4: nat = lemma_power_mod_bit(x, n, e3, v3, 0, v4);
    let v5: nat = 4284nat;
    let e5: nat = lemma_power_mod_bit(x, n, e4, v4, 1, v5);
}

/// A power modulo 4999, one binary digit of the exponent at a time.
proof fn lemma_power_4999_3()
    ensures
        power_mod(4284nat, 6nat, 4999nat) == 227nat,
{
    let n: nat = 4999nat;
    let x: nat = 4284nat;
    lemma_power_mod_start(x, n);
    let e0: nat = 0;
    let v0: nat = 1;
    let v1: nat = 4284nat;
    let e1: nat = lemma_power_mod_bit(x, n, e0, v0, 1, v1);
    let v2: nat = 1005nat;
    let e2: nat = lemma_power_mod_bit(x, n, e1, v1, 1, v2);
    let v3: nat = 227nat;
    let e3: nat = lemma_power_mod_bit(x, n, e2, v2, 0, v3);
}

/// A power modulo 4999, one binary digit of the exponent at a time.
proof fn lemma_power_4999_4()
    ensures
        power_mod(4284nat, 7nat, 4999nat) == 2662nat,
{
    let n: nat = 4999nat;
    let x: nat = 4284nat;
    lemma_power_mod_start(x, n);
    let e0: nat = 0;
    let v0: nat = 1;
    let v1: nat = 4284nat;
    let e1: nat = lemma_power_mod_bit(x, n, e0, v0, 1, v1);
    let v2: nat = 1005nat;
    let e2: nat = lemma_power_mod_bit(x, n, e1, v1, 1, v2);
    let v3: nat = 2662nat;
    let e3: nat = lemma_power_mod_bit(x, n, e2, v2, 1, v3);
}

/// A power modulo 4999, one binary digit of the exponent at a time.
proof fn lemma_power_4999_5()
    ensures
        power_mod(2662nat, 3nat, 4999nat) == 4998nat,
{
    let n: nat = 4999nat;
    let x: nat = 2662nat;
    lemma_power_mod_start(x, n);
    let e0: nat = 0;
    let v0: nat = 1;
    let v1: nat = 2662nat;
    let e1: nat = lemma_power_mod_bit(x, n, e0, v0, 1, v1);
    let v2: nat = 4998nat;
    let e2: nat = lemma_power_mod_bit(x, n, e1, v1, 1, v2);
}

/// A power modulo 4999, one binary digit of the exponent at a time.
proof fn lemma_power_4999_6()
    ensures
        power_mod(2662nat, 2nat, 4999nat) == 2661nat,
{
    let n: nat = 4999nat;
    let x: nat = 2662nat;
    lemma_power_mod_start(x, n);
    let e0: nat = 0;
    let v0: nat = 1;
    let v1: nat = 2662nat;
    let e1: nat = lemma_power_mod_bit(x, n, e0, v0, 1, v1);
    let v2: nat = 2661nat;
    let e2: nat = lemma_power_mod_bit(x, n, e1, v1, 0, v2);
}

/// A power modulo 4999, one binary digit of the exponent at a time.
proof fn lemma_power_4999_7()
    ensures
        power_mod(4998nat, 2nat, 4999nat) == 1nat,
{
    let n: nat = 4999nat;
    let x: nat = 4998nat;
    lemma_power_mod_start(x, n);
    let e0: nat = 0;
    let v0: nat = 1;
    let v1: nat = 4998nat;
    let e1: nat = lemma_power_mod_bit(x, n, e0, v0, 1, v1);
    let v2: nat = 1nat;
    let e2: nat = lemma_power_mod_bit(x, n, e1, v1, 0, v2);
}

/// 4999 is prime.
proof fn lemma_prime_4999()
    ensures
        is_prime(4999nat),
{
    let n: nat = 4999nat;
    let g: nat = 3;
    lemma_power_4999_0();
    lemma_power_4999_1();
    lemma_power_of_power(g, n, 7nat, 2187nat, 42nat, 2420nat);
    lemma_power_4999_2();
    lemma_power_of_power(g, n, 7nat, 2187nat, 17nat, 4284nat);
    lemma_power_4999_3();
    lemma_power_of_power(g, n, 119nat, 4284nat, 6nat, 227nat);
    lemma_power_4999_4();
    lemma_power_of_power(g, n, 119nat, 4284nat, 7nat, 2662nat);
    lemma_power_4999_5();
    lemma_power_of_power(g, n, 833nat, 2662nat, 3nat, 4998nat);
    lemma_power_4999_6();
    lemma_power_of_power(g, n, 833nat, 2662nat, 2nat, 2661nat);
    lemma_power_4999_7();
    lemma_power_of_power(g, n, 2499nat, 4998nat, 2nat, 1nat);
    lemma_prime_2();
    lemma_prime_3();
    lemma_prime_7();
    lemma_prime_17();
    lemma_witnessed_empty(n, g);
    let s0: Seq<nat> = Seq::empty();
    lemma_witnessed_push(n, g, s0, 2);
    let s1: Seq<nat> = s0.push(2);
    lemma_witnessed_push(n, g, s1, 3);
    let s2: Seq<nat> = s1.push(3);
    lemma_witnessed_push(n, g, s2, 7);
    let s3: Seq<nat> = s2.push(7);
    lemma_witnessed_push(n, g, s3, 7);
    let s4: Seq<nat> = s3.push(7);
    lemma_witnessed_push(n, g, s4, 17);
    let s5: Seq<nat> = s4.push(17);
    lemma_lucas(n, g, s5);
}

/// A power modulo 5501, one binary digit of the exponent at a time.
proof fn lemma_power_5501_0()
    ensures
        power_mod(2nat, 50nat, 5501nat) == 4219nat,
{
    let n: nat = 5501nat;
    let x: nat = 2nat;
    lemma_power_mod_start(x, n);
    let e0: nat = 0;
    let v0: nat = 1;
    let v1: nat = 2nat;
    let e1: nat = lemma_power_mod_bit(x, n, e0, v0, 1, v1);
    let v2: nat = 8nat;
    let e2: nat = lemma_power_mod_bit(x, n, e1, v1, 1, v2);
    let v3: nat = 64nat;
    let e3: nat = lemma_power_mod_bit(x, n, e2, v2, 0, v3);
    let v4: nat = 4096nat;
    let e4: nat = lemma_power_mod_bit(x, n, e3, v3, 0, v4);
    let v5: nat = 3833nat;
    let e5: nat = lemma_power_mod_bit(x, n, e4, v4, 1, v5);
    let v6: nat = 4219nat;
    let e6: nat = lemma_power_mod_bit(x, n, e5, v5, 0, v6);
}

/// A power modulo 5501, one binary digit of the exponent at a time.
proof fn lemma_power_5501_1()
    ensures
        power_mod(4219nat, 10nat, 5501nat) == 4772nat,
{
    let n: nat = 5501nat;
    let x: nat = 4219nat;
    lemma_power_mod_start(x, n);
    let e0: nat = 0;
    let v0: nat = 1;
    let v1: nat = 4219nat;
    let e1: nat = lemma_power_mod_bit(x, n, e0, v0, 1, v1);
    let v2: nat = 4226nat;
    let e2: nat = lemma_power_mod_bit(x, n, e1, v1, 0, v2);
    let v3: nat = 2600nat;
    let e3: nat = lemma_power_mod_bit(x, n, e2, v2, 1, v3);
    let v4: nat = 4772nat;
    let e4: nat = lemma_power_mod_bit(x, n, e3, v3, 0, v4);
}

/// A power modulo 5501, one binary digit of the exponent at a time.
proof fn lemma_power_5501_2()
    ensures
        power_mod(4219nat, 11nat, 5501nat) == 4909nat,
{
    let n: nat = 5501nat;
    let x: nat = 4219nat;
    lemma_power_mod_start(x, n);
    let e0: nat = 0;
    let v0: nat = 1;
    let v1: nat = 4219nat;
    let e1: nat = lemma_power_mod_bit(x, n, e0, v0, 1, v1);
    let v2: nat = 4226nat;
    let e2: nat = lemma_power_mod_bit(x, n, e1, v1, 0, v2);
    let v3: nat = 2600nat;
    let e3: nat = lemma_power_mod_bit(x, n, e2, v2, 1, v3);
    let v4: nat = 4909nat;
    let e4: nat = lemma_power_mod_bit(x, n, e3, v3, 1, v4);
}

/// A power modulo 5501, one binary digit of the exponent at a time.
proof fn lemma_power_5501_3()
    ensures
        power_mod(4909nat, 5nat, 5501nat) == 5500nat,
{
    let n: nat = 5501nat;
    let x: nat = 4909nat;
    lemma_power_mod_start(x, n);
    let e0: nat = 0;
    let v0: nat = 1;
    let v1: nat = 4909nat;
    let e1: nat = lemma_power_mod_bit(x, n, e0, v0, 1, v1);
    let v2: nat = 3901nat;
    let e2: nat = lemma_power_mod_bit(x, n, e1, v1, 0, v2);
    let v3: nat = 5500nat;
    let e3: nat = lemma_power_mod_bit(x, n, e2, v2, 1, v3);
}

/// A power modulo 5501, one binary digit of the exponent at a time.
proof fn lemma_power_5501_4()
    ensures
        power_mod(4909nat, 2nat, 5501nat) == 3901nat,
{
    let n: nat = 5501nat;
    let x: nat = 4909nat;
    lemma_power_mod_start(x, n);
    let e0: nat = 0;
    let v0: nat = 1;
    let v1: nat = 4909nat;
    let e1: nat = lemma_power_mod_bit(x, n, e0, v0, 1, v1);
    let v2: nat = 3901nat;
    let e2: nat = lemma_power_mod_bit(x, n, e1, v1, 0, v2);
}

/// A power modulo 5501, one binary digit of the exponent at a time.
proof fn lemma_power_5501_5()
    ensures
        power_mod(5500nat, 2nat, 5501nat) == 1nat,
{
    let n: nat = 5501nat;
    let x: nat = 5500nat;
    lemma_power_mod_start(x, n);
    let e0: nat = 0;
    let v0: nat = 1;
    let v1: nat = 5500nat;
    let e1: nat = lemma_power_mod_bit(x, n, e0, v0, 1, v1);
    let v2: nat = 1nat;
    let e2: nat = lemma_power_mod_bit(x, n, e1, v1, 0, v2);
}

/// 5501 is prime.
proof fn lemma_prime_5501()
    ensures
        is_prime(5501nat),
{
    let n: nat = 5501nat;
    let g: nat = 2;
    lemma_power_5501_0();
    lemma_power_5501_1();
    lemma_power_of_power(g, n, 50nat, 4219nat, 10nat, 4772nat);
    lemma_power_5501_2();
    lemma_power_of_power(g, n, 50nat, 4219nat, 11nat, 4909nat);
    lemma_power_5501_3();
    lemma_power_of_power(g, n, 550nat, 4909nat, 5nat, 5500nat);
    lemma_power_5501_4();
    lemma_power_of_power(g, n, 550nat, 4909nat, 2nat, 3901nat);
    lemma_power_5501_5();
    lemma_power_of_power(g, n, 2750nat, 5500nat, 2nat, 1nat);
    lemma_prime_2();
    lemma_prime_5();
    lemma_prime_11();
    lemma_witnessed_empty(n, g);
    let s0: Seq<nat> = Seq::empty();
    lemma_witnessed_push(n, g, s0, 2);
    let s1: Seq<nat> = s0.push(2);
    lemma_witnessed_push(n, g, s1, 2);
    let s2: Seq<nat> = s1.push(2);
    lemma_witnessed_push(n, g, s2, 5);
    let s3: Seq<nat> = s2.push(5);
    lemma_witnessed_push(n, g, s3, 5);
    let s4: Seq<nat> = s3.push(5);
    lemma_witnessed_push(n, g, s4, 5);
    let s5: Seq<nat> = s4.push(5);
    lemma_witnessed_push(n, g, s5, 11);
    let s6: Seq<nat> = s5.push(11);
    lemma_lucas(n, g, s6);
}

/// A power modulo 11003, one binary digit of the exponent at a time.
proof fn lemma_power_11003_0()
    ensures
        power_mod(2nat, 1nat, 11003nat) == 2nat,
{
    let n: nat = 11003nat;
    let x: nat = 2nat;
    lemma_power_mod_start(x, n);
    let e0: nat = 0;
    let v0: nat = 1;
    let v1: nat = 2nat;
    let e1: nat = lemma_power_mod_bit(x, n, e0, v0, 1, v1);
}

/// A power modulo 11003, one binary digit of the exponent at a time.
proof fn lemma_power_11003_1()
    ensures
        power_mod(2nat, 5501nat, 11003nat) == 11002nat,
{
    let n: nat = 11003nat;
    let x: nat = 2nat;
    lemma_power_mod_start(x, n);
    let e0: nat = 0;
    let v0: nat = 1;
    let v1: nat = 2nat;
    let e1: nat = lemma_power_mod_bit(x, n, e0, v0, 1, v1);
    let v2: nat = 4nat;
    let e2: nat = lemma_power_mod_bit(x, n, e1, v1, 0, v2);
    let v3: nat = 32nat;
    let e3: nat = lemma_power_mod_bit(x, n, e2, v2, 1, v3);
    let v4: nat = 1024nat;
    let e4: nat = lemma_power_mod_bit(x, n, e3, v3, 0, v4);
    let v5: nat = 6582nat;
    let e5: nat = lemma_power_mod_bit(x, n, e4, v4, 1, v5);
    let v6: nat = 3913nat;
    let e6: nat = lemma_power_mod_bit(x, n, e5, v5, 0, v6);
    let v7: nat = 1789nat;
    let e7: nat = lemma_power_mod_bit(x, n, e6, v6, 1, v7);
    let v8: nat = 8299nat;
    let e8: nat = lemma_power_mod_bit(x, n, e7, v7, 1, v8);
    let v9: nat = 245nat;
    let e9: nat = lemma_power_mod_bit(x, n, e8, v8, 1, v9);
    let v10: nat = 10020nat;
    let e10: nat = lemma_power_mod_bit(x, n, e9, v9, 1, v10);
    let v11: nat = 7053nat;
    let e11: nat = lemma_power_mod_bit(x, n, e10, v10, 1, v11);
    let v12: nat = 246nat;
    let e12: nat = lemma_power_mod_bit(x, n, e11, v11, 0, v12);
    let v13: nat = 11002nat;
    let e13: nat = lemma_power_mod_bit(x, n, e12, v12, 1, v13);
}

/// A power modulo 11003, one binary digit of the exponent at a time.
proof fn lemma_power_11003_2()
    ensures
        power_mod(2nat, 2nat, 11003nat) == 4nat,
{
    let n: nat = 11003nat;
    let x: nat = 2nat;
    lemma_power_mod_start(x, n);
    let e0: nat = 0;
    let v0: nat = 1;
    let v1: nat = 2nat;
    let e1: nat = lemma_power_mod_bit(x, n, e0, v0, 1, v1);
    let v2: nat = 4nat;
    let e2: nat = lemma_power_mod_bit(x, n, e1, v1, 0, v2);
}

/// A power modulo 11003, one binary digit of the exponent at a time.
proof fn lemma_power_11003_3()
    ensures
        power_mod(11002nat, 2nat, 11003nat) == 1nat,
{
    let n: nat = 11003nat;
    let x: nat = 11002nat;
    lemma_power_mod_start(x, n);
    let e0: nat = 0;
    let v0: nat = 1;
    let v1: nat = 11002nat;
    let e1: nat = lemma_power_mod_bit(x, n, e0, v0, 1, v1);
    let v2: nat = 1nat;
    let e2: nat = lemma_power_mod_bit(x, n, e1, v1, 0, v2);
}

/// 11003 is prime.
proof fn lemma_prime_11003()
    ensures
        is_prime(11003nat),
{
    let n: nat = 11003nat;
    let g: nat = 2;
    lemma_power_11003_0();
    lemma_power_11003_1();
    lemma_power_of_power(g, n, 1nat, 2nat, 5501nat, 11002nat);
    lemma_power_11003_2();
    lemma_power_of_power(g, n, 1nat, 2nat, 2nat, 4nat);
    lemma_power_11003_3();
    lemma_power_of_power(g, n, 5501nat, 11002nat, 2nat, 1nat);
    lemma_prime_2();
    lemma_prime_5501();
    lemma_witnessed_empty(n, g);
    let s0: Seq<nat> = Seq::empty();
    lemma_witnessed_push(n, g, s0, 2);
    let s1: Seq<nat> = s0.push(2);
    lemma_witnessed_push(n, g, s1, 5501);
    let s2: Seq<nat> = s1.push(5501);
    lemma_lucas(n, g, s2);
}

/// A power modulo 20963, one binary digit of the exponent at a time.
proof fn lemma_power_20963_0()
    ensures
        power_mod(2nat, 1nat, 20963nat) == 2nat,
{
    let n: nat = 20963nat;
    let x: nat = 2nat;
    lemma_power_mod_start(x, n);
    let e0: nat = 0;
    let v0: nat = 1;
    let v1: nat = 2nat;
    let e1: nat = lemma_power_mod_bit(x, n, e0, v0, 1, v1);
}

/// A power modulo 20963, one binary digit of the exponent at a time.
proof fn lemma_power_20963_1()
    ensures
        power_mod(2nat, 94nat, 20963nat) == 12288nat,
{
    let n: nat = 20963nat;
    let x: nat = 2nat;
    lemma_power_mod_start(x, n);
    let e0: nat = 0;
    let v0: nat = 1;
    let v1: nat = 2nat;
    let e1: nat = lemma_power_mod_bit(x, n, e0, v0, 1, v1);
    let v2: nat = 4nat;
    let e2: nat = lemma_power_mod_bit(x, n, e1, v1, 0, v2);
    let v3: nat = 32nat;
    let e3: nat = lemma_power_mod_bit(x, n, e2, v2, 1, v3);
    let v4: nat = 2048nat;
    let e4: nat = lemma_power_mod_bit(x, n, e3, v3, 1, v4);
    let v5: nat = 3408nat;
    let e5: nat = lemma_power_mod_bit(x, n, e4, v4, 1, v5);
    let v6: nat = 1924nat;
    let e6: nat = lemma_power_mod_bit(x, n, e5, v5, 1, v6);
    let v7: nat = 12288nat;
    let e7: nat = lemma_power_mod_bit(x, n, e6, v6, 0, v7);
}

/// A power modulo 20963, one binary digit of the exponent at a time.
proof fn lemma_power_20963_2()
    ensures
        power_mod(2nat, 223nat, 20963nat) == 8507nat,
{
    let n: nat = 20963nat;
    let x: nat = 2nat;
    lemma_power_mod_start(x, n);
    let e0: nat = 0;
    let v0: nat = 1;
    let v1: nat = 2nat;
    let e1: nat = lemma_power_mod_bit(x, n, e0, v0, 1, v1);
    let v2: nat = 8nat;
    let e2: nat = lemma_power_mod_bit(x, n, e1, v1, 1, v2);
    let v3: nat = 64nat;
    let e3: nat = lemma_power_mod_bit(x, n, e2, v2, 0, v3);
    let v4: nat = 8192nat;
    let e4: nat = lemma_power_mod_bit(x, n, e3, v3, 1, v4);
    let v5: nat = 12602nat;
    let e5: nat = lemma_power_mod_bit(x, n, e4, v4, 1, v5);
    let v6: nat = 10395nat;
    let e6: nat = lemma_power_mod_bit(x, n, e5, v5, 1, v6);
    let v7: nat = 4483nat;
    let e7: nat = lemma_power_mod_bit(x, n, e6, v6, 1, v7);
    let v8: nat = 8507nat;
    let e8: nat = lemma_power_mod_bit(x, n, e7, v7, 1, v8);
}

/// A power modulo 20963, one binary digit of the exponent at a time.
proof fn lemma_power_20963_3()
    ensures
        power_mod(8507nat, 47nat, 20963nat) == 20962nat,
{
    let n: nat = 20963nat;
    let x: nat = 8507nat;
    lemma_power_mod_start(x, n);
    let e0: nat = 0;
    let v0: nat = 1;
    let v1: nat = 8507nat;
    let e1: nat = lemma_power_mod_bit(x, n, e0, v0, 1, v1);
    let v2: nat = 4773nat;
    let e2: nat = lemma_power_mod_bit(x, n, e1, v1, 0, v2);
    let v3: nat = 14352nat;
    let e3: nat = lemma_power_mod_bit(x, n, e2, v2, 1, v3);
    let v4: nat = 14189nat;
    let e4: nat = lemma_power_mod_bit(x, n, e3, v3, 1, v4);
    let v5: nat = 3997nat;
    let e5: nat = lemma_power_mod_bit(x, n, e4, v4, 1, v5);
    let v6: nat = 20962nat;
    let e6: nat = lemma_power_mod_bit(x, n, e5, v5, 1, v6);
}

/// A power modulo 20963, one binary digit of the exponent at a time.
proof fn lemma_power_20963_4()
    ensures
        power_mod(8507nat, 2nat, 20963nat) == 4773nat,
{
    let n: nat = 20963nat;
    let x: nat = 8507nat;
    lemma_power_mod_start(x, n);
    let e0: nat = 0;
    let v0: nat = 1;
    let v1: nat = 8507nat;
    let e1: nat = lemma_power_mod_bit(x, n, e0, v0, 1, v1);
    let v2: nat = 4773nat;
    let e2: nat = lemma_power_mod_bit(x, n, e1, v1, 0, v2);
}

/// A power modulo 20963, one binary digit of the exponent at a time.
proof fn lemma_power_20963_5()
    ensures
        power_mod(20962nat, 2nat, 20963nat) == 1nat,
{
    let n: nat = 20963nat;
    let x: nat = 20962nat;
    lemma_power_mod_start(x, n);
    let e0: nat = 0;
    let v0: nat = 1;
    let v1: nat = 20962nat;
    let e1: nat = lemma_power_mod_bit(x, n, e0, v0, 1, v1);
    let v2: nat = 1nat;
    let e2: nat = lemma_power_mod_bit(x, n, e1, v1, 0, v2);
}

/// 20963 is prime.
proof fn lemma_prime_20963()
    ensures
        is_prime(20963nat),
{
    let n: nat = 20963nat;
    let g: nat = 2;
    lemma_power_20963_0();
    lemma_power_20963_1();
    lemma_power_of_power(g, n, 1nat, 2nat, 94nat, 12288nat);
    lemma_power_20963_2();
    lemma_power_of_power(g, n, 1nat, 2nat, 223nat, 8507nat);
    lemma_power_20963_3();
    lemma_power_of_power(g, n, 223nat, 8507nat, 47nat, 20962nat);
    lemma_power_20963_4();
    lemma_power_of_power(g, n, 223nat, 8507nat, 2nat, 4773nat);
    lemma_power_20963_5();
    lemma_power_of_power(g, n, 10481nat, 20962nat, 2nat, 1nat);
    lemma_prime_2();
    lemma_prime_47();
    lemma_prime_223();
    lemma_witnessed_empty(n, g);
    let s0: Seq<nat> = Seq::empty();
    lemma_witnessed_push(n, g, s0, 2);
    let s1: Seq<nat> = s0.push(2);
    lemma_witnessed_push(n, g, s1, 47);
    let s2: Seq<nat> = s1.push(47);
    lemma_witnessed_push(n, g, s2, 223);
    let s3: Seq<nat> = s2.push(223);
    lemma_lucas(n, g, s3);
}

/// A power modulo 41927, one binary digit of the exponent at a time.
proof fn lemma_power_41927_0()
    ensures
        power_mod(5nat, 1nat, 41927nat) == 5nat,
{
    let n: nat = 41927nat;
    let x: nat = 5nat;
    lemma_power_mod_start(x, n);
    let e0: nat = 0;
    let v0: nat = 1;
    let v1: nat = 5nat;
    let e1: nat = lemma_power_mod_bit(x, n, e0, v0, 1, v1);
}

/// A power modulo 41927, one binary digit of the exponent at a time.
proof fn lemma_power_41927_1()
    ensures
        power_mod(5nat, 20963nat, 41927nat) == 41926nat,
{
    let n: nat = 41927nat;
    let x: nat = 5nat;
    lemma_power_mod_start(x, n);
    let e0: nat = 0;
    let v0: nat = 1;
    let v1: nat = 5nat;
    let e1: nat = lemma_power_mod_bit(x, n, e0, v0, 1, v1);
    let v2: nat = 25nat;
    let e2: nat = lemma_power_mod_bit(x, n, e1, v1, 0, v2);
    let v3: nat = 3125nat;
    let e3: nat = lemma_power_mod_bit(x, n, e2, v2, 1, v3);
    let v4: nat = 38561nat;
    let e4: nat = lemma_power_mod_bit(x, n, e3, v3, 0, v4);
    let v5: nat = 9666nat;
    let e5: nat = lemma_power_mod_bit(x, n, e4, v4, 0, v5);
    let v6: nat = 18200nat;
    let e6: nat = lemma_power_mod_bit(x, n, e5, v5, 0, v6);
    let v7: nat = 41573nat;
    let e7: nat = lemma_power_mod_bit(x, n, e6, v6, 1, v7);
    let v8: nat = 39602nat;
    let e8: nat = lemma_power_mod_bit(x, n, e7, v7, 1, v8);
    let v9: nat = 27137nat;
    let e9: nat = lemma_power_mod_bit(x, n, e8, v8, 1, v9);
    let v10: nat = 12778nat;
    let e10: nat = lemma_power_mod_bit(x, n, e9, v9, 1, v10);
    let v11: nat = 13546nat;
    let e11: nat = lemma_power_mod_bit(x, n, e10, v10, 0, v11);
    let v12: nat = 21564nat;
    let e12: nat = lemma_power_mod_bit(x, n, e11, v11, 0, v12);
    let v13: nat = 35666nat;
    let e13: nat = lemma_power_mod_bit(x, n, e12, v12, 0, v13);
    let v14: nat = 33807nat;
    let e14: nat = lemma_power_mod_bit(x, n, e13, v13, 1, v14);
    let v15: nat = 41926nat;
    let e15: nat = lemma_power_mod_bit(x, n, e14, v14, 1, v15);
}

/// A power modulo 41927, one binary digit of the exponent at a time.
proof fn lemma_power_41927_2()
    ensures
        power_mod(5nat, 2nat, 41927nat) == 25nat,
{
    let n: nat = 41927nat;
    let x: nat = 5nat;
    lemma_power_mod_start(x, n);
    let e0: nat = 0;
    let v0: nat = 1;
    let v1: nat = 5nat;
    let e1: nat = lemma_power_mod_bit(x, n, e0, v0, 1, v1);
    let v2: nat = 25nat;
    let e2: nat = lemma_power_mod_bit(x, n, e1, v1, 0, v2);
}

/// A power modulo 41927, one binary digit of the exponent at a time.
proof fn lemma_power_41927_3()
    ensures
        power_mod(41926nat, 2nat, 41927nat) == 1nat,
{
    let n: nat = 41927nat;
    let x: nat = 41926nat;
    lemma_power_mod_start(x, n);
    let e0: nat = 0;
    let v0: nat = 1;
    let v1: nat = 41926nat;
    let e1: nat = lemma_power_mod_bit(x, n, e0, v0, 1, v1);
    let v2: nat = 1nat;
    let e2: nat = lemma_power_mod_bit(x, n, e1, v1, 0, v2);
}

/// 41927 is prime.
proof fn lemma_prime_41927()
    ensures
        is_prime(41927nat),
{
    let n: nat = 41927nat;
    let g: nat = 5;
    lemma_power_41927_0();
    lemma_power_41927_1();
    lemma_power_of_power(g, n, 1nat, 5nat, 20963nat, 41926nat);
    lemma_power_41927_2();
    lemma_power_of_power(g, n, 1nat, 5nat, 2nat, 25nat);
    lemma_power_41927_3();
    lemma_power_of_power(g, n, 20963nat, 41926nat, 2nat, 1nat);
    lemma_prime_2();
    lemma_prime_20963();
    lemma_witnessed_empty(n, g);
    let s0: Seq<nat> = Seq::empty();
    lemma_witnessed_push(n, g, s0, 2);
    let s1: Seq<nat> = s0.push(2);
    lemma_witnessed_push(n, g, s1, 20963);
    let s2: Seq<nat> = s1.push(20963);
    lemma_lucas(n, g, s2);
}

/// A power modulo 93001, one binary digit of the exponent at a time.
proof fn lemma_power_93001_0()
    ensures
        power_mod(14nat, 100nat, 93001nat) == 63405nat,
{
    let n: nat = 93001nat;
    let x: nat = 14nat;
    lemma_power_mod_start(x, n);
    let e0: nat = 0;
    let v0: nat = 1;
    let v1: nat = 14nat;
    let e1: nat = lemma_power_mod_bit(x, n, e0, v0, 1, v1);
    let v2: nat = 2744nat;
    let e2: nat = lemma_power_mod_bit(x, n, e1, v1, 1, v2);
    let v3: nat = 89456nat;
    let e3: nat = lemma_power_mod_bit(x, n, e2, v2, 0, v3);
    let v4: nat = 11890nat;
    let e4: nat = lemma_power_mod_bit(x, n, e3, v3, 0, v4);
    let v5: nat = 55119nat;
    let e5: nat = lemma_power_mod_bit(x, n, e4, v4, 1, v5);
    let v6: nat = 40494nat;
    let e6: nat = lemma_power_mod_bit(x, n, e5, v5, 0, v6);
    let v7: nat = 63405nat;
    let e7: nat = lemma_power_mod_bit(x, n, e6, v6, 0, v7);
}

/// A power modulo 93001, one binary digit of the exponent at a time.
proof fn lemma_power_93001_1()
    ensures
        power_mod(63405nat, 30nat, 93001nat) == 61219nat,
{
    let n: nat = 93001nat;
    let x: nat = 63405nat;
    lemma_power_mod_start(x, n);
    let e0: nat = 0;
    let v0: nat = 1;
    let v1: nat = 63405nat;
    let e1: nat = lemma_power_mod_bit(x, n, e0, v0, 1, v1);
    let v2: nat = 89058nat;
    let e2: nat = lemma_power_mod_bit(x, n, e1, v1, 1, v2);
    let v3: nat = 16246nat;
    let e3: nat = lemma_power_mod_bit(x, n, e2, v2, 1, v3);
    let v4: nat = 37537nat;
    let e4: nat = lemma_power_mod_bit(x, n, e3, v3, 1, v4);
    let v5: nat = 61219nat;
    let e5: nat = lemma_power_mod_bit(x, n, e4, v4, 0, v5);
}

/// A power modulo 93001, one binary digit of the exponent at a time.
proof fn lemma_power_93001_2()
    ensures
        power_mod(63405nat, 31nat, 93001nat) == 7958nat,
{
    let n: nat = 93001nat;
    let x: nat = 63405nat;
    lemma_power_mod_start(x, n);
    let e0: nat = 0;
    let v0: nat = 1;
    let v1: nat = 63405nat;
    let e1: nat = lemma_power_mod_bit(x, n, e0, v0, 1, v1);
    let v2: nat = 89058nat;
    let e2: nat = lemma_power_mod_bit(x, n, e1, v1, 1, v2);
    let v3: nat = 16246nat;
    let e3: nat = lemma_power_mod_bit(x, n, e2, v2, 1, v3);
    let v4: nat = 37537nat;
    let e4: nat = lemma_power_mod_bit(x, n, e3, v3, 1, v4);
    let v5: nat = 7958nat;
    let e5: nat = lemma_power_mod_bit(x, n, e4, v4, 1, v5);
}

/// A power modulo 93001, one binary digit of the exponent at a time.
proof fn lemma_power_93001_3()
    ensures
        power_mod(7958nat, 6nat, 93001nat) == 79997nat,
{
    let n: nat = 93001nat;
    let x: nat = 7958nat;
    lemma_power_mod_start(x, n);
    let e0: nat = 0;
    let v0: nat = 1;
    let v1: nat = 7958nat;
    let e1: nat = lemma_power_mod_bit(x, n, e0, v0, 1, v1);
    let v2: nat = 76850nat;
    let e2: nat = lemma_power_mod_bit(x, n, e1, v1, 1, v2);
    let v3: nat = 79997nat;
    let e3: nat = lemma_power_mod_bit(x, n, e2, v2, 0, v3);
}

/// A power modulo 93001, one binary digit of the exponent at a time.
proof fn lemma_power_93001_4()
    ensures
        power_mod(7958nat, 5nat, 93001nat) == 22787nat,
{
    let n: nat = 93001nat;
    let x: nat = 7958nat;
    lemma_power_mod_start(x, n);
    let e0: nat = 0;
    let v0: nat = 1;
    let v1: nat = 7958nat;
    let e1: nat = lemma_power_mod_bit(x, n, e0, v0, 1, v1);
    let v2: nat = 89084nat;
    let e2: nat = lemma_power_mod_bit(x, n, e1, v1, 0, v2);
    let v3: nat = 22787nat;
    let e3: nat = lemma_power_mod_bit(x, n, e2, v2, 1, v3);
}

/// A power modulo 93001, one binary digit of the exponent at a time.
proof fn lemma_power_93001_5()
    ensures
        power_mod(22787nat, 3nat, 93001nat) == 93000nat,
{
    let n: nat = 93001nat;
    let x: nat = 22787nat;
    lemma_power_mod_start(x, n);
    let e0: nat = 0;
    let v0: nat = 1;
    let v1: nat = 22787nat;
    let e1: nat = lemma_power_mod_bit(x, n, e0, v0, 1, v1);
    let v2: nat = 93000nat;
    let e2: nat = lemma_power_mod_bit(x, n, e1, v1, 1, v2);
}

/// A power modulo 93001, one binary digit of the exponent at a time.
proof fn lemma_power_93001_6()
    ensures
        power_mod(22787nat, 2nat, 93001nat) == 22786nat,
{
    let n: nat = 93001nat;
    let x: nat = 22787nat;
    lemma_power_mod_start(x, n);
    let e0: nat = 0;
    let v0: nat = 1;
    let v1: nat = 22787nat;
    let e1: nat = lemma_power_mod_bit(x, n, e0, v0, 1, v1);
    let v2: nat = 22786nat;
    let e2: nat = lemma_power_mod_bit(x, n, e1, v1, 0, v2);
}

/// A power modulo 93001, one binary digit of the exponent at a time.
proof fn lemma_power_93001_7()
    ensures
        power_mod(93000nat, 2nat, 93001nat) == 1nat,
{
    let n: nat = 93001nat;
    let x: nat = 93000nat;
    lemma_power_mod_start(x, n);
    let e0: nat = 0;
    let v0: nat = 1;
    let v1: nat = 93000nat;
    let e1: nat = lemma_power_mod_bit(x, n, e0, v0, 1, v1);
    let v2: nat = 1nat;
    let e2: nat = lemma_power_mod_bit(x, n, e1, v1, 0, v2);
}

/// 93001 is prime.
proof fn lemma_prime_93001()
    ensures
        is_prime(93001nat),
{
    let n: nat = 93001nat;
    let g: nat = 14;
    lemma_power_93001_0();
    lemma_power_93001_1();
    lemma_power_of_power(g, n, 100nat, 63405nat, 30nat, 61219nat);
    lemma_power_93001_2();
    lemma_power_of_power(g, n, 100nat, 63405nat, 31nat, 7958nat);
    lemma_power_93001_3();
    lemma_power_of_power(g, n, 3100nat, 7958nat, 6nat, 79997nat);
    lemma_power_93001_4();
    lemma_power_of_power(g, n, 3100nat, 7958nat, 5nat, 22787nat);
    lemma_power_93001_5();
    lemma_power_of_power(g, n, 15500nat, 22787nat, 3nat, 93000nat);
    lemma_power_93001_6();
    lemma_power_of_power(g, n, 15500nat, 22787nat, 2nat, 22786nat);
    lemma_power_93001_7();
    lemma_power_of_power(g, n, 46500nat, 93000nat, 2nat, 1nat);
    lemma_prime_2();
    lemma_prime_3();
    lemma_prime_5();
    lemma_prime_31();
    lemma_witnessed_empty(n, g);
    let s0: Seq<nat> = Seq::empty();
    lemma_witnessed_push(n, g, s0, 2);
    let s1: Seq<nat> = s0.push(2);
    lemma_witnessed_push(n, g, s1, 2);
    let s2: Seq<nat> = s1.push(2);
    lemma_witnessed_push(n, g, s2, 2);
    let s3: Seq<nat> = s2.push(2);
    lemma_witnessed_push(n, g, s3, 3);
    let s4: Seq<nat> = s3.push(3);
    lemma_witnessed_push(n, g, s4, 5);
    let s5: Seq<nat> = s4.push(5);
    lemma_witnessed_push(n, g, s5, 5);
    let s6: Seq<nat> = s5.push(5);
    lemma_witnessed_push(n, g, s6, 5);
    let s7: Seq<nat> = s6.push(5);
    lemma_witnessed_push(n, g, s7, 31);
    let s8: Seq<nat> = s7.push(31);
    lemma_lucas(n, g, s8);
}

/// A power modulo 237073, one binary digit of the exponent at a time.
proof fn lemma_power_237073_0()
    ensures
        power_mod(15nat, 8nat, 237073nat) == 131495nat,
{
    let n: nat = 237073nat;
    let x: nat = 15nat;
    lemma_power_mod_start(x, n);
    let e0: nat = 0;
    let v0: nat = 1;
    let v1: nat = 15nat;
    let e1: nat = lemma_power_mod_bit(x, n, e0, v0, 1, v1);
    let v2: nat = 225nat;
    let e2: nat = lemma_power_mod_bit(x, n, e1, v1, 0, v2);
    let v3: nat = 50625nat;
    let e3: nat = lemma_power_mod_bit(x, n, e2, v2, 0, v3);
    let v4: nat = 131495nat;
    let e4: nat = lemma_power_mod_bit(x, n, e3, v3, 0, v4);
}

/// A power modulo 237073, one binary digit of the exponent at a time.
proof fn lemma_power_237073_1()
    ensures
        power_mod(131495nat, 449nat, 237073nat) == 100056nat,
{
    let n: nat = 237073nat;
    let x: nat = 131495nat;
    lemma_power_mod_start(x, n);
    let e0: nat = 0;
    let v0: nat = 1;
    let v1: nat = 131495nat;
    let e1: nat = lemma_power_mod_bit(x, n, e0, v0, 1, v1);
    let v2: nat = 235692nat;
    let e2: nat = lemma_power_mod_bit(x, n, e1, v1, 1, v2);
    let v3: nat = 152397nat;
    let e3: nat = lemma_power_mod_bit(x, n, e2, v2, 1, v3);
    let v4: nat = 226237nat;
    let e4: nat = lemma_power_mod_bit(x, n, e3, v3, 0, v4);
    let v5: nat = 67761nat;
    let e5: nat = lemma_power_mod_bit(x, n, e4, v4, 0, v5);
    let v6: nat = 160330nat;
    let e6: nat = lemma_power_mod_bit(x, n, e5, v5, 0, v6);
    let v7: nat = 120583nat;
    let e7: nat = lemma_power_mod_bit(x, n, e6, v6, 0, v7);
    let v8: nat = 98653nat;
    let e8: nat = lemma_power_mod_bit(x, n, e7, v7, 0, v8);
    let v9: nat = 100056nat;
    let e9: nat = lemma_power_mod_bit(x, n, e8, v8, 1, v9);
}

/// A power modulo 237073, one binary digit of the exponent at a time.
proof fn lemma_power_237073_2()
    ensures
        power_mod(100056nat, 6nat, 237073nat) == 224235nat,
{
    let n: nat = 237073nat;
    let x: nat = 100056nat;
    lemma_power_mod_start(x, n);
    let e0: nat = 0;
    let v0: nat = 1;
    let v1: nat = 100056nat;
    let e1: nat = lemma_power_mod_bit(x, n, e0, v0, 1, v1);
    let v2: nat = 145445nat;
    let e2: nat = lemma_power_mod_bit(x, n, e1, v1, 1, v2);
    let v3: nat = 224235nat;
    let e3: nat = lemma_power_mod_bit(x, n, e2, v2, 0, v3);
}

/// A power modulo 237073, one binary digit of the exponent at a time.
proof fn lemma_power_237073_3()
    ensures
        power_mod(100056nat, 11nat, 237073nat) == 63337nat,
{
    let n: nat = 237073nat;
    let x: nat = 100056nat;
    lemma_power_mod_start(x, n);
    let e0: nat = 0;
    let v0: nat = 1;
    let v1: nat = 100056nat;
    let e1: nat = lemma_power_mod_bit(x, n, e0, v0, 1, v1);
    let v2: nat = 84492nat;
    let e2: nat = lemma_power_mod_bit(x, n, e1, v1, 0, v2);
    let v3: nat = 22912nat;
    let e3: nat = lemma_power_mod_bit(x, n, e2, v2, 1, v3);
    let v4: nat = 63337nat;
    let e4: nat = lemma_power_mod_bit(x, n, e3, v3, 1, v4);
}

/// A power modulo 237073, one binary digit of the exponent at a time.
proof fn lemma_power_237073_4()
    ensures
        power_mod(63337nat, 3nat, 237073nat) == 237072nat,
{
    let n: nat = 237073nat;
    let x: nat = 63337nat;
    lemma_power_mod_start(x, n);
    let e0: nat = 0;
    let v0: nat = 1;
    let v1: nat = 63337nat;
    let e1: nat = lemma_power_mod_bit(x, n, e0, v0, 1, v1);
    let v2: nat = 237072nat;
    let e2: nat = lemma_power_mod_bit(x, n, e1, v1, 1, v2);
}

/// A power modulo 237073, one binary digit of the exponent at a time.
proof fn lemma_power_237073_5()
    ensures
        power_mod(63337nat, 2nat, 237073nat) == 63336nat,
{
    let n: nat = 237073nat;
    let x: nat = 63337nat;
    lemma_power_mod_start(x, n);
    let e0: nat = 0;
    let v0: nat = 1;
    let v1: nat = 63337nat;
    let e1: nat = lemma_power_mod_bit(x, n, e0, v0, 1, v1);
    let v2: nat = 63336nat;
    let e2: nat = lemma_power_mod_bit(x, n, e1, v1, 0, v2);
}

/// A power modulo 237073, one binary digit of the exponent at a time.
proof fn lemma_power_237073_6()
    ensures
        power_mod(131495nat, 66nat, 237073nat) == 197030nat,
{
    let n: nat = 237073nat;
    let x: nat = 131495nat;
    lemma_power_mod_start(x, n);
    let e0: nat = 0;
    let v0: nat = 1;
    let v1: nat = 131495nat;
    let e1: nat = lemma_power_mod_bit(x, n, e0, v0, 1, v1);
    let v2: nat = 15770nat;
    let e2: nat = lemma_power_mod_bit(x, n, e1, v1, 0, v2);
    let v3: nat = 3323nat;
    let e3: nat = lemma_power_mod_bit(x, n, e2, v2, 0, v3);
    let v4: nat = 136971nat;
    let e4: nat = lemma_power_mod_bit(x, n, e3, v3, 0, v4);
    let v5: nat = 45913nat;
    let e5: nat = lemma_power_mod_bit(x, n, e4, v4, 0, v5);
    let v6: nat = 57421nat;
    let e6: nat = lemma_power_mod_bit(x, n, e5, v5, 1, v6);
    let v7: nat = 197030nat;
    let e7: nat = lemma_power_mod_bit(x, n, e6, v6, 0, v7);
}

/// A power modulo 237073, one binary digit of the exponent at a time.
proof fn lemma_power_237073_7()
    ensures
        power_mod(237072nat, 2nat, 237073nat) == 1nat,
{
    let n: nat = 237073nat;
    let x: nat = 237072nat;
    lemma_power_mod_start(x, n);
    let e0: nat = 0;
    let v0: nat = 1;
    let v1: nat = 237072nat;
    let e1: nat = lemma_power_mod_bit(x, n, e0, v0, 1, v1);
    let v2: nat = 1nat;
    let e2: nat = lemma_power_mod_bit(x, n, e1, v1, 0, v2);
}

/// 237073 is prime.
proof fn lemma_prime_237073()
    ensures
        is_prime(237073nat),
{
    let n: nat = 237073nat;
    let g: nat = 15;
    lemma_power_237073_0();
    lemma_power_237073_1();
    lemma_power_of_power(g, n, 8nat, 131495nat, 449nat, 100056nat);
    lemma_power_237073_2();
    lemma_power_of_power(g, n, 3592nat, 100056nat, 6nat, 224235nat);
    lemma_power_237073_3();
    lemma_power_of_power(g, n, 3592nat, 100056nat, 11nat, 63337nat);
    lemma_power_237073_4();
    lemma_power_of_power(g, n, 39512nat, 63337nat, 3nat, 237072nat);
    lemma_power_237073_5();
    lemma_power_of_power(g, n, 39512nat, 63337nat, 2nat, 63336nat);
    lemma_power_237073_6();
    lemma_power_of_power(g, n, 8nat, 131495nat, 66nat, 197030nat);
    lemma_power_237073_7();
    lemma_power_of_power(g, n, 118536nat, 237072nat, 2nat, 1nat);
    lemma_prime_2();
    lemma_prime_3();
    lemma_prime_11();
    lemma_prime_449();
    lemma_witnessed_empty(n, g);
    let s0: Seq<nat> = Seq::empty();
    lemma_witnessed_push(n, g, s0, 2);
    let s1: Seq<nat> = s0.push(2);
    lemma_witnessed_push(n, g, s1, 2);
    let s2: Seq<nat> = s1.push(2);
    lemma_witnessed_push(n, g, s2, 2);
    let s3: Seq<nat> = s2.push(2);
    lemma_witnessed_push(n, g, s3, 2);
    let s4: Seq<nat> = s3.push(2);
    lemma_witnessed_push(n, g, s4, 3);
    let s5: Seq<nat> = s4.push(3);
    lemma_witnessed_push(n, g, s5, 11);
    let s6: Seq<nat> = s5.push(11);
    lemma_witnessed_push(n, g, s6, 449);
    let s7: Seq<nat> = s6.push(449);
    lemma_lucas(n, g, s7);
}

/// A power modulo 1593227, one binary digit of the exponent at a time.
proof fn lemma_power_1593227_0()
    ensures
        power_mod(2nat, 1nat, 1593227nat) == 2nat,
{
    let n: nat = 1593227nat;
    let x: nat = 2nat;
    lemma_power_mod_start(x, n);
    let e0: nat = 0;
    let v0: nat = 1;
    let v1: nat = 2nat;
    let e1: nat = lemma_power_mod_bit(x, n, e0, v0, 1, v1);
}

/// A power modulo 1593227, one binary digit of the exponent at a time.
proof fn lemma_power_1593227_1()
    ensures
        power_mod(2nat, 41927nat, 1593227nat) == 347988nat,
{
    let n: nat = 1593227nat;
    let x: nat = 2nat;
    lemma_power_mod_start(x, n);
    let e0: nat = 0;
    let v0: nat = 1;
    let v1: nat = 2nat;
    let e1: nat = lemma_power_mod_bit(x, n, e0, v0, 1, v1);
    let v2: nat = 4nat;
    let e2: nat = lemma_power_mod_bit(x, n, e1, v1, 0, v2);
    let v3: nat = 32nat;
    let e3: nat = lemma_power_mod_bit(x, n, e2, v2, 1, v3);
    let v4: nat = 1024nat;
    let e4: nat = lemma_power_mod_bit(x, n, e3, v3, 0, v4);
    let v5: nat = 1048576nat;
    let e5: nat = lemma_power_mod_bit(x, n, e4, v4, 0, v5);
    let v6: nat = 183444nat;
    let e6: nat = lemma_power_mod_bit(x, n, e5, v5, 0, v6);
    let v7: nat = 714111nat;
    let e7: nat = lemma_power_mod_bit(x, n, e6, v6, 1, v7);
    let v8: nat = 1590138nat;
    let e8: nat = lemma_power_mod_bit(x, n, e7, v7, 1, v8);
    let v9: nat = 1558345nat;
    let e9: nat = lemma_power_mod_bit(x, n, e8, v8, 1, v9);
    let v10: nat = 650219nat;
    let e10: nat = lemma_power_mod_bit(x, n, e9, v9, 1, v10);
    let v11: nat = 1251560nat;
    let e11: nat = lemma_power_mod_bit(x, n, e10, v10, 0, v11);
    let v12: nat = 596599nat;
    let e12: nat = lemma_power_mod_bit(x, n, e11, v11, 0, v12);
    let v13: nat = 268547nat;
    let e13: nat = lemma_power_mod_bit(x, n, e12, v12, 0, v13);
    let v14: nat = 142108nat;
    let e14: nat = lemma_power_mod_bit(x, n, e13, v13, 1, v14);
    let v15: nat = 1062878nat;
    let e15: nat = lemma_power_mod_bit(x, n, e14, v14, 1, v15);
    let v16: nat = 347988nat;
    let e16: nat = lemma_power_mod_bit(x, n, e15, v15, 1, v16);
}

/// A power modulo 1593227, one binary digit of the exponent at a time.
proof fn lemma_power_1593227_2()
    ensures
        power_mod(347988nat, 19nat, 1593227nat) == 1593226nat,
{
    let n: nat = 1593227nat;
    let x: nat = 347988nat;
    lemma_power_mod_start(x, n);
    let e0: nat = 0;
    let v0: nat = 1;
    let v1: nat = 347988nat;
    let e1: nat = lemma_power_mod_bit(x, n, e0, v0, 1, v1);
    let v2: nat = 836782nat;
    let e2: nat = lemma_power_mod_bit(x, n, e1, v1, 0, v2);
    let v3: nat = 1560975nat;
    let e3: nat = lemma_power_mod_bit(x, n, e2, v2, 0, v3);
    let v4: nat = 79206nat;
    let e4: nat = lemma_power_mod_bit(x, n, e3, v3, 1, v4);
    let v5: nat = 1593226nat;
    let e5: nat = lemma_power_mod_bit(x, n, e4, v4, 1, v5);
}

/// A power modulo 1593227, one binary digit of the exponent at a time.
proof fn lemma_power_1593227_3()
    ensures
        power_mod(347988nat, 2nat, 1593227nat) == 836782nat,
{
    let n: nat = 1593227nat;
    let x: nat = 347988nat;
    lemma_power_mod_start(x, n);
    let e0: nat = 0;
    let v0: nat = 1;
    let v1: nat = 347988nat;
    let e1: nat = lemma_power_mod_bit(x, n, e0, v0, 1, v1);
    let v2: nat = 836782nat;
    let e2: nat = lemma_power_mod_bit(x, n, e1, v1, 0, v2);
}

/// A power modulo 1593227, one binary digit of the exponent at a time.
proof fn lemma_power_1593227_4()
    ensures
        power_mod(2nat, 38nat, 1593227nat) == 45861nat,
{
    let n: nat = 1593227nat;
    let x: nat = 2nat;
    lemma_power_mod_start(x, n);
    let e0: nat = 0;
    let v0: nat = 1;
    let v1: nat = 2nat;
    let e1: nat = lemma_power_mod_bit(x, n, e0, v0, 1, v1);
    let v2: nat = 4nat;
    let e2: nat = lemma_power_mod_bit(x, n, e1, v1, 0, v2);
    let v3: nat = 16nat;
    let e3: nat = lemma_power_mod_bit(x, n, e2, v2, 0, v3);
    let v4: nat = 512nat;
    let e4: nat = lemma_power_mod_bit(x, n, e3, v3, 1, v4);
    let v5: nat = 524288nat;
    let e5: nat = lemma_power_mod_bit(x, n, e4, v4, 1, v5);
    let v6: nat = 45861nat;
    let e6: nat = lemma_power_mod_bit(x, n, e5, v5, 0, v6);
}

/// A power modulo 1593227, one binary digit of the exponent at a time.
proof fn lemma_power_1593227_5()
    ensures
        power_mod(1593226nat, 2nat, 1593227nat) == 1nat,
{
    let n: nat = 1593227nat;
    let x: nat = 1593226nat;
    lemma_power_mod_start(x, n);
    let e0: nat = 0;
    let v0: nat = 1;
    let v1: nat = 1593226nat;
    let e1: nat = lemma_power_mod_bit(x, n, e0, v0, 1, v1);
    let v2: nat = 1nat;
    let e2: nat = lemma_power_mod_bit(x, n, e1, v1, 0, v2);
}

/// 1593227 is prime.
proof fn lemma_prime_1593227()
    ensures
        is_prime(1593227nat),
{
    let n: nat = 1593227nat;
    let g: nat = 2;
    lemma_power_1593227_0();
    lemma_power_1593227_1();
    lemma_power_of_power(g, n, 1nat, 2nat, 41927nat, 347988nat);
    lemma_power_1593227_2();
    lemma_power_of_power(g, n, 41927nat, 347988nat, 19nat, 1593226nat);
    lemma_power_1593227_3();
    lemma_power_of_power(g, n, 41927nat, 347988nat, 2nat, 836782nat);
    lemma_power_1593227_4();
    lemma_power_of_power(g, n, 1nat, 2nat, 38nat, 45861nat);
    lemma_power_1593227_5();
    lemma_power_of_power(g, n, 796613nat, 1593226nat, 2nat, 1nat);
    lemma_prime_2();
    lemma_prime_19();
    lemma_prime_41927();
    lemma_witnessed_empty(n, g);
    let s0: Seq<nat> = Seq::empty();
    lemma_witnessed_push(n, g, s0, 2);
    let s1: Seq<nat> = s0.push(2);
    lemma_witnessed_push(n, g, s1, 19);
    let s2: Seq<nat> = s1.push(19);
    lemma_witnessed_push(n, g, s2, 41927);
    let s3: Seq<nat> = s2.push(41927);
    lemma_lucas(n, g, s3);
}

/// A power modulo 405928799, one binary digit of the exponent at a time.
proof fn lemma_power_405928799_0()
    ensures
        power_mod(22nat, 1nat, 405928799nat) == 22nat,
{
    let n: nat = 405928799nat;
    let x: nat = 22nat;
    lemma_power_mod_start(x, n);
    let e0: nat = 0;
    let v0: nat = 1;
    let v1: nat = 22nat;
    let e1: nat = lemma_power_mod_bit(x, n, e0, v0, 1, v1);
}

/// A power modulo 405928799, one binary digit of the exponent at a time.
proof fn lemma_power_405928799_1()
    ensures
        power_mod(22nat, 81202nat, 405928799nat) == 61847818nat,
{
    let n: nat = 405928799nat;
    let x: nat = 22nat;
    lemma_power_mod_start(x, n);
    let e0: nat = 0;
    let v0: nat = 1;
    let v1: nat = 22nat;
    let e1: nat = lemma_power_mod_bit(x, n, e0, v0, 1, v1);
    let v2: nat = 484nat;
    let e2: nat = lemma_power_mod_bit(x, n, e1, v1, 0, v2);
    let v3: nat = 234256nat;
    let e3: nat = lemma_power_mod_bit(x, n, e2, v2, 0, v3);
    let v4: nat = 36969566nat;
    let e4: nat = lemma_power_mod_bit(x, n, e3, v3, 1, v4);
    let v5: nat = 295921102nat;
    let e5: nat = lemma_power_mod_bit(x, n, e4, v4, 1, v5);
    let v6: nat = 275822804nat;
    let e6: nat = lemma_power_mod_bit(x, n, e5, v5, 1, v6);
    let v7: nat = 236256523nat;
    let e7: nat = lemma_power_mod_bit(x, n, e6, v6, 1, v7);
    let v8: nat = 140893495nat;
    let e8: nat = lemma_power_mod_bit(x, n, e7, v7, 0, v8);
    let v9: nat = 403887925nat;
    let e9: nat = lemma_power_mod_bit(x, n, e8, v8, 1, v9);
    let v10: nat = 337206136nat;
    let e10: nat = lemma_power_mod_bit(x, n, e9, v9, 0, v10);
    let v11: nat = 224331732nat;
    let e11: nat = lemma_power_mod_bit(x, n, e10, v10, 0, v11);
    let v12: nat = 168462038nat;
    let e12: nat = lemma_power_mod_bit(x, n, e11, v11, 1, v12);
    let v13: nat = 18407859nat;
    let e13: nat = lemma_power_mod_bit(x, n, e12, v12, 1, v13);
    let v14: nat = 207998631nat;
    let e14: nat = lemma_power_mod_bit(x, n, e13, v13, 0, v14);
    let v15: nat = 235569825nat;
    let e15: nat = lemma_power_mod_bit(x, n, e14, v14, 0, v15);
    let v16: nat = 63930760nat;
    let e16: nat = lemma_power_mod_bit(x, n, e15, v15, 1, v16);
    let v17: nat = 61847818nat;
    let e17: nat = lemma_power_mod_bit(x, n, e16, v16, 0, v17);
}

/// A power modulo 405928799, one binary digit of the exponent at a time.
proof fn lemma_power_405928799_2()
    ensures
        power_mod(22nat, 4999nat, 405928799nat) == 147534134nat,
{
    let n: nat = 405928799nat;
    let x: nat = 22nat;
    lemma_power_mod_start(x, n);
    let e0: nat = 0;
    let v0: nat = 1;
    let v1: nat = 22nat;
    let e1: nat = lemma_power_mod_bit(x, n, e0, v0, 1, v1);
    let v2: nat = 484nat;
    let e2: nat = lemma_power_mod_bit(x, n, e1, v1, 0, v2);
    let v3: nat = 234256nat;
    let e3: nat = lemma_power_mod_bit(x, n, e2, v2, 0, v3);
    let v4: nat = 36969566nat;
    let e4: nat = lemma_power_mod_bit(x, n, e3, v3, 1, v4);
    let v5: nat = 295921102nat;
    let e5: nat = lemma_power_mod_bit(x, n, e4, v4, 1, v5);
    let v6: nat = 275822804nat;
    let e6: nat = lemma_power_mod_bit(x, n, e5, v5, 1, v6);
    let v7: nat = 66092860nat;
    let e7: nat = lemma_power_mod_bit(x, n, e6, v6, 0, v7);
    let v8: nat = 170546363nat;
    let e8: nat = lemma_power_mod_bit(x, n, e7, v7, 0, v8);
    let v9: nat = 233755281nat;
    let e9: nat = lemma_power_mod_bit(x, n, e8, v8, 0, v9);
    let v10: nat = 112518420nat;
    let e10: nat = lemma_power_mod_bit(x, n, e9, v9, 0, v10);
    let v11: nat = 69097179nat;
    let e11: nat = lemma_power_mod_bit(x, n, e10, v10, 1, v11);
    let v12: nat = 220794702nat;
    let e12: nat = lemma_power_mod_bit(x, n, e11, v11, 1, v12);
    let v13: nat = 147534134nat;
    let e13: nat = lemma_power_mod_bit(x, n, e12, v12, 1, v13);
}

/// A power modulo 405928799, one binary digit of the exponent at a time.
proof fn lemma_power_405928799_3()
    ensures
        power_mod(147534134nat, 3691nat, 405928799nat) == 50712492nat,
{
    let n: nat = 405928799nat;
    let x: nat = 147534134nat;
    lemma_power_mod_start(x, n);
    let e0: nat = 0;
    let v0: nat = 1;
    let v1: nat = 147534134nat;
    let e1: nat = lemma_power_mod_bit(x, n, e0, v0, 1, v1);
    let v2: nat = 281894784nat;
    let e2: nat = lemma_power_mod_bit(x, n, e1, v1, 1, v2);
    let v3: nat = 402683576nat;
    let e3: nat = lemma_power_mod_bit(x, n, e2, v2, 1, v3);
    let v4: nat = 55558473nat;
    let e4: nat = lemma_power_mod_bit(x, n, e3, v3, 0, v4);
    let v5: nat = 39247080nat;
    let e5: nat = lemma_power_mod_bit(x, n, e4, v4, 0, v5);
    let v6: nat = 374424614nat;
    let e6: nat = lemma_power_mod_bit(x, n, e5, v5, 1, v6);
    let v7: nat = 80676981nat;
    let e7: nat = lemma_power_mod_bit(x, n, e6, v6, 1, v7);
    let v8: nat = 51902239nat;
    let e8: nat = lemma_power_mod_bit(x, n, e7, v7, 0, v8);
    let v9: nat = 87281789nat;
    let e9: nat = lemma_power_mod_bit(x, n, e8, v8, 1, v9);
    let v10: nat = 268039631nat;
    let e10: nat = lemma_power_mod_bit(x, n, e9, v9, 0, v10);
    let v11: nat = 194526141nat;
    let e11: nat = lemma_power_mod_bit(x, n, e10, v10, 1, v11);
    let v12: nat = 50712492nat;
    let e12: nat = lemma_power_mod_bit(x, n, e11, v11, 1, v12);
}

/// A power modulo 405928799, one binary digit of the exponent at a time.
proof fn lemma_power_405928799_4()
    ensures
        power_mod(50712492nat, 11nat, 405928799nat) == 405928798nat,
{
    let n: nat = 405928799nat;
    let x: nat = 50712492nat;
    lemma_power_mod_start(x, n);
    let e0: nat = 0;
    let v0: nat = 1;
    let v1: nat = 50712492nat;
    let e1: nat = lemma_power_mod_bit(x, n, e0, v0, 1, v1);
    let v2: nat = 215859951nat;
    let e2: nat = lemma_power_mod_bit(x, n, e1, v1, 0, v2);
    let v3: nat = 400522842nat;
    let e3: nat = lemma_power_mod_bit(x, n, e2, v2, 1, v3);
    let v4: nat = 405928798nat;
    let e4: nat = lemma_power_mod_bit(x, n, e3, v3, 1, v4);
}

/// A power modulo 405928799, one binary digit of the exponent at a time.
proof fn lemma_power_405928799_5()
    ensures
        power_mod(50712492nat, 2nat, 405928799nat) == 215859951nat,
{
    let n: nat = 405928799nat;
    let x: nat = 50712492nat;
    lemma_power_mod_start(x, n);
    let e0: nat = 0;
    let v0: nat = 1;
    let v1: nat = 50712492nat;
    let e1: nat = lemma_power_mod_bit(x, n, e0, v0, 1, v1);
    let v2: nat = 215859951nat;
    let e2: nat = lemma_power_mod_bit(x, n, e1, v1, 0, v2);
}

/// A power modulo 405928799, one binary digit of the exponent at a time.
proof fn lemma_power_405928799_6()
    ensures
        power_mod(147534134nat, 22nat, 405928799nat) == 147917081nat,
{
    let n: nat = 405928799nat;
    let x: nat = 147534134nat;
    lemma_power_mod_start(x, n);
    let e0: nat = 0;
    let v0: nat = 1;
    let v1: nat = 147534134nat;
    let e1: nat = lemma_power_mod_bit(x, n, e0, v0, 1, v1);
    let v2: nat = 386086986nat;
    let e2: nat = lemma_power_mod_bit(x, n, e1, v1, 0, v2);
    let v3: nat = 291695181nat;
    let e3: nat = lemma_power_mod_bit(x, n, e2, v2, 1, v3);
    let v4: nat = 202627798nat;
    let e4: nat = lemma_power_mod_bit(x, n, e3, v3, 1, v4);
    let v5: nat = 147917081nat;
    let e5: nat = lemma_power_mod_bit(x, n, e4, v4, 0, v5);
}

/// A power modulo 405928799, one binary digit of the exponent at a time.
proof fn lemma_power_405928799_7()
    ensures
        power_mod(405928798nat, 2nat, 405928799nat) == 1nat,
{
    let n: nat = 405928799nat;
    let x: nat = 405928798nat;
    lemma_power_mod_start(x, n);
    let e0: nat = 0;
    let v0: nat = 1;
    let v1: nat = 405928798nat;
    let e1: nat = lemma_power_mod_bit(x, n, e0, v0, 1, v1);
    let v2: nat = 1nat;
    let e2: nat = lemma_power_mod_bit(x, n, e1, v1, 0, v2);
}

/// 405928799 is prime.
proof fn lemma_prime_405928799()
    ensures
        is_prime(405928799nat),
{
    let n: nat = 405928799nat;
    let g: nat = 22;
    lemma_power_405928799_0();
    lemma_power_405928799_1();
    lemma_power_of_power(g, n, 1nat, 22nat, 81202nat, 61847818nat);
    lemma_power_405928799_2();
    lemma_power_of_power(g, n, 1nat, 22nat, 4999nat, 147534134nat);
    lemma_power_405928799_3();
    lemma_power_of_power(g, n, 4999nat, 147534134nat, 3691nat, 50712492nat);
    lemma_power_405928799_4();
    lemma_power_of_power(g, n, 18451309nat, 50712492nat, 11nat, 405928798nat);
    lemma_power_405928799_5();
    lemma_power_of_power(g, n, 18451309nat, 50712492nat, 2nat, 215859951nat);
    lemma_power_405928799_6();
    lemma_power_of_power(g, n, 4999nat, 147534134nat, 22nat, 147917081nat);
    lemma_power_405928799_7();
    lemma_power_of_power(g, n, 202964399nat, 405928798nat, 2nat, 1nat);
    lemma_prime_2();
    lemma_prime_11();
    lemma_prime_3691();
    lemma_prime_4999();
    lemma_witnessed_empty(n, g);
    let s0: Seq<nat> = Seq::empty();
    lemma_witnessed_push(n, g, s0, 2);
    let s1: Seq<nat> = s0.push(2);
    lemma_witnessed_push(n, g, s1, 11);
    let s2: Seq<nat> = s1.push(11);
    lemma_witnessed_push(n, g, s2, 3691);
    let s3: Seq<nat> = s2.push(3691);
    lemma_witnessed_push(n, g, s3, 4999);
    let s4: Seq<nat> = s3.push(4999);
    lemma_lucas(n, g, s4);
}

/// A power modulo 639533339, one binary digit of the exponent at a time.
proof fn lemma_power_639533339_0()
    ensures
        power_mod(2nat, 1nat, 639533339nat) == 2nat,
{
    let n: nat = 639533339nat;
    let x: nat = 2nat;
    lemma_power_mod_start(x, n);
    let e0: nat = 0;
    let v0: nat = 1;
    let v1: nat = 2nat;
    let e1: nat = lemma_power_mod_bit(x, n, e0, v0, 1, v1);
}

/// A power modulo 639533339, one binary digit of the exponent at a time.
proof fn lemma_power_639533339_1()
    ensures
        power_mod(2nat, 390674nat, 639533339nat) == 248876995nat,
{
    let n: nat = 639533339nat;
    let x: nat = 2nat;
    lemma_power_mod_start(x, n);
    let e0: nat = 0;
    let v0: nat = 1;
    let v1: nat = 2nat;
    let e1: nat = lemma_power_mod_bit(x, n, e0, v0, 1, v1);
    let v2: nat = 4nat;
    let e2: nat = lemma_power_mod_bit(x, n, e1, v1, 0, v2);
    let v3: nat = 32nat;
    let e3: nat = lemma_power_mod_bit(x, n, e2, v2, 1, v3);
    let v4: nat = 2048nat;
    let e4: nat = lemma_power_mod_bit(x, n, e3, v3, 1, v4);
    let v5: nat = 8388608nat;
    let e5: nat = lemma_power_mod_bit(x, n, e4, v4, 1, v5);
    let v6: nat = 502708310nat;
    let e6: nat = lemma_power_mod_bit(x, n, e5, v5, 1, v6);
    let v7: nat = 59073833nat;
    let e7: nat = lemma_power_mod_bit(x, n, e6, v6, 1, v7);
    let v8: nat = 476657471nat;
    let e8: nat = lemma_power_mod_bit(x, n, e7, v7, 0, v8);
    let v9: nat = 139521014nat;
    let e9: nat = lemma_power_mod_bit(x, n, e8, v8, 1, v9);
    let v10: nat = 266479104nat;
    let e10: nat = lemma_power_mod_bit(x, n, e9, v9, 1, v10);
    let v11: nat = 318239802nat;
    let e11: nat = lemma_power_mod_bit(x, n, e10, v10, 0, v11);
    let v12: nat = 385225236nat;
    let e12: nat = lemma_power_mod_bit(x, n, e11, v11, 0, v12);
    let v13: nat = 600418699nat;
    let e13: nat = lemma_power_mod_bit(x, n, e12, v12, 0, v13);
    let v14: nat = 94973239nat;
    let e14: nat = lemma_power_mod_bit(x, n, e13, v13, 0, v14);
    let v15: nat = 534791347nat;
    let e15: nat = lemma_power_mod_bit(x, n, e14, v14, 1, v15);
    let v16: nat = 631252479nat;
    let e16: nat = lemma_power_mod_bit(x, n, e15, v15, 0, v16);
    let v17: nat = 598665342nat;
    let e17: nat = lemma_power_mod_bit(x, n, e16, v16, 0, v17);
    let v18: nat = 123586100nat;
    let e18: nat = lemma_power_mod_bit(x, n, e17, v17, 1, v18);
    let v19: nat = 248876995nat;
    let e19: nat = lemma_power_mod_bit(x, n, e18, v18, 0, v19);
}

/// A power modulo 639533339, one binary digit of the exponent at a time.
proof fn lemma_power_639533339_2()
    ensures
        power_mod(2nat, 1637nat, 639533339nat) == 205657841nat,
{
    let n: nat = 639533339nat;
    let x: nat = 2nat;
    lemma_power_mod_start(x, n);
    let e0: nat = 0;
    let v0: nat = 1;
    let v1: nat = 2nat;
    let e1: nat = lemma_power_mod_bit(x, n, e0, v0, 1, v1);
    let v2: nat = 8nat;
    let e2: nat = lemma_power_mod_bit(x, n, e1, v1, 1, v2);
    let v3: nat = 64nat;
    let e3: nat = lemma_power_mod_bit(x, n, e2, v2, 0, v3);
    let v4: nat = 4096nat;
    let e4: nat = lemma_power_mod_bit(x, n, e3, v3, 0, v4);
    let v5: nat = 33554432nat;
    let e5: nat = lemma_power_mod_bit(x, n, e4, v4, 1, v5);
    let v6: nat = 368932892nat;
    let e6: nat = lemma_power_mod_bit(x, n, e5, v5, 1, v6);
    let v7: nat = 526583895nat;
    let e7: nat = lemma_power_mod_bit(x, n, e6, v6, 0, v7);
    let v8: nat = 214402335nat;
    let e8: nat = lemma_power_mod_bit(x, n, e7, v7, 0, v8);
    let v9: nat = 441820739nat;
    let e9: nat = lemma_power_mod_bit(x, n, e8, v8, 1, v9);
    let v10: nat = 454128998nat;
    let e10: nat = lemma_power_mod_bit(x, n, e9, v9, 0, v10);
    let v11: nat = 205657841nat;
    let e11: nat = lemma_power_mod_bit(x, n, e10, v10, 1, v11);
}

/// A power modulo 639533339, one binary digit of the exponent at a time.
proof fn lemma_power_639533339_3()
    ensures
        power_mod(205657841nat, 458nat, 639533339nat) == 256057581nat,
{
    let n: nat = 639533339nat;
    let x: nat = 205657841nat;
    lemma_power_mod_start(x, n);
    let e0: nat = 0;
    let v0: nat = 1;
    let v1: nat = 205657841nat;
    let e1: nat = lemma_power_mod_bit(x, n, e0, v0, 1, v1);
    let v2: nat = 413681120nat;
    let e2: nat = lemma_power_mod_bit(x, n, e1, v1, 1, v2);
    let v3: nat = 582477637nat;
    let e3: nat = lemma_power_mod_bit(x, n, e2, v2, 1, v3);
    let v4: nat = 528535004nat;
    let e4: nat = lemma_power_mod_bit(x, n, e3, v3, 0, v4);
    let v5: nat = 131870377nat;
    let e5: nat = lemma_power_mod_bit(x, n, e4, v4, 0, v5);
    let v6: nat = 297306096nat;
    let e6: nat = lemma_power_mod_bit(x, n, e5, v5, 1, v6);
    let v7: nat = 193828918nat;
    let e7: nat = lemma_power_mod_bit(x, n, e6, v6, 0, v7);
    let v8: nat = 613926430nat;
    let e8: nat = lemma_power_mod_bit(x, n, e7, v7, 1, v8);
    let v9: nat = 256057581nat;
    let e9: nat = lemma_power_mod_bit(x, n, e8, v8, 0, v9);
}

/// A power modulo 639533339, one binary digit of the exponent at a time.
proof fn lemma_power_639533339_4()
    ensures
        power_mod(205657841nat, 853nat, 639533339nat) == 606410667nat,
{
    let n: nat = 639533339nat;
    let x: nat = 205657841nat;
    lemma_power_mod_start(x, n);
    let e0: nat = 0;
    let v0: nat = 1;
    let v1: nat = 205657841nat;
    let e1: nat = lemma_power_mod_bit(x, n, e0, v0, 1, v1);
    let v2: nat = 413681120nat;
    let e2: nat = lemma_power_mod_bit(x, n, e1, v1, 1, v2);
    let v3: nat = 301716892nat;
    let e3: nat = lemma_power_mod_bit(x, n, e2, v2, 0, v3);
    let v4: nat = 271814588nat;
    let e4: nat = lemma_power_mod_bit(x, n, e3, v3, 1, v4);
    let v5: nat = 450291834nat;
    let e5: nat = lemma_power_mod_bit(x, n, e4, v4, 0, v5);
    let v6: nat = 343534298nat;
    let e6: nat = lemma_power_mod_bit(x, n, e5, v5, 1, v6);
    let v7: nat = 526058647nat;
    let e7: nat = lemma_power_mod_bit(x, n, e6, v6, 0, v7);
    let v8: nat = 391777523nat;
    let e8: nat = lemma_power_mod_bit(x, n, e7, v7, 1, v8);
    let v9: nat = 474267791nat;
    let e9: nat = lemma_power_mod_bit(x, n, e8, v8, 0, v9);
    let v10: nat = 606410667nat;
    let e10: nat = lemma_power_mod_bit(x, n, e9, v9, 1, v10);
}

/// A power modulo 639533339, one binary digit of the exponent at a time.
proof fn lemma_power_639533339_5()
    ensures
        power_mod(606410667nat, 229nat, 639533339nat) == 639533338nat,
{
    let n: nat = 639533339nat;
    let x: nat = 606410667nat;
    lemma_power_mod_start(x, n);
    let e0: nat = 0;
    let v0: nat = 1;
    let v1: nat = 606410667nat;
    let e1: nat = lemma_power_mod_bit(x, n, e0, v0, 1, v1);
    let v2: nat = 619334812nat;
    let e2: nat = lemma_power_mod_bit(x, n, e1, v1, 1, v2);
    let v3: nat = 319649281nat;
    let e3: nat = lemma_power_mod_bit(x, n, e2, v2, 1, v3);
    let v4: nat = 509743148nat;
    let e4: nat = lemma_power_mod_bit(x, n, e3, v3, 0, v4);
    let v5: nat = 65888171nat;
    let e5: nat = lemma_power_mod_bit(x, n, e4, v4, 0, v5);
    let v6: nat = 556277034nat;
    let e6: nat = lemma_power_mod_bit(x, n, e5, v5, 1, v6);
    let v7: nat = 169434592nat;
    let e7: nat = lemma_power_mod_bit(x, n, e6, v6, 0, v7);
    let v8: nat = 639533338nat;
    let e8: nat = lemma_power_mod_bit(x, n, e7, v7, 1, v8);
}

/// A power modulo 639533339, one binary digit of the exponent at a time.
proof fn lemma_power_639533339_6()
    ensures
        power_mod(606410667nat, 2nat, 639533339nat) == 271298491nat,
{
    let n: nat = 639533339nat;
    let x: nat = 606410667nat;
    lemma_power_mod_start(x, n);
    let e0: nat = 0;
    let v0: nat = 1;
    let v1: nat = 606410667nat;
    let e1: nat = lemma_power_mod_bit(x, n, e0, v0, 1, v1);
    let v2: nat = 271298491nat;
    let e2: nat = lemma_power_mod_bit(x, n, e1, v1, 0, v2);
}

/// A power modulo 639533339, one binary digit of the exponent at a time.
proof fn lemma_power_639533339_7()
    ensures
        power_mod(639533338nat, 2nat, 639533339nat) == 1nat,
{
    let n: nat = 639533339nat;
    let x: nat = 639533338nat;
    lemma_power_mod_start(x, n);
    let e0: nat = 0;
    let v0: nat = 1;
    let v1: nat = 639533338nat;
    let e1: nat = lemma_power_mod_bit(x, n, e0, v0, 1, v1);
    let v2: nat = 1nat;
    let e2: nat = lemma_power_mod_bit(x, n, e1, v1, 0, v2);
}

/// 639533339 is prime.
proof fn lemma_prime_639533339()
    ensures
        is_prime(639533339nat),
{
    let n: nat = 639533339nat;
    let g: nat = 2;
    lemma_power_639533339_0();
    lemma_power_639533339_1();
    lemma_power_of_power(g, n, 1nat, 2nat, 390674nat, 248876995nat);
    lemma_power_639533339_2();
    lemma_power_of_power(g, n, 1nat, 2nat, 1637nat, 205657841nat);
    lemma_power_639533339_3();
    lemma_power_of_power(g, n, 1637nat, 205657841nat, 458nat, 256057581nat);
    lemma_power_639533339_4();
    lemma_power_of_power(g, n, 1637nat, 205657841nat, 853nat, 606410667nat);
    lemma_power_639533339_5();
    lemma_power_of_power(g, n, 1396361nat, 606410667nat, 229nat, 639533338nat);
    lemma_power_639533339_6();
    lemma_power_of_power(g, n, 1396361nat, 606410667nat, 2nat, 271298491nat);
    lemma_power_639533339_7();
    lemma_power_of_power(g, n, 319766669nat, 639533338nat, 2nat, 1nat);
    lemma_prime_2();
    lemma_prime_229();
    lemma_prime_853();
    lemma_prime_1637();
    lemma_witnessed_empty(n, g);
    let s0: Seq<nat> = Seq::empty();
    lemma_witnessed_push(n, g, s0, 2);
    let s1: Seq<nat> = s0.push(2);
    lemma_witnessed_push(n, g, s1, 229);
    let s2: Seq<nat> = s1.push(229);
    lemma_witnessed_push(n, g, s2, 853);
    let s3: Seq<nat> = s2.push(853);
    lemma_witnessed_push(n, g, s3, 1637);
    let s4: Seq<nat> = s3.push(1637);
    lemma_lucas(n, g, s4);
}

/// A power modulo 12048837557, one binary digit of the exponent at a time.
proof fn lemma_power_12048837557_0()
    ensures
        power_mod(2nat, 14nat, 12048837557nat) == 16384nat,
{
    let n: nat = 12048837557nat;
    let x: nat = 2nat;
    lemma_power_mod_start(x, n);
    let e0: nat = 0;
    let v0: nat = 1;
    let v1: nat = 2nat;
    let e1: nat = lemma_power_mod_bit(x, n, e0, v0, 1, v1);
    let v2: nat = 8nat;
    let e2: nat = lemma_power_mod_bit(x, n, e1, v1, 1, v2);
    let v3: nat = 128nat;
    let e3: nat = lemma_power_mod_bit(x, n, e2, v2, 1, v3);
    let v4: nat = 16384nat;
    let e4: nat = lemma_power_mod_bit(x, n, e3, v3, 0, v4);
}

/// A power modulo 12048837557, one binary digit of the exponent at a time.
proof fn lemma_power_12048837557_1()
    ensures
        power_mod(16384nat, 93001nat, 12048837557nat) == 1248843820nat,
{
    let n: nat = 12048837557nat;
    let x: nat = 16384nat;
    lemma_power_mod_start(x, n);
    let e0: nat = 0;
    let v0: nat = 1;
    let v1: nat = 16384nat;
    let e1: nat = lemma_power_mod_bit(x, n, e0, v0, 1, v1);
    let v2: nat = 268435456nat;
    let e2: nat = lemma_power_mod_bit(x, n, e1, v1, 0, v2);
    let v3: nat = 7688018866nat;
    let e3: nat = lemma_power_mod_bit(x, n, e2, v2, 1, v3);
    let v4: nat = 4305233974nat;
    let e4: nat = lemma_power_mod_bit(x, n, e3, v3, 1, v4);
    let v5: nat = 5274265627nat;
    let e5: nat = lemma_power_mod_bit(x, n, e4, v4, 0, v5);
    let v6: nat = 10681897163nat;
    let e6: nat = lemma_power_mod_bit(x, n, e5, v5, 1, v6);
    let v7: nat = 11616514159nat;
    let e7: nat = lemma_power_mod_bit(x, n, e6, v6, 0, v7);
    let v8: nat = 9503539236nat;
    let e8: nat = lemma_power_mod_bit(x, n, e7, v7, 1, v8);
    let v9: nat = 11067218603nat;
    let e9: nat = lemma_power_mod_bit(x, n, e8, v8, 1, v9);
    let v10: nat = 885333603nat;
    let e10: nat = lemma_power_mod_bit(x, n, e9, v9, 0, v10);
    let v11: nat = 7480205575nat;
    let e11: nat = lemma_power_mod_bit(x, n, e10, v10, 1, v11);
    let v12: nat = 8956466944nat;
    let e12: nat = lemma_power_mod_bit(x, n, e11, v11, 0, v12);
    let v13: nat = 10299380708nat;
    let e13: nat = lemma_power_mod_bit(x, n, e12, v12, 0, v13);
    let v14: nat = 10795723557nat;
    let e14: nat = lemma_power_mod_bit(x, n, e13, v13, 1, v14);
    let v15: nat = 1018645855nat;
    let e15: nat = lemma_power_mod_bit(x, n, e14, v14, 0, v15);
    let v16: nat = 5920959362nat;
    let e16: nat = lemma_power_mod_bit(x, n, e15, v15, 0, v16);
    let v17: nat = 1248843820nat;
    let e17: nat = lemma_power_mod_bit(x, n, e16, v16, 1, v17);
}

/// A power modulo 12048837557, one binary digit of the exponent at a time.
proof fn lemma_power_12048837557_2()
    ensures
        power_mod(1248843820nat, 661nat, 12048837557nat) == 9967741484nat,
{
    let n: nat = 12048837557nat;
    let x: nat = 1248843820nat;
    lemma_power_mod_start(x, n);
    let e0: nat = 0;
    let v0: nat = 1;
    let v1: nat = 1248843820nat;
    let e1: nat = lemma_power_mod_bit(x, n, e0, v0, 1, v1);
    let v2: nat = 3476168168nat;
    let e2: nat = lemma_power_mod_bit(x, n, e1, v1, 0, v2);
    let v3: nat = 10763149606nat;
    let e3: nat = lemma_power_mod_bit(x, n, e2, v2, 1, v3);
    let v4: nat = 252522118nat;
    let e4: nat = lemma_power_mod_bit(x, n, e3, v3, 0, v4);
    let v5: nat = 7606488440nat;
    let e5: nat = lemma_power_mod_bit(x, n, e4, v4, 0, v5);
    let v6: nat = 3072383667nat;
    let e6: nat = lemma_power_mod_bit(x, n, e5, v5, 1, v6);
    let v7: nat = 5201586433nat;
    let e7: nat = lemma_power_mod_bit(x, n, e6, v6, 0, v7);
    let v8: nat = 309486834nat;
    let e8: nat = lemma_power_mod_bit(x, n, e7, v7, 1, v8);
    let v9: nat = 10846022740nat;
    let e9: nat = lemma_power_mod_bit(x, n, e8, v8, 0, v9);
    let v10: nat = 9967741484nat;
    let e10: nat = lemma_power_mod_bit(x, n, e9, v9, 1, v10);
}

/// A power modulo 12048837557, one binary digit of the exponent at a time.
proof fn lemma_power_12048837557_3()
    ensures
        power_mod(9967741484nat, 7nat, 12048837557nat) == 12048837556nat,
{
    let n: nat = 12048837557nat;
    let x: nat = 9967741484nat;
    lemma_power_mod_start(x, n);
    let e0: nat = 0;
    let v0: nat = 1;
    let v1: nat = 9967741484nat;
    let e1: nat = lemma_power_mod_bit(x, n, e0, v0, 1, v1);
    let v2: nat = 3017460272nat;
    let e2: nat = lemma_power_mod_bit(x, n, e1, v1, 1, v2);
    let v3: nat = 12048837556nat;
    let e3: nat = lemma_power_mod_bit(x, n, e2, v2, 1, v3);
}

/// A power modulo 12048837557, one binary digit of the exponent at a time.
proof fn lemma_power_12048837557_4()
    ensures
        power_mod(9967741484nat, 2nat, 12048837557nat) == 41029474nat,
{
    let n: nat = 12048837557nat;
    let x: nat = 9967741484nat;
    lemma_power_mod_start(x, n);
    let e0: nat = 0;
    let v0: nat = 1;
    let v1: nat = 9967741484nat;
    let e1: nat = lemma_power_mod_bit(x, n, e0, v0, 1, v1);
    let v2: nat = 41029474nat;
    let e2: nat = lemma_power_mod_bit(x, n, e1, v1, 0, v2);
}

/// A power modulo 12048837557, one binary digit of the exponent at a time.
proof fn lemma_power_12048837557_5()
    ensures
        power_mod(1248843820nat, 14nat, 12048837557nat) == 8877273464nat,
{
    let n: nat = 12048837557nat;
    let x: nat = 1248843820nat;
    lemma_power_mod_start(x, n);
    let e0: nat = 0;
    let v0: nat = 1;
    let v1: nat = 1248843820nat;
    let e1: nat = lemma_power_mod_bit(x, n, e0, v0, 1, v1);
    let v2: nat = 10563358143nat;
    let e2: nat = lemma_power_mod_bit(x, n, e1, v1, 1, v2);
    let v3: nat = 2221604410nat;
    let e3: nat = lemma_power_mod_bit(x, n, e2, v2, 1, v3);
    let v4: nat = 8877273464nat;
    let e4: nat = lemma_power_mod_bit(x, n, e3, v3, 0, v4);
}

/// A power modulo 12048837557, one binary digit of the exponent at a time.
proof fn lemma_power_12048837557_6()
    ensures
        power_mod(16384nat, 9254nat, 12048837557nat) == 4746995210nat,
{
    let n: nat = 12048837557nat;
    let x: nat = 16384nat;
    lemma_power_mod_start(x, n);
    let e0: nat = 0;
    let v0: nat = 1;
    let v1: nat = 16384nat;
    let e1: nat = lemma_power_mod_bit(x, n, e0, v0, 1, v1);
    let v2: nat = 268435456nat;
    let e2: nat = lemma_power_mod_bit(x, n, e1, v1, 0, v2);
    let v3: nat = 2981791716nat;
    let e3: nat = lemma_power_mod_bit(x, n, e2, v2, 0, v3);
    let v4: nat = 7171588180nat;
    let e4: nat = lemma_power_mod_bit(x, n, e3, v3, 1, v4);
    let v5: nat = 3126182207nat;
    let e5: nat = lemma_power_mod_bit(x, n, e4, v4, 0, v5);
    let v6: nat = 1870180285nat;
    let e6: nat = lemma_power_mod_bit(x, n, e5, v5, 0, v6);
    let v7: nat = 7446330258nat;
    let e7: nat = lemma_power_mod_bit(x, n, e6, v6, 0, v7);
    let v8: nat = 7255993059nat;
    let e8: nat = lemma_power_mod_bit(x, n, e7, v7, 0, v8);
    let v9: nat = 5069647569nat;
    let e9: nat = lemma_power_mod_bit(x, n, e8, v8, 1, v9);
    let v10: nat = 11360228738nat;
    let e10: nat = lemma_power_mod_bit(x, n, e9, v9, 0, v10);
    let v11: nat = 7158139305nat;
    let e11: nat = lemma_power_mod_bit(x, n, e10, v10, 0, v11);
    let v12: nat = 10338464264nat;
    let e12: nat = lemma_power_mod_bit(x, n, e11, v11, 1, v12);
    let v13: nat = 7327720694nat;
    let e13: nat = lemma_power_mod_bit(x, n, e12, v12, 1, v13);
    let v14: nat = 4746995210nat;
    let e14: nat = lemma_power_mod_bit(x, n, e13, v13, 0, v14);
}

/// A power modulo 12048837557, one binary digit of the exponent at a time.
proof fn lemma_power_12048837557_7()
    ensures
        power_mod(12048837556nat, 2nat, 12048837557nat) == 1nat,
{
    let n: nat = 12048837557nat;
    let x: nat = 12048837556nat;
    lemma_power_mod_start(x, n);
    let e0: nat = 0;
    let v0: nat = 1;
    let v1: nat = 12048837556nat;
    let e1: nat = lemma_power_mod_bit(x, n, e0, v0, 1, v1);
    let v2: nat = 1nat;
    let e2: nat = lemma_power_mod_bit(x, n, e1, v1, 0, v2);
}

/// 12048837557 is prime.
proof fn lemma_prime_12048837557()
    ensures
        is_prime(12048837557nat),
{
    let n: nat = 12048837557nat;
    let g: nat = 2;
    lemma_power_12048837557_0();
    lemma_power_12048837557_1();
    lemma_power_of_power(g, n, 14nat, 16384nat, 93001nat, 1248843820nat);
    lemma_power_12048837557_2();
    lemma_power_of_power(g, n, 1302014nat, 1248843820nat, 661nat, 9967741484nat);
    lemma_power_12048837557_3();
    lemma_power_of_power(g, n, 860631254nat, 9967741484nat, 7nat, 12048837556nat);
    lemma_power_12048837557_4();
    lemma_power_of_power(g, n, 860631254nat, 9967741484nat, 2nat, 41029474nat);
    lemma_power_12048837557_5();
    lemma_power_of_power(g, n, 1302014nat, 1248843820nat, 14nat, 8877273464nat);
    lemma_power_12048837557_6();
    lemma_power_of_power(g, n, 14nat, 16384nat, 9254nat, 4746995210nat);
    lemma_power_12048837557_7();
    lemma_power_of_power(g, n, 6024418778nat, 12048837556nat, 2nat, 1nat);
    lemma_prime_2();
    lemma_prime_7();
    lemma_prime_661();
    lemma_prime_93001();
    lemma_witnessed_empty(n, g);
    let s0: Seq<nat> = Seq::empty();
    lemma_witnessed_push(n, g, s0, 2);
    let s1: Seq<nat> = s0.push(2);
    lemma_witnessed_push(n, g, s1, 2);
    let s2: Seq<nat> = s1.push(2);
    lemma_witnessed_push(n, g, s2, 7);
    let s3: Seq<nat> = s2.push(7);
    lemma_witnessed_push(n, g, s3, 7);
    let s4: Seq<nat> = s3.push(7);
    lemma_witnessed_push(n, g, s4, 661);
    let s5: Seq<nat> = s4.push(661);
    lemma_witnessed_push(n, g, s5, 93001);
    let s6: Seq<nat> = s5.push(93001);
    lemma_lucas(n, g, s6);
}

/// A power modulo 5156902474397, one binary digit of the exponent at a time.
proof fn lemma_power_5156902474397_0()
    ensures
        power_mod(2nat, 2nat, 5156902474397nat) == 4nat,
{
    let n: nat = 5156902474397nat;
    let x: nat = 2nat;
    lemma_power_mod_start(x, n);
    let e0: nat = 0;
    let v0: nat = 1;
    let v1: nat = 2nat;
    let e1: nat = lemma_power_mod_bit(x, n, e0, v0, 1, v1);
    let v2: nat = 4nat;
    let e2: nat = lemma_power_mod_bit(x, n, e1, v1, 0, v2);
}

/// A power modulo 5156902474397, one binary digit of the exponent at a time.
proof fn lemma_power_5156902474397_1()
    ensures
        power_mod(4nat, 12048837557nat, 5156902474397nat) == 651773352142nat,
{
    let n: nat = 5156902474397nat;
    let x: nat = 4nat;
    lemma_power_mod_start(x, n);
    let e0: nat = 0;
    let v0: nat = 1;
    let v1: nat = 4nat;
    let e1: nat = lemma_power_mod_bit(x, n, e0, v0, 1, v1);
    let v2: nat = 16nat;
    let e2: nat = lemma_power_mod_bit(x, n, e1, v1, 0, v2);
    let v3: nat = 1024nat;
    let e3: nat = lemma_power_mod_bit(x, n, e2, v2, 1, v3);
    let v4: nat = 4194304nat;
    let e4: nat = lemma_power_mod_bit(x, n, e3, v3, 1, v4);
    let v5: nat = 2121478621225nat;
    let e5: nat = lemma_power_mod_bit(x, n, e4, v4, 0, v5);
    let v6: nat = 2189513198846nat;
    let e6: nat = lemma_power_mod_bit(x, n, e5, v5, 0, v6);
    let v7: nat = 4557162961306nat;
    let e7: nat = lemma_power_mod_bit(x, n, e6, v6, 1, v7);
    let v8: nat = 4561981025072nat;
    let e8: nat = lemma_power_mod_bit(x, n, e7, v7, 1, v8);
    let v9: nat = 3313920779201nat;
    let e9: nat = lemma_power_mod_bit(x, n, e8, v8, 1, v9);
    let v10: nat = 4472267225538nat;
    let e10: nat = lemma_power_mod_bit(x, n, e9, v9, 0, v10);
    let v11: nat = 2203038787765nat;
    let e11: nat = lemma_power_mod_bit(x, n, e10, v10, 0, v11);
    let v12: nat = 4888884673861nat;
    let e12: nat = lemma_power_mod_bit(x, n, e11, v11, 0, v12);
    let v13: nat = 4244113323908nat;
    let e13: nat = lemma_power_mod_bit(x, n, e12, v12, 1, v13);
    let v14: nat = 2663911525854nat;
    let e14: nat = lemma_power_mod_bit(x, n, e13, v13, 0, v14);
    let v15: nat = 2757631940018nat;
    let e15: nat = lemma_power_mod_bit(x, n, e14, v14, 1, v15);
    let v16: nat = 2202285396857nat;
    let e16: nat = lemma_power_mod_bit(x, n, e15, v15, 0, v16);
    let v17: nat = 2509100398796nat;
    let e17: nat = lemma_power_mod_bit(x, n, e16, v16, 1, v17);
    let v18: nat = 2078301168467nat;
    let e18: nat = lemma_power_mod_bit(x, n, e17, v17, 0, v18);
    let v19: nat = 3981764034225nat;
    let e19: nat = lemma_power_mod_bit(x, n, e18, v18, 1, v19);
    let v20: nat = 2610476011864nat;
    let e20: nat = lemma_power_mod_bit(x, n, e19, v19, 0, v20);
    let v21: nat = 3408947270743nat;
    let e21: nat = lemma_power_mod_bit(x, n, e20, v20, 1, v21);
    let v22: nat = 304078951422nat;
    let e22: nat = lemma_power_mod_bit(x, n, e21, v21, 0, v22);
    let v23: nat = 417457207361nat;
    let e23: nat = lemma_power_mod_bit(x, n, e22, v22, 1, v23);
    let v24: nat = 4555785694204nat;
    let e24: nat = lemma_power_mod_bit(x, n, e23, v23, 0, v24);
    let v25: nat = 604244846798nat;
    let e25: nat = lemma_power_mod_bit(x, n, e24, v24, 1, v25);
    let v26: nat = 3749882742015nat;
    let e26: nat = lemma_power_mod_bit(x, n, e25, v25, 1, v26);
    let v27: nat = 1184050977974nat;
    let e27: nat = lemma_power_mod_bit(x, n, e26, v26, 1, v27);
    let v28: nat = 3905842773295nat;
    let e28: nat = lemma_power_mod_bit(x, n, e27, v27, 0, v28);
    let v29: nat = 3916474283676nat;
    let e29: nat = lemma_power_mod_bit(x, n, e28, v28, 1, v29);
    let v30: nat = 2041290565276nat;
    let e30: nat = lemma_power_mod_bit(x, n, e29, v29, 1, v30);
    let v31: nat = 1740567958030nat;
    let e31: nat = lemma_power_mod_bit(x, n, e30, v30, 0, v31);
    let v32: nat = 3829595720659nat;
    let e32: nat = lemma_power_mod_bit(x, n, e31, v31, 1, v32);
    let v33: nat = 183330361881nat;
    let e33: nat = lemma_power_mod_bit(x, n, e32, v32, 0, v33);
    let v34: nat = 651773352142nat;
    let e34: nat = lemma_power_mod_bit(x, n, e33, v33, 1, v34);
}

/// A power modulo 5156902474397, one binary digit of the exponent at a time.
proof fn lemma_power_5156902474397_2()
    ensures
        power_mod(651773352142nat, 107nat, 5156902474397nat) == 5156902474396nat,
{
    let n: nat = 5156902474397nat;
    let x: nat = 651773352142nat;
    lemma_power_mod_start(x, n);
    let e0: nat = 0;
    let v0: nat = 1;
    let v1: nat = 651773352142nat;
    let e1: nat = lemma_power_mod_bit(x, n, e0, v0, 1, v1);
    let v2: nat = 2667428044972nat;
    let e2: nat = lemma_power_mod_bit(x, n, e1, v1, 1, v2);
    let v3: nat = 4318363348565nat;
    let e3: nat = lemma_power_mod_bit(x, n, e2, v2, 0, v3);
    let v4: nat = 2402145762002nat;
    let e4: nat = lemma_power_mod_bit(x, n, e3, v3, 1, v4);
    let v5: nat = 4711364404825nat;
    let e5: nat = lemma_power_mod_bit(x, n, e4, v4, 0, v5);
    let v6: nat = 4323426387765nat;
    let e6: nat = lemma_power_mod_bit(x, n, e5, v5, 1, v6);
    let v7: nat = 5156902474396nat;
    let e7: nat = lemma_power_mod_bit(x, n, e6, v6, 1, v7);
}

/// A power modulo 5156902474397, one binary digit of the exponent at a time.
proof fn lemma_power_5156902474397_3()
    ensures
        power_mod(651773352142nat, 2nat, 5156902474397nat) == 4827909776387nat,
{
    let n: nat = 5156902474397nat;
    let x: nat = 651773352142nat;
    lemma_power_mod_start(x, n);
    let e0: nat = 0;
    let v0: nat = 1;
    let v1: nat = 651773352142nat;
    let e1: nat = lemma_power_mod_bit(x, n, e0, v0, 1, v1);
    let v2: nat = 4827909776387nat;
    let e2: nat = lemma_power_mod_bit(x, n, e1, v1, 0, v2);
}

/// A power modulo 5156902474397, one binary digit of the exponent at a time.
proof fn lemma_power_5156902474397_4()
    ensures
        power_mod(4nat, 214nat, 5156902474397nat) == 4746712836098nat,
{
    let n: nat = 5156902474397nat;
    let x: nat = 4nat;
    lemma_power_mod_start(x, n);
    let e0: nat = 0;
    let v0: nat = 1;
    let v1: nat = 4nat;
    let e1: nat = lemma_power_mod_bit(x, n, e0, v0, 1, v1);
    let v2: nat = 64nat;
    let e2: nat = lemma_power_mod_bit(x, n, e1, v1, 1, v2);
    let v3: nat = 4096nat;
    let e3: nat = lemma_power_mod_bit(x, n, e2, v2, 0, v3);
    let v4: nat = 67108864nat;
    let e4: nat = lemma_power_mod_bit(x, n, e3, v3, 1, v4);
    let v5: nat = 1623767221915nat;
    let e5: nat = lemma_power_mod_bit(x, n, e4, v4, 0, v5);
    let v6: nat = 4502597899724nat;
    let e6: nat = lemma_power_mod_bit(x, n, e5, v5, 1, v6);
    let v7: nat = 5053068510787nat;
    let e7: nat = lemma_power_mod_bit(x, n, e6, v6, 1, v7);
    let v8: nat = 4746712836098nat;
    let e8: nat = lemma_power_mod_bit(x, n, e7, v7, 0, v8);
}

/// A power modulo 5156902474397, one binary digit of the exponent at a time.
proof fn lemma_power_5156902474397_5()
    ensures
        power_mod(5156902474396nat, 2nat, 5156902474397nat) == 1nat,
{
    let n: nat = 5156902474397nat;
    let x: nat = 5156902474396nat;
    lemma_power_mod_start(x, n);
    let e0: nat = 0;
    let v0: nat = 1;
    let v1: nat = 5156902474396nat;
    let e1: nat = lemma_power_mod_bit(x, n, e0, v0, 1, v1);
    let v2: nat = 1nat;
    let e2: nat = lemma_power_mod_bit(x, n, e1, v1, 0, v2);
}

/// 5156902474397 is prime.
proof fn lemma_prime_5156902474397()
    ensures
        is_prime(5156902474397nat),
{
    let n: nat = 5156902474397nat;
    let g: nat = 2;
    lemma_power_5156902474397_0();
    lemma_power_5156902474397_1();
    lemma_power_of_power(g, n, 2nat, 4nat, 12048837557nat, 651773352142nat);
    lemma_power_5156902474397_2();
    lemma_power_of_power(g, n, 24097675114nat, 651773352142nat, 107nat, 5156902474396nat);
    lemma_power_5156902474397_3();
    lemma_power_of_power(g, n, 24097675114nat, 651773352142nat, 2nat, 4827909776387nat);
    lemma_power_5156902474397_4();
    lemma_power_of_power(g, n, 2nat, 4nat, 214nat, 4746712836098nat);
    lemma_power_5156902474397_5();
    lemma_power_of_power(g, n, 2578451237198nat, 5156902474396nat, 2nat, 1nat);
    lemma_prime_2();
    lemma_prime_107();
    lemma_prime_12048837557();
    lemma_witnessed_empty(n, g);
    let s0: Seq<nat> = Seq::empty();
    lemma_witnessed_push(n, g, s0, 2);
    let s1: Seq<nat> = s0.push(2);
    lemma_witnessed_push(n, g, s1, 2);
    let s2: Seq<nat> = s1.push(2);
    lemma_witnessed_push(n, g, s2, 107);
    let s3: Seq<nat> = s2.push(107);
    lemma_witnessed_push(n, g, s3, 12048837557);
    let s4: Seq<nat> = s3.push(12048837557);
    lemma_lucas(n, g, s4);
}

/// A power modulo 1670836401704629, one binary digit of the exponent at a time.
proof fn lemma_power_1670836401704629_0()
    ensures
        power_mod(2nat, 54nat, 1670836401704629nat) == 1306034492435694nat,
{
    let n: nat = 1670836401704629nat;
    let x: nat = 2nat;
    lemma_power_mod_start(x, n);
    let e0: nat = 0;
    let v0: nat = 1;
    let v1: nat = 2nat;
    let e1: nat = lemma_power_mod_bit(x, n, e0, v0, 1, v1);
    let v2: nat = 8nat;
    let e2: nat = lemma_power_mod_bit(x, n, e1, v1, 1, v2);
    let v3: nat = 64nat;
    let e3: nat = lemma_power_mod_bit(x, n, e2, v2, 0, v3);
    let v4: nat = 8192nat;
    let e4: nat = lemma_power_mod_bit(x, n, e3, v3, 1, v4);
    let v5: nat = 134217728nat;
    let e5: nat = lemma_power_mod_bit(x, n, e4, v4, 1, v5);
    let v6: nat = 1306034492435694nat;
    let e6: nat = lemma_power_mod_bit(x, n, e5, v5, 0, v6);
}

/// A power modulo 1670836401704629, one binary digit of the exponent at a time.
proof fn lemma_power_1670836401704629_1()
    ensures
        power_mod(
            1306034492435694nat,
            5156902474397nat,
            1670836401704629nat,
        ) == 1322408984917241nat,
{
    let n: nat = 1670836401704629nat;
    let x: nat = 1306034492435694nat;
    lemma_power_mod_start(x, n);
    let e0: nat = 0;
    let v0: nat = 1;
    let v1: nat = 1306034492435694nat;
    let e1: nat = lemma_power_mod_bit(x, n, e0, v0, 1, v1);
    let v2: nat = 929988429746416nat;
    let e2: nat = lemma_power_mod_bit(x, n, e1, v1, 0, v2);
    let v3: nat = 1164723820667814nat;
    let e3: nat = lemma_power_mod_bit(x, n, e2, v2, 0, v3);
    let v4: nat = 1462909191054867nat;
    let e4: nat = lemma_power_mod_bit(x, n, e3, v3, 1, v4);
    let v5: nat = 1174909460075042nat;
    let e5: nat = lemma_power_mod_bit(x, n, e4, v4, 0, v5);
    let v6: nat = 1466651429988604nat;
    let e6: nat = lemma_power_mod_bit(x, n, e5, v5, 1, v6);
    let v7: nat = 906184803354557nat;
    let e7: nat = lemma_power_mod_bit(x, n, e6, v6, 1, v7);
    let v8: nat = 235383406895516nat;
    let e8: nat = lemma_power_mod_bit(x, n, e7, v7, 0, v8);
    let v9: nat = 485620358083194nat;
    let e9: nat = lemma_power_mod_bit(x, n, e8, v8, 0, v9);
    let v10: nat = 572797866338192nat;
    let e10: nat = lemma_power_mod_bit(x, n, e9, v9, 0, v10);
    let v11: nat = 1148266318988430nat;
    let e11: nat = lemma_power_mod_bit(x, n, e10, v10, 0, v11);
    let v12: nat = 1253986550175559nat;
    let e12: nat = lemma_power_mod_bit(x, n, e11, v11, 1, v12);
    let v13: nat = 410071437030293nat;
    let e13: nat = lemma_power_mod_bit(x, n, e12, v12, 0, v13);
    let v14: nat = 1605139084737823nat;
    let e14: nat = lemma_power_mod_bit(x, n, e13, v13, 1, v14);
    let v15: nat = 546793684741589nat;
    let e15: nat = lemma_power_mod_bit(x, n, e14, v14, 0, v15);
    let v16: nat = 445724991948398nat;
    let e16: nat = lemma_power_mod_bit(x, n, e15, v15, 1, v16);
    let v17: nat = 743353227849275nat;
    let e17: nat = lemma_power_mod_bit(x, n, e16, v16, 1, v17);
    let v18: nat = 1495161516630174nat;
    let e18: nat = lemma_power_mod_bit(x, n, e17, v17, 1, v18);
    let v19: nat = 1516130408214724nat;
    let e19: nat = lemma_power_mod_bit(x, n, e18, v18, 1, v19);
    let v20: nat = 1559499963552552nat;
    let e20: nat = lemma_power_mod_bit(x, n, e19, v19, 0, v20);
    let v21: nat = 667622608900422nat;
    let e21: nat = lemma_power_mod_bit(x, n, e20, v20, 1, v21);
    let v22: nat = 552885003777530nat;
    let e22: nat = lemma_power_mod_bit(x, n, e21, v21, 0, v22);
    let v23: nat = 723070450391732nat;
    let e23: nat = lemma_power_mod_bit(x, n, e22, v22, 1, v23);
    let v24: nat = 1069175687953492nat;
    let e24: nat = lemma_power_mod_bit(x, n, e23, v23, 0, v24);
    let v25: nat = 1316946162404376nat;
    let e25: nat = lemma_power_mod_bit(x, n, e24, v24, 1, v25);
    let v26: nat = 1042057668457996nat;
    let e26: nat = lemma_power_mod_bit(x, n, e25, v25, 1, v26);
    let v27: nat = 836768583446653nat;
    let e27: nat = lemma_power_mod_bit(x, n, e26, v26, 1, v27);
    let v28: nat = 1024239918361422nat;
    let e28: nat = lemma_power_mod_bit(x, n, e27, v27, 0, v28);
    let v29: nat = 703615594965926nat;
    let e29: nat = lemma_power_mod_bit(x, n, e28, v28, 0, v29);
    let v30: nat = 1436769771581527nat;
    let e30: nat = lemma_power_mod_bit(x, n, e29, v29, 0, v30);
    let v31: nat = 1361232051212643nat;
    let e31: nat = lemma_power_mod_bit(x, n, e30, v30, 1, v31);
    let v32: nat = 247037550736429nat;
    let e32: nat = lemma_power_mod_bit(x, n, e31, v31, 0, v32);
    let v33: nat = 525583736589969nat;
    let e33: nat = lemma_power_mod_bit(x, n, e32, v32, 0, v33);
    let v34: nat = 1197683963058857nat;
    let e34: nat = lemma_power_mod_bit(x, n, e33, v33, 1, v34);
    let v35: nat = 1105208664368467nat;
    let e35: nat = lemma_power_mod_bit(x, n, e34, v34, 0, v35);
    let v36: nat = 1390998818382519nat;
    let e36: nat = lemma_power_mod_bit(x, n, e35, v35, 1, v36);
    let v37: nat = 1227614746176218nat;
    let e37: nat = lemma_power_mod_bit(x, n, e36, v36, 0, v37);
    let v38: nat = 663401648735825nat;
    let e38: nat = lemma_power_mod_bit(x, n, e37, v37, 0, v38);
    let v39: nat = 853971005277254nat;
    let e39: nat = lemma_power_mod_bit(x, n, e38, v38, 1, v39);
    let v40: nat = 1075777461959671nat;
    let e40: nat = lemma_power_mod_bit(x, n, e39, v39, 1, v40);
    let v41: nat = 1022972898604018nat;
    let e41: nat = lemma_power_mod_bit(x, n, e40, v40, 1, v41);
    let v42: nat = 983686222388612nat;
    let e42: nat = lemma_power_mod_bit(x, n, e41, v41, 0, v42);
    let v43: nat = 1322408984917241nat;
    let e43: nat = lemma_power_mod_bit(x, n, e42, v42, 1, v43);
}

/// A power modulo 1670836401704629, one binary digit of the exponent at a time.
proof fn lemma_power_1670836401704629_2()
    ensures
        power_mod(1322408984917241nat, 3nat, 1670836401704629nat) == 1670836401704628nat,
{
    let n: nat = 1670836401704629nat;
    let x: nat = 1322408984917241nat;
    lemma_power_mod_start(x, n);
    let e0: nat = 0;
    let v0: nat = 1;
    let v1: nat = 1322408984917241nat;
    let e1: nat = lemma_power_mod_bit(x, n, e0, v0, 1, v1);
    let v2: nat = 1670836401704628nat;
    let e2: nat = lemma_power_mod_bit(x, n, e1, v1, 1, v2);
}

/// A power modulo 1670836401704629, one binary digit of the exponent at a time.
proof fn lemma_power_1670836401704629_3()
    ensures
        power_mod(1322408984917241nat, 2nat, 1670836401704629nat) == 1322408984917240nat,
{
    let n: nat = 1670836401704629nat;
    let x: nat = 1322408984917241nat;
    lemma_power_mod_start(x, n);
    let e0: nat = 0;
    let v0: nat = 1;
    let v1: nat = 1322408984917241nat;
    let e1: nat = lemma_power_mod_bit(x, n, e0, v0, 1, v1);
    let v2: nat = 1322408984917240nat;
    let e2: nat = lemma_power_mod_bit(x, n, e1, v1, 0, v2);
}

/// A power modulo 1670836401704629, one binary digit of the exponent at a time.
proof fn lemma_power_1670836401704629_4()
    ensures
        power_mod(1306034492435694nat, 6nat, 1670836401704629nat) == 11046204280772nat,
{
    let n: nat = 1670836401704629nat;
    let x: nat = 1306034492435694nat;
    lemma_power_mod_start(x, n);
    let e0: nat = 0;
    let v0: nat = 1;
    let v1: nat = 1306034492435694nat;
    let e1: nat = lemma_power_mod_bit(x, n, e0, v0, 1, v1);
    let v2: nat = 253377396054226nat;
    let e2: nat = lemma_power_mod_bit(x, n, e1, v1, 1, v2);
    let v3: nat = 11046204280772nat;
    let e3: nat = lemma_power_mod_bit(x, n, e2, v2, 0, v3);
}

/// A power modulo 1670836401704629, one binary digit of the exponent at a time.
proof fn lemma_power_1670836401704629_5()
    ensures
        power_mod(1670836401704628nat, 2nat, 1670836401704629nat) == 1nat,
{
    let n: nat = 1670836401704629nat;
    let x: nat = 1670836401704628nat;
    lemma_power_mod_start(x, n);
    let e0: nat = 0;
    let v0: nat = 1;
    let v1: nat = 1670836401704628nat;
    let e1: nat = lemma_power_mod_bit(x, n, e0, v0, 1, v1);
    let v2: nat = 1nat;
    let e2: nat = lemma_power_mod_bit(x, n, e1, v1, 0, v2);
}

/// 1670836401704629 is prime.
proof fn lemma_prime_1670836401704629()
    ensures
        is_prime(1670836401704629nat),
{
    let n: nat = 1670836401704629nat;
    let g: nat = 2;
    lemma_power_1670836401704629_0();
    lemma_power_1670836401704629_1();
    lemma_power_of_power(g, n, 54nat, 1306034492435694nat, 5156902474397nat, 1322408984917241nat);
    lemma_power_1670836401704629_2();
    lemma_power_of_power(g, n, 278472733617438nat, 1322408984917241nat, 3nat, 1670836401704628nat);
    lemma_power_1670836401704629_3();
    lemma_power_of_power(g, n, 278472733617438nat, 1322408984917241nat, 2nat, 1322408984917240nat);
    lemma_power_1670836401704629_4();
    lemma_power_of_power(g, n, 54nat, 1306034492435694nat, 6nat, 11046204280772nat);
    lemma_power_1670836401704629_5();
    lemma_power_of_power(g, n, 835418200852314nat, 1670836401704628nat, 2nat, 1nat);
    lemma_prime_2();
    lemma_prime_3();
    lemma_prime_5156902474397();
    lemma_witnessed_empty(n, g);
    let s0: Seq<nat> = Seq::empty();
    lemma_witnessed_push(n, g, s0, 2);
    let s1: Seq<nat> = s0.push(2);
    lemma_witnessed_push(n, g, s1, 2);
    let s2: Seq<nat> = s1.push(2);
    lemma_witnessed_push(n, g, s2, 3);
    let s3: Seq<nat> = s2.push(3);
    lemma_witnessed_push(n, g, s3, 3);
    let s4: Seq<nat> = s3.push(3);
    lemma_witnessed_push(n, g, s4, 3);
    let s5: Seq<nat> = s4.push(3);
    lemma_witnessed_push(n, g, s5, 3);
    let s6: Seq<nat> = s5.push(3);
    lemma_witnessed_push(n, g, s6, 5156902474397);
    let s7: Seq<nat> = s6.push(5156902474397);
    lemma_lucas(n, g, s7);
}

/// A power modulo 65865678001877903, one binary digit of the exponent at a time.
proof fn lemma_power_65865678001877903_0()
    ensures
        power_mod(5nat, 1nat, 65865678001877903nat) == 5nat,
{
    let n: nat = 65865678001877903nat;
    let x: nat = 5nat;
    lemma_power_mod_start(x, n);
    let e0: nat = 0;
    let v0: nat = 1;
    let v1: nat = 5nat;
    let e1: nat = lemma_power_mod_bit(x, n, e0, v0, 1, v1);
}

/// A power modulo 65865678001877903, one binary digit of the exponent at a time.
proof fn lemma_power_65865678001877903_1()
    ensures
        power_mod(5nat, 639533339nat, 65865678001877903nat) == 14291333922002103nat,
{
    let n: nat = 65865678001877903nat;
    let x: nat = 5nat;
    lemma_power_mod_start(x, n);
    let e0: nat = 0;
    let v0: nat = 1;
    let v1: nat = 5nat;
    let e1: nat = lemma_power_mod_bit(x, n, e0, v0, 1, v1);
    let v2: nat = 25nat;
    let e2: nat = lemma_power_mod_bit(x, n, e1, v1, 0, v2);
    let v3: nat = 625nat;
    let e3: nat = lemma_power_mod_bit(x, n, e2, v2, 0, v3);
    let v4: nat = 1953125nat;
    let e4: nat = lemma_power_mod_bit(x, n, e3, v3, 1, v4);
    let v5: nat = 19073486328125nat;
    let e5: nat = lemma_power_mod_bit(x, n, e4, v4, 1, v5);
    let v6: nat = 30073421035037579nat;
    let e6: nat = lemma_power_mod_bit(x, n, e5, v5, 0, v6);
    let v7: nat = 27629831272661539nat;
    let e7: nat = lemma_power_mod_bit(x, n, e6, v6, 0, v7);
    let v8: nat = 48324055208724978nat;
    let e8: nat = lemma_power_mod_bit(x, n, e7, v7, 0, v8);
    let v9: nat = 13254792146927291nat;
    let e9: nat = lemma_power_mod_bit(x, n, e8, v8, 0, v9);
    let v10: nat = 30530094841960115nat;
    let e10: nat = lemma_power_mod_bit(x, n, e9, v9, 1, v10);
    let v11: nat = 58305560649826194nat;
    let e11: nat = lemma_power_mod_bit(x, n, e10, v10, 1, v11);
    let v12: nat = 56233051099361011nat;
    let e12: nat = lemma_power_mod_bit(x, n, e11, v11, 1, v12);
    let v13: nat = 2579279043984813nat;
    let e13: nat = lemma_power_mod_bit(x, n, e12, v12, 1, v13);
    let v14: nat = 64485061175004322nat;
    let e14: nat = lemma_power_mod_bit(x, n, e13, v13, 0, v14);
    let v15: nat = 62164683138879570nat;
    let e15: nat = lemma_power_mod_bit(x, n, e14, v14, 1, v15);
    let v16: nat = 23389370722267201nat;
    let e16: nat = lemma_power_mod_bit(x, n, e15, v15, 0, v16);
    let v17: nat = 23573661930544610nat;
    let e17: nat = lemma_power_mod_bit(x, n, e16, v16, 0, v17);
    let v18: nat = 12831036026906204nat;
    let e18: nat = lemma_power_mod_bit(x, n, e17, v17, 0, v18);
    let v19: nat = 59213603158558926nat;
    let e19: nat = lemma_power_mod_bit(x, n, e18, v18, 0, v19);
    let v20: nat = 22361109540716760nat;
    let e20: nat = lemma_power_mod_bit(x, n, e19, v19, 0, v20);
    let v21: nat = 19206524017659335nat;
    let e21: nat = lemma_power_mod_bit(x, n, e20, v20, 0, v21);
    let v22: nat = 41230389135556383nat;
    let e22: nat = lemma_power_mod_bit(x, n, e21, v21, 1, v22);
    let v23: nat = 65416446574376534nat;
    let e23: nat = lemma_power_mod_bit(x, n, e22, v22, 0, v23);
    let v24: nat = 51027437410397637nat;
    let e24: nat = lemma_power_mod_bit(x, n, e23, v23, 0, v24);
    let v25: nat = 48267802027446870nat;
    let e25: nat = lemma_power_mod_bit(x, n, e24, v24, 0, v25);
    let v26: nat = 60830421286046099nat;
    let e26: nat = lemma_power_mod_bit(x, n, e25, v25, 1, v26);
    let v27: nat = 22160518190758407nat;
    let e27: nat = lemma_power_mod_bit(x, n, e26, v26, 1, v27);
    let v28: nat = 54408039936505029nat;
    let e28: nat = lemma_power_mod_bit(x, n, e27, v27, 0, v28);
    let v29: nat = 22919181756282816nat;
    let e29: nat = lemma_power_mod_bit(x, n, e28, v28, 1, v29);
    let v30: nat = 14291333922002103nat;
    let e30: nat = lemma_power_mod_bit(x, n, e29, v29, 1, v30);
}

/// A power modulo 65865678001877903, one binary digit of the exponent at a time.
proof fn lemma_power_65865678001877903_2()
    ensures
        power_mod(14291333922002103nat, 62914nat, 65865678001877903nat) == 56641079936670322nat,
{
    let n: nat = 65865678001877903nat;
    let x: nat = 14291333922002103nat;
    lemma_power_mod_start(x, n);
    let e0: nat = 0;
    let v0: nat = 1;
    let v1: nat = 14291333922002103nat;
    let e1: nat = lemma_power_mod_bit(x, n, e0, v0, 1, v1);
    let v2: nat = 49968714837497929nat;
    let e2: nat = lemma_power_mod_bit(x, n, e1, v1, 1, v2);
    let v3: nat = 4425680070942428nat;
    let e3: nat = lemma_power_mod_bit(x, n, e2, v2, 1, v3);
    let v4: nat = 38558723534680936nat;
    let e4: nat = lemma_power_mod_bit(x, n, e3, v3, 1, v4);
    let v5: nat = 48124931700395596nat;
    let e5: nat = lemma_power_mod_bit(x, n, e4, v4, 0, v5);
    let v6: nat = 4288958165545320nat;
    let e6: nat = lemma_power_mod_bit(x, n, e5, v5, 1, v6);
    let v7: nat = 6958880832943482nat;
    let e7: nat = lemma_power_mod_bit(x, n, e6, v6, 0, v7);
    let v8: nat = 62637538590507371nat;
    let e8: nat = lemma_power_mod_bit(x, n, e7, v7, 1, v8);
    let v9: nat = 58253062713080828nat;
    let e9: nat = lemma_power_mod_bit(x, n, e8, v8, 1, v9);
    let v10: nat = 17031141744223194nat;
    let e10: nat = lemma_power_mod_bit(x, n, e9, v9, 1, v10);
    let v11: nat = 33011782894116104nat;
    let e11: nat = lemma_power_mod_bit(x, n, e10, v10, 0, v11);
    let v12: nat = 36160604393642850nat;
    let e12: nat = lemma_power_mod_bit(x, n, e11, v11, 0, v12);
    let v13: nat = 57335097597647668nat;
    let e13: nat = lemma_power_mod_bit(x, n, e12, v12, 0, v13);
    let v14: nat = 36522815551558718nat;
    let e14: nat = lemma_power_mod_bit(x, n, e13, v13, 0, v14);
    let v15: nat = 48552362173290784nat;
    let e15: nat = lemma_power_mod_bit(x, n, e14, v14, 1, v15);
    let v16: nat = 56641079936670322nat;
    let e16: nat = lemma_power_mod_bit(x, n, e15, v15, 0, v16);
}

/// A power modulo 65865678001877903, one binary digit of the exponent at a time.
proof fn lemma_power_65865678001877903_3()
    ensures
        power_mod(14291333922002103nat, 1637nat, 65865678001877903nat) == 4503656306096617nat,
{
    let n: nat = 65865678001877903nat;
    let x: nat = 14291333922002103nat;
    lemma_power_mod_start(x, n);
    let e0: nat = 0;
    let v0: nat = 1;
    let v1: nat = 14291333922002103nat;
    let e1: nat = lemma_power_mod_bit(x, n, e0, v0, 1, v1);
    let v2: nat = 49968714837497929nat;
    let e2: nat = lemma_power_mod_bit(x, n, e1, v1, 1, v2);
    let v3: nat = 25373950600978450nat;
    let e3: nat = lemma_power_mod_bit(x, n, e2, v2, 0, v3);
    let v4: nat = 33184050029053925nat;
    let e4: nat = lemma_power_mod_bit(x, n, e3, v3, 0, v4);
    let v5: nat = 47690492229022570nat;
    let e5: nat = lemma_power_mod_bit(x, n, e4, v4, 1, v5);
    let v6: nat = 7207425725171157nat;
    let e6: nat = lemma_power_mod_bit(x, n, e5, v5, 1, v6);
    let v7: nat = 42567227274949442nat;
    let e7: nat = lemma_power_mod_bit(x, n, e6, v6, 0, v7);
    let v8: nat = 13826463539348091nat;
    let e8: nat = lemma_power_mod_bit(x, n, e7, v7, 0, v8);
    let v9: nat = 28331928693059046nat;
    let e9: nat = lemma_power_mod_bit(x, n, e8, v8, 1, v9);
    let v10: nat = 31504674119198881nat;
    let e10: nat = lemma_power_mod_bit(x, n, e9, v9, 0, v10);
    let v11: nat = 4503656306096617nat;
    let e11: nat = lemma_power_mod_bit(x, n, e10, v10, 1, v11);
}

/// A power modulo 65865678001877903, one binary digit of the exponent at a time.
proof fn lemma_power_65865678001877903_4()
    ensures
        power_mod(4503656306096617nat, 166nat, 65865678001877903nat) == 43783936274874531nat,
{
    let n: nat = 65865678001877903nat;
    let x: nat = 4503656306096617nat;
    lemma_power_mod_start(x, n);
    let e0: nat = 0;
    let v0: nat = 1;
    let v1: nat = 4503656306096617nat;
    let e1: nat = lemma_power_mod_bit(x, n, e0, v0, 1, v1);
    let v2: nat = 55498337682647256nat;
    let e2: nat = lemma_power_mod_bit(x, n, e1, v1, 0, v2);
    let v3: nat = 10439055404630076nat;
    let e3: nat = lemma_power_mod_bit(x, n, e2, v2, 1, v3);
    let v4: nat = 31355098976861725nat;
    let e4: nat = lemma_power_mod_bit(x, n, e3, v3, 0, v4);
    let v5: nat = 61010207739039908nat;
    let e5: nat = lemma_power_mod_bit(x, n, e4, v4, 0, v5);
    let v6: nat = 25149198484221133nat;
    let e6: nat = lemma_power_mod_bit(x, n, e5, v5, 1, v6);
    let v7: nat = 33033610337608657nat;
    let e7: nat = lemma_power_mod_bit(x, n, e6, v6, 1, v7);
    let v8: nat = 43783936274874531nat;
    let e8: nat = lemma_power_mod_bit(x, n, e7, v7, 0, v8);
}

/// A power modulo 65865678001877903, one binary digit of the exponent at a time.
proof fn lemma_power_65865678001877903_5()
    ensures
        power_mod(4503656306096617nat, 379nat, 65865678001877903nat) == 37873930659347893nat,
{
    let n: nat = 65865678001877903nat;
    let x: nat = 4503656306096617nat;
    lemma_power_mod_start(x, n);
    let e0: nat = 0;
    let v0: nat = 1;
    let v1: nat = 4503656306096617nat;
    let e1: nat = lemma_power_mod_bit(x, n, e0, v0, 1, v1);
    let v2: nat = 55498337682647256nat;
    let e2: nat = lemma_power_mod_bit(x, n, e1, v1, 0, v2);
    let v3: nat = 10439055404630076nat;
    let e3: nat = lemma_power_mod_bit(x, n, e2, v2, 1, v3);
    let v4: nat = 36362872759191706nat;
    let e4: nat = lemma_power_mod_bit(x, n, e3, v3, 1, v4);
    let v5: nat = 47189099659014917nat;
    let e5: nat = lemma_power_mod_bit(x, n, e4, v4, 1, v5);
    let v6: nat = 61188723164078673nat;
    let e6: nat = lemma_power_mod_bit(x, n, e5, v5, 1, v6);
    let v7: nat = 37745246479954338nat;
    let e7: nat = lemma_power_mod_bit(x, n, e6, v6, 0, v7);
    let v8: nat = 62790563680399551nat;
    let e8: nat = lemma_power_mod_bit(x, n, e7, v7, 1, v8);
    let v9: nat = 37873930659347893nat;
    let e9: nat = lemma_power_mod_bit(x, n, e8, v8, 1, v9);
}

/// A power modulo 65865678001877903, one binary digit of the exponent at a time.
proof fn lemma_power_65865678001877903_6()
    ensures
        power_mod(37873930659347893nat, 83nat, 65865678001877903nat) == 65865678001877902nat,
{
    let n: nat = 65865678001877903nat;
    let x: nat = 37873930659347893nat;
    lemma_power_mod_start(x, n);
    let e0: nat = 0;
    let v0: nat = 1;
    let v1: nat = 37873930659347893nat;
    let e1: nat = lemma_power_mod_bit(x, n, e0, v0, 1, v1);
    let v2: nat = 46316002665751102nat;
    let e2: nat = lemma_power_mod_bit(x, n, e1, v1, 0, v2);
    let v3: nat = 51186071734802595nat;
    let e3: nat = lemma_power_mod_bit(x, n, e2, v2, 1, v3);
    let v4: nat = 40631110182125579nat;
    let e4: nat = lemma_power_mod_bit(x, n, e3, v3, 0, v4);
    let v5: nat = 13041223202348937nat;
    let e5: nat = lemma_power_mod_bit(x, n, e4, v4, 0, v5);
    let v6: nat = 38948720821081513nat;
    let e6: nat = lemma_power_mod_bit(x, n, e5, v5, 1, v6);
    let v7: nat = 65865678001877902nat;
    let e7: nat = lemma_power_mod_bit(x, n, e6, v6, 1, v7);
}

/// A power modulo 65865678001877903, one binary digit of the exponent at a time.
proof fn lemma_power_65865678001877903_7()
    ensures
        power_mod(37873930659347893nat, 2nat, 65865678001877903nat) == 46316002665751102nat,
{
    let n: nat = 65865678001877903nat;
    let x: nat = 37873930659347893nat;
    lemma_power_mod_start(x, n);
    let e0: nat = 0;
    let v0: nat = 1;
    let v1: nat = 37873930659347893nat;
    let e1: nat = lemma_power_mod_bit(x, n, e0, v0, 1, v1);
    let v2: nat = 46316002665751102nat;
    let e2: nat = lemma_power_mod_bit(x, n, e1, v1, 0, v2);
}

/// A power modulo 65865678001877903, one binary digit of the exponent at a time.
proof fn lemma_power_65865678001877903_8()
    ensures
        power_mod(5nat, 102990218nat, 65865678001877903nat) == 18968088485270649nat,
{
    let n: nat = 65865678001877903nat;
    let x: nat = 5nat;
    lemma_power_mod_start(x, n);
    let e0: nat = 0;
    let v0: nat = 1;
    let v1: nat = 5nat;
    let e1: nat = lemma_power_mod_bit(x, n, e0, v0, 1, v1);
    let v2: nat = 125nat;
    let e2: nat = lemma_power_mod_bit(x, n, e1, v1, 1, v2);
    let v3: nat = 15625nat;
    let e3: nat = lemma_power_mod_bit(x, n, e2, v2, 0, v3);
    let v4: nat = 244140625nat;
    let e4: nat = lemma_power_mod_bit(x, n, e3, v3, 0, v4);
    let v5: nat = 59604644775390625nat;
    let e5: nat = lemma_power_mod_bit(x, n, e4, v4, 0, v5);
    let v6: nat = 37458923767401796nat;
    let e6: nat = lemma_power_mod_bit(x, n, e5, v5, 1, v6);
    let v7: nat = 2820623742034264nat;
    let e7: nat = lemma_power_mod_bit(x, n, e6, v6, 0, v7);
    let v8: nat = 36958267116560625nat;
    let e8: nat = lemma_power_mod_bit(x, n, e7, v7, 0, v8);
    let v9: nat = 19443937378550312nat;
    let e9: nat = lemma_power_mod_bit(x, n, e8, v8, 0, v9);
    let v10: nat = 58696536632563093nat;
    let e10: nat = lemma_power_mod_bit(x, n, e9, v9, 1, v10);
    let v11: nat = 48871129220256727nat;
    let e11: nat = lemma_power_mod_bit(x, n, e10, v10, 1, v11);
    let v12: nat = 15590830293575173nat;
    let e12: nat = lemma_power_mod_bit(x, n, e11, v11, 1, v12);
    let v13: nat = 63514288564824671nat;
    let e13: nat = lemma_power_mod_bit(x, n, e12, v12, 0, v13);
    let v14: nat = 27493322169512846nat;
    let e14: nat = lemma_power_mod_bit(x, n, e13, v13, 0, v14);
    let v15: nat = 16088617646272899nat;
    let e15: nat = lemma_power_mod_bit(x, n, e14, v14, 0, v15);
    let v16: nat = 2959556363947370nat;
    let e16: nat = lemma_power_mod_bit(x, n, e15, v15, 0, v16);
    let v17: nat = 33250967539168916nat;
    let e17: nat = lemma_power_mod_bit(x, n, e16, v16, 0, v17);
    let v18: nat = 18112088975442417nat;
    let e18: nat = lemma_power_mod_bit(x, n, e17, v17, 0, v18);
    let v19: nat = 44022853474615748nat;
    let e19: nat = lemma_power_mod_bit(x, n, e18, v18, 1, v19);
    let v20: nat = 43908517796742614nat;
    let e20: nat = lemma_power_mod_bit(x, n, e19, v19, 1, v20);
    let v21: nat = 50827318291188680nat;
    let e21: nat = lemma_power_mod_bit(x, n, e20, v20, 0, v21);
    let v22: nat = 17252746320449300nat;
    let e22: nat = lemma_power_mod_bit(x, n, e21, v21, 0, v22);
    let v23: nat = 33513450061234789nat;
    let e23: nat = lemma_power_mod_bit(x, n, e22, v22, 0, v23);
    let v24: nat = 12710714035341061nat;
    let e24: nat = lemma_power_mod_bit(x, n, e23, v23, 1, v24);
    let v25: nat = 36024834207355038nat;
    let e25: nat = lemma_power_mod_bit(x, n, e24, v24, 0, v25);
    let v26: nat = 19170602707446668nat;
    let e26: nat = lemma_power_mod_bit(x, n, e25, v25, 1, v26);
    let v27: nat = 18968088485270649nat;
    let e27: nat = lemma_power_mod_bit(x, n, e26, v26, 0, v27);
}

/// A power modulo 65865678001877903, one binary digit of the exponent at a time.
proof fn lemma_power_65865678001877903_9()
    ensures
        power_mod(65865678001877902nat, 2nat, 65865678001877903nat) == 1nat,
{
    let n: nat = 65865678001877903nat;
    let x: nat = 65865678001877902nat;
    lemma_power_mod_start(x, n);
    let e0: nat = 0;
    let v0: nat = 1;
    let v1: nat = 65865678001877902nat;
    let e1: nat = lemma_power_mod_bit(x, n, e0, v0, 1, v1);
    let v2: nat = 1nat;
    let e2: nat = lemma_power_mod_bit(x, n, e1, v1, 0, v2);
}

/// 65865678001877903 is prime.
proof fn lemma_prime_65865678001877903()
    ensures
        is_prime(65865678001877903nat),
{
    let n: nat = 65865678001877903nat;
    let g: nat = 5;
    lemma_power_65865678001877903_0();
    lemma_power_65865678001877903_1();
    lemma_power_of_power(g, n, 1nat, 5nat, 639533339nat, 14291333922002103nat);
    lemma_power_65865678001877903_2();
    lemma_power_of_power(g, n, 639533339nat, 14291333922002103nat, 62914nat, 56641079936670322nat);
    lemma_power_65865678001877903_3();
    lemma_power_of_power(g, n, 639533339nat, 14291333922002103nat, 1637nat, 4503656306096617nat);
    lemma_power_65865678001877903_4();
    lemma_power_of_power(g, n, 1046916075943nat, 4503656306096617nat, 166nat, 43783936274874531nat);
    lemma_power_65865678001877903_5();
    lemma_power_of_power(g, n, 1046916075943nat, 4503656306096617nat, 379nat, 37873930659347893nat);
    lemma_power_65865678001877903_6();
    lemma_power_of_power(
        g,
        n,
        396781192782397nat,
        37873930659347893nat,
        83nat,
        65865678001877902nat,
    );
    lemma_power_65865678001877903_7();
    lemma_power_of_power(
        g,
        n,
        396781192782397nat,
        37873930659347893nat,
        2nat,
        46316002665751102nat,
    );
    lemma_power_65865678001877903_8();
    lemma_power_of_power(g, n, 1nat, 5nat, 102990218nat, 18968088485270649nat);
    lemma_power_65865678001877903_9();
    lemma_power_of_power(g, n, 32932839000938951nat, 65865678001877902nat, 2nat, 1nat);
    lemma_prime_2();
    lemma_prime_83();
    lemma_prime_379();
    lemma_prime_1637();
    lemma_prime_639533339();
    lemma_witnessed_empty(n, g);
    let s0: Seq<nat> = Seq::empty();
    lemma_witnessed_push(n, g, s0, 2);
    let s1: Seq<nat> = s0.push(2);
    lemma_witnessed_push(n, g, s1, 83);
    let s2: Seq<nat> = s1.push(83);
    lemma_witnessed_push(n, g, s2, 379);
    let s3: Seq<nat> = s2.push(379);
    lemma_witnessed_push(n, g, s3, 1637);
    let s4: Seq<nat> = s3.push(1637);
    lemma_witnessed_push(n, g, s4, 639533339);
    let s5: Seq<nat> = s4.push(639533339);
    lemma_lucas(n, g, s5);
}

/// A power modulo 13818364434197438864469338081, one binary digit of the exponent at a time.
proof fn lemma_power_13818364434197438864469338081_0()
    ensures
        power_mod(3nat, 16nat, 13818364434197438864469338081nat) == 43046721nat,
{
    let n: nat = 13818364434197438864469338081nat;
    let x: nat = 3nat;
    lemma_power_mod_start(x, n);
    let e0: nat = 0;
    let v0: nat = 1;
    let v1: nat = 3nat;
    let e1: nat = lemma_power_mod_bit(x, n, e0, v0, 1, v1);
    let v2: nat = 9nat;
    let e2: nat = lemma_power_mod_bit(x, n, e1, v1, 0, v2);
    let v3: nat = 81nat;
    let e3: nat = lemma_power_mod_bit(x, n, e2, v2, 0, v3);
    let v4: nat = 6561nat;
    let e4: nat = lemma_power_mod_bit(x, n, e3, v3, 0, v4);
    let v5: nat = 43046721nat;
    let e5: nat = lemma_power_mod_bit(x, n, e4, v4, 0, v5);
}

/// A power modulo 13818364434197438864469338081, one binary digit of the exponent at a time.
proof fn lemma_power_13818364434197438864469338081_1()
    ensures
        power_mod(
            43046721nat,
            65865678001877903nat,
            13818364434197438864469338081nat,
        ) == 6918249230752021258106723580nat,
{
    let n: nat = 13818364434197438864469338081nat;
    let x: nat = 43046721nat;
    lemma_power_mod_start(x, n);
    let e0: nat = 0;
    let v0: nat = 1;
    let v1: nat = 43046721nat;
    let e1: nat = lemma_power_mod_bit(x, n, e0, v0, 1, v1);
    let v2: nat = 79766443076872509863361nat;
    let e2: nat = lemma_power_mod_bit(x, n, e1, v1, 1, v2);
    let v3: nat = 10822711819971869913689633493nat;
    let e3: nat = lemma_power_mod_bit(x, n, e2, v2, 1, v3);
    let v4: nat = 1982404660363262763346790096nat;
    let e4: nat = lemma_power_mod_bit(x, n, e3, v3, 0, v4);
    let v5: nat = 3668797812243425502636472190nat;
    let e5: nat = lemma_power_mod_bit(x, n, e4, v4, 1, v5);
    let v6: nat = 8860121459837387384799441851nat;
    let e6: nat = lemma_power_mod_bit(x, n, e5, v5, 0, v6);
    let v7: nat = 1925843291106919066065222817nat;
    let e7: nat = lemma_power_mod_bit(x, n, e6, v6, 1, v7);
    let v8: nat = 5360595616810750396660913574nat;
    let e8: nat = lemma_power_mod_bit(x, n, e7, v7, 0, v8);
    let v9: nat = 2404063044798669105747177024nat;
    let e9: nat = lemma_power_mod_bit(x, n, e8, v8, 0, v9);
    let v10: nat = 2073315447973138987745888349nat;
    let e10: nat = lemma_power_mod_bit(x, n, e9, v9, 0, v10);
    let v11: nat = 13391242921909858403940395127nat;
    let e11: nat = lemma_power_mod_bit(x, n, e10, v10, 0, v11);
    let v12: nat = 706144013859075201890810775nat;
    let e12: nat = lemma_power_mod_bit(x, n, e11, v11, 0, v12);
    let v13: nat = 6315664833133189603841201793nat;
    let e13: nat = lemma_power_mod_bit(x, n, e12, v12, 0, v13);
    let v14: nat = 7452306793924603741594125994nat;
    let e14: nat = lemma_power_mod_bit(x, n, e13, v13, 0, v14);
    let v15: nat = 11801151514961450093620326032nat;
    let e15: nat = lemma_power_mod_bit(x, n, e14, v14, 0, v15);
    let v16: nat = 10463039616238915522458037380nat;
    let e16: nat = lemma_power_mod_bit(x, n, e15, v15, 0, v16);
    let v17: nat = 8692347990905207542850906638nat;
    let e17: nat = lemma_power_mod_bit(x, n, e16, v16, 0, v17);
    let v18: nat = 1845412135999874895110656104nat;
    let e18: nat = lemma_power_mod_bit(x, n, e17, v17, 1, v18);
    let v19: nat = 5644849866184383821245678633nat;
    let e19: nat = lemma_power_mod_bit(x, n, e18, v18, 1, v19);
    let v20: nat = 10365771831895219342661604746nat;
    let e20: nat = lemma_power_mod_bit(x, n, e19, v19, 1, v20);
    let v21: nat = 8307380281582491939369553614nat;
    let e21: nat = lemma_power_mod_bit(x, n, e20, v20, 1, v21);
    let v22: nat = 7879181405819836093057781963nat;
    let e22: nat = lemma_power_mod_bit(x, n, e21, v21, 1, v22);
    let v23: nat = 5437078459797170796084799232nat;
    let e23: nat = lemma_power_mod_bit(x, n, e22, v22, 0, v23);
    let v24: nat = 4363431823802234196582305810nat;
    let e24: nat = lemma_power_mod_bit(x, n, e23, v23, 0, v24);
    let v25: nat = 2266259018901327623859774312nat;
    let e25: nat = lemma_power_mod_bit(x, n, e24, v24, 0, v25);
    let v26: nat = 4326052777006042722633967191nat;
    let e26: nat = lemma_power_mod_bit(x, n, e25, v25, 0, v26);
    let v27: nat = 7906514169254631836867302803nat;
    let e27: nat = lemma_power_mod_bit(x, n, e26, v26, 1, v27);
    let v28: nat = 12105275030374477102109514256nat;
    let e28: nat = lemma_power_mod_bit(x, n, e27, v27, 1, v28);
    let v29: nat = 1549625985684985804303259083nat;
    let e29: nat = lemma_power_mod_bit(x, n, e28, v28, 0, v29);
    let v30: nat = 6099488752205935135364907955nat;
    let e30: nat = lemma_power_mod_bit(x, n, e29, v29, 1, v30);
    let v31: nat = 6092867062826022647987987270nat;
    let e31: nat = lemma_power_mod_bit(x, n, e30, v30, 0, v31);
    let v32: nat = 12631623640059392587868717830nat;
    let e32: nat = lemma_power_mod_bit(x, n, e31, v31, 0, v32);
    let v33: nat = 11758142805618926750280497704nat;
    let e33: nat = lemma_power_mod_bit(x, n, e32, v32, 0, v33);
    let v34: nat = 495602964927912992340891932nat;
    let e34: nat = lemma_power_mod_bit(x, n, e33, v33, 0, v34);
    let v35: nat = 7726864393928307879969238379nat;
    let e35: nat = lemma_power_mod_bit(x, n, e34, v34, 1, v35);
    let v36: nat = 5979175961907088461314695757nat;
    let e36: nat = lemma_power_mod_bit(x, n, e35, v35, 1, v36);
    let v37: nat = 7393881251949340752820392588nat;
    let e37: nat = lemma_power_mod_bit(x, n, e36, v36, 0, v37);
    let v38: nat = 4488750311171055680351082053nat;
    let e38: nat = lemma_power_mod_bit(x, n, e37, v37, 0, v38);
    let v39: nat = 7486625369178411735235303061nat;
    let e39: nat = lemma_power_mod_bit(x, n, e38, v38, 0, v39);
    let v40: nat = 2891239857372304166718758273nat;
    let e40: nat = lemma_power_mod_bit(x, n, e39, v39, 1, v40);
    let v41: nat = 9417472843342729125214470721nat;
    let e41: nat = lemma_power_mod_bit(x, n, e40, v40, 0, v41);
    let v42: nat = 7995547668689391828896536610nat;
    let e42: nat = lemma_power_mod_bit(x, n, e41, v41, 0, v42);
    let v43: nat = 751324270991565821589911522nat;
    let e43: nat = lemma_power_mod_bit(x, n, e42, v42, 1, v43);
    let v44: nat = 11003807575757923411078082555nat;
    let e44: nat = lemma_power_mod_bit(x, n, e43, v43, 1, v44);
    let v45: nat = 4272417973980263243810862371nat;
    let e45: nat = lemma_power_mod_bit(x, n, e44, v44, 0, v45);
    let v46: nat = 10337423301695936666296497287nat;
    let e46: nat = lemma_power_mod_bit(x, n, e45, v45, 0, v46);
    let v47: nat = 7823170662203304636171551917nat;
    let e47: nat = lemma_power_mod_bit(x, n, e46, v46, 1, v47);
    let v48: nat = 3285980051719368312600813279nat;
    let e48: nat = lemma_power_mod_bit(x, n, e47, v47, 1, v48);
    let v49: nat = 6182268251644033623369568140nat;
    let e49: nat = lemma_power_mod_bit(x, n, e48, v48, 1, v49);
    let v50: nat = 218633972030387449757464993nat;
    let e50: nat = lemma_power_mod_bit(x, n, e49, v49, 0, v50);
    let v51: nat = 11463996121198291015980287163nat;
    let e51: nat = lemma_power_mod_bit(x, n, e50, v50, 0, v51);
    let v52: nat = 1854855736368119129744251981nat;
    let e52: nat = lemma_power_mod_bit(x, n, e51, v51, 0, v52);
    let v53: nat = 8424072754714304366952746113nat;
    let e53: nat = lemma_power_mod_bit(x, n, e52, v52, 1, v53);
    let v54: nat = 1313636793417218741972992173nat;
    let e54: nat = lemma_power_mod_bit(x, n, e53, v53, 1, v54);
    let v55: nat = 9743240667676721162760842349nat;
    let e55: nat = lemma_power_mod_bit(x, n, e54, v54, 1, v55);
    let v56: nat = 6918249230752021258106723580nat;
    let e56: nat = lemma_power_mod_bit(x, n, e55, v55, 1, v56);
}

/// A power modulo 13818364434197438864469338081, one binary digit of the exponent at a time.
proof fn lemma_power_13818364434197438864469338081_2()
    ensures
        power_mod(
            6918249230752021258106723580nat,
            1593227nat,
            13818364434197438864469338081nat,
        ) == 9319693132052372829525211327nat,
{
    let n: nat = 13818364434197438864469338081nat;
    let x: nat = 6918249230752021258106723580nat;
    lemma_power_mod_start(x, n);
    let e0: nat = 0;
    let v0: nat = 1;
    let v1: nat = 6918249230752021258106723580nat;
    let e1: nat = lemma_power_mod_bit(x, n, e0, v0, 1, v1);
    let v2: nat = 6877327357448060905253376629nat;
    let e2: nat = lemma_power_mod_bit(x, n, e1, v1, 1, v2);
    let v3: nat = 10048906421571765287700982777nat;
    let e3: nat = lemma_power_mod_bit(x, n, e2, v2, 0, v3);
    let v4: nat = 4706986788535292237408470426nat;
    let e4: nat = lemma_power_mod_bit(x, n, e3, v3, 0, v4);
    let v5: nat = 12861828462395769990120621831nat;
    let e5: nat = lemma_power_mod_bit(x, n, e4, v4, 0, v5);
    let v6: nat = 8625597313790199994110357544nat;
    let e6: nat = lemma_power_mod_bit(x, n, e5, v5, 0, v6);
    let v7: nat = 9880589997378326646892464598nat;
    let e7: nat = lemma_power_mod_bit(x, n, e6, v6, 1, v7);
    let v8: nat = 5812299465052900834744230196nat;
    let e8: nat = lemma_power_mod_bit(x, n, e7, v7, 0, v8);
    let v9: nat = 10075373095598754344533255523nat;
    let e9: nat = lemma_power_mod_bit(x, n, e8, v8, 0, v9);
    let v10: nat = 1136494482592482079855439476nat;
    let e10: nat = lemma_power_mod_bit(x, n, e9, v9, 1, v10);
    let v11: nat = 10323185260441702907732549695nat;
    let e11: nat = lemma_power_mod_bit(x, n, e10, v10, 1, v11);
    let v12: nat = 5313913644356395703671245148nat;
    let e12: nat = lemma_power_mod_bit(x, n, e11, v11, 1, v12);
    let v13: nat = 13013472678657899799122487342nat;
    let e13: nat = lemma_power_mod_bit(x, n, e12, v12, 1, v13);
    let v14: nat = 13088456686572258087967872782nat;
    let e14: nat = lemma_power_mod_bit(x, n, e13, v13, 1, v14);
    let v15: nat = 12981086148116091009784349779nat;
    let e15: nat = lemma_power_mod_bit(x, n, e14, v14, 0, v15);
    let v16: nat = 1919641690569508381110240458nat;
    let e16: nat = lemma_power_mod_bit(x, n, e15, v15, 0, v16);
    let v17: nat = 2081442610043284101608013357nat;
    let e17: nat = lemma_power_mod_bit(x, n, e16, v16, 0, v17);
    let v18: nat = 12327645548072109159595209223nat;
    let e18: nat = lemma_power_mod_bit(x, n, e17, v17, 1, v18);
    let v19: nat = 167834125337026320212427431nat;
    let e19: nat = lemma_power_mod_bit(x, n, e18, v18, 0, v19);
    let v20: nat = 4834974803752151247444685583nat;
    let e20: nat = lemma_power_mod_bit(x, n, e19, v19, 1, v20);
    let v21: nat = 9319693132052372829525211327nat;
    let e21: nat = lemma_power_mod_bit(x, n, e20, v20, 1, v21);
}

/// A power modulo 13818364434197438864469338081, one binary digit of the exponent at a time.
proof fn lemma_power_13818364434197438864469338081_3()
    ensures
        power_mod(
            9319693132052372829525211327nat,
            823nat,
            13818364434197438864469338081nat,
        ) == 8150149932824841619338510424nat,
{
    let n: nat = 13818364434197438864469338081nat;
    let x: nat = 9319693132052372829525211327nat;
    lemma_power_mod_start(x, n);
    let e0: nat = 0;
    let v0: nat = 1;
    let v1: nat = 9319693132052372829525211327nat;
    let e1: nat = lemma_power_mod_bit(x, n, e0, v0, 1, v1);
    let v2: nat = 2440170969464592966004948148nat;
    let e2: nat = lemma_power_mod_bit(x, n, e1, v1, 1, v2);
    let v3: nat = 5970848203096812452471738210nat;
    let e3: nat = lemma_power_mod_bit(x, n, e2, v2, 0, v3);
    let v4: nat = 8700885868942747990299000856nat;
    let e4: nat = lemma_power_mod_bit(x, n, e3, v3, 0, v4);
    let v5: nat = 4942188764396365582436325642nat;
    let e5: nat = lemma_power_mod_bit(x, n, e4, v4, 1, v5);
    let v6: nat = 2823364469676499823252281040nat;
    let e6: nat = lemma_power_mod_bit(x, n, e5, v5, 1, v6);
    let v7: nat = 13469070547878434087928613503nat;
    let e7: nat = lemma_power_mod_bit(x, n, e6, v6, 0, v7);
    let v8: nat = 10839357781637953197580434537nat;
    let e8: nat = lemma_power_mod_bit(x, n, e7, v7, 1, v8);
    let v9: nat = 4544856972072654338971059803nat;
    let e9: nat = lemma_power_mod_bit(x, n, e8, v8, 1, v9);
    let v10: nat = 8150149932824841619338510424nat;
    let e10: nat = lemma_power_mod_bit(x, n, e9, v9, 1, v10);
}

/// A power modulo 13818364434197438864469338081, one binary digit of the exponent at a time.
proof fn lemma_power_13818364434197438864469338081_4()
    ensures
        power_mod(
            8150149932824841619338510424nat,
            5nat,
            13818364434197438864469338081nat,
        ) == 13818364434197438864469338080nat,
{
    let n: nat = 13818364434197438864469338081nat;
    let x: nat = 8150149932824841619338510424nat;
    lemma_power_mod_start(x, n);
    let e0: nat = 0;
    let v0: nat = 1;
    let v1: nat = 8150149932824841619338510424nat;
    let e1: nat = lemma_power_mod_bit(x, n, e0, v0, 1, v1);
    let v2: nat = 1236319344469036993987267104nat;
    let e2: nat = lemma_power_mod_bit(x, n, e1, v1, 0, v2);
    let v3: nat = 13818364434197438864469338080nat;
    let e3: nat = lemma_power_mod_bit(x, n, e2, v2, 1, v3);
}

/// A power modulo 13818364434197438864469338081, one binary digit of the exponent at a time.
proof fn lemma_power_13818364434197438864469338081_5()
    ensures
        power_mod(
            8150149932824841619338510424nat,
            2nat,
            13818364434197438864469338081nat,
        ) == 1236319344469036993987267104nat,
{
    let n: nat = 13818364434197438864469338081nat;
    let x: nat = 8150149932824841619338510424nat;
    lemma_power_mod_start(x, n);
    let e0: nat = 0;
    let v0: nat = 1;
    let v1: nat = 8150149932824841619338510424nat;
    let e1: nat = lemma_power_mod_bit(x, n, e0, v0, 1, v1);
    let v2: nat = 1236319344469036993987267104nat;
    let e2: nat = lemma_power_mod_bit(x, n, e1, v1, 0, v2);
}

/// A power modulo 13818364434197438864469338081, one binary digit of the exponent at a time.
proof fn lemma_power_13818364434197438864469338081_6()
    ensures
        power_mod(
            9319693132052372829525211327nat,
            10nat,
            13818364434197438864469338081nat,
        ) == 570363171180057177517864248nat,
{
    let n: nat = 13818364434197438864469338081nat;
    let x: nat = 9319693132052372829525211327nat;
    lemma_power_mod_start(x, n);
    let e0: nat = 0;
    let v0: nat = 1;
    let v1: nat = 9319693132052372829525211327nat;
    let e1: nat = lemma_power_mod_bit(x, n, e0, v0, 1, v1);
    let v2: nat = 12377478477971630048839162068nat;
    let e2: nat = lemma_power_mod_bit(x, n, e1, v1, 0, v2);
    let v3: nat = 1589060238166335351103105649nat;
    let e3: nat = lemma_power_mod_bit(x, n, e2, v2, 1, v3);
    let v4: nat = 570363171180057177517864248nat;
    let e4: nat = lemma_power_mod_bit(x, n, e3, v3, 0, v4);
}

/// A power modulo 13818364434197438864469338081, one binary digit of the exponent at a time.
proof fn lemma_power_13818364434197438864469338081_7()
    ensures
        power_mod(
            6918249230752021258106723580nat,
            8230nat,
            13818364434197438864469338081nat,
        ) == 9233249052774251384923794665nat,
{
    let n: nat = 13818364434197438864469338081nat;
    let x: nat = 6918249230752021258106723580nat;
    lemma_power_mod_start(x, n);
    let e0: nat = 0;
    let v0: nat = 1;
    let v1: nat = 6918249230752021258106723580nat;
    let e1: nat = lemma_power_mod_bit(x, n, e0, v0, 1, v1);
    let v2: nat = 5404779866679079955905538791nat;
    let e2: nat = lemma_power_mod_bit(x, n, e1, v1, 0, v2);
    let v3: nat = 12096666999188987743865071050nat;
    let e3: nat = lemma_power_mod_bit(x, n, e2, v2, 0, v3);
    let v4: nat = 1821602497796237825941188879nat;
    let e4: nat = lemma_power_mod_bit(x, n, e3, v3, 0, v4);
    let v5: nat = 10150251320149988881629950926nat;
    let e5: nat = lemma_power_mod_bit(x, n, e4, v4, 0, v5);
    let v6: nat = 9184051114504261856666010278nat;
    let e6: nat = lemma_power_mod_bit(x, n, e5, v5, 0, v6);
    let v7: nat = 13318427738181660541519449294nat;
    let e7: nat = lemma_power_mod_bit(x, n, e6, v6, 0, v7);
    let v8: nat = 11939746819581775440967938749nat;
    let e8: nat = lemma_power_mod_bit(x, n, e7, v7, 0, v8);
    let v9: nat = 12535692499114079640348763603nat;
    let e9: nat = lemma_power_mod_bit(x, n, e8, v8, 1, v9);
    let v10: nat = 3944404878540109104480246391nat;
    let e10: nat = lemma_power_mod_bit(x, n, e9, v9, 0, v10);
    let v11: nat = 4983092369032140252579721032nat;
    let e11: nat = lemma_power_mod_bit(x, n, e10, v10, 0, v11);
    let v12: nat = 2301450792075905913709428178nat;
    let e12: nat = lemma_power_mod_bit(x, n, e11, v11, 1, v12);
    let v13: nat = 13500646572062286678224349022nat;
    let e13: nat = lemma_power_mod_bit(x, n, e12, v12, 1, v13);
    let v14: nat = 9233249052774251384923794665nat;
    let e14: nat = lemma_power_mod_bit(x, n, e13, v13, 0, v14);
}

/// A power modulo 13818364434197438864469338081, one binary digit of the exponent at a time.
proof fn lemma_power_13818364434197438864469338081_8()
    ensures
        power_mod(
            43046721nat,
            13112258210nat,
            13818364434197438864469338081nat,
        ) == 11685553033882782147454259209nat,
{
    let n: nat = 13818364434197438864469338081nat;
    let x: nat = 43046721nat;
    lemma_power_mod_start(x, n);
    let e0: nat = 0;
    let v0: nat = 1;
    let v1: nat = 43046721nat;
    let e1: nat = lemma_power_mod_bit(x, n, e0, v0, 1, v1);
    let v2: nat = 79766443076872509863361nat;
    let e2: nat = lemma_power_mod_bit(x, n, e1, v1, 1, v2);
    let v3: nat = 12263218018458923137787670849nat;
    let e3: nat = lemma_power_mod_bit(x, n, e2, v2, 0, v3);
    let v4: nat = 11169179969915584130165112604nat;
    let e4: nat = lemma_power_mod_bit(x, n, e3, v3, 0, v4);
    let v5: nat = 7068053648733080188212248518nat;
    let e5: nat = lemma_power_mod_bit(x, n, e4, v4, 0, v5);
    let v6: nat = 6173447486684711470330382078nat;
    let e6: nat = lemma_power_mod_bit(x, n, e5, v5, 0, v6);
    let v7: nat = 12642248942376767338801478968nat;
    let e7: nat = lemma_power_mod_bit(x, n, e6, v6, 1, v7);
    let v8: nat = 2016661038451929058416750636nat;
    let e8: nat = lemma_power_mod_bit(x, n, e7, v7, 1, v8);
    let v9: nat = 10179672937893680043215007234nat;
    let e9: nat = lemma_power_mod_bit(x, n, e8, v8, 0, v9);
    let v10: nat = 8311753318905924928848611919nat;
    let e10: nat = lemma_power_mod_bit(x, n, e9, v9, 1, v10);
    let v11: nat = 43828752458776494700603754nat;
    let e11: nat = lemma_power_mod_bit(x, n, e10, v10, 1, v11);
    let v12: nat = 6113716394034473892276285778nat;
    let e12: nat = lemma_power_mod_bit(x, n, e11, v11, 0, v12);
    let v13: nat = 8699760780716809760714041039nat;
    let e13: nat = lemma_power_mod_bit(x, n, e12, v12, 0, v13);
    let v14: nat = 5669285658686881689759741014nat;
    let e14: nat = lemma_power_mod_bit(x, n, e13, v13, 0, v14);
    let v15: nat = 9403581920276619035857303236nat;
    let e15: nat = lemma_power_mod_bit(x, n, e14, v14, 1, v15);
    let v16: nat = 10064531394799100666552951541nat;
    let e16: nat = lemma_power_mod_bit(x, n, e15, v15, 1, v16);
    let v17: nat = 12927039320385318080200192277nat;
    let e17: nat = lemma_power_mod_bit(x, n, e16, v16, 0, v17);
    let v18: nat = 8737112435157373925502264630nat;
    let e18: nat = lemma_power_mod_bit(x, n, e17, v17, 1, v18);
    let v19: nat = 2093159936703758689690230679nat;
    let e19: nat = lemma_power_mod_bit(x, n, e18, v18, 0, v19);
    let v20: nat = 261387058816189959019669223nat;
    let e20: nat = lemma_power_mod_bit(x, n, e19, v19, 0, v20);
    let v21: nat = 9760374364447328617705546645nat;
    let e21: nat = lemma_power_mod_bit(x, n, e20, v20, 1, v21);
    let v22: nat = 4612170898990762360885164346nat;
    let e22: nat = lemma_power_mod_bit(x, n, e21, v21, 0, v22);
    let v23: nat = 3440141556010858486011774700nat;
    let e23: nat = lemma_power_mod_bit(x, n, e22, v22, 1, v23);
    let v24: nat = 5227918675600459908438196587nat;
    let e24: nat = lemma_power_mod_bit(x, n, e23, v23, 1, v24);
    let v25: nat = 9990587605010648104748300946nat;
    let e25: nat = lemma_power_mod_bit(x, n, e24, v24, 1, v25);
    let v26: nat = 6457327771795331095131960519nat;
    let e26: nat = lemma_power_mod_bit(x, n, e25, v25, 0, v26);
    let v27: nat = 5382141332983427139909014700nat;
    let e27: nat = lemma_power_mod_bit(x, n, e26, v26, 1, v27);
    let v28: nat = 7924473201772575451959468496nat;
    let e28: nat = lemma_power_mod_bit(x, n, e27, v27, 0, v28);
    let v29: nat = 13023289608810370124228210016nat;
    let e29: nat = lemma_power_mod_bit(x, n, e28, v28, 1, v29);
    let v30: nat = 11252928895637430280833160256nat;
    let e30: nat = lemma_power_mod_bit(x, n, e29, v29, 0, v30);
    let v31: nat = 7612215116294522198788233060nat;
    let e31: nat = lemma_power_mod_bit(x, n, e30, v30, 0, v31);
    let v32: nat = 5224167013765726982820936385nat;
    let e32: nat = lemma_power_mod_bit(x, n, e31, v31, 0, v32);
    let v33: nat = 4376937572395639237238610664nat;
    let e33: nat = lemma_power_mod_bit(x, n, e32, v32, 1, v33);
    let v34: nat = 11685553033882782147454259209nat;
    let e34: nat = lemma_power_mod_bit(x, n, e33, v33, 0, v34);
}

/// A power modulo 13818364434197438864469338081, one binary digit of the exponent at a time.
proof fn lemma_power_13818364434197438864469338081_9()
    ensures
        power_mod(13818364434197438864469338080nat, 2nat, 13818364434197438864469338081nat) == 1nat,
{
    let n: nat = 13818364434197438864469338081nat;
    let x: nat = 13818364434197438864469338080nat;
    lemma_power_mod_start(x, n);
    let e0: nat = 0;
    let v0: nat = 1;
    let v1: nat = 13818364434197438864469338080nat;
    let e1: nat = lemma_power_mod_bit(x, n, e0, v0, 1, v1);
    let v2: nat = 1nat;
    let e2: nat = lemma_power_mod_bit(x, n, e1, v1, 0, v2);
}

/// 13818364434197438864469338081 is prime.
proof fn lemma_prime_13818364434197438864469338081()
    ensures
        is_prime(13818364434197438864469338081nat),
{
    let n: nat = 13818364434197438864469338081nat;
    let g: nat = 3;
    lemma_power_13818364434197438864469338081_0();
    lemma_power_13818364434197438864469338081_1();
    lemma_power_of_power(
        g,
        n,
        16nat,
        43046721nat,
        65865678001877903nat,
        6918249230752021258106723580nat,
    );
    lemma_power_13818364434197438864469338081_2();
    lemma_power_of_power(
        g,
        n,
        1053850848030046448nat,
        6918249230752021258106723580nat,
        1593227nat,
        9319693132052372829525211327nat,
    );
    lemma_power_13818364434197438864469338081_3();
    lemma_power_of_power(
        g,
        n,
        1679023625054366812207696nat,
        9319693132052372829525211327nat,
        823nat,
        8150149932824841619338510424nat,
    );
    lemma_power_13818364434197438864469338081_4();
    lemma_power_of_power(
        g,
        n,
        1381836443419743886446933808nat,
        8150149932824841619338510424nat,
        5nat,
        13818364434197438864469338080nat,
    );
    lemma_power_13818364434197438864469338081_5();
    lemma_power_of_power(
        g,
        n,
        1381836443419743886446933808nat,
        8150149932824841619338510424nat,
        2nat,
        1236319344469036993987267104nat,
    );
    lemma_power_13818364434197438864469338081_6();
    lemma_power_of_power(
        g,
        n,
        1679023625054366812207696nat,
        9319693132052372829525211327nat,
        10nat,
        570363171180057177517864248nat,
    );
    lemma_power_13818364434197438864469338081_7();
    lemma_power_of_power(
        g,
        n,
        1053850848030046448nat,
        6918249230752021258106723580nat,
        8230nat,
        9233249052774251384923794665nat,
    );
    lemma_power_13818364434197438864469338081_8();
    lemma_power_of_power(
        g,
        n,
        16nat,
        43046721nat,
        13112258210nat,
        11685553033882782147454259209nat,
    );
    lemma_power_13818364434197438864469338081_9();
    lemma_power_of_power(
        g,
        n,
        6909182217098719432234669040nat,
        13818364434197438864469338080nat,
        2nat,
        1nat,
    );
    lemma_prime_2();
    lemma_prime_5();
    lemma_prime_823();
    lemma_prime_1593227();
    lemma_prime_65865678001877903();
    lemma_witnessed_empty(n, g);
    let s0: Seq<nat> = Seq::empty();
    lemma_witnessed_push(n, g, s0, 2);
    let s1: Seq<nat> = s0.push(2);
    lemma_witnessed_push(n, g, s1, 2);
    let s2: Seq<nat> = s1.push(2);
    lemma_witnessed_push(n, g, s2, 2);
    let s3: Seq<nat> = s2.push(2);
    lemma_witnessed_push(n, g, s3, 2);
    let s4: Seq<nat> = s3.push(2);
    lemma_witnessed_push(n, g, s4, 2);
    let s5: Seq<nat> = s4.push(2);
    lemma_witnessed_push(n, g, s5, 5);
    let s6: Seq<nat> = s5.push(5);
    lemma_witnessed_push(n, g, s6, 823);
    let s7: Seq<nat> = s6.push(823);
    lemma_witnessed_push(n, g, s7, 1593227);
    let s8: Seq<nat> = s7.push(1593227);
    lemma_witnessed_push(n, g, s8, 65865678001877903);
    let s9: Seq<nat> = s8.push(65865678001877903);
    lemma_lucas(n, g, s9);
}

/// A power modulo the modulus, one binary digit of the exponent at a time.
proof fn lemma_power_modulus_0()
    ensures
        power_mod(
            5nat,
            402653184nat,
            baby_jubjub_prime(),
        ) == 19887383362718182203517009867385956224532393031860387934578001712995117994586nat,
{
    let n: nat = baby_jubjub_prime();
    let x: nat = 5nat;
    lemma_power_mod_start(x, n);
    let e0: nat = 0;
    let v0: nat = 1;
    let v1: nat = 5nat;
    let e1: nat = lemma_power_mod_bit(x, n, e0, v0, 1, v1);
    let v2: nat = 125nat;
    let e2: nat = lemma_power_mod_bit(x, n, e1, v1, 1, v2);
    let v3: nat = 15625nat;
    let e3: nat = lemma_power_mod_bit(x, n, e2, v2, 0, v3);
    let v4: nat = 244140625nat;
    let e4: nat = lemma_power_mod_bit(x, n, e3, v3, 0, v4);
    let v5: nat = 59604644775390625nat;
    let e5: nat = lemma_power_mod_bit(x, n, e4, v4, 0, v5);
    let v6: nat = 3552713678800500929355621337890625nat;
    let e6: nat = lemma_power_mod_bit(x, n, e5, v5, 0, v6);
    let v7: nat = 12621774483536188886587657044524579674771302961744368076324462890625nat;
    let e7: nat = lemma_power_mod_bit(x, n, e6, v6, 0, v7);
    let v8: nat = 18108980273418431682570803980608836966774416040013255140820193918992651019994nat;
    let e8: nat = lemma_power_mod_bit(x, n, e7, v7, 0, v8);
    let v9: nat = 16532651553596172394408512251305313330354474087653817964818164477963365480595nat;
    let e9: nat = lemma_power_mod_bit(x, n, e8, v8, 0, v9);
    let v10: nat = 15733408684685898022648781739831327459083918461637758632860774630522627999031nat;
    let e10: nat = lemma_power_mod_bit(x, n, e9, v9, 0, v10);
    let v11: nat = 11461461826938675424376077008895886629135685014085379667667444192010211158363nat;
    let e11: nat = lemma_power_mod_bit(x, n, e10, v10, 0, v11);
    let v12: nat = 21246289284896851672250190725385104008782856464180844184315402904653844181011nat;
    let e12: nat = lemma_power_mod_bit(x, n, e11, v11, 0, v12);
    let v13: nat = 18390272234235692929633111222962055523868642464746535712060226496541769204386nat;
    let e13: nat = lemma_power_mod_bit(x, n, e12, v12, 0, v13);
    let v14: nat = 21557502220496917640487710312853231932593592196978837659177548569619185562784nat;
    let e14: nat = lemma_power_mod_bit(x, n, e13, v13, 0, v14);
    let v15: nat = 16731020843570475577549643681837271843768342486944444341594602078154090236414nat;
    let e15: nat = lemma_power_mod_bit(x, n, e14, v14, 0, v15);
    let v16: nat = 10292704463214638840518629066079196560114098935862637759734903080733974750937nat;
    let e16: nat = lemma_power_mod_bit(x, n, e15, v15, 0, v16);
    let v17: nat = 20366215432681099302937901495710227389484810499542036836795632342048316962598nat;
    let e17: nat = lemma_power_mod_bit(x, n, e16, v16, 0, v17);
    let v18: nat = 17498877646672147812644927278331150293064973676489639564715158593629726830281nat;
    let e18: nat = lemma_power_mod_bit(x, n, e17, v17, 0, v18);
    let v19: nat = 608823507558736968573950694067405970108808878764258227228398211452360617706nat;
    let e19: nat = lemma_power_mod_bit(x, n, e18, v18, 0, v19);
    let v20: nat = 10835313185533884980323532093524515689631932923360366388435139188258416107183nat;
    let e20: nat = lemma_power_mod_bit(x, n, e19, v19, 0, v20);
    let v21: nat = 12291548404077860305166698109640876253961323100163948438936889346223773058468nat;
    let e21: nat = lemma_power_mod_bit(x, n, e20, v20, 0, v21);
    let v22: nat = 10777800216295833277907162987744450384637549720646605671749035896082882257563nat;
    let e22: nat = lemma_power_mod_bit(x, n, e21, v21, 0, v22);
    let v23: nat = 18141956831226427351717601952859724791122603514631459884036195306765741234020nat;
    let e23: nat = lemma_power_mod_bit(x, n, e22, v22, 0, v23);
    let v24: nat = 4654117904643527094486007913503801018307930548997681509343201668107674600065nat;
    let e24: nat = lemma_power_mod_bit(x, n, e23, v23, 0, v24);
    let v25: nat = 11196646282644480209740544509036076275110112717403833837755506512607189066100nat;
    let e25: nat = lemma_power_mod_bit(x, n, e24, v24, 0, v25);
    let v26: nat = 7491069307792040294461436383193606152847416750014917778624519281395863069529nat;
    let e26: nat = lemma_power_mod_bit(x, n, e25, v25, 0, v26);
    let v27: nat = 19138863406062213644759667762617124005633209780065512982602664910657533149185nat;
    let e27: nat = lemma_power_mod_bit(x, n, e26, v26, 0, v27);
    let v28: nat = 1063966804988078721417191196459935357662008921709239972352136807312980047633nat;
    let e28: nat = lemma_power_mod_bit(x, n, e27, v27, 0, v28);
    let v29: nat = 19887383362718182203517009867385956224532393031860387934578001712995117994586nat;
    let e29: nat = lemma_power_mod_bit(x, n, e28, v28, 0, v29);
}

/// A power modulo the modulus, one binary digit of the exponent at a time.
proof fn lemma_power_modulus_1_part_1()
    ensures
        power_mod(
            19887383362718182203517009867385956224532393031860387934578001712995117994586nat,
            13328565604841994407nat,
            baby_jubjub_prime(),
        ) == 11303389472305281613559876534946190362394339242288997969682066266604659312498nat,
{
    let n: nat = baby_jubjub_prime();
    let x: nat = 19887383362718182203517009867385956224532393031860387934578001712995117994586nat;
    lemma_power_mod_start(x, n);
    let e0: nat = 0;
    let v0: nat = 1;
    let v1: nat = 19887383362718182203517009867385956224532393031860387934578001712995117994586nat;
    let e1: nat = lemma_power_mod_bit(x, n, e0, v0, 1, v1);
    let v2: nat = 11368207234942670888835120453873516417666490693300823184588242808005266577922nat;
    let e2: nat = lemma_power_mod_bit(x, n, e1, v1, 0, v2);
    let v3: nat = 8265758905486525362175609898825526441762720027523415331234755038795213382666nat;
    let e3: nat = lemma_power_mod_bit(x, n, e2, v2, 1, v3);
    let v4: nat = 4250244368028176368757454275091478196813026501170834813286728561887595184171nat;
    let e4: nat = lemma_power_mod_bit(x, n, e3, v3, 1, v4);
    let v5: nat = 14914647343983398145882223669385282689227066447015709219931785832517160028147nat;
    let e5: nat = lemma_power_mod_bit(x, n, e4, v4, 1, v5);
    let v6: nat = 18051072659561268745027545369823373261794636255496232784789718780969610842358nat;
    let e6: nat = lemma_power_mod_bit(x, n, e5, v5, 0, v6);
    let v7: nat = 3101414765574418860644185886106916730889380584619046962263308310145662278890nat;
    let e7: nat = lemma_power_mod_bit(x, n, e6, v6, 0, v7);
    let v8: nat = 10923232452040481718548134205080702518149758648417604387624319364880386622705nat;
    let e8: nat = lemma_power_mod_bit(x, n, e7, v7, 0, v8);
    let v9: nat = 6845705316666913375281848578093443878394982128773127259697794105342385856463nat;
    let e9: nat = lemma_power_mod_bit(x, n, e8, v8, 1, v9);
    let v10: nat = 16556802636050075701429974706919495550389792288903098688122295260859813400127nat;
    let e10: nat = lemma_power_mod_bit(x, n, e9, v9, 1, v10);
    let v11: nat = 11860650871648689283170467612148668158991753772380358180857002379329791263570nat;
    let e11: nat = lemma_power_mod_bit(x, n, e10, v10, 1, v11);
    let v12: nat = 21187639688261544065289268434775749642573006999444610734413299883048092436255nat;
    let e12: nat = lemma_power_mod_bit(x, n, e11, v11, 1, v12);
    let v13: nat = 16268593263661693804308735065360437121861614764695139355270133581444595590037nat;
    let e13: nat = lemma_power_mod_bit(x, n, e12, v12, 1, v13);
    let v14: nat = 11624776052040235669221317727018852426645419451624730483506012111952255857177nat;
    let e14: nat = lemma_power_mod_bit(x, n, e13, v13, 0, v14);
    let v15: nat = 6448689276697166391790577739601186201541949109401044298008652457408548054924nat;
    let e15: nat = lemma_power_mod_bit(x, n, e14, v14, 0, v15);
    let v16: nat = 9120615841941599459551402908244410196866520219739261379942656637336796669339nat;
    let e16: nat = lemma_power_mod_bit(x, n, e15, v15, 0, v16);
    let v17: nat = 7151198564599470181199246262869205364377383294122405919257892309781343100237nat;
    let e17: nat = lemma_power_mod_bit(x, n, e16, v16, 1, v17);
    let v18: nat = 20281412302148411828289091870781618649194900778706660037505080268448684926182nat;
    let e18: nat = lemma_power_mod_bit(x, n, e17, v17, 0, v18);
    let v19: nat = 11007963296664368396698565654238395405261882771221693824492121372789768056726nat;
    let e19: nat = lemma_power_mod_bit(x, n, e18, v18, 0, v19);
    let v20: nat = 20216588241063340843717297430348218091094191285290984321640689410623999920378nat;
    let e20: nat = lemma_power_mod_bit(x, n, e19, v19, 1, v20);
    let v21: nat = 18539910585516988841356171331976940325805274405863943033797342173704326553723nat;
    let e21: nat = lemma_power_mod_bit(x, n, e20, v20, 0, v21);
    let v22: nat = 13580157463249368416186824265976869362259566973124131467610694240813487829712nat;
    let e22: nat = lemma_power_mod_bit(x, n, e21, v21, 0, v22);
    let v23: nat = 181942081508115670390951220857744659831009340272388407731017727447207134096nat;
    let e23: nat = lemma_power_mod_bit(x, n, e22, v22, 1, v23);
    let v24: nat = 13506894965299464997369153134210232924252012908140214990867348401068728720231nat;
    let e24: nat = lemma_power_mod_bit(x, n, e23, v23, 1, v24);
    let v25: nat = 9518074375696775549133389118131320831502147413767143642661030563800097601961nat;
    let e25: nat = lemma_power_mod_bit(x, n, e24, v24, 1, v25);
    let v26: nat = 12103460837944186053123620646056927345940233934085009596154456397371141605971nat;
    let e26: nat = lemma_power_mod_bit(x, n, e25, v25, 1, v26);
    let v27: nat = 14267249735039493683763631531308065511900361901876585342713687172948285339404nat;
    let e27: nat = lemma_power_mod_bit(x, n, e26, v26, 0, v27);
    let v28: nat = 20865490046432343970000629135921692088799952492630627892790983436195356221416nat;
    let e28: nat = lemma_power_mod_bit(x, n, e27, v27, 0, v28);
    let v29: nat = 17132482157738112399032392130400986305784559282754481030911597033036098546059nat;
    let e29: nat = lemma_power_mod_bit(x, n, e28, v28, 1, v29);
    let v30: nat = 17505298105872534483365883608687171097103355924112181646131461050755967127376nat;
    let e30: nat = lemma_power_mod_bit(x, n, e29, v29, 1, v30);
    let v31: nat = 20646464852994098472529452457174202030679536885864612140935554192377374437052nat;
    let e31: nat = lemma_power_mod_bit(x, n, e30, v30, 0, v31);
    let v32: nat = 6724850990749100860970955793123587199434695719109925548633464199533137946071nat;
    let e32: nat = lemma_power_mod_bit(x, n, e31, v31, 0, v32);
    let v33: nat = 8606644638623882100266681307711253893151978670062238600694067994167714608465nat;
    let e33: nat = lemma_power_mod_bit(x, n, e32, v32, 1, v33);
    let v34: nat = 19852198214578681717851870952575587574220797938519280605625979224611794249303nat;
    let e34: nat = lemma_power_mod_bit(x, n, e33, v33, 1, v34);
    let v35: nat = 4131193825684612016772956244221050444465829928539518074426717020715395697656nat;
    let e35: nat = lemma_power_mod_bit(x, n, e34, v34, 0, v35);
    let v36: nat = 15865886465281988413592260404643735049202165168758380436326427884916846642408nat;
    let e36: nat = lemma_power_mod_bit(x, n, e35, v35, 0, v36);
    let v37: nat = 16341855463300125939004779494236349493024319406007858692107989937029279828678nat;
    let e37: nat = lemma_power_mod_bit(x, n, e36, v36, 0, v37);
    let v38: nat = 1174858349842252647750982557625546269998775847115571492065884328501770681230nat;
    let e38: nat = lemma_power_mod_bit(x, n, e37, v37, 0, v38);
    let v39: nat = 17056539150819584020743912618154751533230482467227181885873509185463479983523nat;
    let e39: nat = lemma_power_mod_bit(x, n, e38, v38, 1, v39);
    let v40: nat = 2570998098635751239830309430571125504234661761898506632301898092484192532352nat;
    let e40: nat = lemma_power_mod_bit(x, n, e39, v39, 0, v40);
    let v41: nat = 21145166325526090209409113698186741131121396375333523928034036560345786659683nat;
    let e41: nat = lemma_power_mod_bit(x, n, e40, v40, 0, v41);
    let v42: nat = 6205483438238438841229070241126230296840777305824872037397504094281047057679nat;
    let e42: nat = lemma_power_mod_bit(x, n, e41, v41, 0, v42);
    let v43: nat = 8434998152856252872977075366374508527982793798351316528232980494838851697179nat;
    let e43: nat = lemma_power_mod_bit(x, n, e42, v42, 0, v43);
    let v44: nat = 471648635155246664296092274815061337750818185700193307466930492246462776847nat;
    let e44: nat = lemma_power_mod_bit(x, n, e43, v43, 1, v44);
    let v45: nat = 2964688610965805647118468025928144463463862096927263007618762384897212317976nat;
    let e45: nat = lemma_power_mod_bit(x, n, e44, v44, 1, v45);
    let v46: nat = 2340362127890997381887376921195481234528562017533573750809186741630504878904nat;
    let e46: nat = lemma_power_mod_bit(x, n, e45, v45, 0, v46);
    let v47: nat = 21095039166905120372083103665724069571570802223924094064942186817395545716354nat;
    let e47: nat = lemma_power_mod_bit(x, n, e46, v46, 0, v47);
    let v48: nat = 4808524314939025456937833120496419057976549577747358729139771727844827355034nat;
    let e48: nat = lemma_power_mod_bit(x, n, e47, v47, 0, v48);
    let v49: nat = 11740752831657578614669010603036580261559213538957550629114060281364980981076nat;
    let e49: nat = lemma_power_mod_bit(x, n, e48, v48, 1, v49);
    let v50: nat = 11415108221581754856155644983280233976164967462946834301664527729331396017807nat;
    let e50: nat = lemma_power_mod_bit(x, n, e49, v49, 0, v50);
    let v51: nat = 9922237704917627606653206213303977518744669909847846085154481537253466072110nat;
    let e51: nat = lemma_power_mod_bit(x, n, e50, v50, 1, v51);
    let v52: nat = 8378533451580169161033572247071786878137595338565534698552703593814112611053nat;
    let e52: nat = lemma_power_mod_bit(x, n, e51, v51, 1, v52);
    let v53: nat = 13135008730016045999522468856825104869480288487122576636692199376122648867471nat;
    let e53: nat = lemma_power_mod_bit(x, n, e52, v52, 1, v53);
    let v54: nat = 7203433520746031221351065632229068830998401232565734757704533271307664010768nat;
    let e54: nat = lemma_power_mod_bit(x, n, e53, v53, 0, v54);
    let v55: nat = 10644585770287241878369868507001613445794188894257773788490277003049627277122nat;
    let e55: nat = lemma_power_mod_bit(x, n, e54, v54, 0, v55);
    let v56: nat = 8178921262104915189916928950213544702637733173910777595095368707824022672688nat;
    let e56: nat = lemma_power_mod_bit(x, n, e55, v55, 0, v56);
    let v57: nat = 558636690388726008743177414465978290830182874110014799158362049522601075462nat;
    let e57: nat = lemma_power_mod_bit(x, n, e56, v56, 1, v57);
    let v58: nat = 6031820730964737185581695071553261942384789607664544485401672728535143674121nat;
    let e58: nat = lemma_power_mod_bit(x, n, e57, v57, 0, v58);
    let v59: nat = 17792689508382389924509391355169546737670021630296394398569162535528629478257nat;
    let e59: nat = lemma_power_mod_bit(x, n, e58, v58, 1, v59);
    let v60: nat = 6610061074468122083522833975939787153818535418230978388468087416000823733576nat;
    let e60: nat = lemma_power_mod_bit(x, n, e59, v59, 0, v60);
    let v61: nat = 15513800236477917727310724116346362344973638267625402525582760611345856222756nat;
    let e61: nat = lemma_power_mod_bit(x, n, e60, v60, 0, v61);
    let v62: nat = 2787247627597101947223737453173148649311166037489133870659079825556151352970nat;
    let e62: nat = lemma_power_mod_bit(x, n, e61, v61, 1, v62);
    let v63: nat = 11394415866723121365054285887683887560995542581300495421143945682324790709746nat;
    let e63: nat = lemma_power_mod_bit(x, n, e62, v62, 1, v63);
    let v64: nat = 11303389472305281613559876534946190362394339242288997969682066266604659312498nat;
    let e64: nat = lemma_power_mod_bit(x, n, e63, v63, 1, v64);
}

/// A power modulo the modulus, one binary digit of the exponent at a time.
proof fn lemma_power_modulus_1_part_2()
    ensures
        power_mod(
            19887383362718182203517009867385956224532393031860387934578001712995117994586nat,
            245868638582168025701749955312571591734nat,
            baby_jubjub_prime(),
        ) == 15852146986425794360076554367356444287508463827208302692998934935290852174090nat,
{
    let n: nat = baby_jubjub_prime();
    let x: nat = 19887383362718182203517009867385956224532393031860387934578001712995117994586nat;
    lemma_power_modulus_1_part_1();
    let e0: nat = 13328565604841994407nat;
    let v0: nat = 11303389472305281613559876534946190362394339242288997969682066266604659312498nat;
    let v1: nat = 14324255532518538950948646683332135123957005027479111215183835704591549344699nat;
    let e1: nat = lemma_power_mod_bit(x, n, e0, v0, 0, v1);
    let v2: nat = 1017615744137609430682058128814388077701981554871994056000630258098943861193nat;
    let e2: nat = lemma_power_mod_bit(x, n, e1, v1, 1, v2);
    let v3: nat = 3950280843318596891128582067564443958400903860385934778191430865541295010956nat;
    let e3: nat = lemma_power_mod_bit(x, n, e2, v2, 1, v3);
    let v4: nat = 10766466139203534921035245211754527869112758622740547038124457933013848772397nat;
    let e4: nat = lemma_power_mod_bit(x, n, e3, v3, 1, v4);
    let v5: nat = 19799531116767774533253978994512877536166732896428230633261459076336258047805nat;
    let e5: nat = lemma_power_mod_bit(x, n, e4, v4, 1, v5);
    let v6: nat = 21115037654333428064690200473232555185025459797953898478600615457188696536474nat;
    let e6: nat = lemma_power_mod_bit(x, n, e5, v5, 1, v6);
    let v7: nat = 5766542634844103484116787859263627978420977642615616824450907358330121142088nat;
    let e7: nat = lemma_power_mod_bit(x, n, e6, v6, 0, v7);
    let v8: nat = 1281942208310911481199203928432455072555190925204170529378814007075601815402nat;
    let e8: nat = lemma_power_mod_bit(x, n, e7, v7, 1, v8);
    let v9: nat = 2595344614900734511087109476305340509147222152820775692799176876278625282800nat;
    let e9: nat = lemma_power_mod_bit(x, n, e8, v8, 1, v9);
    let v10: nat = 12235183158690552357609294988703083297716327149376503216143860025161804090533nat;
    let e10: nat = lemma_power_mod_bit(x, n, e9, v9, 0, v10);
    let v11: nat = 13159585982818053062724418893911859657533902444170393603225596453004796675420nat;
    let e11: nat = lemma_power_mod_bit(x, n, e10, v10, 0, v11);
    let v12: nat = 13880800545061040056493109880396239907195187858113104204238472713112910713198nat;
    let e12: nat = lemma_power_mod_bit(x, n, e11, v11, 0, v12);
    let v13: nat = 14566613543799163171482939172841695448290903580929844250338272658140748409715nat;
    let e13: nat = lemma_power_mod_bit(x, n, e12, v12, 1, v13);
    let v14: nat = 20907134076743828685828554545267957268435460410171347935230385048165999150048nat;
    let e14: nat = lemma_power_mod_bit(x, n, e13, v13, 0, v14);
    let v15: nat = 2073379084450740711080412943787909293875581950253402901313568173314958805125nat;
    let e15: nat = lemma_power_mod_bit(x, n, e14, v14, 0, v15);
    let v16: nat = 17200775100606128994847507051129090987914616032790786558108442215090251736540nat;
    let e16: nat = lemma_power_mod_bit(x, n, e15, v15, 1, v16);
    let v17: nat = 15109984388176464102628880111098823145168426122563569819718135928266211299696nat;
    let e17: nat = lemma_power_mod_bit(x, n, e16, v16, 0, v17);
    let v18: nat = 10262477656744009011190788988436291472529005123809701260726179026791815985003nat;
    let e18: nat = lemma_power_mod_bit(x, n, e17, v17, 1, v18);
    let v19: nat = 11373764895012633148524500623211902846180399463800089081156190713070154731828nat;
    let e19: nat = lemma_power_mod_bit(x, n, e18, v18, 1, v19);
    let v20: nat = 14777097768156868757713478242295167033060669623535021359580666872283817258265nat;
    let e20: nat = lemma_power_mod_bit(x, n, e19, v19, 1, v20);
    let v21: nat = 1191389071627053102700534990911371291456792268257588040712413198318217397325nat;
    let e21: nat = lemma_power_mod_bit(x, n, e20, v20, 1, v21);
    let v22: nat = 11696322082667365610659226287713801921831246085993483684830882311327254557357nat;
    let e22: nat = lemma_power_mod_bit(x, n, e21, v21, 1, v22);
    let v23: nat = 3679203085023582832751680181553719889132673835230511456239537295883370718685nat;
    let e23: nat = lemma_power_mod_bit(x, n, e22, v22, 1, v23);
    let v24: nat = 11521155418415697256830899815281247456707695427771453806878028906186841530382nat;
    let e24: nat = lemma_power_mod_bit(x, n, e23, v23, 1, v24);
    let v25: nat = 2367262344485746052387492389388764707014163824175566140729266141586365011163nat;
    let e25: nat = lemma_power_mod_bit(x, n, e24, v24, 0, v25);
    let v26: nat = 1960969660086164295166824649068608807592662428546536122650350541368999236707nat;
    let e26: nat = lemma_power_mod_bit(x, n, e25, v25, 0, v26);
    let v27: nat = 8988743686915055922570801394455472643242456951373903852650490419606722427267nat;
    let e27: nat = lemma_power_mod_bit(x, n, e26, v26, 0, v27);
    let v28: nat = 7152178921535276574673772433614410878101792712637253225297015326372683725198nat;
    let e28: nat = lemma_power_mod_bit(x, n, e27, v27, 1, v28);
    let v29: nat = 5790272628652026902663112857179987137097994993992094974446573595837260524533nat;
    let e29: nat = lemma_power_mod_bit(x, n, e28, v28, 0, v29);
    let v30: nat = 18209925595592708955894193107122177910269439464224592443346915640327425976070nat;
    let e30: nat = lemma_power_mod_bit(x, n, e29, v29, 0, v30);
    let v31: nat = 6781070133252510294173688517856463103680566139541246382402104236043030318362nat;
    let e31: nat = lemma_power_mod_bit(x, n, e30, v30, 1, v31);
    let v32: nat = 14905846647518317881853795056198640077546334431686760887136609924948605566698nat;
    let e32: nat = lemma_power_mod_bit(x, n, e31, v31, 0, v32);
    let v33: nat = 14410016280275826070161939627167912000291031876071117570817369333507804961582nat;
    let e33: nat = lemma_power_mod_bit(x, n, e32, v32, 1, v33);
    let v34: nat = 4379525291137259859712270024157355469944470156126988068928377235766349136630nat;
    let e34: nat = lemma_power_mod_bit(x, n, e33, v33, 1, v34);
    let v35: nat = 20691993356122881796694891307595702540241937937512928515842675619253149865974nat;
    let e35: nat = lemma_power_mod_bit(x, n, e34, v34, 0, v35);
    let v36: nat = 11363311826372408413935965828949260394716100625361285115144043500768362614519nat;
    let e36: nat = lemma_power_mod_bit(x, n, e35, v35, 1, v36);
    let v37: nat = 8910220265695814849165714964931057265822439320374708006751886149902009152900nat;
    let e37: nat = lemma_power_mod_bit(x, n, e36, v36, 0, v37);
    let v38: nat = 16641634607645955372851483452812373667512055951324674725982270105525890146454nat;
    let e38: nat = lemma_power_mod_bit(x, n, e37, v37, 1, v38);
    let v39: nat = 14118962367220827724024821459974081211770305372885474475490436826429408473051nat;
    let e39: nat = lemma_power_mod_bit(x, n, e38, v38, 0, v39);
    let v40: nat = 13092660937727942030054746732429663688388982821095664581430575058460319577074nat;
    let e40: nat = lemma_power_mod_bit(x, n, e39, v39, 1, v40);
    let v41: nat = 20425026208012754152395501305535031992534038268309953424147959921933762074758nat;
    let e41: nat = lemma_power_mod_bit(x, n, e40, v40, 1, v41);
    let v42: nat = 19390290859473574490437490672875911078521692574902262074665714045720708196918nat;
    let e42: nat = lemma_power_mod_bit(x, n, e41, v41, 0, v42);
    let v43: nat = 20881890777064774791649723730696025904789585421688335474768073547053905965617nat;
    let e43: nat = lemma_power_mod_bit(x, n, e42, v42, 1, v43);
    let v44: nat = 19343085055508425749417274642693964437640548424862707023668472927890683572877nat;
    let e44: nat = lemma_power_mod_bit(x, n, e43, v43, 1, v44);
    let v45: nat = 17507681430910377400471976373807895648957890382840097491793947013127139741131nat;
    let e45: nat = lemma_power_mod_bit(x, n, e44, v44, 0, v45);
    let v46: nat = 19037830751243768526316317395902452990916040985713879895236158487665205944631nat;
    let e46: nat = lemma_power_mod_bit(x, n, e45, v45, 0, v46);
    let v47: nat = 2052728332069768891282318249242221892497184855984415333540590231351076376513nat;
    let e47: nat = lemma_power_mod_bit(x, n, e46, v46, 1, v47);
    let v48: nat = 1267970839742601546293029127419093976561092917030469377025142747812480656510nat;
    let e48: nat = lemma_power_mod_bit(x, n, e47, v47, 1, v48);
    let v49: nat = 14808605691224722109848161451064387797143195861407246425154371199030094874725nat;
    let e49: nat = lemma_power_mod_bit(x, n, e48, v48, 0, v49);
    let v50: nat = 18972970698467918101693157924843679198818183569530083736482080623089136311226nat;
    let e50: nat = lemma_power_mod_bit(x, n, e49, v49, 0, v50);
    let v51: nat = 17392833922342444260499346398218471459592202496296501609312888207807867178800nat;
    let e51: nat = lemma_power_mod_bit(x, n, e50, v50, 1, v51);
    let v52: nat = 4362294833570433438829773958977796442350264456696727034829686812064413179410nat;
    let e52: nat = lemma_power_mod_bit(x, n, e51, v51, 0, v52);
    let v53: nat = 4488817574608038644056716805798987205468349357358953841732259362172089355015nat;
    let e53: nat = lemma_power_mod_bit(x, n, e52, v52, 1, v53);
    let v54: nat = 12179425811524758798050977916355585251509981415861242423053237315502160099245nat;
    let e54: nat = lemma_power_mod_bit(x, n, e53, v53, 1, v54);
    let v55: nat = 2092304042025108121745217987145322282298984803480907487965469420141956422497nat;
    let e55: nat = lemma_power_mod_bit(x, n, e54, v54, 0, v55);
    let v56: nat = 4906148203430492186188911183481100407169867492047783817946197360139027223631nat;
    let e56: nat = lemma_power_mod_bit(x, n, e55, v55, 0, v56);
    let v57: nat = 19871264251627006325347047693778669945793018092250250608225237105576610485397nat;
    let e57: nat = lemma_power_mod_bit(x, n, e56, v56, 0, v57);
    let v58: nat = 2263411136003472536040103795849703553896347645069728086232504067090646440346nat;
    let e58: nat = lemma_power_mod_bit(x, n, e57, v57, 0, v58);
    let v59: nat = 16909543984309567833340176302680829050946407153545504450746401487480741826515nat;
    let e59: nat = lemma_power_mod_bit(x, n, e58, v58, 1, v59);
    let v60: nat = 13210812691109200745527221832753111173323970373052643852664652285227818459384nat;
    let e60: nat = lemma_power_mod_bit(x, n, e59, v59, 1, v60);
    let v61: nat = 20113471839575981860661290118443771850686065467128188895803605741846512664380nat;
    let e61: nat = lemma_power_mod_bit(x, n, e60, v60, 0, v61);
    let v62: nat = 12164028972248583208237974969149600567681139105106680942130256018561821315853nat;
    let e62: nat = lemma_power_mod_bit(x, n, e61, v61, 1, v62);
    let v63: nat = 15926498156658816800376203906696354674735707120851156186843596519772943815427nat;
    let e63: nat = lemma_power_mod_bit(x, n, e62, v62, 1, v63);
    let v64: nat = 15852146986425794360076554367356444287508463827208302692998934935290852174090nat;
    let e64: nat = lemma_power_mod_bit(x, n, e63, v63, 0, v64);
}

/// A power modulo the modulus, one binary digit of the exponent at a time.
proof fn lemma_power_modulus_1()
    ensures
        power_mod(
            19887383362718182203517009867385956224532393031860387934578001712995117994586nat,
            3933898217314688411227999285001145467754nat,
            baby_jubjub_prime(),
        ) == 7740382856488830440021062471495669005558519249383073335662966997885018076746nat,
{
    let n: nat = baby_jubjub_prime();
    let x: nat = 19887383362718182203517009867385956224532393031860387934578001712995117994586nat;
    lemma_power_modulus_1_part_2();
    let e0: nat = 245868638582168025701749955312571591734nat;
    let v0: nat = 15852146986425794360076554367356444287508463827208302692998934935290852174090nat;
    let v1: nat = 18550466323326954478015354112241093436157629878263426805740901055444074104915nat;
    let e1: nat = lemma_power_mod_bit(x, n, e0, v0, 1, v1);
    let v2: nat = 17724154683086233532681747259917249545824222929154369743955790225072624595115nat;
    let e2: nat = lemma_power_mod_bit(x, n, e1, v1, 0, v2);
    let v3: nat = 18497692122595933478703933290921908586032367088158849348125669095645400405648nat;
    let e3: nat = lemma_power_mod_bit(x, n, e2, v2, 1, v3);
    let v4: nat = 7740382856488830440021062471495669005558519249383073335662966997885018076746nat;
    let e4: nat = lemma_power_mod_bit(x, n, e3, v3, 0, v4);
}

/// A power modulo the modulus, one binary digit of the exponent at a time.
proof fn lemma_power_modulus_2_part_1()
    ensures
        power_mod(
            19887383362718182203517009867385956224532393031860387934578001712995117994586nat,
            12869354741831718817nat,
            baby_jubjub_prime(),
        ) == 20631134849727900068665685364865086202961977410535267039069964966225724046797nat,
{
    let n: nat = baby_jubjub_prime();
    let x: nat = 19887383362718182203517009867385956224532393031860387934578001712995117994586nat;
    lemma_power_mod_start(x, n);
    let e0: nat = 0;
    let v0: nat = 1;
    let v1: nat = 19887383362718182203517009867385956224532393031860387934578001712995117994586nat;
    let e1: nat = lemma_power_mod_bit(x, n, e0, v0, 1, v1);
    let v2: nat = 11368207234942670888835120453873516417666490693300823184588242808005266577922nat;
    let e2: nat = lemma_power_mod_bit(x, n, e1, v1, 0, v2);
    let v3: nat = 8265758905486525362175609898825526441762720027523415331234755038795213382666nat;
    let e3: nat = lemma_power_mod_bit(x, n, e2, v2, 1, v3);
    let v4: nat = 4250244368028176368757454275091478196813026501170834813286728561887595184171nat;
    let e4: nat = lemma_power_mod_bit(x, n, e3, v3, 1, v4);
    let v5: nat = 11494444183063765885074066500430329353652310564968326932832560237786572278560nat;
    let e5: nat = lemma_power_mod_bit(x, n, e4, v4, 0, v5);
    let v6: nat = 8887295963867510714790111578679015593582421979292275546279569689567473558582nat;
    let e6: nat = lemma_power_mod_bit(x, n, e5, v5, 0, v6);
    let v7: nat = 5061891028378177063420475778307582867647093738687706606977025043182427488412nat;
    let e7: nat = lemma_power_mod_bit(x, n, e6, v6, 1, v7);
    let v8: nat = 19625159294655683535562234041018597291953903330089348759204688959035715927913nat;
    let e8: nat = lemma_power_mod_bit(x, n, e7, v7, 0, v8);
    let v9: nat = 9560437930012848715360792818778370758437058017024830159768791523935438231493nat;
    let e9: nat = lemma_power_mod_bit(x, n, e8, v8, 1, v9);
    let v10: nat = 12263785055183954126536133748177005260008009163047498731010637400666694412862nat;
    let e10: nat = lemma_power_mod_bit(x, n, e9, v9, 0, v10);
    let v11: nat = 323421779087689275868387462081716494360221412510714503184450335555836334969nat;
    let e11: nat = lemma_power_mod_bit(x, n, e10, v10, 0, v11);
    let v12: nat = 2097166587044970832601925930884530727874467446122398477163515481151443395391nat;
    let e12: nat = lemma_power_mod_bit(x, n, e11, v11, 1, v12);
    let v13: nat = 3300143237498708904355656829234941748192757325651780220204983691620871210337nat;
    let e13: nat = lemma_power_mod_bit(x, n, e12, v12, 1, v13);
    let v14: nat = 4276584459795994467575980610105255369951318554901802153174700970618539499012nat;
    let e14: nat = lemma_power_mod_bit(x, n, e13, v13, 0, v14);
    let v15: nat = 18538834407765234051139147022626683363746773056306691813128399802313707251152nat;
    let e15: nat = lemma_power_mod_bit(x, n, e14, v14, 0, v15);
    let v16: nat = 11974435319500829305267560733139700219088060364074644322782263516053851694901nat;
    let e16: nat = lemma_power_mod_bit(x, n, e15, v15, 1, v16);
    let v17: nat = 13432655162081046465109939468071929328346994824408249445360479580652090467309nat;
    let e17: nat = lemma_power_mod_bit(x, n, e16, v16, 0, v17);
    let v18: nat = 7497559086436471727346607996157364356028697646572552593938893438594109178671nat;
    let e18: nat = lemma_power_mod_bit(x, n, e17, v17, 0, v18);
    let v19: nat = 15900307945945059971229832897168693485024559752270618197395830365532967220430nat;
    let e19: nat = lemma_power_mod_bit(x, n, e18, v18, 1, v19);
    let v20: nat = 19550697270622854245615613472693976580853606681641208147120756348035637544143nat;
    let e20: nat = lemma_power_mod_bit(x, n, e19, v19, 0, v20);
    let v21: nat = 20640821300613105835678549036530255780202942593043806867882881626386310447148nat;
    let e21: nat = lemma_power_mod_bit(x, n, e20, v20, 0, v21);
    let v22: nat = 13508814242171656780553775360344000153351793853612298965019929449276570565682nat;
    let e22: nat = lemma_power_mod_bit(x, n, e21, v21, 0, v22);
    let v23: nat = 12067719694567025893873439741242123946614189496648238105747021254519806491920nat;
    let e23: nat = lemma_power_mod_bit(x, n, e22, v22, 0, v23);
    let v24: nat = 18273043784768168285751739820122639490657469105429934676181552519427294608791nat;
    let e24: nat = lemma_power_mod_bit(x, n, e23, v23, 1, v24);
    let v25: nat = 10149224016995534948012403935334806163734549615819085870330028637316221532227nat;
    let e25: nat = lemma_power_mod_bit(x, n, e24, v24, 1, v25);
    let v26: nat = 12837942135220354810627681051684181355281319698224061615455742501819071506337nat;
    let e26: nat = lemma_power_mod_bit(x, n, e25, v25, 1, v26);
    let v27: nat = 19123764232595571854755698481351540512120715131811396342893823594762135238892nat;
    let e27: nat = lemma_power_mod_bit(x, n, e26, v26, 1, v27);
    let v28: nat = 2728492993332985634234914114292407184737466930517128697497326380686831144009nat;
    let e28: nat = lemma_power_mod_bit(x, n, e27, v27, 1, v28);
    let v29: nat = 19888979786733686141893401465209835796992731937122924701201058499174649915895nat;
    let e29: nat = lemma_power_mod_bit(x, n, e28, v28, 0, v29);
    let v30: nat = 14988586419769208399054338713206811420971288817743292149516919389200904875008nat;
    let e30: nat = lemma_power_mod_bit(x, n, e29, v29, 0, v30);
    let v31: nat = 245689507423805454590478647505055593155350861092229564480532313100003937045nat;
    let e31: nat = lemma_power_mod_bit(x, n, e30, v30, 1, v31);
    let v32: nat = 21794723180712821990747261605434696171733626915878869378835023501742310321755nat;
    let e32: nat = lemma_power_mod_bit(x, n, e31, v31, 1, v32);
    let v33: nat = 20808436707513813305498633705091769308573201979774708211107678099675214739119nat;
    let e33: nat = lemma_power_mod_bit(x, n, e32, v32, 1, v33);
    let v34: nat = 234541370463152464003836887525963263642786514813755591543193083881945074458nat;
    let e34: nat = lemma_power_mod_bit(x, n, e33, v33, 1, v34);
    let v35: nat = 8258760025638021692433978066534839108990148727089985943637328462362435826057nat;
    let e35: nat = lemma_power_mod_bit(x, n, e34, v34, 1, v35);
    let v36: nat = 691654749494906024989499367563956606673996248870551008685861140945840680096nat;
    let e36: nat = lemma_power_mod_bit(x, n, e35, v35, 1, v36);
    let v37: nat = 11971840938708611487065290255158232309859381220125722575288779247068480771492nat;
    let e37: nat = lemma_power_mod_bit(x, n, e36, v36, 0, v37);
    let v38: nat = 984235613766972918628959300191381952710476791301200896241291181305125940314nat;
    let e38: nat = lemma_power_mod_bit(x, n, e37, v37, 0, v38);
    let v39: nat = 1078027211936680497248722970037280272922548319930376274976160524372757736224nat;
    let e39: nat = lemma_power_mod_bit(x, n, e38, v38, 1, v39);
    let v40: nat = 17304895917619113608047663567519999728422546823062460798190268921041372039980nat;
    let e40: nat = lemma_power_mod_bit(x, n, e39, v39, 1, v40);
    let v41: nat = 7115624556795969004702681886287111383209682153610472784343150383847015622485nat;
    let e41: nat = lemma_power_mod_bit(x, n, e40, v40, 0, v41);
    let v42: nat = 1442171260239139033806033306081737923728425988370877417934569724512323837343nat;
    let e42: nat = lemma_power_mod_bit(x, n, e41, v41, 1, v42);
    let v43: nat = 15835893721492227733202172430294739040638958318464836634882559750194927959460nat;
    let e43: nat = lemma_power_mod_bit(x, n, e42, v42, 0, v43);
    let v44: nat = 238488701153927433893690293206597004673033766738991618146031731214941863618nat;
    let e44: nat = lemma_power_mod_bit(x, n, e43, v43, 1, v44);
    let v45: nat = 827403719239629488171934036062622212587017997299463450598305832474084058653nat;
    let e45: nat = lemma_power_mod_bit(x, n, e44, v44, 1, v45);
    let v46: nat = 18310786557710486775630348222478227877611249360546860638291697587145048241737nat;
    let e46: nat = lemma_power_mod_bit(x, n, e45, v45, 1, v46);
    let v47: nat = 9885849069090136192731231147226124618079796938527707339863154565071022675705nat;
    let e47: nat = lemma_power_mod_bit(x, n, e46, v46, 1, v47);
    let v48: nat = 20233689805848268940133119698591842274311616010497825046335700314963989235525nat;
    let e48: nat = lemma_power_mod_bit(x, n, e47, v47, 0, v48);
    let v49: nat = 14767168507383661070705139538597936258701970108104510775457578493697810098705nat;
    let e49: nat = lemma_power_mod_bit(x, n, e48, v48, 0, v49);
    let v50: nat = 10300213560429270591320424056035465993554909174246071298382071200028746602351nat;
    let e50: nat = lemma_power_mod_bit(x, n, e49, v49, 1, v50);
    let v51: nat = 20251018260186159299972868406923024128101221418694389540886757413603559336667nat;
    let e51: nat = lemma_power_mod_bit(x, n, e50, v50, 0, v51);
    let v52: nat = 10153294655401199441553441187137877335699605753861024067944314294475789752817nat;
    let e52: nat = lemma_power_mod_bit(x, n, e51, v51, 1, v52);
    let v53: nat = 11643089151723983581825276151630886144675661358120971273286345196276327185403nat;
    let e53: nat = lemma_power_mod_bit(x, n, e52, v52, 0, v53);
    let v54: nat = 9597206601113368520000579129324887230117328621757145232834525760566191405073nat;
    let e54: nat = lemma_power_mod_bit(x, n, e53, v53, 1, v54);
    let v55: nat = 3206325710275984088391343716904028632569704722553619193853220663814140196915nat;
    let e55: nat = lemma_power_mod_bit(x, n, e54, v54, 1, v55);
    let v56: nat = 11098344587907118645319193647143290535697100071706652471930241314869214311570nat;
    let e56: nat = lemma_power_mod_bit(x, n, e55, v55, 1, v56);
    let v57: nat = 9285510549835877140359276587014456475112909754151117873875570693454280741492nat;
    let e57: nat = lemma_power_mod_bit(x, n, e56, v56, 1, v57);
    let v58: nat = 5944008177729651548369296518285855237086997478973518706249169762624860956248nat;
    let e58: nat = lemma_power_mod_bit(x, n, e57, v57, 0, v58);
    let v59: nat = 333767814270730908578286967663794366859399540729308689717072243535765013768nat;
    let e59: nat = lemma_power_mod_bit(x, n, e58, v58, 1, v59);
    let v60: nat = 4792565701617741112508864846896784767630836164889582249288538589510522276602nat;
    let e60: nat = lemma_power_mod_bit(x, n, e59, v59, 0, v60);
    let v61: nat = 10755218750764940654593761908166701762615631532401029893686592110952769361239nat;
    let e61: nat = lemma_power_mod_bit(x, n, e60, v60, 0, v61);
    let v62: nat = 9913788968727481668197494114933041474467723059044282763798152571206670203818nat;
    let e62: nat = lemma_power_mod_bit(x, n, e61, v61, 0, v62);
    let v63: nat = 20408133315843753715154859892244101247842495469650220413724640444592684823700nat;
    let e63: nat = lemma_power_mod_bit(x, n, e62, v62, 0, v63);
    let v64: nat = 20631134849727900068665685364865086202961977410535267039069964966225724046797nat;
    let e64: nat = lemma_power_mod_bit(x, n, e63, v63, 1, v64);
}

/// A power modulo the modulus, one binary digit of the exponent at a time.
proof fn lemma_power_modulus_2()
    ensures
        power_mod(
            19887383362718182203517009867385956224532393031860387934578001712995117994586nat,
            13818364434197438864469338081nat,
            baby_jubjub_prime(),
        ) == 12221245763196206497823379909870049310274082915206849646055666645766764708896nat,
{
    let n: nat = baby_jubjub_prime();
    let x: nat = 19887383362718182203517009867385956224532393031860387934578001712995117994586nat;
    lemma_power_modulus_2_part_1();
    let e0: nat = 12869354741831718817nat;
    let v0: nat = 20631134849727900068665685364865086202961977410535267039069964966225724046797nat;
    let v1: nat = 9974855838031294024182001868820990680150034793746967510214644883902015086620nat;
    let e1: nat = lemma_power_mod_bit(x, n, e0, v0, 1, v1);
    let v2: nat = 17061140331165138685574627537571808110729146022946285635427177745317466671563nat;
    let e2: nat = lemma_power_mod_bit(x, n, e1, v1, 1, v2);
    let v3: nat = 3689307687183134723389829548692047462855270765384010732051002936365530345252nat;
    let e3: nat = lemma_power_mod_bit(x, n, e2, v2, 0, v3);
    let v4: nat = 6540364629464389150485278742758703527322649005632805379130595590843898336009nat;
    let e4: nat = lemma_power_mod_bit(x, n, e3, v3, 0, v4);
    let v5: nat = 11707510916126903177007148082173381103739095332105694404980894316346670663977nat;
    let e5: nat = lemma_power_mod_bit(x, n, e4, v4, 1, v5);
    let v6: nat = 11368902729471561473663090621205925478645295506205639431243782764505105814182nat;
    let e6: nat = lemma_power_mod_bit(x, n, e5, v5, 0, v6);
    let v7: nat = 13323551498967461275353711086327696474138986062885225236924334861103960039078nat;
    let e7: nat = lemma_power_mod_bit(x, n, e6, v6, 1, v7);
    let v8: nat = 9907189458831848479865584937550429982053883200093659025264198521896838610169nat;
    let e8: nat = lemma_power_mod_bit(x, n, e7, v7, 0, v8);
    let v9: nat = 11947586185424654706602488034650731736068647909493566813117860832161003377435nat;
    let e9: nat = lemma_power_mod_bit(x, n, e8, v8, 0, v9);
    let v10: nat = 14375338372136844756073828265359652230187081196850597563865752272055252823549nat;
    let e10: nat = lemma_power_mod_bit(x, n, e9, v9, 1, v10);
    let v11: nat = 1436923831303680054737729281708105724306424365822510790150467492086399274385nat;
    let e11: nat = lemma_power_mod_bit(x, n, e10, v10, 0, v11);
    let v12: nat = 2732874109473867213096943196618687163606292953836463646949797140665669846552nat;
    let e12: nat = lemma_power_mod_bit(x, n, e11, v11, 1, v12);
    let v13: nat = 19075376107792593361039478326331479171921387251191595758195189919875085821951nat;
    let e13: nat = lemma_power_mod_bit(x, n, e12, v12, 0, v13);
    let v14: nat = 13298901058695849144310538715418099208274163193620551070033863885708320200924nat;
    let e14: nat = lemma_power_mod_bit(x, n, e13, v13, 1, v14);
    let v15: nat = 19953209986800214609718221316840767461842397799618855219089529204503569292563nat;
    let e15: nat = lemma_power_mod_bit(x, n, e14, v14, 0, v15);
    let v16: nat = 21344017604850673193236853474102709814863996151775061448024909482973193143189nat;
    let e16: nat = lemma_power_mod_bit(x, n, e15, v15, 0, v16);
    let v17: nat = 6021964811996639787692283393471349115865293260675383492390882404268609597791nat;
    let e17: nat = lemma_power_mod_bit(x, n, e16, v16, 1, v17);
    let v18: nat = 8632774693964295242887802453132671408767068974083380227069826239180020790516nat;
    let e18: nat = lemma_power_mod_bit(x, n, e17, v17, 0, v18);
    let v19: nat = 788320263711645418733058515947804906541745612944438090771382653509772188850nat;
    let e19: nat = lemma_power_mod_bit(x, n, e18, v18, 0, v19);
    let v20: nat = 12878697147758488085760403990790988095984019909494629620033755172462699346059nat;
    let e20: nat = lemma_power_mod_bit(x, n, e19, v19, 1, v20);
    let v21: nat = 16226604743320769575924266391793960718767999824436306213991295785970817182474nat;
    let e21: nat = lemma_power_mod_bit(x, n, e20, v20, 1, v21);
    let v22: nat = 13532209185507808690842461800822455391228217837117731419985853142444848088613nat;
    let e22: nat = lemma_power_mod_bit(x, n, e21, v21, 1, v22);
    let v23: nat = 6704693117357286798736858141185047266726761204388202171094722004565293413065nat;
    let e23: nat = lemma_power_mod_bit(x, n, e22, v22, 1, v23);
    let v24: nat = 7339953020380057975376954772977077222462494085512998800651156088582190517097nat;
    let e24: nat = lemma_power_mod_bit(x, n, e23, v23, 1, v24);
    let v25: nat = 1625467933918011747479900052016744803722512030377806588216494993669836353021nat;
    let e25: nat = lemma_power_mod_bit(x, n, e24, v24, 1, v25);
    let v26: nat = 16060510398324307919898644143381074746823159176901856364559232854412931298408nat;
    let e26: nat = lemma_power_mod_bit(x, n, e25, v25, 0, v26);
    let v27: nat = 20569362800558145655725943839873859553198759114881516665450071418693791004485nat;
    let e27: nat = lemma_power_mod_bit(x, n, e26, v26, 0, v27);
    let v28: nat = 21776645216666806858891662025765583223883535326913965330035544852075592197194nat;
    let e28: nat = lemma_power_mod_bit(x, n, e27, v27, 0, v28);
    let v29: nat = 3726606995623233846115204053381284247402517968938776522522090077803522514047nat;
    let e29: nat = lemma_power_mod_bit(x, n, e28, v28, 0, v29);
    let v30: nat = 12221245763196206497823379909870049310274082915206849646055666645766764708896nat;
    let e30: nat = lemma_power_mod_bit(x, n, e29, v29, 1, v30);
}

/// A power modulo the modulus, one binary digit of the exponent at a time.
proof fn lemma_power_modulus_3_part_1()
    ensures
        power_mod(
            12221245763196206497823379909870049310274082915206849646055666645766764708896nat,
            16625978513600618685nat,
            baby_jubjub_prime(),
        ) == 9991716917155272540918778482573165837538456443369403565620687989136961868306nat,
{
    let n: nat = baby_jubjub_prime();
    let x: nat = 12221245763196206497823379909870049310274082915206849646055666645766764708896nat;
    lemma_power_mod_start(x, n);
    let e0: nat = 0;
    let v0: nat = 1;
    let v1: nat = 12221245763196206497823379909870049310274082915206849646055666645766764708896nat;
    let e1: nat = lemma_power_mod_bit(x, n, e0, v0, 1, v1);
    let v2: nat = 5436036273500138450927197847753580210435681626946937411791393371922319325347nat;
    let e2: nat = lemma_power_mod_bit(x, n, e1, v1, 1, v2);
    let v3: nat = 18288112240667550735747101845544725769909032275063778638474113594309870907487nat;
    let e3: nat = lemma_power_mod_bit(x, n, e2, v2, 1, v3);
    let v4: nat = 15444984417498270037175817360794836701953137615051879565227858138032143605717nat;
    let e4: nat = lemma_power_mod_bit(x, n, e3, v3, 0, v4);
    let v5: nat = 13280175251928358454233782498641240520217456301797789104139203803571413482632nat;
    let e5: nat = lemma_power_mod_bit(x, n, e4, v4, 0, v5);
    let v6: nat = 13049785569677528330034484561714266212548856500093471690549004932816526210683nat;
    let e6: nat = lemma_power_mod_bit(x, n, e5, v5, 1, v6);
    let v7: nat = 19429768352609665391873864224563084774988227821348680564843001928360165035265nat;
    let e7: nat = lemma_power_mod_bit(x, n, e6, v6, 1, v7);
    let v8: nat = 7872164027303001949387997814398402106501287108961465255950286392017229890286nat;
    let e8: nat = lemma_power_mod_bit(x, n, e7, v7, 0, v8);
    let v9: nat = 13913504947501485526227817637667485030276434432529089759472387811871609263512nat;
    let e9: nat = lemma_power_mod_bit(x, n, e8, v8, 1, v9);
    let v10: nat = 12279047337034732858093253941953810131021163969711459587647008996151308380565nat;
    let e10: nat = lemma_power_mod_bit(x, n, e9, v9, 0, v10);
    let v11: nat = 10402774041361652026103523615236828226140042472630760549849519756975396595392nat;
    let e11: nat = lemma_power_mod_bit(x, n, e10, v10, 1, v11);
    let v12: nat = 18285362218320041128843440769620170902863275468884267674274035256193993953862nat;
    let e12: nat = lemma_power_mod_bit(x, n, e11, v11, 1, v12);
    let v13: nat = 20377407216031097819379778435105501938949083850731007808286277503807623850992nat;
    let e13: nat = lemma_power_mod_bit(x, n, e12, v12, 1, v13);
    let v14: nat = 11080863292596629699361932875085424709656510691648967382916946679958786622940nat;
    let e14: nat = lemma_power_mod_bit(x, n, e13, v13, 0, v14);
    let v15: nat = 13860319005364646155270564001321191777972717533468326960806267821592688767029nat;
    let e15: nat = lemma_power_mod_bit(x, n, e14, v14, 1, v15);
    let v16: nat = 7108896728872632686681468166405043349759765247681023937590145253768974455102nat;
    let e16: nat = lemma_power_mod_bit(x, n, e15, v15, 1, v16);
    let v17: nat = 12900319815581411918303138807478786503800305823835614808724742504227156308301nat;
    let e17: nat = lemma_power_mod_bit(x, n, e16, v16, 0, v17);
    let v18: nat = 18703695612158772675506349143178913129124582230469442500746474143962103449095nat;
    let e18: nat = lemma_power_mod_bit(x, n, e17, v17, 1, v18);
    let v19: nat = 15689598788865307877053945496988115185947804748967389612616687086278851902047nat;
    let e19: nat = lemma_power_mod_bit(x, n, e18, v18, 0, v19);
    let v20: nat = 16296662327871139769420037273515155133891347085274425896861577345118181174579nat;
    let e20: nat = lemma_power_mod_bit(x, n, e19, v19, 1, v20);
    let v21: nat = 15963206778557879463951898139145439530794535956365977936751205469554976255423nat;
    let e21: nat = lemma_power_mod_bit(x, n, e20, v20, 0, v21);
    let v22: nat = 14440194441861113878424722011984993278167936314758892253659812343089071008194nat;
    let e22: nat = lemma_power_mod_bit(x, n, e21, v21, 1, v22);
    let v23: nat = 16124498973249090249463835385051745605689974234246568658661726774294227317966nat;
    let e23: nat = lemma_power_mod_bit(x, n, e22, v22, 1, v23);
    let v24: nat = 2973184807173516206727173011634470159193312078877178438540010854093835141011nat;
    let e24: nat = lemma_power_mod_bit(x, n, e23, v23, 1, v24);
    let v25: nat = 15006800820290535903114475514313295577518257884944700973919598327098234187219nat;
    let e25: nat = lemma_power_mod_bit(x, n, e24, v24, 0, v25);
    let v26: nat = 19026922325608265553956881536172510730266488131440738643230648055387164268847nat;
    let e26: nat = lemma_power_mod_bit(x, n, e25, v25, 1, v26);
    let v27: nat = 14001648945256621838486522199449452052238699166896252907967160393279172675781nat;
    let e27: nat = lemma_power_mod_bit(x, n, e26, v26, 0, v27);
    let v28: nat = 7716257123594044813874926831762068957091924119238356826933077704634051817003nat;
    let e28: nat = lemma_power_mod_bit(x, n, e27, v27, 1, v28);
    let v29: nat = 10667111753849078187678689017870700335763552611873615007839655833982947690404nat;
    let e29: nat = lemma_power_mod_bit(x, n, e28, v28, 1, v29);
    let v30: nat = 11397370969809679603010309650104977720249160968334245785523218423287214947619nat;
    let e30: nat = lemma_power_mod_bit(x, n, e29, v29, 1, v30);
    let v31: nat = 20472999881444571692761837674192295071531040277514253412029284334409996667592nat;
    let e31: nat = lemma_power_mod_bit(x, n, e30, v30, 1, v31);
    let v32: nat = 15694104209420074967835519389067908440343546003934013994617810922572450613637nat;
    let e32: nat = lemma_power_mod_bit(x, n, e31, v31, 0, v32);
    let v33: nat = 19876873289617899380137904350710755269378555107088140553214636667817925072923nat;
    let e33: nat = lemma_power_mod_bit(x, n, e32, v32, 1, v33);
    let v34: nat = 17683054086359393452074366792207075886163139895503799558044779615385858540192nat;
    let e34: nat = lemma_power_mod_bit(x, n, e33, v33, 0, v34);
    let v35: nat = 3321252057874374429625065340827545605841358625114033863182894554081689299752nat;
    let e35: nat = lemma_power_mod_bit(x, n, e34, v34, 1, v35);
    let v36: nat = 1455337515997911528677466547368478102628924139575303569939348438385874142557nat;
    let e36: nat = lemma_power_mod_bit(x, n, e35, v35, 1, v36);
    let v37: nat = 13486478939305912066902130443080109636888250806212026892261985067927342153931nat;
    let e37: nat = lemma_power_mod_bit(x, n, e36, v36, 0, v37);
    let v38: nat = 11375201655566852487388534118320630703990064682796900262811583227990823088785nat;
    let e38: nat = lemma_power_mod_bit(x, n, e37, v37, 0, v38);
    let v39: nat = 6987103472203518180508577894585265810212452663560064095931464897549886506251nat;
    let e39: nat = lemma_power_mod_bit(x, n, e38, v38, 1, v39);
    let v40: nat = 20341527433163095611957311970207543370400030796365715692731596206994466746032nat;
    let e40: nat = lemma_power_mod_bit(x, n, e39, v39, 0, v40);
    let v41: nat = 12932103637447445158943320905182708560619915202561293009005339979564244676388nat;
    let e41: nat = lemma_power_mod_bit(x, n, e40, v40, 0, v41);
    let v42: nat = 6345437909734389748574703825867821086268972454246226014672168601418304714660nat;
    let e42: nat = lemma_power_mod_bit(x, n, e41, v41, 1, v42);
    let v43: nat = 145477845918872223363207175681191740104696296804040475605895074450704726085nat;
    let e43: nat = lemma_power_mod_bit(x, n, e42, v42, 1, v43);
    let v44: nat = 8295724545955905775575884673579264774183114560291204688061288706611206502566nat;
    let e44: nat = lemma_power_mod_bit(x, n, e43, v43, 1, v44);
    let v45: nat = 21206624419921547904922675627669105158670294320876512442112362935448644623774nat;
    let e45: nat = lemma_power_mod_bit(x, n, e44, v44, 0, v45);
    let v46: nat = 3336726532969991001275128365724744440505503222833625960838961273206823181260nat;
    let e46: nat = lemma_power_mod_bit(x, n, e45, v45, 0, v46);
    let v47: nat = 20999172346858123706239223202394676174058299425261730020442156721112170077154nat;
    let e47: nat = lemma_power_mod_bit(x, n, e46, v46, 0, v47);
    let v48: nat = 9022248389962302097855595023489325554416381266197175941553345106175474204197nat;
    let e48: nat = lemma_power_mod_bit(x, n, e47, v47, 1, v48);
    let v49: nat = 12350047441957013109832238643167843950753991636940137124690949739214584376636nat;
    let e49: nat = lemma_power_mod_bit(x, n, e48, v48, 0, v49);
    let v50: nat = 7487716378987066335209450585475191291010282957618865810297519355335021970679nat;
    let e50: nat = lemma_power_mod_bit(x, n, e49, v49, 0, v50);
    let v51: nat = 17410148565900957208632972650321895659671508315710867532866651862440950003486nat;
    let e51: nat = lemma_power_mod_bit(x, n, e50, v50, 1, v51);
    let v52: nat = 311669319089767084915392458236629268668079245238502506340527185040160435156nat;
    let e52: nat = lemma_power_mod_bit(x, n, e51, v51, 0, v52);
    let v53: nat = 8183886540370177429589978677205987552772465906693539879121150026380264784823nat;
    let e53: nat = lemma_power_mod_bit(x, n, e52, v52, 0, v53);
    let v54: nat = 7148935459714461295370172652317113049590055314137865383059444245561416174572nat;
    let e54: nat = lemma_power_mod_bit(x, n, e53, v53, 0, v54);
    let v55: nat = 7412985903021416767967017351600706255575268998529338752211843560674467016414nat;
    let e55: nat = lemma_power_mod_bit(x, n, e54, v54, 0, v55);
    let v56: nat = 9231420633470576037376963216451671058666160851449966765415533884158132535317nat;
    let e56: nat = lemma_power_mod_bit(x, n, e55, v55, 0, v56);
    let v57: nat = 19759918265323121005142381996322986108239699055309803571731890750828767193277nat;
    let e57: nat = lemma_power_mod_bit(x, n, e56, v56, 1, v57);
    let v58: nat = 7923121166768320938474633215204911544861004163228364197061738087031201328175nat;
    let e58: nat = lemma_power_mod_bit(x, n, e57, v57, 0, v58);
    let v59: nat = 515476110434742755833103511002430102943877280402040498731084072576877579083nat;
    let e59: nat = lemma_power_mod_bit(x, n, e58, v58, 1, v59);
    let v60: nat = 2141493596766933676617856430321946596323914109442171111580662288339377895281nat;
    let e60: nat = lemma_power_mod_bit(x, n, e59, v59, 1, v60);
    let v61: nat = 565428302836461825767256686356973362858625645847853159477866379148412024354nat;
    let e61: nat = lemma_power_mod_bit(x, n, e60, v60, 1, v61);
    let v62: nat = 4167896060285669196758835880295074091303506861979534497409738714720091696334nat;
    let e62: nat = lemma_power_mod_bit(x, n, e61, v61, 1, v62);
    let v63: nat = 680555779896762618614909529513860437176673682216255912263863818624386613677nat;
    let e63: nat = lemma_power_mod_bit(x, n, e62, v62, 0, v63);
    let v64: nat = 9991716917155272540918778482573165837538456443369403565620687989136961868306nat;
    let e64: nat = lemma_power_mod_bit(x, n, e63, v63, 1, v64);
}

/// A power modulo the modulus, one binary digit of the exponent at a time.
proof fn lemma_power_modulus_3()
    ensures
        power_mod(
            12221245763196206497823379909870049310274082915206849646055666645766764708896nat,
            4358400511469320584619751nat,
            baby_jubjub_prime(),
        ) == 11312330804912606913175972217686049507098499378637989567617924712345000116520nat,
{
    let n: nat = baby_jubjub_prime();
    let x: nat = 12221245763196206497823379909870049310274082915206849646055666645766764708896nat;
    lemma_power_modulus_3_part_1();
    let e0: nat = 16625978513600618685nat;
    let v0: nat = 9991716917155272540918778482573165837538456443369403565620687989136961868306nat;
    let v1: nat = 8249458278720705102307806002186947441910916211789552553901704602082798173695nat;
    let e1: nat = lemma_power_mod_bit(x, n, e0, v0, 0, v1);
    let v2: nat = 9671989750953211264449477900619169913014233145075251869001870216829334427244nat;
    let e2: nat = lemma_power_mod_bit(x, n, e1, v1, 0, v2);
    let v3: nat = 14966712705693374302326804856755334720377849393366589268857987337853115439947nat;
    let e3: nat = lemma_power_mod_bit(x, n, e2, v2, 1, v3);
    let v4: nat = 18233476322545947804347350572632486535887107289650858925966110056855574765748nat;
    let e4: nat = lemma_power_mod_bit(x, n, e3, v3, 1, v4);
    let v5: nat = 5774064334768555516970111691731376955187369475968100538621205191784076793307nat;
    let e5: nat = lemma_power_mod_bit(x, n, e4, v4, 1, v5);
    let v6: nat = 15385784235291691085531097158756815039345242776843207927411751099940713072411nat;
    let e6: nat = lemma_power_mod_bit(x, n, e5, v5, 0, v6);
    let v7: nat = 15158666498177280231882436597698209859546791104501224633228293663196456001717nat;
    let e7: nat = lemma_power_mod_bit(x, n, e6, v6, 0, v7);
    let v8: nat = 3604675334034194863063464086599083014491035808847749035637649924313352678238nat;
    let e8: nat = lemma_power_mod_bit(x, n, e7, v7, 1, v8);
    let v9: nat = 13476200133889214313887758037272468035292521321890620399909479669493633842121nat;
    let e9: nat = lemma_power_mod_bit(x, n, e8, v8, 1, v9);
    let v10: nat = 11691722004991522399769447187060486228143008630048256775774490449908880752250nat;
    let e10: nat = lemma_power_mod_bit(x, n, e9, v9, 0, v10);
    let v11: nat = 5222712988613098284313177699220937290200876925346914899111302267031986280119nat;
    let e11: nat = lemma_power_mod_bit(x, n, e10, v10, 1, v11);
    let v12: nat = 156341528702064302736008722159104919425913145529777316094044648740467692002nat;
    let e12: nat = lemma_power_mod_bit(x, n, e11, v11, 1, v12);
    let v13: nat = 13192087480373697593420107579019581444943942908226260919681643344612651201765nat;
    let e13: nat = lemma_power_mod_bit(x, n, e12, v12, 1, v13);
    let v14: nat = 7376949624348581205551830195542986162010067132916547517985597016495678378497nat;
    let e14: nat = lemma_power_mod_bit(x, n, e13, v13, 0, v14);
    let v15: nat = 9895403305623369547255633582511519973758595013473628580896764006440524530183nat;
    let e15: nat = lemma_power_mod_bit(x, n, e14, v14, 0, v15);
    let v16: nat = 18708439186828158534733219860623649564910499019783217683463085597929085077268nat;
    let e16: nat = lemma_power_mod_bit(x, n, e15, v15, 1, v16);
    let v17: nat = 21582675501831177721070763256868426583631496589221960187282461031875093483593nat;
    let e17: nat = lemma_power_mod_bit(x, n, e16, v16, 1, v17);
    let v18: nat = 11312330804912606913175972217686049507098499378637989567617924712345000116520nat;
    let e18: nat = lemma_power_mod_bit(x, n, e17, v17, 1, v18);
}

/// A power modulo the modulus, one binary digit of the exponent at a time.
proof fn lemma_power_modulus_4()
    ensures
        power_mod(
            11312330804912606913175972217686049507098499378637989567617924712345000116520nat,
            405928799nat,
            baby_jubjub_prime(),
        ) == 6475554457357348236690538752847767240807766159235244952610639667752272374456nat,
{
    let n: nat = baby_jubjub_prime();
    let x: nat = 11312330804912606913175972217686049507098499378637989567617924712345000116520nat;
    lemma_power_mod_start(x, n);
    let e0: nat = 0;
    let v0: nat = 1;
    let v1: nat = 11312330804912606913175972217686049507098499378637989567617924712345000116520nat;
    let e1: nat = lemma_power_mod_bit(x, n, e0, v0, 1, v1);
    let v2: nat = 13545330683580527064890565663723729331728692554740534455751930402965876628632nat;
    let e2: nat = lemma_power_mod_bit(x, n, e1, v1, 1, v2);
    let v3: nat = 19098195600638026810422059474871090175584602908652436774179538283052922654571nat;
    let e3: nat = lemma_power_mod_bit(x, n, e2, v2, 0, v3);
    let v4: nat = 2091903636242082284743690718301678306300145328072246676401207780589394908366nat;
    let e4: nat = lemma_power_mod_bit(x, n, e3, v3, 0, v4);
    let v5: nat = 1126270820784303225991083515185416987424798818183684608291920627621194647112nat;
    let e5: nat = lemma_power_mod_bit(x, n, e4, v4, 0, v5);
    let v6: nat = 17485421511651399260388868211631916591212092402782457802377597879358042572926nat;
    let e6: nat = lemma_power_mod_bit(x, n, e5, v5, 0, v6);
    let v7: nat = 653644892509408027235815373455063031404284453349917157271919482924427395053nat;
    let e7: nat = lemma_power_mod_bit(x, n, e6, v6, 0, v7);
    let v8: nat = 9692507181727493916618183680636708505978875854581554430062293498670405161834nat;
    let e8: nat = lemma_power_mod_bit(x, n, e7, v7, 1, v8);
    let v9: nat = 14424981325790621828760636215434329717256992981306679438297211738930891707616nat;
    let e9: nat = lemma_power_mod_bit(x, n, e8, v8, 1, v9);
    let v10: nat = 13192756814248063483583732074030439833681956849966058485379025256364631882504nat;
    let e10: nat = lemma_power_mod_bit(x, n, e9, v9, 0, v10);
    let v11: nat = 4372569414111442727906391959721236581657846550876441806844169706158345901665nat;
    let e11: nat = lemma_power_mod_bit(x, n, e10, v10, 0, v11);
    let v12: nat = 10971443048609959370519348885593563665514366617111397808876513223154138407591nat;
    let e12: nat = lemma_power_mod_bit(x, n, e11, v11, 0, v12);
    let v13: nat = 10482875724793710905650017484503863540216003316428736407291668721738414509011nat;
    let e13: nat = lemma_power_mod_bit(x, n, e12, v12, 1, v13);
    let v14: nat = 5163477702435944335544879021056305033881396239660684451795355677628010757665nat;
    let e14: nat = lemma_power_mod_bit(x, n, e13, v13, 1, v14);
    let v15: nat = 8987728027860407676686486345199356783282111741593009284618915695479433233558nat;
    let e15: nat = lemma_power_mod_bit(x, n, e14, v14, 1, v15);
    let v16: nat = 18198519840175844818028910858638102002771265536596876388151468105918599374287nat;
    let e16: nat = lemma_power_mod_bit(x, n, e15, v15, 1, v16);
    let v17: nat = 20005860042806823536130292963689966777401598683724957952304380861436887080121nat;
    let e17: nat = lemma_power_mod_bit(x, n, e16, v16, 1, v17);
    let v18: nat = 12750234351160658023485947594880174647975504017237445817397674246708809521011nat;
    let e18: nat = lemma_power_mod_bit(x, n, e17, v17, 1, v18);
    let v19: nat = 8593942879703665399085465406792175353285844970710319190641536065779790549324nat;
    let e19: nat = lemma_power_mod_bit(x, n, e18, v18, 0, v19);
    let v20: nat = 15424263319002927619503503342503279181927295092450000956353849335129387675759nat;
    let e20: nat = lemma_power_mod_bit(x, n, e19, v19, 1, v20);
    let v21: nat = 3697528454465441255004566148151445137604065548981630694711124149918341359196nat;
    let e21: nat = lemma_power_mod_bit(x, n, e20, v20, 1, v21);
    let v22: nat = 14725441655183120712529518385161272193255957664672384524086665860672064261936nat;
    let e22: nat = lemma_power_mod_bit(x, n, e21, v21, 0, v22);
    let v23: nat = 20293499259286372784873899677066561206078607029874634571445244738910646656384nat;
    let e23: nat = lemma_power_mod_bit(x, n, e22, v22, 1, v23);
    let v24: nat = 5447887337756251875192876912724978838024251482486484559377684091195413144522nat;
    let e24: nat = lemma_power_mod_bit(x, n, e23, v23, 0, v24);
    let v25: nat = 15599800945941322678511163937520810547992668953936962499433218938046234341710nat;
    let e25: nat = lemma_power_mod_bit(x, n, e24, v24, 1, v25);
    let v26: nat = 16644285753645871546489780153846217277070835736851062852685059176925136128855nat;
    let e26: nat = lemma_power_mod_bit(x, n, e25, v25, 1, v26);
    let v27: nat = 14834341807880781856523466146331686478273045012749748958997405565824447978458nat;
    let e27: nat = lemma_power_mod_bit(x, n, e26, v26, 1, v27);
    let v28: nat = 2803421964203138947498562340136966172614492356453965874783774439918503588818nat;
    let e28: nat = lemma_power_mod_bit(x, n, e27, v27, 1, v28);
    let v29: nat = 6475554457357348236690538752847767240807766159235244952610639667752272374456nat;
    let e29: nat = lemma_power_mod_bit(x, n, e28, v28, 1, v29);
}

/// A power modulo the modulus, one binary digit of the exponent at a time.
proof fn lemma_power_modulus_5()
    ensures
        power_mod(
            6475554457357348236690538752847767240807766159235244952610639667752272374456nat,
            2262nat,
            baby_jubjub_prime(),
        ) == 16151937248511612831218790030381502136078900305644383989873770910345603053439nat,
{
    let n: nat = baby_jubjub_prime();
    let x: nat = 6475554457357348236690538752847767240807766159235244952610639667752272374456nat;
    lemma_power_mod_start(x, n);
    let e0: nat = 0;
    let v0: nat = 1;
    let v1: nat = 6475554457357348236690538752847767240807766159235244952610639667752272374456nat;
    let e1: nat = lemma_power_mod_bit(x, n, e0, v0, 1, v1);
    let v2: nat = 18107829065732600426244028458114555154829946125012908528210960458346232746626nat;
    let e2: nat = lemma_power_mod_bit(x, n, e1, v1, 0, v2);
    let v3: nat = 17545146052791472307261031454114225700471383664742438084627337211304389811552nat;
    let e3: nat = lemma_power_mod_bit(x, n, e2, v2, 0, v3);
    let v4: nat = 8547634642125320189907117378337986431266527732671731914159890018161557608030nat;
    let e4: nat = lemma_power_mod_bit(x, n, e3, v3, 0, v4);
    let v5: nat = 17741258663399287147778860794838279010762919252712815836996043262036403286420nat;
    let e5: nat = lemma_power_mod_bit(x, n, e4, v4, 1, v5);
    let v6: nat = 1458117520884526484288210074637853658742945552932740824388068024882714923353nat;
    let e6: nat = lemma_power_mod_bit(x, n, e5, v5, 1, v6);
    let v7: nat = 21778454511767227195964202929055389507309619493775925024807947887751934776702nat;
    let e7: nat = lemma_power_mod_bit(x, n, e6, v6, 0, v7);
    let v8: nat = 16469877936993338065768905516028472112258260992526327203320221475247259386540nat;
    let e8: nat = lemma_power_mod_bit(x, n, e7, v7, 1, v8);
    let v9: nat = 442492497454374793224307532401458635177628290451864819897833544561144952219nat;
    let e9: nat = lemma_power_mod_bit(x, n, e8, v8, 0, v9);
    let v10: nat = 4382244046024533865253923447805965401955197296795299339930603272991701734411nat;
    let e10: nat = lemma_power_mod_bit(x, n, e9, v9, 1, v10);
    let v11: nat = 9540846336951433053611341058991523413297470463362536638315016039370690446889nat;
    let e11: nat = lemma_power_mod_bit(x, n, e10, v10, 1, v11);
    let v12: nat = 16151937248511612831218790030381502136078900305644383989873770910345603053439nat;
    let e12: nat = lemma_power_mod_bit(x, n, e11, v11, 0, v12);
}

/// A power modulo the modulus, one binary digit of the exponent at a time.
proof fn lemma_power_modulus_6()
    ensures
        power_mod(
            6475554457357348236690538752847767240807766159235244952610639667752272374456nat,
            983nat,
            baby_jubjub_prime(),
        ) == 13674791857936956429203122246438057479895843113609854424240423646568040073197nat,
{
    let n: nat = baby_jubjub_prime();
    let x: nat = 6475554457357348236690538752847767240807766159235244952610639667752272374456nat;
    lemma_power_mod_start(x, n);
    let e0: nat = 0;
    let v0: nat = 1;
    let v1: nat = 6475554457357348236690538752847767240807766159235244952610639667752272374456nat;
    let e1: nat = lemma_power_mod_bit(x, n, e0, v0, 1, v1);
    let v2: nat = 12301386766034401608954739260084802360760030748406178477052820311026325071316nat;
    let e2: nat = lemma_power_mod_bit(x, n, e1, v1, 1, v2);
    let v3: nat = 7677337733430613462877633727835138102228690519247088811975476730770436073296nat;
    let e3: nat = lemma_power_mod_bit(x, n, e2, v2, 1, v3);
    let v4: nat = 7334214623966806215712706422899909356795160603951746959460347046633412113nat;
    let e4: nat = lemma_power_mod_bit(x, n, e3, v3, 1, v4);
    let v5: nat = 13972106013682048860174447719932532766919046520412816788686885389907391592937nat;
    let e5: nat = lemma_power_mod_bit(x, n, e4, v4, 0, v5);
    let v6: nat = 11510598674147094520419809001907838546885784230579811286653061275761357169960nat;
    let e6: nat = lemma_power_mod_bit(x, n, e5, v5, 1, v6);
    let v7: nat = 282262192627916453337215931970846181033111196037940897811445146397470433320nat;
    let e7: nat = lemma_power_mod_bit(x, n, e6, v6, 0, v7);
    let v8: nat = 16811651089476655157493503625334917981557371559980894928732964822209822572981nat;
    let e8: nat = lemma_power_mod_bit(x, n, e7, v7, 1, v8);
    let v9: nat = 15819840873914971761739564144884728318540969775007053649589475012424418882877nat;
    let e9: nat = lemma_power_mod_bit(x, n, e8, v8, 1, v9);
    let v10: nat = 13674791857936956429203122246438057479895843113609854424240423646568040073197nat;
    let e10: nat = lemma_power_mod_bit(x, n, e9, v9, 1, v10);
}

/// A power modulo the modulus, one binary digit of the exponent at a time.
proof fn lemma_power_modulus_7()
    ensures
        power_mod(
            13674791857936956429203122246438057479895843113609854424240423646568040073197nat,
            78nat,
            baby_jubjub_prime(),
        ) == 18357710930920482893114740859477755941065533295300174657912055312005893977631nat,
{
    let n: nat = baby_jubjub_prime();
    let x: nat = 13674791857936956429203122246438057479895843113609854424240423646568040073197nat;
    lemma_power_mod_start(x, n);
    let e0: nat = 0;
    let v0: nat = 1;
    let v1: nat = 13674791857936956429203122246438057479895843113609854424240423646568040073197nat;
    let e1: nat = lemma_power_mod_bit(x, n, e0, v0, 1, v1);
    let v2: nat = 11053598522164975850086610992030919088965913233143321101578543605242874046527nat;
    let e2: nat = lemma_power_mod_bit(x, n, e1, v1, 0, v2);
    let v3: nat = 6220102480048204445522817196505324391802897221967670202903940365673220239816nat;
    let e3: nat = lemma_power_mod_bit(x, n, e2, v2, 0, v3);
    let v4: nat = 21364056423985979117670469900512721954024244693360756336182446587567430068674nat;
    let e4: nat = lemma_power_mod_bit(x, n, e3, v3, 1, v4);
    let v5: nat = 7911259490518025128482471322546984273978977330392851328905769391636154175151nat;
    let e5: nat = lemma_power_mod_bit(x, n, e4, v4, 1, v5);
    let v6: nat = 19296088902599765892268520007990571347711491955142876404554617667379037939916nat;
    let e6: nat = lemma_power_mod_bit(x, n, e5, v5, 1, v6);
    let v7: nat = 18357710930920482893114740859477755941065533295300174657912055312005893977631nat;
    let e7: nat = lemma_power_mod_bit(x, n, e6, v6, 0, v7);
}

/// A power modulo the modulus, one binary digit of the exponent at a time.
proof fn lemma_power_modulus_8()
    ensures
        power_mod(
            13674791857936956429203122246438057479895843113609854424240423646568040073197nat,
            29nat,
            baby_jubjub_prime(),
        ) == 9083830621347194561056719057236576911026874745334261433650140414301695302707nat,
{
    let n: nat = baby_jubjub_prime();
    let x: nat = 13674791857936956429203122246438057479895843113609854424240423646568040073197nat;
    lemma_power_mod_start(x, n);
    let e0: nat = 0;
    let v0: nat = 1;
    let v1: nat = 13674791857936956429203122246438057479895843113609854424240423646568040073197nat;
    let e1: nat = lemma_power_mod_bit(x, n, e0, v0, 1, v1);
    let v2: nat = 11574015001181454071756407925433559291039661821270862442273739254112661458165nat;
    let e2: nat = lemma_power_mod_bit(x, n, e1, v1, 1, v2);
    let v3: nat = 3295014096972577329393810713759725564102380116872819585299776794150443915728nat;
    let e3: nat = lemma_power_mod_bit(x, n, e2, v2, 1, v3);
    let v4: nat = 18141331774371084069837636469921861430043857927853830088945795540951626940422nat;
    let e4: nat = lemma_power_mod_bit(x, n, e3, v3, 0, v4);
    let v5: nat = 9083830621347194561056719057236576911026874745334261433650140414301695302707nat;
    let e5: nat = lemma_power_mod_bit(x, n, e4, v4, 1, v5);
}

/// A power modulo the modulus, one binary digit of the exponent at a time.
proof fn lemma_power_modulus_9()
    ensures
        power_mod(
            9083830621347194561056719057236576911026874745334261433650140414301695302707nat,
            6nat,
            baby_jubjub_prime(),
        ) == 20846111736645777009767703653665533493788639406277865704073555848150445038125nat,
{
    let n: nat = baby_jubjub_prime();
    let x: nat = 9083830621347194561056719057236576911026874745334261433650140414301695302707nat;
    lemma_power_mod_start(x, n);
    let e0: nat = 0;
    let v0: nat = 1;
    let v1: nat = 9083830621347194561056719057236576911026874745334261433650140414301695302707nat;
    let e1: nat = lemma_power_mod_bit(x, n, e0, v0, 1, v1);
    let v2: nat = 12928168526977301480875655197787669112458062649389948011246128517638109434968nat;
    let e2: nat = lemma_power_mod_bit(x, n, e1, v1, 1, v2);
    let v3: nat = 20846111736645777009767703653665533493788639406277865704073555848150445038125nat;
    let e3: nat = lemma_power_mod_bit(x, n, e2, v2, 0, v3);
}

/// A power modulo the modulus, one binary digit of the exponent at a time.
proof fn lemma_power_modulus_10()
    ensures
        power_mod(
            9083830621347194561056719057236576911026874745334261433650140414301695302707nat,
            13nat,
            baby_jubjub_prime(),
        ) == 4407920970296243842393367215006156084916469457145843978462nat,
{
    let n: nat = baby_jubjub_prime();
    let x: nat = 9083830621347194561056719057236576911026874745334261433650140414301695302707nat;
    lemma_power_mod_start(x, n);
    let e0: nat = 0;
    let v0: nat = 1;
    let v1: nat = 9083830621347194561056719057236576911026874745334261433650140414301695302707nat;
    let e1: nat = lemma_power_mod_bit(x, n, e0, v0, 1, v1);
    let v2: nat = 12928168526977301480875655197787669112458062649389948011246128517638109434968nat;
    let e2: nat = lemma_power_mod_bit(x, n, e1, v1, 1, v2);
    let v3: nat = 20846111736645777009767703653665533493788639406277865704073555848150445038125nat;
    let e3: nat = lemma_power_mod_bit(x, n, e2, v2, 0, v3);
    let v4: nat = 4407920970296243842393367215006156084916469457145843978462nat;
    let e4: nat = lemma_power_mod_bit(x, n, e3, v3, 1, v4);
}

/// A power modulo the modulus, one binary digit of the exponent at a time.
proof fn lemma_power_modulus_11()
    ensures
        power_mod(
            4407920970296243842393367215006156084916469457145843978462nat,
            3nat,
            baby_jubjub_prime(),
        ) == 21888242871839275222246405745257275088548364400416034343698204186575808495616nat,
{
    let n: nat = baby_jubjub_prime();
    let x: nat = 4407920970296243842393367215006156084916469457145843978462nat;
    lemma_power_mod_start(x, n);
    let e0: nat = 0;
    let v0: nat = 1;
    let v1: nat = 4407920970296243842393367215006156084916469457145843978462nat;
    let e1: nat = lemma_power_mod_bit(x, n, e0, v0, 1, v1);
    let v2: nat = 21888242871839275222246405745257275088548364400416034343698204186575808495616nat;
    let e2: nat = lemma_power_mod_bit(x, n, e1, v1, 1, v2);
}

/// A power modulo the modulus, one binary digit of the exponent at a time.
proof fn lemma_power_modulus_12()
    ensures
        power_mod(
            4407920970296243842393367215006156084916469457145843978462nat,
            2nat,
            baby_jubjub_prime(),
        ) == 4407920970296243842393367215006156084916469457145843978461nat,
{
    let n: nat = baby_jubjub_prime();
    let x: nat = 4407920970296243842393367215006156084916469457145843978462nat;
    lemma_power_mod_start(x, n);
    let e0: nat = 0;
    let v0: nat = 1;
    let v1: nat = 4407920970296243842393367215006156084916469457145843978462nat;
    let e1: nat = lemma_power_mod_bit(x, n, e0, v0, 1, v1);
    let v2: nat = 4407920970296243842393367215006156084916469457145843978461nat;
    let e2: nat = lemma_power_mod_bit(x, n, e1, v1, 0, v2);
}

/// A power modulo the modulus, one binary digit of the exponent at a time.
proof fn lemma_power_modulus_13()
    ensures
        power_mod(
            11312330804912606913175972217686049507098499378637989567617924712345000116520nat,
            2223546nat,
            baby_jubjub_prime(),
        ) == 19321818016159037061311250724021617607548090886696614157910334987366532500238nat,
{
    let n: nat = baby_jubjub_prime();
    let x: nat = 11312330804912606913175972217686049507098499378637989567617924712345000116520nat;
    lemma_power_mod_start(x, n);
    let e0: nat = 0;
    let v0: nat = 1;
    let v1: nat = 11312330804912606913175972217686049507098499378637989567617924712345000116520nat;
    let e1: nat = lemma_power_mod_bit(x, n, e0, v0, 1, v1);
    let v2: nat = 12854228350464788613147880535388723799317476236180365166833385438570414942695nat;
    let e2: nat = lemma_power_mod_bit(x, n, e1, v1, 0, v2);
    let v3: nat = 5681682424435484211198641579078691091025233935686859649362750427547400769147nat;
    let e3: nat = lemma_power_mod_bit(x, n, e2, v2, 0, v3);
    let v4: nat = 7464560923132671029007509765280691470076257230845867475759997185136110758050nat;
    let e4: nat = lemma_power_mod_bit(x, n, e3, v3, 0, v4);
    let v5: nat = 16168087416725230233716907515493509515383102772158488128306775772751290627240nat;
    let e5: nat = lemma_power_mod_bit(x, n, e4, v4, 0, v5);
    let v6: nat = 5326747575695635693412862370091337833485505767184058364398822721386988674660nat;
    let e6: nat = lemma_power_mod_bit(x, n, e5, v5, 1, v6);
    let v7: nat = 7361915694542938908367824832260708548976169337083133924213259603035097200402nat;
    let e7: nat = lemma_power_mod_bit(x, n, e6, v6, 1, v7);
    let v8: nat = 4690455456076264784705474592324471573693199234610014852160083809036872640489nat;
    let e8: nat = lemma_power_mod_bit(x, n, e7, v7, 1, v8);
    let v9: nat = 2504793415624733597215418045334995238335289857410338278375429491275725998038nat;
    let e9: nat = lemma_power_mod_bit(x, n, e8, v8, 1, v9);
    let v10: nat = 11355432897567560768384859750019890650372331271579784885555066725406941729774nat;
    let e10: nat = lemma_power_mod_bit(x, n, e9, v9, 0, v10);
    let v11: nat = 14349743504351805792096098441775418705254128991046222469532809946953610549128nat;
    let e11: nat = lemma_power_mod_bit(x, n, e10, v10, 1, v11);
    let v12: nat = 13194916134320411157874733776590014279211565445141228167109815546079907423081nat;
    let e12: nat = lemma_power_mod_bit(x, n, e11, v11, 1, v12);
    let v13: nat = 19681980376383653710869669005251800438889822204358079157531332535363808251232nat;
    let e13: nat = lemma_power_mod_bit(x, n, e12, v12, 0, v13);
    let v14: nat = 12885944562960121106645816520240591516261162984034699253459766885185023729560nat;
    let e14: nat = lemma_power_mod_bit(x, n, e13, v13, 1, v14);
    let v15: nat = 835209453724519676387142696390794853064974151257561121207430382114930220260nat;
    let e15: nat = lemma_power_mod_bit(x, n, e14, v14, 1, v15);
    let v16: nat = 17148943613210315348783852917218474304692848113149426433793123812161824726237nat;
    let e16: nat = lemma_power_mod_bit(x, n, e15, v15, 0, v16);
    let v17: nat = 14595501344136727221074330347890622942826416701114846328198582801402689791430nat;
    let e17: nat = lemma_power_mod_bit(x, n, e16, v16, 1, v17);
    let v18: nat = 4837386595954895131579858727575701255694620951378477703367712987953285174380nat;
    let e18: nat = lemma_power_mod_bit(x, n, e17, v17, 1, v18);
    let v19: nat = 3507585580025534540800352845416131269179069368212106767787523109755096290747nat;
    let e19: nat = lemma_power_mod_bit(x, n, e18, v18, 1, v19);
    let v20: nat = 2940532819892402654649633464989814565797025620192094524608745521760697638356nat;
    let e20: nat = lemma_power_mod_bit(x, n, e19, v19, 0, v20);
    let v21: nat = 8015792820558023977791079448808237795143345442440639885603169388795712485436nat;
    let e21: nat = lemma_power_mod_bit(x, n, e20, v20, 1, v21);
    let v22: nat = 19321818016159037061311250724021617607548090886696614157910334987366532500238nat;
    let e22: nat = lemma_power_mod_bit(x, n, e21, v21, 0, v22);
}

/// A power modulo the modulus, one binary digit of the exponent at a time.
proof fn lemma_power_modulus_14()
    ensures
        power_mod(
            12221245763196206497823379909870049310274082915206849646055666645766764708896nat,
            902601357301254nat,
            baby_jubjub_prime(),
        ) == 19455992791538839751018158356024032287560231693292854970288219097085987754073nat,
{
    let n: nat = baby_jubjub_prime();
    let x: nat = 12221245763196206497823379909870049310274082915206849646055666645766764708896nat;
    lemma_power_mod_start(x, n);
    let e0: nat = 0;
    let v0: nat = 1;
    let v1: nat = 12221245763196206497823379909870049310274082915206849646055666645766764708896nat;
    let e1: nat = lemma_power_mod_bit(x, n, e0, v0, 1, v1);
    let v2: nat = 5436036273500138450927197847753580210435681626946937411791393371922319325347nat;
    let e2: nat = lemma_power_mod_bit(x, n, e1, v1, 1, v2);
    let v3: nat = 749193872246690349938701995377382317682220628242203712225699807205909877352nat;
    let e3: nat = lemma_power_mod_bit(x, n, e2, v2, 0, v3);
    let v4: nat = 7908726192393298429984849993152361575460377214911653133317599722337317560594nat;
    let e4: nat = lemma_power_mod_bit(x, n, e3, v3, 0, v4);
    let v5: nat = 6600256900270597108264006143566610159851386457687740631455191725066020829497nat;
    let e5: nat = lemma_power_mod_bit(x, n, e4, v4, 1, v5);
    let v6: nat = 19516781142061540181689728074484166169934051679519175659333484765514943728545nat;
    let e6: nat = lemma_power_mod_bit(x, n, e5, v5, 1, v6);
    let v7: nat = 3542467068409152600422351455233327778023704014052314180199553043099634145300nat;
    let e7: nat = lemma_power_mod_bit(x, n, e6, v6, 0, v7);
    let v8: nat = 1860335220102565478737000309768901999684989605410889413727356094171863897212nat;
    let e8: nat = lemma_power_mod_bit(x, n, e7, v7, 1, v8);
    let v9: nat = 17848453612332056424453358036445715706967223294664127851194208392820090602328nat;
    let e9: nat = lemma_power_mod_bit(x, n, e8, v8, 0, v9);
    let v10: nat = 4817042587079068096698296833802360205863048293524478983738844455497528077096nat;
    let e10: nat = lemma_power_mod_bit(x, n, e9, v9, 0, v10);
    let v11: nat = 10360962217786812571543580078472013444388333315348400887255891143786248445515nat;
    let e11: nat = lemma_power_mod_bit(x, n, e10, v10, 1, v11);
    let v12: nat = 13790055274259174444683384531600624249329391219750805842512497973390989051223nat;
    let e12: nat = lemma_power_mod_bit(x, n, e11, v11, 1, v12);
    let v13: nat = 19049277678894819647560793459996158240310248826952142217948470694983070579779nat;
    let e13: nat = lemma_power_mod_bit(x, n, e12, v12, 1, v13);
    let v14: nat = 7955584650638609339373933950045990865770998736125729449406774590098827630005nat;
    let e14: nat = lemma_power_mod_bit(x, n, e13, v13, 0, v14);
    let v15: nat = 14182717594283015349978436725229931522286328506718644586257046295540715175656nat;
    let e15: nat = lemma_power_mod_bit(x, n, e14, v14, 1, v15);
    let v16: nat = 7900448860340049297166793514465397044271010611836264739757791737110829140254nat;
    let e16: nat = lemma_power_mod_bit(x, n, e15, v15, 0, v16);
    let v17: nat = 17052976037433839512730448436444578031376499208620870939656728299449064235043nat;
    let e17: nat = lemma_power_mod_bit(x, n, e16, v16, 0, v17);
    let v18: nat = 15101748847559114269144672002257573128097485888594854419962667043500285131390nat;
    let e18: nat = lemma_power_mod_bit(x, n, e17, v17, 1, v18);
    let v19: nat = 12697338622878665929831030178548001454475929495344994545912056323829128528714nat;
    let e19: nat = lemma_power_mod_bit(x, n, e18, v18, 0, v19);
    let v20: nat = 20598869895709864803495741321505510589297317385914587105009009213739784350037nat;
    let e20: nat = lemma_power_mod_bit(x, n, e19, v19, 1, v20);
    let v21: nat = 16445414883134856114905288621618816085036849101973988614515808933717816466115nat;
    let e21: nat = lemma_power_mod_bit(x, n, e20, v20, 0, v21);
    let v22: nat = 640925654512371237427609568316688680470711084624767027409882984153383687452nat;
    let e22: nat = lemma_power_mod_bit(x, n, e21, v21, 0, v22);
    let v23: nat = 11537128720087254632702159763419511722263701992893556086263734867992798624850nat;
    let e23: nat = lemma_power_mod_bit(x, n, e22, v22, 0, v23);
    let v24: nat = 21320908267645611472643875667602007147222160222280621450429648745757993079078nat;
    let e24: nat = lemma_power_mod_bit(x, n, e23, v23, 0, v24);
    let v25: nat = 17134368312527625866944147220057552409504683068268005492665748355864797979024nat;
    let e25: nat = lemma_power_mod_bit(x, n, e24, v24, 0, v25);
    let v26: nat = 19065560889918778790480764421155478149265429083748054318140308725799107952453nat;
    let e26: nat = lemma_power_mod_bit(x, n, e25, v25, 1, v26);
    let v27: nat = 3121480836625418421657528638508536383887918561906964636057098320082946391313nat;
    let e27: nat = lemma_power_mod_bit(x, n, e26, v26, 0, v27);
    let v28: nat = 13869368787940641246194065993285075722036583869137351349073175701185589783820nat;
    let e28: nat = lemma_power_mod_bit(x, n, e27, v27, 1, v28);
    let v29: nat = 4962681925267824971786101828197735455381006142968021958569102665134198827603nat;
    let e29: nat = lemma_power_mod_bit(x, n, e28, v28, 0, v29);
    let v30: nat = 10047977841242919209058693335189772481815662826907044759700300893951387163603nat;
    let e30: nat = lemma_power_mod_bit(x, n, e29, v29, 0, v30);
    let v31: nat = 13105884430513661948954802608066577808786699364223790116354408145440099297292nat;
    let e31: nat = lemma_power_mod_bit(x, n, e30, v30, 0, v31);
    let v32: nat = 18366011852439345883201693295279077519579224969223662761699394868756478301832nat;
    let e32: nat = lemma_power_mod_bit(x, n, e31, v31, 1, v32);
    let v33: nat = 11962919948645740677547914400526843914275038675299712858663646156284983151952nat;
    let e33: nat = lemma_power_mod_bit(x, n, e32, v32, 1, v33);
    let v34: nat = 17268920195998776292290327421350345432913163022988330082056367801036099620813nat;
    let e34: nat = lemma_power_mod_bit(x, n, e33, v33, 0, v34);
    let v35: nat = 4185284800676437572240937595975317484761353809025209297395825479572965275444nat;
    let e35: nat = lemma_power_mod_bit(x, n, e34, v34, 1, v35);
    let v36: nat = 4650754861005824399784956382587020745421451025964925245540445083611046412139nat;
    let e36: nat = lemma_power_mod_bit(x, n, e35, v35, 0, v36);
    let v37: nat = 20012072621772698294081288272160389535173872802857214442300692669472988887682nat;
    let e37: nat = lemma_power_mod_bit(x, n, e36, v36, 0, v37);
    let v38: nat = 10005967396356380433671614310916403628609514962709571430102948856029556020579nat;
    let e38: nat = lemma_power_mod_bit(x, n, e37, v37, 1, v38);
    let v39: nat = 2390076510884103969908220718668210581344791735593163299464734835314975079461nat;
    let e39: nat = lemma_power_mod_bit(x, n, e38, v38, 0, v39);
    let v40: nat = 13684707582454508025463535067954779433344209352074998398482433612654688604418nat;
    let e40: nat = lemma_power_mod_bit(x, n, e39, v39, 1, v40);
    let v41: nat = 16884096597327731567280401556755592484559378948655395256442862532383243579259nat;
    let e41: nat = lemma_power_mod_bit(x, n, e40, v40, 1, v41);
    let v42: nat = 9493775493258396032365558528127761023289859591717600702606335441350340443143nat;
    let e42: nat = lemma_power_mod_bit(x, n, e41, v41, 0, v42);
    let v43: nat = 5678146728111835179465557964809090556103017119604030751356931728638550952136nat;
    let e43: nat = lemma_power_mod_bit(x, n, e42, v42, 0, v43);
    let v44: nat = 9713001075397218612373300732820526679186621644581918221175150192409698581172nat;
    let e44: nat = lemma_power_mod_bit(x, n, e43, v43, 0, v44);
    let v45: nat = 2289820124070491234450506082227577972421976885305312803438473128022699238759nat;
    let e45: nat = lemma_power_mod_bit(x, n, e44, v44, 0, v45);
    let v46: nat = 13302992834596757131728121736645961675942683539155235228874360976170775142960nat;
    let e46: nat = lemma_power_mod_bit(x, n, e45, v45, 0, v46);
    let v47: nat = 7847171337590135018408384406884363100441858590136706976280395060735396468113nat;
    let e47: nat = lemma_power_mod_bit(x, n, e46, v46, 0, v47);
    let v48: nat = 3487961945925337748669371681362441498664019381339176362395624363787873007665nat;
    let e48: nat = lemma_power_mod_bit(x, n, e47, v47, 1, v48);
    let v49: nat = 14846414420912867469985610981415443678976856358996088924755192296217676162822nat;
    let e49: nat = lemma_power_mod_bit(x, n, e48, v48, 1, v49);
    let v50: nat = 19455992791538839751018158356024032287560231693292854970288219097085987754073nat;
    let e50: nat = lemma_power_mod_bit(x, n, e49, v49, 0, v50);
}

/// A power modulo the modulus, one binary digit of the exponent at a time.
proof fn lemma_power_modulus_15()
    ensures
        power_mod(
            19455992791538839751018158356024032287560231693292854970288219097085987754073nat,
            1670836401704629nat,
            baby_jubjub_prime(),
        ) == 4304492751789186307846231786266984538406615009076024761282417760787597688192nat,
{
    let n: nat = baby_jubjub_prime();
    let x: nat = 19455992791538839751018158356024032287560231693292854970288219097085987754073nat;
    lemma_power_mod_start(x, n);
    let e0: nat = 0;
    let v0: nat = 1;
    let v1: nat = 19455992791538839751018158356024032287560231693292854970288219097085987754073nat;
    let e1: nat = lemma_power_mod_bit(x, n, e0, v0, 1, v1);
    let v2: nat = 2592517140378685264507712324994948847521117670180808107693318997812242654514nat;
    let e2: nat = lemma_power_mod_bit(x, n, e1, v1, 0, v2);
    let v3: nat = 19580587246517404620944518007348569141174662396793095828452481953143304113285nat;
    let e3: nat = lemma_power_mod_bit(x, n, e2, v2, 1, v3);
    let v4: nat = 18441779171426291243953509507166003250385309058651681356305365209169956039672nat;
    let e4: nat = lemma_power_mod_bit(x, n, e3, v3, 1, v4);
    let v5: nat = 2112399056332033566659489409251632373405269927930975879640848107295451103997nat;
    let e5: nat = lemma_power_mod_bit(x, n, e4, v4, 1, v5);
    let v6: nat = 19951896435108399940112272977936531825893748630756048404342996820676093207441nat;
    let e6: nat = lemma_power_mod_bit(x, n, e5, v5, 1, v6);
    let v7: nat = 7751288713558237397777812947423089161686514858320899296514807890349328060144nat;
    let e7: nat = lemma_power_mod_bit(x, n, e6, v6, 0, v7);
    let v8: nat = 5435502267921181852932171718553104897588674635536512305147181512048346143560nat;
    let e8: nat = lemma_power_mod_bit(x, n, e7, v7, 1, v8);
    let v9: nat = 12276399672407547467889427543798869568059849584756683288229682781583933773068nat;
    let e9: nat = lemma_power_mod_bit(x, n, e8, v8, 1, v9);
    let v10: nat = 9235668268886074102228700804962499117958823761598688152218002475069159235346nat;
    let e10: nat = lemma_power_mod_bit(x, n, e9, v9, 1, v10);
    let v11: nat = 20381421865164560339286147674125643909177491535087713285661363468224420468279nat;
    let e11: nat = lemma_power_mod_bit(x, n, e10, v10, 1, v11);
    let v12: nat = 8031914597013141598291907218480942790636947231603369129361558243148459239375nat;
    let e12: nat = lemma_power_mod_bit(x, n, e11, v11, 1, v12);
    let v13: nat = 3703499196116140025312585669080221309660261095311169000890304132335014971656nat;
    let e13: nat = lemma_power_mod_bit(x, n, e12, v12, 0, v13);
    let v14: nat = 12443257869780053182564630152340080105540244300526572492914237480656265877180nat;
    let e14: nat = lemma_power_mod_bit(x, n, e13, v13, 0, v14);
    let v15: nat = 17657538638618980791491505494643145882440279824964760203522858917135127499449nat;
    let e15: nat = lemma_power_mod_bit(x, n, e14, v14, 1, v15);
    let v16: nat = 9217992421906389493071234748071312480507058700500684531131397786515661777699nat;
    let e16: nat = lemma_power_mod_bit(x, n, e15, v15, 1, v16);
    let v17: nat = 18305921314765083768740604554916518610040510527865338192431619993770914557166nat;
    let e17: nat = lemma_power_mod_bit(x, n, e16, v16, 1, v17);
    let v18: nat = 8331460057716891454960000647832886758672700308869016624101764560198279177272nat;
    let e18: nat = lemma_power_mod_bit(x, n, e17, v17, 0, v18);
    let v19: nat = 16437055333197167465870537987795551600548251499877123141645076968248299842359nat;
    let e19: nat = lemma_power_mod_bit(x, n, e18, v18, 1, v19);
    let v20: nat = 15346185870330937859959861502189393093580495751272487819944908111933504000707nat;
    let e20: nat = lemma_power_mod_bit(x, n, e19, v19, 1, v20);
    let v21: nat = 2798739531596926914951588873674992863284549857082817251145108300389915600487nat;
    let e21: nat = lemma_power_mod_bit(x, n, e20, v20, 1, v21);
    let v22: nat = 6308359064095586507810978428697337389596143314358398832914532529756351158488nat;
    let e22: nat = lemma_power_mod_bit(x, n, e21, v21, 1, v22);
    let v23: nat = 10023933477088101368534007096473471285972541191046680628279381547623082179762nat;
    let e23: nat = lemma_power_mod_bit(x, n, e22, v22, 0, v23);
    let v24: nat = 6883099537202112695321844363900988662978203692048642935768890705213912760495nat;
    let e24: nat = lemma_power_mod_bit(x, n, e23, v23, 1, v24);
    let v25: nat = 8782699049090808157295560583682405884448017268406694725692930429968046469751nat;
    let e25: nat = lemma_power_mod_bit(x, n, e24, v24, 0, v25);
    let v26: nat = 9168043842617169638933253208874421400084196938786553457966796004244233003634nat;
    let e26: nat = lemma_power_mod_bit(x, n, e25, v25, 1, v26);
    let v27: nat = 17796645567309120735005974448437687116680804966032077827658477832260334115349nat;
    let e27: nat = lemma_power_mod_bit(x, n, e26, v26, 0, v27);
    let v28: nat = 11268666234746991361800563484821087011717980369300406780116181936449442483631nat;
    let e28: nat = lemma_power_mod_bit(x, n, e27, v27, 0, v28);
    let v29: nat = 11204371702812484303886175593856560673344189309499562446210553814777090178491nat;
    let e29: nat = lemma_power_mod_bit(x, n, e28, v28, 0, v29);
    let v30: nat = 1775521078747832860613979104096827092907054242444968957412316559021329056550nat;
    let e30: nat = lemma_power_mod_bit(x, n, e29, v29, 1, v30);
    let v31: nat = 14330355643418300660695415069453573223534648656195650159599341970433079929806nat;
    let e31: nat = lemma_power_mod_bit(x, n, e30, v30, 1, v31);
    let v32: nat = 7984025428834019286459273337196627150270709620978819325606149270574884120478nat;
    let e32: nat = lemma_power_mod_bit(x, n, e31, v31, 0, v32);
    let v33: nat = 17180045967533709644645782726430460330018433388093159395535208019962955576359nat;
    let e33: nat = lemma_power_mod_bit(x, n, e32, v32, 0, v33);
    let v34: nat = 14309853597352839393835192530297379408859176642916496952597943676665509232282nat;
    let e34: nat = lemma_power_mod_bit(x, n, e33, v33, 1, v34);
    let v35: nat = 20248909240217326356759920044470479698989024396545344280799488957892269054839nat;
    let e35: nat = lemma_power_mod_bit(x, n, e34, v34, 1, v35);
    let v36: nat = 12972116597663478815104580857210541415561544329980400091897261533209587856700nat;
    let e36: nat = lemma_power_mod_bit(x, n, e35, v35, 1, v36);
    let v37: nat = 1889317749661434803724903976254340888853242843505622721791950482909333370437nat;
    let e37: nat = lemma_power_mod_bit(x, n, e36, v36, 0, v37);
    let v38: nat = 1218403751518533871371977185108695957026782686566414446511254222288986019062nat;
    let e38: nat = lemma_power_mod_bit(x, n, e37, v37, 0, v38);
    let v39: nat = 9160056064026979361189312490718946377554636295286104023053002202829588571182nat;
    let e39: nat = lemma_power_mod_bit(x, n, e38, v38, 0, v39);
    let v40: nat = 11172122493205623985742659409743419481084514559704354653803274997337042799310nat;
    let e40: nat = lemma_power_mod_bit(x, n, e39, v39, 1, v40);
    let v41: nat = 9781447512537478380887988311578864086318568256565479253692377099893519657255nat;
    let e41: nat = lemma_power_mod_bit(x, n, e40, v40, 1, v41);
    let v42: nat = 6526374007255671790452536475482279225535079700800086919046917248665701565267nat;
    let e42: nat = lemma_power_mod_bit(x, n, e41, v41, 1, v42);
    let v43: nat = 12356050769033144889346156400796634090298499500230448262187928060546190438483nat;
    let e43: nat = lemma_power_mod_bit(x, n, e42, v42, 0, v43);
    let v44: nat = 17763182373262969282529378924002826553344072692314905605758270341311043112816nat;
    let e44: nat = lemma_power_mod_bit(x, n, e43, v43, 1, v44);
    let v45: nat = 16144321319259907173411147491785494104491459796045878782054923214461571534717nat;
    let e45: nat = lemma_power_mod_bit(x, n, e44, v44, 0, v45);
    let v46: nat = 6925070361543080272656839373438924980727925455056917875851130601294519834495nat;
    let e46: nat = lemma_power_mod_bit(x, n, e45, v45, 1, v46);
    let v47: nat = 9261946255633203245227626563729303809821315271749216992161235564089550962215nat;
    let e47: nat = lemma_power_mod_bit(x, n, e46, v46, 1, v47);
    let v48: nat = 14076140945107373664794729982450418661549170954337929871858258937231232376827nat;
    let e48: nat = lemma_power_mod_bit(x, n, e47, v47, 0, v48);
    let v49: nat = 3067779034556859179642304516707575401638088743381200276929730459186349095733nat;
    let e49: nat = lemma_power_mod_bit(x, n, e48, v48, 1, v49);
    let v50: nat = 6577639284892641472919473728897874413652947368038977332617659243467807931596nat;
    let e50: nat = lemma_power_mod_bit(x, n, e49, v49, 0, v50);
    let v51: nat = 4304492751789186307846231786266984538406615009076024761282417760787597688192nat;
    let e51: nat = lemma_power_mod_bit(x, n, e50, v50, 1, v51);
}

/// A power modulo the modulus, one binary digit of the exponent at a time.
proof fn lemma_power_modulus_16()
    ensures
        power_mod(
            4304492751789186307846231786266984538406615009076024761282417760787597688192nat,
            237073nat,
            baby_jubjub_prime(),
        ) == 8299083658399422953216871473066571686783765754016288837524968026835148283600nat,
{
    let n: nat = baby_jubjub_prime();
    let x: nat = 4304492751789186307846231786266984538406615009076024761282417760787597688192nat;
    lemma_power_mod_start(x, n);
    let e0: nat = 0;
    let v0: nat = 1;
    let v1: nat = 4304492751789186307846231786266984538406615009076024761282417760787597688192nat;
    let e1: nat = lemma_power_mod_bit(x, n, e0, v0, 1, v1);
    let v2: nat = 12441479606274332684581986901820760246602997310267660446875812429341079901447nat;
    let e2: nat = lemma_power_mod_bit(x, n, e1, v1, 1, v2);
    let v3: nat = 15710601906989593161754579128444050382232940494273586989268230395725513734453nat;
    let e3: nat = lemma_power_mod_bit(x, n, e2, v2, 1, v3);
    let v4: nat = 584692300661606472869406980796306229326262301260271810300631779781762842048nat;
    let e4: nat = lemma_power_mod_bit(x, n, e3, v3, 0, v4);
    let v5: nat = 11633020598144621386073895612400679476301252987729915534635902922238041349833nat;
    let e5: nat = lemma_power_mod_bit(x, n, e4, v4, 0, v5);
    let v6: nat = 18710013668051559221543164046050722353143348378663268953495028435814992315333nat;
    let e6: nat = lemma_power_mod_bit(x, n, e5, v5, 1, v6);
    let v7: nat = 8561681282570433539538170054310657969741040062462940059061893437370576837327nat;
    let e7: nat = lemma_power_mod_bit(x, n, e6, v6, 1, v7);
    let v8: nat = 6612213719721895484501575408983492453492386784958299501381224112096073854376nat;
    let e8: nat = lemma_power_mod_bit(x, n, e7, v7, 1, v8);
    let v9: nat = 18813982930667614527845447747723893239212318369918033859542278927775707240236nat;
    let e9: nat = lemma_power_mod_bit(x, n, e8, v8, 1, v9);
    let v10: nat = 19102267434371831229214574821042340312873477863616550398492298444294442757566nat;
    let e10: nat = lemma_power_mod_bit(x, n, e9, v9, 0, v10);
    let v11: nat = 20925438811179932699276241267680380372056187519393608504441334520997172369794nat;
    let e11: nat = lemma_power_mod_bit(x, n, e10, v10, 0, v11);
    let v12: nat = 10884107508545457720174245331252671397581609880801561351262752786804060249226nat;
    let e12: nat = lemma_power_mod_bit(x, n, e11, v11, 0, v12);
    let v13: nat = 7130925981058166023670561483942344837544797825395128963508060201343125818221nat;
    let e13: nat = lemma_power_mod_bit(x, n, e12, v12, 0, v13);
    let v14: nat = 18714272663636728379506072247483752529469098047626813616410488967462632624286nat;
    let e14: nat = lemma_power_mod_bit(x, n, e13, v13, 1, v14);
    let v15: nat = 3815794529972426783135224043885913667205604851141981997143858002518076991033nat;
    let e15: nat = lemma_power_mod_bit(x, n, e14, v14, 0, v15);
    let v16: nat = 3278001572056723761954138280914190928823890754150059660887980355302735980nat;
    let e16: nat = lemma_power_mod_bit(x, n, e15, v15, 0, v16);
    let v17: nat = 18646122449836363578760180175491371898102058095037688247334500611118121181281nat;
    let e17: nat = lemma_power_mod_bit(x, n, e16, v16, 0, v17);
    let v18: nat = 8299083658399422953216871473066571686783765754016288837524968026835148283600nat;
    let e18: nat = lemma_power_mod_bit(x, n, e17, v17, 1, v18);
}

/// A power modulo the modulus, one binary digit of the exponent at a time.
proof fn lemma_power_modulus_17()
    ensures
        power_mod(
            4304492751789186307846231786266984538406615009076024761282417760787597688192nat,
            11003nat,
            baby_jubjub_prime(),
        ) == 1135558486015409621676726807058439328573409521523979529600469708688064761941nat,
{
    let n: nat = baby_jubjub_prime();
    let x: nat = 4304492751789186307846231786266984538406615009076024761282417760787597688192nat;
    lemma_power_mod_start(x, n);
    let e0: nat = 0;
    let v0: nat = 1;
    let v1: nat = 4304492751789186307846231786266984538406615009076024761282417760787597688192nat;
    let e1: nat = lemma_power_mod_bit(x, n, e0, v0, 1, v1);
    let v2: nat = 17677811186814539271486536840273794097080577528376427132603914660644997475257nat;
    let e2: nat = lemma_power_mod_bit(x, n, e1, v1, 0, v2);
    let v3: nat = 15095945635059635490992501554817296054606691769106303262480444834982034586711nat;
    let e3: nat = lemma_power_mod_bit(x, n, e2, v2, 1, v3);
    let v4: nat = 12897821154449841770630980141745770317178499814682740667636617924848960523700nat;
    let e4: nat = lemma_power_mod_bit(x, n, e3, v3, 0, v4);
    let v5: nat = 344722609853885037920735945706545478179760759524061566408877873643518772387nat;
    let e5: nat = lemma_power_mod_bit(x, n, e4, v4, 1, v5);
    let v6: nat = 20124081270590351778241732224576480619277351824457455676091213795569118566022nat;
    let e6: nat = lemma_power_mod_bit(x, n, e5, v5, 0, v6);
    let v7: nat = 10194818322148246852769437375906531635162684779038192356792742324019161465269nat;
    let e7: nat = lemma_power_mod_bit(x, n, e6, v6, 1, v7);
    let v8: nat = 2032465833347111666559418076539210393322572825832600275714333194136420985198nat;
    let e8: nat = lemma_power_mod_bit(x, n, e7, v7, 1, v8);
    let v9: nat = 11030384015012384444867377123640554735508745622087309432257094000283853982005nat;
    let e9: nat = lemma_power_mod_bit(x, n, e8, v8, 1, v9);
    let v10: nat = 120112259480120621524578333731470321109365498024942372662924937577951603496nat;
    let e10: nat = lemma_power_mod_bit(x, n, e9, v9, 1, v10);
    let v11: nat = 12199241050732632662787020235395860165559668275988660808579403838808022100179nat;
    let e11: nat = lemma_power_mod_bit(x, n, e10, v10, 1, v11);
    let v12: nat = 8764368755515124000398932478592503086658837223359860751765440242816111056076nat;
    let e12: nat = lemma_power_mod_bit(x, n, e11, v11, 0, v12);
    let v13: nat = 9110239940665976593638332002233337903952086167237044088779737634952339706511nat;
    let e13: nat = lemma_power_mod_bit(x, n, e12, v12, 1, v13);
    let v14: nat = 1135558486015409621676726807058439328573409521523979529600469708688064761941nat;
    let e14: nat = lemma_power_mod_bit(x, n, e13, v13, 1, v14);
}

/// A power modulo the modulus, one binary digit of the exponent at a time.
proof fn lemma_power_modulus_18()
    ensures
        power_mod(
            19455992791538839751018158356024032287560231693292854970288219097085987754073nat,
            2608514219nat,
            baby_jubjub_prime(),
        ) == 19643034808648967981397807206080768497060516784825884862247505212574391305991nat,
{
    let n: nat = baby_jubjub_prime();
    let x: nat = 19455992791538839751018158356024032287560231693292854970288219097085987754073nat;
    lemma_power_mod_start(x, n);
    let e0: nat = 0;
    let v0: nat = 1;
    let v1: nat = 19455992791538839751018158356024032287560231693292854970288219097085987754073nat;
    let e1: nat = lemma_power_mod_bit(x, n, e0, v0, 1, v1);
    let v2: nat = 2592517140378685264507712324994948847521117670180808107693318997812242654514nat;
    let e2: nat = lemma_power_mod_bit(x, n, e1, v1, 0, v2);
    let v3: nat = 16398056897259351982067424163064376986194259476779940343655517855392605881283nat;
    let e3: nat = lemma_power_mod_bit(x, n, e2, v2, 0, v3);
    let v4: nat = 19667456145460272473858538310414858216709833837891989667971476133726112776222nat;
    let e4: nat = lemma_power_mod_bit(x, n, e3, v3, 1, v4);
    let v5: nat = 3844343555422599941842976229029567745609268574285514969510777333187905535224nat;
    let e5: nat = lemma_power_mod_bit(x, n, e4, v4, 1, v5);
    let v6: nat = 14949417675019846873537667574230931370293185710331584410448969228823943047316nat;
    let e6: nat = lemma_power_mod_bit(x, n, e5, v5, 0, v6);
    let v7: nat = 19985920719904842889517505654130698257827414436384942580754936224060347679385nat;
    let e7: nat = lemma_power_mod_bit(x, n, e6, v6, 1, v7);
    let v8: nat = 17665961881018695165681511439058419874289582518572665693480382880715534416473nat;
    let e8: nat = lemma_power_mod_bit(x, n, e7, v7, 1, v8);
    let v9: nat = 20114225930201743979967661136387688582906834905842661969405981988579006216618nat;
    let e9: nat = lemma_power_mod_bit(x, n, e8, v8, 0, v9);
    let v10: nat = 4947194132998497003364498838398480985703906424255949645682094470718362316472nat;
    let e10: nat = lemma_power_mod_bit(x, n, e9, v9, 1, v10);
    let v11: nat = 4565694157339286927905492428033336783167063485780638112474245280049092899672nat;
    let e11: nat = lemma_power_mod_bit(x, n, e10, v10, 1, v11);
    let v12: nat = 1170466236693825803656868356489133929878527383602380480089288609527641955076nat;
    let e12: nat = lemma_power_mod_bit(x, n, e11, v11, 1, v12);
    let v13: nat = 13073148028762495264632730980734700367953041096824437067745566983852260637248nat;
    let e13: nat = lemma_power_mod_bit(x, n, e12, v12, 1, v13);
    let v14: nat = 12567075250408771170728208601520540691565102938372590924353774882146794293228nat;
    let e14: nat = lemma_power_mod_bit(x, n, e13, v13, 0, v14);
    let v15: nat = 18670495063808645394863824113405324510437050129108538304405008505823687900567nat;
    let e15: nat = lemma_power_mod_bit(x, n, e14, v14, 1, v15);
    let v16: nat = 13978816606157290757135765901681522519253966017622670749381597451542275007237nat;
    let e16: nat = lemma_power_mod_bit(x, n, e15, v15, 0, v16);
    let v17: nat = 11207060926332269570978235790593483885547798257126788775619760885743172321818nat;
    let e17: nat = lemma_power_mod_bit(x, n, e16, v16, 1, v17);
    let v18: nat = 20559206991270670194336557730018424520270720848977626402770540118186709369700nat;
    let e18: nat = lemma_power_mod_bit(x, n, e17, v17, 1, v18);
    let v19: nat = 1494610158960661960462650249571284827405935988304459851025799003081262442094nat;
    let e19: nat = lemma_power_mod_bit(x, n, e18, v18, 0, v19);
    let v20: nat = 13879808488911069884434792236433184802001070893600229687740511954829043025703nat;
    let e20: nat = lemma_power_mod_bit(x, n, e19, v19, 0, v20);
    let v21: nat = 14776780288719318158832533244183073468585077120208393199250477335663849012112nat;
    let e21: nat = lemma_power_mod_bit(x, n, e20, v20, 0, v21);
    let v22: nat = 15611476800852760008851896288901312002009625061093543869240624791712225650050nat;
    let e22: nat = lemma_power_mod_bit(x, n, e21, v21, 1, v22);
    let v23: nat = 6998408989428606610987585626497160345888484943523836641265591770314098635304nat;
    let e23: nat = lemma_power_mod_bit(x, n, e22, v22, 0, v23);
    let v24: nat = 3151576208647336426667032434722926959677490770154097726977057288553504954078nat;
    let e24: nat = lemma_power_mod_bit(x, n, e23, v23, 0, v24);
    let v25: nat = 3508184753719087584211788768923701508426464053261735498096933355585911825565nat;
    let e25: nat = lemma_power_mod_bit(x, n, e24, v24, 1, v25);
    let v26: nat = 2034596459793501300287433931078429825582133417966779118143583559915705265991nat;
    let e26: nat = lemma_power_mod_bit(x, n, e25, v25, 0, v26);
    let v27: nat = 8955854545652653405375739522304409874113991711553853722762817464477617359464nat;
    let e27: nat = lemma_power_mod_bit(x, n, e26, v26, 1, v27);
    let v28: nat = 9760593569300311545248245227712317731257047721806810995488386276761691404863nat;
    let e28: nat = lemma_power_mod_bit(x, n, e27, v27, 0, v28);
    let v29: nat = 3526130594173233020163709717490934898439929556520759281451655108031660885883nat;
    let e29: nat = lemma_power_mod_bit(x, n, e28, v28, 1, v29);
    let v30: nat = 6739015384432632420492467824256984229220204291075026121962304700335868663887nat;
    let e30: nat = lemma_power_mod_bit(x, n, e29, v29, 0, v30);
    let v31: nat = 7625354163359864724201724198872699077846631682433064431020240758020829845932nat;
    let e31: nat = lemma_power_mod_bit(x, n, e30, v30, 1, v31);
    let v32: nat = 19643034808648967981397807206080768497060516784825884862247505212574391305991nat;
    let e32: nat = lemma_power_mod_bit(x, n, e31, v31, 1, v32);
}

/// A power modulo the modulus, one binary digit of the exponent at a time.
proof fn lemma_power_modulus_19()
    ensures
        power_mod(
            21888242871839275222246405745257275088548364400416034343698204186575808495616nat,
            2nat,
            baby_jubjub_prime(),
        ) == 1nat,
{
    let n: nat = baby_jubjub_prime();
    let x: nat = 21888242871839275222246405745257275088548364400416034343698204186575808495616nat;
    lemma_power_mod_start(x, n);
    let e0: nat = 0;
    let v0: nat = 1;
    let v1: nat = 21888242871839275222246405745257275088548364400416034343698204186575808495616nat;
    let e1: nat = lemma_power_mod_bit(x, n, e0, v0, 1, v1);
    let v2: nat = 1nat;
    let e2: nat = lemma_power_mod_bit(x, n, e1, v1, 0, v2);
}

/// The modulus of Baby JubJub's field is prime.
pub proof fn lemma_baby_jubjub_prime()
    ensures
        is_prime(baby_jubjub_prime()),
{
    let n: nat = baby_jubjub_prime();
    let g: nat = 5;
    lemma_power_modulus_0();
    lemma_power_modulus_1();
    lemma_power_of_power(
        g,
        n,
        402653184nat,
        19887383362718182203517009867385956224532393031860387934578001712995117994586nat,
        3933898217314688411227999285001145467754nat,
        7740382856488830440021062471495669005558519249383073335662966997885018076746nat,
    );
    lemma_power_modulus_2();
    lemma_power_of_power(
        g,
        n,
        402653184nat,
        19887383362718182203517009867385956224532393031860387934578001712995117994586nat,
        13818364434197438864469338081nat,
        12221245763196206497823379909870049310274082915206849646055666645766764708896nat,
    );
    lemma_power_modulus_3();
    lemma_power_of_power(
        g,
        n,
        5564008437101957243423923448687099904nat,
        12221245763196206497823379909870049310274082915206849646055666645766764708896nat,
        4358400511469320584619751nat,
        11312330804912606913175972217686049507098499378637989567617924712345000116520nat,
    );
    lemma_power_modulus_4();
    lemma_power_of_power(
        g,
        n,
        24250177218084785501368896982311859516779994685458902788603904nat,
        11312330804912606913175972217686049507098499378637989567617924712345000116520nat,
        405928799nat,
        6475554457357348236690538752847767240807766159235244952610639667752272374456nat,
    );
    lemma_power_modulus_5();
    lemma_power_of_power(
        g,
        n,
        9843845313674318058743289207984577377103223589894715172835733637431296nat,
        6475554457357348236690538752847767240807766159235244952610639667752272374456nat,
        2262nat,
        16151937248511612831218790030381502136078900305644383989873770910345603053439nat,
    );
    lemma_power_modulus_6();
    lemma_power_of_power(
        g,
        n,
        9843845313674318058743289207984577377103223589894715172835733637431296nat,
        6475554457357348236690538752847767240807766159235244952610639667752272374456nat,
        983nat,
        13674791857936956429203122246438057479895843113609854424240423646568040073197nat,
    );
    lemma_power_modulus_7();
    lemma_power_of_power(
        g,
        n,
        9676499943341854651744653291448839561692468788866505014897526165594963968nat,
        13674791857936956429203122246438057479895843113609854424240423646568040073197nat,
        78nat,
        18357710930920482893114740859477755941065533295300174657912055312005893977631nat,
    );
    lemma_power_modulus_8();
    lemma_power_of_power(
        g,
        n,
        9676499943341854651744653291448839561692468788866505014897526165594963968nat,
        13674791857936956429203122246438057479895843113609854424240423646568040073197nat,
        29nat,
        9083830621347194561056719057236576911026874745334261433650140414301695302707nat,
    );
    lemma_power_modulus_9();
    lemma_power_of_power(
        g,
        n,
        280618498356913784900594945452016347289081594877128645432028258802253955072nat,
        9083830621347194561056719057236576911026874745334261433650140414301695302707nat,
        6nat,
        20846111736645777009767703653665533493788639406277865704073555848150445038125nat,
    );
    lemma_power_modulus_10();
    lemma_power_of_power(
        g,
        n,
        280618498356913784900594945452016347289081594877128645432028258802253955072nat,
        9083830621347194561056719057236576911026874745334261433650140414301695302707nat,
        13nat,
        4407920970296243842393367215006156084916469457145843978462nat,
    );
    lemma_power_modulus_11();
    lemma_power_of_power(
        g,
        n,
        3648040478639879203707734290876212514758060733402672390616367364429301415936nat,
        4407920970296243842393367215006156084916469457145843978462nat,
        3nat,
        21888242871839275222246405745257275088548364400416034343698204186575808495616nat,
    );
    lemma_power_modulus_12();
    lemma_power_of_power(
        g,
        n,
        3648040478639879203707734290876212514758060733402672390616367364429301415936nat,
        4407920970296243842393367215006156084916469457145843978462nat,
        2nat,
        4407920970296243842393367215006156084916469457145843978461nat,
    );
    lemma_power_modulus_13();
    lemma_power_of_power(
        g,
        n,
        24250177218084785501368896982311859516779994685458902788603904nat,
        11312330804912606913175972217686049507098499378637989567617924712345000116520nat,
        2223546nat,
        19321818016159037061311250724021617607548090886696614157910334987366532500238nat,
    );
    lemma_power_modulus_14();
    lemma_power_of_power(
        g,
        n,
        5564008437101957243423923448687099904nat,
        12221245763196206497823379909870049310274082915206849646055666645766764708896nat,
        902601357301254nat,
        19455992791538839751018158356024032287560231693292854970288219097085987754073nat,
    );
    lemma_power_modulus_15();
    lemma_power_of_power(
        g,
        n,
        5022081567363855552981125658459526876355753322479616nat,
        19455992791538839751018158356024032287560231693292854970288219097085987754073nat,
        1670836401704629nat,
        4304492751789186307846231786266984538406615009076024761282417760787597688192nat,
    );
    lemma_power_modulus_16();
    lemma_power_of_power(
        g,
        n,
        8391076695081367782356874990550808681847696840335312101167505342464nat,
        4304492751789186307846231786266984538406615009076024761282417760787597688192nat,
        237073nat,
        8299083658399422953216871473066571686783765754016288837524968026835148283600nat,
    );
    lemma_power_modulus_17();
    lemma_power_of_power(
        g,
        n,
        8391076695081367782356874990550808681847696840335312101167505342464nat,
        4304492751789186307846231786266984538406615009076024761282417760787597688192nat,
        11003nat,
        1135558486015409621676726807058439328573409521523979529600469708688064761941nat,
    );
    lemma_power_modulus_18();
    lemma_power_of_power(
        g,
        n,
        5022081567363855552981125658459526876355753322479616nat,
        19455992791538839751018158356024032287560231693292854970288219097085987754073nat,
        2608514219nat,
        19643034808648967981397807206080768497060516784825884862247505212574391305991nat,
    );
    lemma_power_modulus_19();
    lemma_power_of_power(
        g,
        n,
        10944121435919637611123202872628637544274182200208017171849102093287904247808nat,
        21888242871839275222246405745257275088548364400416034343698204186575808495616nat,
        2nat,
        1nat,
    );
    lemma_prime_2();
    lemma_prime_3();
    lemma_prime_13();
    lemma_prime_29();
    lemma_prime_983();
    lemma_prime_11003();
    lemma_prime_237073();
    lemma_prime_405928799();
    lemma_prime_1670836401704629();
    lemma_prime_13818364434197438864469338081();
    lemma_witnessed_empty(n, g);
    let s0: Seq<nat> = Seq::empty();
    lemma_witnessed_push(n, g, s0, 2);
    let s1: Seq<nat> = s0.push(2);
    lemma_witnessed_push(n, g, s1, 2);
    let s2: Seq<nat> = s1.push(2);
    lemma_witnessed_push(n, g, s2, 2);
    let s3: Seq<nat> = s2.push(2);
    lemma_witnessed_push(n, g, s3, 2);
    let s4: Seq<nat> = s3.push(2);
    lemma_witnessed_push(n, g, s4, 2);
    let s5: Seq<nat> = s4.push(2);
    lemma_witnessed_push(n, g, s5, 2);
    let s6: Seq<nat> = s5.push(2);
    lemma_witnessed_push(n, g, s6, 2);
    let s7: Seq<nat> = s6.push(2);
    lemma_witnessed_push(n, g, s7, 2);
    let s8: Seq<nat> = s7.push(2);
    lemma_witnessed_push(n, g, s8, 2);
    let s9: Seq<nat> = s8.push(2);
    lemma_witnessed_push(n, g, s9, 2);
    let s10: Seq<nat> = s9.push(2);
    lemma_witnessed_push(n, g, s10, 2);
    let s11: Seq<nat> = s10.push(2);
    lemma_witnessed_push(n, g, s11, 2);
    let s12: Seq<nat> = s11.push(2);
    lemma_witnessed_push(n, g, s12, 2);
    let s13: Seq<nat> = s12.push(2);
    lemma_witnessed_push(n, g, s13, 2);
    let s14: Seq<nat> = s13.push(2);
    lemma_witnessed_push(n, g, s14, 2);
    let s15: Seq<nat> = s14.push(2);
    lemma_witnessed_push(n, g, s15, 2);
    let s16: Seq<nat> = s15.push(2);
    lemma_witnessed_push(n, g, s16, 2);
    let s17: Seq<nat> = s16.push(2);
    lemma_witnessed_push(n, g, s17, 2);
    let s18: Seq<nat> = s17.push(2);
    lemma_witnessed_push(n, g, s18, 2);
    let s19: Seq<nat> = s18.push(2);
    lemma_witnessed_push(n, g, s19, 2);
    let s20: Seq<nat> = s19.push(2);
    lemma_witnessed_push(n, g, s20, 2);
    let s21: Seq<nat> = s20.push(2);
    lemma_witnessed_push(n, g, s21, 2);
    let s22: Seq<nat> = s21.push(2);
    lemma_witnessed_push(n, g, s22, 2);
    let s23: Seq<nat> = s22.push(2);
    lemma_witnessed_push(n, g, s23, 2);
    let s24: Seq<nat> = s23.push(2);
    lemma_witnessed_push(n, g, s24, 2);
    let s25: Seq<nat> = s24.push(2);
    lemma_witnessed_push(n, g, s25, 2);
    let s26: Seq<nat> = s25.push(2);
    lemma_witnessed_push(n, g, s26, 2);
    let s27: Seq<nat> = s26.push(2);
    lemma_witnessed_push(n, g, s27, 2);
    let s28: Seq<nat> = s27.push(2);
    lemma_witnessed_push(n, g, s28, 3);
    let s29: Seq<nat> = s28.push(3);
    lemma_witnessed_push(n, g, s29, 3);
    let s30: Seq<nat> = s29.push(3);
    lemma_witnessed_push(n, g, s30, 13);
    let s31: Seq<nat> = s30.push(13);
    lemma_witnessed_push(n, g, s31, 29);
    let s32: Seq<nat> = s31.push(29);
    lemma_witnessed_push(n, g, s32, 983);
    let s33: Seq<nat> = s32.push(983);
    lemma_witnessed_push(n, g, s33, 11003);
    let s34: Seq<nat> = s33.push(11003);
    lemma_witnessed_push(n, g, s34, 237073);
    let s35: Seq<nat> = s34.push(237073);
    lemma_witnessed_push(n, g, s35, 405928799);
    let s36: Seq<nat> = s35.push(405928799);
    lemma_witnessed_push(n, g, s36, 1670836401704629);
    let s37: Seq<nat> = s36.push(1670836401704629);
    lemma_witnessed_push(n, g, s37, 13818364434197438864469338081);
    let s38: Seq<nat> = s37.push(13818364434197438864469338081);
    lemma_lucas(n, g, s38);
}

} // verus!
