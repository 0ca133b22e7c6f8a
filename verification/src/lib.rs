//! Arithmetic in prime fields of arbitrary size and the composition law of
//! twisted Edwards curves over them, with the Baby JubJub curve as the
//! concrete instance.
//!
//! The layers, from the bottom:
//!
//! - [`natural`]: numbers of arbitrary size. They are `num_bigint::BigUint`
//!   values, and this module holds what is assumed of that crate.
//! - [`number_theory`] and [`primality`]: inverses modulo a number, primes,
//!   and Lucas's criterion for primality. Specifications and proofs only.
//! - [`algebra::fields::prime`]: the elements of a prime field and their
//!   arithmetic, the division by the extended Euclidean algorithm.
//! - [`algebra::groups::ecg`]: the points of a twisted Edwards curve and what
//!   their composition is; [`algebra::groups::closure`] proves that the
//!   composition stays on the curve.
//! - [`curves::baby_jubjub`]: the field and the curve of Baby JubJub, with the
//!   proof that the field's modulus is prime.
//!
//! Every element of a field is held as its canonical representative, a
//! number below the prime. An operation takes its operands by value and
//! returns a new element. A division by zero and a composition of points
//! whose denominator vanishes return an error; nothing panics.

pub mod algebra;
pub mod curves;
pub mod natural;
pub mod number_theory;
pub mod primality;
