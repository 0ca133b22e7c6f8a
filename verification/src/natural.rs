//! Natural numbers of arbitrary size.
//!
//! The numbers themselves are `num_bigint::BigUint` values, which the
//! verifier cannot look into. Each function marked `external_body` makes one
//! call into the big-integer crate and states, over the mathematical value of
//! its arguments, what that call does: these statements are taken on trust,
//! and the rest of the library is verified against them.

use num_bigint::BigUint;
use vstd::prelude::*;
use vstd::string::StrSliceExecFns;

verus! {

/// `num_bigint::BigUint`, as a type that is carried about and never looked
/// into.
#[verifier::external_type_specification]
#[verifier::external_body]
pub struct ExBigUint(num_bigint::BigUint);

/// The natural number that a `BigUint` holds.
pub uninterp spec fn nat_of(n: BigUint) -> nat;

/// The number that a sequence of base 2^32 digits denotes, least significant
/// digit first.
pub open spec fn limbs_value(limbs: Seq<u32>) -> nat
    decreases limbs.len(),
{
    if limbs.len() == 0 {
        0
    } else {
        limbs[0] as nat + 0x1_0000_0000 * limbs_value(limbs.drop_first())
    }
}

/// Whether a text is a decimal numeral: one or more of the digits `0` to `9`.
pub open spec fn is_decimal(text: Seq<char>) -> bool {
    text.len() > 0 && forall|i: int| 0 <= i < text.len() ==> '0' <= #[trigger] text[i] <= '9'
}

/// The number that a decimal numeral denotes.
pub open spec fn decimal_value(text: Seq<char>) -> nat
    decreases text.len(),
{
    if text.len() == 0 {
        0
    } else {
        10 * decimal_value(text.drop_last()) + (text.last() as u32 - '0' as u32) as nat
    }
}

/// `BigUint::from` on a `u32`: the result holds the same number.
#[verifier::external_body]
pub(crate) fn from_u32(v: u32) -> (r: BigUint)
    ensures
        nat_of(r) == v,
{
    BigUint::from(v)
}

/// `BigUint::from_slice`: the result holds the number whose base 2^32 digits
/// are the slice, least significant first.
#[verifier::external_body]
pub(crate) fn from_limbs(limbs: &[u32]) -> (r: BigUint)
    ensures
        nat_of(r) == limbs_value(limbs@),
{
    BigUint::from_slice(limbs)
}

/// `One::one` for `BigUint`: the number 1.
#[verifier::external_body]
pub(crate) fn one() -> (r: BigUint)
    ensures
        nat_of(r) == 1,
{
    num::One::one()
}

/// `Zero::zero` for `BigUint`: the number 0.
#[verifier::external_body]
pub(crate) fn zero() -> (r: BigUint)
    ensures
        nat_of(r) == 0,
{
    num::Zero::zero()
}

/// `Clone::clone` for `BigUint`: a second value that holds the same number.
#[verifier::external_body]
pub(crate) fn duplicate(a: &BigUint) -> (r: BigUint)
    ensures
        nat_of(r) == nat_of(*a),
{
    a.clone()
}

/// `&BigUint + &BigUint`: the sum.
#[verifier::external_body]
pub(crate) fn sum(a: &BigUint, b: &BigUint) -> (r: BigUint)
    ensures
        nat_of(r) == nat_of(*a) + nat_of(*b),
{
    a + b
}

/// `&BigUint - &BigUint`, which panics when the result would be negative:
/// the difference.
#[verifier::external_body]
pub(crate) fn difference(a: &BigUint, b: &BigUint) -> (r: BigUint)
    requires
        nat_of(*b) <= nat_of(*a),
    ensures
        nat_of(r) == nat_of(*a) - nat_of(*b),
{
    a - b
}

/// `&BigUint * &BigUint`: the product.
#[verifier::external_body]
pub(crate) fn product(a: &BigUint, b: &BigUint) -> (r: BigUint)
    ensures
        nat_of(r) == nat_of(*a) * nat_of(*b),
{
    a * b
}

/// `Integer::div_rem` for `BigUint`, which panics on a zero divisor: the
/// quotient rounded down, and the remainder.
#[verifier::external_body]
pub(crate) fn quotient_remainder(a: &BigUint, b: &BigUint) -> (r: (BigUint, BigUint))
    requires
        nat_of(*b) != 0,
    ensures
        nat_of(r.0) == nat_of(*a) / nat_of(*b),
        nat_of(r.1) == nat_of(*a) % nat_of(*b),
{
    num::Integer::div_rem(a, b)
}

/// `&BigUint % &BigUint`, which panics on a zero divisor: the remainder.
#[verifier::external_body]
pub(crate) fn remainder(a: &BigUint, b: &BigUint) -> (r: BigUint)
    requires
        nat_of(*b) != 0,
    ensures
        nat_of(r) == nat_of(*a) % nat_of(*b),
{
    a % b
}

/// `PartialEq::eq` for `BigUint`: whether the two hold the same number.
#[verifier::external_body]
pub(crate) fn same(a: &BigUint, b: &BigUint) -> (r: bool)
    ensures
        r == (nat_of(*a) == nat_of(*b)),
{
    a == b
}

/// `PartialOrd::lt` for `BigUint`: whether the first number is the smaller.
#[verifier::external_body]
pub(crate) fn less(a: &BigUint, b: &BigUint) -> (r: bool)
    ensures
        r == (nat_of(*a) < nat_of(*b)),
{
    a < b
}

/// `Zero::is_zero` for `BigUint`.
#[verifier::external_body]
pub(crate) fn is_zero(a: &BigUint) -> (r: bool)
    ensures
        r == (nat_of(*a) == 0),
{
    num::Zero::is_zero(a)
}

/// `BigUint::parse_bytes` in base 10, on a text made of decimal digits: the
/// number that the text denotes.
#[verifier::external_body]
pub(crate) fn parse_decimal(text: &str) -> (r: Option<BigUint>)
    requires
        is_decimal(text@),
    ensures
        r is Some,
        nat_of(r->Some_0) == decimal_value(text@),
{
    BigUint::parse_bytes(text.as_bytes(), 10)
}

/// Whether a text is a decimal numeral.
pub fn is_decimal_text(text: &str) -> (r: bool)
    ensures
        r == is_decimal(text@),
{
    if !text.is_ascii() {
        return false;
    }
    let n: usize = text.unicode_len();
    if n == 0 {
        return false;
    }
    let mut i: usize = 0;
    while i < n
        invariant
            n == text@.len(),
            text.is_ascii(),
            i <= n,
            forall|j: int| 0 <= j < i ==> '0' <= #[trigger] text@[j] <= '9',
        decreases n - i,
    {
        let digit: u8 = text.get_ascii(i);
        if digit < 48 || digit > 57 {
            return false;
        }
        i = i + 1;
    }
    true
}

/// The number that a decimal numeral denotes; `None` for any other text.
pub fn from_decimal(text: &str) -> (r: Option<BigUint>)
    ensures
        r is Some <==> is_decimal(text@),
        r is Some ==> nat_of(r->Some_0) == decimal_value(text@),
{
    if is_decimal_text(text) {
        parse_decimal(text)
    } else {
        None
    }
}

} // verus!
