use baby_jubjub::algebra::fields::prime::{inverse_mod, FieldError, PrimeFieldEle};
use baby_jubjub::curves::baby_jubjub::ff::{BabyJubJubField, BabyJubJubFieldEle, BABY_JUBJUB_P};
use baby_jubjub::natural::{from_decimal, is_decimal_text};
use num_bigint::BigUint;

const P: &str = "21888242871839275222246405745257275088548364400416034343698204186575808495617";
const A: &str = "17777552123799933955779906779655732241715742912184938656739573121738514868268";
const B: &str = "2626589144620713026669568689430873010625803728049924121243784502389097019475";

fn big(text: &str) -> BigUint {
    BigUint::parse_bytes(text.as_bytes(), 10).unwrap()
}

fn element(text: &str) -> BabyJubJubFieldEle {
    BabyJubJubFieldEle::try_from(text).unwrap()
}

#[test]
fn the_prime_is_the_published_one() {
    assert_eq!(element("1").prime(), big(P));
    assert_eq!(BigUint::from_slice(&BABY_JUBJUB_P), big(P));
    assert_eq!(
        BABY_JUBJUB_P,
        [
            0xf0000001, 0x43e1f593, 0x79b97091, 0x2833e848, 0x8181585d, 0xb85045b6, 0xe131a029,
            0x30644e72
        ]
    );
}

#[test]
fn sums_are_reduced() {
    assert_eq!(
        element(A).add(element(B)).value(),
        big("20404141268420646982449475469086605252341546640234862777983357624127611887743")
    );
    assert_eq!(
        element(A).add(element(A)).value(),
        big("13666861375760592689313407814054189394883121423953842969780942056901221240919")
    );
    assert_eq!(element("3").add(element("4")).value(), big("7"));
}

#[test]
fn differences_wrap_around_the_prime() {
    assert_eq!(
        element(B).sub(element(A)).value(),
        big("6737279892660054293136067655032415857458425216281019808202415567226390646824")
    );
    assert_eq!(element("9").sub(element("4")).value(), big("5"));
    assert_eq!(
        element("0").sub(element("1")).value(),
        big("21888242871839275222246405745257275088548364400416034343698204186575808495616")
    );
    assert_eq!(element(A).sub(element(A)).value(), big("0"));
}

#[test]
fn products_are_reduced() {
    assert_eq!(
        element(A).mul(element(B)).value(),
        big("20568568898342220633108135427710666966214851499764106605461702866721103632836")
    );
    assert_eq!(element("6").mul(element("7")).value(), big("42"));
    assert_eq!(element(A).mul(element("0")).value(), big("0"));
}

#[test]
fn quotients_are_products_with_the_inverse() {
    assert_eq!(
        element(A).div(element(B)).unwrap().value(),
        big("14870242983651718666896335271265175237029171466789972043487354637381651571843")
    );
    assert_eq!(
        element("1").div(element("7")).unwrap().value(),
        big("3126891838834182174606629392179610726935480628630862049099743455225115499374")
    );
    assert_eq!(element("42").div(element("7")).unwrap().value(), big("6"));
    assert_eq!(element("0").div(element("7")).unwrap().value(), big("0"));
}

#[test]
fn division_by_zero_is_refused() {
    assert_eq!(element(A).div(element("0")).err(), Some(FieldError::NoInverse));
    assert_eq!(element("0").div(element("0")).err(), Some(FieldError::NoInverse));
    assert_eq!(element("1").div(element(P)).err(), Some(FieldError::NoInverse));
}

#[test]
fn division_undoes_multiplication() {
    let back = element(A).mul(element(B)).div(element(A)).unwrap();
    assert_eq!(back.value(), big(B));
    assert!(back.equals(&element(B)));
    let back = element("5").mul(element("0")).div(element("5")).unwrap();
    assert_eq!(back.value(), big("0"));
}

#[test]
fn every_result_is_below_the_prime() {
    let p = big(P);
    let largest = "21888242871839275222246405745257275088548364400416034343698204186575808495616";
    assert!(element(largest).add(element(largest)).value() < p);
    assert!(element(largest).mul(element(largest)).value() < p);
    assert!(element("0").sub(element(largest)).value() < p);
    assert!(element("1").div(element(largest)).unwrap().value() < p);
    assert!(BabyJubJubFieldEle::from_biguint(&p + &p).value() < p);
    assert_eq!(element(largest).add(element("1")).value(), big("0"));
    assert_eq!(element(largest).mul(element(largest)).value(), big("1"));
}

#[test]
fn numbers_are_reduced_on_the_way_in() {
    assert_eq!(BabyJubJubFieldEle::from_biguint(big(P)).value(), big("0"));
    assert_eq!(BabyJubJubFieldEle::from_biguint(big(P) + 9u32).value(), big("9"));
    assert_eq!(BabyJubJubFieldEle::from_biguint(big(A)).value(), big(A));
    assert_eq!(BabyJubJubField::from_u32(168700).value(), big("168700"));
    assert_eq!(BabyJubJubField::from_u32(0).value(), big("0"));
    assert_eq!(BabyJubJubField::from_u32(u32::MAX).value(), big("4294967295"));
}

#[test]
fn elements_compare_by_their_value() {
    assert!(element(A).equals(&element(A)));
    assert!(!element(A).equals(&element(B)));
    assert!(element(A) == element(A));
    assert!(element(A) != element(B));
    assert!(element(P) == element("0"));
    let copy = element(A).clone();
    assert_eq!(copy.value(), big(A));
}

#[test]
fn texts_that_are_no_numerals_are_refused() {
    assert_eq!(BabyJubJubFieldEle::try_from("").err(), Some(FieldError::MalformedInput));
    assert_eq!(BabyJubJubFieldEle::try_from("12a").err(), Some(FieldError::MalformedInput));
    assert_eq!(BabyJubJubFieldEle::try_from("0x10").err(), Some(FieldError::MalformedInput));
    assert_eq!(BabyJubJubFieldEle::try_from("1.5").err(), Some(FieldError::MalformedInput));
    assert_eq!(BabyJubJubFieldEle::try_from("12").unwrap().value(), big("12"));
}

#[test]
fn inverses_by_the_euclidean_algorithm() {
    let inverse = |b: u32, m: u32| inverse_mod(&BigUint::from(b), &BigUint::from(m));
    assert_eq!(inverse(3, 7), Some(BigUint::from(5u32)));
    assert_eq!(inverse(10, 17), Some(BigUint::from(12u32)));
    assert_eq!(inverse(1, 2), Some(BigUint::from(1u32)));
    assert_eq!(inverse(24, 7), Some(BigUint::from(5u32)));
    assert_eq!(inverse(3, 10), Some(BigUint::from(7u32)));
    assert_eq!(inverse(0, 7), None);
    assert_eq!(inverse(14, 7), None);
    assert_eq!(inverse(2, 4), None);
    assert_eq!(inverse(6, 9), None);
    assert_eq!(inverse(5, 1), None);
    assert_eq!(inverse(5, 0), None);
}

#[test]
fn inverses_modulo_the_prime() {
    let p = big(P);
    let inverse = inverse_mod(&big(B), &p).unwrap();
    assert_eq!((inverse * big(B)) % &p, BigUint::from(1u32));
    assert_eq!(inverse_mod(&p, &p), None);
}

#[test]
fn decimal_numerals_are_recognised() {
    assert!(is_decimal_text("0"));
    assert!(is_decimal_text("0123456789"));
    assert!(!is_decimal_text(""));
    assert!(!is_decimal_text("12 "));
    assert!(!is_decimal_text("+12"));
    assert!(!is_decimal_text("1_2"));
    assert!(!is_decimal_text("/"));
    assert!(!is_decimal_text(":"));
    assert!(!is_decimal_text("é"));
}

#[test]
fn decimal_numerals_are_read() {
    assert_eq!(from_decimal("0"), Some(BigUint::from(0u32)));
    assert_eq!(from_decimal("000120"), Some(BigUint::from(120u32)));
    assert_eq!(from_decimal(P), Some(BigUint::from_slice(&BABY_JUBJUB_P)));
    assert_eq!(from_decimal("12x"), None);
    assert_eq!(from_decimal(""), None);
}
