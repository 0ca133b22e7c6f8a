use baby_jubjub::algebra::fields::prime::{FieldError, PrimeFieldEle};
use baby_jubjub::algebra::groups::ecg::CurvePoint;
use baby_jubjub::curves::baby_jubjub::curve::{
    BabyJubJubCurve, BabyJubJubCurveGroup, BABY_JUBJUB_A, BABY_JUBJUB_B,
};
use baby_jubjub::curves::baby_jubjub::ff::BabyJubJubFieldEle;
use num_bigint::BigUint;

const X1: &str = "17777552123799933955779906779655732241715742912184938656739573121738514868268";
const Y1: &str = "2626589144620713026669568689430873010625803728049924121243784502389097019475";
const X2: &str = "16540640123574156134436876038791482806971768689494387082833631921987005038935";
const Y2: &str = "20819045374670962167435360035096875258406992893633759881276124905556507972311";
const X3: &str = "7916061937171219682591368294088513039687205273691143098332585753343424131937";
const Y3: &str = "14035240266687799601661095864649209771790948434046947201833777492504781204499";

fn big(text: &str) -> BigUint {
    BigUint::parse_bytes(text.as_bytes(), 10).unwrap()
}

fn element(text: &str) -> BabyJubJubFieldEle {
    BabyJubJubFieldEle::try_from(text).unwrap()
}

#[test]
fn test_addition() {
    let x1 = "17777552123799933955779906779655732241715742912184938656739573121738514868268";
    let y1 = "2626589144620713026669568689430873010625803728049924121243784502389097019475";
    let x2 = "16540640123574156134436876038791482806971768689494387082833631921987005038935";
    let y2 = "20819045374670962167435360035096875258406992893633759881276124905556507972311";
    let x3 = "7916061937171219682591368294088513039687205273691143098332585753343424131937";
    let y3 = "14035240266687799601661095864649209771790948434046947201833777492504781204499";

    let g1 = BabyJubJubCurveGroup::try_from((x1, y1)).unwrap();
    let g2 = BabyJubJubCurveGroup::try_from((x2, y2)).unwrap();
    let g3 = BabyJubJubCurveGroup::try_from((x3, y3)).unwrap();
    assert_eq!(BabyJubJubCurve::op(g1, g2).unwrap() == g3, true);
}

#[test]
fn addition_gives_the_expected_coordinates() {
    let g1 = BabyJubJubCurve::try_from((X1, Y1)).unwrap();
    let g2 = BabyJubJubCurve::try_from((X2, Y2)).unwrap();
    let sum = BabyJubJubCurve::op(g1, g2).unwrap();
    assert_eq!(sum.x().value(), big(X3));
    assert_eq!(sum.y().value(), big(Y3));
}

#[test]
fn addition_is_commutative_on_the_vector() {
    let one_way = BabyJubJubCurve::op(
        BabyJubJubCurve::try_from((X1, Y1)).unwrap(),
        BabyJubJubCurve::try_from((X2, Y2)).unwrap(),
    )
    .unwrap();
    let other_way = BabyJubJubCurve::op(
        BabyJubJubCurve::try_from((X2, Y2)).unwrap(),
        BabyJubJubCurve::try_from((X1, Y1)).unwrap(),
    )
    .unwrap();
    assert!(one_way == other_way);
    assert_eq!(other_way.x().value(), big(X3));
}

#[test]
fn addition_stays_on_the_curve() {
    let g1 = BabyJubJubCurve::try_from((X1, Y1)).unwrap();
    let g2 = BabyJubJubCurve::try_from((X2, Y2)).unwrap();
    assert!(g1.is_on_curve());
    assert!(g2.is_on_curve());
    let sum = BabyJubJubCurve::op(g1, g2).unwrap();
    assert!(sum.is_on_curve());
}

#[test]
fn a_point_off_the_curve_is_told_apart() {
    let off = BabyJubJubCurve::try_from(("1", "2")).unwrap();
    assert!(!off.is_on_curve());
    let neutral = BabyJubJubCurve::try_from(("0", "1")).unwrap();
    assert!(neutral.is_on_curve());
}

#[test]
fn doubling_uses_the_same_law() {
    let g = BabyJubJubCurve::try_from((X1, Y1)).unwrap();
    let twice = BabyJubJubCurve::op(g.clone(), g).unwrap();
    assert_eq!(
        twice.x().value(),
        big("6890855772600357754907169075114257697580319025794532037257385534741338397365")
    );
    assert_eq!(
        twice.y().value(),
        big("4338620300185947561074059802482547481416142213883829469920100239455078257889")
    );
    assert!(twice.is_on_curve());
}

#[test]
fn the_neutral_point_changes_nothing() {
    let g = BabyJubJubCurve::try_from((X1, Y1)).unwrap();
    let neutral = BabyJubJubCurve::try_from(("0", "1")).unwrap();
    let sum = BabyJubJubCurve::op(g, neutral).unwrap();
    assert_eq!(sum.x().value(), big(X1));
    assert_eq!(sum.y().value(), big(Y1));
}

#[test]
fn a_vanishing_first_denominator_is_reported() {
    // with x1 = x2 = y1 = 1 and y2 = -1 / b the cross term is -1
    let y2 = "15937535784349561894616308370721219655188393586073782108286393956286256253510";
    let first = BabyJubJubCurve::try_from(("1", "1")).unwrap();
    let second = BabyJubJubCurve::try_from(("1", y2)).unwrap();
    assert_eq!(BabyJubJubCurve::op(first, second).err(), Some(FieldError::NoInverse));
}

#[test]
fn a_vanishing_second_denominator_is_reported() {
    // with x1 = x2 = y1 = 1 and y2 = 1 / b the cross term is 1
    let y2 = "5950707087489713327630097374536055433359970814342252235411810230289552242107";
    let first = BabyJubJubCurve::try_from(("1", "1")).unwrap();
    let second = BabyJubJubCurve::try_from(("1", y2)).unwrap();
    assert_eq!(BabyJubJubCurve::op(first, second).err(), Some(FieldError::NoInverse));
}

#[test]
fn the_degenerate_pair_is_built_from_field_operations() {
    let minus_one = BabyJubJubFieldEle::from_u32(0).sub(BabyJubJubFieldEle::from_u32(1));
    let y2 = minus_one.div(BabyJubJubFieldEle::from_u32(BABY_JUBJUB_B)).unwrap();
    let one = BabyJubJubFieldEle::from_u32(1);
    let first = BabyJubJubCurve::from_coordinates(one.clone(), one.clone());
    let second = BabyJubJubCurve::from_coordinates(one, y2);
    assert_eq!(BabyJubJubCurve::op(first, second).err(), Some(FieldError::NoInverse));
}

#[test]
fn coordinates_read_back_as_they_were_given() {
    let g = BabyJubJubCurve::try_from((X2, Y2)).unwrap();
    assert_eq!(g.x().value().to_string(), X2);
    assert_eq!(g.y().value().to_string(), Y2);
    assert_eq!(g.x.value(), big(X2));
}

#[test]
fn coordinates_beyond_the_prime_are_reduced() {
    // 2 p + 5 and p - 1 + p
    let g = BabyJubJubCurve::try_from((
        "43776485743678550444492811490514550177096728800832068687396408373151616991239",
        "43776485743678550444492811490514550177096728800832068687396408373151616991233",
    ))
    .unwrap();
    assert_eq!(g.x().value(), big("5"));
    assert_eq!(
        g.y().value(),
        big("21888242871839275222246405745257275088548364400416034343698204186575808495616")
    );
}

#[test]
fn malformed_coordinates_are_refused() {
    assert_eq!(BabyJubJubCurve::try_from(("12", "1x")).err(), Some(FieldError::MalformedInput));
    assert_eq!(BabyJubJubCurve::try_from(("", "1")).err(), Some(FieldError::MalformedInput));
    assert_eq!(BabyJubJubCurve::try_from(("-1", "1")).err(), Some(FieldError::MalformedInput));
    assert_eq!(BabyJubJubCurve::try_from(("+1", "1")).err(), Some(FieldError::MalformedInput));
    assert_eq!(BabyJubJubCurve::try_from(("1_0", "1")).err(), Some(FieldError::MalformedInput));
    assert_eq!(BabyJubJubCurve::try_from(("1", " 1")).err(), Some(FieldError::MalformedInput));
    assert_eq!(BabyJubJubCurve::try_from(("1", "१")).err(), Some(FieldError::MalformedInput));
    assert!(BabyJubJubCurve::try_from(("007", "0")).is_ok());
}

#[test]
fn points_compare_by_their_coordinates() {
    let g = BabyJubJubCurve::from_coordinates(element(X1), element(Y1));
    assert!(g == BabyJubJubCurve::try_from((X1, Y1)).unwrap());
    assert!(g != BabyJubJubCurve::try_from((X1, Y2)).unwrap());
    assert!(g != BabyJubJubCurve::try_from((X2, Y1)).unwrap());
    let copy = g.clone();
    assert!(copy == g);
}

#[test]
fn the_curve_constants_are_the_published_ones() {
    assert_eq!(BABY_JUBJUB_A, 168700);
    assert_eq!(BABY_JUBJUB_B, 168696);
}
