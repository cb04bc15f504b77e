use cosmwasm_std::Uint256;
use std::str::FromStr;
use zk_shuffle::curve::{
    curve_q, delta_max, is_on_curve, mod_add, mod_inverse, mod_mul, mod_pow, mod_sub, mul_mod_q,
    point_add, recover_y,
};
use zk_shuffle::error::FieldError;
use zk_shuffle::uint::U256;

fn big(s: &str) -> U256 {
    U256::from_le_bytes(Uint256::from_str(s).unwrap().to_le_bytes())
}

fn cw(x: &U256) -> Uint256 {
    Uint256::from_le_bytes(x.to_le_bytes())
}

fn generator() -> (U256, U256) {
    (
        big("5299619240641551281634865583518297030282874472190772894086521144482721001553"),
        big("16950150798460657717958625567821834550301663161624707787222815936182638968203"),
    )
}

#[test]
fn test_constants_and_helpers() {
    let q_solidity =
        big("21888242871839275222246405745257275088548364400416034343698204186575808495617");
    assert_eq!(curve_q(), q_solidity);

    let a = U256::from_u128(100u128);
    let b = U256::from_u128(200u128);
    let res = mul_mod_q(&a, &b);
    assert_eq!(res, U256::from_u128(20000u128));
}

#[test]
fn test_is_on_curve() {
    assert!(is_on_curve(&U256::zero(), &U256::one()));
    let (gx, gy) = generator();
    assert!(is_on_curve(&gx, &gy));
    assert!(!is_on_curve(&U256::from_u128(123u128), &U256::from_u128(456u128)));
}

#[test]
fn test_point_add_basic() {
    let (gx, gy) = generator();
    let zero = U256::zero();
    let one = U256::one();

    let (res_x, res_y) = point_add(&gx, &gy, &zero, &zero).unwrap();
    assert_eq!(res_x, gx);
    assert_eq!(res_y, gy);

    let (res_x_math, res_y_math) = point_add(&gx, &gy, &zero, &one).unwrap();
    assert_eq!(res_x_math, gx);
    assert_eq!(res_y_math, gy);
}

#[test]
fn test_point_add_doubling() {
    let (gx, gy) = generator();
    let (x2, y2) = point_add(&gx, &gy, &gx, &gy).unwrap();
    assert!(is_on_curve(&x2, &y2));
    assert!(x2 != gx || y2 != gy, "doubling may be equal for Solidity-compatible BabyJubJub");
}

#[test]
fn test_recover_y() {
    let (gx, gy) = generator();
    let q = curve_q();

    let y_complement = mod_sub(&q, &gy, &q);
    let (delta, sign) = if cw(&gy) <= cw(&y_complement) {
        (gy, true)
    } else {
        (y_complement, false)
    };

    assert!(cw(&delta) <= cw(&delta_max()), "delta must be <= DELTA_MAX");
    assert!(is_on_curve(&gx, &delta), "compressed point must be on curve");

    let recovered = recover_y(&gx, &delta, sign).unwrap();
    assert_eq!(recovered, gy, "should recover original Y");

    let recovered_complement = recover_y(&gx, &delta, !sign).unwrap();
    let expected_complement = mod_sub(&q, &gy, &q);
    assert_eq!(recovered_complement, expected_complement, "should recover complement Y");

    assert!(is_on_curve(&gx, &recovered));
    assert!(is_on_curve(&gx, &recovered_complement));
}

#[test]
fn test_modular_math_properties() {
    let q = curve_q();
    let a = U256::from_u128(123456789u128);
    let b = U256::from_u128(987654321u128);
    let _c = U256::from_u128(555555555u128);

    let sum = mod_add(&a, &b, &q);
    let _prod = mod_mul(&a, &b, &q);

    let inv_a = mod_inverse(&a, &q).unwrap();
    let unity = mod_mul(&a, &inv_a, &q);
    assert_eq!(unity, U256::one());

    let sub_res = mod_sub(&sum, &b, &q);
    assert_eq!(sub_res, a);
}

#[test]
fn test_recover_y_failure() {
    let bad_delta = U256::from_le_bytes((cw(&delta_max()) + Uint256::one()).to_le_bytes());
    let err = recover_y(&U256::zero(), &bad_delta, true);
    assert!(err.is_err());
    assert_eq!(err.unwrap_err().message(), "delta out of range");

    let err_curve = recover_y(&U256::zero(), &U256::from_u128(2u128), true);
    assert!(err_curve.is_err());
    assert_eq!(err_curve.unwrap_err().message(), "point not on curve");
}

#[test]
fn field_errors_by_kind() {
    let bad_delta = U256::from_le_bytes((cw(&delta_max()) + Uint256::one()).to_le_bytes());
    assert_eq!(recover_y(&U256::zero(), &bad_delta, false), Err(FieldError::DeltaOutOfRange));
    assert_eq!(
        recover_y(&U256::zero(), &U256::from_u128(2), false),
        Err(FieldError::PointNotOnCurve)
    );
    let q = curve_q();
    assert_eq!(mod_inverse(&U256::zero(), &q), Err(FieldError::InverseUndefined));
    assert_eq!(FieldError::InverseUndefined.message(), "inverse undefined");
}

#[test]
fn delta_max_is_half_of_q_minus_one() {
    let expected =
        big("10944121435919637611123202872628637544274182200208017171849102093287904247808");
    assert_eq!(delta_max(), expected);
    let twice = cw(&delta_max()) + cw(&delta_max()) + Uint256::one();
    assert_eq!(twice, cw(&curve_q()));
}

#[test]
fn sub_after_add_near_the_modulus() {
    let q = curve_q();
    let a = U256::from_le_bytes((cw(&q) - Uint256::from(5u128)).to_le_bytes());
    let b = U256::from_le_bytes((cw(&q) - Uint256::from(7u128)).to_le_bytes());
    let sum = mod_add(&a, &b, &q);
    assert_eq!(cw(&sum), cw(&q) - Uint256::from(12u128));
    assert_eq!(mod_sub(&sum, &b, &q), a);
    assert_eq!(mod_sub(&U256::from_u128(3), &U256::from_u128(5), &q), U256::from_le_bytes(
        (cw(&q) - Uint256::from(2u128)).to_le_bytes()
    ));
}

#[test]
fn products_reduce_modulo_q() {
    let q = curve_q();
    let minus_one = U256::from_le_bytes((cw(&q) - Uint256::one()).to_le_bytes());
    assert_eq!(mod_mul(&minus_one, &minus_one, &q), U256::one());
    assert_eq!(mul_mod_q(&minus_one, &U256::from_u128(2)), U256::from_le_bytes(
        (cw(&q) - Uint256::from(2u128)).to_le_bytes()
    ));
}

#[test]
fn powers_by_square_and_multiply() {
    let q = curve_q();
    assert_eq!(mod_pow(&U256::from_u128(3), &U256::from_u128(13), &q), U256::from_u128(1594323));
    assert_eq!(mod_pow(&U256::from_u128(7), &U256::zero(), &q), U256::one());
    let m = U256::from_u128(1000);
    assert_eq!(mod_pow(&U256::from_u128(2), &U256::from_u128(10), &m), U256::from_u128(24));
    let q_plus_two = U256::from_le_bytes((cw(&q) + Uint256::from(2u128)).to_le_bytes());
    assert_eq!(mod_pow(&q_plus_two, &U256::from_u128(3), &q), U256::from_u128(8));
}

#[test]
fn inverses_multiply_to_one() {
    let q = curve_q();
    for v in [1u128, 2, 3, 168700, 999_999_999_999] {
        let a = U256::from_u128(v);
        let inv = mod_inverse(&a, &q).unwrap();
        assert_eq!(mod_mul(&a, &inv, &q), U256::one());
    }
}

#[test]
fn empty_accumulator_seats_the_first_key() {
    let (gx, gy) = generator();
    let zero = U256::zero();
    let (x, y) = point_add(&zero, &zero, &gx, &gy).unwrap();
    assert_eq!((x, y), (gx, gy));
    let (x, y) = point_add(&zero, &U256::one(), &gx, &gy).unwrap();
    assert_eq!((x, y), (gx, gy));
}

#[test]
fn recovery_of_a_point_with_large_y() {
    let (gx, gy) = generator();
    let q = curve_q();
    let neg = mod_sub(&q, &gy, &q);
    assert!(is_on_curve(&gx, &neg));
    let small = if cw(&gy) <= cw(&neg) { gy } else { neg };
    let large = if cw(&gy) <= cw(&neg) { neg } else { gy };
    assert_eq!(recover_y(&gx, &small, true), Ok(small));
    assert_eq!(recover_y(&gx, &small, false), Ok(large));
}
