use plonk_gates::bls12_381::Scalar;
use plonk_gates::field::Field;
use plonk_gates::polynomial::Polynomial;

fn s(x: u64) -> Scalar {
    Scalar::from_u64(x)
}

#[test]
fn empty_polynomial_is_zero_everywhere() {
    let p = Polynomial::<Scalar>::from_coefficients(vec![]);
    assert_eq!(p.evaluate(s(0)), s(0));
    assert_eq!(p.evaluate(s(12345)), s(0));
}

#[test]
fn constant_polynomial() {
    let p = Polynomial::from_coefficients(vec![s(7)]);
    assert_eq!(p.evaluate(s(0)), s(7));
    assert_eq!(p.evaluate(s(100)), s(7));
}

#[test]
fn evaluate_by_horner() {
    // 1 + 2x + 3x^2 at x = 2 is 1 + 4 + 12.
    let p = Polynomial::from_coefficients(vec![s(1), s(2), s(3)]);
    assert_eq!(p.evaluate(s(2)), s(17));
    assert_eq!(p.evaluate(s(0)), s(1));
    assert_eq!(p.evaluate(s(1)), s(6));
}

#[test]
fn evaluate_the_cubic() {
    // x^3 + x + 5 at x = 3 is 35.
    let p = Polynomial::from_coefficients(vec![s(5), s(1), s(0), s(1)]);
    assert_eq!(p.evaluate(s(3)), s(35));
}

#[test]
fn evaluate_with_a_negative_coefficient() {
    // x^2 - 1 at x = 1 and at x = -1 is 0.
    let minus_one = Scalar::zero().minus(Scalar::one());
    let p = Polynomial::from_coefficients(vec![minus_one, s(0), s(1)]);
    assert_eq!(p.evaluate(s(1)), s(0));
    assert_eq!(p.evaluate(minus_one), s(0));
    assert_eq!(p.evaluate(s(2)), s(3));
}

#[test]
fn coefficients_are_kept_in_order() {
    let p = Polynomial::from_coefficients(vec![s(4), s(5), s(6)]);
    assert_eq!(p.coefficients(), &vec![s(4), s(5), s(6)]);
}
