use plonk_gates::bls12_381::Scalar;
use plonk_gates::domain::{EvaluationDomain, FftField};
use plonk_gates::error::ArithmetizationError;
use plonk_gates::field::Field;

fn s(x: u64) -> Scalar {
    Scalar::from_u64(x)
}

fn power(base: Scalar, exponent: usize) -> Scalar {
    let mut r = Scalar::one();
    for _ in 0..exponent {
        r = r.times(base);
    }
    r
}

fn size_for(n: usize) -> usize {
    EvaluationDomain::<Scalar>::new(n).ok().unwrap().size()
}

#[test]
fn domain_size_is_the_next_power_of_two() {
    assert_eq!(size_for(0), 1);
    assert_eq!(size_for(1), 1);
    assert_eq!(size_for(2), 2);
    assert_eq!(size_for(3), 4);
    assert_eq!(size_for(4), 4);
    assert_eq!(size_for(5), 8);
    assert_eq!(size_for(8), 8);
    assert_eq!(size_for(9), 16);
    assert_eq!(size_for(1000), 1024);
    assert_eq!(size_for(1 << 32), 1 << 32);
}

#[test]
fn domain_size_beyond_the_radix_two_range_is_mixed() {
    assert_eq!(size_for((1 << 32) + 1), 3 << 31);
    assert_eq!(size_for(3 << 31), 3 << 31);
    assert_eq!(size_for((3 << 31) + 1), 3 << 32);
    assert_eq!(size_for(3 << 32), 3 << 32);
}

#[test]
fn domain_size_of_the_trait_agrees() {
    assert_eq!(Scalar::domain_size(3), Some(4));
    assert_eq!(Scalar::domain_size(6), Some(8));
    assert_eq!(Scalar::domain_size((3 << 32) + 1), None);
}

#[test]
fn domain_too_large_is_a_construction_error() {
    let r = EvaluationDomain::<Scalar>::new((3 << 32) + 1);
    assert!(matches!(r, Err(ArithmetizationError::DomainConstructionError)));
    let r = EvaluationDomain::<Scalar>::new(1 << 62);
    assert!(matches!(r, Err(ArithmetizationError::DomainConstructionError)));
    let r = EvaluationDomain::<Scalar>::new(1 << 63);
    assert!(matches!(r, Err(ArithmetizationError::DomainConstructionError)));
    let r = EvaluationDomain::<Scalar>::new((1 << 63) + 1);
    assert!(matches!(r, Err(ArithmetizationError::DomainConstructionError)));
    let r = EvaluationDomain::<Scalar>::new(usize::MAX);
    assert!(matches!(r, Err(ArithmetizationError::DomainConstructionError)));
}

#[test]
fn domain_size_never_shrinks() {
    let mut last = 0;
    for n in 0..200 {
        let size = size_for(n);
        assert!(size >= n);
        assert!(size >= last);
        last = size;
    }
}

#[test]
fn domain_of_one_point_is_the_identity() {
    let d = EvaluationDomain::<Scalar>::new(1).ok().unwrap();
    assert_eq!(d.points(), vec![s(1)]);
}

#[test]
fn domain_of_two_points_is_one_and_minus_one() {
    let d = EvaluationDomain::<Scalar>::new(2).ok().unwrap();
    assert_eq!(d.points(), vec![s(1), s(0).minus(s(1))]);
}

#[test]
fn domain_points_are_the_powers_of_a_root_of_unity() {
    let d = EvaluationDomain::<Scalar>::new(8).ok().unwrap();
    let points = d.points();
    assert_eq!(points.len(), 8);
    assert_eq!(points[0], s(1));
    let g = points[1];
    for i in 0..8 {
        assert_eq!(points[i], power(g, i));
    }
    assert_eq!(power(g, 8), s(1));
    assert_eq!(power(g, 4), s(0).minus(s(1)));
}

#[test]
fn domain_points_are_distinct() {
    let d = EvaluationDomain::<Scalar>::new(16).ok().unwrap();
    let points = d.points();
    for i in 0..16 {
        for j in 0..i {
            assert_ne!(points[i], points[j]);
        }
    }
}

#[test]
fn domains_of_one_size_have_the_same_points() {
    let a = EvaluationDomain::<Scalar>::new(5).ok().unwrap();
    let b = EvaluationDomain::<Scalar>::new(8).ok().unwrap();
    assert_eq!(a.size(), b.size());
    assert_eq!(a.points(), b.points());
    assert_eq!(a.points(), Scalar::domain_points(8));
}

#[test]
fn interpolation_of_a_constant_is_the_constant() {
    let d = EvaluationDomain::<Scalar>::new(2).ok().unwrap();
    let p = d.interpolate(&vec![s(3), s(3)]);
    assert_eq!(p.coefficients(), &vec![s(3)]);
}

#[test]
fn interpolation_of_zeros_has_no_coefficient() {
    let d = EvaluationDomain::<Scalar>::new(4).ok().unwrap();
    let p = d.interpolate(&vec![s(0), s(0), s(0), s(0)]);
    assert!(p.coefficients().is_empty());
}

#[test]
fn interpolation_over_two_points() {
    // p(1) = 5 and p(-1) = 1: p = 3 + 2x.
    let d = EvaluationDomain::<Scalar>::new(2).ok().unwrap();
    let p = d.interpolate(&vec![s(5), s(1)]);
    assert_eq!(p.coefficients(), &vec![s(3), s(2)]);
}

#[test]
fn interpolation_of_the_points_is_the_identity_polynomial() {
    let d = EvaluationDomain::<Scalar>::new(4).ok().unwrap();
    let p = d.interpolate(&d.points());
    assert_eq!(p.coefficients(), &vec![s(0), s(1)]);
}

#[test]
fn interpolation_takes_the_values_at_the_points() {
    let d = EvaluationDomain::<Scalar>::new(8).ok().unwrap();
    let values = vec![s(9), s(27), s(35), s(0), s(1), s(2), s(0), s(77)];
    let p = d.interpolate(&values);
    assert!(p.coefficients().len() <= 8);
    assert_ne!(p.coefficients(), &values);
    let points = d.points();
    for i in 0..8 {
        assert_eq!(p.evaluate(points[i]), values[i]);
    }
}

#[test]
fn interpolation_of_the_trait_agrees() {
    let values = vec![s(1), s(2), s(3), s(4)];
    let d = EvaluationDomain::<Scalar>::new(4).ok().unwrap();
    assert_eq!(&Scalar::interpolate(&values), d.interpolate(&values).coefficients());
}
