use plonk_gates::bls12_381::{
    Scalar, MODULUS_LIMB_0, MODULUS_LIMB_1, MODULUS_LIMB_2, MODULUS_LIMB_3,
};
use plonk_gates::field::Field;

fn s(x: u64) -> Scalar {
    Scalar::from_u64(x)
}

fn minus_one() -> Scalar {
    Scalar::from_limbs([MODULUS_LIMB_0 - 1, MODULUS_LIMB_1, MODULUS_LIMB_2, MODULUS_LIMB_3])
        .unwrap()
}

#[test]
fn identities_are_zero_and_one() {
    assert_eq!(Scalar::zero(), s(0));
    assert_eq!(Scalar::one(), s(1));
    assert_eq!(Scalar::zero().to_limbs(), [0, 0, 0, 0]);
    assert_eq!(Scalar::one().to_limbs(), [1, 0, 0, 0]);
}

#[test]
fn sum_of_small_values() {
    assert_eq!(s(3).plus(s(4)), s(7));
    assert_eq!(s(1).plus(s(1)), s(2));
    assert_ne!(s(1).plus(s(1)), s(1));
}

#[test]
fn sum_carries_into_the_next_limb() {
    let r = s(u64::MAX).plus(s(1));
    assert_eq!(r.to_limbs(), [0, 1, 0, 0]);
}

#[test]
fn sum_wraps_at_the_modulus() {
    assert_eq!(minus_one().plus(s(1)), s(0));
    assert_eq!(minus_one().plus(s(5)), s(4));
}

#[test]
fn difference_of_small_values() {
    assert_eq!(s(9).minus(s(4)), s(5));
    assert_ne!(s(9).minus(s(4)), s(9));
}

#[test]
fn difference_below_zero_wraps_to_the_modulus() {
    assert_eq!(s(0).minus(s(1)), minus_one());
    assert_eq!(
        s(0).minus(s(1)).to_limbs(),
        [0xffff_ffff_0000_0000, 0x53bd_a402_fffe_5bfe, 0x3339_d808_09a1_d805, 0x73ed_a753_299d_7d48]
    );
}

#[test]
fn product_of_small_values() {
    assert_eq!(s(3).times(s(3)), s(9));
    assert_eq!(s(27).times(s(1)), s(27));
    assert_ne!(s(3).times(s(3)), s(3));
}

#[test]
fn product_crosses_limbs() {
    let r = s(1 << 32).times(s(1 << 32));
    assert_eq!(r.to_limbs(), [0, 1, 0, 0]);
}

#[test]
fn product_of_minus_one_with_itself_is_one() {
    assert_eq!(minus_one().times(minus_one()), s(1));
}

#[test]
fn equals_is_exact() {
    assert!(s(5).equals(s(5)));
    assert!(!s(5).equals(s(6)));
    assert!(s(0).minus(s(1)).equals(minus_one()));
}

#[test]
fn from_limbs_takes_values_below_the_modulus() {
    let r = Scalar::from_limbs([7, 0, 0, 0]);
    assert_eq!(r, Some(s(7)));
    let top = Scalar::from_limbs([
        MODULUS_LIMB_0 - 1,
        MODULUS_LIMB_1,
        MODULUS_LIMB_2,
        MODULUS_LIMB_3,
    ]);
    assert!(top.is_some());
    assert_eq!(
        top.unwrap().to_limbs(),
        [MODULUS_LIMB_0 - 1, MODULUS_LIMB_1, MODULUS_LIMB_2, MODULUS_LIMB_3]
    );
}

#[test]
fn from_limbs_refuses_the_modulus_and_above() {
    assert_eq!(
        Scalar::from_limbs([MODULUS_LIMB_0, MODULUS_LIMB_1, MODULUS_LIMB_2, MODULUS_LIMB_3]),
        None
    );
    assert_eq!(
        Scalar::from_limbs([0, MODULUS_LIMB_1 + 1, MODULUS_LIMB_2, MODULUS_LIMB_3]),
        None
    );
    assert_eq!(Scalar::from_limbs([0, 0, MODULUS_LIMB_2 + 1, MODULUS_LIMB_3]), None);
    assert_eq!(Scalar::from_limbs([0, 0, 0, MODULUS_LIMB_3 + 1]), None);
    assert_eq!(Scalar::from_limbs([u64::MAX, u64::MAX, u64::MAX, u64::MAX]), None);
}

#[test]
fn from_limbs_compares_from_the_top_limb_down() {
    assert!(Scalar::from_limbs([u64::MAX, u64::MAX, u64::MAX, MODULUS_LIMB_3 - 1]).is_some());
    assert!(Scalar::from_limbs([u64::MAX, u64::MAX, MODULUS_LIMB_2 - 1, MODULUS_LIMB_3]).is_some());
    assert!(Scalar::from_limbs([u64::MAX, MODULUS_LIMB_1 - 1, MODULUS_LIMB_2, MODULUS_LIMB_3])
        .is_some());
}
