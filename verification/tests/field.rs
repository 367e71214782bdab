use halo2_axiom::halo2curves::bn256::Fr;
use halo2_axiom::plonk::Assigned;
use lookup_gates::field::Scalar;
use lookup_gates::rational::Rational;

const MODULUS: [u64; 4] =
    [0x43e1f593f0000001, 0x2833e84879b97091, 0xb85045b68181585d, 0x30644e72e131a029];

fn limbs(f: Fr) -> [u64; 4] {
    f.into()
}

/// The field element that a fraction stands for.
fn eval(r: Rational) -> [u64; 4] {
    let fraction = Assigned::Rational(Fr::from_raw(r.numerator.to_limbs()), Fr::from_raw(r.denominator.to_limbs()));
    fraction.evaluate().into()
}

#[test]
fn small_integers_are_their_own_limbs() {
    assert_eq!(Scalar::zero().to_limbs(), [0, 0, 0, 0]);
    assert_eq!(Scalar::one().to_limbs(), [1, 0, 0, 0]);
    assert_eq!(Scalar::from_u64(77).to_limbs(), [77, 0, 0, 0]);
    assert_eq!(Scalar::from_u64(u64::MAX).to_limbs(), [u64::MAX, 0, 0, 0]);
    assert_eq!(Scalar::from_u64(77).to_limbs(), limbs(Fr::from(77)));
}

#[test]
fn limbs_below_the_modulus_are_accepted() {
    let mut below = MODULUS;
    below[0] -= 1;
    assert_eq!(Scalar::from_limbs(below).map(|s| s.to_limbs()), Some(below));
    assert_eq!(Scalar::from_limbs([5, 6, 7, 8]).map(|s| s.to_limbs()), Some([5, 6, 7, 8]));
    let top = [u64::MAX, u64::MAX, u64::MAX, 0x30644e72e131a028];
    assert_eq!(Scalar::from_limbs(top).map(|s| s.to_limbs()), Some(top));
}

#[test]
fn limbs_from_the_modulus_on_are_refused() {
    assert!(Scalar::from_limbs(MODULUS).is_none());
    let mut above = MODULUS;
    above[0] += 1;
    assert!(Scalar::from_limbs(above).is_none());
    assert!(Scalar::from_limbs([0, 0, 0, 0x30644e72e131a02a]).is_none());
    assert!(Scalar::from_limbs([0, 0, 0xb85045b68181585e, 0x30644e72e131a029]).is_none());
    assert!(Scalar::from_limbs([0, 0x2833e84879b97092, 0xb85045b68181585d, 0x30644e72e131a029]).is_none());
    assert!(Scalar::from_limbs([u64::MAX; 4]).is_none());
}

#[test]
fn keys_order_as_the_integers_do() {
    let small = Scalar::from_limbs([u64::MAX, 0, 0, 0]).unwrap();
    let large = Scalar::from_limbs([0, 1, 0, 0]).unwrap();
    assert_eq!(small.key(), (0, 0, 0, u64::MAX));
    assert_eq!(large.key(), (0, 0, 1, 0));
    assert!(small.key() < large.key());
    assert!(Scalar::from_u64(3).key() < Scalar::from_u64(4).key());
}

#[test]
fn zero_and_sameness() {
    assert!(Scalar::zero().is_zero());
    assert!(!Scalar::one().is_zero());
    assert!(!Scalar::from_limbs([0, 0, 0, 1]).unwrap().is_zero());
    assert!(Scalar::from_u64(9).same(&Scalar::from_u64(9)));
    assert!(!Scalar::from_u64(9).same(&Scalar::from_u64(10)));
    assert!(!Scalar::from_limbs([9, 1, 0, 0]).unwrap().same(&Scalar::from_u64(9)));
}

#[test]
fn a_scalar_over_one_evaluates_to_itself() {
    let r = Rational::from_scalar(Scalar::from_u64(12345));
    assert_eq!(r.numerator.to_limbs(), [12345, 0, 0, 0]);
    assert_eq!(r.denominator.to_limbs(), [1, 0, 0, 0]);
    assert_eq!(eval(r), [12345, 0, 0, 0]);
}

#[test]
fn one_over_two_evaluates_to_the_inverse_of_two() {
    let r = Rational::inverse_of(Scalar::from_u64(2));
    assert_eq!(r.numerator.to_limbs(), [1, 0, 0, 0]);
    assert_eq!(r.denominator.to_limbs(), [2, 0, 0, 0]);
    let half = [0xa1f0fac9f8000001, 0x9419f4243cdcb848, 0xdc2822db40c0ac2e, 0x183227397098d014];
    assert_eq!(eval(r), half);
    assert_eq!(half, limbs(Fr::from(2).invert().unwrap()));
}

#[test]
fn one_over_zero_evaluates_to_zero() {
    let r = Rational::inverse_of(Scalar::zero());
    assert_eq!(eval(r), [0, 0, 0, 0]);
}
