//! Fractions of field elements, kept unreduced so that the prover can invert
//! all denominators in one batch.

use crate::field::{field_add, field_inv, field_mul, field_sub, lemma_field_inv, lemma_field_inv_bound, lemma_field_mul_one, lemma_modulus_bounds, Scalar};
use halo2_axiom::halo2curves::bn256::Fr;
use halo2_axiom::plonk::Assigned;
use vstd::prelude::*;

verus! {

/// A fraction `numerator / denominator`.  A fraction over zero stands for
/// zero.
#[derive(Clone, Copy, Debug)]
pub struct Rational {
    pub numerator: Scalar,
    pub denominator: Scalar,
}

impl View for Rational {
    type V = nat;

    /// The field element that the fraction evaluates to.
    open spec fn view(&self) -> nat {
        field_mul(self.numerator@, field_inv(self.denominator@))
    }
}

/// The value of a deferred fraction: `None` while it is unknown.
pub open spec fn deferred_value(v: Option<Rational>) -> Option<nat> {
    match v {
        Some(r) => Some(r@),
        None => None,
    }
}

impl Rational {
    /// The fraction `x / 1`.
    pub fn from_scalar(x: Scalar) -> (r: Rational)
        ensures
            r@ == x@,
            r.numerator == x,
    {
        let one = Scalar::one();
        proof {
            use_type_invariant(&x);
            lemma_modulus_bounds();
            lemma_field_mul_one(1);
            lemma_field_inv(1, 1);
            lemma_field_mul_one(x@);
        }
        Rational { numerator: x, denominator: one }
    }

    /// The fraction `1 / d`.
    pub fn inverse_of(d: Scalar) -> (r: Rational)
        ensures
            r@ == field_inv(d@),
            r.numerator@ == 1,
            r.denominator == d,
    {
        let one = Scalar::one();
        proof {
            lemma_field_inv_bound(d@);
            lemma_field_mul_one(field_inv(d@));
        }
        Rational { numerator: one, denominator: d }
    }

    /// The sum of two fractions.
    ///
    /// Trusted: `Add::add` of halo2's `Assigned<Fr>` gives a fraction that
    /// evaluates to the field sum of what its operands evaluate to, a
    /// fraction over zero counting as zero.  The operands go in as
    /// `Assigned::Rational` over `Fr::from_raw` of their limbs; the result
    /// comes back by `Assigned::numerator` and `Assigned::denominator` (one
    /// where it is trivial) and the conversion of `Fr` into its canonical
    /// limbs.
    #[verifier::external_body]
    pub(crate) fn plus(&self, rhs: &Rational) -> (r: Rational)
        ensures
            r@ == field_add(self@, rhs@),
    {
        let a = Assigned::Rational(Fr::from_raw(self.numerator.limbs), Fr::from_raw(self.denominator.limbs));
        let b = Assigned::Rational(Fr::from_raw(rhs.numerator.limbs), Fr::from_raw(rhs.denominator.limbs));
        let c = a + b;
        Rational {
            numerator: Scalar { limbs: c.numerator().into() },
            denominator: Scalar { limbs: c.denominator().unwrap_or(Fr::one()).into() },
        }
    }

    /// The difference of two fractions.
    ///
    /// Trusted: `Sub::sub` of halo2's `Assigned<Fr>` gives a fraction that
    /// evaluates to the field difference of what its operands evaluate to;
    /// operands and result are converted as for the sum.
    #[verifier::external_body]
    pub(crate) fn minus(&self, rhs: &Rational) -> (r: Rational)
        ensures
            r@ == field_sub(self@, rhs@),
    {
        let a = Assigned::Rational(Fr::from_raw(self.numerator.limbs), Fr::from_raw(self.denominator.limbs));
        let b = Assigned::Rational(Fr::from_raw(rhs.numerator.limbs), Fr::from_raw(rhs.denominator.limbs));
        let c = a - b;
        Rational {
            numerator: Scalar { limbs: c.numerator().into() },
            denominator: Scalar { limbs: c.denominator().unwrap_or(Fr::one()).into() },
        }
    }

    /// The product of two fractions.
    ///
    /// Trusted: `Mul::mul` of halo2's `Assigned<Fr>` gives a fraction that
    /// evaluates to the field product of what its operands evaluate to;
    /// operands and result are converted as for the sum.
    #[verifier::external_body]
    pub(crate) fn times(&self, rhs: &Rational) -> (r: Rational)
        ensures
            r@ == field_mul(self@, rhs@),
    {
        let a = Assigned::Rational(Fr::from_raw(self.numerator.limbs), Fr::from_raw(self.denominator.limbs));
        let b = Assigned::Rational(Fr::from_raw(rhs.numerator.limbs), Fr::from_raw(rhs.denominator.limbs));
        let c = a * b;
        Rational {
            numerator: Scalar { limbs: c.numerator().into() },
            denominator: Scalar { limbs: c.denominator().unwrap_or(Fr::one()).into() },
        }
    }

    /// The field element that the fraction stands for, by one unbatched
    /// inversion.
    ///
    /// Trusted: `Assigned::evaluate` of halo2 multiplies the numerator by
    /// the inverse of the denominator in `Fr`, the inverse of zero being
    /// zero, and the conversion of `Fr` into `[u64; 4]` gives canonical
    /// limbs.
    #[verifier::external_body]
    pub(crate) fn evaluate(&self) -> (r: Scalar)
        ensures
            r@ == self@,
    {
        let a = Assigned::Rational(Fr::from_raw(self.numerator.limbs), Fr::from_raw(self.denominator.limbs));
        Scalar { limbs: a.evaluate().into() }
    }
}

} // verus!
