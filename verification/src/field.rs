//! The finite field that constraints and polynomials are written over.

use vstd::prelude::*;

verus! {

/// A finite field with exact arithmetic.
///
/// The `spec_*` functions are the field's operations as mathematics. Each
/// executable method computes the operation of the same name, and two
/// elements are the same element exactly when they are equal as values.
pub trait Field: Sized + Copy {
    /// The additive identity.
    spec fn spec_zero() -> Self;

    /// The multiplicative identity.
    spec fn spec_one() -> Self;

    /// The sum of two elements.
    spec fn spec_plus(self, rhs: Self) -> Self;

    /// The difference of two elements.
    spec fn spec_minus(self, rhs: Self) -> Self;

    /// The product of two elements.
    spec fn spec_times(self, rhs: Self) -> Self;

    /// The additive identity added to itself is the additive identity.
    proof fn lemma_zero_plus_zero()
        ensures
            Self::spec_zero().spec_plus(Self::spec_zero()) == Self::spec_zero(),
    ;

    /// The additive identity times itself is the additive identity.
    proof fn lemma_zero_times_zero()
        ensures
            Self::spec_zero().spec_times(Self::spec_zero()) == Self::spec_zero(),
    ;

    /// The additive identity.
    fn zero() -> (r: Self)
        ensures
            r == Self::spec_zero(),
    ;

    /// The multiplicative identity.
    fn one() -> (r: Self)
        ensures
            r == Self::spec_one(),
    ;

    /// The sum of two elements.
    fn plus(self, rhs: Self) -> (r: Self)
        ensures
            r == self.spec_plus(rhs),
    ;

    /// The difference of two elements.
    fn minus(self, rhs: Self) -> (r: Self)
        ensures
            r == self.spec_minus(rhs),
    ;

    /// The product of two elements.
    fn times(self, rhs: Self) -> (r: Self)
        ensures
            r == self.spec_times(rhs),
    ;

    /// Exact equality of two elements.
    fn equals(self, rhs: Self) -> (b: bool)
        ensures
            b == (self == rhs),
    ;
}

/// `base` multiplied with itself `exponent` times, from the multiplicative
/// identity.
pub open spec fn power<F: Field>(base: F, exponent: nat) -> F
    decreases exponent,
{
    if exponent == 0 {
        F::spec_one()
    } else {
        power(base, (exponent - 1) as nat).spec_times(base)
    }
}

} // verus!
