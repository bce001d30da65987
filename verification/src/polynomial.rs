//! Univariate polynomials in coefficient form.

use crate::field::Field;
use vstd::prelude::*;

verus! {

/// The value at `x` of the polynomial with the given coefficients, lowest
/// degree first: `c0 + x * (c1 + x * (c2 + ...))`.
pub open spec fn eval<F: Field>(coeffs: Seq<F>, x: F) -> F
    decreases coeffs.len(),
{
    if coeffs.len() == 0 {
        F::spec_zero()
    } else {
        coeffs[0].spec_plus(x.spec_times(eval(coeffs.drop_first(), x)))
    }
}

/// A polynomial over `F`. The coefficient of `x^i` is at position `i`.
#[derive(Debug, PartialEq, Eq)]
pub struct Polynomial<F: Field> {
    coeffs: Vec<F>,
}

impl<F: Field> View for Polynomial<F> {
    type V = Seq<F>;

    /// The coefficients, lowest degree first.
    closed spec fn view(&self) -> Seq<F> {
        self.coeffs@
    }
}

impl<F: Field> Polynomial<F> {
    /// The polynomial with the given coefficients, lowest degree first.
    pub fn from_coefficients(coeffs: Vec<F>) -> (p: Self)
        ensures
            p@ == coeffs@,
    {
        Polynomial { coeffs }
    }

    /// The coefficients, lowest degree first.
    pub fn coefficients(&self) -> (c: &Vec<F>)
        ensures
            c@ == self@,
    {
        &self.coeffs
    }

    /// The value of the polynomial at `x`.
    pub open spec fn value_at(&self, x: F) -> F {
        eval(self@, x)
    }

    /// Evaluates the polynomial at `x` by Horner's rule.
    pub fn evaluate(&self, x: F) -> (y: F)
        ensures
            y == self.value_at(x),
    {
        let n = self.coeffs.len();
        let mut acc = F::zero();
        let mut i: usize = n;
        while i > 0
            invariant
                n == self.coeffs.len(),
                i <= n,
                acc == eval(self@.subrange(i as int, n as int), x),
            decreases i,
        {
            i = i - 1;
            assert(self@.subrange(i as int, n as int).drop_first() =~= self@.subrange(
                i + 1,
                n as int,
            ));
            acc = self.coeffs[i].plus(x.times(acc));
        }
        assert(self@.subrange(0, n as int) =~= self@);
        acc
    }
}

} // verus!
