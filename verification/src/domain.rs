//! Evaluation domains: the points at which gate values are sampled.

use crate::error::ArithmetizationError;
use crate::field::Field;
use crate::polynomial::{eval, Polynomial};
use core::marker::PhantomData;
use vstd::prelude::*;

verus! {

/// A field with a scheme of evaluation domains.
///
/// The scheme constructs a domain for some sizes and for no others. A domain
/// is determined by its size: it is the sequence of points `domain_point(size,
/// 0)`, ..., `domain_point(size, size - 1)`. A size counts only if it is a
/// `usize`.
pub trait FftField: Field {
    /// Whether the scheme constructs a domain of exactly `size` points.
    spec fn constructible(size: nat) -> bool;

    /// The point at `index` in the domain of `size` points.
    spec fn domain_point(size: nat, index: nat) -> Self;

    /// The size of the smallest domain with at least `min_size` points, or
    /// `None` where the scheme constructs no domain that large.
    fn domain_size(min_size: usize) -> (r: Option<usize>)
        ensures
            match r {
                Some(size) => {
                    &&& Self::constructible(size as nat)
                    &&& size >= min_size
                    &&& forall|t: nat| Self::constructible(t) && t >= min_size ==> size <= t
                },
                None => forall|t: nat|
                    Self::constructible(t) && t <= usize::MAX ==> t < min_size,
            },
    ;

    /// The points of the domain of `size` points, in order.
    fn domain_points(size: usize) -> (points: Vec<Self>)
        requires
            Self::constructible(size as nat),
        ensures
            points@.len() == size,
            forall|i: int|
                0 <= i < size ==> #[trigger] points@[i] == Self::domain_point(
                    size as nat,
                    i as nat,
                ),
    ;

    /// The coefficients of the polynomial of degree below `values.len()` that
    /// takes the value `values[i]` at point `i` of the domain of
    /// `values.len()` points. The leading coefficient, if there is one, is
    /// not zero.
    fn interpolate(values: &Vec<Self>) -> (coeffs: Vec<Self>)
        requires
            Self::constructible(values@.len()),
        ensures
            coeffs@.len() <= values@.len(),
            coeffs@.len() > 0 ==> coeffs@.last() != Self::spec_zero(),
            forall|i: int|
                0 <= i < values@.len() ==> eval(
                    coeffs@,
                    Self::domain_point(values@.len(), i as nat),
                ) == #[trigger] values@[i],
    ;
}

/// `size` is the least constructible domain size that is at least `min_size`.
pub open spec fn is_least_domain_size<F: FftField>(min_size: nat, size: nat) -> bool {
    &&& F::constructible(size)
    &&& min_size <= size <= usize::MAX
    &&& forall|t: nat| F::constructible(t) && t >= min_size ==> size <= t
}

/// The scheme of `F` constructs no domain of `min_size` points or more.
pub open spec fn no_domain_size<F: FftField>(min_size: nat) -> bool {
    forall|t: nat| F::constructible(t) && t <= usize::MAX ==> t < min_size
}

/// `size` is what the scheme of `F` answers for `min_size`: the least
/// constructible size that is large enough, or nothing where there is none.
pub open spec fn is_domain_size_for<F: FftField>(min_size: nat, size: Option<nat>) -> bool {
    match size {
        Some(s) => is_least_domain_size::<F>(min_size, s),
        None => no_domain_size::<F>(min_size),
    }
}

/// The least domain size for a given minimum is unique.
pub proof fn lemma_domain_size_unique<F: FftField>(min_size: nat, a: Option<nat>, b: Option<nat>)
    requires
        is_domain_size_for::<F>(min_size, a),
        is_domain_size_for::<F>(min_size, b),
    ensures
        a == b,
{
}

/// The domain size never shrinks as the minimum grows: a larger minimum has
/// a domain at least as large, or none at all once a smaller one has none.
pub proof fn lemma_domain_size_monotone<F: FftField>(
    n: nat,
    m: nat,
    for_n: Option<nat>,
    for_m: Option<nat>,
)
    requires
        n <= m,
        is_domain_size_for::<F>(n, for_n),
        is_domain_size_for::<F>(m, for_m),
    ensures
        for_n is None ==> for_m is None,
        for_m is Some ==> for_n is Some && for_n->0 <= for_m->0,
{
}

/// A size that is large enough for `m` and least for some `n <= m` is least
/// for `m` too: the domain only changes when a minimum outgrows it.
pub proof fn lemma_domain_size_stable<F: FftField>(n: nat, m: nat, for_n: Option<nat>)
    requires
        n <= m,
        is_domain_size_for::<F>(n, for_n),
        for_n is Some ==> m <= for_n->0,
    ensures
        is_domain_size_for::<F>(m, for_n),
{
}

/// An evaluation domain of the field `F`: a finite sequence of points in a
/// fixed order. It is determined by its size, and never changes.
#[derive(Debug, PartialEq, Eq)]
pub struct EvaluationDomain<F: FftField> {
    size: usize,
    field: PhantomData<F>,
}

impl<F: FftField> Clone for EvaluationDomain<F> {
    fn clone(&self) -> (d: Self)
        ensures
            d == *self,
    {
        *self
    }
}

impl<F: FftField> Copy for EvaluationDomain<F> {

}

impl<F: FftField> View for EvaluationDomain<F> {
    type V = Seq<F>;

    /// The points of the domain, in order.
    open spec fn view(&self) -> Seq<F> {
        Seq::new(self.spec_size(), |i: int| F::domain_point(self.spec_size(), i as nat))
    }
}

impl<F: FftField> EvaluationDomain<F> {
    /// The number of points.
    pub closed spec fn spec_size(&self) -> nat {
        self.size as nat
    }

    /// The scheme of `F` constructs a domain of this size.
    pub open spec fn wf(&self) -> bool {
        F::constructible(self.spec_size())
    }

    /// The smallest domain of `F` with at least `min_size` points. Fails
    /// with `DomainConstructionError` exactly when the field has no domain
    /// that large.
    pub fn new(min_size: usize) -> (r: Result<Self, ArithmetizationError>)
        ensures
            match r {
                Ok(domain) => domain.wf() && is_least_domain_size::<F>(
                    min_size as nat,
                    domain.spec_size(),
                ),
                Err(e) => e == ArithmetizationError::DomainConstructionError && no_domain_size::<F>(
                    min_size as nat,
                ),
            },
    {
        match F::domain_size(min_size) {
            Some(size) => Ok(EvaluationDomain { size, field: PhantomData }),
            None => Err(ArithmetizationError::DomainConstructionError),
        }
    }

    /// The number of points.
    pub fn size(&self) -> (n: usize)
        ensures
            n == self.spec_size(),
            n == self@.len(),
    {
        self.size
    }

    /// The points of the domain, in order.
    pub fn points(&self) -> (points: Vec<F>)
        requires
            self.wf(),
        ensures
            points@ == self@,
    {
        let points = F::domain_points(self.size);
        assert(points@ =~= self@);
        points
    }

    /// The polynomial of degree below the domain's size that takes the value
    /// `values[i]` at point `i` of the domain.
    pub fn interpolate(&self, values: &Vec<F>) -> (p: Polynomial<F>)
        requires
            self.wf(),
            values@.len() == self.spec_size(),
        ensures
            interpolates(p@, self@, values@),
    {
        Polynomial::from_coefficients(F::interpolate(values))
    }
}

/// The polynomial with coefficients `coeffs` has degree below the number of
/// `points`, a leading coefficient that is not zero, and the value
/// `values[i]` at `points[i]`.
pub open spec fn interpolates<F: Field>(coeffs: Seq<F>, points: Seq<F>, values: Seq<F>) -> bool {
    &&& points.len() == values.len()
    &&& coeffs.len() <= points.len()
    &&& coeffs.len() > 0 ==> coeffs.last() != F::spec_zero()
    &&& forall|i: int| 0 <= i < points.len() ==> eval(coeffs, #[trigger] points[i]) == values[i]
}

/// Two domains of the same field and size have the same points.
pub proof fn lemma_domain_determined_by_size<F: FftField>(
    a: EvaluationDomain<F>,
    b: EvaluationDomain<F>,
)
    requires
        a.spec_size() == b.spec_size(),
    ensures
        a@ == b@,
{
}

} // verus!
