//! The constraint system: the gates of a circuit in order, and the
//! evaluation domain that indexes them.

use crate::constraint::Constraint;
use crate::domain::{
    is_domain_size_for, lemma_domain_size_monotone, lemma_domain_size_stable, EvaluationDomain,
    FftField,
};
use crate::error::ArithmetizationError;
use crate::gates::{lemma_residual_at_gate, GateConstraints};
use vstd::prelude::*;

verus! {

/// An append-only list of constraints with the smallest evaluation domain of
/// the field that has a point for each of them. Where the field has no
/// domain that large the system holds none, and finalization reports it.
#[derive(Debug)]
pub struct ConstraintSystem<F: FftField> {
    constraints: Vec<Constraint<F>>,
    domain: Option<EvaluationDomain<F>>,
}

impl<F: FftField> Clone for ConstraintSystem<F> {
    /// A system with the same constraints and the same domain.
    fn clone(&self) -> (system: Self)
        ensures
            system@ == self@,
            system.spec_domain() == self.spec_domain(),
    {
        let constraints = self.constraints.clone();
        assert(constraints@ =~= self.constraints@);
        ConstraintSystem { constraints, domain: self.domain }
    }
}

impl<F: FftField> View for ConstraintSystem<F> {
    type V = Seq<Constraint<F>>;

    /// The constraints, in the order in which they were added.
    closed spec fn view(&self) -> Seq<Constraint<F>> {
        self.constraints@
    }
}

impl<F: FftField> ConstraintSystem<F> {
    /// The domain of the system, if the field has one for it.
    pub closed spec fn spec_domain(&self) -> Option<EvaluationDomain<F>> {
        self.domain
    }

    /// The size of the system's domain.
    pub open spec fn spec_domain_size(&self) -> Option<nat> {
        match self.spec_domain() {
            Some(domain) => Some(domain.spec_size()),
            None => None,
        }
    }

    /// The domain is the smallest that the field constructs for the number
    /// of constraints, and is missing only where the field constructs none.
    pub open spec fn wf(&self) -> bool {
        is_domain_size_for::<F>(self@.len(), self.spec_domain_size())
    }

    /// The empty system, with the field's smallest domain.
    pub fn new() -> (system: Self)
        ensures
            system.wf(),
            system@ == Seq::<Constraint<F>>::empty(),
    {
        let domain = match EvaluationDomain::new(0) {
            Ok(domain) => Some(domain),
            Err(_) => None,
        };
        ConstraintSystem { constraints: Vec::new(), domain }
    }

    /// Appends a constraint. The domain is made anew only when the
    /// constraints have outgrown it, and never shrinks.
    pub fn add_constraint(&mut self, constraint: &Constraint<F>)
        requires
            old(self).wf(),
        ensures
            final(self).wf(),
            final(self)@ == old(self)@.push(*constraint),
            old(self).spec_domain_size() is None ==> final(self).spec_domain_size() is None,
            final(self).spec_domain_size() is Some ==> old(self).spec_domain_size() is Some
                && old(self).spec_domain_size()->0 <= final(self).spec_domain_size()->0,
    {
        let ghost before = self.spec_domain_size();
        let ghost n = self@.len();
        self.constraints.push(*constraint);
        let len = self.constraints.len();
        let outgrown = match &self.domain {
            Some(domain) => domain.size() < len,
            None => false,
        };
        if outgrown {
            self.domain = match EvaluationDomain::new(len) {
                Ok(domain) => Some(domain),
                Err(_) => None,
            };
            proof {
                lemma_domain_size_monotone::<F>(n, len as nat, before, self.spec_domain_size());
            }
        } else {
            proof {
                lemma_domain_size_stable::<F>(n, len as nat, before);
            }
        }
    }

    /// The number of constraints.
    pub fn len(&self) -> (n: usize)
        ensures
            n == self@.len(),
    {
        self.constraints.len()
    }

    /// The constraint at `index`. Fails with `IndexOutOfRange` exactly when
    /// `index` is not below the number of constraints.
    pub fn get_constraint(&self, index: usize) -> (r: Result<&Constraint<F>, ArithmetizationError>)
        ensures
            match r {
                Ok(constraint) => index < self@.len() && *constraint == self@[index as int],
                Err(e) => index >= self@.len() && e == ArithmetizationError::IndexOutOfRange,
            },
    {
        if index < self.constraints.len() {
            Ok(&self.constraints[index])
        } else {
            Err(ArithmetizationError::IndexOutOfRange)
        }
    }

    /// The domain, or `None` where the field has no domain for the number of
    /// constraints.
    pub fn domain(&self) -> (domain: Option<EvaluationDomain<F>>)
        ensures
            domain == self.spec_domain(),
    {
        self.domain
    }

    /// The size of the domain, or `None` where the field has no domain for
    /// the number of constraints.
    pub fn domain_size(&self) -> (size: Option<usize>)
        ensures
            match size {
                Some(s) => self.spec_domain_size() == Some(s as nat),
                None => self.spec_domain_size() is None,
            },
    {
        match &self.domain {
            Some(domain) => Some(domain.size()),
            None => None,
        }
    }

    /// The points of the domain, in order. Fails with
    /// `DomainConstructionError` exactly when the field has no domain for
    /// the number of constraints.
    pub fn domain_points(&self) -> (r: Result<Vec<F>, ArithmetizationError>)
        requires
            self.wf(),
        ensures
            match r {
                Ok(points) => self.spec_domain() is Some && points@ == self.spec_domain()->0@,
                Err(e) => self.spec_domain() is None && e
                    == ArithmetizationError::DomainConstructionError,
            },
    {
        match &self.domain {
            Some(domain) => Ok(domain.points()),
            None => Err(ArithmetizationError::DomainConstructionError),
        }
    }

    /// Finalizes the system: interpolates each of the eight channels over
    /// the domain. The polynomials are made from copies of the values, and
    /// the system is left as it was. Fails with `EmptySystemError` exactly
    /// when there is no constraint, and otherwise with
    /// `DomainConstructionError` exactly when the field has no domain for
    /// the number of constraints.
    pub fn finalize(&self) -> (r: Result<GateConstraints<F>, ArithmetizationError>)
        requires
            self.wf(),
        ensures
            match r {
                Ok(gates) => {
                    &&& self@.len() > 0
                    &&& self.spec_domain() is Some
                    &&& gates.encodes(self@, self.spec_domain()->0@)
                },
                Err(ArithmetizationError::EmptySystemError) => self@.len() == 0,
                Err(ArithmetizationError::DomainConstructionError) => self@.len() > 0
                    && self.spec_domain() is None,
                Err(ArithmetizationError::IndexOutOfRange) => false,
            },
    {
        if self.constraints.len() == 0 {
            return Err(ArithmetizationError::EmptySystemError);
        }
        match &self.domain {
            Some(domain) => Ok(GateConstraints::construct(&self.constraints, domain)),
            None => Err(ArithmetizationError::DomainConstructionError),
        }
    }

    /// The residual of gate `index` as the polynomials see it: the left-hand
    /// side of a gate's equation on the values of the eight polynomials at
    /// point `index` of the domain. It is the residual of the constraint
    /// itself, so it is the additive identity exactly when the constraint is
    /// satisfied. Fails with `IndexOutOfRange` exactly when `index` is not
    /// below the number of constraints, and otherwise with
    /// `DomainConstructionError` exactly when the field has no domain for
    /// the number of constraints.
    pub fn get_gate_constraints(&self, index: usize) -> (r: Result<F, ArithmetizationError>)
        requires
            self.wf(),
        ensures
            match r {
                Ok(residual) => {
                    &&& index < self@.len()
                    &&& self.spec_domain() is Some
                    &&& residual == self@[index as int].spec_residual()
                    &&& residual == F::spec_zero() <==> self@[index as int].satisfied()
                },
                Err(ArithmetizationError::IndexOutOfRange) => index >= self@.len(),
                Err(ArithmetizationError::DomainConstructionError) => index < self@.len()
                    && self.spec_domain() is None,
                Err(ArithmetizationError::EmptySystemError) => false,
            },
    {
        if index >= self.constraints.len() {
            return Err(ArithmetizationError::IndexOutOfRange);
        }
        match &self.domain {
            Some(domain) => {
                let gates = GateConstraints::construct(&self.constraints, domain);
                let points = domain.points();
                proof {
                    lemma_residual_at_gate(gates, self@, domain@, index as int);
                }
                Ok(gates.residual_at(points[index]))
            },
            None => Err(ArithmetizationError::DomainConstructionError),
        }
    }
}

} // verus!
