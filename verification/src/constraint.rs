//! One gate of a circuit: five selector values and three wire values.

use crate::field::Field;
use vstd::prelude::*;

verus! {

/// The eight values that a gate contributes, one to each polynomial.
#[derive(Clone, Copy, Debug, PartialEq, Eq, Structural)]
pub enum Channel {
    /// The selector of the left wire.
    Ql,
    /// The selector of the right wire.
    Qr,
    /// The selector of the output wire.
    Qo,
    /// The selector of the product of the left and right wires.
    Qm,
    /// The constant selector.
    Qc,
    /// The left wire.
    A,
    /// The right wire.
    B,
    /// The output wire.
    C,
}

/// The left-hand side of a gate's equation:
/// `ql * a + qr * b + qo * c + qm * a * b + qc`.
pub open spec fn gate_residual<F: Field>(ql: F, qr: F, qo: F, qm: F, qc: F, a: F, b: F, c: F) -> F {
    ql.spec_times(a).spec_plus(qr.spec_times(b)).spec_plus(qo.spec_times(c)).spec_plus(
        qm.spec_times(a).spec_times(b),
    ).spec_plus(qc)
}

/// Computes the left-hand side of a gate's equation.
pub fn compute_gate_residual<F: Field>(ql: F, qr: F, qo: F, qm: F, qc: F, a: F, b: F, c: F) -> (r: F)
    ensures
        r == gate_residual(ql, qr, qo, qm, qc, a, b, c),
{
    ql.times(a).plus(qr.times(b)).plus(qo.times(c)).plus(qm.times(a).times(b)).plus(qc)
}

/// A gate whose eight values are the additive identity has the additive
/// identity as its residual.
pub proof fn lemma_zero_gate_residual<F: Field>()
    ensures
        gate_residual(
            F::spec_zero(),
            F::spec_zero(),
            F::spec_zero(),
            F::spec_zero(),
            F::spec_zero(),
            F::spec_zero(),
            F::spec_zero(),
            F::spec_zero(),
        ) == F::spec_zero(),
{
    F::lemma_zero_plus_zero();
    F::lemma_zero_times_zero();
}

/// The algebraic description of one gate. Nothing is asked of the values:
/// a constraint may be unsatisfied.
#[derive(Debug, PartialEq, Eq)]
pub struct Constraint<F: Field> {
    pub ql: F,
    pub qr: F,
    pub qo: F,
    pub qm: F,
    pub qc: F,
    pub ai: F,
    pub bi: F,
    pub ci: F,
}

impl<F: Field> Clone for Constraint<F> {
    fn clone(&self) -> (c: Self)
        ensures
            c == *self,
    {
        *self
    }
}

impl<F: Field> Copy for Constraint<F> {

}

impl<F: Field> Constraint<F> {
    /// The constraint with the given selectors and wire values.
    pub fn new(ql: F, qr: F, qo: F, qm: F, qc: F, ai: F, bi: F, ci: F) -> (c: Self)
        ensures
            c == (Constraint { ql, qr, qo, qm, qc, ai, bi, ci }),
    {
        Constraint { ql, qr, qo, qm, qc, ai, bi, ci }
    }

    /// The value that the constraint contributes to a channel.
    pub open spec fn spec_channel(self, channel: Channel) -> F {
        match channel {
            Channel::Ql => self.ql,
            Channel::Qr => self.qr,
            Channel::Qo => self.qo,
            Channel::Qm => self.qm,
            Channel::Qc => self.qc,
            Channel::A => self.ai,
            Channel::B => self.bi,
            Channel::C => self.ci,
        }
    }

    /// The value that the constraint contributes to a channel.
    pub fn channel(&self, channel: Channel) -> (v: F)
        ensures
            v == self.spec_channel(channel),
    {
        match channel {
            Channel::Ql => self.ql,
            Channel::Qr => self.qr,
            Channel::Qo => self.qo,
            Channel::Qm => self.qm,
            Channel::Qc => self.qc,
            Channel::A => self.ai,
            Channel::B => self.bi,
            Channel::C => self.ci,
        }
    }

    /// The left-hand side of a gate's equation on the constraint's values.
    pub open spec fn spec_residual(self) -> F {
        gate_residual(self.ql, self.qr, self.qo, self.qm, self.qc, self.ai, self.bi, self.ci)
    }

    /// The constraint satisfies its equation: the residual is the additive identity.
    pub open spec fn satisfied(self) -> bool {
        self.spec_residual() == F::spec_zero()
    }

    /// The left-hand side of a gate's equation on the constraint's values.
    pub fn residual(&self) -> (r: F)
        ensures
            r == self.spec_residual(),
    {
        compute_gate_residual(
            self.ql,
            self.qr,
            self.qo,
            self.qm,
            self.qc,
            self.ai,
            self.bi,
            self.ci,
        )
    }

    /// Whether the constraint satisfies its equation.
    pub fn is_satisfied(&self) -> (b: bool)
        ensures
            b == self.satisfied(),
    {
        self.residual().equals(F::zero())
    }
}

} // verus!
