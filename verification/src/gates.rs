//! The eight polynomials that encode a list of constraints over a domain.

use crate::constraint::{
    compute_gate_residual, gate_residual, lemma_zero_gate_residual, Channel, Constraint,
};
use crate::domain::{interpolates, EvaluationDomain, FftField};
use crate::field::Field;
use crate::polynomial::{eval, Polynomial};
use vstd::prelude::*;

verus! {

/// The values of one channel over a domain of `size` points: entry `i` is
/// the channel's value in constraint `i`, and the additive identity from the
/// end of the constraints on.
pub open spec fn padded_channel<F: Field>(
    constraints: Seq<Constraint<F>>,
    channel: Channel,
    size: nat,
) -> Seq<F> {
    Seq::new(
        size,
        |i: int|
            if i < constraints.len() {
                constraints[i].spec_channel(channel)
            } else {
                F::spec_zero()
            },
    )
}

/// The value sequences of the eight channels.
#[derive(Debug, PartialEq, Eq)]
pub struct ChannelValues<F: Field> {
    pub ql: Vec<F>,
    pub qr: Vec<F>,
    pub qo: Vec<F>,
    pub qm: Vec<F>,
    pub qc: Vec<F>,
    pub ax: Vec<F>,
    pub bx: Vec<F>,
    pub cx: Vec<F>,
}

impl<F: Field> ChannelValues<F> {
    /// The value sequence of a channel.
    pub open spec fn spec_channel(self, channel: Channel) -> Seq<F> {
        match channel {
            Channel::Ql => self.ql@,
            Channel::Qr => self.qr@,
            Channel::Qo => self.qo@,
            Channel::Qm => self.qm@,
            Channel::Qc => self.qc@,
            Channel::A => self.ax@,
            Channel::B => self.bx@,
            Channel::C => self.cx@,
        }
    }
}

/// The selector polynomials `ql`, `qr`, `qo`, `qm`, `qc` and the wire
/// polynomials `ax`, `bx`, `cx` of a closed constraint system. The value
/// owns its polynomials and cannot be changed.
#[derive(Debug, PartialEq, Eq)]
pub struct GateConstraints<F: FftField> {
    ql: Polynomial<F>,
    qr: Polynomial<F>,
    qo: Polynomial<F>,
    qm: Polynomial<F>,
    qc: Polynomial<F>,
    ax: Polynomial<F>,
    bx: Polynomial<F>,
    cx: Polynomial<F>,
}

impl<F: FftField> GateConstraints<F> {
    /// The coefficients of the polynomial of a channel, lowest degree first.
    pub closed spec fn spec_polynomial(self, channel: Channel) -> Seq<F> {
        match channel {
            Channel::Ql => self.ql@,
            Channel::Qr => self.qr@,
            Channel::Qo => self.qo@,
            Channel::Qm => self.qm@,
            Channel::Qc => self.qc@,
            Channel::A => self.ax@,
            Channel::B => self.bx@,
            Channel::C => self.cx@,
        }
    }

    /// The value of the polynomial of a channel at `x`.
    pub open spec fn value_at(self, channel: Channel, x: F) -> F {
        eval(self.spec_polynomial(channel), x)
    }

    /// The left-hand side of a gate's equation on the values of the eight
    /// polynomials at `x`.
    pub open spec fn spec_residual_at(self, x: F) -> F {
        gate_residual(
            self.value_at(Channel::Ql, x),
            self.value_at(Channel::Qr, x),
            self.value_at(Channel::Qo, x),
            self.value_at(Channel::Qm, x),
            self.value_at(Channel::Qc, x),
            self.value_at(Channel::A, x),
            self.value_at(Channel::B, x),
            self.value_at(Channel::C, x),
        )
    }

    /// Each of the eight polynomials is the interpolation over `domain` of
    /// its channel of `constraints`, padded with the additive identity.
    pub open spec fn encodes(self, constraints: Seq<Constraint<F>>, domain: Seq<F>) -> bool {
        forall|channel: Channel|
            interpolates(
                #[trigger] self.spec_polynomial(channel),
                domain,
                padded_channel(constraints, channel, domain.len()),
            )
    }

    /// Copies the eight channels out of the constraints, each as a sequence
    /// of `size` values: entry `i` is the value of constraint `i`, and the
    /// additive identity from the end of the constraints on.
    pub fn get_constraint_vecs(constraints: &Vec<Constraint<F>>, size: usize) -> (values:
        ChannelValues<F>)
        ensures
            forall|channel: Channel|
                #[trigger] values.spec_channel(channel) == padded_channel(
                    constraints@,
                    channel,
                    size as nat,
                ),
    {
        let len = constraints.len();
        let zero = F::zero();
        let mut ql: Vec<F> = Vec::new();
        let mut qr: Vec<F> = Vec::new();
        let mut qo: Vec<F> = Vec::new();
        let mut qm: Vec<F> = Vec::new();
        let mut qc: Vec<F> = Vec::new();
        let mut ax: Vec<F> = Vec::new();
        let mut bx: Vec<F> = Vec::new();
        let mut cx: Vec<F> = Vec::new();
        let mut i: usize = 0;
        while i < size
            invariant
                i <= size,
                len == constraints@.len(),
                zero == F::spec_zero(),
                ql@ =~= padded_channel(constraints@, Channel::Ql, i as nat),
                qr@ =~= padded_channel(constraints@, Channel::Qr, i as nat),
                qo@ =~= padded_channel(constraints@, Channel::Qo, i as nat),
                qm@ =~= padded_channel(constraints@, Channel::Qm, i as nat),
                qc@ =~= padded_channel(constraints@, Channel::Qc, i as nat),
                ax@ =~= padded_channel(constraints@, Channel::A, i as nat),
                bx@ =~= padded_channel(constraints@, Channel::B, i as nat),
                cx@ =~= padded_channel(constraints@, Channel::C, i as nat),
            decreases size - i,
        {
            if i < len {
                let c = &constraints[i];
                ql.push(c.ql);
                qr.push(c.qr);
                qo.push(c.qo);
                qm.push(c.qm);
                qc.push(c.qc);
                ax.push(c.ai);
                bx.push(c.bi);
                cx.push(c.ci);
            } else {
                ql.push(zero);
                qr.push(zero);
                qo.push(zero);
                qm.push(zero);
                qc.push(zero);
                ax.push(zero);
                bx.push(zero);
                cx.push(zero);
            }
            i = i + 1;
        }
        ChannelValues { ql, qr, qo, qm, qc, ax, bx, cx }
    }

    /// Interpolates each channel of the constraints over the domain.
    pub fn construct(constraints: &Vec<Constraint<F>>, domain: &EvaluationDomain<F>) -> (gates:
        Self)
        requires
            domain.wf(),
            0 < constraints@.len() <= domain@.len(),
        ensures
            gates.encodes(constraints@, domain@),
    {
        let values = Self::get_constraint_vecs(constraints, domain.size());
        proof {
            assert(values.spec_channel(Channel::Ql) == values.ql@);
            assert(values.spec_channel(Channel::Qr) == values.qr@);
            assert(values.spec_channel(Channel::Qo) == values.qo@);
            assert(values.spec_channel(Channel::Qm) == values.qm@);
            assert(values.spec_channel(Channel::Qc) == values.qc@);
            assert(values.spec_channel(Channel::A) == values.ax@);
            assert(values.spec_channel(Channel::B) == values.bx@);
            assert(values.spec_channel(Channel::C) == values.cx@);
        }
        let gates = GateConstraints {
            ql: domain.interpolate(&values.ql),
            qr: domain.interpolate(&values.qr),
            qo: domain.interpolate(&values.qo),
            qm: domain.interpolate(&values.qm),
            qc: domain.interpolate(&values.qc),
            ax: domain.interpolate(&values.ax),
            bx: domain.interpolate(&values.bx),
            cx: domain.interpolate(&values.cx),
        };
        gates
    }

    /// The polynomial of a channel.
    pub fn polynomial(&self, channel: Channel) -> (p: &Polynomial<F>)
        ensures
            p@ == self.spec_polynomial(channel),
    {
        match channel {
            Channel::Ql => &self.ql,
            Channel::Qr => &self.qr,
            Channel::Qo => &self.qo,
            Channel::Qm => &self.qm,
            Channel::Qc => &self.qc,
            Channel::A => &self.ax,
            Channel::B => &self.bx,
            Channel::C => &self.cx,
        }
    }

    /// The left-hand side of a gate's equation on the values of the eight
    /// polynomials at `x`.
    pub fn residual_at(&self, x: F) -> (r: F)
        ensures
            r == self.spec_residual_at(x),
    {
        compute_gate_residual(
            self.ql.evaluate(x),
            self.qr.evaluate(x),
            self.qo.evaluate(x),
            self.qm.evaluate(x),
            self.qc.evaluate(x),
            self.ax.evaluate(x),
            self.bx.evaluate(x),
            self.cx.evaluate(x),
        )
    }
}

/// Round trip: at point `i` of the domain, below the number of constraints,
/// each of the eight polynomials takes the value that constraint `i` has in
/// its channel.
pub proof fn lemma_round_trip<F: FftField>(
    gates: GateConstraints<F>,
    constraints: Seq<Constraint<F>>,
    domain: Seq<F>,
    channel: Channel,
    i: int,
)
    requires
        gates.encodes(constraints, domain),
        0 <= i < constraints.len() <= domain.len(),
    ensures
        gates.value_at(channel, domain[i]) == constraints[i].spec_channel(channel),
{
    assert(interpolates(
        gates.spec_polynomial(channel),
        domain,
        padded_channel(constraints, channel, domain.len()),
    ));
}

/// Beyond the constraints, each of the eight polynomials takes the additive
/// identity at the points of the domain.
pub proof fn lemma_padding_is_zero<F: FftField>(
    gates: GateConstraints<F>,
    constraints: Seq<Constraint<F>>,
    domain: Seq<F>,
    channel: Channel,
    i: int,
)
    requires
        gates.encodes(constraints, domain),
        constraints.len() <= i < domain.len(),
    ensures
        gates.value_at(channel, domain[i]) == F::spec_zero(),
{
    assert(interpolates(
        gates.spec_polynomial(channel),
        domain,
        padded_channel(constraints, channel, domain.len()),
    ));
}

/// The polynomial identity encodes the gates: at point `i` of the domain the
/// residual of the eight polynomials is the residual of constraint `i`.
pub proof fn lemma_residual_at_gate<F: FftField>(
    gates: GateConstraints<F>,
    constraints: Seq<Constraint<F>>,
    domain: Seq<F>,
    i: int,
)
    requires
        gates.encodes(constraints, domain),
        0 <= i < constraints.len() <= domain.len(),
    ensures
        gates.spec_residual_at(domain[i]) == constraints[i].spec_residual(),
{
    lemma_round_trip(gates, constraints, domain, Channel::Ql, i);
    lemma_round_trip(gates, constraints, domain, Channel::Qr, i);
    lemma_round_trip(gates, constraints, domain, Channel::Qo, i);
    lemma_round_trip(gates, constraints, domain, Channel::Qm, i);
    lemma_round_trip(gates, constraints, domain, Channel::Qc, i);
    lemma_round_trip(gates, constraints, domain, Channel::A, i);
    lemma_round_trip(gates, constraints, domain, Channel::B, i);
    lemma_round_trip(gates, constraints, domain, Channel::C, i);
}

/// Beyond the constraints the polynomial identity has nothing to say: at a
/// padded point of the domain the residual of the eight polynomials is the
/// additive identity.
pub proof fn lemma_residual_at_padding<F: FftField>(
    gates: GateConstraints<F>,
    constraints: Seq<Constraint<F>>,
    domain: Seq<F>,
    i: int,
)
    requires
        gates.encodes(constraints, domain),
        constraints.len() <= i < domain.len(),
    ensures
        gates.spec_residual_at(domain[i]) == F::spec_zero(),
{
    lemma_padding_is_zero(gates, constraints, domain, Channel::Ql, i);
    lemma_padding_is_zero(gates, constraints, domain, Channel::Qr, i);
    lemma_padding_is_zero(gates, constraints, domain, Channel::Qo, i);
    lemma_padding_is_zero(gates, constraints, domain, Channel::Qm, i);
    lemma_padding_is_zero(gates, constraints, domain, Channel::Qc, i);
    lemma_padding_is_zero(gates, constraints, domain, Channel::A, i);
    lemma_padding_is_zero(gates, constraints, domain, Channel::B, i);
    lemma_padding_is_zero(gates, constraints, domain, Channel::C, i);
    lemma_zero_gate_residual::<F>();
}

/// Where every constraint is satisfied, the residual of the eight
/// polynomials is the additive identity at every point of the domain.
pub proof fn lemma_identity_on_domain<F: FftField>(
    gates: GateConstraints<F>,
    constraints: Seq<Constraint<F>>,
    domain: Seq<F>,
    i: int,
)
    requires
        gates.encodes(constraints, domain),
        constraints.len() <= domain.len(),
        forall|k: int| 0 <= k < constraints.len() ==> (#[trigger] constraints[k]).satisfied(),
        0 <= i < domain.len(),
    ensures
        gates.spec_residual_at(domain[i]) == F::spec_zero(),
{
    if i < constraints.len() {
        lemma_residual_at_gate(gates, constraints, domain, i);
    } else {
        lemma_residual_at_padding(gates, constraints, domain, i);
    }
}

} // verus!
