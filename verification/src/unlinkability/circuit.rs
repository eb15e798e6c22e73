//! The unlinkability circuit: what it allocates and enforces, and the proof
//! that an assignment satisfies it exactly where the unlinkability statement
//! holds of it.

use crate::circuit::{
    lemma_apply_hash3, lemma_public_inputs_push, lemma_run_push, optional_value, public_inputs,
    run, shape, ConstraintPlan, GateView, SynthesisError,
};
use crate::field::{field_value, FieldElement};
use crate::poseidon::{
    commitment, commitment_hash, poseidon_params, standard_params, PoseidonParamsView,
    DOMAIN_COMMITMENT,
};
use crate::unlinkability::schema::{
    domain_sep_v2_fr, tag, tag_hash, UnlinkabilityInstanceV2Data, UNLINKABILITY_V2_DOMAIN_SEP,
};
use vstd::prelude::*;

verus! {

/// The unlinkability circuit.
#[derive(Clone, Copy, Debug, PartialEq, Eq)]
pub struct UnlinkabilityCircuitV2 {
    pub tag: Option<FieldElement>,
    pub domain_sep: Option<FieldElement>,
    pub ctx_hash: Option<FieldElement>,
    pub id: Option<FieldElement>,
    pub blinding: Option<FieldElement>,
}

/// What an unlinkability circuit holds.
pub struct CircuitView {
    pub tag: Option<nat>,
    pub domain_sep: Option<nat>,
    pub ctx_hash: Option<nat>,
    pub id: Option<nat>,
    pub blinding: Option<nat>,
}

impl View for UnlinkabilityCircuitV2 {
    type V = CircuitView;

    open spec fn view(&self) -> CircuitView {
        CircuitView {
            tag: optional_value(self.tag),
            domain_sep: optional_value(self.domain_sep),
            ctx_hash: optional_value(self.ctx_hash),
            id: optional_value(self.id),
            blinding: optional_value(self.blinding),
        }
    }
}

/// The circuit of an unlinkability statement.
pub open spec fn statement_circuit(
    tag: nat,
    domain_sep: nat,
    ctx_hash: nat,
    id: nat,
    blinding: nat,
) -> CircuitView {
    CircuitView {
        tag: Some(tag),
        domain_sep: Some(domain_sep),
        ctx_hash: Some(ctx_hash),
        id: Some(id),
        blinding: Some(blinding),
    }
}

impl Default for UnlinkabilityCircuitV2 {
    /// The circuit without assignments.
    fn default() -> (circuit: UnlinkabilityCircuitV2)
        ensures
            circuit@ == (CircuitView {
                tag: None,
                domain_sep: None,
                ctx_hash: None,
                id: None,
                blinding: None,
            }),
    {
        UnlinkabilityCircuitV2 {
            tag: None,
            domain_sep: None,
            ctx_hash: None,
            id: None,
            blinding: None,
        }
    }
}

impl CircuitView {
    /// Whether every variable has its value.
    pub open spec fn assigned(self) -> bool {
        &&& self.tag is Some
        &&& self.domain_sep is Some
        &&& self.ctx_hash is Some
        &&& self.id is Some
        &&& self.blinding is Some
    }

    /// The unlinkability statement: the tag is the hash of the domain
    /// separator, the context and the commitment to the identity, and the
    /// domain separator is that of the schema.
    pub open spec fn holds(self, params: PoseidonParamsView) -> bool {
        &&& self.tag.unwrap() == tag(
            params,
            self.domain_sep.unwrap(),
            self.ctx_hash.unwrap(),
            commitment(params, self.id.unwrap(), self.blinding.unwrap()),
        )
        &&& self.domain_sep.unwrap() == field_value(UNLINKABILITY_V2_DOMAIN_SEP@)
    }

    /// The plan: three public inputs, two witnesses, the commitment, the tag
    /// with its demand, the domain separator of the schema with its demand.
    pub open spec fn plan(self) -> Seq<GateView> {
        Seq::<GateView>::empty()
            .push(GateView::Input(self.tag))
            .push(GateView::Input(self.domain_sep))
            .push(GateView::Input(self.ctx_hash))
            .push(GateView::Witness(self.id))
            .push(GateView::Witness(self.blinding))
            .push(GateView::Constant(DOMAIN_COMMITMENT as nat))
            .push(GateView::Hash(seq![5int, 3, 4]))
            .push(GateView::Hash(seq![1int, 2, 6]))
            .push(GateView::EnforceEqual { left: 7, right: 0 })
            .push(GateView::Constant(field_value(UNLINKABILITY_V2_DOMAIN_SEP@)))
            .push(GateView::EnforceEqual { left: 1, right: 9 })
    }
}

impl UnlinkabilityCircuitV2 {
    /// Lays out the circuit: the three public inputs, in the order tag,
    /// domain separator, context; the witnesses; the commitment; the tag and
    /// the demand that it be the public one; the demand that the domain
    /// separator be that of the schema.
    pub fn generate_constraints(self) -> (res: Result<ConstraintPlan, SynthesisError>)
        ensures
            res matches Ok(plan) && plan@ == self@.plan(),
    {
        let mut plan = ConstraintPlan::new();
        let tag = plan.input(self.tag);
        let domain_sep = plan.input(self.domain_sep);
        let ctx_hash = plan.input(self.ctx_hash);
        let id = plan.witness(self.id);
        let blinding = plan.witness(self.blinding);
        let domain_commitment = plan.constant(FieldElement::from_u64(DOMAIN_COMMITMENT));
        let commitment = plan.hash3(domain_commitment, id, blinding);
        let computed_tag = plan.hash3(domain_sep, ctx_hash, commitment);
        plan.enforce_equal(computed_tag, tag);
        let domain_sep_const = plan.constant(domain_sep_v2_fr());
        plan.enforce_equal(domain_sep, domain_sep_const);
        Ok(plan)
    }
}

/// The circuit of a validated record.
pub fn build_circuit_v2(instance: &UnlinkabilityInstanceV2Data) -> (circuit:
    UnlinkabilityCircuitV2)
    ensures
        circuit@ == (CircuitView {
            tag: Some(instance.public_inputs.tag@),
            domain_sep: Some(instance.public_inputs.domain_sep@),
            ctx_hash: Some(instance.public_inputs.ctx_hash@),
            id: Some(instance.witness.id@),
            blinding: Some(instance.witness.blinding@),
        }),
{
    UnlinkabilityCircuitV2 {
        tag: Some(instance.public_inputs.tag),
        domain_sep: Some(instance.public_inputs.domain_sep),
        ctx_hash: Some(instance.public_inputs.ctx_hash),
        id: Some(instance.witness.id),
        blinding: Some(instance.witness.blinding),
    }
}

/// The circuit that a key pair is made from: identity, blinding and context
/// zero, the tag that belongs to them, the domain separator of the schema.
/// It satisfies the statement.
pub fn setup_circuit_v2() -> (circuit: UnlinkabilityCircuitV2)
    ensures
        circuit@.assigned(),
        circuit@.holds(standard_params()),
        circuit@.id == Some(0nat),
        circuit@.blinding == Some(0nat),
        circuit@.ctx_hash == Some(0nat),
{
    let params = poseidon_params();
    let zero = FieldElement::from_u64(0);
    let commitment = commitment_hash(&params, zero, zero);
    let domain_sep = domain_sep_v2_fr();
    let tag = tag_hash(&params, domain_sep, zero, commitment);
    UnlinkabilityCircuitV2 {
        tag: Some(tag),
        domain_sep: Some(domain_sep),
        ctx_hash: Some(zero),
        id: Some(zero),
        blinding: Some(zero),
    }
}

/// What the circuit means. Its public inputs are, in the order of their
/// allocation, the tag, the domain separator and the context. Where every
/// variable has its value, the plan has a trace, and its demands are met
/// exactly where the unlinkability statement holds. Where a value is
/// missing, the plan has no trace.
pub proof fn lemma_unlinkability_plan(params: PoseidonParamsView, c: CircuitView)
    ensures
        public_inputs(c.plan()) == seq![c.tag, c.domain_sep, c.ctx_hash],
        c.assigned() ==> (run(params, c.plan()) matches Some(trace) && trace.holds == c.holds(
            params,
        )),
        !c.assigned() ==> run(params, c.plan()) is None,
{
    let g0 = GateView::Input(c.tag);
    let g1 = GateView::Input(c.domain_sep);
    let g2 = GateView::Input(c.ctx_hash);
    let g3 = GateView::Witness(c.id);
    let g4 = GateView::Witness(c.blinding);
    let g5 = GateView::Constant(DOMAIN_COMMITMENT as nat);
    let g6 = GateView::Hash(seq![5int, 3, 4]);
    let g7 = GateView::Hash(seq![1int, 2, 6]);
    let g8 = GateView::EnforceEqual { left: 7, right: 0 };
    let g9 = GateView::Constant(field_value(UNLINKABILITY_V2_DOMAIN_SEP@));
    let g10 = GateView::EnforceEqual { left: 1, right: 9 };
    let upto0 = Seq::<GateView>::empty();
    let upto1 = upto0.push(g0);
    let upto2 = upto1.push(g1);
    let upto3 = upto2.push(g2);
    let upto4 = upto3.push(g3);
    let upto5 = upto4.push(g4);
    let upto6 = upto5.push(g5);
    let upto7 = upto6.push(g6);
    let upto8 = upto7.push(g7);
    let upto9 = upto8.push(g8);
    let upto10 = upto9.push(g9);
    let upto11 = upto10.push(g10);
    assert(upto11 == c.plan());
    lemma_run_push(params, upto0, g0);
    lemma_run_push(params, upto1, g1);
    lemma_run_push(params, upto2, g2);
    lemma_run_push(params, upto3, g3);
    lemma_run_push(params, upto4, g4);
    lemma_run_push(params, upto5, g5);
    lemma_run_push(params, upto6, g6);
    lemma_run_push(params, upto7, g7);
    lemma_run_push(params, upto8, g8);
    lemma_run_push(params, upto9, g9);
    lemma_run_push(params, upto10, g10);
    lemma_public_inputs_push(upto0, g0);
    lemma_public_inputs_push(upto1, g1);
    lemma_public_inputs_push(upto2, g2);
    lemma_public_inputs_push(upto3, g3);
    lemma_public_inputs_push(upto4, g4);
    lemma_public_inputs_push(upto5, g5);
    lemma_public_inputs_push(upto6, g6);
    lemma_public_inputs_push(upto7, g7);
    lemma_public_inputs_push(upto8, g8);
    lemma_public_inputs_push(upto9, g9);
    lemma_public_inputs_push(upto10, g10);
    assert(public_inputs(upto11) =~= seq![c.tag, c.domain_sep, c.ctx_hash]);
    if c.assigned() {
        let t6 = run(params, upto6).unwrap();
        lemma_apply_hash3(params, t6, 5, 3, 4);
        let t7 = run(params, upto7).unwrap();
        lemma_apply_hash3(params, t7, 1, 2, 6);
    }
}

/// The plans of two unlinkability circuits have one shape, whatever they
/// assign: one key pair serves every statement.
pub proof fn lemma_one_shape(a: CircuitView, b: CircuitView)
    ensures
        shape(a.plan()) == shape(b.plan()),
{
    assert(shape(a.plan()) =~= shape(b.plan()));
}

} // verus!
