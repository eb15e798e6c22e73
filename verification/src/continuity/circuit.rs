//! The continuity circuits: what they allocate and enforce, and the proof
//! that an assignment satisfies them exactly where the continuity statement
//! holds of it.

use crate::circuit::{
    lemma_apply_hash3, lemma_apply_hash4, lemma_public_inputs_push, lemma_run_push,
    optional_value, public_inputs, run, shape, ConstraintPlan, GateView, SynthesisError,
};
use crate::continuity::schema::{
    commitment_hash_v2, commitment_v2, domain_sep_fr, domain_sep_v2_fr, ContinuityInstance,
    ContinuityInstanceV2Data,
    CONTINUITY_V1_DOMAIN_SEP, CONTINUITY_V2_DOMAIN_SEP,
};
use crate::field::{field_value, FieldElement};
use crate::poseidon::{
    commitment, commitment_hash, poseidon_params, standard_params, PoseidonParamsView,
    DOMAIN_COMMITMENT,
};
use vstd::prelude::*;

verus! {

/// The continuity circuit of the first schema.
#[derive(Clone, Copy, Debug, PartialEq, Eq)]
pub struct ContinuityCircuit {
    pub c1_hash: Option<FieldElement>,
    pub c2_hash: Option<FieldElement>,
    pub domain_sep: Option<FieldElement>,
    pub id: Option<FieldElement>,
    pub r1: Option<FieldElement>,
    pub r2: Option<FieldElement>,
}

/// The continuity circuit of the second schema.
#[derive(Clone, Copy, Debug, PartialEq, Eq)]
pub struct ContinuityCircuitV2 {
    pub c1_hash: Option<FieldElement>,
    pub c2_hash: Option<FieldElement>,
    pub domain_sep: Option<FieldElement>,
    pub ctx_hash: Option<FieldElement>,
    pub id: Option<FieldElement>,
    pub r1: Option<FieldElement>,
    pub r2: Option<FieldElement>,
}

/// What a continuity circuit of the first schema holds.
pub struct CircuitView {
    pub c1_hash: Option<nat>,
    pub c2_hash: Option<nat>,
    pub domain_sep: Option<nat>,
    pub id: Option<nat>,
    pub r1: Option<nat>,
    pub r2: Option<nat>,
}

/// What a continuity circuit of the second schema holds.
pub struct CircuitV2View {
    pub c1_hash: Option<nat>,
    pub c2_hash: Option<nat>,
    pub domain_sep: Option<nat>,
    pub ctx_hash: Option<nat>,
    pub id: Option<nat>,
    pub r1: Option<nat>,
    pub r2: Option<nat>,
}

impl View for ContinuityCircuit {
    type V = CircuitView;

    open spec fn view(&self) -> CircuitView {
        CircuitView {
            c1_hash: optional_value(self.c1_hash),
            c2_hash: optional_value(self.c2_hash),
            domain_sep: optional_value(self.domain_sep),
            id: optional_value(self.id),
            r1: optional_value(self.r1),
            r2: optional_value(self.r2),
        }
    }
}

impl View for ContinuityCircuitV2 {
    type V = CircuitV2View;

    open spec fn view(&self) -> CircuitV2View {
        CircuitV2View {
            c1_hash: optional_value(self.c1_hash),
            c2_hash: optional_value(self.c2_hash),
            domain_sep: optional_value(self.domain_sep),
            ctx_hash: optional_value(self.ctx_hash),
            id: optional_value(self.id),
            r1: optional_value(self.r1),
            r2: optional_value(self.r2),
        }
    }
}

/// The circuit of a continuity statement of the first schema.
pub open spec fn statement_circuit(
    c1_hash: nat,
    c2_hash: nat,
    domain_sep: nat,
    id: nat,
    r1: nat,
    r2: nat,
) -> CircuitView {
    CircuitView {
        c1_hash: Some(c1_hash),
        c2_hash: Some(c2_hash),
        domain_sep: Some(domain_sep),
        id: Some(id),
        r1: Some(r1),
        r2: Some(r2),
    }
}

/// The circuit of a continuity statement of the second schema.
pub open spec fn statement_circuit_v2(
    c1_hash: nat,
    c2_hash: nat,
    domain_sep: nat,
    ctx_hash: nat,
    id: nat,
    r1: nat,
    r2: nat,
) -> CircuitV2View {
    CircuitV2View {
        c1_hash: Some(c1_hash),
        c2_hash: Some(c2_hash),
        domain_sep: Some(domain_sep),
        ctx_hash: Some(ctx_hash),
        id: Some(id),
        r1: Some(r1),
        r2: Some(r2),
    }
}

impl Default for ContinuityCircuit {
    /// The circuit without assignments.
    fn default() -> (circuit: ContinuityCircuit)
        ensures
            circuit@ == (CircuitView {
                c1_hash: None,
                c2_hash: None,
                domain_sep: None,
                id: None,
                r1: None,
                r2: None,
            }),
    {
        ContinuityCircuit {
            c1_hash: None,
            c2_hash: None,
            domain_sep: None,
            id: None,
            r1: None,
            r2: None,
        }
    }
}

impl Default for ContinuityCircuitV2 {
    /// The circuit without assignments.
    fn default() -> (circuit: ContinuityCircuitV2)
        ensures
            circuit@ == (CircuitV2View {
                c1_hash: None,
                c2_hash: None,
                domain_sep: None,
                ctx_hash: None,
                id: None,
                r1: None,
                r2: None,
            }),
    {
        ContinuityCircuitV2 {
            c1_hash: None,
            c2_hash: None,
            domain_sep: None,
            ctx_hash: None,
            id: None,
            r1: None,
            r2: None,
        }
    }
}

impl CircuitView {
    /// Whether every variable has its value.
    pub open spec fn assigned(self) -> bool {
        &&& self.c1_hash is Some
        &&& self.c2_hash is Some
        &&& self.domain_sep is Some
        &&& self.id is Some
        &&& self.r1 is Some
        &&& self.r2 is Some
    }

    /// The continuity statement: both public hashes are commitments to one
    /// identity, and the domain separator is that of the first schema.
    pub open spec fn holds(self, params: PoseidonParamsView) -> bool {
        &&& self.c1_hash.unwrap() == commitment(params, self.id.unwrap(), self.r1.unwrap())
        &&& self.c2_hash.unwrap() == commitment(params, self.id.unwrap(), self.r2.unwrap())
        &&& self.domain_sep.unwrap() == field_value(CONTINUITY_V1_DOMAIN_SEP@)
    }

    /// The plan: three public inputs, three witnesses, the two commitments
    /// with their demands, the domain separator of the schema with its demand.
    pub open spec fn plan(self) -> Seq<GateView> {
        Seq::<GateView>::empty()
            .push(GateView::Input(self.c1_hash))
            .push(GateView::Input(self.c2_hash))
            .push(GateView::Input(self.domain_sep))
            .push(GateView::Witness(self.id))
            .push(GateView::Witness(self.r1))
            .push(GateView::Witness(self.r2))
            .push(GateView::Constant(DOMAIN_COMMITMENT as nat))
            .push(GateView::Hash(seq![6int, 3, 4]))
            .push(GateView::Hash(seq![6int, 3, 5]))
            .push(GateView::EnforceEqual { left: 7, right: 0 })
            .push(GateView::EnforceEqual { left: 8, right: 1 })
            .push(GateView::Constant(field_value(CONTINUITY_V1_DOMAIN_SEP@)))
            .push(GateView::EnforceEqual { left: 2, right: 11 })
    }
}

impl CircuitV2View {
    /// Whether every variable has its value.
    pub open spec fn assigned(self) -> bool {
        &&& self.c1_hash is Some
        &&& self.c2_hash is Some
        &&& self.domain_sep is Some
        &&& self.ctx_hash is Some
        &&& self.id is Some
        &&& self.r1 is Some
        &&& self.r2 is Some
    }

    /// The continuity statement of the second schema: both public hashes are
    /// commitments to one identity in the public context, and the domain
    /// separator is that of the second schema.
    pub open spec fn holds(self, params: PoseidonParamsView) -> bool {
        &&& self.c1_hash.unwrap() == commitment_v2(
            params,
            self.id.unwrap(),
            self.r1.unwrap(),
            self.ctx_hash.unwrap(),
        )
        &&& self.c2_hash.unwrap() == commitment_v2(
            params,
            self.id.unwrap(),
            self.r2.unwrap(),
            self.ctx_hash.unwrap(),
        )
        &&& self.domain_sep.unwrap() == field_value(CONTINUITY_V2_DOMAIN_SEP@)
    }

    /// The plan: four public inputs, three witnesses, the two commitments
    /// with their demands, the domain separator of the schema with its demand.
    pub open spec fn plan(self) -> Seq<GateView> {
        Seq::<GateView>::empty()
            .push(GateView::Input(self.c1_hash))
            .push(GateView::Input(self.c2_hash))
            .push(GateView::Input(self.domain_sep))
            .push(GateView::Input(self.ctx_hash))
            .push(GateView::Witness(self.id))
            .push(GateView::Witness(self.r1))
            .push(GateView::Witness(self.r2))
            .push(GateView::Constant(DOMAIN_COMMITMENT as nat))
            .push(GateView::Hash(seq![7int, 4, 5, 3]))
            .push(GateView::Hash(seq![7int, 4, 6, 3]))
            .push(GateView::EnforceEqual { left: 8, right: 0 })
            .push(GateView::EnforceEqual { left: 9, right: 1 })
            .push(GateView::Constant(field_value(CONTINUITY_V2_DOMAIN_SEP@)))
            .push(GateView::EnforceEqual { left: 2, right: 12 })
    }
}

impl ContinuityCircuit {
    /// Lays out the circuit: the three public inputs, in the order first
    /// hash, second hash, domain separator; the witnesses; both commitments
    /// and the demands that they be the public hashes; the demand that the
    /// domain separator be that of the first schema.
    pub fn generate_constraints(self) -> (res: Result<ConstraintPlan, SynthesisError>)
        ensures
            res matches Ok(plan) && plan@ == self@.plan(),
    {
        let mut plan = ConstraintPlan::new();
        let c1_hash = plan.input(self.c1_hash);
        let c2_hash = plan.input(self.c2_hash);
        let domain_sep = plan.input(self.domain_sep);
        let id = plan.witness(self.id);
        let r1 = plan.witness(self.r1);
        let r2 = plan.witness(self.r2);
        let domain_commitment = plan.constant(FieldElement::from_u64(DOMAIN_COMMITMENT));
        let expected_c1 = plan.hash3(domain_commitment, id, r1);
        let expected_c2 = plan.hash3(domain_commitment, id, r2);
        plan.enforce_equal(expected_c1, c1_hash);
        plan.enforce_equal(expected_c2, c2_hash);
        let domain_sep_const = plan.constant(domain_sep_fr());
        plan.enforce_equal(domain_sep, domain_sep_const);
        Ok(plan)
    }
}

impl ContinuityCircuitV2 {
    /// Lays out the circuit: the four public inputs, in the order first hash,
    /// second hash, domain separator, context; the witnesses; both
    /// commitments and the demands that they be the public hashes; the demand
    /// that the domain separator be that of the second schema.
    pub fn generate_constraints(self) -> (res: Result<ConstraintPlan, SynthesisError>)
        ensures
            res matches Ok(plan) && plan@ == self@.plan(),
    {
        let mut plan = ConstraintPlan::new();
        let c1_hash = plan.input(self.c1_hash);
        let c2_hash = plan.input(self.c2_hash);
        let domain_sep = plan.input(self.domain_sep);
        let ctx_hash = plan.input(self.ctx_hash);
        let id = plan.witness(self.id);
        let r1 = plan.witness(self.r1);
        let r2 = plan.witness(self.r2);
        let domain_commitment = plan.constant(FieldElement::from_u64(DOMAIN_COMMITMENT));
        let expected_c1 = plan.hash4(domain_commitment, id, r1, ctx_hash);
        let expected_c2 = plan.hash4(domain_commitment, id, r2, ctx_hash);
        plan.enforce_equal(expected_c1, c1_hash);
        plan.enforce_equal(expected_c2, c2_hash);
        let domain_sep_const = plan.constant(domain_sep_v2_fr());
        plan.enforce_equal(domain_sep, domain_sep_const);
        Ok(plan)
    }
}

/// The circuit of a validated record of the first schema.
pub fn build_circuit(instance: &ContinuityInstance) -> (circuit: ContinuityCircuit)
    ensures
        circuit@ == (CircuitView {
            c1_hash: Some(instance.public_inputs.c1_hash@),
            c2_hash: Some(instance.public_inputs.c2_hash@),
            domain_sep: Some(instance.public_inputs.domain_sep@),
            id: Some(instance.witness.id@),
            r1: Some(instance.witness.r1@),
            r2: Some(instance.witness.r2@),
        }),
{
    ContinuityCircuit {
        c1_hash: Some(instance.public_inputs.c1_hash),
        c2_hash: Some(instance.public_inputs.c2_hash),
        domain_sep: Some(instance.public_inputs.domain_sep),
        id: Some(instance.witness.id),
        r1: Some(instance.witness.r1),
        r2: Some(instance.witness.r2),
    }
}

/// The circuit of a validated record of the second schema.
pub fn build_circuit_v2(instance: &ContinuityInstanceV2Data) -> (circuit: ContinuityCircuitV2)
    ensures
        circuit@ == (CircuitV2View {
            c1_hash: Some(instance.public_inputs.c1_hash@),
            c2_hash: Some(instance.public_inputs.c2_hash@),
            domain_sep: Some(instance.public_inputs.domain_sep@),
            ctx_hash: Some(instance.public_inputs.ctx_hash@),
            id: Some(instance.witness.id@),
            r1: Some(instance.witness.r1@),
            r2: Some(instance.witness.r2@),
        }),
{
    ContinuityCircuitV2 {
        c1_hash: Some(instance.public_inputs.c1_hash),
        c2_hash: Some(instance.public_inputs.c2_hash),
        domain_sep: Some(instance.public_inputs.domain_sep),
        ctx_hash: Some(instance.public_inputs.ctx_hash),
        id: Some(instance.witness.id),
        r1: Some(instance.witness.r1),
        r2: Some(instance.witness.r2),
    }
}

/// The circuit that a key pair of the first schema is made from: identity
/// and blindings zero, both hashes the commitment to them, the domain
/// separator of the schema. It satisfies the statement.
pub fn setup_circuit() -> (circuit: ContinuityCircuit)
    ensures
        circuit@.assigned(),
        circuit@.holds(standard_params()),
        circuit@.id == Some(0nat),
        circuit@.r1 == Some(0nat),
        circuit@.r2 == Some(0nat),
{
    let params = poseidon_params();
    let zero = FieldElement::from_u64(0);
    let commitment = commitment_hash(&params, zero, zero);
    let domain_sep = domain_sep_fr();
    ContinuityCircuit {
        c1_hash: Some(commitment),
        c2_hash: Some(commitment),
        domain_sep: Some(domain_sep),
        id: Some(zero),
        r1: Some(zero),
        r2: Some(zero),
    }
}

/// The circuit that a key pair of the second schema is made from: identity,
/// blindings and context zero, both hashes the commitment to them, the domain
/// separator of the schema. It satisfies the statement.
pub fn setup_circuit_v2() -> (circuit: ContinuityCircuitV2)
    ensures
        circuit@.assigned(),
        circuit@.holds(standard_params()),
        circuit@.id == Some(0nat),
        circuit@.r1 == Some(0nat),
        circuit@.r2 == Some(0nat),
        circuit@.ctx_hash == Some(0nat),
{
    let params = poseidon_params();
    let zero = FieldElement::from_u64(0);
    let commitment = commitment_hash_v2(&params, zero, zero, zero);
    let domain_sep = domain_sep_v2_fr();
    ContinuityCircuitV2 {
        c1_hash: Some(commitment),
        c2_hash: Some(commitment),
        domain_sep: Some(domain_sep),
        ctx_hash: Some(zero),
        id: Some(zero),
        r1: Some(zero),
        r2: Some(zero),
    }
}

/// What the circuit of the first schema means. Its public inputs are, in the
/// order of their allocation, the first hash, the second hash and the domain
/// separator. Where every variable has its value, the plan has a trace, and
/// its demands are met exactly where the continuity statement holds. Where a
/// value is missing, the plan has no trace.
pub proof fn lemma_continuity_plan(params: PoseidonParamsView, c: CircuitView)
    ensures
        public_inputs(c.plan()) == seq![c.c1_hash, c.c2_hash, c.domain_sep],
        c.assigned() ==> (run(params, c.plan()) matches Some(trace) && trace.holds == c.holds(
            params,
        )),
        !c.assigned() ==> run(params, c.plan()) is None,
{
    let g0 = GateView::Input(c.c1_hash);
    let g1 = GateView::Input(c.c2_hash);
    let g2 = GateView::Input(c.domain_sep);
    let g3 = GateView::Witness(c.id);
    let g4 = GateView::Witness(c.r1);
    let g5 = GateView::Witness(c.r2);
    let g6 = GateView::Constant(DOMAIN_COMMITMENT as nat);
    let g7 = GateView::Hash(seq![6int, 3, 4]);
    let g8 = GateView::Hash(seq![6int, 3, 5]);
    let g9 = GateView::EnforceEqual { left: 7, right: 0 };
    let g10 = GateView::EnforceEqual { left: 8, right: 1 };
    let g11 = GateView::Constant(field_value(CONTINUITY_V1_DOMAIN_SEP@));
    let g12 = GateView::EnforceEqual { left: 2, right: 11 };
    let upto0 = Seq::<GateView>::empty();
    let upto1 = upto0.push(g0);
    let upto2 = upto1.push(g1);
    let upto3 = upto2.push(g2);
    let upto4 = upto3.push(g3);
    let upto5 = upto4.push(g4);
    let upto6 = upto5.push(g5);
    let upto7 = upto6.push(g6);
    let upto8 = upto7.push(g7);
    let upto9 = upto8.push(g8);
    let upto10 = upto9.push(g9);
    let upto11 = upto10.push(g10);
    let upto12 = upto11.push(g11);
    let upto13 = upto12.push(g12);
    assert(upto13 == c.plan());
    lemma_run_push(params, upto0, g0);
    lemma_run_push(params, upto1, g1);
    lemma_run_push(params, upto2, g2);
    lemma_run_push(params, upto3, g3);
    lemma_run_push(params, upto4, g4);
    lemma_run_push(params, upto5, g5);
    lemma_run_push(params, upto6, g6);
    lemma_run_push(params, upto7, g7);
    lemma_run_push(params, upto8, g8);
    lemma_run_push(params, upto9, g9);
    lemma_run_push(params, upto10, g10);
    lemma_run_push(params, upto11, g11);
    lemma_run_push(params, upto12, g12);
    lemma_public_inputs_push(upto0, g0);
    lemma_public_inputs_push(upto1, g1);
    lemma_public_inputs_push(upto2, g2);
    lemma_public_inputs_push(upto3, g3);
    lemma_public_inputs_push(upto4, g4);
    lemma_public_inputs_push(upto5, g5);
    lemma_public_inputs_push(upto6, g6);
    lemma_public_inputs_push(upto7, g7);
    lemma_public_inputs_push(upto8, g8);
    lemma_public_inputs_push(upto9, g9);
    lemma_public_inputs_push(upto10, g10);
    lemma_public_inputs_push(upto11, g11);
    lemma_public_inputs_push(upto12, g12);
    assert(public_inputs(upto13) =~= seq![c.c1_hash, c.c2_hash, c.domain_sep]);
    if c.assigned() {
        let t7 = run(params, upto7).unwrap();
        lemma_apply_hash3(params, t7, 6, 3, 4);
        let t8 = run(params, upto8).unwrap();
        lemma_apply_hash3(params, t8, 6, 3, 5);
    }
}

/// What the circuit of the second schema means. Its public inputs are, in the
/// order of their allocation, the first hash, the second hash, the domain
/// separator and the context. Where every variable has its value, the plan
/// has a trace, and its demands are met exactly where the continuity
/// statement holds. Where a value is missing, the plan has no trace.
pub proof fn lemma_continuity_v2_plan(params: PoseidonParamsView, c: CircuitV2View)
    ensures
        public_inputs(c.plan()) == seq![c.c1_hash, c.c2_hash, c.domain_sep, c.ctx_hash],
        c.assigned() ==> (run(params, c.plan()) matches Some(trace) && trace.holds == c.holds(
            params,
        )),
        !c.assigned() ==> run(params, c.plan()) is None,
{
    let g0 = GateView::Input(c.c1_hash);
    let g1 = GateView::Input(c.c2_hash);
    let g2 = GateView::Input(c.domain_sep);
    let g3 = GateView::Input(c.ctx_hash);
    let g4 = GateView::Witness(c.id);
    let g5 = GateView::Witness(c.r1);
    let g6 = GateView::Witness(c.r2);
    let g7 = GateView::Constant(DOMAIN_COMMITMENT as nat);
    let g8 = GateView::Hash(seq![7int, 4, 5, 3]);
    let g9 = GateView::Hash(seq![7int, 4, 6, 3]);
    let g10 = GateView::EnforceEqual { left: 8, right: 0 };
    let g11 = GateView::EnforceEqual { left: 9, right: 1 };
    let g12 = GateView::Constant(field_value(CONTINUITY_V2_DOMAIN_SEP@));
    let g13 = GateView::EnforceEqual { left: 2, right: 12 };
    let upto0 = Seq::<GateView>::empty();
    let upto1 = upto0.push(g0);
    let upto2 = upto1.push(g1);
    let upto3 = upto2.push(g2);
    let upto4 = upto3.push(g3);
    let upto5 = upto4.push(g4);
    let upto6 = upto5.push(g5);
    let upto7 = upto6.push(g6);
    let upto8 = upto7.push(g7);
    let upto9 = upto8.push(g8);
    let upto10 = upto9.push(g9);
    let upto11 = upto10.push(g10);
    let upto12 = upto11.push(g11);
    let upto13 = upto12.push(g12);
    let upto14 = upto13.push(g13);
    assert(upto14 == c.plan());
    lemma_run_push(params, upto0, g0);
    lemma_run_push(params, upto1, g1);
    lemma_run_push(params, upto2, g2);
    lemma_run_push(params, upto3, g3);
    lemma_run_push(params, upto4, g4);
    lemma_run_push(params, upto5, g5);
    lemma_run_push(params, upto6, g6);
    lemma_run_push(params, upto7, g7);
    lemma_run_push(params, upto8, g8);
    lemma_run_push(params, upto9, g9);
    lemma_run_push(params, upto10, g10);
    lemma_run_push(params, upto11, g11);
    lemma_run_push(params, upto12, g12);
    lemma_run_push(params, upto13, g13);
    lemma_public_inputs_push(upto0, g0);
    lemma_public_inputs_push(upto1, g1);
    lemma_public_inputs_push(upto2, g2);
    lemma_public_inputs_push(upto3, g3);
    lemma_public_inputs_push(upto4, g4);
    lemma_public_inputs_push(upto5, g5);
    lemma_public_inputs_push(upto6, g6);
    lemma_public_inputs_push(upto7, g7);
    lemma_public_inputs_push(upto8, g8);
    lemma_public_inputs_push(upto9, g9);
    lemma_public_inputs_push(upto10, g10);
    lemma_public_inputs_push(upto11, g11);
    lemma_public_inputs_push(upto12, g12);
    lemma_public_inputs_push(upto13, g13);
    assert(public_inputs(upto14) =~= seq![c.c1_hash, c.c2_hash, c.domain_sep, c.ctx_hash]);
    if c.assigned() {
        let t8 = run(params, upto8).unwrap();
        lemma_apply_hash4(params, t8, 7, 4, 5, 3);
        let t9 = run(params, upto9).unwrap();
        lemma_apply_hash4(params, t9, 7, 4, 6, 3);
    }
}

/// The plans of two continuity circuits of one schema have one shape,
/// whatever they assign: one key pair serves every statement of a schema.
pub proof fn lemma_one_shape(a: CircuitView, b: CircuitView, c: CircuitV2View, d: CircuitV2View)
    ensures
        shape(a.plan()) == shape(b.plan()),
        shape(c.plan()) == shape(d.plan()),
{
    assert(shape(a.plan()) =~= shape(b.plan()));
    assert(shape(c.plan()) =~= shape(d.plan()));
}

} // verus!
