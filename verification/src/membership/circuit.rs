//! The membership circuits: what they allocate and enforce, and the proof
//! that an assignment satisfies them exactly where the membership statement
//! holds of it.

use crate::circuit::{
    element_at, lemma_apply_hash3, lemma_public_inputs_push, lemma_run_push, lemma_run_wires,
    lemma_shape_push, optional_value, public_inputs, run, shape, ConstraintPlan, GateView,
    SynthesisError,
};
use crate::field::{field_value, FieldElement};
use crate::membership::schema::{
    membership_v2_domain_sep_fr, MembershipInstance, MembershipInstanceV2,
    MEMBERSHIP_V2_DOMAIN_SEP,
};
use crate::merkle::{merkle_root, parent, path_values};
use crate::poseidon::{
    commitment, commitment_hash, leaf, leaf_v2, poseidon_params, standard_params,
    PoseidonParamsView, DOMAIN_COMMITMENT, DOMAIN_LEAF, DOMAIN_NODE,
};
use vstd::prelude::*;

verus! {

/// The membership circuit of the first two schemas.
#[derive(Clone, Debug, PartialEq, Eq)]
pub struct MembershipCircuit {
    pub root: Option<FieldElement>,
    pub commitment: Option<FieldElement>,
    pub identity_scalar: Option<FieldElement>,
    pub blinding: Option<FieldElement>,
    pub expected_depth: usize,
    /// From the leaf upwards; `true` puts the sibling on the left.
    pub merkle_path: Vec<(Option<FieldElement>, Option<bool>)>,
}

/// The membership circuit of the second versioned schema.
#[derive(Clone, Debug, PartialEq, Eq)]
pub struct MembershipCircuitV2 {
    pub root: Option<FieldElement>,
    pub commitment: Option<FieldElement>,
    pub domain_sep: Option<FieldElement>,
    pub ctx_hash: Option<FieldElement>,
    pub identity_scalar: Option<FieldElement>,
    pub blinding: Option<FieldElement>,
    pub expected_depth: usize,
    /// From the leaf upwards; `true` puts the sibling on the left.
    pub merkle_path: Vec<(Option<FieldElement>, Option<bool>)>,
}

/// A path that may lack assignments, as values.
pub open spec fn steps(path: Seq<(Option<FieldElement>, Option<bool>)>) -> Seq<
    (Option<nat>, Option<bool>),
> {
    Seq::new(path.len(), |i: int| (optional_value(path[i].0), path[i].1))
}

/// What a membership circuit holds.
pub struct CircuitView {
    pub root: Option<nat>,
    pub commitment: Option<nat>,
    pub identity_scalar: Option<nat>,
    pub blinding: Option<nat>,
    pub expected_depth: nat,
    pub merkle_path: Seq<(Option<nat>, Option<bool>)>,
}

/// What a membership circuit of the second versioned schema holds.
pub struct CircuitV2View {
    pub root: Option<nat>,
    pub commitment: Option<nat>,
    pub domain_sep: Option<nat>,
    pub ctx_hash: Option<nat>,
    pub identity_scalar: Option<nat>,
    pub blinding: Option<nat>,
    pub expected_depth: nat,
    pub merkle_path: Seq<(Option<nat>, Option<bool>)>,
}

impl View for MembershipCircuit {
    type V = CircuitView;

    open spec fn view(&self) -> CircuitView {
        CircuitView {
            root: optional_value(self.root),
            commitment: optional_value(self.commitment),
            identity_scalar: optional_value(self.identity_scalar),
            blinding: optional_value(self.blinding),
            expected_depth: self.expected_depth as nat,
            merkle_path: steps(self.merkle_path@),
        }
    }
}

impl View for MembershipCircuitV2 {
    type V = CircuitV2View;

    open spec fn view(&self) -> CircuitV2View {
        CircuitV2View {
            root: optional_value(self.root),
            commitment: optional_value(self.commitment),
            domain_sep: optional_value(self.domain_sep),
            ctx_hash: optional_value(self.ctx_hash),
            identity_scalar: optional_value(self.identity_scalar),
            blinding: optional_value(self.blinding),
            expected_depth: self.expected_depth as nat,
            merkle_path: steps(self.merkle_path@),
        }
    }
}

impl Default for MembershipCircuit {
    /// The circuit without assignments and without levels.
    fn default() -> (circuit: MembershipCircuit)
        ensures
            circuit@ == (CircuitView {
                root: None,
                commitment: None,
                identity_scalar: None,
                blinding: None,
                expected_depth: 0,
                merkle_path: Seq::empty(),
            }),
    {
        let circuit = MembershipCircuit {
            root: None,
            commitment: None,
            identity_scalar: None,
            blinding: None,
            expected_depth: 0,
            merkle_path: Vec::new(),
        };
        assert(steps(circuit.merkle_path@) =~= Seq::empty());
        circuit
    }
}

impl Default for MembershipCircuitV2 {
    /// The circuit without assignments and without levels.
    fn default() -> (circuit: MembershipCircuitV2)
        ensures
            circuit@ == (CircuitV2View {
                root: None,
                commitment: None,
                domain_sep: None,
                ctx_hash: None,
                identity_scalar: None,
                blinding: None,
                expected_depth: 0,
                merkle_path: Seq::empty(),
            }),
    {
        let circuit = MembershipCircuitV2 {
            root: None,
            commitment: None,
            domain_sep: None,
            ctx_hash: None,
            identity_scalar: None,
            blinding: None,
            expected_depth: 0,
            merkle_path: Vec::new(),
        };
        assert(steps(circuit.merkle_path@) =~= Seq::empty());
        circuit
    }
}

/// The circuit of a membership statement of the first two schemas.
pub open spec fn statement_circuit(
    root: nat,
    commitment: nat,
    identity_scalar: nat,
    blinding: nat,
    path: Seq<(nat, bool)>,
) -> CircuitView {
    CircuitView {
        root: Some(root),
        commitment: Some(commitment),
        identity_scalar: Some(identity_scalar),
        blinding: Some(blinding),
        expected_depth: path.len(),
        merkle_path: Seq::new(path.len(), |i: int| (Some(path[i].0), Some(path[i].1))),
    }
}

/// The circuit of a membership statement of the second versioned schema.
pub open spec fn statement_circuit_v2(
    root: nat,
    commitment: nat,
    domain_sep: nat,
    ctx_hash: nat,
    identity_scalar: nat,
    blinding: nat,
    path: Seq<(nat, bool)>,
) -> CircuitV2View {
    CircuitV2View {
        root: Some(root),
        commitment: Some(commitment),
        domain_sep: Some(domain_sep),
        ctx_hash: Some(ctx_hash),
        identity_scalar: Some(identity_scalar),
        blinding: Some(blinding),
        expected_depth: path.len(),
        merkle_path: Seq::new(path.len(), |i: int| (Some(path[i].0), Some(path[i].1))),
    }
}

/// Whether every level of a path has its sibling and its side.
pub open spec fn path_assigned(path: Seq<(Option<nat>, Option<bool>)>) -> bool {
    forall|i: int| 0 <= i < path.len() ==> (#[trigger] path[i]).0 is Some && path[i].1 is Some
}

/// The path that a fully assigned list of levels holds.
pub open spec fn assigned_path(path: Seq<(Option<nat>, Option<bool>)>) -> Seq<(nat, bool)> {
    Seq::new(path.len(), |i: int| (path[i].0.unwrap(), path[i].1.unwrap()))
}

/// The gates of one level above the plan `below`, whose last wire bears the
/// node reached so far: the sibling, its side, the two children in their
/// order, and the node above them.
pub open spec fn level(
    below: Seq<GateView>,
    node_tag: int,
    step: (Option<nat>, Option<bool>),
) -> Seq<GateView> {
    let current = below.len() - 1;
    let sibling = below.len() as int;
    let flag = sibling + 1;
    below
        .push(GateView::Witness(step.0))
        .push(GateView::BooleanWitness(step.1))
        .push(GateView::Select { flag, if_set: sibling, if_clear: current })
        .push(GateView::Select { flag, if_set: current, if_clear: sibling })
        .push(GateView::Hash(seq![node_tag, sibling + 2, sibling + 3]))
}

/// The plan `start` followed by the gates of every level of a path.
pub open spec fn climb(
    start: Seq<GateView>,
    node_tag: int,
    path: Seq<(Option<nat>, Option<bool>)>,
) -> Seq<GateView>
    decreases path.len(),
{
    if path.len() == 0 {
        start
    } else {
        level(climb(start, node_tag, path.drop_last()), node_tag, path.last())
    }
}

impl CircuitView {
    /// Whether the path has the declared depth and the depth is positive.
    pub open spec fn well_shaped(self) -> bool {
        self.expected_depth != 0 && self.merkle_path.len() == self.expected_depth
    }

    /// Whether every variable has its value.
    pub open spec fn assigned(self) -> bool {
        &&& self.root is Some
        &&& self.commitment is Some
        &&& self.identity_scalar is Some
        &&& self.blinding is Some
        &&& path_assigned(self.merkle_path)
    }

    /// The membership statement: the commitment hides the identity under the
    /// blinding, and the path leads from the leaf of the commitment to the root.
    pub open spec fn holds(self, params: PoseidonParamsView) -> bool {
        &&& self.commitment.unwrap() == commitment(
            params,
            self.identity_scalar.unwrap(),
            self.blinding.unwrap(),
        )
        &&& self.root.unwrap() == merkle_root(
            params,
            leaf(params, self.commitment.unwrap()),
            assigned_path(self.merkle_path),
        )
    }

    /// The gates up to the leaf: public inputs, witnesses, the three domain
    /// tags and zero, the commitment with its demand, the leaf.
    pub open spec fn head(self) -> Seq<GateView> {
        Seq::<GateView>::empty()
            .push(GateView::Input(self.root))
            .push(GateView::Input(self.commitment))
            .push(GateView::Witness(self.identity_scalar))
            .push(GateView::Witness(self.blinding))
            .push(GateView::Constant(DOMAIN_COMMITMENT as nat))
            .push(GateView::Constant(DOMAIN_LEAF as nat))
            .push(GateView::Constant(DOMAIN_NODE as nat))
            .push(GateView::Constant(0))
            .push(GateView::Hash(seq![4int, 2, 3]))
            .push(GateView::EnforceEqual { left: 8, right: 1 })
            .push(GateView::Hash(seq![5int, 8, 7]))
    }

    /// The whole plan: the head, the levels of the path, and the demand that
    /// the last node be the root.
    pub open spec fn plan(self) -> Seq<GateView> {
        let body = climb(self.head(), 6, self.merkle_path);
        body.push(GateView::EnforceEqual { left: body.len() - 1, right: 0 })
    }
}

impl CircuitV2View {
    /// Whether the path has the declared depth and the depth is positive.
    pub open spec fn well_shaped(self) -> bool {
        self.expected_depth != 0 && self.merkle_path.len() == self.expected_depth
    }

    /// Whether every variable has its value.
    pub open spec fn assigned(self) -> bool {
        &&& self.root is Some
        &&& self.commitment is Some
        &&& self.domain_sep is Some
        &&& self.ctx_hash is Some
        &&& self.identity_scalar is Some
        &&& self.blinding is Some
        &&& path_assigned(self.merkle_path)
    }

    /// The membership statement of the second versioned schema: the
    /// commitment hides the identity under the blinding, the domain separator
    /// is that of the schema, and the path leads from the leaf that binds the
    /// commitment to domain and context to the root.
    pub open spec fn holds(self, params: PoseidonParamsView) -> bool {
        &&& self.commitment.unwrap() == commitment(
            params,
            self.identity_scalar.unwrap(),
            self.blinding.unwrap(),
        )
        &&& self.domain_sep.unwrap() == field_value(MEMBERSHIP_V2_DOMAIN_SEP@)
        &&& self.root.unwrap() == merkle_root(
            params,
            leaf_v2(
                params,
                self.domain_sep.unwrap(),
                self.ctx_hash.unwrap(),
                self.commitment.unwrap(),
            ),
            assigned_path(self.merkle_path),
        )
    }

    /// The gates up to the leaf: public inputs, witnesses, two domain tags,
    /// the commitment with its demand, the domain separator of the schema
    /// with its demand, the leaf.
    pub open spec fn head(self) -> Seq<GateView> {
        Seq::<GateView>::empty()
            .push(GateView::Input(self.root))
            .push(GateView::Input(self.commitment))
            .push(GateView::Input(self.domain_sep))
            .push(GateView::Input(self.ctx_hash))
            .push(GateView::Witness(self.identity_scalar))
            .push(GateView::Witness(self.blinding))
            .push(GateView::Constant(DOMAIN_COMMITMENT as nat))
            .push(GateView::Constant(DOMAIN_NODE as nat))
            .push(GateView::Hash(seq![6int, 4, 5]))
            .push(GateView::EnforceEqual { left: 8, right: 1 })
            .push(GateView::Constant(field_value(MEMBERSHIP_V2_DOMAIN_SEP@)))
            .push(GateView::EnforceEqual { left: 2, right: 10 })
            .push(GateView::Hash(seq![2int, 3, 8]))
    }

    /// The whole plan: the head, the levels of the path, and the demand that
    /// the last node be the root.
    pub open spec fn plan(self) -> Seq<GateView> {
        let body = climb(self.head(), 7, self.merkle_path);
        body.push(GateView::EnforceEqual { left: body.len() - 1, right: 0 })
    }
}

/// Adds the gates of every level of a path to a plan whose last wire bears
/// the leaf.
fn climb_path(
    plan: &mut ConstraintPlan,
    node_tag: usize,
    path: &Vec<(Option<FieldElement>, Option<bool>)>,
) -> (current: usize)
    requires
        old(plan)@.len() > 0,
    ensures
        final(plan)@ == climb(old(plan)@, node_tag as int, steps(path@)),
        current == final(plan)@.len() - 1,
{
    let mut current = plan.len() - 1;
    let mut idx: usize = 0;
    proof {
        assert(steps(path@).subrange(0, 0) =~= Seq::<(Option<nat>, Option<bool>)>::empty());
    }
    while idx < path.len()
        invariant
            idx <= path@.len(),
            plan@.len() > 0,
            current == plan@.len() - 1,
            plan@ == climb(old(plan)@, node_tag as int, steps(path@).subrange(0, idx as int)),
        decreases path@.len() - idx,
    {
        proof {
            let upto = steps(path@).subrange(0, idx + 1);
            assert(upto.drop_last() =~= steps(path@).subrange(0, idx as int));
            assert(upto.last() == (optional_value(path@[idx as int].0), path@[idx as int].1));
        }
        let sibling = plan.witness(path[idx].0);
        let is_left = plan.boolean_witness(path[idx].1);
        let left = plan.select(is_left, sibling, current);
        let right = plan.select(is_left, current, sibling);
        current = plan.hash3(node_tag, left, right);
        idx = idx + 1;
    }
    assert(steps(path@).subrange(0, idx as int) =~= steps(path@));
    current
}

impl MembershipCircuit {
    /// Lays out the circuit: the two public inputs, root first; the
    /// witnesses; the commitment and the demand that it be the public one;
    /// the leaf; one node per level of the path; the demand that the last
    /// node be the root. Fails where the declared depth is zero or is not the
    /// length of the path.
    pub fn generate_constraints(self) -> (res: Result<ConstraintPlan, SynthesisError>)
        ensures
            match res {
                Ok(plan) => self@.well_shaped() && plan@ == self@.plan(),
                Err(e) => !self@.well_shaped() && e == SynthesisError::Unsatisfiable,
            },
    {
        if self.expected_depth == 0 || self.merkle_path.len() != self.expected_depth {
            return Err(SynthesisError::Unsatisfiable);
        }
        let mut plan = ConstraintPlan::new();
        let root = plan.input(self.root);
        let commitment_input = plan.input(self.commitment);
        let identity_scalar = plan.witness(self.identity_scalar);
        let blinding = plan.witness(self.blinding);
        let domain_commitment = plan.constant(FieldElement::from_u64(DOMAIN_COMMITMENT));
        let domain_leaf = plan.constant(FieldElement::from_u64(DOMAIN_LEAF));
        let domain_node = plan.constant(FieldElement::from_u64(DOMAIN_NODE));
        let zero = plan.constant(FieldElement::from_u64(0));
        let commitment = plan.hash3(domain_commitment, identity_scalar, blinding);
        plan.enforce_equal(commitment, commitment_input);
        let _ = plan.hash3(domain_leaf, commitment, zero);
        let current = climb_path(&mut plan, domain_node, &self.merkle_path);
        plan.enforce_equal(current, root);
        Ok(plan)
    }
}

impl MembershipCircuitV2 {
    /// Lays out the circuit: the four public inputs, in the order root,
    /// commitment, domain separator, context; the witnesses; the commitment
    /// and the demand that it be the public one; the demand that the domain
    /// separator be that of the schema; the leaf that binds the commitment to
    /// domain and context; one node per level of the path; the demand that
    /// the last node be the root. Fails where the declared depth is zero or
    /// is not the length of the path.
    pub fn generate_constraints(self) -> (res: Result<ConstraintPlan, SynthesisError>)
        ensures
            match res {
                Ok(plan) => self@.well_shaped() && plan@ == self@.plan(),
                Err(e) => !self@.well_shaped() && e == SynthesisError::Unsatisfiable,
            },
    {
        if self.expected_depth == 0 || self.merkle_path.len() != self.expected_depth {
            return Err(SynthesisError::Unsatisfiable);
        }
        let mut plan = ConstraintPlan::new();
        let root = plan.input(self.root);
        let commitment_input = plan.input(self.commitment);
        let domain_sep = plan.input(self.domain_sep);
        let ctx_hash = plan.input(self.ctx_hash);
        let identity_scalar = plan.witness(self.identity_scalar);
        let blinding = plan.witness(self.blinding);
        let domain_commitment = plan.constant(FieldElement::from_u64(DOMAIN_COMMITMENT));
        let domain_node = plan.constant(FieldElement::from_u64(DOMAIN_NODE));
        let commitment = plan.hash3(domain_commitment, identity_scalar, blinding);
        plan.enforce_equal(commitment, commitment_input);
        let domain_sep_const = plan.constant(membership_v2_domain_sep_fr());
        plan.enforce_equal(domain_sep, domain_sep_const);
        let _ = plan.hash3(domain_sep, ctx_hash, commitment);
        let current = climb_path(&mut plan, domain_node, &self.merkle_path);
        plan.enforce_equal(current, root);
        Ok(plan)
    }
}

/// The circuit of a decoded record of the first two schemas; its depth is the
/// length of the record's path.
pub fn build_circuit(instance: &MembershipInstance) -> (circuit: MembershipCircuit)
    ensures
        circuit@.root == Some(instance.public_inputs.root@),
        circuit@.commitment == Some(instance.public_inputs.commitment@),
        circuit@.identity_scalar == Some(instance.witness.identity_scalar@),
        circuit@.blinding == Some(instance.witness.blinding@),
        circuit@.expected_depth == instance.witness.merkle_path@.len(),
        path_assigned(circuit@.merkle_path),
        assigned_path(circuit@.merkle_path) == path_values(instance.witness.merkle_path@),
{
    let merkle_path = assign_path(&instance.witness.merkle_path);
    MembershipCircuit {
        root: Some(instance.public_inputs.root),
        commitment: Some(instance.public_inputs.commitment),
        identity_scalar: Some(instance.witness.identity_scalar),
        blinding: Some(instance.witness.blinding),
        expected_depth: instance.witness.merkle_path.len(),
        merkle_path,
    }
}

/// The circuit of a decoded record of the second versioned schema; its depth
/// is the length of the record's path.
pub fn build_circuit_v2(instance: &MembershipInstanceV2) -> (circuit: MembershipCircuitV2)
    ensures
        circuit@.root == Some(instance.public_inputs.root@),
        circuit@.commitment == Some(instance.public_inputs.commitment@),
        circuit@.domain_sep == Some(instance.public_inputs.domain_sep@),
        circuit@.ctx_hash == Some(instance.public_inputs.ctx_hash@),
        circuit@.identity_scalar == Some(instance.witness.identity_scalar@),
        circuit@.blinding == Some(instance.witness.blinding@),
        circuit@.expected_depth == instance.witness.merkle_path@.len(),
        path_assigned(circuit@.merkle_path),
        assigned_path(circuit@.merkle_path) == path_values(instance.witness.merkle_path@),
{
    let merkle_path = assign_path(&instance.witness.merkle_path);
    MembershipCircuitV2 {
        root: Some(instance.public_inputs.root),
        commitment: Some(instance.public_inputs.commitment),
        domain_sep: Some(instance.public_inputs.domain_sep),
        ctx_hash: Some(instance.public_inputs.ctx_hash),
        identity_scalar: Some(instance.witness.identity_scalar),
        blinding: Some(instance.witness.blinding),
        expected_depth: instance.witness.merkle_path.len(),
        merkle_path,
    }
}

/// A path with every sibling and side assigned.
fn assign_path(path: &Vec<(FieldElement, bool)>) -> (out: Vec<(Option<FieldElement>, Option<bool>)>)
    ensures
        path_assigned(steps(out@)),
        assigned_path(steps(out@)) == path_values(path@),
{
    let mut out: Vec<(Option<FieldElement>, Option<bool>)> = Vec::with_capacity(path.len());
    let mut idx: usize = 0;
    while idx < path.len()
        invariant
            idx <= path@.len(),
            out@.len() == idx,
            forall|j: int|
                0 <= j < idx ==> (#[trigger] out@[j]).0 == Some(path@[j].0) && out@[j].1 == Some(
                    path@[j].1,
                ),
        decreases path@.len() - idx,
    {
        out.push((Some(path[idx].0), Some(path[idx].1)));
        idx = idx + 1;
    }
    assert(assigned_path(steps(out@)) =~= path_values(path@));
    out
}

/// A path of `depth` levels that all hold `sibling` on the right.
fn uniform_path(sibling: FieldElement, depth: usize) -> (out: Vec<
    (Option<FieldElement>, Option<bool>),
>)
    ensures
        out@.len() == depth,
        forall|j: int|
            0 <= j < depth ==> (#[trigger] steps(out@)[j]) == (Some(sibling@), Some(false)),
{
    let mut out: Vec<(Option<FieldElement>, Option<bool>)> = Vec::with_capacity(depth);
    let mut idx: usize = 0;
    while idx < depth
        invariant
            idx <= depth,
            out@.len() == idx,
            forall|j: int| 0 <= j < idx ==> (#[trigger] out@[j]) == (Some(sibling), Some(false)),
        decreases depth - idx,
    {
        out.push((Some(sibling), Some(false)));
        idx = idx + 1;
    }
    out
}

/// The circuit that a key pair of the first two schemas is made from, for a
/// tree of the given depth: every value zero, every sibling on the right.
pub fn setup_circuit(depth: usize) -> (circuit: MembershipCircuit)
    ensures
        circuit@.root == Some(0nat),
        circuit@.commitment == Some(0nat),
        circuit@.identity_scalar == Some(0nat),
        circuit@.blinding == Some(0nat),
        circuit@.expected_depth == depth,
        circuit@.merkle_path.len() == depth,
        forall|j: int|
            0 <= j < depth ==> (#[trigger] circuit@.merkle_path[j]) == (Some(0nat), Some(false)),
{
    let zero = FieldElement::from_u64(0);
    MembershipCircuit {
        root: Some(zero),
        commitment: Some(zero),
        identity_scalar: Some(zero),
        blinding: Some(zero),
        expected_depth: depth,
        merkle_path: uniform_path(zero, depth),
    }
}

/// The circuit that a key pair of the second versioned schema is made from,
/// for a tree of the given depth: identity, blinding and context zero, the
/// commitment to them as commitment, as root and as every sibling, every
/// sibling on the right, the domain separator of the schema.
pub fn setup_circuit_v2(depth: usize) -> (circuit: MembershipCircuitV2)
    ensures
        circuit@.root == Some(commitment(standard_params(), 0, 0)),
        circuit@.commitment == Some(commitment(standard_params(), 0, 0)),
        circuit@.domain_sep == Some(field_value(MEMBERSHIP_V2_DOMAIN_SEP@)),
        circuit@.ctx_hash == Some(0nat),
        circuit@.identity_scalar == Some(0nat),
        circuit@.blinding == Some(0nat),
        circuit@.expected_depth == depth,
        circuit@.merkle_path.len() == depth,
        forall|j: int|
            0 <= j < depth ==> (#[trigger] circuit@.merkle_path[j]) == (
                Some(commitment(standard_params(), 0, 0)),
                Some(false),
            ),
{
    let params = poseidon_params();
    let zero = FieldElement::from_u64(0);
    let commitment = commitment_hash(&params, zero, zero);
    MembershipCircuitV2 {
        root: Some(commitment),
        commitment: Some(commitment),
        domain_sep: Some(membership_v2_domain_sep_fr()),
        ctx_hash: Some(zero),
        identity_scalar: Some(zero),
        blinding: Some(zero),
        expected_depth: depth,
        merkle_path: uniform_path(commitment, depth),
    }
}

/// One level above a plan, in a trace: the node above the node reached so
/// far and the level's sibling, on the new last wire; earlier wires and
/// demands untouched. Without the sibling or its side there is no trace.
pub proof fn lemma_level(
    params: PoseidonParamsView,
    below: Seq<GateView>,
    node_tag: int,
    step: (Option<nat>, Option<bool>),
)
    requires
        below.len() > 0,
        run(params, below) matches Some(trace) && element_at(trace.wires, below.len() - 1) is Some
            && element_at(trace.wires, node_tag) == Some(DOMAIN_NODE as nat),
    ensures
        step.0 is Some && step.1 is Some ==> (run(params, level(below, node_tag, step)) matches Some(
            after,
        ) && after.holds == run(params, below).unwrap().holds && after.wires.len() == below.len()
            + 5 && element_at(after.wires, below.len() as int + 4) == Some(
            parent(
                params,
                element_at(run(params, below).unwrap().wires, below.len() - 1).unwrap(),
                step.0.unwrap(),
                step.1.unwrap(),
            ),
        ) && after.wires.subrange(0, below.len() as int) == run(params, below).unwrap().wires),
        step.0 is None || step.1 is None ==> run(params, level(below, node_tag, step)) is None,
        public_inputs(level(below, node_tag, step)) == public_inputs(below),
        level(below, node_tag, step).len() == below.len() + 5,
{
    let trace = run(params, below).unwrap();
    lemma_run_wires(params, below);
    let current = below.len() - 1;
    let sibling = below.len() as int;
    let flag = sibling + 1;
    let g1 = GateView::Witness(step.0);
    let g2 = GateView::BooleanWitness(step.1);
    let g3 = GateView::Select { flag, if_set: sibling, if_clear: current };
    let g4 = GateView::Select { flag, if_set: current, if_clear: sibling };
    let g5 = GateView::Hash(seq![node_tag, sibling + 2, sibling + 3]);
    let upto1 = below.push(g1);
    let upto2 = upto1.push(g2);
    let upto3 = upto2.push(g3);
    let upto4 = upto3.push(g4);
    let upto5 = upto4.push(g5);
    lemma_run_push(params, below, g1);
    lemma_run_push(params, upto1, g2);
    lemma_run_push(params, upto2, g3);
    lemma_run_push(params, upto3, g4);
    lemma_run_push(params, upto4, g5);
    lemma_public_inputs_push(below, g1);
    lemma_public_inputs_push(upto1, g2);
    lemma_public_inputs_push(upto2, g3);
    lemma_public_inputs_push(upto3, g4);
    lemma_public_inputs_push(upto4, g5);
    if step.0 is Some && step.1 is Some {
        let t1 = run(params, upto1).unwrap();
        let t2 = run(params, upto2).unwrap();
        let t3 = run(params, upto3).unwrap();
        let t4 = run(params, upto4).unwrap();
        assert(t4.wires.len() == below.len() + 4);
        assert(element_at(t4.wires, node_tag) == Some(DOMAIN_NODE as nat));
        lemma_apply_hash3(params, t4, node_tag, sibling + 2, sibling + 3);
        let t5 = run(params, upto5).unwrap();
        assert(t5.wires.subrange(0, below.len() as int) =~= trace.wires);
    }
}

/// The levels of a path above a plan, in a trace: the root that the path
/// leads to from the node reached so far, on the last wire; earlier wires and
/// demands untouched. Without some sibling or side there is no trace.
pub proof fn lemma_climb(
    params: PoseidonParamsView,
    start: Seq<GateView>,
    node_tag: int,
    path: Seq<(Option<nat>, Option<bool>)>,
)
    requires
        start.len() > 0,
        0 <= node_tag < start.len(),
        run(params, start) matches Some(trace) && element_at(trace.wires, start.len() - 1) is Some
            && element_at(trace.wires, node_tag) == Some(DOMAIN_NODE as nat),
    ensures
        path_assigned(path) ==> (run(params, climb(start, node_tag, path)) matches Some(after)
            && after.holds == run(params, start).unwrap().holds && element_at(
            after.wires,
            climb(start, node_tag, path).len() - 1,
        ) == Some(
            merkle_root(
                params,
                element_at(run(params, start).unwrap().wires, start.len() - 1).unwrap(),
                assigned_path(path),
            ),
        ) && after.wires.subrange(0, start.len() as int) == run(params, start).unwrap().wires),
        !path_assigned(path) ==> run(params, climb(start, node_tag, path)) is None,
        public_inputs(climb(start, node_tag, path)) == public_inputs(start),
        climb(start, node_tag, path).len() == start.len() + 5 * path.len(),
    decreases path.len(),
{
    let trace = run(params, start).unwrap();
    lemma_run_wires(params, start);
    if path.len() == 0 {
        assert(trace.wires.subrange(0, start.len() as int) =~= trace.wires);
        assert(assigned_path(path) =~= Seq::<(nat, bool)>::empty());
    } else {
        let shorter = path.drop_last();
        let below = climb(start, node_tag, shorter);
        lemma_climb(params, start, node_tag, shorter);
        assert(path_assigned(path) <==> path_assigned(shorter) && path.last().0 is Some
            && path.last().1 is Some) by {
            if path_assigned(shorter) && path.last().0 is Some && path.last().1 is Some {
                assert forall|i: int| 0 <= i < path.len() implies (#[trigger] path[i]).0 is Some
                    && path[i].1 is Some by {
                    if i < path.len() - 1 {
                        assert(shorter[i] == path[i]);
                    }
                }
            }
            if path_assigned(path) {
                assert forall|i: int| 0 <= i < shorter.len() implies (#[trigger] shorter[i]).0
                    is Some && shorter[i].1 is Some by {
                    assert(shorter[i] == path[i]);
                }
            }
        }
        if path_assigned(shorter) {
            let middle = run(params, below).unwrap();
            lemma_run_wires(params, below);
            assert(middle.wires.subrange(0, start.len() as int)[node_tag] == middle.wires[node_tag]);
            lemma_level(params, below, node_tag, path.last());
            if path_assigned(path) {
                let after = run(params, climb(start, node_tag, path)).unwrap();
                assert(assigned_path(path).drop_last() =~= assigned_path(shorter));
                assert(after.wires.subrange(0, start.len() as int) =~= after.wires.subrange(
                    0,
                    below.len() as int,
                ).subrange(0, start.len() as int));
            }
        } else {
            lemma_none_stays(params, below, node_tag, path.last());
        }
        lemma_level_inputs(below, node_tag, path.last());
    }
}

/// A plan without a trace has none after one more level.
pub proof fn lemma_none_stays(
    params: PoseidonParamsView,
    below: Seq<GateView>,
    node_tag: int,
    step: (Option<nat>, Option<bool>),
)
    requires
        run(params, below) is None,
    ensures
        run(params, level(below, node_tag, step)) is None,
{
    let current = below.len() - 1;
    let sibling = below.len() as int;
    let flag = sibling + 1;
    let g1 = GateView::Witness(step.0);
    let g2 = GateView::BooleanWitness(step.1);
    let g3 = GateView::Select { flag, if_set: sibling, if_clear: current };
    let g4 = GateView::Select { flag, if_set: current, if_clear: sibling };
    let g5 = GateView::Hash(seq![node_tag, sibling + 2, sibling + 3]);
    lemma_run_push(params, below, g1);
    lemma_run_push(params, below.push(g1), g2);
    lemma_run_push(params, below.push(g1).push(g2), g3);
    lemma_run_push(params, below.push(g1).push(g2).push(g3), g4);
    lemma_run_push(params, below.push(g1).push(g2).push(g3).push(g4), g5);
}

/// A level allocates no public input and has five gates.
pub proof fn lemma_level_inputs(
    below: Seq<GateView>,
    node_tag: int,
    step: (Option<nat>, Option<bool>),
)
    ensures
        public_inputs(level(below, node_tag, step)) == public_inputs(below),
        level(below, node_tag, step).len() == below.len() + 5,
{
    let current = below.len() - 1;
    let sibling = below.len() as int;
    let flag = sibling + 1;
    let g1 = GateView::Witness(step.0);
    let g2 = GateView::BooleanWitness(step.1);
    let g3 = GateView::Select { flag, if_set: sibling, if_clear: current };
    let g4 = GateView::Select { flag, if_set: current, if_clear: sibling };
    let g5 = GateView::Hash(seq![node_tag, sibling + 2, sibling + 3]);
    lemma_public_inputs_push(below, g1);
    lemma_public_inputs_push(below.push(g1), g2);
    lemma_public_inputs_push(below.push(g1).push(g2), g3);
    lemma_public_inputs_push(below.push(g1).push(g2).push(g3), g4);
    lemma_public_inputs_push(below.push(g1).push(g2).push(g3).push(g4), g5);
}

/// What the circuit of the first two schemas means. Its public inputs are, in
/// the order of their allocation, the root and the commitment. Where every
/// variable has its value, the plan has a trace, and its demands are met
/// exactly where the membership statement holds. Where a value is missing,
/// the plan has no trace.
pub proof fn lemma_membership_plan(params: PoseidonParamsView, c: CircuitView)
    ensures
        public_inputs(c.plan()) == seq![c.root, c.commitment],
        c.assigned() ==> (run(params, c.plan()) matches Some(trace) && trace.holds == c.holds(
            params,
        )),
        !c.assigned() ==> run(params, c.plan()) is None,
{
    let g0 = GateView::Input(c.root);
    let g1 = GateView::Input(c.commitment);
    let g2 = GateView::Witness(c.identity_scalar);
    let g3 = GateView::Witness(c.blinding);
    let g4 = GateView::Constant(DOMAIN_COMMITMENT as nat);
    let g5 = GateView::Constant(DOMAIN_LEAF as nat);
    let g6 = GateView::Constant(DOMAIN_NODE as nat);
    let g7 = GateView::Constant(0);
    let g8 = GateView::Hash(seq![4int, 2, 3]);
    let g9 = GateView::EnforceEqual { left: 8, right: 1 };
    let g10 = GateView::Hash(seq![5int, 8, 7]);
    let upto0 = Seq::<GateView>::empty();
    let upto1 = upto0.push(g0);
    let upto2 = upto1.push(g1);
    let upto3 = upto2.push(g2);
    let upto4 = upto3.push(g3);
    let upto5 = upto4.push(g4);
    let upto6 = upto5.push(g5);
    let upto7 = upto6.push(g6);
    let upto8 = upto7.push(g7);
    let upto9 = upto8.push(g8);
    let upto10 = upto9.push(g9);
    let upto11 = upto10.push(g10);
    assert(upto11 == c.head());
    lemma_run_push(params, upto0, g0);
    lemma_run_push(params, upto1, g1);
    lemma_run_push(params, upto2, g2);
    lemma_run_push(params, upto3, g3);
    lemma_run_push(params, upto4, g4);
    lemma_run_push(params, upto5, g5);
    lemma_run_push(params, upto6, g6);
    lemma_run_push(params, upto7, g7);
    lemma_run_push(params, upto8, g8);
    lemma_run_push(params, upto9, g9);
    lemma_run_push(params, upto10, g10);
    lemma_public_inputs_push(upto0, g0);
    lemma_public_inputs_push(upto1, g1);
    lemma_public_inputs_push(upto2, g2);
    lemma_public_inputs_push(upto3, g3);
    lemma_public_inputs_push(upto4, g4);
    lemma_public_inputs_push(upto5, g5);
    lemma_public_inputs_push(upto6, g6);
    lemma_public_inputs_push(upto7, g7);
    lemma_public_inputs_push(upto8, g8);
    lemma_public_inputs_push(upto9, g9);
    lemma_public_inputs_push(upto10, g10);
    assert(public_inputs(upto11) =~= seq![c.root, c.commitment]);
    let body = climb(c.head(), 6, c.merkle_path);
    let last = GateView::EnforceEqual { left: body.len() - 1, right: 0 };
    lemma_run_push(params, body, last);
    lemma_public_inputs_push(body, last);
    if c.root is Some && c.commitment is Some && c.identity_scalar is Some && c.blinding is Some {
        let t8 = run(params, upto8).unwrap();
        lemma_apply_hash3(params, t8, 4, 2, 3);
        let t10 = run(params, upto10).unwrap();
        lemma_apply_hash3(params, t10, 5, 8, 7);
        let t11 = run(params, upto11).unwrap();
        let hidden = commitment(params, c.identity_scalar.unwrap(), c.blinding.unwrap());
        assert(t11.holds == (hidden == c.commitment.unwrap()));
        assert(element_at(t11.wires, 10) == Some(leaf(params, hidden)));
        assert(element_at(t11.wires, 6) == Some(DOMAIN_NODE as nat));
        assert(element_at(t11.wires, 0) == c.root);
        lemma_climb(params, upto11, 6, c.merkle_path);
        if path_assigned(c.merkle_path) {
            let after = run(params, body).unwrap();
            lemma_run_wires(params, body);
            assert(after.wires.subrange(0, 11)[0] == after.wires[0]);
        }
    } else {
        lemma_missing_value_leaves_no_trace(params, upto11, 6, c.merkle_path);
    }
    lemma_climb_inputs(upto11, 6, c.merkle_path);
}

/// What the circuit of the second versioned schema means. Its public inputs
/// are, in the order of their allocation, the root, the commitment, the
/// domain separator and the context. Where every variable has its value, the
/// plan has a trace, and its demands are met exactly where the membership
/// statement holds. Where a value is missing, the plan has no trace.
pub proof fn lemma_membership_v2_plan(params: PoseidonParamsView, c: CircuitV2View)
    ensures
        public_inputs(c.plan()) == seq![c.root, c.commitment, c.domain_sep, c.ctx_hash],
        c.assigned() ==> (run(params, c.plan()) matches Some(trace) && trace.holds == c.holds(
            params,
        )),
        !c.assigned() ==> run(params, c.plan()) is None,
{
    let g0 = GateView::Input(c.root);
    let g1 = GateView::Input(c.commitment);
    let g2 = GateView::Input(c.domain_sep);
    let g3 = GateView::Input(c.ctx_hash);
    let g4 = GateView::Witness(c.identity_scalar);
    let g5 = GateView::Witness(c.blinding);
    let g6 = GateView::Constant(DOMAIN_COMMITMENT as nat);
    let g7 = GateView::Constant(DOMAIN_NODE as nat);
    let g8 = GateView::Hash(seq![6int, 4, 5]);
    let g9 = GateView::EnforceEqual { left: 8, right: 1 };
    let g10 = GateView::Constant(field_value(MEMBERSHIP_V2_DOMAIN_SEP@));
    let g11 = GateView::EnforceEqual { left: 2, right: 10 };
    let g12 = GateView::Hash(seq![2int, 3, 8]);
    let upto0 = Seq::<GateView>::empty();
    let upto1 = upto0.push(g0);
    let upto2 = upto1.push(g1);
    let upto3 = upto2.push(g2);
    let upto4 = upto3.push(g3);
    let upto5 = upto4.push(g4);
    let upto6 = upto5.push(g5);
    let upto7 = upto6.push(g6);
    let upto8 = upto7.push(g7);
    let upto9 = upto8.push(g8);
    let upto10 = upto9.push(g9);
    let upto11 = upto10.push(g10);
    let upto12 = upto11.push(g11);
    let upto13 = upto12.push(g12);
    assert(upto13 == c.head());
    lemma_run_push(params, upto0, g0);
    lemma_run_push(params, upto1, g1);
    lemma_run_push(params, upto2, g2);
    lemma_run_push(params, upto3, g3);
    lemma_run_push(params, upto4, g4);
    lemma_run_push(params, upto5, g5);
    lemma_run_push(params, upto6, g6);
    lemma_run_push(params, upto7, g7);
    lemma_run_push(params, upto8, g8);
    lemma_run_push(params, upto9, g9);
    lemma_run_push(params, upto10, g10);
    lemma_run_push(params, upto11, g11);
    lemma_run_push(params, upto12, g12);
    lemma_public_inputs_push(upto0, g0);
    lemma_public_inputs_push(upto1, g1);
    lemma_public_inputs_push(upto2, g2);
    lemma_public_inputs_push(upto3, g3);
    lemma_public_inputs_push(upto4, g4);
    lemma_public_inputs_push(upto5, g5);
    lemma_public_inputs_push(upto6, g6);
    lemma_public_inputs_push(upto7, g7);
    lemma_public_inputs_push(upto8, g8);
    lemma_public_inputs_push(upto9, g9);
    lemma_public_inputs_push(upto10, g10);
    lemma_public_inputs_push(upto11, g11);
    lemma_public_inputs_push(upto12, g12);
    assert(public_inputs(upto13) =~= seq![c.root, c.commitment, c.domain_sep, c.ctx_hash]);
    let body = climb(c.head(), 7, c.merkle_path);
    let last = GateView::EnforceEqual { left: body.len() - 1, right: 0 };
    lemma_run_push(params, body, last);
    lemma_public_inputs_push(body, last);
    if c.root is Some && c.commitment is Some && c.domain_sep is Some && c.ctx_hash is Some
        && c.identity_scalar is Some && c.blinding is Some {
        let t8 = run(params, upto8).unwrap();
        lemma_apply_hash3(params, t8, 6, 4, 5);
        let t12 = run(params, upto12).unwrap();
        lemma_apply_hash3(params, t12, 2, 3, 8);
        let t13 = run(params, upto13).unwrap();
        let hidden = commitment(params, c.identity_scalar.unwrap(), c.blinding.unwrap());
        assert(t13.holds == (hidden == c.commitment.unwrap() && c.domain_sep.unwrap()
            == field_value(MEMBERSHIP_V2_DOMAIN_SEP@)));
        assert(element_at(t13.wires, 12) == Some(
            leaf_v2(params, c.domain_sep.unwrap(), c.ctx_hash.unwrap(), hidden),
        ));
        assert(element_at(t13.wires, 7) == Some(DOMAIN_NODE as nat));
        assert(element_at(t13.wires, 0) == c.root);
        lemma_climb(params, upto13, 7, c.merkle_path);
        if path_assigned(c.merkle_path) {
            let after = run(params, body).unwrap();
            lemma_run_wires(params, body);
            assert(after.wires.subrange(0, 13)[0] == after.wires[0]);
        }
    } else {
        lemma_missing_value_leaves_no_trace(params, upto13, 7, c.merkle_path);
    }
    lemma_climb_inputs(upto13, 7, c.merkle_path);
}

/// A plan without a trace has none after the levels of a path.
pub proof fn lemma_missing_value_leaves_no_trace(
    params: PoseidonParamsView,
    start: Seq<GateView>,
    node_tag: int,
    path: Seq<(Option<nat>, Option<bool>)>,
)
    requires
        run(params, start) is None,
    ensures
        run(params, climb(start, node_tag, path)) is None,
    decreases path.len(),
{
    if path.len() > 0 {
        lemma_missing_value_leaves_no_trace(params, start, node_tag, path.drop_last());
        lemma_none_stays(params, climb(start, node_tag, path.drop_last()), node_tag, path.last());
    }
}

/// The levels of a path allocate no public input.
pub proof fn lemma_climb_inputs(
    start: Seq<GateView>,
    node_tag: int,
    path: Seq<(Option<nat>, Option<bool>)>,
)
    ensures
        public_inputs(climb(start, node_tag, path)) == public_inputs(start),
        climb(start, node_tag, path).len() == start.len() + 5 * path.len(),
    decreases path.len(),
{
    if path.len() > 0 {
        lemma_climb_inputs(start, node_tag, path.drop_last());
        lemma_level_inputs(climb(start, node_tag, path.drop_last()), node_tag, path.last());
    }
}

/// A level above two plans of one shape gives two plans of one shape.
pub proof fn lemma_level_shape(
    a: Seq<GateView>,
    b: Seq<GateView>,
    node_tag: int,
    step_a: (Option<nat>, Option<bool>),
    step_b: (Option<nat>, Option<bool>),
)
    requires
        shape(a) == shape(b),
    ensures
        shape(level(a, node_tag, step_a)) == shape(level(b, node_tag, step_b)),
{
    assert(a.len() == shape(a).len());
    assert(b.len() == shape(b).len());
    let current = a.len() - 1;
    let sibling = a.len() as int;
    let flag = sibling + 1;
    let g3 = GateView::Select { flag, if_set: sibling, if_clear: current };
    let g4 = GateView::Select { flag, if_set: current, if_clear: sibling };
    let g5 = GateView::Hash(seq![node_tag, sibling + 2, sibling + 3]);
    let a1 = a.push(GateView::Witness(step_a.0));
    let a2 = a1.push(GateView::BooleanWitness(step_a.1));
    let b1 = b.push(GateView::Witness(step_b.0));
    let b2 = b1.push(GateView::BooleanWitness(step_b.1));
    lemma_shape_push(a, GateView::Witness(step_a.0));
    lemma_shape_push(a1, GateView::BooleanWitness(step_a.1));
    lemma_shape_push(a2, g3);
    lemma_shape_push(a2.push(g3), g4);
    lemma_shape_push(a2.push(g3).push(g4), g5);
    lemma_shape_push(b, GateView::Witness(step_b.0));
    lemma_shape_push(b1, GateView::BooleanWitness(step_b.1));
    lemma_shape_push(b2, g3);
    lemma_shape_push(b2.push(g3), g4);
    lemma_shape_push(b2.push(g3).push(g4), g5);
}

/// The levels of two paths of one length above two plans of one shape give
/// two plans of one shape.
pub proof fn lemma_climb_shape(
    a: Seq<GateView>,
    b: Seq<GateView>,
    node_tag: int,
    path_a: Seq<(Option<nat>, Option<bool>)>,
    path_b: Seq<(Option<nat>, Option<bool>)>,
)
    requires
        shape(a) == shape(b),
        path_a.len() == path_b.len(),
    ensures
        shape(climb(a, node_tag, path_a)) == shape(climb(b, node_tag, path_b)),
    decreases path_a.len(),
{
    if path_a.len() > 0 {
        lemma_climb_shape(a, b, node_tag, path_a.drop_last(), path_b.drop_last());
        lemma_level_shape(
            climb(a, node_tag, path_a.drop_last()),
            climb(b, node_tag, path_b.drop_last()),
            node_tag,
            path_a.last(),
            path_b.last(),
        );
    }
}

/// The plans of two membership circuits have one shape exactly where their
/// paths have one length, whatever they assign: a key pair is made for one
/// depth. This holds of either form of the circuit.
pub proof fn lemma_shape_is_the_depth(
    a: CircuitView,
    b: CircuitView,
    c: CircuitV2View,
    d: CircuitV2View,
)
    ensures
        shape(a.plan()) == shape(b.plan()) <==> a.merkle_path.len() == b.merkle_path.len(),
        shape(c.plan()) == shape(d.plan()) <==> c.merkle_path.len() == d.merkle_path.len(),
{
    lemma_climb_inputs(a.head(), 6, a.merkle_path);
    lemma_climb_inputs(b.head(), 6, b.merkle_path);
    lemma_climb_inputs(c.head(), 7, c.merkle_path);
    lemma_climb_inputs(d.head(), 7, d.merkle_path);
    assert(shape(a.plan()).len() == a.plan().len());
    assert(shape(b.plan()).len() == b.plan().len());
    assert(shape(c.plan()).len() == c.plan().len());
    assert(shape(d.plan()).len() == d.plan().len());
    if a.merkle_path.len() == b.merkle_path.len() {
        assert(shape(a.head()) =~= shape(b.head()));
        lemma_climb_shape(a.head(), b.head(), 6, a.merkle_path, b.merkle_path);
        let body_a = climb(a.head(), 6, a.merkle_path);
        let body_b = climb(b.head(), 6, b.merkle_path);
        lemma_shape_push(body_a, GateView::EnforceEqual { left: body_a.len() - 1, right: 0 });
        lemma_shape_push(body_b, GateView::EnforceEqual { left: body_b.len() - 1, right: 0 });
    }
    if c.merkle_path.len() == d.merkle_path.len() {
        assert(shape(c.head()) =~= shape(d.head()));
        lemma_climb_shape(c.head(), d.head(), 7, c.merkle_path, d.merkle_path);
        let body_c = climb(c.head(), 7, c.merkle_path);
        let body_d = climb(d.head(), 7, d.merkle_path);
        lemma_shape_push(body_c, GateView::EnforceEqual { left: body_c.len() - 1, right: 0 });
        lemma_shape_push(body_d, GateView::EnforceEqual { left: body_d.len() - 1, right: 0 });
    }
}

} // verus!
