//! Constraint plans: what a statement's circuit allocates and enforces, gate
//! by gate, in the order in which a constraint system is to receive it, and
//! what it means for an assignment to satisfy a plan.

use crate::field::FieldElement;
use crate::poseidon::{poseidon, poseidon_hash_native, values, PoseidonParams, PoseidonParamsView};
use vstd::prelude::*;

verus! {

/// Why a circuit could not be synthesised, proved or verified.
#[derive(Clone, Copy, Debug, PartialEq, Eq, Structural)]
pub enum SynthesisError {
    /// A variable was to be allocated without a constraint system.
    MissingCS,
    /// The value of a variable was not known.
    AssignmentMissing,
    /// A division by zero.
    DivisionByZero,
    /// The constraint system cannot be satisfied.
    Unsatisfiable,
    /// A polynomial of too high a degree.
    PolynomialDegreeTooLarge,
    /// An identity element where none may stand.
    UnexpectedIdentity,
    /// A verifying key that does not fit the public inputs.
    MalformedVerifyingKey,
    /// A witness variable that no constraint speaks of.
    UnconstrainedVariable,
}

/// One step of a plan. Every gate defines the wire that bears its own index
/// in the plan; a gate refers to wires of earlier gates.
#[derive(Clone, Debug, PartialEq, Eq)]
pub enum Gate {
    /// Allocates a public input.
    Input(Option<FieldElement>),
    /// Allocates a private field element.
    Witness(Option<FieldElement>),
    /// Allocates a private bit.
    BooleanWitness(Option<bool>),
    /// A constant of the circuit.
    Constant(FieldElement),
    /// The Poseidon hash of the listed wires, absorbed in one batch.
    Hash(Vec<usize>),
    /// The wire `if_set` where the bit on `flag` is set, else `if_clear`.
    Select { flag: usize, if_set: usize, if_clear: usize },
    /// Demands that two wires bear the same element; its own wire bears nothing.
    EnforceEqual { left: usize, right: usize },
}

/// What a gate holds.
pub enum GateView {
    Input(Option<nat>),
    Witness(Option<nat>),
    BooleanWitness(Option<bool>),
    Constant(nat),
    Hash(Seq<int>),
    Select { flag: int, if_set: int, if_clear: int },
    EnforceEqual { left: int, right: int },
}

/// A list of wires as numbers.
pub open spec fn wire_numbers(wires: Seq<usize>) -> Seq<int> {
    Seq::new(wires.len(), |i: int| wires[i] as int)
}

/// The value of an optional field element.
pub open spec fn optional_value(element: Option<FieldElement>) -> Option<nat> {
    match element {
        Some(e) => Some(e@),
        None => None,
    }
}

impl View for Gate {
    type V = GateView;

    open spec fn view(&self) -> GateView {
        match *self {
            Gate::Input(value) => GateView::Input(optional_value(value)),
            Gate::Witness(value) => GateView::Witness(optional_value(value)),
            Gate::BooleanWitness(bit) => GateView::BooleanWitness(bit),
            Gate::Constant(value) => GateView::Constant(value@),
            Gate::Hash(wires) => GateView::Hash(wire_numbers(wires@)),
            Gate::Select { flag, if_set, if_clear } => GateView::Select {
                flag: flag as int,
                if_set: if_set as int,
                if_clear: if_clear as int,
            },
            Gate::EnforceEqual { left, right } => GateView::EnforceEqual {
                left: left as int,
                right: right as int,
            },
        }
    }
}

/// What a wire bears.
pub enum Value {
    Element(nat),
    Bit(bool),
    Nothing,
}

/// The wires that the gates so far have defined, and whether every demand so
/// far is met.
pub struct Trace {
    pub wires: Seq<Value>,
    pub holds: bool,
}

/// The element on a wire, if the wire exists and bears one.
pub open spec fn element_at(wires: Seq<Value>, wire: int) -> Option<nat> {
    if 0 <= wire < wires.len() && wires[wire] is Element {
        Some(wires[wire]->Element_0)
    } else {
        None
    }
}

/// The bit on a wire, if the wire exists and bears one.
pub open spec fn bit_at(wires: Seq<Value>, wire: int) -> Option<bool> {
    if 0 <= wire < wires.len() && wires[wire] is Bit {
        Some(wires[wire]->Bit_0)
    } else {
        None
    }
}

/// The elements on a list of wires, if each of them bears one.
pub open spec fn elements_at(wires: Seq<Value>, list: Seq<int>) -> Option<Seq<nat>> {
    if forall|i: int| 0 <= i < list.len() ==> element_at(wires, #[trigger] list[i]) is Some {
        Some(Seq::new(list.len(), |i: int| element_at(wires, list[i]).unwrap()))
    } else {
        None
    }
}

/// The trace after one more gate: nothing where that gate lacks its
/// assignment or refers to a wire that does not bear what it needs.
pub open spec fn apply(params: PoseidonParamsView, trace: Trace, gate: GateView) -> Option<Trace> {
    match gate {
        GateView::Input(Some(v)) | GateView::Witness(Some(v)) | GateView::Constant(v) => Some(
            Trace { wires: trace.wires.push(Value::Element(v)), holds: trace.holds },
        ),
        GateView::BooleanWitness(Some(b)) => Some(
            Trace { wires: trace.wires.push(Value::Bit(b)), holds: trace.holds },
        ),
        GateView::Input(None) | GateView::Witness(None) | GateView::BooleanWitness(None) => None,
        GateView::Hash(list) => match elements_at(trace.wires, list) {
            Some(inputs) => Some(
                Trace {
                    wires: trace.wires.push(Value::Element(poseidon(params, inputs))),
                    holds: trace.holds,
                },
            ),
            None => None,
        },
        GateView::Select { flag, if_set, if_clear } => match (
            bit_at(trace.wires, flag),
            element_at(trace.wires, if_set),
            element_at(trace.wires, if_clear),
        ) {
            (Some(bit), Some(set), Some(clear)) => Some(
                Trace {
                    wires: trace.wires.push(
                        Value::Element(
                            if bit {
                                set
                            } else {
                                clear
                            },
                        ),
                    ),
                    holds: trace.holds,
                },
            ),
            _ => None,
        },
        GateView::EnforceEqual { left, right } => match (
            element_at(trace.wires, left),
            element_at(trace.wires, right),
        ) {
            (Some(l), Some(r)) => Some(
                Trace { wires: trace.wires.push(Value::Nothing), holds: trace.holds && l == r },
            ),
            _ => None,
        },
    }
}

/// The trace of a plan, gate after gate from an empty trace.
pub open spec fn run(params: PoseidonParamsView, gates: Seq<GateView>) -> Option<Trace>
    decreases gates.len(),
{
    if gates.len() == 0 {
        Some(Trace { wires: Seq::empty(), holds: true })
    } else {
        match run(params, gates.drop_last()) {
            Some(trace) => apply(params, trace, gates.last()),
            None => None,
        }
    }
}

/// Whether the assignment that a plan carries is complete and meets every
/// demand of the plan.
pub open spec fn satisfied(params: PoseidonParamsView, gates: Seq<GateView>) -> bool {
    run(params, gates) matches Some(trace) && trace.holds
}

/// The public inputs of a plan, in the order of their allocation.
pub open spec fn public_inputs(gates: Seq<GateView>) -> Seq<Option<nat>>
    decreases gates.len(),
{
    if gates.len() == 0 {
        Seq::empty()
    } else {
        match gates.last() {
            GateView::Input(value) => public_inputs(gates.drop_last()).push(value),
            _ => public_inputs(gates.drop_last()),
        }
    }
}

/// A gate without its assignment.
pub open spec fn gate_shape(gate: GateView) -> GateView {
    match gate {
        GateView::Input(_) => GateView::Input(None),
        GateView::Witness(_) => GateView::Witness(None),
        GateView::BooleanWitness(_) => GateView::BooleanWitness(None),
        other => other,
    }
}

/// A plan without its assignment: what a key pair is made for.
pub open spec fn shape(gates: Seq<GateView>) -> Seq<GateView> {
    Seq::new(gates.len(), |i: int| gate_shape(gates[i]))
}

/// Running a plan with one more gate is applying that gate to the trace of the plan.
pub proof fn lemma_run_push(params: PoseidonParamsView, gates: Seq<GateView>, gate: GateView)
    ensures
        run(params, gates.push(gate)) == match run(params, gates) {
            Some(trace) => apply(params, trace, gate),
            None => None,
        },
{
    assert(gates.push(gate).drop_last() =~= gates);
}

/// A trace has one wire per gate.
pub proof fn lemma_run_wires(params: PoseidonParamsView, gates: Seq<GateView>)
    ensures
        run(params, gates) matches Some(trace) ==> trace.wires.len() == gates.len(),
    decreases gates.len(),
{
    if gates.len() > 0 {
        lemma_run_wires(params, gates.drop_last());
    }
}

/// What hashing three wires that bear elements adds to a trace.
pub proof fn lemma_apply_hash3(params: PoseidonParamsView, trace: Trace, a: int, b: int, c: int)
    requires
        element_at(trace.wires, a) is Some,
        element_at(trace.wires, b) is Some,
        element_at(trace.wires, c) is Some,
    ensures
        apply(params, trace, GateView::Hash(seq![a, b, c])) == Some(
            Trace {
                wires: trace.wires.push(
                    Value::Element(
                        poseidon(
                            params,
                            seq![
                                element_at(trace.wires, a).unwrap(),
                                element_at(trace.wires, b).unwrap(),
                                element_at(trace.wires, c).unwrap(),
                            ],
                        ),
                    ),
                ),
                holds: trace.holds,
            },
        ),
{
    let list = seq![a, b, c];
    assert(elements_at(trace.wires, list).unwrap() =~= seq![
        element_at(trace.wires, a).unwrap(),
        element_at(trace.wires, b).unwrap(),
        element_at(trace.wires, c).unwrap(),
    ]);
}

/// What hashing four wires that bear elements adds to a trace.
pub proof fn lemma_apply_hash4(
    params: PoseidonParamsView,
    trace: Trace,
    a: int,
    b: int,
    c: int,
    d: int,
)
    requires
        element_at(trace.wires, a) is Some,
        element_at(trace.wires, b) is Some,
        element_at(trace.wires, c) is Some,
        element_at(trace.wires, d) is Some,
    ensures
        apply(params, trace, GateView::Hash(seq![a, b, c, d])) == Some(
            Trace {
                wires: trace.wires.push(
                    Value::Element(
                        poseidon(
                            params,
                            seq![
                                element_at(trace.wires, a).unwrap(),
                                element_at(trace.wires, b).unwrap(),
                                element_at(trace.wires, c).unwrap(),
                                element_at(trace.wires, d).unwrap(),
                            ],
                        ),
                    ),
                ),
                holds: trace.holds,
            },
        ),
{
    let list = seq![a, b, c, d];
    assert(elements_at(trace.wires, list).unwrap() =~= seq![
        element_at(trace.wires, a).unwrap(),
        element_at(trace.wires, b).unwrap(),
        element_at(trace.wires, c).unwrap(),
        element_at(trace.wires, d).unwrap(),
    ]);
}

/// The public inputs of a plan with one more gate.
pub proof fn lemma_public_inputs_push(gates: Seq<GateView>, gate: GateView)
    ensures
        public_inputs(gates.push(gate)) == match gate {
            GateView::Input(value) => public_inputs(gates).push(value),
            _ => public_inputs(gates),
        },
{
    assert(gates.push(gate).drop_last() =~= gates);
}

/// The shape of a plan with one more gate.
pub proof fn lemma_shape_push(gates: Seq<GateView>, gate: GateView)
    ensures
        shape(gates.push(gate)) == shape(gates).push(gate_shape(gate)),
{
    assert(shape(gates.push(gate)) =~= shape(gates).push(gate_shape(gate)));
}

/// A plan under construction.
#[derive(Clone, Debug, PartialEq, Eq)]
pub struct ConstraintPlan {
    pub gates: Vec<Gate>,
}

impl View for ConstraintPlan {
    type V = Seq<GateView>;

    open spec fn view(&self) -> Seq<GateView> {
        Seq::new(self.gates@.len(), |i: int| self.gates@[i]@)
    }
}

impl ConstraintPlan {
    /// The plan without gates.
    pub fn new() -> (plan: ConstraintPlan)
        ensures
            plan@ == Seq::<GateView>::empty(),
    {
        let plan = ConstraintPlan { gates: Vec::new() };
        assert(plan@ =~= Seq::<GateView>::empty());
        plan
    }

    /// Adds a gate and hands back its wire.
    pub fn push(&mut self, gate: Gate) -> (wire: usize)
        ensures
            final(self)@ == old(self)@.push(gate@),
            wire == old(self)@.len(),
    {
        let wire = self.gates.len();
        self.gates.push(gate);
        assert(self@ =~= old(self)@.push(gate@));
        wire
    }

    /// Allocates a public input.
    pub fn input(&mut self, value: Option<FieldElement>) -> (wire: usize)
        ensures
            final(self)@ == old(self)@.push(GateView::Input(optional_value(value))),
            wire == old(self)@.len(),
    {
        self.push(Gate::Input(value))
    }

    /// Allocates a private field element.
    pub fn witness(&mut self, value: Option<FieldElement>) -> (wire: usize)
        ensures
            final(self)@ == old(self)@.push(GateView::Witness(optional_value(value))),
            wire == old(self)@.len(),
    {
        self.push(Gate::Witness(value))
    }

    /// Allocates a private bit.
    pub fn boolean_witness(&mut self, bit: Option<bool>) -> (wire: usize)
        ensures
            final(self)@ == old(self)@.push(GateView::BooleanWitness(bit)),
            wire == old(self)@.len(),
    {
        self.push(Gate::BooleanWitness(bit))
    }

    /// Adds a constant.
    pub fn constant(&mut self, value: FieldElement) -> (wire: usize)
        ensures
            final(self)@ == old(self)@.push(GateView::Constant(value@)),
            wire == old(self)@.len(),
    {
        self.push(Gate::Constant(value))
    }

    /// Hashes three wires.
    pub fn hash3(&mut self, a: usize, b: usize, c: usize) -> (wire: usize)
        ensures
            final(self)@ == old(self)@.push(GateView::Hash(seq![a as int, b as int, c as int])),
            wire == old(self)@.len(),
    {
        let wires = vec![a, b, c];
        assert(wire_numbers(wires@) =~= seq![a as int, b as int, c as int]);
        self.push(Gate::Hash(wires))
    }

    /// Hashes four wires.
    pub fn hash4(&mut self, a: usize, b: usize, c: usize, d: usize) -> (wire: usize)
        ensures
            final(self)@ == old(self)@.push(
                GateView::Hash(seq![a as int, b as int, c as int, d as int]),
            ),
            wire == old(self)@.len(),
    {
        let wires = vec![a, b, c, d];
        assert(wire_numbers(wires@) =~= seq![a as int, b as int, c as int, d as int]);
        self.push(Gate::Hash(wires))
    }

    /// Picks one of two wires by a bit.
    pub fn select(&mut self, flag: usize, if_set: usize, if_clear: usize) -> (wire: usize)
        ensures
            final(self)@ == old(self)@.push(
                GateView::Select {
                    flag: flag as int,
                    if_set: if_set as int,
                    if_clear: if_clear as int,
                },
            ),
            wire == old(self)@.len(),
    {
        self.push(Gate::Select { flag, if_set, if_clear })
    }

    /// Demands that two wires bear the same element.
    pub fn enforce_equal(&mut self, left: usize, right: usize)
        ensures
            final(self)@ == old(self)@.push(
                GateView::EnforceEqual { left: left as int, right: right as int },
            ),
    {
        let _ = self.push(Gate::EnforceEqual { left, right });
    }

    /// Number of gates.
    pub fn len(&self) -> (n: usize)
        ensures
            n == self@.len(),
    {
        self.gates.len()
    }
}

/// What a wire bears when a plan is evaluated.
#[derive(Clone, Copy, Debug, PartialEq, Eq)]
pub enum WireValue {
    Element(FieldElement),
    Bit(bool),
    Nothing,
}

impl View for WireValue {
    type V = Value;

    open spec fn view(&self) -> Value {
        match *self {
            WireValue::Element(element) => Value::Element(element@),
            WireValue::Bit(bit) => Value::Bit(bit),
            WireValue::Nothing => Value::Nothing,
        }
    }
}

/// What a list of wires bears.
pub open spec fn wire_values(wires: Seq<WireValue>) -> Seq<Value> {
    Seq::new(wires.len(), |i: int| wires[i]@)
}

/// A plan whose first gates have no trace has none.
pub proof fn lemma_no_trace_stays(params: PoseidonParamsView, gates: Seq<GateView>, first: int)
    requires
        0 <= first <= gates.len(),
        run(params, gates.subrange(0, first)) is None,
    ensures
        run(params, gates) is None,
    decreases gates.len(),
{
    if first == gates.len() {
        assert(gates.subrange(0, first) =~= gates);
    } else {
        assert(gates.drop_last().subrange(0, first) =~= gates.subrange(0, first));
        lemma_no_trace_stays(params, gates.drop_last(), first);
    }
}

/// The element that a wire bears, if it bears one.
fn element_on(wires: &Vec<WireValue>, wire: usize) -> (res: Option<FieldElement>)
    ensures
        optional_value(res) == element_at(wire_values(wires@), wire as int),
{
    if wire < wires.len() {
        match wires[wire] {
            WireValue::Element(element) => Some(element),
            _ => None,
        }
    } else {
        None
    }
}

/// The bit that a wire bears, if it bears one.
fn bit_on(wires: &Vec<WireValue>, wire: usize) -> (res: Option<bool>)
    ensures
        res == bit_at(wire_values(wires@), wire as int),
{
    if wire < wires.len() {
        match wires[wire] {
            WireValue::Bit(bit) => Some(bit),
            _ => None,
        }
    } else {
        None
    }
}

/// The elements that a list of wires bears, if each of them bears one.
fn elements_on(wires: &Vec<WireValue>, list: &Vec<usize>) -> (res: Option<Vec<FieldElement>>)
    ensures
        match res {
            Some(elements) => elements_at(wire_values(wires@), wire_numbers(list@)) == Some(
                values(elements@),
            ),
            None => elements_at(wire_values(wires@), wire_numbers(list@)) is None,
        },
{
    let mut elements: Vec<FieldElement> = Vec::with_capacity(list.len());
    let mut idx: usize = 0;
    while idx < list.len()
        invariant
            idx <= list@.len(),
            elements@.len() == idx,
            forall|j: int|
                0 <= j < idx ==> element_at(
                    wire_values(wires@),
                    #[trigger] wire_numbers(list@)[j],
                ) == Some(elements@[j]@),
        decreases list@.len() - idx,
    {
        match element_on(wires, list[idx]) {
            Some(element) => {
                elements.push(element);
            },
            None => {
                assert(element_at(wire_values(wires@), wire_numbers(list@)[idx as int]) is None);
                return None;
            },
        }
        idx = idx + 1;
    }
    assert(elements_at(wire_values(wires@), wire_numbers(list@)).unwrap() =~= values(elements@));
    Some(elements)
}

impl ConstraintPlan {
    /// Evaluates the plan on the assignment that it carries: whether every
    /// demand is met, or nothing where a gate lacks its assignment or refers
    /// to a wire that does not bear what it needs.
    pub fn evaluate(&self, params: &PoseidonParams) -> (res: Option<bool>)
        ensures
            res == match run(params@, self@) {
                Some(trace) => Some(trace.holds),
                None => None,
            },
    {
        let mut wires: Vec<WireValue> = Vec::with_capacity(self.gates.len());
        let mut holds = true;
        let mut idx: usize = 0;
        proof {
            assert(self@.subrange(0, 0) =~= Seq::<GateView>::empty());
            assert(wire_values(wires@) =~= Seq::<Value>::empty());
        }
        while idx < self.gates.len()
            invariant
                idx <= self.gates@.len(),
                wires@.len() == idx,
                run(params@, self@.subrange(0, idx as int)) == Some(
                    Trace { wires: wire_values(wires@), holds },
                ),
            decreases self.gates@.len() - idx,
        {
            let ghost before = wire_values(wires@);
            proof {
                assert(self@.subrange(0, idx + 1) =~= self@.subrange(0, idx as int).push(
                    self@[idx as int],
                ));
                lemma_run_push(params@, self@.subrange(0, idx as int), self@[idx as int]);
            }
            let value = match &self.gates[idx] {
                Gate::Input(Some(element)) => Some(WireValue::Element(*element)),
                Gate::Witness(Some(element)) => Some(WireValue::Element(*element)),
                Gate::Constant(element) => Some(WireValue::Element(*element)),
                Gate::BooleanWitness(Some(bit)) => Some(WireValue::Bit(*bit)),
                Gate::Input(None) | Gate::Witness(None) | Gate::BooleanWitness(None) => None,
                Gate::Hash(list) => match elements_on(&wires, list) {
                    Some(elements) => Some(
                        WireValue::Element(poseidon_hash_native(params, &elements)),
                    ),
                    None => None,
                },
                Gate::Select { flag, if_set, if_clear } => match (
                    bit_on(&wires, *flag),
                    element_on(&wires, *if_set),
                    element_on(&wires, *if_clear),
                ) {
                    (Some(bit), Some(set), Some(clear)) => Some(
                        WireValue::Element(
                            if bit {
                                set
                            } else {
                                clear
                            },
                        ),
                    ),
                    _ => None,
                },
                Gate::EnforceEqual { left, right } => match (
                    element_on(&wires, *left),
                    element_on(&wires, *right),
                ) {
                    (Some(l), Some(r)) => {
                        holds = holds && l.eq(&r);
                        Some(WireValue::Nothing)
                    },
                    _ => None,
                },
            };
            match value {
                Some(value) => {
                    wires.push(value);
                    assert(wire_values(wires@) =~= before.push(value@));
                },
                None => {
                    proof {
                        lemma_no_trace_stays(params@, self@, idx + 1);
                    }
                    return None;
                },
            }
            idx = idx + 1;
        }
        assert(self@.subrange(0, idx as int) =~= self@);
        Some(holds)
    }
}

} // verus!
