use ark_bn254::{Bn254, Fr};
use ark_crypto_primitives::sponge::constraints::CryptographicSpongeVar;
use ark_crypto_primitives::sponge::poseidon::constraints::PoseidonSpongeVar;
use ark_crypto_primitives::sponge::poseidon::PoseidonConfig;
use ark_ff::{BigInteger, PrimeField};
use ark_groth16::{Groth16, ProvingKey};
use ark_r1cs_std::alloc::AllocVar;
use ark_r1cs_std::boolean::Boolean;
use ark_r1cs_std::eq::EqGadget;
use ark_r1cs_std::fields::fp::FpVar;
use ark_r1cs_std::fields::FieldVar;
use ark_r1cs_std::select::CondSelectGadget;
use ark_relations::r1cs::{
    ConstraintSynthesizer, ConstraintSystem, ConstraintSystemRef, SynthesisError,
};
use ark_serialize::CanonicalSerialize;
use ark_std::rand::rngs::StdRng;
use ark_std::rand::SeedableRng;
use privacy_circuits::circuit::{ConstraintPlan, Gate};
use privacy_circuits::circuit::SynthesisError as PlanError;
use privacy_circuits::continuity::builder::{
    build_instance_v1 as build_continuity_v1, build_instance_v2 as build_continuity_v2,
};
use privacy_circuits::continuity::circuit::{
    build_circuit as build_continuity_circuit, build_circuit_v2 as build_continuity_circuit_v2,
    setup_circuit as continuity_setup_circuit, ContinuityCircuit, ContinuityCircuitV2,
};
use privacy_circuits::continuity::schema::{
    domain_sep_fr, ContinuityPublicInputs, CONTINUITY_V2_DEFAULT_CTX_HASH,
};
use privacy_circuits::continuity::verification::{
    verify_continuity, verify_continuity_v1_bytes, verify_continuity_v2,
};
use privacy_circuits::error::{Error, Field, SchemaError, Scope};
use privacy_circuits::field::{fr_from_fixed_bytes, fr_to_fixed_bytes, FieldElement};
use privacy_circuits::groth16::{check_key, verify, VerifyError};
use privacy_circuits::membership::builder::{
    make_membership_instance_v1, make_membership_instance_v2,
};
use privacy_circuits::membership::circuit::{
    build_circuit, build_circuit_v2, setup_circuit, setup_circuit_v2, MembershipCircuit,
    MembershipCircuitV2,
};
use privacy_circuits::membership::schema::{
    membership_v2_domain_sep_fr, MembershipPublicInputs, MERKLE_DEPTH,
};
use privacy_circuits::membership::verification::{
    verify_membership, verify_membership_v1_bytes, verify_membership_v2,
    verify_membership_v2_bytes,
};
use privacy_circuits::merkle::compute_root;
use privacy_circuits::poseidon::poseidon_hash_native;
use privacy_circuits::unlinkability::builder::build_instance_v2 as build_unlinkability_v2;
use privacy_circuits::unlinkability::circuit::{
    build_circuit_v2 as build_unlinkability_circuit,
    setup_circuit_v2 as unlinkability_setup_circuit,
};
use privacy_circuits::unlinkability::verification::{
    verify_unlinkability_v2, verify_unlinkability_v2_bytes,
};
use privacy_circuits::wire::WireError;
use privacy_circuits::poseidon::{
    commitment_hash, leaf_hash, node_hash, poseidon_hash_leaf_v2, poseidon_params, PoseidonParams,
};
use privacy_circuits::unlinkability::circuit::UnlinkabilityCircuitV2;
use privacy_circuits::unlinkability::schema::{domain_sep_v2_fr, tag_hash};

fn fe(n: u64) -> FieldElement {
    FieldElement::from_u64(n)
}

fn to_fr(element: &FieldElement) -> Fr {
    Fr::from_be_bytes_mod_order(&fr_to_fixed_bytes(element))
}

fn from_fr(element: Fr) -> FieldElement {
    let bytes: [u8; 32] = element.into_bigint().to_bytes_be().try_into().unwrap();
    fr_from_fixed_bytes(Field::Root, &bytes).unwrap()
}

fn matrix(rows: &Vec<Vec<FieldElement>>) -> Vec<Vec<Fr>> {
    rows.iter().map(|row| row.iter().map(to_fr).collect()).collect()
}

fn sponge_config(params: &PoseidonParams) -> PoseidonConfig<Fr> {
    PoseidonConfig::new(
        params.full_rounds(),
        params.partial_rounds(),
        params.alpha(),
        matrix(params.mds()),
        matrix(params.ark()),
        params.rate(),
        params.capacity(),
    )
}

enum Wire {
    Element(FpVar<Fr>),
    Bit(Boolean<Fr>),
    Nothing,
}

fn element(wires: &[Wire], wire: usize) -> Result<FpVar<Fr>, SynthesisError> {
    match wires.get(wire) {
        Some(Wire::Element(var)) => Ok(var.clone()),
        _ => Err(SynthesisError::Unsatisfiable),
    }
}

fn bit(wires: &[Wire], wire: usize) -> Result<Boolean<Fr>, SynthesisError> {
    match wires.get(wire) {
        Some(Wire::Bit(var)) => Ok(var.clone()),
        _ => Err(SynthesisError::Unsatisfiable),
    }
}

#[derive(Clone)]
struct Synthesizer(ConstraintPlan);

impl ConstraintSynthesizer<Fr> for Synthesizer {
    fn generate_constraints(self, cs: ConstraintSystemRef<Fr>) -> Result<(), SynthesisError> {
        let config = sponge_config(&poseidon_params());
        let mut wires: Vec<Wire> = Vec::new();
        for gate in self.0.gates {
            let wire = match gate {
                Gate::Input(value) => Wire::Element(FpVar::new_input(cs.clone(), || {
                    value.map(|v| to_fr(&v)).ok_or(SynthesisError::AssignmentMissing)
                })?),
                Gate::Witness(value) => Wire::Element(FpVar::new_witness(cs.clone(), || {
                    value.map(|v| to_fr(&v)).ok_or(SynthesisError::AssignmentMissing)
                })?),
                Gate::BooleanWitness(value) => Wire::Bit(Boolean::new_witness(cs.clone(), || {
                    value.ok_or(SynthesisError::AssignmentMissing)
                })?),
                Gate::Constant(value) => Wire::Element(FpVar::constant(to_fr(&value))),
                Gate::Hash(inputs) => {
                    let mut vars = Vec::new();
                    for input in inputs {
                        vars.push(element(&wires, input)?);
                    }
                    let mut sponge = PoseidonSpongeVar::<Fr>::new(cs.clone(), &config);
                    sponge.absorb(&vars.as_slice())?;
                    Wire::Element(sponge.squeeze_field_elements(1)?.remove(0))
                }
                Gate::Select { flag, if_set, if_clear } => Wire::Element(
                    bit(&wires, flag)?
                        .select(&element(&wires, if_set)?, &element(&wires, if_clear)?)?,
                ),
                Gate::EnforceEqual { left, right } => {
                    let (left, right) = (element(&wires, left)?, element(&wires, right)?);
                    if let (FpVar::Constant(l), FpVar::Constant(r)) = (&left, &right) {
                        if l != r {
                            return Err(SynthesisError::Unsatisfiable);
                        }
                    }
                    left.enforce_equal(&right)?;
                    Wire::Nothing
                }
            };
            wires.push(wire);
        }
        Ok(())
    }
}

fn satisfied(plan: ConstraintPlan) -> bool {
    let evaluated = plan.evaluate(&poseidon_params());
    let cs = ConstraintSystem::<Fr>::new_ref();
    let synthesized = match Synthesizer(plan).generate_constraints(cs.clone()) {
        Ok(()) => cs.is_satisfied().unwrap(),
        Err(SynthesisError::Unsatisfiable) => false,
        Err(other) => panic!("{other}"),
    };
    assert_eq!(evaluated, Some(synthesized));
    synthesized
}

fn seeded(seed: u64) -> StdRng {
    StdRng::seed_from_u64(seed)
}

fn setup(plan: ConstraintPlan, rng: &mut StdRng) -> ProvingKey<Bn254> {
    Groth16::<Bn254>::generate_random_parameters_with_reduction(Synthesizer(plan), rng).unwrap()
}

fn prove(pk: &ProvingKey<Bn254>, plan: ConstraintPlan, rng: &mut StdRng) -> Vec<u8> {
    let proof =
        Groth16::<Bn254>::create_random_proof_with_reduction(Synthesizer(plan), pk, rng).unwrap();
    let mut bytes = Vec::new();
    proof.serialize_uncompressed(&mut bytes).unwrap();
    bytes
}

fn vk_bytes(pk: &ProvingKey<Bn254>) -> Vec<u8> {
    let mut bytes = Vec::new();
    pk.vk.serialize_uncompressed(&mut bytes).unwrap();
    bytes
}

#[test]
fn membership_circuit_accepts_valid_path() {
    let params = poseidon_params();
    let identity = fe(1);
    let blinding = fe(2);
    let commitment = commitment_hash(&params, identity, blinding);
    let leaf = leaf_hash(&params, commitment);

    let sibling_commitment = commitment_hash(&params, fe(3), fe(4));
    let sibling = leaf_hash(&params, sibling_commitment);
    let root = node_hash(&params, leaf, sibling);

    let circuit = MembershipCircuit {
        root: Some(root),
        commitment: Some(commitment),
        identity_scalar: Some(identity),
        blinding: Some(blinding),
        expected_depth: MERKLE_DEPTH,
        merkle_path: vec![(Some(sibling), Some(false))],
    };

    let plan = circuit.generate_constraints();
    assert!(plan.is_ok());
    assert!(satisfied(plan.unwrap()));
}

#[test]
fn membership_circuit_rejects_wrong_root() {
    let params = poseidon_params();
    let identity = fe(1);
    let blinding = fe(2);
    let commitment = commitment_hash(&params, identity, blinding);
    let leaf = leaf_hash(&params, commitment);

    let sibling_commitment = commitment_hash(&params, fe(3), fe(4));
    let sibling = leaf_hash(&params, sibling_commitment);
    let root = node_hash(&params, leaf, sibling);
    let wrong_root = from_fr(to_fr(&root) + Fr::from(1u64));

    let circuit = MembershipCircuit {
        root: Some(wrong_root),
        commitment: Some(commitment),
        identity_scalar: Some(identity),
        blinding: Some(blinding),
        expected_depth: MERKLE_DEPTH,
        merkle_path: vec![(Some(sibling), Some(false))],
    };

    let plan = circuit.generate_constraints();
    assert!(plan.is_ok());
    assert!(!satisfied(plan.unwrap()));
}

#[test]
fn membership_groth16_roundtrip() {
    let params = poseidon_params();
    let identity = fe(9);
    let blinding = fe(10);
    let commitment = commitment_hash(&params, identity, blinding);
    let leaf = leaf_hash(&params, commitment);

    let sibling_commitment = commitment_hash(&params, fe(11), fe(12));
    let sibling = leaf_hash(&params, sibling_commitment);
    let root = node_hash(&params, leaf, sibling);

    let circuit = MembershipCircuit {
        root: Some(root),
        commitment: Some(commitment),
        identity_scalar: Some(identity),
        blinding: Some(blinding),
        expected_depth: MERKLE_DEPTH,
        merkle_path: vec![(Some(sibling), Some(false))],
    };

    let mut rng = StdRng::seed_from_u64(42);
    let pk = setup(circuit.clone().generate_constraints().unwrap(), &mut rng);
    let proof = prove(&pk, circuit.generate_constraints().unwrap(), &mut rng);
    let public_inputs = MembershipPublicInputs { root, commitment };
    assert!(verify_membership(&vk_bytes(&pk), &public_inputs, &proof).unwrap());
}

#[test]
fn membership_circuit_depth_two_matches_root() {
    let depth = 2;
    let params = poseidon_params();
    let identity = fe(5);
    let blinding = fe(6);
    let commitment = commitment_hash(&params, identity, blinding);
    let leaf = leaf_hash(&params, commitment);

    let sibling_1 = node_hash(&params, commitment, fe(7));
    let sibling_2 = node_hash(&params, commitment, fe(8));

    let mut current = node_hash(&params, leaf, sibling_1);
    current = node_hash(&params, sibling_2, current);
    let root = current;

    let circuit = MembershipCircuit {
        root: Some(root),
        commitment: Some(commitment),
        identity_scalar: Some(identity),
        blinding: Some(blinding),
        expected_depth: depth,
        merkle_path: vec![(Some(sibling_1), Some(false)), (Some(sibling_2), Some(true))],
    };

    let plan = circuit.generate_constraints();
    assert!(plan.is_ok());
    assert!(satisfied(plan.unwrap()));
}

#[test]
fn membership_v2_domain_sep_tamper_fails() {
    let params = poseidon_params();
    let identity = fe(7);
    let blinding = fe(8);
    let ctx_hash = fe(9);
    let commitment = commitment_hash(&params, identity, blinding);
    let domain_sep = membership_v2_domain_sep_fr();
    let leaf = poseidon_hash_leaf_v2(&params, domain_sep, ctx_hash, commitment);

    let sibling = node_hash(&params, commitment, fe(11));
    let root = node_hash(&params, leaf, sibling);

    let circuit = MembershipCircuitV2 {
        root: Some(root),
        commitment: Some(commitment),
        domain_sep: Some(domain_sep),
        ctx_hash: Some(ctx_hash),
        identity_scalar: Some(identity),
        blinding: Some(blinding),
        expected_depth: 1,
        merkle_path: vec![(Some(sibling), Some(false))],
    };
    let plan = circuit.generate_constraints();
    assert!(plan.is_ok());
    assert!(satisfied(plan.unwrap()));

    let circuit = MembershipCircuitV2 {
        root: Some(root),
        commitment: Some(commitment),
        domain_sep: Some(fe(123)),
        ctx_hash: Some(ctx_hash),
        identity_scalar: Some(identity),
        blinding: Some(blinding),
        expected_depth: 1,
        merkle_path: vec![(Some(sibling), Some(false))],
    };
    let plan = circuit.generate_constraints();
    assert!(plan.is_ok());
    assert!(!satisfied(plan.unwrap()));
}

#[test]
fn membership_v2_ctx_hash_tamper_fails() {
    let params = poseidon_params();
    let identity = fe(12);
    let blinding = fe(13);
    let ctx_hash = fe(14);
    let commitment = commitment_hash(&params, identity, blinding);
    let domain_sep = membership_v2_domain_sep_fr();
    let leaf = poseidon_hash_leaf_v2(&params, domain_sep, ctx_hash, commitment);

    let sibling = node_hash(&params, commitment, fe(15));
    let root = node_hash(&params, leaf, sibling);

    let circuit = MembershipCircuitV2 {
        root: Some(root),
        commitment: Some(commitment),
        domain_sep: Some(domain_sep),
        ctx_hash: Some(ctx_hash),
        identity_scalar: Some(identity),
        blinding: Some(blinding),
        expected_depth: 1,
        merkle_path: vec![(Some(sibling), Some(false))],
    };
    let plan = circuit.generate_constraints();
    assert!(plan.is_ok());
    assert!(satisfied(plan.unwrap()));

    let circuit = MembershipCircuitV2 {
        root: Some(root),
        commitment: Some(commitment),
        domain_sep: Some(domain_sep),
        ctx_hash: Some(fe(99)),
        identity_scalar: Some(identity),
        blinding: Some(blinding),
        expected_depth: 1,
        merkle_path: vec![(Some(sibling), Some(false))],
    };
    let plan = circuit.generate_constraints();
    assert!(plan.is_ok());
    assert!(!satisfied(plan.unwrap()));
}

#[test]
fn membership_circuit_rejects_depth_zero_and_short_path() {
    let circuit = MembershipCircuit {
        root: Some(fe(0)),
        commitment: Some(fe(0)),
        identity_scalar: Some(fe(0)),
        blinding: Some(fe(0)),
        expected_depth: 0,
        merkle_path: vec![],
    };
    assert_eq!(
        circuit.generate_constraints().unwrap_err(),
        privacy_circuits::circuit::SynthesisError::Unsatisfiable
    );
    let circuit = MembershipCircuit {
        root: Some(fe(0)),
        commitment: Some(fe(0)),
        identity_scalar: Some(fe(0)),
        blinding: Some(fe(0)),
        expected_depth: 2,
        merkle_path: vec![(Some(fe(0)), Some(false))],
    };
    assert_eq!(
        circuit.generate_constraints().unwrap_err(),
        privacy_circuits::circuit::SynthesisError::Unsatisfiable
    );
}

#[test]
fn continuity_circuit_accepts_valid_witness() {
    let params = poseidon_params();
    let id = fe(2);
    let r1 = fe(3);
    let r2 = fe(4);
    let c1 = commitment_hash(&params, id, r1);
    let c2 = commitment_hash(&params, id, r2);

    let circuit = ContinuityCircuit {
        c1_hash: Some(c1),
        c2_hash: Some(c2),
        domain_sep: Some(domain_sep_fr()),
        id: Some(id),
        r1: Some(r1),
        r2: Some(r2),
    };

    let plan = circuit.generate_constraints();
    assert!(plan.is_ok());
    assert!(satisfied(plan.unwrap()));
}

#[test]
fn continuity_circuit_rejects_wrong_domain_sep() {
    let params = poseidon_params();
    let id = fe(2);
    let r1 = fe(3);
    let r2 = fe(4);
    let c1 = commitment_hash(&params, id, r1);
    let c2 = commitment_hash(&params, id, r2);

    let circuit = ContinuityCircuit {
        c1_hash: Some(c1),
        c2_hash: Some(c2),
        domain_sep: Some(fe(123)),
        id: Some(id),
        r1: Some(r1),
        r2: Some(r2),
    };

    let plan = circuit.generate_constraints();
    assert!(plan.is_ok());
    assert!(!satisfied(plan.unwrap()));
}

#[test]
fn continuity_groth16_roundtrip() {
    let params = poseidon_params();
    let id = fe(11);
    let r1 = fe(12);
    let r2 = fe(13);
    let c1 = commitment_hash(&params, id, r1);
    let c2 = commitment_hash(&params, id, r2);
    let domain_sep = domain_sep_fr();

    let circuit = ContinuityCircuit {
        c1_hash: Some(c1),
        c2_hash: Some(c2),
        domain_sep: Some(domain_sep),
        id: Some(id),
        r1: Some(r1),
        r2: Some(r2),
    };

    let mut rng = StdRng::seed_from_u64(42);
    let pk = setup(circuit.generate_constraints().unwrap(), &mut rng);
    let proof = prove(&pk, circuit.generate_constraints().unwrap(), &mut rng);
    let inputs = ContinuityPublicInputs { c1_hash: c1, c2_hash: c2, domain_sep };
    assert!(verify_continuity(&vk_bytes(&pk), &inputs, &proof).unwrap());
}

#[test]
fn unlinkability_circuit_accepts_valid_witness() {
    let params = poseidon_params();
    let id = fe(2);
    let blinding = fe(3);
    let ctx_hash = fe(4);
    let commitment = commitment_hash(&params, id, blinding);
    let domain_sep = domain_sep_v2_fr();
    let tag = tag_hash(&params, domain_sep, ctx_hash, commitment);

    let circuit = UnlinkabilityCircuitV2 {
        tag: Some(tag),
        domain_sep: Some(domain_sep),
        ctx_hash: Some(ctx_hash),
        id: Some(id),
        blinding: Some(blinding),
    };

    let plan = circuit.generate_constraints();
    assert!(plan.is_ok());
    assert!(satisfied(plan.unwrap()));
}

#[test]
fn unlinkability_circuit_rejects_wrong_tag() {
    let params = poseidon_params();
    let id = fe(2);
    let blinding = fe(3);
    let ctx_hash = fe(4);
    let commitment = commitment_hash(&params, id, blinding);
    let domain_sep = domain_sep_v2_fr();
    let tag = from_fr(
        to_fr(&tag_hash(&params, domain_sep, ctx_hash, commitment)) + Fr::from(1u64),
    );

    let circuit = UnlinkabilityCircuitV2 {
        tag: Some(tag),
        domain_sep: Some(domain_sep),
        ctx_hash: Some(ctx_hash),
        id: Some(id),
        blinding: Some(blinding),
    };

    let plan = circuit.generate_constraints();
    assert!(plan.is_ok());
    assert!(!satisfied(plan.unwrap()));
}

#[test]
fn unlinkability_circuit_rejects_wrong_domain_sep() {
    let params = poseidon_params();
    let id = fe(2);
    let blinding = fe(3);
    let ctx_hash = fe(4);
    let bad_domain_sep = fe(99);
    let commitment = commitment_hash(&params, id, blinding);
    let tag = tag_hash(&params, bad_domain_sep, ctx_hash, commitment);

    let circuit = UnlinkabilityCircuitV2 {
        tag: Some(tag),
        domain_sep: Some(bad_domain_sep),
        ctx_hash: Some(ctx_hash),
        id: Some(id),
        blinding: Some(blinding),
    };

    let plan = circuit.generate_constraints();
    assert!(plan.is_ok());
    assert!(!satisfied(plan.unwrap()));
}

#[test]
fn native_hash_is_the_hash_of_the_circuit() {
    let params = poseidon_params();
    for length in 0..8u64 {
        let inputs: Vec<FieldElement> = (0..length).map(|i| fe(100 + i)).collect();
        let expected = poseidon_hash_native(&params, &inputs);
        let mut plan = ConstraintPlan::new();
        let wires: Vec<usize> = inputs.iter().map(|input| plan.witness(Some(*input))).collect();
        let hash = plan.push(Gate::Hash(wires));
        let native = plan.constant(expected);
        plan.enforce_equal(hash, native);
        assert!(satisfied(plan.clone()), "length {length}");

        let other = plan.constant(fe(1));
        plan.enforce_equal(hash, other);
        assert!(!satisfied(plan), "length {length}");
    }
}

#[test]
fn plans_allocate_public_inputs_in_the_order_of_the_verifier() {
    let circuit = MembershipCircuitV2 {
        root: Some(fe(1)),
        commitment: Some(fe(2)),
        domain_sep: Some(fe(3)),
        ctx_hash: Some(fe(4)),
        identity_scalar: Some(fe(5)),
        blinding: Some(fe(6)),
        expected_depth: 1,
        merkle_path: vec![(Some(fe(7)), Some(true))],
    };
    let cs = ConstraintSystem::<Fr>::new_ref();
    Synthesizer(circuit.generate_constraints().unwrap()).generate_constraints(cs.clone()).unwrap();
    let assigned = cs.borrow().unwrap().instance_assignment.clone();
    assert_eq!(assigned, vec![Fr::from(1u64), to_fr(&fe(1)), to_fr(&fe(2)), to_fr(&fe(3)), to_fr(&fe(4))]);

    let circuit = ContinuityCircuitV2 {
        c1_hash: Some(fe(1)),
        c2_hash: Some(fe(2)),
        domain_sep: Some(fe(3)),
        ctx_hash: Some(fe(4)),
        id: Some(fe(5)),
        r1: Some(fe(6)),
        r2: Some(fe(7)),
    };
    let cs = ConstraintSystem::<Fr>::new_ref();
    Synthesizer(circuit.generate_constraints().unwrap()).generate_constraints(cs.clone()).unwrap();
    let assigned = cs.borrow().unwrap().instance_assignment.clone();
    assert_eq!(assigned, vec![Fr::from(1u64), to_fr(&fe(1)), to_fr(&fe(2)), to_fr(&fe(3)), to_fr(&fe(4))]);

    let circuit = UnlinkabilityCircuitV2 {
        tag: Some(fe(1)),
        domain_sep: Some(fe(2)),
        ctx_hash: Some(fe(3)),
        id: Some(fe(4)),
        blinding: Some(fe(5)),
    };
    let cs = ConstraintSystem::<Fr>::new_ref();
    Synthesizer(circuit.generate_constraints().unwrap()).generate_constraints(cs.clone()).unwrap();
    let assigned = cs.borrow().unwrap().instance_assignment.clone();
    assert_eq!(assigned, vec![Fr::from(1u64), to_fr(&fe(1)), to_fr(&fe(2)), to_fr(&fe(3))]);
}

#[test]
fn missing_assignment_fails_synthesis() {
    let circuit = ContinuityCircuit {
        c1_hash: Some(fe(1)),
        c2_hash: Some(fe(2)),
        domain_sep: Some(fe(3)),
        id: None,
        r1: Some(fe(6)),
        r2: Some(fe(7)),
    };
    let cs = ConstraintSystem::<Fr>::new_ref();
    assert_eq!(
        Synthesizer(circuit.generate_constraints().unwrap()).generate_constraints(cs).unwrap_err(),
        SynthesisError::AssignmentMissing
    );
    assert_eq!(circuit.generate_constraints().unwrap().evaluate(&poseidon_params()), None);
    let unassigned = MembershipCircuit { expected_depth: 1, ..MembershipCircuit::default() };
    assert_eq!(unassigned.generate_constraints().unwrap_err(), PlanError::Unsatisfiable);
    let unassigned = MembershipCircuit {
        expected_depth: 1,
        merkle_path: vec![(None, None)],
        ..MembershipCircuit::default()
    };
    assert_eq!(unassigned.generate_constraints().unwrap().evaluate(&poseidon_params()), None);
    assert_eq!(
        ContinuityCircuitV2::default().generate_constraints().unwrap().gates.len(),
        14
    );
    assert_eq!(UnlinkabilityCircuitV2::default().tag, None);
}

#[test]
fn plans_that_refer_to_missing_wires_have_no_value() {
    let params = poseidon_params();
    let mut plan = ConstraintPlan::new();
    let one = plan.constant(fe(1));
    plan.enforce_equal(one, 7);
    assert_eq!(plan.evaluate(&params), None);

    let mut plan = ConstraintPlan::new();
    let one = plan.constant(fe(1));
    let flag = plan.boolean_witness(Some(true));
    let _ = plan.select(one, one, flag);
    assert_eq!(plan.evaluate(&params), None);

    let mut plan = ConstraintPlan::new();
    let one = plan.constant(fe(1));
    let two = plan.constant(fe(2));
    let flag = plan.boolean_witness(Some(false));
    let picked = plan.select(flag, one, two);
    plan.enforce_equal(picked, two);
    assert_eq!(plan.len(), 5);
    assert_eq!(plan.evaluate(&params), Some(true));
    plan.enforce_equal(picked, one);
    assert_eq!(plan.evaluate(&params), Some(false));
    let _ = plan.hash3(one, flag, two);
    assert_eq!(plan.evaluate(&params), None);
}

#[test]
fn membership_v1_depth_two_scenario() {
    let params = poseidon_params();
    let commitment = commitment_hash(&params, fe(5), fe(6));
    let leaf = leaf_hash(&params, commitment);
    let sibling_1 = node_hash(&params, commitment, fe(7));
    let sibling_2 = node_hash(&params, commitment, fe(8));
    let expected_root = node_hash(&params, sibling_2, node_hash(&params, leaf, sibling_1));

    let (record, public_record) = make_membership_instance_v1(
        fr_to_fixed_bytes(&fe(5)),
        fr_to_fixed_bytes(&fe(6)),
        vec![fr_to_fixed_bytes(&sibling_1), fr_to_fixed_bytes(&sibling_2)],
        vec![false, true],
    )
    .unwrap();
    let (instance, depth) = record.into_instance_with_depth().unwrap();
    assert_eq!(depth, 2);
    assert_eq!(instance.public_inputs.root, expected_root);
    assert_eq!(instance.public_inputs.commitment, commitment);

    let pk = setup(setup_circuit(2).generate_constraints().unwrap(), &mut seeded(1));
    let vk = vk_bytes(&pk);
    let proof = prove(&pk, build_circuit(&instance).generate_constraints().unwrap(), &mut seeded(2));
    assert_eq!(verify_membership(&vk, &instance.public_inputs, &proof), Ok(true));
    assert_eq!(verify_membership_v1_bytes(&vk, &public_record.serialize(), &proof), Ok(true));

    let wrong = MembershipPublicInputs { root: fe(1), commitment };
    assert_eq!(verify_membership(&vk, &wrong, &proof), Ok(false));

    for level in 0..2 {
        let mut flipped = build_circuit(&instance);
        flipped.merkle_path[level].1 = flipped.merkle_path[level].1.map(|side| !side);
        assert!(!satisfied(flipped.generate_constraints().unwrap()));
    }
    let mut short = build_circuit(&instance);
    short.merkle_path.pop();
    assert_eq!(short.generate_constraints().unwrap_err(), PlanError::Unsatisfiable);
}

#[test]
fn membership_v2_depth_one_scenario() {
    let params = poseidon_params();
    let commitment = commitment_hash(&params, fe(7), fe(8));
    let domain_sep = membership_v2_domain_sep_fr();
    let leaf = poseidon_hash_leaf_v2(&params, domain_sep, fe(9), commitment);
    let sibling = node_hash(&params, commitment, fe(11));
    let expected_root = node_hash(&params, leaf, sibling);

    let (record, public_record) = make_membership_instance_v2(
        vec![7],
        vec![8],
        vec![fr_to_fixed_bytes(&sibling)],
        vec![false],
        vec![9],
    )
    .unwrap();
    let (instance, depth) = record.into_instance_with_depth().unwrap();
    assert_eq!(depth, 1);
    assert_eq!(instance.public_inputs.root, expected_root);
    assert_eq!(instance.public_inputs.root, compute_root(&params, leaf, &vec![(sibling, false)]));

    let pk = setup(setup_circuit_v2(1).generate_constraints().unwrap(), &mut seeded(3));
    let vk = vk_bytes(&pk);
    let proof = prove(&pk, build_circuit_v2(&instance).generate_constraints().unwrap(), &mut seeded(4));
    assert_eq!(verify_membership_v2(&vk, &instance.public_inputs, &proof), Ok(true));
    assert_eq!(verify_membership_v2_bytes(&vk, &public_record.serialize(), &proof), Ok(true));

    let mut other_context = instance.public_inputs.clone();
    other_context.ctx_hash = fe(99);
    assert_eq!(verify_membership_v2(&vk, &other_context, &proof), Ok(false));
    let mut other_context = public_record.clone();
    other_context.ctx_hash = fe(99).to_bytes();
    assert_eq!(verify_membership_v2_bytes(&vk, &other_context.serialize(), &proof), Ok(false));

    let mut other_separator = public_record;
    other_separator.domain_sep[0] ^= 1;
    assert_eq!(
        verify_membership_v2_bytes(&vk, &other_separator.serialize(), &proof),
        Err(Error::Schema(SchemaError::DomainSepMismatch { scope: Scope::PublicInputs }))
    );
}

#[test]
fn continuity_v1_scenario_proves_and_verifies() {
    let (record, public_record) = build_continuity_v1(fe(11), fe(12), fe(13));
    let instance = record.into_instance().unwrap();
    let pk = setup(continuity_setup_circuit().generate_constraints().unwrap(), &mut seeded(5));
    let vk = vk_bytes(&pk);
    let proof = prove(&pk, build_continuity_circuit(&instance).generate_constraints().unwrap(), &mut seeded(6));
    assert_eq!(verify_continuity(&vk, &instance.public_inputs, &proof), Ok(true));
    assert_eq!(verify_continuity_v1_bytes(&vk, &public_record.serialize(), &proof), Ok(true));

    let mut swapped = instance.public_inputs.clone();
    swapped.c1_hash = instance.public_inputs.c2_hash;
    swapped.c2_hash = instance.public_inputs.c1_hash;
    assert_eq!(verify_continuity(&vk, &swapped, &proof), Ok(false));

    assert_eq!(
        verify_continuity_v1_bytes(&vk, &public_record.serialize()[..40], &proof),
        Err(Error::Wire(WireError::UnexpectedEnd))
    );
    assert_eq!(
        verify_continuity_v1_bytes(&vk[..10], &public_record.serialize(), &proof),
        Err(Error::Verify(VerifyError::UnreadableKey))
    );
    assert_eq!(
        verify_continuity_v1_bytes(&vk, &public_record.serialize(), &proof[..10]),
        Err(Error::Verify(VerifyError::UnreadableProof))
    );
    assert_eq!(check_key(&vk), Ok(()));
    assert_eq!(check_key(&vk[..10]), Err(VerifyError::UnreadableKey));
    assert_eq!(check_key(&[]), Err(VerifyError::UnreadableKey));
    assert_eq!(
        verify_continuity_v1_bytes(&vk[..10], &public_record.serialize()[..40], &proof[..10]),
        Err(Error::Verify(VerifyError::UnreadableKey))
    );
    let mut other_separator = public_record.clone();
    other_separator.domain_sep[3] ^= 1;
    assert_eq!(
        verify_continuity_v1_bytes(&vk[..10], &other_separator.serialize(), &proof),
        Err(Error::Verify(VerifyError::UnreadableKey))
    );
    assert_eq!(
        verify_continuity_v1_bytes(&vk, &other_separator.serialize(), &proof[..10]),
        Err(Error::Schema(SchemaError::DomainSepMismatch { scope: Scope::PublicInputs }))
    );
    assert_eq!(
        verify_continuity_v1_bytes(&vk, &public_record.serialize()[..40], &proof[..10]),
        Err(Error::Wire(WireError::UnexpectedEnd))
    );
    assert_eq!(
        verify(&vk, &vec![fe(1)], &proof),
        Err(VerifyError::Synthesis(PlanError::MalformedVerifyingKey))
    );
}

#[test]
fn continuity_v2_scenario_proves_and_verifies() {
    let ctx_hash = fr_from_fixed_bytes(Field::CtxHash, &CONTINUITY_V2_DEFAULT_CTX_HASH).unwrap();
    let (record, _) = build_continuity_v2(fe(1), fe(2), fe(3), ctx_hash);
    let instance = record.into_instance().unwrap();
    let circuit = build_continuity_circuit_v2(&instance);
    let pk = setup(circuit.generate_constraints().unwrap(), &mut seeded(7));
    let vk = vk_bytes(&pk);
    let proof = prove(&pk, circuit.generate_constraints().unwrap(), &mut seeded(8));
    assert_eq!(verify_continuity_v2(&vk, &instance.public_inputs, &proof), Ok(true));
    let mut other_context = instance.public_inputs;
    other_context.ctx_hash = fe(5);
    assert_eq!(verify_continuity_v2(&vk, &other_context, &proof), Ok(false));
}

#[test]
fn unlinkability_scenario_and_cross_statement_rejection() {
    let (record, public_record) = build_unlinkability_v2(fe(2), fe(3), fe(4));
    let instance = record.into_instance().unwrap();
    let pk = setup(unlinkability_setup_circuit().generate_constraints().unwrap(), &mut seeded(9));
    let vk = vk_bytes(&pk);
    let proof =
        prove(&pk, build_unlinkability_circuit(&instance).generate_constraints().unwrap(), &mut seeded(10));
    assert_eq!(verify_unlinkability_v2(&vk, &instance.public_inputs, &proof), Ok(true));
    assert_eq!(verify_unlinkability_v2_bytes(&vk, &public_record.serialize(), &proof), Ok(true));

    let (other_record, _) = build_continuity_v1(fe(11), fe(12), fe(13));
    let other = other_record.into_instance().unwrap();
    let other_pk = setup(continuity_setup_circuit().generate_constraints().unwrap(), &mut seeded(11));
    let other_vk = vk_bytes(&other_pk);
    let other_proof =
        prove(&other_pk, build_continuity_circuit(&other).generate_constraints().unwrap(), &mut seeded(12));
    assert_eq!(verify_continuity(&other_vk, &other.public_inputs, &other_proof), Ok(true));

    assert_eq!(verify_unlinkability_v2(&other_vk, &instance.public_inputs, &proof), Ok(false));
    assert_eq!(verify_continuity(&vk, &other.public_inputs, &other_proof), Ok(false));
    assert_eq!(verify_continuity(&other_vk, &other.public_inputs, &proof), Ok(false));
}

#[test]
fn membership_keys_are_bound_to_their_depth() {
    let record = |depth: usize| {
        let siblings = (0..depth).map(|level| vec![7 + level as u8]).collect();
        let sides = (0..depth).map(|level| level % 2 == 0).collect();
        let (record, _) = make_membership_instance_v1(vec![5], vec![6], siblings, sides).unwrap();
        record.into_instance_with_depth().unwrap().0
    };
    let two = record(2);
    let three = record(3);
    let pk_two = setup(setup_circuit(2).generate_constraints().unwrap(), &mut seeded(13));
    let pk_three = setup(setup_circuit(3).generate_constraints().unwrap(), &mut seeded(14));
    let proof_two = prove(&pk_two, build_circuit(&two).generate_constraints().unwrap(), &mut seeded(15));
    let proof_three = prove(&pk_three, build_circuit(&three).generate_constraints().unwrap(), &mut seeded(16));

    assert_eq!(verify_membership(&vk_bytes(&pk_two), &two.public_inputs, &proof_two), Ok(true));
    assert_eq!(
        verify_membership(&vk_bytes(&pk_three), &three.public_inputs, &proof_three),
        Ok(true)
    );
    assert_eq!(verify_membership(&vk_bytes(&pk_three), &two.public_inputs, &proof_two), Ok(false));
    assert_eq!(
        verify_membership(&vk_bytes(&pk_two), &three.public_inputs, &proof_three),
        Ok(false)
    );
}

fn shape(plan: ConstraintPlan) -> Vec<Gate> {
    plan.gates
        .into_iter()
        .map(|gate| match gate {
            Gate::Input(_) => Gate::Input(None),
            Gate::Witness(_) => Gate::Witness(None),
            Gate::BooleanWitness(_) => Gate::BooleanWitness(None),
            other => other,
        })
        .collect()
}

#[test]
fn setup_plans_have_the_shape_of_the_plans_that_are_proved() {
    let (record, _) =
        make_membership_instance_v1(vec![5], vec![6], vec![vec![7], vec![8]], vec![false, true])
            .unwrap();
    let (instance, _) = record.into_instance_with_depth().unwrap();
    let real = shape(build_circuit(&instance).generate_constraints().unwrap());
    assert_eq!(real, shape(setup_circuit(2).generate_constraints().unwrap()));
    assert_ne!(real, shape(setup_circuit(3).generate_constraints().unwrap()));
    assert_ne!(real, shape(setup_circuit(1).generate_constraints().unwrap()));

    let (record, _) =
        make_membership_instance_v2(vec![5], vec![6], vec![vec![7]], vec![true], vec![9])
            .unwrap();
    let (instance, _) = record.into_instance_with_depth().unwrap();
    let real = shape(build_circuit_v2(&instance).generate_constraints().unwrap());
    assert_eq!(real, shape(setup_circuit_v2(1).generate_constraints().unwrap()));
    assert_ne!(real, shape(setup_circuit_v2(2).generate_constraints().unwrap()));

    let (record, _) = build_continuity_v1(fe(11), fe(12), fe(13));
    let instance = record.into_instance().unwrap();
    assert_eq!(
        shape(build_continuity_circuit(&instance).generate_constraints().unwrap()),
        shape(continuity_setup_circuit().generate_constraints().unwrap())
    );
    let (record, _) = build_unlinkability_v2(fe(2), fe(3), fe(4));
    let instance = record.into_instance().unwrap();
    assert_eq!(
        shape(build_unlinkability_circuit(&instance).generate_constraints().unwrap()),
        shape(unlinkability_setup_circuit().generate_constraints().unwrap())
    );
}
