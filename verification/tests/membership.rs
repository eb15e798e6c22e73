use privacy_circuits::error::{Field, SchemaError, Scope, VersionTag};
use privacy_circuits::field::{fr_to_fixed_bytes, FieldElement};
use privacy_circuits::membership::builder::{
    build_legacy_instance, build_v1_instance, build_v2_instance, make_membership_instance,
    make_membership_instance_v1, make_membership_instance_v2,
};
use privacy_circuits::membership::circuit::{
    build_circuit, build_circuit_v2, setup_circuit, setup_circuit_v2,
};
use privacy_circuits::membership::schema::{
    ensure_domain_sep, ensure_statement_type_version, ensure_version, ensure_version_u16,
    membership_v2_domain_sep_fr, MembershipInstanceBytes, MembershipInstanceV1Bytes,
    MembershipPublicInputsBytes, MembershipPublicInputsV1Bytes, MembershipPublicInputsV2Bytes,
    MembershipWitnessBytes, MembershipWitnessV1Bytes, MembershipWitnessV2Bytes,
    MerklePathNodeBytes, MEMBERSHIP_INSTANCE_VERSION_V1, MEMBERSHIP_INSTANCE_VERSION_V2,
    MEMBERSHIP_STATEMENT_TYPE, MEMBERSHIP_STATEMENT_VERSION_V2, MEMBERSHIP_V2_DEFAULT_CTX_HASH,
    MEMBERSHIP_V2_DOMAIN_SEP, MERKLE_DEPTH,
};
use privacy_circuits::merkle::compute_root;
use privacy_circuits::poseidon::{
    commitment_hash, leaf_hash, node_hash, poseidon_hash_leaf_v2, poseidon_params,
};

fn fe(n: u64) -> FieldElement {
    FieldElement::from_u64(n)
}

fn bytes_of(n: u64) -> Vec<u8> {
    fr_to_fixed_bytes(&fe(n))
}

#[test]
fn membership_instance_bytes_parse_roundtrip() {
    let root = fe(7);
    let commitment = fe(8);
    let identity = fe(9);
    let blinding = fe(10);
    let sibling = fe(11);

    let instance_bytes = MembershipInstanceBytes {
        public_inputs: MembershipPublicInputsBytes {
            root: fr_to_fixed_bytes(&root),
            commitment: fr_to_fixed_bytes(&commitment),
        },
        witness: MembershipWitnessBytes {
            identity_scalar: fr_to_fixed_bytes(&identity),
            blinding: fr_to_fixed_bytes(&blinding),
            merkle_path: vec![MerklePathNodeBytes {
                sibling: fr_to_fixed_bytes(&sibling),
                is_left: false,
            }],
        },
    };

    let instance = instance_bytes.into_instance().unwrap();
    assert_eq!(instance.public_inputs.root, root);
    assert_eq!(instance.public_inputs.commitment, commitment);
    assert_eq!(instance.witness.identity_scalar, identity);
    assert_eq!(instance.witness.blinding, blinding);
    assert_eq!(instance.witness.merkle_path.len(), MERKLE_DEPTH);
}

#[test]
fn membership_v1_witness_length_mismatch_fails() {
    let witness = MembershipWitnessV1Bytes {
        version: MEMBERSHIP_INSTANCE_VERSION_V1,
        depth: 2,
        identity_scalar: bytes_of(1),
        blinding: bytes_of(2),
        merkle_siblings: vec![bytes_of(3)],
        merkle_directions: vec![false, true],
    };

    let err = witness.into_witness(2).unwrap_err();
    assert_eq!(err, SchemaError::SiblingsLengthMismatch { expected: 2, got: 1 });
    assert!(err.message().contains("merkle_siblings length mismatch"));
}

#[test]
fn membership_v1_instance_depth_mismatch_fails() {
    let public_inputs = MembershipPublicInputsV1Bytes {
        version: MEMBERSHIP_INSTANCE_VERSION_V1,
        depth: 1,
        root: bytes_of(7),
        commitment: bytes_of(8),
    };
    let witness = MembershipWitnessV1Bytes {
        version: MEMBERSHIP_INSTANCE_VERSION_V1,
        depth: 2,
        identity_scalar: bytes_of(1),
        blinding: bytes_of(2),
        merkle_siblings: vec![bytes_of(3), bytes_of(4)],
        merkle_directions: vec![false, true],
    };
    let instance = MembershipInstanceV1Bytes {
        version: MEMBERSHIP_INSTANCE_VERSION_V1,
        public_inputs,
        witness,
    };

    let err = instance.into_instance_with_depth().unwrap_err();
    assert_eq!(err, SchemaError::InstanceDepthMismatch { public_inputs: 1, witness: 2 });
    assert!(err.message().contains("instance.depth mismatch"));
}

#[test]
fn membership_checks_report_what_they_found() {
    assert_eq!(ensure_version(Scope::Witness, 1, 1), Ok(()));
    assert_eq!(
        ensure_version(Scope::Witness, 2, 1),
        Err(SchemaError::VersionMismatch {
            scope: Scope::Witness,
            tag: VersionTag::Version,
            expected: 1,
            got: 2
        })
    );
    assert_eq!(ensure_version_u16(Scope::Instance, 2, 2), Ok(()));
    assert_eq!(
        ensure_version_u16(Scope::Instance, 513, 2),
        Err(SchemaError::VersionMismatch {
            scope: Scope::Instance,
            tag: VersionTag::SchemaVersion,
            expected: 2,
            got: 513
        })
    );
    assert_eq!(ensure_statement_type_version(1, 2), Ok(()));
    assert_eq!(
        ensure_statement_type_version(3, 7),
        Err(SchemaError::StatementTypeMismatch { expected: 1, got: 3 })
    );
    assert_eq!(
        ensure_statement_type_version(1, 7),
        Err(SchemaError::StatementVersionMismatch { expected: 2, got: 7 })
    );
    assert_eq!(ensure_domain_sep(Scope::PublicInputs, &MEMBERSHIP_V2_DOMAIN_SEP), Ok(()));
    let mut tampered = MEMBERSHIP_V2_DOMAIN_SEP;
    tampered[31] ^= 1;
    assert_eq!(
        ensure_domain_sep(Scope::PublicInputs, &tampered),
        Err(SchemaError::DomainSepMismatch { scope: Scope::PublicInputs })
    );
    assert_eq!(&MEMBERSHIP_V2_DOMAIN_SEP, b"SNARK_MEMBERSHIP_V2_____________");
    assert_eq!(&MEMBERSHIP_V2_DEFAULT_CTX_HASH, b"MEMBERSHIP_CTX_V2_______________");
}

#[test]
fn membership_legacy_validation_order() {
    let good = || MembershipWitnessBytes {
        identity_scalar: bytes_of(1),
        blinding: bytes_of(2),
        merkle_path: vec![MerklePathNodeBytes { sibling: bytes_of(3), is_left: true }],
    };
    let witness = good().into_witness().unwrap();
    assert_eq!(witness.merkle_path, vec![(fe(3), true)]);

    let mut two_levels = good();
    two_levels.merkle_path.push(MerklePathNodeBytes { sibling: vec![], is_left: false });
    assert_eq!(
        two_levels.into_witness().unwrap_err(),
        SchemaError::PathLengthMismatch { expected: 1, got: 2 }
    );

    let mut bad_sibling = good();
    bad_sibling.merkle_path[0].sibling = vec![];
    bad_sibling.identity_scalar = vec![];
    assert_eq!(
        bad_sibling.into_witness().unwrap_err(),
        SchemaError::EmptyFieldBytes { field: Field::PathSibling(0) }
    );

    let mut bad_identity = good();
    bad_identity.identity_scalar = vec![0; 33];
    bad_identity.blinding = vec![];
    assert_eq!(
        bad_identity.into_witness().unwrap_err(),
        SchemaError::OversizedFieldBytes { field: Field::IdentityScalar, len: 33 }
    );

    let mut bad_blinding = good();
    bad_blinding.blinding = vec![];
    assert_eq!(
        bad_blinding.into_witness().unwrap_err(),
        SchemaError::EmptyFieldBytes { field: Field::Blinding }
    );

    let public = MembershipPublicInputsBytes { root: vec![], commitment: vec![] };
    assert_eq!(
        public.into_public_inputs().unwrap_err(),
        SchemaError::EmptyFieldBytes { field: Field::Root }
    );
    let public = MembershipPublicInputsBytes { root: vec![1], commitment: vec![2; 40] };
    assert_eq!(
        public.into_public_inputs().unwrap_err(),
        SchemaError::OversizedFieldBytes { field: Field::Commitment, len: 40 }
    );
}

#[test]
fn membership_v1_validation_order() {
    let good = || MembershipWitnessV1Bytes {
        version: 1,
        depth: 2,
        identity_scalar: bytes_of(1),
        blinding: bytes_of(2),
        merkle_siblings: vec![bytes_of(3), bytes_of(4)],
        merkle_directions: vec![false, true],
    };
    let witness = good().into_witness(2).unwrap();
    assert_eq!(witness.identity_scalar, fe(1));
    assert_eq!(witness.blinding, fe(2));
    assert_eq!(witness.merkle_path, vec![(fe(3), false), (fe(4), true)]);

    let mut wrong = good();
    wrong.version = 2;
    wrong.depth = 9;
    assert_eq!(
        wrong.into_witness(2).unwrap_err(),
        SchemaError::VersionMismatch {
            scope: Scope::Witness,
            tag: VersionTag::Version,
            expected: 1,
            got: 2
        }
    );

    let mut wrong = good();
    wrong.depth = 3;
    wrong.merkle_siblings.pop();
    assert_eq!(
        wrong.into_witness(2).unwrap_err(),
        SchemaError::WitnessDepthMismatch { expected: 2, got: 3 }
    );

    let mut wrong = good();
    wrong.merkle_directions.push(true);
    assert_eq!(
        wrong.into_witness(2).unwrap_err(),
        SchemaError::DirectionsLengthMismatch { expected: 2, got: 3 }
    );

    let mut wrong = good();
    wrong.merkle_siblings[1] = vec![0; 33];
    wrong.identity_scalar = vec![];
    assert_eq!(
        wrong.into_witness(2).unwrap_err(),
        SchemaError::OversizedFieldBytes { field: Field::Sibling(1), len: 33 }
    );

    let mut wrong = good();
    wrong.merkle_siblings[0] = vec![];
    wrong.merkle_siblings[1] = vec![];
    assert_eq!(
        wrong.into_witness(2).unwrap_err(),
        SchemaError::EmptyFieldBytes { field: Field::Sibling(0) }
    );

    let public = MembershipPublicInputsV1Bytes {
        version: 1,
        depth: 0,
        root: bytes_of(7),
        commitment: bytes_of(8),
    };
    assert_eq!(public.into_public_inputs_with_depth().unwrap_err(), SchemaError::ZeroDepth);
    let public = MembershipPublicInputsV1Bytes {
        version: 3,
        depth: 0,
        root: bytes_of(7),
        commitment: bytes_of(8),
    };
    assert_eq!(
        public.into_public_inputs_with_depth().unwrap_err(),
        SchemaError::VersionMismatch {
            scope: Scope::PublicInputs,
            tag: VersionTag::Version,
            expected: 1,
            got: 3
        }
    );
    let public = MembershipPublicInputsV1Bytes {
        version: 1,
        depth: 16,
        root: bytes_of(7),
        commitment: bytes_of(8),
    };
    let (inputs, depth) = public.into_public_inputs_with_depth().unwrap();
    assert_eq!(depth, 16);
    assert_eq!(inputs.root, fe(7));
    assert_eq!(inputs.commitment, fe(8));
}

#[test]
fn membership_v2_validation_order() {
    let good = || MembershipPublicInputsV2Bytes {
        schema_version: MEMBERSHIP_INSTANCE_VERSION_V2,
        statement_type: MEMBERSHIP_STATEMENT_TYPE,
        statement_version: MEMBERSHIP_STATEMENT_VERSION_V2,
        depth: 3,
        root: fe(7).to_bytes(),
        commitment: fe(8).to_bytes(),
        domain_sep: MEMBERSHIP_V2_DOMAIN_SEP,
        ctx_hash: fe(9).to_bytes(),
    };
    let (inputs, depth) = good().into_public_inputs_with_depth().unwrap();
    assert_eq!(depth, 3);
    assert_eq!(inputs.root, fe(7));
    assert_eq!(inputs.commitment, fe(8));
    assert_eq!(inputs.domain_sep, membership_v2_domain_sep_fr());
    assert_eq!(inputs.ctx_hash, fe(9));

    let mut wrong = good();
    wrong.schema_version = 1;
    wrong.statement_type = 3;
    assert_eq!(
        wrong.into_public_inputs_with_depth().unwrap_err(),
        SchemaError::VersionMismatch {
            scope: Scope::PublicInputs,
            tag: VersionTag::SchemaVersion,
            expected: 2,
            got: 1
        }
    );
    let mut wrong = good();
    wrong.statement_type = 3;
    wrong.statement_version = 1;
    assert_eq!(
        wrong.into_public_inputs_with_depth().unwrap_err(),
        SchemaError::StatementTypeMismatch { expected: 1, got: 3 }
    );
    let mut wrong = good();
    wrong.statement_version = 1;
    wrong.domain_sep = [0; 32];
    assert_eq!(
        wrong.into_public_inputs_with_depth().unwrap_err(),
        SchemaError::StatementVersionMismatch { expected: 2, got: 1 }
    );
    let mut wrong = good();
    wrong.domain_sep[0] ^= 1;
    wrong.depth = 0;
    assert_eq!(
        wrong.into_public_inputs_with_depth().unwrap_err(),
        SchemaError::DomainSepMismatch { scope: Scope::PublicInputs }
    );
    let mut wrong = good();
    wrong.depth = 0;
    assert_eq!(wrong.into_public_inputs_with_depth().unwrap_err(), SchemaError::ZeroDepth);

    let witness = MembershipWitnessV2Bytes {
        schema_version: 2,
        depth: 1,
        identity_scalar: bytes_of(1),
        blinding: bytes_of(2),
        merkle_siblings: vec![bytes_of(3)],
        merkle_directions: vec![true],
    };
    assert_eq!(witness.clone().into_witness(1).unwrap().merkle_path, vec![(fe(3), true)]);
    assert_eq!(
        witness.into_witness(2).unwrap_err(),
        SchemaError::WitnessDepthMismatch { expected: 2, got: 1 }
    );
}

#[test]
fn membership_builders_state_the_root_of_the_path() {
    let params = poseidon_params();
    let commitment = commitment_hash(&params, fe(5), fe(6));
    let leaf = leaf_hash(&params, commitment);

    let (instance, public_inputs) =
        make_membership_instance(bytes_of(5), bytes_of(6), vec![bytes_of(7)], vec![false])
            .unwrap();
    assert_eq!(instance.public_inputs, public_inputs);
    assert_eq!(public_inputs.commitment, fr_to_fixed_bytes(&commitment));
    assert_eq!(
        public_inputs.root,
        fr_to_fixed_bytes(&compute_root(&params, leaf, &vec![(fe(7), false)]))
    );
    let decoded = instance.into_instance().unwrap();
    assert_eq!(decoded.witness.merkle_path, vec![(fe(7), false)]);

    let (instance, public_inputs) = make_membership_instance_v1(
        vec![5],
        vec![6],
        vec![vec![7], vec![8]],
        vec![false, true],
    )
    .unwrap();
    assert_eq!(instance.version, 1);
    assert_eq!(instance.witness.depth, 2);
    assert_eq!(instance.witness.identity_scalar, vec![5]);
    assert_eq!(public_inputs.depth, 2);
    assert_eq!(instance.public_inputs, public_inputs);
    let path = vec![(fe(7), false), (fe(8), true)];
    assert_eq!(public_inputs.root, fr_to_fixed_bytes(&compute_root(&params, leaf, &path)));
    let (decoded, depth) = instance.into_instance_with_depth().unwrap();
    assert_eq!(depth, 2);
    assert_eq!(decoded.witness.merkle_path, path);
    assert_eq!(decoded.public_inputs.commitment, commitment);

    let (instance, public_inputs) = make_membership_instance_v2(
        vec![5],
        vec![6],
        vec![vec![7]],
        vec![true],
        vec![9],
    )
    .unwrap();
    assert_eq!(instance.schema_version, 2);
    assert_eq!(public_inputs.statement_type, 1);
    assert_eq!(public_inputs.statement_version, 2);
    assert_eq!(public_inputs.domain_sep, MEMBERSHIP_V2_DOMAIN_SEP);
    assert_eq!(public_inputs.ctx_hash, fe(9).to_bytes());
    let first = poseidon_hash_leaf_v2(&params, membership_v2_domain_sep_fr(), fe(9), commitment);
    assert_eq!(
        public_inputs.root,
        compute_root(&params, first, &vec![(fe(7), true)]).to_bytes()
    );
    let (decoded, depth) = instance.into_instance_with_depth().unwrap();
    assert_eq!(depth, 1);
    assert_eq!(decoded.public_inputs.ctx_hash, fe(9));
}

#[test]
fn membership_builders_reject_bad_inputs() {
    assert_eq!(
        make_membership_instance(vec![1], vec![2], vec![vec![3]], vec![]).unwrap_err(),
        SchemaError::PathListsMismatch { siblings: 1, directions: 0 }
    );
    assert_eq!(
        make_membership_instance(vec![1], vec![2], vec![vec![3], vec![4]], vec![true, true])
            .unwrap_err(),
        SchemaError::PathLengthMismatch { expected: 1, got: 2 }
    );
    assert_eq!(
        make_membership_instance_v1(vec![1], vec![2], vec![], vec![]).unwrap_err(),
        SchemaError::EmptyPath
    );
    assert_eq!(
        make_membership_instance_v1(vec![], vec![2], vec![vec![]], vec![true]).unwrap_err(),
        SchemaError::EmptyFieldBytes { field: Field::Sibling(0) }
    );
    assert_eq!(
        make_membership_instance_v1(vec![], vec![2], vec![vec![3]], vec![true]).unwrap_err(),
        SchemaError::EmptyFieldBytes { field: Field::IdentityScalar }
    );
    assert_eq!(
        make_membership_instance_v2(vec![1], vec![2], vec![vec![3]], vec![true], vec![])
            .unwrap_err(),
        SchemaError::EmptyFieldBytes { field: Field::CtxHash }
    );
    assert_eq!(
        make_membership_instance_v2(vec![1], vec![2], vec![vec![3]], vec![true], vec![0; 33])
            .unwrap_err(),
        SchemaError::OversizedFieldBytes { field: Field::CtxHash, len: 33 }
    );
    assert_eq!(
        make_membership_instance_v2(vec![1], vec![0; 33], vec![vec![3]], vec![true], vec![1])
            .unwrap_err(),
        SchemaError::OversizedFieldBytes { field: Field::Blinding, len: 33 }
    );
}

#[test]
fn membership_circuits_are_built_from_records() {
    let (instance, _) =
        make_membership_instance_v1(vec![5], vec![6], vec![vec![7], vec![8]], vec![false, true])
            .unwrap();
    let (instance, depth) = instance.into_instance_with_depth().unwrap();
    let circuit = build_circuit(&instance);
    assert_eq!(circuit.expected_depth, depth);
    assert_eq!(circuit.root, Some(instance.public_inputs.root));
    assert_eq!(circuit.commitment, Some(instance.public_inputs.commitment));
    assert_eq!(circuit.identity_scalar, Some(fe(5)));
    assert_eq!(circuit.blinding, Some(fe(6)));
    assert_eq!(
        circuit.merkle_path,
        vec![(Some(fe(7)), Some(false)), (Some(fe(8)), Some(true))]
    );

    let (instance, _) =
        make_membership_instance_v2(vec![5], vec![6], vec![vec![7]], vec![true], vec![9])
            .unwrap();
    let (instance, _) = instance.into_instance_with_depth().unwrap();
    let circuit = build_circuit_v2(&instance);
    assert_eq!(circuit.expected_depth, 1);
    assert_eq!(circuit.domain_sep, Some(membership_v2_domain_sep_fr()));
    assert_eq!(circuit.ctx_hash, Some(fe(9)));
    assert_eq!(circuit.merkle_path, vec![(Some(fe(7)), Some(true))]);
}

#[test]
fn membership_setup_circuits_have_the_asked_depth() {
    let circuit = setup_circuit(3);
    assert_eq!(circuit.expected_depth, 3);
    assert_eq!(circuit.merkle_path, vec![(Some(fe(0)), Some(false)); 3]);
    assert_eq!(circuit.root, Some(fe(0)));
    let plan = circuit.generate_constraints().unwrap();
    assert_eq!(plan.gates.len(), 11 + 5 * 3 + 1);

    let params = poseidon_params();
    let commitment = commitment_hash(&params, fe(0), fe(0));
    let circuit = setup_circuit_v2(2);
    assert_eq!(circuit.expected_depth, 2);
    assert_eq!(circuit.root, Some(commitment));
    assert_eq!(circuit.commitment, Some(commitment));
    assert_eq!(circuit.domain_sep, Some(membership_v2_domain_sep_fr()));
    assert_eq!(circuit.merkle_path, vec![(Some(commitment), Some(false)); 2]);
    let plan = circuit.generate_constraints().unwrap();
    assert_eq!(plan.gates.len(), 13 + 5 * 2 + 1);
}

#[test]
fn membership_sample_records_are_valid() {
    let params = poseidon_params();
    let commitment = commitment_hash(&params, fe(1), fe(2));

    let (instance, public_inputs) = build_legacy_instance().unwrap();
    assert_eq!(instance.public_inputs, public_inputs);
    assert_eq!(instance.witness.identity_scalar, bytes_of(1));
    assert_eq!(instance.witness.blinding, bytes_of(2));
    let sibling = leaf_hash(&params, commitment_hash(&params, fe(3), fe(4)));
    assert_eq!(
        instance.witness.merkle_path,
        vec![MerklePathNodeBytes { sibling: fr_to_fixed_bytes(&sibling), is_left: false }]
    );
    let root = node_hash(&params, leaf_hash(&params, commitment), sibling);
    assert_eq!(public_inputs.root, fr_to_fixed_bytes(&root));
    assert!(instance.into_instance().is_ok());

    let (instance, public_inputs) = build_v1_instance(3).unwrap();
    assert_eq!(public_inputs.depth, 3);
    assert_eq!(instance.witness.merkle_directions, vec![true, false, true]);
    for level in 0..3 {
        assert_eq!(
            instance.witness.merkle_siblings[level],
            fr_to_fixed_bytes(&node_hash(&params, commitment, fe(level as u64 + 10)))
        );
    }
    let (decoded, depth) = instance.into_instance_with_depth().unwrap();
    assert_eq!(depth, 3);
    let first = leaf_hash(&params, commitment);
    assert_eq!(
        decoded.public_inputs.root,
        compute_root(&params, first, &decoded.witness.merkle_path)
    );
    assert_eq!(public_inputs.commitment, fr_to_fixed_bytes(&commitment));

    let (instance, public_inputs) = build_v2_instance(2).unwrap();
    assert_eq!(public_inputs.depth, 2);
    assert_eq!(public_inputs.ctx_hash, MEMBERSHIP_V2_DEFAULT_CTX_HASH);
    assert_eq!(
        instance.witness.merkle_siblings[1],
        fr_to_fixed_bytes(&node_hash(&params, commitment, fe(21)))
    );
    let (decoded, depth) = instance.into_instance_with_depth().unwrap();
    assert_eq!(depth, 2);
    let first = poseidon_hash_leaf_v2(
        &params,
        decoded.public_inputs.domain_sep,
        decoded.public_inputs.ctx_hash,
        commitment,
    );
    assert_eq!(
        decoded.public_inputs.root,
        compute_root(&params, first, &decoded.witness.merkle_path)
    );

    assert_eq!(build_v1_instance(0).unwrap_err(), SchemaError::EmptyPath);
    assert_eq!(build_v2_instance(0).unwrap_err(), SchemaError::EmptyPath);
}

#[test]
fn membership_validation_recomputes_commitment_and_root() {
    let (record, _) =
        make_membership_instance_v1(vec![5], vec![6], vec![vec![7], vec![8]], vec![false, true])
            .unwrap();
    let (instance, _) = record.into_instance_with_depth().unwrap();
    assert_eq!(instance.validate(), Ok(()));

    let mut wrong_root = instance.clone();
    wrong_root.public_inputs.root = fe(1);
    assert_eq!(wrong_root.validate(), Err(SchemaError::RootMismatch));

    let mut wrong_commitment = instance.clone();
    wrong_commitment.public_inputs.commitment = fe(1);
    wrong_commitment.public_inputs.root = fe(1);
    assert_eq!(wrong_commitment.validate(), Err(SchemaError::CommitmentMismatch));

    let mut wrong_identity = instance.clone();
    wrong_identity.witness.identity_scalar = fe(4);
    assert_eq!(wrong_identity.validate(), Err(SchemaError::CommitmentMismatch));

    for level in 0..2 {
        let mut flipped = instance.clone();
        flipped.witness.merkle_path[level].1 = !flipped.witness.merkle_path[level].1;
        assert_eq!(flipped.validate(), Err(SchemaError::RootMismatch));
    }
    let mut shorter = instance.clone();
    shorter.witness.merkle_path.pop();
    assert_eq!(shorter.validate(), Err(SchemaError::RootMismatch));

    let (record, _) =
        make_membership_instance_v2(vec![5], vec![6], vec![vec![7]], vec![true], vec![9])
            .unwrap();
    let (instance, _) = record.into_instance_with_depth().unwrap();
    assert_eq!(instance.validate(), Ok(()));
    let mut other_context = instance.clone();
    other_context.public_inputs.ctx_hash = fe(99);
    assert_eq!(other_context.validate(), Err(SchemaError::RootMismatch));
    let mut other_separator = instance.clone();
    other_separator.public_inputs.domain_sep = fe(123);
    assert_eq!(
        other_separator.validate(),
        Err(SchemaError::DomainSepMismatch { scope: Scope::Instance })
    );
    let mut wrong_commitment = instance;
    wrong_commitment.witness.blinding = fe(7);
    assert_eq!(wrong_commitment.validate(), Err(SchemaError::CommitmentMismatch));

    let (record, _) =
        make_membership_instance_v1(vec![5], vec![6], vec![vec![7], vec![8]], vec![false, true])
            .unwrap();
    let mut wrong_root = record.clone();
    wrong_root.public_inputs.root = bytes_of(1);
    assert_eq!(wrong_root.into_instance_with_depth().unwrap_err(), SchemaError::RootMismatch);
    let mut wrong_commitment = record.clone();
    wrong_commitment.public_inputs.commitment = bytes_of(1);
    assert_eq!(
        wrong_commitment.into_instance_with_depth().unwrap_err(),
        SchemaError::CommitmentMismatch
    );
    for level in 0..2 {
        let mut flipped = record.clone();
        flipped.witness.merkle_directions[level] = !flipped.witness.merkle_directions[level];
        assert_eq!(flipped.into_instance_with_depth().unwrap_err(), SchemaError::RootMismatch);
    }
    let mut short_sibling = record.clone();
    short_sibling.public_inputs.root = bytes_of(1);
    short_sibling.witness.merkle_siblings[1] = vec![];
    assert_eq!(
        short_sibling.into_instance_with_depth().unwrap_err(),
        SchemaError::EmptyFieldBytes { field: Field::Sibling(1) }
    );

    let (record, _) =
        make_membership_instance_v2(vec![5], vec![6], vec![vec![7]], vec![true], vec![9])
            .unwrap();
    let mut other_context = record.clone();
    other_context.public_inputs.ctx_hash = fe(99).to_bytes();
    assert_eq!(other_context.into_instance_with_depth().unwrap_err(), SchemaError::RootMismatch);
    let mut other_blinding = record.clone();
    other_blinding.witness.blinding = bytes_of(7);
    assert_eq!(
        other_blinding.into_instance_with_depth().unwrap_err(),
        SchemaError::CommitmentMismatch
    );
    let mut other_separator = record;
    other_separator.public_inputs.domain_sep[31] ^= 1;
    other_separator.public_inputs.root = [0; 32];
    assert_eq!(
        other_separator.into_instance_with_depth().unwrap_err(),
        SchemaError::DomainSepMismatch { scope: Scope::PublicInputs }
    );

    let unchecked = MembershipInstanceBytes {
        public_inputs: MembershipPublicInputsBytes { root: bytes_of(7), commitment: bytes_of(8) },
        witness: MembershipWitnessBytes {
            identity_scalar: bytes_of(9),
            blinding: bytes_of(10),
            merkle_path: vec![MerklePathNodeBytes { sibling: bytes_of(11), is_left: false }],
        },
    };
    assert_eq!(
        unchecked.clone().into_instance().unwrap().validate(),
        Err(SchemaError::CommitmentMismatch)
    );
    assert_eq!(unchecked.into_valid_instance().unwrap_err(), SchemaError::CommitmentMismatch);
    let (record, _) = build_legacy_instance().unwrap();
    let valid = record.clone().into_valid_instance().unwrap();
    assert_eq!(valid, record.clone().into_instance().unwrap());
    let mut wrong_root = record.clone();
    wrong_root.public_inputs.root = bytes_of(1);
    assert_eq!(wrong_root.into_valid_instance().unwrap_err(), SchemaError::RootMismatch);
    let mut two_levels = record;
    two_levels.public_inputs.root = bytes_of(1);
    two_levels.witness.merkle_path.push(MerklePathNodeBytes { sibling: bytes_of(3), is_left: true });
    assert_eq!(
        two_levels.into_valid_instance().unwrap_err(),
        SchemaError::PathLengthMismatch { expected: 1, got: 2 }
    );
}

#[test]
fn membership_record_with_foreign_commitment_and_root_is_refused() {
    let record = MembershipInstanceV1Bytes {
        version: 1,
        public_inputs: MembershipPublicInputsV1Bytes {
            version: 1,
            depth: 1,
            root: bytes_of(7),
            commitment: bytes_of(8),
        },
        witness: MembershipWitnessV1Bytes {
            version: 1,
            depth: 1,
            identity_scalar: bytes_of(1),
            blinding: bytes_of(2),
            merkle_siblings: vec![bytes_of(3)],
            merkle_directions: vec![false],
        },
    };
    assert_eq!(
        record.clone().into_instance_with_depth().unwrap_err(),
        SchemaError::CommitmentMismatch
    );
    let params = poseidon_params();
    let mut own_commitment = record;
    own_commitment.public_inputs.commitment =
        fr_to_fixed_bytes(&commitment_hash(&params, fe(1), fe(2)));
    assert_eq!(
        own_commitment.clone().into_instance_with_depth().unwrap_err(),
        SchemaError::RootMismatch
    );
    let leaf = leaf_hash(&params, commitment_hash(&params, fe(1), fe(2)));
    let mut own_root = own_commitment;
    own_root.public_inputs.root = fr_to_fixed_bytes(&node_hash(&params, leaf, fe(3)));
    let (instance, depth) = own_root.into_instance_with_depth().unwrap();
    assert_eq!(depth, 1);
    assert_eq!(instance.witness.merkle_path, vec![(fe(3), false)]);
}
