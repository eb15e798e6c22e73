use privacy_circuits::continuity::builder::{
    build_instance_v1, build_instance_v2, make_continuity_instance_v1,
    make_continuity_instance_v2,
};
use privacy_circuits::continuity::circuit::{build_circuit, build_circuit_v2, setup_circuit};
use privacy_circuits::continuity::schema::{
    commitment_hash_v2, domain_sep_fr, domain_sep_v2_fr, ensure_domain_sep, ensure_domain_sep_v2,
    ensure_statement_type_version, ensure_version, ensure_version_v2, ContinuityInstance,
    ContinuityInstanceV1, ContinuityPublicInputsV1, CONTINUITY_INSTANCE_VERSION_V1,
    CONTINUITY_V1_DOMAIN_SEP, CONTINUITY_V2_DEFAULT_CTX_HASH, CONTINUITY_V2_DOMAIN_SEP,
};
use privacy_circuits::error::{Field, SchemaError, Scope};
use privacy_circuits::field::{fr_from_fixed_bytes, fr_to_fixed_bytes, FieldElement};
use privacy_circuits::poseidon::{commitment_hash, poseidon_params};

fn fe(n: u64) -> FieldElement {
    FieldElement::from_u64(n)
}

#[test]
fn continuity_instance_v1_validation_rejects_bad_domain_sep() {
    let mut instance = ContinuityInstanceV1 {
        schema_version: CONTINUITY_INSTANCE_VERSION_V1,
        id: fr_to_fixed_bytes(&fe(1)).try_into().unwrap(),
        r1: fr_to_fixed_bytes(&fe(2)).try_into().unwrap(),
        r2: fr_to_fixed_bytes(&fe(3)).try_into().unwrap(),
        c1_hash: fr_to_fixed_bytes(&fe(4)).try_into().unwrap(),
        c2_hash: fr_to_fixed_bytes(&fe(5)).try_into().unwrap(),
        domain_sep: [0u8; 32],
    };
    assert!(instance.clone().into_instance().is_err());
    assert_eq!(
        instance.clone().into_instance().unwrap_err(),
        SchemaError::DomainSepMismatch { scope: Scope::Instance }
    );

    instance.domain_sep = CONTINUITY_V1_DOMAIN_SEP;
    let instance = instance.into_instance();
    assert!(instance.is_err());
    assert_eq!(instance.unwrap_err(), SchemaError::C1HashMismatch);
}

#[test]
fn continuity_schema_roundtrip_public_inputs() {
    let params = poseidon_params();
    let id = fe(21);
    let r1 = fe(22);
    let r2 = fe(23);
    let c1 = commitment_hash(&params, id, r1);
    let c2 = commitment_hash(&params, id, r2);

    let public_inputs = ContinuityPublicInputsV1 {
        schema_version: CONTINUITY_INSTANCE_VERSION_V1,
        c1_hash: fr_to_fixed_bytes(&c1).try_into().unwrap(),
        c2_hash: fr_to_fixed_bytes(&c2).try_into().unwrap(),
        domain_sep: CONTINUITY_V1_DOMAIN_SEP,
    };
    let parsed = public_inputs.into_public_inputs().unwrap();
    assert_eq!(parsed.c1_hash, c1);
    assert_eq!(parsed.c2_hash, c2);
    assert_eq!(parsed.domain_sep, domain_sep_fr());

    let bytes = fr_to_fixed_bytes(&parsed.c1_hash);
    let back = fr_from_fixed_bytes(Field::C1Hash, &bytes.try_into().unwrap()).unwrap();
    assert_eq!(back, parsed.c1_hash);
}

#[test]
fn continuity_instance_v1_to_instance_matches() {
    let params = poseidon_params();
    let id = fe(31);
    let r1 = fe(32);
    let r2 = fe(33);
    let c1 = commitment_hash(&params, id, r1);
    let c2 = commitment_hash(&params, id, r2);
    let instance_bytes = ContinuityInstanceV1 {
        schema_version: CONTINUITY_INSTANCE_VERSION_V1,
        id: fr_to_fixed_bytes(&id).try_into().unwrap(),
        r1: fr_to_fixed_bytes(&r1).try_into().unwrap(),
        r2: fr_to_fixed_bytes(&r2).try_into().unwrap(),
        c1_hash: fr_to_fixed_bytes(&c1).try_into().unwrap(),
        c2_hash: fr_to_fixed_bytes(&c2).try_into().unwrap(),
        domain_sep: CONTINUITY_V1_DOMAIN_SEP,
    };

    let instance: ContinuityInstance = instance_bytes.into_instance().unwrap();
    assert_eq!(instance.witness.id, id);
    assert_eq!(instance.witness.r1, r1);
    assert_eq!(instance.witness.r2, r2);
    assert_eq!(instance.public_inputs.c1_hash, c1);
    assert_eq!(instance.public_inputs.c2_hash, c2);
}

#[test]
fn continuity_checks_report_what_they_found() {
    assert_eq!(ensure_version(Scope::Instance, 1), Ok(()));
    assert_eq!(
        ensure_version(Scope::Instance, 0),
        Err(SchemaError::SchemaVersionMismatch { scope: Scope::Instance, expected: 1, got: 0 })
    );
    assert_eq!(ensure_version_v2(Scope::PublicInputs, 2), Ok(()));
    assert_eq!(
        ensure_version_v2(Scope::PublicInputs, 1),
        Err(SchemaError::SchemaVersionMismatch { scope: Scope::PublicInputs, expected: 2, got: 1 })
    );
    assert_eq!(ensure_statement_type_version(3, 2), Ok(()));
    assert_eq!(
        ensure_statement_type_version(1, 1),
        Err(SchemaError::StatementTypeMismatch { expected: 3, got: 1 })
    );
    assert_eq!(
        ensure_statement_type_version(3, 1),
        Err(SchemaError::StatementVersionMismatch { expected: 2, got: 1 })
    );
    assert_eq!(ensure_domain_sep(Scope::Instance, &CONTINUITY_V1_DOMAIN_SEP), Ok(()));
    assert_eq!(
        ensure_domain_sep(Scope::Instance, &CONTINUITY_V2_DOMAIN_SEP),
        Err(SchemaError::DomainSepMismatch { scope: Scope::Instance })
    );
    assert_eq!(ensure_domain_sep_v2(Scope::Instance, &CONTINUITY_V2_DOMAIN_SEP), Ok(()));
    assert_eq!(
        ensure_domain_sep_v2(Scope::Instance, &CONTINUITY_V1_DOMAIN_SEP),
        Err(SchemaError::DomainSepMismatch { scope: Scope::Instance })
    );
    assert_eq!(&CONTINUITY_V1_DOMAIN_SEP, b"CONTINUITY_SNARK_V1_____________");
    assert_eq!(&CONTINUITY_V2_DOMAIN_SEP, b"CONTINUITY_SNARK_V2_____________");
    assert_eq!(&CONTINUITY_V2_DEFAULT_CTX_HASH, b"CONTINUITY_CTX_V2_______________");
    assert_ne!(domain_sep_fr(), domain_sep_v2_fr());
}

#[test]
fn continuity_v1_scenario() {
    let params = poseidon_params();
    let (instance, public_inputs) = build_instance_v1(fe(11), fe(12), fe(13));
    assert_eq!(instance.c1_hash, commitment_hash(&params, fe(11), fe(12)).to_bytes());
    assert_eq!(instance.c2_hash, commitment_hash(&params, fe(11), fe(13)).to_bytes());
    assert_eq!(instance.domain_sep, CONTINUITY_V1_DOMAIN_SEP);
    assert_eq!(public_inputs.c1_hash, instance.c1_hash);
    assert_eq!(public_inputs.c2_hash, instance.c2_hash);
    assert_ne!(instance.c1_hash, instance.c2_hash);

    let valid = instance.clone().into_instance().unwrap();
    assert_eq!(valid.witness.id, fe(11));
    assert_eq!(valid.public_inputs.domain_sep, domain_sep_fr());
    assert!(public_inputs.into_public_inputs().is_ok());

    let mut other_identity = instance.clone();
    other_identity.id = fe(10).to_bytes();
    assert_eq!(other_identity.into_instance().unwrap_err(), SchemaError::C1HashMismatch);

    let mut other_second = instance.clone();
    other_second.r2 = fe(14).to_bytes();
    assert_eq!(other_second.into_instance().unwrap_err(), SchemaError::C2HashMismatch);

    let mut other_version = instance;
    other_version.schema_version = 2;
    other_version.domain_sep = [0; 32];
    assert_eq!(
        other_version.into_instance().unwrap_err(),
        SchemaError::SchemaVersionMismatch { scope: Scope::Instance, expected: 1, got: 2 }
    );
}

#[test]
fn continuity_same_blinding_gives_same_commitment() {
    let (instance, _) = build_instance_v1(fe(11), fe(12), fe(12));
    assert_eq!(instance.c1_hash, instance.c2_hash);
    let (instance, _) = build_instance_v2(fe(11), fe(12), fe(12), fe(5));
    assert_eq!(instance.c1_hash, instance.c2_hash);
}

#[test]
fn continuity_v2_scenario() {
    let params = poseidon_params();
    let ctx_hash = fr_from_fixed_bytes(Field::CtxHash, &CONTINUITY_V2_DEFAULT_CTX_HASH).unwrap();
    let (instance, public_inputs) = build_instance_v2(fe(1), fe(2), fe(3), ctx_hash);
    assert_eq!(instance.c1_hash, commitment_hash_v2(&params, fe(1), fe(2), ctx_hash).to_bytes());
    assert_eq!(instance.c2_hash, commitment_hash_v2(&params, fe(1), fe(3), ctx_hash).to_bytes());
    assert_eq!(instance.schema_version, 2);
    assert_eq!(instance.statement_type, 3);
    assert_eq!(instance.statement_version, 2);
    assert_eq!(instance.domain_sep, CONTINUITY_V2_DOMAIN_SEP);

    let valid = instance.clone().into_instance().unwrap();
    assert_eq!(valid.public_inputs.ctx_hash, ctx_hash);
    assert_eq!(valid.public_inputs.domain_sep, domain_sep_v2_fr());
    assert!(public_inputs.clone().into_public_inputs().is_ok());

    let mut first_schema_separator = instance.clone();
    first_schema_separator.domain_sep = CONTINUITY_V1_DOMAIN_SEP;
    assert_eq!(
        first_schema_separator.into_instance().unwrap_err(),
        SchemaError::DomainSepMismatch { scope: Scope::Instance }
    );
    let mut first_schema_separator = public_inputs;
    first_schema_separator.domain_sep = CONTINUITY_V1_DOMAIN_SEP;
    assert_eq!(
        first_schema_separator.into_public_inputs().unwrap_err(),
        SchemaError::DomainSepMismatch { scope: Scope::PublicInputs }
    );

    let mut other_context = instance.clone();
    other_context.ctx_hash = fe(99).to_bytes();
    assert_eq!(other_context.into_instance().unwrap_err(), SchemaError::C1HashMismatch);

    let mut other_statement = instance;
    other_statement.statement_type = 2;
    assert_eq!(
        other_statement.into_instance().unwrap_err(),
        SchemaError::StatementTypeMismatch { expected: 3, got: 2 }
    );
}

#[test]
fn continuity_builders_from_bytes_pad_and_reject() {
    let (instance, public_inputs) = make_continuity_instance_v1(&[11], &[12], &[13]).unwrap();
    let (expected, expected_public) = build_instance_v1(fe(11), fe(12), fe(13));
    assert_eq!(instance, expected);
    assert_eq!(public_inputs, expected_public);

    let (instance, public_inputs) =
        make_continuity_instance_v2(&[1], &[2], &[3], &CONTINUITY_V2_DEFAULT_CTX_HASH).unwrap();
    let ctx_hash = fr_from_fixed_bytes(Field::CtxHash, &CONTINUITY_V2_DEFAULT_CTX_HASH).unwrap();
    let (expected, expected_public) = build_instance_v2(fe(1), fe(2), fe(3), ctx_hash);
    assert_eq!(instance.c1_hash, expected.c1_hash);
    assert_eq!(instance.ctx_hash, CONTINUITY_V2_DEFAULT_CTX_HASH);
    assert_eq!(public_inputs.c2_hash, expected_public.c2_hash);
    assert!(instance.into_instance().is_ok());

    assert_eq!(
        make_continuity_instance_v1(&[], &[], &[1]).unwrap_err(),
        SchemaError::EmptyFieldBytes { field: Field::Id }
    );
    assert_eq!(
        make_continuity_instance_v1(&[1], &[0; 33], &[]).unwrap_err(),
        SchemaError::OversizedFieldBytes { field: Field::R1, len: 33 }
    );
    assert_eq!(
        make_continuity_instance_v1(&[1], &[1], &[]).unwrap_err(),
        SchemaError::EmptyFieldBytes { field: Field::R2 }
    );
    assert_eq!(
        make_continuity_instance_v2(&[1], &[1], &[1], &[]).unwrap_err(),
        SchemaError::EmptyFieldBytes { field: Field::CtxHash }
    );
}

#[test]
fn continuity_circuits_are_built_from_records() {
    let (instance, _) = build_instance_v1(fe(11), fe(12), fe(13));
    let instance = instance.into_instance().unwrap();
    let circuit = build_circuit(&instance);
    assert_eq!(circuit.c1_hash, Some(instance.public_inputs.c1_hash));
    assert_eq!(circuit.c2_hash, Some(instance.public_inputs.c2_hash));
    assert_eq!(circuit.domain_sep, Some(domain_sep_fr()));
    assert_eq!(circuit.id, Some(fe(11)));
    assert_eq!(circuit.r1, Some(fe(12)));
    assert_eq!(circuit.r2, Some(fe(13)));
    assert_eq!(circuit.generate_constraints().unwrap().gates.len(), 13);

    let (instance, _) = build_instance_v2(fe(1), fe(2), fe(3), fe(4));
    let instance = instance.into_instance().unwrap();
    let circuit = build_circuit_v2(&instance);
    assert_eq!(circuit.ctx_hash, Some(fe(4)));
    assert_eq!(circuit.domain_sep, Some(domain_sep_v2_fr()));
    assert_eq!(circuit.generate_constraints().unwrap().gates.len(), 14);

    let params = poseidon_params();
    let circuit = setup_circuit();
    assert_eq!(circuit.id, Some(fe(0)));
    assert_eq!(circuit.c1_hash, Some(commitment_hash(&params, fe(0), fe(0))));
    assert_eq!(circuit.c1_hash, circuit.c2_hash);
}
