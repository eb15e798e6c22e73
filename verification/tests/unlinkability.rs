use privacy_circuits::error::{Field, SchemaError, Scope};
use privacy_circuits::field::{fr_from_fixed_bytes, FieldElement};
use privacy_circuits::poseidon::{commitment_hash, poseidon_params};
use privacy_circuits::unlinkability::builder::{build_instance_v2, make_unlinkability_instance_v2};
use privacy_circuits::unlinkability::circuit::{build_circuit_v2, setup_circuit_v2};
use privacy_circuits::unlinkability::schema::{
    domain_sep_v2_fr, ensure_domain_sep_v2, ensure_statement_type_version, ensure_version_v2,
    tag_hash, UNLINKABILITY_V2_DEFAULT_CTX_HASH, UNLINKABILITY_V2_DOMAIN_SEP,
};

fn fe(n: u64) -> FieldElement {
    FieldElement::from_u64(n)
}

#[test]
fn unlinkability_instance_v2_rejects_domain_sep_mismatch() {
    let id = fe(2);
    let blinding = fe(3);
    let ctx_hash = fe(4);
    let (mut instance, _) = build_instance_v2(id, blinding, ctx_hash);
    instance.domain_sep = [0u8; 32];

    assert!(instance.clone().into_instance().is_err());
    assert_eq!(
        instance.into_instance().unwrap_err(),
        SchemaError::DomainSepMismatch { scope: Scope::Instance }
    );
}

#[test]
fn unlinkability_instance_v2_rejects_ctx_hash_mismatch() {
    let id = fe(2);
    let blinding = fe(3);
    let ctx_hash = fe(4);
    let (mut instance, _) = build_instance_v2(id, blinding, ctx_hash);
    instance.ctx_hash = [0u8; 32];

    assert!(instance.clone().into_instance().is_err());
    assert_eq!(instance.into_instance().unwrap_err(), SchemaError::TagMismatch);
}

#[test]
fn unlinkability_instance_v2_rejects_tag_mismatch() {
    let id = fe(2);
    let blinding = fe(3);
    let ctx_hash = fe(4);
    let (mut instance, _) = build_instance_v2(id, blinding, ctx_hash);
    instance.tag[0] ^= 0x01;

    assert!(instance.clone().into_instance().is_err());
    assert_eq!(instance.into_instance().unwrap_err(), SchemaError::TagMismatch);
}

#[test]
fn unlinkability_checks_report_what_they_found() {
    assert_eq!(ensure_version_v2(Scope::Instance, 2), Ok(()));
    assert_eq!(
        ensure_version_v2(Scope::Instance, 3),
        Err(SchemaError::SchemaVersionMismatch { scope: Scope::Instance, expected: 2, got: 3 })
    );
    assert_eq!(ensure_statement_type_version(2, 2), Ok(()));
    assert_eq!(
        ensure_statement_type_version(3, 2),
        Err(SchemaError::StatementTypeMismatch { expected: 2, got: 3 })
    );
    assert_eq!(
        ensure_statement_type_version(2, 3),
        Err(SchemaError::StatementVersionMismatch { expected: 2, got: 3 })
    );
    assert_eq!(ensure_domain_sep_v2(Scope::PublicInputs, &UNLINKABILITY_V2_DOMAIN_SEP), Ok(()));
    assert_eq!(
        ensure_domain_sep_v2(Scope::PublicInputs, &[0; 32]),
        Err(SchemaError::DomainSepMismatch { scope: Scope::PublicInputs })
    );
    assert_eq!(&UNLINKABILITY_V2_DOMAIN_SEP, b"UNLINKABILITY_SNARK_V2__________");
    assert_eq!(&UNLINKABILITY_V2_DEFAULT_CTX_HASH, b"UNLINKABILITY_CTX_V2____________");
}

#[test]
fn unlinkability_tag_is_linkable_within_a_context_only() {
    let params = poseidon_params();
    let ctx_hash =
        fr_from_fixed_bytes(Field::CtxHash, &UNLINKABILITY_V2_DEFAULT_CTX_HASH).unwrap();
    let (first, first_public) = build_instance_v2(fe(2), fe(3), ctx_hash);
    let expected = tag_hash(
        &params,
        domain_sep_v2_fr(),
        ctx_hash,
        commitment_hash(&params, fe(2), fe(3)),
    );
    assert_eq!(first.tag, expected.to_bytes());
    assert_eq!(first_public.tag, first.tag);

    let (again, _) = build_instance_v2(fe(2), fe(3), ctx_hash);
    assert_eq!(again.tag, first.tag);

    let (other_blinding, _) = build_instance_v2(fe(2), fe(4), ctx_hash);
    assert_ne!(other_blinding.tag, first.tag);
    let (other_identity, _) = build_instance_v2(fe(3), fe(3), ctx_hash);
    assert_ne!(other_identity.tag, first.tag);
    let (other_context, _) = build_instance_v2(fe(2), fe(3), fe(77));
    assert_ne!(other_context.tag, first.tag);

    let valid = first.into_instance().unwrap();
    assert_eq!(valid.public_inputs.tag, expected);
    assert_eq!(valid.public_inputs.ctx_hash, ctx_hash);
    assert_eq!(valid.public_inputs.domain_sep, domain_sep_v2_fr());
    assert_eq!(valid.witness.id, fe(2));
    assert_eq!(valid.witness.blinding, fe(3));
    assert!(first_public.into_public_inputs().is_ok());
}

#[test]
fn unlinkability_validation_order() {
    let (instance, public_inputs) = build_instance_v2(fe(2), fe(3), fe(4));
    let mut wrong = instance.clone();
    wrong.schema_version = 1;
    wrong.statement_type = 9;
    assert_eq!(
        wrong.into_instance().unwrap_err(),
        SchemaError::SchemaVersionMismatch { scope: Scope::Instance, expected: 2, got: 1 }
    );
    let mut wrong = instance.clone();
    wrong.statement_type = 3;
    wrong.tag = [0; 32];
    assert_eq!(
        wrong.into_instance().unwrap_err(),
        SchemaError::StatementTypeMismatch { expected: 2, got: 3 }
    );
    let mut wrong = instance;
    wrong.statement_version = 1;
    assert_eq!(
        wrong.into_instance().unwrap_err(),
        SchemaError::StatementVersionMismatch { expected: 2, got: 1 }
    );
    let mut wrong = public_inputs;
    wrong.domain_sep[5] = 0;
    assert_eq!(
        wrong.into_public_inputs().unwrap_err(),
        SchemaError::DomainSepMismatch { scope: Scope::PublicInputs }
    );
}

#[test]
fn unlinkability_builder_from_bytes_pads_and_rejects() {
    let (instance, public_inputs) = make_unlinkability_instance_v2(&[2], &[3], &[4]).unwrap();
    let (expected, expected_public) = build_instance_v2(fe(2), fe(3), fe(4));
    assert_eq!(instance, expected);
    assert_eq!(public_inputs, expected_public);
    assert_eq!(
        make_unlinkability_instance_v2(&[2], &[], &[]).unwrap_err(),
        SchemaError::EmptyFieldBytes { field: Field::Blinding }
    );
    assert_eq!(
        make_unlinkability_instance_v2(&[2], &[3], &[0; 33]).unwrap_err(),
        SchemaError::OversizedFieldBytes { field: Field::CtxHash, len: 33 }
    );
}

#[test]
fn unlinkability_circuit_is_built_from_a_record() {
    let (instance, _) = build_instance_v2(fe(2), fe(3), fe(4));
    let instance = instance.into_instance().unwrap();
    let circuit = build_circuit_v2(&instance);
    assert_eq!(circuit.tag, Some(instance.public_inputs.tag));
    assert_eq!(circuit.domain_sep, Some(domain_sep_v2_fr()));
    assert_eq!(circuit.ctx_hash, Some(fe(4)));
    assert_eq!(circuit.id, Some(fe(2)));
    assert_eq!(circuit.blinding, Some(fe(3)));
    assert_eq!(circuit.generate_constraints().unwrap().gates.len(), 11);

    let circuit = setup_circuit_v2();
    assert_eq!(circuit.id, Some(fe(0)));
    assert_eq!(circuit.ctx_hash, Some(fe(0)));
    assert_eq!(circuit.domain_sep, Some(domain_sep_v2_fr()));
}
