use privacy_circuits::continuity::builder::{build_instance_v1, build_instance_v2};
use privacy_circuits::continuity::schema::{
    ContinuityInstanceV1, ContinuityInstanceV2, ContinuityPublicInputsV1,
    ContinuityPublicInputsV2,
};
use privacy_circuits::field::FieldElement;
use privacy_circuits::membership::builder::{
    make_membership_instance, make_membership_instance_bytes, make_membership_instance_v1,
    make_membership_instance_v1_bytes, make_membership_instance_v2,
    make_membership_instance_v2_bytes,
};
use privacy_circuits::membership::schema::{
    MembershipInstanceBytes, MembershipInstanceV1Bytes, MembershipInstanceV2Bytes,
    MembershipPublicInputsBytes, MembershipPublicInputsV1Bytes, MembershipPublicInputsV2Bytes,
    MembershipWitnessBytes, MembershipWitnessV1Bytes, MembershipWitnessV2Bytes,
    MerklePathNodeBytes,
};
use privacy_circuits::unlinkability::builder::build_instance_v2 as build_unlinkability_v2;
use privacy_circuits::unlinkability::schema::{
    UnlinkabilityInstanceV2, UnlinkabilityPublicInputsV2,
};
use privacy_circuits::wire::WireError;

fn fe(n: u64) -> FieldElement {
    FieldElement::from_u64(n)
}

#[test]
fn continuity_encodings_are_those_of_bincode() {
    let (instance, public_inputs) = build_instance_v1(fe(11), fe(12), fe(13));
    let expected = bincode::serialize(&(
        instance.schema_version,
        instance.id,
        instance.r1,
        instance.r2,
        instance.c1_hash,
        instance.c2_hash,
        instance.domain_sep,
    ))
    .unwrap();
    assert_eq!(instance.serialize(), expected);
    assert_eq!(expected.len(), 1 + 6 * 32);
    assert_eq!(ContinuityInstanceV1::deserialize(&expected).unwrap(), instance);

    let expected = bincode::serialize(&(
        public_inputs.schema_version,
        public_inputs.c1_hash,
        public_inputs.c2_hash,
        public_inputs.domain_sep,
    ))
    .unwrap();
    assert_eq!(public_inputs.serialize(), expected);
    assert_eq!(ContinuityPublicInputsV1::deserialize(&expected).unwrap(), public_inputs);

    let (instance, public_inputs) = build_instance_v2(fe(1), fe(2), fe(3), fe(4));
    let expected = bincode::serialize(&(
        (instance.schema_version, instance.statement_type, instance.statement_version),
        instance.id,
        instance.r1,
        instance.r2,
        instance.c1_hash,
        instance.c2_hash,
        instance.domain_sep,
        instance.ctx_hash,
    ))
    .unwrap();
    assert_eq!(instance.serialize(), expected);
    assert_eq!(&expected[..6], &[2, 0, 3, 0, 2, 0]);
    assert_eq!(ContinuityInstanceV2::deserialize(&expected).unwrap(), instance);

    let expected = bincode::serialize(&(
        (
            public_inputs.schema_version,
            public_inputs.statement_type,
            public_inputs.statement_version,
        ),
        public_inputs.c1_hash,
        public_inputs.c2_hash,
        public_inputs.domain_sep,
        public_inputs.ctx_hash,
    ))
    .unwrap();
    assert_eq!(public_inputs.serialize(), expected);
    assert_eq!(ContinuityPublicInputsV2::deserialize(&expected).unwrap(), public_inputs);
}

#[test]
fn unlinkability_encodings_are_those_of_bincode() {
    let (instance, public_inputs) = build_unlinkability_v2(fe(2), fe(3), fe(4));
    let expected = bincode::serialize(&(
        (instance.schema_version, instance.statement_type, instance.statement_version),
        instance.id,
        instance.blinding,
        instance.tag,
        instance.domain_sep,
        instance.ctx_hash,
    ))
    .unwrap();
    assert_eq!(instance.serialize(), expected);
    assert_eq!(&expected[..6], &[2, 0, 2, 0, 2, 0]);
    assert_eq!(expected.len(), 6 + 5 * 32);
    assert_eq!(UnlinkabilityInstanceV2::deserialize(&expected).unwrap(), instance);

    let expected = bincode::serialize(&(
        (
            public_inputs.schema_version,
            public_inputs.statement_type,
            public_inputs.statement_version,
        ),
        public_inputs.tag,
        public_inputs.domain_sep,
        public_inputs.ctx_hash,
    ))
    .unwrap();
    assert_eq!(public_inputs.serialize(), expected);
    assert_eq!(UnlinkabilityPublicInputsV2::deserialize(&expected).unwrap(), public_inputs);
}

#[test]
fn membership_legacy_encodings_are_those_of_bincode() {
    let (instance, public_inputs) =
        make_membership_instance(vec![5], vec![6, 6], vec![vec![7, 7, 7]], vec![true]).unwrap();
    let path: Vec<(serde_bytes::ByteBuf, bool)> = instance
        .witness
        .merkle_path
        .iter()
        .map(|node| (serde_bytes::ByteBuf::from(node.sibling.clone()), node.is_left))
        .collect();
    let expected = bincode::serialize(&(
        (
            serde_bytes::ByteBuf::from(instance.public_inputs.root.clone()),
            serde_bytes::ByteBuf::from(instance.public_inputs.commitment.clone()),
        ),
        (
            serde_bytes::ByteBuf::from(instance.witness.identity_scalar.clone()),
            serde_bytes::ByteBuf::from(instance.witness.blinding.clone()),
            path,
        ),
    ))
    .unwrap();
    assert_eq!(instance.serialize(), expected);
    assert_eq!(MembershipInstanceBytes::deserialize(&expected).unwrap(), instance);
    assert_eq!(
        MembershipWitnessBytes::deserialize(&instance.witness.serialize()).unwrap(),
        instance.witness
    );

    let expected = bincode::serialize(&(
        serde_bytes::ByteBuf::from(public_inputs.root.clone()),
        serde_bytes::ByteBuf::from(public_inputs.commitment.clone()),
    ))
    .unwrap();
    assert_eq!(public_inputs.serialize(), expected);
    assert_eq!(expected.len(), 2 * (8 + 32));
    assert_eq!(&expected[..8], &[32, 0, 0, 0, 0, 0, 0, 0]);
    assert_eq!(MembershipPublicInputsBytes::deserialize(&expected).unwrap(), public_inputs);

    let (instance_bytes, public_inputs_bytes) =
        make_membership_instance_bytes(vec![5], vec![6, 6], vec![vec![7, 7, 7]], vec![true])
            .unwrap();
    assert_eq!(instance_bytes, instance.serialize());
    assert_eq!(public_inputs_bytes, public_inputs.serialize());
}

#[test]
fn membership_v1_encodings_are_those_of_bincode() {
    let (instance, public_inputs) = make_membership_instance_v1(
        vec![5],
        vec![6],
        vec![vec![7], vec![8, 8], vec![]].into_iter().filter(|s| !s.is_empty()).collect(),
        vec![false, true],
    )
    .unwrap();
    let public = (
        public_inputs.version,
        public_inputs.depth,
        serde_bytes::ByteBuf::from(public_inputs.root.clone()),
        serde_bytes::ByteBuf::from(public_inputs.commitment.clone()),
    );
    let expected = bincode::serialize(&public).unwrap();
    assert_eq!(public_inputs.serialize(), expected);
    assert_eq!(&expected[..5], &[1, 2, 0, 0, 0]);
    assert_eq!(MembershipPublicInputsV1Bytes::deserialize(&expected).unwrap(), public_inputs);

    let witness = (
        instance.witness.version,
        instance.witness.depth,
        serde_bytes::ByteBuf::from(instance.witness.identity_scalar.clone()),
        serde_bytes::ByteBuf::from(instance.witness.blinding.clone()),
        instance.witness.merkle_siblings.clone(),
        instance.witness.merkle_directions.clone(),
    );
    let expected = bincode::serialize(&witness).unwrap();
    assert_eq!(instance.witness.serialize(), expected);
    assert_eq!(MembershipWitnessV1Bytes::deserialize(&expected).unwrap(), instance.witness);

    let expected = bincode::serialize(&(instance.version, public, witness)).unwrap();
    assert_eq!(instance.serialize(), expected);
    assert_eq!(MembershipInstanceV1Bytes::deserialize(&expected).unwrap(), instance);

    let (instance_bytes, public_inputs_bytes) =
        make_membership_instance_v1_bytes(vec![5], vec![6], vec![vec![7], vec![8, 8]], vec![
            false, true,
        ])
        .unwrap();
    assert_eq!(instance_bytes, expected);
    assert_eq!(public_inputs_bytes, public_inputs.serialize());
}

#[test]
fn membership_v2_encodings_are_those_of_bincode() {
    let (instance, public_inputs) =
        make_membership_instance_v2(vec![5], vec![6], vec![vec![7]], vec![true], vec![9])
            .unwrap();
    let public = (
        (
            public_inputs.schema_version,
            public_inputs.statement_type,
            public_inputs.statement_version,
        ),
        public_inputs.depth,
        public_inputs.root,
        public_inputs.commitment,
        public_inputs.domain_sep,
        public_inputs.ctx_hash,
    );
    let expected = bincode::serialize(&public).unwrap();
    assert_eq!(public_inputs.serialize(), expected);
    assert_eq!(expected.len(), 6 + 4 + 4 * 32);
    assert_eq!(MembershipPublicInputsV2Bytes::deserialize(&expected).unwrap(), public_inputs);

    let witness = (
        instance.witness.schema_version,
        instance.witness.depth,
        serde_bytes::ByteBuf::from(instance.witness.identity_scalar.clone()),
        serde_bytes::ByteBuf::from(instance.witness.blinding.clone()),
        instance.witness.merkle_siblings.clone(),
        instance.witness.merkle_directions.clone(),
    );
    let expected = bincode::serialize(&witness).unwrap();
    assert_eq!(instance.witness.serialize(), expected);
    assert_eq!(MembershipWitnessV2Bytes::deserialize(&expected).unwrap(), instance.witness);

    let expected = bincode::serialize(&(instance.schema_version, public, witness)).unwrap();
    assert_eq!(instance.serialize(), expected);
    assert_eq!(MembershipInstanceV2Bytes::deserialize(&expected).unwrap(), instance);

    let (instance_bytes, public_inputs_bytes) =
        make_membership_instance_v2_bytes(vec![5], vec![6], vec![vec![7]], vec![true], vec![9])
            .unwrap();
    assert_eq!(instance_bytes, expected);
    assert_eq!(public_inputs_bytes, public_inputs.serialize());
}

#[test]
fn decoding_ignores_what_follows_a_record() {
    let (_, public_inputs) = build_instance_v1(fe(11), fe(12), fe(13));
    let mut bytes = public_inputs.serialize();
    bytes.extend_from_slice(&[1, 2, 3]);
    let decoded = ContinuityPublicInputsV1::deserialize(&bytes).unwrap();
    assert_eq!(decoded, public_inputs);
    assert_eq!(decoded.serialize(), &bytes[..bytes.len() - 3]);
    let reference: (u8, [u8; 32], [u8; 32], [u8; 32]) = bincode::deserialize(&bytes).unwrap();
    assert_eq!(reference.1, public_inputs.c1_hash);
}

#[test]
fn decoding_rejects_truncated_and_malformed_bytes() {
    let (instance, _) = build_instance_v1(fe(11), fe(12), fe(13));
    let bytes = instance.serialize();
    for cut in [0, 1, 32, bytes.len() - 1] {
        assert_eq!(
            ContinuityInstanceV1::deserialize(&bytes[..cut]).unwrap_err(),
            WireError::UnexpectedEnd
        );
    }

    let witness = MembershipWitnessV1Bytes {
        version: 1,
        depth: 2,
        identity_scalar: vec![1],
        blinding: vec![2],
        merkle_siblings: vec![vec![3], vec![4, 4]],
        merkle_directions: vec![false, true],
    };
    let bytes = witness.serialize();
    for cut in 0..bytes.len() {
        assert_eq!(
            MembershipWitnessV1Bytes::deserialize(&bytes[..cut]).unwrap_err(),
            WireError::UnexpectedEnd
        );
        assert!(bincode::deserialize::<(u8, u32, Vec<u8>, Vec<u8>, Vec<Vec<u8>>, Vec<bool>)>(
            &bytes[..cut]
        )
        .is_err());
    }
    assert_eq!(MembershipWitnessV1Bytes::deserialize(&bytes).unwrap(), witness);

    let mut bad_bit = bytes.clone();
    let last = bad_bit.len() - 1;
    bad_bit[last] = 2;
    assert_eq!(
        MembershipWitnessV1Bytes::deserialize(&bad_bit).unwrap_err(),
        WireError::InvalidBool { value: 2 }
    );
    assert!(bincode::deserialize::<(u8, u32, Vec<u8>, Vec<u8>, Vec<Vec<u8>>, Vec<bool>)>(
        &bad_bit
    )
    .is_err());

    let mut long_list = bytes;
    long_list[5 + 8 + 1 + 8 + 1] = 9;
    assert_eq!(
        MembershipWitnessV1Bytes::deserialize(&long_list).unwrap_err(),
        WireError::UnexpectedEnd
    );

    let node = MembershipWitnessBytes {
        identity_scalar: vec![],
        blinding: vec![],
        merkle_path: vec![MerklePathNodeBytes { sibling: vec![], is_left: true }],
    };
    let bytes = node.serialize();
    assert_eq!(bytes.len(), 8 + 8 + 8 + 8 + 1);
    assert_eq!(MembershipWitnessBytes::deserialize(&bytes).unwrap(), node);
    let mut bad_bit = bytes;
    bad_bit[32] = 255;
    assert_eq!(
        MembershipWitnessBytes::deserialize(&bad_bit).unwrap_err(),
        WireError::InvalidBool { value: 255 }
    );
}

#[test]
fn decoding_then_encoding_gives_the_bytes_back() {
    let (instance, _) =
        make_membership_instance_v1(vec![5], vec![6], vec![vec![7], vec![8]], vec![false, true])
            .unwrap();
    let bytes = instance.serialize();
    assert_eq!(MembershipInstanceV1Bytes::deserialize(&bytes).unwrap().serialize(), bytes);
    let (instance, _) = build_unlinkability_v2(fe(2), fe(3), fe(4));
    let bytes = instance.serialize();
    assert_eq!(UnlinkabilityInstanceV2::deserialize(&bytes).unwrap().serialize(), bytes);
    let arbitrary: Vec<u8> = (0..=255u8).collect();
    let decoded = ContinuityInstanceV2::deserialize(&arbitrary).unwrap();
    assert_eq!(decoded.schema_version, 0x0100);
    assert_eq!(decoded.statement_type, 0x0302);
    assert_eq!(decoded.serialize(), &arbitrary[..6 + 7 * 32]);
}
