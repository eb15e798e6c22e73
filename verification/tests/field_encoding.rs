use privacy_circuits::error::{ErrorKind, Field, SchemaError, Scope, VersionTag};
use privacy_circuits::field::{
    fixed_bytes32, fr_from_bytes, fr_from_fixed_bytes, fr_to_fixed_bytes, FieldElement,
};

const MODULUS_BYTES: [u8; 32] = [
    0x30, 0x64, 0x4e, 0x72, 0xe1, 0x31, 0xa0, 0x29, 0xb8, 0x50, 0x45, 0xb6, 0x81, 0x81, 0x58, 0x5d,
    0x28, 0x33, 0xe8, 0x48, 0x79, 0xb9, 0x70, 0x91, 0x43, 0xe1, 0xf5, 0x93, 0xf0, 0x00, 0x00, 0x01,
];

#[test]
fn small_integers_encode_big_endian() {
    let seven = FieldElement::from_u64(7);
    let bytes = fr_to_fixed_bytes(&seven);
    assert_eq!(bytes.len(), 32);
    assert_eq!(bytes[31], 7);
    assert!(bytes[..31].iter().all(|b| *b == 0));

    let big = FieldElement::from_u64(0x0102_0304_0506_0708);
    let bytes = fr_to_fixed_bytes(&big);
    assert_eq!(&bytes[24..], &[1, 2, 3, 4, 5, 6, 7, 8]);
    assert!(bytes[..24].iter().all(|b| *b == 0));
    assert_eq!(big.to_bytes().to_vec(), bytes);
}

#[test]
fn decode_rejects_empty_and_oversized() {
    assert_eq!(
        fr_from_bytes(Field::Root, &[]).unwrap_err(),
        SchemaError::EmptyFieldBytes { field: Field::Root }
    );
    assert_eq!(
        fr_from_bytes(Field::Root, &[0u8; 33]).unwrap_err(),
        SchemaError::OversizedFieldBytes { field: Field::Root, len: 33 }
    );
    assert!(fr_from_bytes(Field::Root, &[0u8; 32]).is_ok());
    assert!(fr_from_bytes(Field::Root, &[1u8]).is_ok());
}

#[test]
fn short_input_is_left_zero_extended() {
    let short = fr_from_bytes(Field::Id, &[0x01, 0x00]).unwrap();
    assert_eq!(short, FieldElement::from_u64(256));
    let mut padded = [0u8; 32];
    padded[30] = 1;
    assert_eq!(fr_from_fixed_bytes(Field::Id, &padded).unwrap(), short);
}

#[test]
fn decode_reduces_modulo_the_field_order() {
    assert_eq!(
        fr_from_fixed_bytes(Field::Id, &MODULUS_BYTES).unwrap(),
        FieldElement::from_u64(0)
    );
    let mut plus_five = MODULUS_BYTES;
    plus_five[31] += 5;
    assert_eq!(
        fr_from_fixed_bytes(Field::Id, &plus_five).unwrap(),
        FieldElement::from_u64(5)
    );
    let mut minus_one = MODULUS_BYTES;
    minus_one[31] = 0;
    let top = fr_from_fixed_bytes(Field::Id, &minus_one).unwrap();
    assert_eq!(fr_to_fixed_bytes(&top), minus_one.to_vec());
    assert_eq!(
        fr_from_fixed_bytes(Field::Id, &[0xff; 32]).unwrap(),
        fr_from_bytes(
            Field::Id,
            &[
                0x0e, 0x0a, 0x77, 0xc1, 0x9a, 0x07, 0xdf, 0x2f, 0x66, 0x6e, 0xa3, 0x6f, 0x78, 0x79,
                0x46, 0x2e, 0x36, 0xfc, 0x76, 0x95, 0x9f, 0x60, 0xcd, 0x29, 0xac, 0x96, 0x34, 0x1c,
                0x4f, 0xff, 0xff, 0xfa,
            ]
        )
        .unwrap()
    );
}

#[test]
fn decode_of_encode_is_identity() {
    for n in [0u64, 1, 2, 255, 256, 65_535, u64::MAX] {
        let element = FieldElement::from_u64(n);
        let bytes = fr_to_fixed_bytes(&element);
        assert_eq!(fr_from_bytes(Field::Id, &bytes).unwrap(), element);
        assert!(element.eq(&fr_from_bytes(Field::Id, &bytes).unwrap()));
    }
    let mut top = MODULUS_BYTES;
    top[31] = 0;
    let element = fr_from_fixed_bytes(Field::Id, &top).unwrap();
    assert_eq!(fr_from_bytes(Field::Id, &fr_to_fixed_bytes(&element)).unwrap(), element);
}

#[test]
fn equality_tells_elements_apart() {
    assert!(FieldElement::from_u64(3).eq(&FieldElement::from_u64(3)));
    assert!(!FieldElement::from_u64(3).eq(&FieldElement::from_u64(4)));
    assert!(!FieldElement::from_u64(1).eq(&FieldElement::from_u64(1 << 40)));
}

#[test]
fn padding_keeps_the_value() {
    let fixed = fixed_bytes32(Field::CtxHash, &[0xab, 0xcd]).unwrap();
    assert_eq!(&fixed[..30], &[0u8; 30]);
    assert_eq!(&fixed[30..], &[0xab, 0xcd]);
    assert_eq!(fixed_bytes32(Field::CtxHash, &[9u8; 32]).unwrap(), [9u8; 32]);
    assert_eq!(
        fixed_bytes32(Field::CtxHash, &[]).unwrap_err(),
        SchemaError::EmptyFieldBytes { field: Field::CtxHash }
    );
    assert_eq!(
        fixed_bytes32(Field::CtxHash, &[0u8; 40]).unwrap_err(),
        SchemaError::OversizedFieldBytes { field: Field::CtxHash, len: 40 }
    );
}

#[test]
fn errors_have_kinds_and_messages() {
    let empty = SchemaError::EmptyFieldBytes { field: Field::Root };
    assert_eq!(empty.kind(), ErrorKind::Encoding);
    assert_eq!(empty.message(), "root: empty field bytes");
    let oversized = SchemaError::OversizedFieldBytes { field: Field::Sibling(3), len: 40 };
    assert_eq!(oversized.kind(), ErrorKind::Encoding);
    assert_eq!(oversized.message(), "merkle_siblings[3]: expected at most 32 bytes, got 40");
    assert_eq!(SchemaError::ZeroDepth.kind(), ErrorKind::Schema);
    assert_eq!(SchemaError::ZeroDepth.message(), "public_inputs.depth must be > 0");
    assert_eq!(SchemaError::TagMismatch.kind(), ErrorKind::Invariant);
    assert_eq!(SchemaError::C1HashMismatch.kind(), ErrorKind::Invariant);
    assert_eq!(SchemaError::C2HashMismatch.kind(), ErrorKind::Invariant);
    assert_eq!(SchemaError::RootMismatch.kind(), ErrorKind::Invariant);
    assert_eq!(SchemaError::CommitmentMismatch.kind(), ErrorKind::Invariant);
    assert_eq!(SchemaError::RootMismatch.message(), "root does not match merkle path");
    assert_eq!(SchemaError::EmptyPath.kind(), ErrorKind::Schema);
    assert_eq!(
        SchemaError::VersionMismatch {
            scope: Scope::Witness,
            tag: VersionTag::Version,
            expected: 1,
            got: 200
        }
        .message(),
        "witness.version: version mismatch (expected 1, got 200)"
    );
    assert_eq!(
        SchemaError::VersionMismatch {
            scope: Scope::PublicInputs,
            tag: VersionTag::SchemaVersion,
            expected: 2,
            got: 1
        }
        .message(),
        "public_inputs.schema_version: version mismatch (expected 2, got 1)"
    );
    assert_eq!(
        SchemaError::SchemaVersionMismatch { scope: Scope::Instance, expected: 2, got: 65535 }
            .message(),
        "instance.schema_version: schema_version mismatch (expected 2, got 65535)"
    );
    assert_eq!(
        SchemaError::DomainSepMismatch { scope: Scope::PublicInputs }.message(),
        "public_inputs.domain_sep: domain_sep mismatch"
    );
    assert_eq!(
        SchemaError::SiblingsLengthMismatch { expected: 18446744073709551615, got: 0 }.message(),
        "merkle_siblings length mismatch: expected 18446744073709551615, got 0"
    );
    assert_eq!(
        SchemaError::StatementTypeMismatch { expected: 3, got: 1 }.message(),
        "statement_type mismatch (expected 3, got 1)"
    );
    assert_eq!(
        SchemaError::InstanceDepthMismatch { public_inputs: 1, witness: 2 }.message(),
        "instance.depth mismatch: public_inputs 1, witness 2"
    );
    assert_eq!(
        SchemaError::EmptyFieldBytes { field: Field::PathSibling(0) }.message(),
        "merkle_path[0].sibling: empty field bytes"
    );
}
