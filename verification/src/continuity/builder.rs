//! Builders of continuity records: from an identity and two blindings to the
//! record that states both commitments, and to its binary encoding.

use crate::continuity::schema::{
    commitment_hash_v2, commitment_v2, ContinuityInstanceV1, ContinuityInstanceV2,
    ContinuityPublicInputsV1, ContinuityPublicInputsV2, CONTINUITY_INSTANCE_VERSION_V1,
    CONTINUITY_INSTANCE_VERSION_V2, CONTINUITY_STATEMENT_TYPE, CONTINUITY_STATEMENT_VERSION_V2,
    CONTINUITY_V1_DOMAIN_SEP, CONTINUITY_V2_DOMAIN_SEP,
};
use crate::error::{Field, SchemaError};
use crate::field::{
    be_value, field_value, first_field_error, fixed_bytes32, fr_from_fixed_bytes,
    lemma_decode_encode, lemma_encoding, lemma_first_field_error3, lemma_first_field_error4,
    left_padded, FieldElement,
};
use crate::poseidon::{commitment, commitment_hash, poseidon_params, standard_params};
use crate::wire::encode_items;
use vstd::prelude::*;

verus! {

/// Whether a record of the first schema and its public inputs are those of
/// an identity and two blindings, given by their thirty-two bytes: both
/// hold the version and the domain separator of the schema and the canonical
/// encodings of the two commitments, and the record holds the witness as it
/// was given.
pub open spec fn built_v1(
    instance: ContinuityInstanceV1,
    public_inputs: ContinuityPublicInputsV1,
    id: Seq<u8>,
    r1: Seq<u8>,
    r2: Seq<u8>,
) -> bool {
    &&& instance.schema_version == CONTINUITY_INSTANCE_VERSION_V1
    &&& instance.id@ == id
    &&& instance.r1@ == r1
    &&& instance.r2@ == r2
    &&& be_value(instance.c1_hash@) == commitment(
        standard_params(),
        field_value(id),
        field_value(r1),
    )
    &&& be_value(instance.c2_hash@) == commitment(
        standard_params(),
        field_value(id),
        field_value(r2),
    )
    &&& instance.domain_sep@ == CONTINUITY_V1_DOMAIN_SEP@
    &&& public_inputs.schema_version == CONTINUITY_INSTANCE_VERSION_V1
    &&& public_inputs.c1_hash@ == instance.c1_hash@
    &&& public_inputs.c2_hash@ == instance.c2_hash@
    &&& public_inputs.domain_sep@ == CONTINUITY_V1_DOMAIN_SEP@
}

/// Whether a record of the second schema and its public inputs are those of
/// an identity, two blindings and a context, given by their thirty-two
/// bytes: both hold version, statement tag, statement revision and domain
/// separator of the schema, the context and the canonical encodings of the
/// two commitments, and the record holds the witness as it was given.
pub open spec fn built_v2(
    instance: ContinuityInstanceV2,
    public_inputs: ContinuityPublicInputsV2,
    id: Seq<u8>,
    r1: Seq<u8>,
    r2: Seq<u8>,
    ctx_hash: Seq<u8>,
) -> bool {
    &&& instance.schema_version == CONTINUITY_INSTANCE_VERSION_V2
    &&& instance.statement_type == CONTINUITY_STATEMENT_TYPE
    &&& instance.statement_version == CONTINUITY_STATEMENT_VERSION_V2
    &&& instance.id@ == id
    &&& instance.r1@ == r1
    &&& instance.r2@ == r2
    &&& instance.ctx_hash@ == ctx_hash
    &&& be_value(instance.c1_hash@) == commitment_v2(
        standard_params(),
        field_value(id),
        field_value(r1),
        field_value(ctx_hash),
    )
    &&& be_value(instance.c2_hash@) == commitment_v2(
        standard_params(),
        field_value(id),
        field_value(r2),
        field_value(ctx_hash),
    )
    &&& instance.domain_sep@ == CONTINUITY_V2_DOMAIN_SEP@
    &&& public_inputs.schema_version == CONTINUITY_INSTANCE_VERSION_V2
    &&& public_inputs.statement_type == CONTINUITY_STATEMENT_TYPE
    &&& public_inputs.statement_version == CONTINUITY_STATEMENT_VERSION_V2
    &&& public_inputs.c1_hash@ == instance.c1_hash@
    &&& public_inputs.c2_hash@ == instance.c2_hash@
    &&& public_inputs.domain_sep@ == CONTINUITY_V2_DOMAIN_SEP@
    &&& public_inputs.ctx_hash@ == instance.ctx_hash@
}

/// Puts the record and the public inputs of the first schema together.
fn assemble_v1(
    id: [u8; 32],
    r1: [u8; 32],
    r2: [u8; 32],
    c1: FieldElement,
    c2: FieldElement,
) -> (out: (ContinuityInstanceV1, ContinuityPublicInputsV1))
    requires
        c1@ == commitment(standard_params(), field_value(id@), field_value(r1@)),
        c2@ == commitment(standard_params(), field_value(id@), field_value(r2@)),
    ensures
        built_v1(out.0, out.1, id@, r1@, r2@),
        out.0.outcome() is Ok,
        out.1.outcome() is Ok,
{
    proof {
        use_type_invariant(&c1);
        use_type_invariant(&c2);
        lemma_decode_encode(c1);
        lemma_decode_encode(c2);
        lemma_encoding(c1);
        lemma_encoding(c2);
    }
    let public_inputs = ContinuityPublicInputsV1 {
        schema_version: CONTINUITY_INSTANCE_VERSION_V1,
        c1_hash: c1.to_bytes(),
        c2_hash: c2.to_bytes(),
        domain_sep: CONTINUITY_V1_DOMAIN_SEP,
    };
    let instance = ContinuityInstanceV1 {
        schema_version: CONTINUITY_INSTANCE_VERSION_V1,
        id,
        r1,
        r2,
        c1_hash: public_inputs.c1_hash,
        c2_hash: public_inputs.c2_hash,
        domain_sep: CONTINUITY_V1_DOMAIN_SEP,
    };
    (instance, public_inputs)
}

/// Puts the record and the public inputs of the second schema together.
fn assemble_v2(
    id: [u8; 32],
    r1: [u8; 32],
    r2: [u8; 32],
    ctx_hash: [u8; 32],
    c1: FieldElement,
    c2: FieldElement,
) -> (out: (ContinuityInstanceV2, ContinuityPublicInputsV2))
    requires
        c1@ == commitment_v2(
            standard_params(),
            field_value(id@),
            field_value(r1@),
            field_value(ctx_hash@),
        ),
        c2@ == commitment_v2(
            standard_params(),
            field_value(id@),
            field_value(r2@),
            field_value(ctx_hash@),
        ),
    ensures
        built_v2(out.0, out.1, id@, r1@, r2@, ctx_hash@),
        out.0.outcome() is Ok,
        out.1.outcome() is Ok,
{
    proof {
        use_type_invariant(&c1);
        use_type_invariant(&c2);
        lemma_decode_encode(c1);
        lemma_decode_encode(c2);
        lemma_encoding(c1);
        lemma_encoding(c2);
    }
    let public_inputs = ContinuityPublicInputsV2 {
        schema_version: CONTINUITY_INSTANCE_VERSION_V2,
        statement_type: CONTINUITY_STATEMENT_TYPE,
        statement_version: CONTINUITY_STATEMENT_VERSION_V2,
        c1_hash: c1.to_bytes(),
        c2_hash: c2.to_bytes(),
        domain_sep: CONTINUITY_V2_DOMAIN_SEP,
        ctx_hash,
    };
    let instance = ContinuityInstanceV2 {
        schema_version: CONTINUITY_INSTANCE_VERSION_V2,
        statement_type: CONTINUITY_STATEMENT_TYPE,
        statement_version: CONTINUITY_STATEMENT_VERSION_V2,
        id,
        r1,
        r2,
        c1_hash: public_inputs.c1_hash,
        c2_hash: public_inputs.c2_hash,
        domain_sep: CONTINUITY_V2_DOMAIN_SEP,
        ctx_hash,
    };
    (instance, public_inputs)
}

/// Builds the record and the public inputs of the first schema for an
/// identity and two blindings. Both pass validation.
pub fn build_instance_v1(id: FieldElement, r1: FieldElement, r2: FieldElement) -> (out: (
    ContinuityInstanceV1,
    ContinuityPublicInputsV1,
))
    ensures
        built_v1(out.0, out.1, id.encoding(), r1.encoding(), r2.encoding()),
        out.0.outcome() is Ok,
        out.1.outcome() is Ok,
{
    let params = poseidon_params();
    let c1 = commitment_hash(&params, id, r1);
    let c2 = commitment_hash(&params, id, r2);
    proof {
        use_type_invariant(&id);
        use_type_invariant(&r1);
        use_type_invariant(&r2);
        lemma_decode_encode(id);
        lemma_decode_encode(r1);
        lemma_decode_encode(r2);
    }
    assemble_v1(id.to_bytes(), r1.to_bytes(), r2.to_bytes(), c1, c2)
}

/// Builds the record and the public inputs of the second schema for an
/// identity, two blindings and a context. Both pass validation.
pub fn build_instance_v2(
    id: FieldElement,
    r1: FieldElement,
    r2: FieldElement,
    ctx_hash: FieldElement,
) -> (out: (ContinuityInstanceV2, ContinuityPublicInputsV2))
    ensures
        built_v2(out.0, out.1, id.encoding(), r1.encoding(), r2.encoding(), ctx_hash.encoding()),
        out.0.outcome() is Ok,
        out.1.outcome() is Ok,
{
    let params = poseidon_params();
    let c1 = commitment_hash_v2(&params, id, r1, ctx_hash);
    let c2 = commitment_hash_v2(&params, id, r2, ctx_hash);
    proof {
        use_type_invariant(&id);
        use_type_invariant(&r1);
        use_type_invariant(&r2);
        use_type_invariant(&ctx_hash);
        lemma_decode_encode(id);
        lemma_decode_encode(r1);
        lemma_decode_encode(r2);
        lemma_decode_encode(ctx_hash);
    }
    assemble_v2(id.to_bytes(), r1.to_bytes(), r2.to_bytes(), ctx_hash.to_bytes(), c1, c2)
}

/// Builds the record and the public inputs of the first schema for an
/// identity and two blindings, each given as between one and thirty-two
/// big-endian bytes, which the record holds padded to thirty-two. The first
/// of identity, first blinding and second blinding that has no or too many
/// bytes is the error.
pub fn make_continuity_instance_v1(id: &[u8], r1: &[u8], r2: &[u8]) -> (res: Result<
    (ContinuityInstanceV1, ContinuityPublicInputsV1),
    SchemaError,
>)
    ensures
        match res {
            Ok((instance, public_inputs)) => {
                &&& first_field_error(seq![(Field::Id, id@), (Field::R1, r1@), (Field::R2, r2@)])
                    is None
                &&& built_v1(
                    instance,
                    public_inputs,
                    left_padded(id@),
                    left_padded(r1@),
                    left_padded(r2@),
                )
                &&& instance.outcome() is Ok
                &&& public_inputs.outcome() is Ok
            },
            Err(e) => first_field_error(
                seq![(Field::Id, id@), (Field::R1, r1@), (Field::R2, r2@)],
            ) == Some(e),
        },
{
    proof {
        lemma_first_field_error3((Field::Id, id@), (Field::R1, r1@), (Field::R2, r2@));
    }
    let id_bytes = fixed_bytes32(Field::Id, id)?;
    let r1_bytes = fixed_bytes32(Field::R1, r1)?;
    let r2_bytes = fixed_bytes32(Field::R2, r2)?;
    let id_fr = fr_from_fixed_bytes(Field::Id, &id_bytes)?;
    let r1_fr = fr_from_fixed_bytes(Field::R1, &r1_bytes)?;
    let r2_fr = fr_from_fixed_bytes(Field::R2, &r2_bytes)?;
    let params = poseidon_params();
    let c1 = commitment_hash(&params, id_fr, r1_fr);
    let c2 = commitment_hash(&params, id_fr, r2_fr);
    Ok(assemble_v1(id_bytes, r1_bytes, r2_bytes, c1, c2))
}

/// Builds the record and the public inputs of the second schema for an
/// identity, two blindings and a context, each given as between one and
/// thirty-two big-endian bytes, which the record holds padded to thirty-two.
/// The first of identity, first blinding, second blinding and context that
/// has no or too many bytes is the error.
pub fn make_continuity_instance_v2(id: &[u8], r1: &[u8], r2: &[u8], ctx_hash: &[u8]) -> (res:
    Result<(ContinuityInstanceV2, ContinuityPublicInputsV2), SchemaError>)
    ensures
        match res {
            Ok((instance, public_inputs)) => {
                &&& first_field_error(
                    seq![
                        (Field::Id, id@),
                        (Field::R1, r1@),
                        (Field::R2, r2@),
                        (Field::CtxHash, ctx_hash@),
                    ],
                ) is None
                &&& built_v2(
                    instance,
                    public_inputs,
                    left_padded(id@),
                    left_padded(r1@),
                    left_padded(r2@),
                    left_padded(ctx_hash@),
                )
                &&& instance.outcome() is Ok
                &&& public_inputs.outcome() is Ok
            },
            Err(e) => first_field_error(
                seq![
                    (Field::Id, id@),
                    (Field::R1, r1@),
                    (Field::R2, r2@),
                    (Field::CtxHash, ctx_hash@),
                ],
            ) == Some(e),
        },
{
    proof {
        lemma_first_field_error4(
            (Field::Id, id@),
            (Field::R1, r1@),
            (Field::R2, r2@),
            (Field::CtxHash, ctx_hash@),
        );
    }
    let id_bytes = fixed_bytes32(Field::Id, id)?;
    let r1_bytes = fixed_bytes32(Field::R1, r1)?;
    let r2_bytes = fixed_bytes32(Field::R2, r2)?;
    let ctx_bytes = fixed_bytes32(Field::CtxHash, ctx_hash)?;
    let id_fr = fr_from_fixed_bytes(Field::Id, &id_bytes)?;
    let r1_fr = fr_from_fixed_bytes(Field::R1, &r1_bytes)?;
    let r2_fr = fr_from_fixed_bytes(Field::R2, &r2_bytes)?;
    let ctx_fr = fr_from_fixed_bytes(Field::CtxHash, &ctx_bytes)?;
    let params = poseidon_params();
    let c1 = commitment_hash_v2(&params, id_fr, r1_fr, ctx_fr);
    let c2 = commitment_hash_v2(&params, id_fr, r2_fr, ctx_fr);
    Ok(assemble_v2(id_bytes, r1_bytes, r2_bytes, ctx_bytes, c1, c2))
}

/// Builds the record and the public inputs of the first schema as
/// [`make_continuity_instance_v1`] does and encodes both.
pub fn make_continuity_instance_v1_bytes(id: &[u8], r1: &[u8], r2: &[u8]) -> (res: Result<
    (Vec<u8>, Vec<u8>),
    SchemaError,
>)
    ensures
        match res {
            Ok((instance_bytes, public_inputs_bytes)) => {
                &&& first_field_error(
                    seq![(Field::Id, id@), (Field::R1, r1@), (Field::R2, r2@)],
                ) is None
                &&& exists|
                    instance: ContinuityInstanceV1,
                    public_inputs: ContinuityPublicInputsV1,
                |
                    #![trigger built_v1(
                        instance,
                        public_inputs,
                        left_padded(id@),
                        left_padded(r1@),
                        left_padded(r2@),
                    )]
                    built_v1(
                        instance,
                        public_inputs,
                        left_padded(id@),
                        left_padded(r1@),
                        left_padded(r2@),
                    ) && instance_bytes@ == encode_items(instance.items()) && public_inputs_bytes@
                        == encode_items(public_inputs.items())
            },
            Err(e) => first_field_error(
                seq![(Field::Id, id@), (Field::R1, r1@), (Field::R2, r2@)],
            ) == Some(e),
        },
{
    let (instance, public_inputs) = make_continuity_instance_v1(id, r1, r2)?;
    Ok((instance.serialize(), public_inputs.serialize()))
}

/// Builds the record and the public inputs of the second schema as
/// [`make_continuity_instance_v2`] does and encodes both.
pub fn make_continuity_instance_v2_bytes(id: &[u8], r1: &[u8], r2: &[u8], ctx_hash: &[u8]) -> (res:
    Result<(Vec<u8>, Vec<u8>), SchemaError>)
    ensures
        match res {
            Ok((instance_bytes, public_inputs_bytes)) => {
                &&& first_field_error(
                    seq![
                        (Field::Id, id@),
                        (Field::R1, r1@),
                        (Field::R2, r2@),
                        (Field::CtxHash, ctx_hash@),
                    ],
                ) is None
                &&& exists|
                    instance: ContinuityInstanceV2,
                    public_inputs: ContinuityPublicInputsV2,
                |
                    #![trigger built_v2(
                        instance,
                        public_inputs,
                        left_padded(id@),
                        left_padded(r1@),
                        left_padded(r2@),
                        left_padded(ctx_hash@),
                    )]
                    built_v2(
                        instance,
                        public_inputs,
                        left_padded(id@),
                        left_padded(r1@),
                        left_padded(r2@),
                        left_padded(ctx_hash@),
                    ) && instance_bytes@ == encode_items(instance.items()) && public_inputs_bytes@
                        == encode_items(public_inputs.items())
            },
            Err(e) => first_field_error(
                seq![
                    (Field::Id, id@),
                    (Field::R1, r1@),
                    (Field::R2, r2@),
                    (Field::CtxHash, ctx_hash@),
                ],
            ) == Some(e),
        },
{
    let (instance, public_inputs) = make_continuity_instance_v2(id, r1, r2, ctx_hash)?;
    Ok((instance.serialize(), public_inputs.serialize()))
}

} // verus!
