//! Builders of unlinkability records: from an identity, a blinding and a
//! context to the record that states the tag, and to its binary encoding.

use crate::error::{Field, SchemaError};
use crate::field::{
    be_value, field_value, first_field_error, fixed_bytes32, fr_from_fixed_bytes,
    lemma_decode_encode, lemma_encoding, lemma_first_field_error3, left_padded, FieldElement,
};
use crate::poseidon::{commitment_hash, poseidon_params};
use crate::unlinkability::schema::{
    domain_sep_v2_fr, tag_hash, tag_of, UnlinkabilityInstanceV2, UnlinkabilityPublicInputsV2,
    UNLINKABILITY_INSTANCE_VERSION_V2, UNLINKABILITY_STATEMENT_TYPE,
    UNLINKABILITY_STATEMENT_VERSION_V2, UNLINKABILITY_V2_DOMAIN_SEP,
};
use crate::wire::encode_items;
use vstd::prelude::*;

verus! {

/// Whether a record and its public inputs are those of an identity, a
/// blinding and a context, given by their thirty-two bytes: both hold
/// version, statement tag, statement revision and domain separator of the
/// schema, the context and the canonical encoding of the tag, and the record
/// holds the witness as it was given.
pub open spec fn built_v2(
    instance: UnlinkabilityInstanceV2,
    public_inputs: UnlinkabilityPublicInputsV2,
    id: Seq<u8>,
    blinding: Seq<u8>,
    ctx_hash: Seq<u8>,
) -> bool {
    &&& instance.schema_version == UNLINKABILITY_INSTANCE_VERSION_V2
    &&& instance.statement_type == UNLINKABILITY_STATEMENT_TYPE
    &&& instance.statement_version == UNLINKABILITY_STATEMENT_VERSION_V2
    &&& instance.id@ == id
    &&& instance.blinding@ == blinding
    &&& instance.ctx_hash@ == ctx_hash
    &&& be_value(instance.tag@) == tag_of(
        field_value(id),
        field_value(blinding),
        field_value(ctx_hash),
    )
    &&& instance.domain_sep@ == UNLINKABILITY_V2_DOMAIN_SEP@
    &&& public_inputs.schema_version == UNLINKABILITY_INSTANCE_VERSION_V2
    &&& public_inputs.statement_type == UNLINKABILITY_STATEMENT_TYPE
    &&& public_inputs.statement_version == UNLINKABILITY_STATEMENT_VERSION_V2
    &&& public_inputs.tag@ == instance.tag@
    &&& public_inputs.domain_sep@ == UNLINKABILITY_V2_DOMAIN_SEP@
    &&& public_inputs.ctx_hash@ == instance.ctx_hash@
}

/// Puts the record and the public inputs together.
fn assemble_v2(id: [u8; 32], blinding: [u8; 32], ctx_hash: [u8; 32], tag: FieldElement) -> (out: (
    UnlinkabilityInstanceV2,
    UnlinkabilityPublicInputsV2,
))
    requires
        tag@ == tag_of(field_value(id@), field_value(blinding@), field_value(ctx_hash@)),
    ensures
        built_v2(out.0, out.1, id@, blinding@, ctx_hash@),
        out.0.outcome() is Ok,
        out.1.outcome() is Ok,
{
    proof {
        use_type_invariant(&tag);
        lemma_decode_encode(tag);
        lemma_encoding(tag);
    }
    let public_inputs = UnlinkabilityPublicInputsV2 {
        schema_version: UNLINKABILITY_INSTANCE_VERSION_V2,
        statement_type: UNLINKABILITY_STATEMENT_TYPE,
        statement_version: UNLINKABILITY_STATEMENT_VERSION_V2,
        tag: tag.to_bytes(),
        domain_sep: UNLINKABILITY_V2_DOMAIN_SEP,
        ctx_hash,
    };
    let instance = UnlinkabilityInstanceV2 {
        schema_version: UNLINKABILITY_INSTANCE_VERSION_V2,
        statement_type: UNLINKABILITY_STATEMENT_TYPE,
        statement_version: UNLINKABILITY_STATEMENT_VERSION_V2,
        id,
        blinding,
        tag: public_inputs.tag,
        domain_sep: UNLINKABILITY_V2_DOMAIN_SEP,
        ctx_hash,
    };
    (instance, public_inputs)
}

/// Builds the record and the public inputs for an identity, a blinding and a
/// context. Both pass validation.
pub fn build_instance_v2(id: FieldElement, blinding: FieldElement, ctx_hash: FieldElement) -> (out:
    (UnlinkabilityInstanceV2, UnlinkabilityPublicInputsV2))
    ensures
        built_v2(out.0, out.1, id.encoding(), blinding.encoding(), ctx_hash.encoding()),
        out.0.outcome() is Ok,
        out.1.outcome() is Ok,
{
    let params = poseidon_params();
    let commitment = commitment_hash(&params, id, blinding);
    let tag = tag_hash(&params, domain_sep_v2_fr(), ctx_hash, commitment);
    proof {
        use_type_invariant(&id);
        use_type_invariant(&blinding);
        use_type_invariant(&ctx_hash);
        lemma_decode_encode(id);
        lemma_decode_encode(blinding);
        lemma_decode_encode(ctx_hash);
    }
    assemble_v2(id.to_bytes(), blinding.to_bytes(), ctx_hash.to_bytes(), tag)
}

/// Builds the record and the public inputs for an identity, a blinding and a
/// context, each given as between one and thirty-two big-endian bytes, which
/// the record holds padded to thirty-two. The first of identity, blinding
/// and context that has no or too many bytes is the error.
pub fn make_unlinkability_instance_v2(id: &[u8], blinding: &[u8], ctx_hash: &[u8]) -> (res: Result<
    (UnlinkabilityInstanceV2, UnlinkabilityPublicInputsV2),
    SchemaError,
>)
    ensures
        match res {
            Ok((instance, public_inputs)) => {
                &&& first_field_error(
                    seq![(Field::Id, id@), (Field::Blinding, blinding@), (Field::CtxHash, ctx_hash@)],
                ) is None
                &&& built_v2(
                    instance,
                    public_inputs,
                    left_padded(id@),
                    left_padded(blinding@),
                    left_padded(ctx_hash@),
                )
                &&& instance.outcome() is Ok
                &&& public_inputs.outcome() is Ok
            },
            Err(e) => first_field_error(
                seq![(Field::Id, id@), (Field::Blinding, blinding@), (Field::CtxHash, ctx_hash@)],
            ) == Some(e),
        },
{
    proof {
        lemma_first_field_error3(
            (Field::Id, id@),
            (Field::Blinding, blinding@),
            (Field::CtxHash, ctx_hash@),
        );
    }
    let id_bytes = fixed_bytes32(Field::Id, id)?;
    let blinding_bytes = fixed_bytes32(Field::Blinding, blinding)?;
    let ctx_bytes = fixed_bytes32(Field::CtxHash, ctx_hash)?;
    let id_fr = fr_from_fixed_bytes(Field::Id, &id_bytes)?;
    let blinding_fr = fr_from_fixed_bytes(Field::Blinding, &blinding_bytes)?;
    let ctx_fr = fr_from_fixed_bytes(Field::CtxHash, &ctx_bytes)?;
    let params = poseidon_params();
    let commitment = commitment_hash(&params, id_fr, blinding_fr);
    let tag = tag_hash(&params, domain_sep_v2_fr(), ctx_fr, commitment);
    Ok(assemble_v2(id_bytes, blinding_bytes, ctx_bytes, tag))
}

/// Builds the record and the public inputs as
/// [`make_unlinkability_instance_v2`] does and encodes both.
pub fn make_unlinkability_instance_v2_bytes(id: &[u8], blinding: &[u8], ctx_hash: &[u8]) -> (res:
    Result<(Vec<u8>, Vec<u8>), SchemaError>)
    ensures
        match res {
            Ok((instance_bytes, public_inputs_bytes)) => {
                &&& first_field_error(
                    seq![(Field::Id, id@), (Field::Blinding, blinding@), (Field::CtxHash, ctx_hash@)],
                ) is None
                &&& exists|
                    instance: UnlinkabilityInstanceV2,
                    public_inputs: UnlinkabilityPublicInputsV2,
                |
                    #![trigger built_v2(
                        instance,
                        public_inputs,
                        left_padded(id@),
                        left_padded(blinding@),
                        left_padded(ctx_hash@),
                    )]
                    built_v2(
                        instance,
                        public_inputs,
                        left_padded(id@),
                        left_padded(blinding@),
                        left_padded(ctx_hash@),
                    ) && instance_bytes@ == encode_items(instance.items()) && public_inputs_bytes@
                        == encode_items(public_inputs.items())
            },
            Err(e) => first_field_error(
                seq![(Field::Id, id@), (Field::Blinding, blinding@), (Field::CtxHash, ctx_hash@)],
            ) == Some(e),
        },
{
    let (instance, public_inputs) = make_unlinkability_instance_v2(id, blinding, ctx_hash)?;
    Ok((instance.serialize(), public_inputs.serialize()))
}

} // verus!
