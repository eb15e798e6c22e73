//! The records that carry an unlinkability statement, their validation into
//! field elements, and the builder of valid records.

use crate::error::{Field, SchemaError, Scope};
use crate::field::{field_value, fr_from_fixed_bytes, same_bytes, FieldElement};
use crate::poseidon::{
    commitment, commitment_hash, poseidon, poseidon_hash_native, poseidon_params, standard_params,
    values, PoseidonParams, PoseidonParamsView,
};
use vstd::prelude::*;

verus! {

/// Version tag of the schema.
pub const UNLINKABILITY_INSTANCE_VERSION_V2: u16 = 2;

/// Statement tag of unlinkability.
pub const UNLINKABILITY_STATEMENT_TYPE: u16 = 2;

/// Revision of the unlinkability statement.
pub const UNLINKABILITY_STATEMENT_VERSION_V2: u16 = 2;

/// Domain separator of the schema: `UNLINKABILITY_SNARK_V2`, padded with `_`.
pub const UNLINKABILITY_V2_DOMAIN_SEP: [u8; 32] = [
    85, 78, 76, 73, 78, 75, 65, 66, 73, 76, 73, 84, 89, 95, 83, 78, 65, 82, 75, 95, 86, 50, 95, 95,
    95, 95, 95, 95, 95, 95, 95, 95,
];

/// Context where the caller names none: `UNLINKABILITY_CTX_V2`, padded with `_`.
pub const UNLINKABILITY_V2_DEFAULT_CTX_HASH: [u8; 32] = [
    85, 78, 76, 73, 78, 75, 65, 66, 73, 76, 73, 84, 89, 95, 67, 84, 88, 95, 86, 50, 95, 95, 95, 95,
    95, 95, 95, 95, 95, 95, 95, 95,
];

/// A record: witness and public inputs, as bytes.
#[derive(Clone, Debug, PartialEq, Eq)]
pub struct UnlinkabilityInstanceV2 {
    pub schema_version: u16,
    pub statement_type: u16,
    pub statement_version: u16,
    pub id: [u8; 32],
    pub blinding: [u8; 32],
    pub tag: [u8; 32],
    pub domain_sep: [u8; 32],
    pub ctx_hash: [u8; 32],
}

/// The public inputs, as bytes.
#[derive(Clone, Debug, PartialEq, Eq)]
pub struct UnlinkabilityPublicInputsV2 {
    pub schema_version: u16,
    pub statement_type: u16,
    pub statement_version: u16,
    pub tag: [u8; 32],
    pub domain_sep: [u8; 32],
    pub ctx_hash: [u8; 32],
}

/// The secret side of an unlinkability statement.
#[derive(Clone, Debug, PartialEq, Eq)]
pub struct UnlinkabilityWitnessV2 {
    pub id: FieldElement,
    pub blinding: FieldElement,
}

/// The public side of an unlinkability statement.
#[derive(Clone, Debug, PartialEq, Eq)]
pub struct UnlinkabilityPublicInputsV2Data {
    pub tag: FieldElement,
    pub domain_sep: FieldElement,
    pub ctx_hash: FieldElement,
}

/// An unlinkability statement with its witness.
#[derive(Clone, Debug, PartialEq, Eq)]
pub struct UnlinkabilityInstanceV2Data {
    pub public_inputs: UnlinkabilityPublicInputsV2Data,
    pub witness: UnlinkabilityWitnessV2,
}

/// What a witness holds.
pub struct WitnessView {
    pub id: nat,
    pub blinding: nat,
}

/// What the public inputs hold.
pub struct PublicInputsView {
    pub tag: nat,
    pub domain_sep: nat,
    pub ctx_hash: nat,
}

impl View for UnlinkabilityWitnessV2 {
    type V = WitnessView;

    open spec fn view(&self) -> WitnessView {
        WitnessView { id: self.id@, blinding: self.blinding@ }
    }
}

impl View for UnlinkabilityPublicInputsV2Data {
    type V = PublicInputsView;

    open spec fn view(&self) -> PublicInputsView {
        PublicInputsView {
            tag: self.tag@,
            domain_sep: self.domain_sep@,
            ctx_hash: self.ctx_hash@,
        }
    }
}

impl View for UnlinkabilityInstanceV2Data {
    type V = (PublicInputsView, WitnessView);

    open spec fn view(&self) -> (PublicInputsView, WitnessView) {
        (self.public_inputs@, self.witness@)
    }
}

/// `H(domain_sep, ctx_hash, c)`: the tag of a commitment in a context.
pub open spec fn tag(params: PoseidonParamsView, domain_sep: nat, ctx_hash: nat, c: nat) -> nat {
    poseidon(params, seq![domain_sep, ctx_hash, c])
}

/// The tag that an identity under a blinding has in a context, with the
/// domain separator of the schema.
pub open spec fn tag_of(id: nat, blinding: nat, ctx_hash: nat) -> nat {
    tag(
        standard_params(),
        field_value(UNLINKABILITY_V2_DOMAIN_SEP@),
        ctx_hash,
        commitment(standard_params(), id, blinding),
    )
}

/// The outcome of checking the version tag.
pub open spec fn version_v2_check(scope: Scope, version: u16) -> Result<(), SchemaError> {
    if version != UNLINKABILITY_INSTANCE_VERSION_V2 {
        Err(
            SchemaError::SchemaVersionMismatch {
                scope,
                expected: UNLINKABILITY_INSTANCE_VERSION_V2,
                got: version,
            },
        )
    } else {
        Ok(())
    }
}

/// The outcome of checking statement tag and statement revision, the tag
/// looked at first.
pub open spec fn statement_check(statement_type: u16, statement_version: u16) -> Result<
    (),
    SchemaError,
> {
    if statement_type != UNLINKABILITY_STATEMENT_TYPE {
        Err(
            SchemaError::StatementTypeMismatch {
                expected: UNLINKABILITY_STATEMENT_TYPE,
                got: statement_type,
            },
        )
    } else if statement_version != UNLINKABILITY_STATEMENT_VERSION_V2 {
        Err(
            SchemaError::StatementVersionMismatch {
                expected: UNLINKABILITY_STATEMENT_VERSION_V2,
                got: statement_version,
            },
        )
    } else {
        Ok(())
    }
}

/// The outcome of checking a domain separator.
pub open spec fn domain_sep_check(scope: Scope, value: Seq<u8>) -> Result<(), SchemaError> {
    if value != UNLINKABILITY_V2_DOMAIN_SEP@ {
        Err(SchemaError::DomainSepMismatch { scope })
    } else {
        Ok(())
    }
}

/// The outcome of the three checks that open a record: schema version,
/// statement tag and revision, domain separator.
pub open spec fn header_check(
    scope: Scope,
    schema_version: u16,
    statement_type: u16,
    statement_version: u16,
    domain_sep: Seq<u8>,
) -> Result<(), SchemaError> {
    if version_v2_check(scope, schema_version) is Err {
        version_v2_check(scope, schema_version)
    } else if statement_check(statement_type, statement_version) is Err {
        statement_check(statement_type, statement_version)
    } else {
        domain_sep_check(scope, domain_sep)
    }
}

/// The domain separator of the schema as a field element.
pub fn domain_sep_v2_fr() -> (fe: FieldElement)
    ensures
        fe@ == field_value(UNLINKABILITY_V2_DOMAIN_SEP@),
        fe.valid(),
{
    match fr_from_fixed_bytes(Field::DomainSep, &UNLINKABILITY_V2_DOMAIN_SEP) {
        Ok(fe) => fe,
        Err(_) => FieldElement::from_u64(0),
    }
}

/// Checks the version tag.
pub fn ensure_version_v2(scope: Scope, version: u16) -> (res: Result<(), SchemaError>)
    ensures
        res == version_v2_check(scope, version),
{
    if version != UNLINKABILITY_INSTANCE_VERSION_V2 {
        return Err(
            SchemaError::SchemaVersionMismatch {
                scope,
                expected: UNLINKABILITY_INSTANCE_VERSION_V2,
                got: version,
            },
        );
    }
    Ok(())
}

/// Checks the statement tag and the statement revision; the tag is looked at
/// first.
pub fn ensure_statement_type_version(statement_type: u16, statement_version: u16) -> (res: Result<
    (),
    SchemaError,
>)
    ensures
        res == statement_check(statement_type, statement_version),
{
    if statement_type != UNLINKABILITY_STATEMENT_TYPE {
        return Err(
            SchemaError::StatementTypeMismatch {
                expected: UNLINKABILITY_STATEMENT_TYPE,
                got: statement_type,
            },
        );
    }
    if statement_version != UNLINKABILITY_STATEMENT_VERSION_V2 {
        return Err(
            SchemaError::StatementVersionMismatch {
                expected: UNLINKABILITY_STATEMENT_VERSION_V2,
                got: statement_version,
            },
        );
    }
    Ok(())
}

/// Checks that a domain separator is, byte for byte, that of the schema.
pub fn ensure_domain_sep_v2(scope: Scope, value: &[u8; 32]) -> (res: Result<(), SchemaError>)
    ensures
        res == domain_sep_check(scope, value@),
{
    if !same_bytes(value, &UNLINKABILITY_V2_DOMAIN_SEP) {
        return Err(SchemaError::DomainSepMismatch { scope });
    }
    Ok(())
}

/// The tag of a commitment in a context: `H(domain_sep, ctx_hash, commitment)`.
pub fn tag_hash(
    params: &PoseidonParams,
    domain_sep: FieldElement,
    ctx_hash: FieldElement,
    commitment: FieldElement,
) -> (out: FieldElement)
    ensures
        out@ == tag(params@, domain_sep@, ctx_hash@, commitment@),
        out.valid(),
{
    let inputs = vec![domain_sep, ctx_hash, commitment];
    assert(values(inputs@) =~= seq![domain_sep@, ctx_hash@, commitment@]);
    poseidon_hash_native(params, &inputs)
}

impl UnlinkabilityPublicInputsV2 {
    /// What the record decodes to: schema version, statement tag, statement
    /// revision and domain separator must be those of the schema, looked at
    /// in this order.
    pub open spec fn outcome(self) -> Result<PublicInputsView, SchemaError> {
        match header_check(
            Scope::PublicInputs,
            self.schema_version,
            self.statement_type,
            self.statement_version,
            self.domain_sep@,
        ) {
            Err(e) => Err(e),
            Ok(_) => Ok(
                PublicInputsView {
                    tag: field_value(self.tag@),
                    domain_sep: field_value(self.domain_sep@),
                    ctx_hash: field_value(self.ctx_hash@),
                },
            ),
        }
    }

    /// Validates and decodes the public inputs.
    pub fn into_public_inputs(self) -> (res: Result<UnlinkabilityPublicInputsV2Data, SchemaError>)
        ensures
            match res {
                Ok(inputs) => self.outcome() == Ok::<PublicInputsView, SchemaError>(inputs@),
                Err(e) => self.outcome() == Err::<PublicInputsView, SchemaError>(e),
            },
    {
        ensure_version_v2(Scope::PublicInputs, self.schema_version)?;
        ensure_statement_type_version(self.statement_type, self.statement_version)?;
        ensure_domain_sep_v2(Scope::PublicInputs, &self.domain_sep)?;
        Ok(
            UnlinkabilityPublicInputsV2Data {
                tag: fr_from_fixed_bytes(Field::Tag, &self.tag)?,
                domain_sep: fr_from_fixed_bytes(Field::DomainSep, &self.domain_sep)?,
                ctx_hash: fr_from_fixed_bytes(Field::CtxHash, &self.ctx_hash)?,
            },
        )
    }
}

impl UnlinkabilityInstanceV2 {
    /// What the record decodes to: schema version, statement tag, statement
    /// revision and domain separator must be those of the schema, and the
    /// public tag must be the tag of the committed identity in the record's
    /// context, looked at in this order.
    pub open spec fn outcome(self) -> Result<(PublicInputsView, WitnessView), SchemaError> {
        let id = field_value(self.id@);
        let blinding = field_value(self.blinding@);
        let ctx_hash = field_value(self.ctx_hash@);
        match header_check(
            Scope::Instance,
            self.schema_version,
            self.statement_type,
            self.statement_version,
            self.domain_sep@,
        ) {
            Err(e) => Err(e),
            Ok(_) => if tag_of(id, blinding, ctx_hash) != field_value(self.tag@) {
                Err(SchemaError::TagMismatch)
            } else {
                Ok(
                    (
                        PublicInputsView {
                            tag: field_value(self.tag@),
                            domain_sep: field_value(self.domain_sep@),
                            ctx_hash,
                        },
                        WitnessView { id, blinding },
                    ),
                )
            },
        }
    }

    /// Validates and decodes a record, recomputing the tag from the witness
    /// and the context.
    pub fn into_instance(self) -> (res: Result<UnlinkabilityInstanceV2Data, SchemaError>)
        ensures
            match res {
                Ok(instance) => self.outcome() == Ok::<(PublicInputsView, WitnessView), SchemaError>(
                    instance@,
                ),
                Err(e) => self.outcome() == Err::<(PublicInputsView, WitnessView), SchemaError>(e),
            },
    {
        ensure_version_v2(Scope::Instance, self.schema_version)?;
        ensure_statement_type_version(self.statement_type, self.statement_version)?;
        ensure_domain_sep_v2(Scope::Instance, &self.domain_sep)?;
        let id = fr_from_fixed_bytes(Field::Id, &self.id)?;
        let blinding = fr_from_fixed_bytes(Field::Blinding, &self.blinding)?;
        let tag = fr_from_fixed_bytes(Field::Tag, &self.tag)?;
        let ctx_hash = fr_from_fixed_bytes(Field::CtxHash, &self.ctx_hash)?;
        let params = poseidon_params();
        let commitment = commitment_hash(&params, id, blinding);
        let expected_tag = tag_hash(&params, domain_sep_v2_fr(), ctx_hash, commitment);
        if !expected_tag.eq(&tag) {
            return Err(SchemaError::TagMismatch);
        }
        let public_inputs = UnlinkabilityPublicInputsV2Data {
            tag,
            domain_sep: fr_from_fixed_bytes(Field::DomainSep, &self.domain_sep)?,
            ctx_hash,
        };
        let witness = UnlinkabilityWitnessV2 { id, blinding };
        Ok(UnlinkabilityInstanceV2Data { public_inputs, witness })
    }
}

} // verus!
