//! The records that carry a continuity statement, in two schema versions,
//! their validation into field elements, and the builder of valid records.

use crate::error::{Field, SchemaError, Scope};
use crate::field::{decoded, field_value, fr_from_fixed_bytes, same_bytes, FieldElement};
use crate::poseidon::{
    commitment, commitment_hash, poseidon, poseidon_hash_native, poseidon_params, standard_params,
    values, PoseidonParams, PoseidonParamsView, DOMAIN_COMMITMENT,
};
use vstd::prelude::*;

verus! {

/// Version tag of the first schema.
pub const CONTINUITY_INSTANCE_VERSION_V1: u8 = 1;

/// Domain separator of the first schema: `CONTINUITY_SNARK_V1`, padded with `_`.
pub const CONTINUITY_V1_DOMAIN_SEP: [u8; 32] = [
    67, 79, 78, 84, 73, 78, 85, 73, 84, 89, 95, 83, 78, 65, 82, 75, 95, 86, 49, 95, 95, 95, 95, 95,
    95, 95, 95, 95, 95, 95, 95, 95,
];

/// Version tag of the second schema.
pub const CONTINUITY_INSTANCE_VERSION_V2: u16 = 2;

/// Statement tag of continuity.
pub const CONTINUITY_STATEMENT_TYPE: u16 = 3;

/// Revision of the continuity statement in the second schema.
pub const CONTINUITY_STATEMENT_VERSION_V2: u16 = 2;

/// Domain separator of the second schema: `CONTINUITY_SNARK_V2`, padded with `_`.
pub const CONTINUITY_V2_DOMAIN_SEP: [u8; 32] = [
    67, 79, 78, 84, 73, 78, 85, 73, 84, 89, 95, 83, 78, 65, 82, 75, 95, 86, 50, 95, 95, 95, 95, 95,
    95, 95, 95, 95, 95, 95, 95, 95,
];

/// Context of the second schema where the caller names none:
/// `CONTINUITY_CTX_V2`, padded with `_`.
pub const CONTINUITY_V2_DEFAULT_CTX_HASH: [u8; 32] = [
    67, 79, 78, 84, 73, 78, 85, 73, 84, 89, 95, 67, 84, 88, 95, 86, 50, 95, 95, 95, 95, 95, 95, 95,
    95, 95, 95, 95, 95, 95, 95, 95,
];

/// A record of the first schema: witness and public inputs, as bytes.
#[derive(Clone, Debug, PartialEq, Eq)]
pub struct ContinuityInstanceV1 {
    pub schema_version: u8,
    pub id: [u8; 32],
    pub r1: [u8; 32],
    pub r2: [u8; 32],
    pub c1_hash: [u8; 32],
    pub c2_hash: [u8; 32],
    pub domain_sep: [u8; 32],
}

/// The public inputs of the first schema, as bytes.
#[derive(Clone, Debug, PartialEq, Eq)]
pub struct ContinuityPublicInputsV1 {
    pub schema_version: u8,
    pub c1_hash: [u8; 32],
    pub c2_hash: [u8; 32],
    pub domain_sep: [u8; 32],
}

/// A record of the second schema: witness and public inputs, as bytes.
#[derive(Clone, Debug, PartialEq, Eq)]
pub struct ContinuityInstanceV2 {
    pub schema_version: u16,
    pub statement_type: u16,
    pub statement_version: u16,
    pub id: [u8; 32],
    pub r1: [u8; 32],
    pub r2: [u8; 32],
    pub c1_hash: [u8; 32],
    pub c2_hash: [u8; 32],
    pub domain_sep: [u8; 32],
    pub ctx_hash: [u8; 32],
}

/// The public inputs of the second schema, as bytes.
#[derive(Clone, Debug, PartialEq, Eq)]
pub struct ContinuityPublicInputsV2 {
    pub schema_version: u16,
    pub statement_type: u16,
    pub statement_version: u16,
    pub c1_hash: [u8; 32],
    pub c2_hash: [u8; 32],
    pub domain_sep: [u8; 32],
    pub ctx_hash: [u8; 32],
}

/// The secret side of a continuity statement.
#[derive(Clone, Debug, PartialEq, Eq)]
pub struct ContinuityWitness {
    pub id: FieldElement,
    pub r1: FieldElement,
    pub r2: FieldElement,
}

/// The public side of a continuity statement of the first schema.
#[derive(Clone, Debug, PartialEq, Eq)]
pub struct ContinuityPublicInputs {
    pub c1_hash: FieldElement,
    pub c2_hash: FieldElement,
    pub domain_sep: FieldElement,
}

/// A continuity statement of the first schema with its witness.
#[derive(Clone, Debug, PartialEq, Eq)]
pub struct ContinuityInstance {
    pub public_inputs: ContinuityPublicInputs,
    pub witness: ContinuityWitness,
}

/// The secret side of a continuity statement of the second schema.
#[derive(Clone, Debug, PartialEq, Eq)]
pub struct ContinuityWitnessV2 {
    pub id: FieldElement,
    pub r1: FieldElement,
    pub r2: FieldElement,
}

/// The public side of a continuity statement of the second schema.
#[derive(Clone, Debug, PartialEq, Eq)]
pub struct ContinuityPublicInputsV2Data {
    pub c1_hash: FieldElement,
    pub c2_hash: FieldElement,
    pub domain_sep: FieldElement,
    pub ctx_hash: FieldElement,
}

/// A continuity statement of the second schema with its witness.
#[derive(Clone, Debug, PartialEq, Eq)]
pub struct ContinuityInstanceV2Data {
    pub public_inputs: ContinuityPublicInputsV2Data,
    pub witness: ContinuityWitnessV2,
}

/// What a witness holds.
pub struct WitnessView {
    pub id: nat,
    pub r1: nat,
    pub r2: nat,
}

/// What the public inputs of the first schema hold.
pub struct PublicInputsView {
    pub c1_hash: nat,
    pub c2_hash: nat,
    pub domain_sep: nat,
}

/// What the public inputs of the second schema hold.
pub struct PublicInputsV2View {
    pub c1_hash: nat,
    pub c2_hash: nat,
    pub domain_sep: nat,
    pub ctx_hash: nat,
}

impl View for ContinuityWitness {
    type V = WitnessView;

    open spec fn view(&self) -> WitnessView {
        WitnessView { id: self.id@, r1: self.r1@, r2: self.r2@ }
    }
}

impl View for ContinuityWitnessV2 {
    type V = WitnessView;

    open spec fn view(&self) -> WitnessView {
        WitnessView { id: self.id@, r1: self.r1@, r2: self.r2@ }
    }
}

impl View for ContinuityPublicInputs {
    type V = PublicInputsView;

    open spec fn view(&self) -> PublicInputsView {
        PublicInputsView {
            c1_hash: self.c1_hash@,
            c2_hash: self.c2_hash@,
            domain_sep: self.domain_sep@,
        }
    }
}

impl View for ContinuityPublicInputsV2Data {
    type V = PublicInputsV2View;

    open spec fn view(&self) -> PublicInputsV2View {
        PublicInputsV2View {
            c1_hash: self.c1_hash@,
            c2_hash: self.c2_hash@,
            domain_sep: self.domain_sep@,
            ctx_hash: self.ctx_hash@,
        }
    }
}

impl View for ContinuityInstance {
    type V = (PublicInputsView, WitnessView);

    open spec fn view(&self) -> (PublicInputsView, WitnessView) {
        (self.public_inputs@, self.witness@)
    }
}

impl View for ContinuityInstanceV2Data {
    type V = (PublicInputsV2View, WitnessView);

    open spec fn view(&self) -> (PublicInputsV2View, WitnessView) {
        (self.public_inputs@, self.witness@)
    }
}

/// `H(1, id, r, ctx_hash)`: the commitment of the second schema.
pub open spec fn commitment_v2(params: PoseidonParamsView, id: nat, r: nat, ctx_hash: nat) -> nat {
    poseidon(params, seq![DOMAIN_COMMITMENT as nat, id, r, ctx_hash])
}

/// The outcome of checking the version tag of the first schema.
pub open spec fn version_check(scope: Scope, version: u8) -> Result<(), SchemaError> {
    if version != CONTINUITY_INSTANCE_VERSION_V1 {
        Err(
            SchemaError::SchemaVersionMismatch {
                scope,
                expected: CONTINUITY_INSTANCE_VERSION_V1 as u16,
                got: version as u16,
            },
        )
    } else {
        Ok(())
    }
}

/// The outcome of checking a domain separator against a constant.
pub open spec fn domain_sep_check(scope: Scope, value: Seq<u8>, constant: Seq<u8>) -> Result<
    (),
    SchemaError,
> {
    if value != constant {
        Err(SchemaError::DomainSepMismatch { scope })
    } else {
        Ok(())
    }
}

/// The outcome of checking the version tag of the second schema.
pub open spec fn version_v2_check(scope: Scope, version: u16) -> Result<(), SchemaError> {
    if version != CONTINUITY_INSTANCE_VERSION_V2 {
        Err(
            SchemaError::SchemaVersionMismatch {
                scope,
                expected: CONTINUITY_INSTANCE_VERSION_V2,
                got: version,
            },
        )
    } else {
        Ok(())
    }
}

/// The outcome of checking statement tag and statement revision, the tag
/// looked at first.
pub open spec fn statement_check(statement_type: u16, statement_version: u16) -> Result<
    (),
    SchemaError,
> {
    if statement_type != CONTINUITY_STATEMENT_TYPE {
        Err(
            SchemaError::StatementTypeMismatch {
                expected: CONTINUITY_STATEMENT_TYPE,
                got: statement_type,
            },
        )
    } else if statement_version != CONTINUITY_STATEMENT_VERSION_V2 {
        Err(
            SchemaError::StatementVersionMismatch {
                expected: CONTINUITY_STATEMENT_VERSION_V2,
                got: statement_version,
            },
        )
    } else {
        Ok(())
    }
}

/// The outcome of the three checks that open a record of the second schema:
/// schema version, statement tag and revision, domain separator.
pub open spec fn header_v2_check(
    scope: Scope,
    schema_version: u16,
    statement_type: u16,
    statement_version: u16,
    domain_sep: Seq<u8>,
) -> Result<(), SchemaError> {
    if version_v2_check(scope, schema_version) is Err {
        version_v2_check(scope, schema_version)
    } else if statement_check(statement_type, statement_version) is Err {
        statement_check(statement_type, statement_version)
    } else {
        domain_sep_check(scope, domain_sep, CONTINUITY_V2_DOMAIN_SEP@)
    }
}

/// The outcome of the two checks that open a record of the first schema:
/// schema version, domain separator.
pub open spec fn header_v1_check(scope: Scope, schema_version: u8, domain_sep: Seq<u8>) -> Result<
    (),
    SchemaError,
> {
    if version_check(scope, schema_version) is Err {
        version_check(scope, schema_version)
    } else {
        domain_sep_check(scope, domain_sep, CONTINUITY_V1_DOMAIN_SEP@)
    }
}

/// The domain separator of the first schema as a field element.
pub fn domain_sep_fr() -> (fe: FieldElement)
    ensures
        Some(fe@) == decoded(CONTINUITY_V1_DOMAIN_SEP@),
        fe.valid(),
{
    match fr_from_fixed_bytes(Field::DomainSep, &CONTINUITY_V1_DOMAIN_SEP) {
        Ok(fe) => fe,
        Err(_) => FieldElement::from_u64(0),
    }
}

/// The domain separator of the second schema as a field element.
pub fn domain_sep_v2_fr() -> (fe: FieldElement)
    ensures
        Some(fe@) == decoded(CONTINUITY_V2_DOMAIN_SEP@),
        fe.valid(),
{
    match fr_from_fixed_bytes(Field::DomainSep, &CONTINUITY_V2_DOMAIN_SEP) {
        Ok(fe) => fe,
        Err(_) => FieldElement::from_u64(0),
    }
}

/// Checks the version tag of the first schema.
pub fn ensure_version(scope: Scope, version: u8) -> (res: Result<(), SchemaError>)
    ensures
        res == version_check(scope, version),
{
    if version != CONTINUITY_INSTANCE_VERSION_V1 {
        return Err(
            SchemaError::SchemaVersionMismatch {
                scope,
                expected: CONTINUITY_INSTANCE_VERSION_V1 as u16,
                got: version as u16,
            },
        );
    }
    Ok(())
}

/// Checks that a domain separator is, byte for byte, that of the first schema.
pub fn ensure_domain_sep(scope: Scope, value: &[u8; 32]) -> (res: Result<(), SchemaError>)
    ensures
        res == domain_sep_check(scope, value@, CONTINUITY_V1_DOMAIN_SEP@),
{
    if !same_bytes(value, &CONTINUITY_V1_DOMAIN_SEP) {
        return Err(SchemaError::DomainSepMismatch { scope });
    }
    Ok(())
}

/// Checks the version tag of the second schema.
pub fn ensure_version_v2(scope: Scope, version: u16) -> (res: Result<(), SchemaError>)
    ensures
        res == version_v2_check(scope, version),
{
    if version != CONTINUITY_INSTANCE_VERSION_V2 {
        return Err(
            SchemaError::SchemaVersionMismatch {
                scope,
                expected: CONTINUITY_INSTANCE_VERSION_V2,
                got: version,
            },
        );
    }
    Ok(())
}

/// Checks the statement tag and the statement revision of a record of the
/// second schema; the tag is looked at first.
pub fn ensure_statement_type_version(statement_type: u16, statement_version: u16) -> (res: Result<
    (),
    SchemaError,
>)
    ensures
        res == statement_check(statement_type, statement_version),
{
    if statement_type != CONTINUITY_STATEMENT_TYPE {
        return Err(
            SchemaError::StatementTypeMismatch {
                expected: CONTINUITY_STATEMENT_TYPE,
                got: statement_type,
            },
        );
    }
    if statement_version != CONTINUITY_STATEMENT_VERSION_V2 {
        return Err(
            SchemaError::StatementVersionMismatch {
                expected: CONTINUITY_STATEMENT_VERSION_V2,
                got: statement_version,
            },
        );
    }
    Ok(())
}

/// Checks that a domain separator is, byte for byte, that of the second schema.
pub fn ensure_domain_sep_v2(scope: Scope, value: &[u8; 32]) -> (res: Result<(), SchemaError>)
    ensures
        res == domain_sep_check(scope, value@, CONTINUITY_V2_DOMAIN_SEP@),
{
    if !same_bytes(value, &CONTINUITY_V2_DOMAIN_SEP) {
        return Err(SchemaError::DomainSepMismatch { scope });
    }
    Ok(())
}

/// The commitment of the second schema: `H(1, id, r, ctx_hash)`.
pub fn commitment_hash_v2(
    params: &PoseidonParams,
    id: FieldElement,
    r: FieldElement,
    ctx_hash: FieldElement,
) -> (out: FieldElement)
    ensures
        out@ == commitment_v2(params@, id@, r@, ctx_hash@),
        out.valid(),
{
    let inputs = vec![FieldElement::from_u64(DOMAIN_COMMITMENT), id, r, ctx_hash];
    assert(values(inputs@) =~= seq![DOMAIN_COMMITMENT as nat, id@, r@, ctx_hash@]);
    poseidon_hash_native(params, &inputs)
}

impl ContinuityPublicInputsV1 {
    /// What the record decodes to: schema version and domain separator must
    /// be those of the first schema, looked at in this order.
    pub open spec fn outcome(self) -> Result<PublicInputsView, SchemaError> {
        match header_v1_check(Scope::PublicInputs, self.schema_version, self.domain_sep@) {
            Err(e) => Err(e),
            Ok(_) => Ok(
                PublicInputsView {
                    c1_hash: field_value(self.c1_hash@),
                    c2_hash: field_value(self.c2_hash@),
                    domain_sep: field_value(self.domain_sep@),
                },
            ),
        }
    }

    /// Validates and decodes the public inputs of the first schema.
    pub fn into_public_inputs(self) -> (res: Result<ContinuityPublicInputs, SchemaError>)
        ensures
            match res {
                Ok(inputs) => self.outcome() == Ok::<PublicInputsView, SchemaError>(inputs@),
                Err(e) => self.outcome() == Err::<PublicInputsView, SchemaError>(e),
            },
    {
        ensure_version(Scope::PublicInputs, self.schema_version)?;
        ensure_domain_sep(Scope::PublicInputs, &self.domain_sep)?;
        Ok(
            ContinuityPublicInputs {
                c1_hash: fr_from_fixed_bytes(Field::C1Hash, &self.c1_hash)?,
                c2_hash: fr_from_fixed_bytes(Field::C2Hash, &self.c2_hash)?,
                domain_sep: fr_from_fixed_bytes(Field::DomainSep, &self.domain_sep)?,
            },
        )
    }
}

impl ContinuityInstanceV1 {
    /// What the record decodes to: schema version and domain separator must
    /// be those of the first schema, and the two public hashes must be the
    /// commitments to the identity under the two blindings, looked at in this
    /// order.
    pub open spec fn outcome(self) -> Result<(PublicInputsView, WitnessView), SchemaError> {
        let id = field_value(self.id@);
        let r1 = field_value(self.r1@);
        let r2 = field_value(self.r2@);
        let c1_hash = field_value(self.c1_hash@);
        let c2_hash = field_value(self.c2_hash@);
        match header_v1_check(Scope::Instance, self.schema_version, self.domain_sep@) {
            Err(e) => Err(e),
            Ok(_) => if commitment(standard_params(), id, r1) != c1_hash {
                Err(SchemaError::C1HashMismatch)
            } else if commitment(standard_params(), id, r2) != c2_hash {
                Err(SchemaError::C2HashMismatch)
            } else {
                Ok(
                    (
                        PublicInputsView {
                            c1_hash,
                            c2_hash,
                            domain_sep: field_value(self.domain_sep@),
                        },
                        WitnessView { id, r1, r2 },
                    ),
                )
            },
        }
    }

    /// Validates and decodes a record of the first schema, recomputing both
    /// commitments from the witness.
    pub fn into_instance(self) -> (res: Result<ContinuityInstance, SchemaError>)
        ensures
            match res {
                Ok(instance) => self.outcome() == Ok::<(PublicInputsView, WitnessView), SchemaError>(
                    instance@,
                ),
                Err(e) => self.outcome() == Err::<(PublicInputsView, WitnessView), SchemaError>(e),
            },
    {
        ensure_version(Scope::Instance, self.schema_version)?;
        ensure_domain_sep(Scope::Instance, &self.domain_sep)?;
        let id = fr_from_fixed_bytes(Field::Id, &self.id)?;
        let r1 = fr_from_fixed_bytes(Field::R1, &self.r1)?;
        let r2 = fr_from_fixed_bytes(Field::R2, &self.r2)?;
        let c1_hash = fr_from_fixed_bytes(Field::C1Hash, &self.c1_hash)?;
        let c2_hash = fr_from_fixed_bytes(Field::C2Hash, &self.c2_hash)?;
        let params = poseidon_params();
        let expected_c1 = commitment_hash(&params, id, r1);
        if !expected_c1.eq(&c1_hash) {
            return Err(SchemaError::C1HashMismatch);
        }
        let expected_c2 = commitment_hash(&params, id, r2);
        if !expected_c2.eq(&c2_hash) {
            return Err(SchemaError::C2HashMismatch);
        }
        let public_inputs = ContinuityPublicInputs {
            c1_hash,
            c2_hash,
            domain_sep: fr_from_fixed_bytes(Field::DomainSep, &self.domain_sep)?,
        };
        let witness = ContinuityWitness { id, r1, r2 };
        Ok(ContinuityInstance { public_inputs, witness })
    }
}

impl ContinuityPublicInputsV2 {
    /// What the record decodes to: schema version, statement tag, statement
    /// revision and domain separator must be those of the second schema,
    /// looked at in this order.
    pub open spec fn outcome(self) -> Result<PublicInputsV2View, SchemaError> {
        match header_v2_check(
            Scope::PublicInputs,
            self.schema_version,
            self.statement_type,
            self.statement_version,
            self.domain_sep@,
        ) {
            Err(e) => Err(e),
            Ok(_) => Ok(
                PublicInputsV2View {
                    c1_hash: field_value(self.c1_hash@),
                    c2_hash: field_value(self.c2_hash@),
                    domain_sep: field_value(self.domain_sep@),
                    ctx_hash: field_value(self.ctx_hash@),
                },
            ),
        }
    }

    /// Validates and decodes the public inputs of the second schema.
    pub fn into_public_inputs(self) -> (res: Result<ContinuityPublicInputsV2Data, SchemaError>)
        ensures
            match res {
                Ok(inputs) => self.outcome() == Ok::<PublicInputsV2View, SchemaError>(inputs@),
                Err(e) => self.outcome() == Err::<PublicInputsV2View, SchemaError>(e),
            },
    {
        ensure_version_v2(Scope::PublicInputs, self.schema_version)?;
        ensure_statement_type_version(self.statement_type, self.statement_version)?;
        ensure_domain_sep_v2(Scope::PublicInputs, &self.domain_sep)?;
        Ok(
            ContinuityPublicInputsV2Data {
                c1_hash: fr_from_fixed_bytes(Field::C1Hash, &self.c1_hash)?,
                c2_hash: fr_from_fixed_bytes(Field::C2Hash, &self.c2_hash)?,
                domain_sep: fr_from_fixed_bytes(Field::DomainSep, &self.domain_sep)?,
                ctx_hash: fr_from_fixed_bytes(Field::CtxHash, &self.ctx_hash)?,
            },
        )
    }
}

impl ContinuityInstanceV2 {
    /// What the record decodes to: schema version, statement tag, statement
    /// revision and domain separator must be those of the second schema, and
    /// the two public hashes must be the commitments to the identity under
    /// the two blindings in the record's context, looked at in this order.
    pub open spec fn outcome(self) -> Result<(PublicInputsV2View, WitnessView), SchemaError> {
        let id = field_value(self.id@);
        let r1 = field_value(self.r1@);
        let r2 = field_value(self.r2@);
        let c1_hash = field_value(self.c1_hash@);
        let c2_hash = field_value(self.c2_hash@);
        let ctx_hash = field_value(self.ctx_hash@);
        match header_v2_check(
            Scope::Instance,
            self.schema_version,
            self.statement_type,
            self.statement_version,
            self.domain_sep@,
        ) {
            Err(e) => Err(e),
            Ok(_) => if commitment_v2(standard_params(), id, r1, ctx_hash) != c1_hash {
                Err(SchemaError::C1HashMismatch)
            } else if commitment_v2(standard_params(), id, r2, ctx_hash) != c2_hash {
                Err(SchemaError::C2HashMismatch)
            } else {
                Ok(
                    (
                        PublicInputsV2View {
                            c1_hash,
                            c2_hash,
                            domain_sep: field_value(self.domain_sep@),
                            ctx_hash,
                        },
                        WitnessView { id, r1, r2 },
                    ),
                )
            },
        }
    }

    /// Validates and decodes a record of the second schema, recomputing both
    /// commitments from the witness and the context.
    pub fn into_instance(self) -> (res: Result<ContinuityInstanceV2Data, SchemaError>)
        ensures
            match res {
                Ok(instance) => self.outcome() == Ok::<
                    (PublicInputsV2View, WitnessView),
                    SchemaError,
                >(instance@),
                Err(e) => self.outcome() == Err::<(PublicInputsV2View, WitnessView), SchemaError>(
                    e,
                ),
            },
    {
        ensure_version_v2(Scope::Instance, self.schema_version)?;
        ensure_statement_type_version(self.statement_type, self.statement_version)?;
        ensure_domain_sep_v2(Scope::Instance, &self.domain_sep)?;
        let id = fr_from_fixed_bytes(Field::Id, &self.id)?;
        let r1 = fr_from_fixed_bytes(Field::R1, &self.r1)?;
        let r2 = fr_from_fixed_bytes(Field::R2, &self.r2)?;
        let c1_hash = fr_from_fixed_bytes(Field::C1Hash, &self.c1_hash)?;
        let c2_hash = fr_from_fixed_bytes(Field::C2Hash, &self.c2_hash)?;
        let ctx_hash = fr_from_fixed_bytes(Field::CtxHash, &self.ctx_hash)?;
        let params = poseidon_params();
        let expected_c1 = commitment_hash_v2(&params, id, r1, ctx_hash);
        if !expected_c1.eq(&c1_hash) {
            return Err(SchemaError::C1HashMismatch);
        }
        let expected_c2 = commitment_hash_v2(&params, id, r2, ctx_hash);
        if !expected_c2.eq(&c2_hash) {
            return Err(SchemaError::C2HashMismatch);
        }
        let public_inputs = ContinuityPublicInputsV2Data {
            c1_hash,
            c2_hash,
            domain_sep: fr_from_fixed_bytes(Field::DomainSep, &self.domain_sep)?,
            ctx_hash,
        };
        let witness = ContinuityWitnessV2 { id, r1, r2 };
        Ok(ContinuityInstanceV2Data { public_inputs, witness })
    }
}

} // verus!
