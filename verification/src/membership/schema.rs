//! The records that carry a membership statement, in three schema versions,
//! and their validation into field elements.

use crate::error::{Field, SchemaError, Scope, VersionTag};
use crate::field::{
    decoded, field_error, field_value, fr_from_bytes, fr_from_fixed_bytes, same_bytes, FieldElement,
};
use crate::merkle::{compute_root, merkle_root, path_values};
use crate::poseidon::{
    commitment, commitment_hash, leaf, leaf_hash, leaf_v2, poseidon_hash_leaf_v2, poseidon_params,
    standard_params,
};
use vstd::prelude::*;

verus! {

/// Depth of the tree of a record without a version.
pub const MERKLE_DEPTH: usize = 1;

/// Version tag of the first versioned schema.
pub const MEMBERSHIP_INSTANCE_VERSION_V1: u8 = 1;

/// Version tag of the second versioned schema.
pub const MEMBERSHIP_INSTANCE_VERSION_V2: u16 = 2;

/// Statement tag of membership.
pub const MEMBERSHIP_STATEMENT_TYPE: u16 = 1;

/// Revision of the membership statement in the second schema.
pub const MEMBERSHIP_STATEMENT_VERSION_V2: u16 = 2;

/// Domain separator of the second schema: `SNARK_MEMBERSHIP_V2`, padded with `_`.
pub const MEMBERSHIP_V2_DOMAIN_SEP: [u8; 32] = [
    83, 78, 65, 82, 75, 95, 77, 69, 77, 66, 69, 82, 83, 72, 73, 80, 95, 86, 50, 95, 95, 95, 95, 95,
    95, 95, 95, 95, 95, 95, 95, 95,
];

/// Context of the second schema where the caller names none:
/// `MEMBERSHIP_CTX_V2`, padded with `_`.
pub const MEMBERSHIP_V2_DEFAULT_CTX_HASH: [u8; 32] = [
    77, 69, 77, 66, 69, 82, 83, 72, 73, 80, 95, 67, 84, 88, 95, 86, 50, 95, 95, 95, 95, 95, 95, 95,
    95, 95, 95, 95, 95, 95, 95, 95,
];

/// One level of a Merkle path, as bytes.
#[derive(Clone, Debug, PartialEq, Eq)]
pub struct MerklePathNodeBytes {
    pub sibling: Vec<u8>,
    pub is_left: bool,
}

/// Witness of a record without a version, as bytes.
#[derive(Clone, Debug, PartialEq, Eq)]
pub struct MembershipWitnessBytes {
    pub identity_scalar: Vec<u8>,
    pub blinding: Vec<u8>,
    pub merkle_path: Vec<MerklePathNodeBytes>,
}

/// Public inputs of a record without a version, as bytes.
#[derive(Clone, Debug, PartialEq, Eq)]
pub struct MembershipPublicInputsBytes {
    pub root: Vec<u8>,
    pub commitment: Vec<u8>,
}

/// A record without a version.
#[derive(Clone, Debug, PartialEq, Eq)]
pub struct MembershipInstanceBytes {
    pub public_inputs: MembershipPublicInputsBytes,
    pub witness: MembershipWitnessBytes,
}

/// Witness of the first versioned schema, as bytes.
#[derive(Clone, Debug, PartialEq, Eq)]
pub struct MembershipWitnessV1Bytes {
    pub version: u8,
    pub depth: u32,
    pub identity_scalar: Vec<u8>,
    pub blinding: Vec<u8>,
    pub merkle_siblings: Vec<Vec<u8>>,
    pub merkle_directions: Vec<bool>,
}

/// Public inputs of the first versioned schema, as bytes.
#[derive(Clone, Debug, PartialEq, Eq)]
pub struct MembershipPublicInputsV1Bytes {
    pub version: u8,
    pub depth: u32,
    pub root: Vec<u8>,
    pub commitment: Vec<u8>,
}

/// A record of the first versioned schema.
#[derive(Clone, Debug, PartialEq, Eq)]
pub struct MembershipInstanceV1Bytes {
    pub version: u8,
    pub public_inputs: MembershipPublicInputsV1Bytes,
    pub witness: MembershipWitnessV1Bytes,
}

/// Witness of the second versioned schema, as bytes.
#[derive(Clone, Debug, PartialEq, Eq)]
pub struct MembershipWitnessV2Bytes {
    pub schema_version: u16,
    pub depth: u32,
    pub identity_scalar: Vec<u8>,
    pub blinding: Vec<u8>,
    pub merkle_siblings: Vec<Vec<u8>>,
    pub merkle_directions: Vec<bool>,
}

/// Public inputs of the second versioned schema, as bytes.
#[derive(Clone, Debug, PartialEq, Eq)]
pub struct MembershipPublicInputsV2Bytes {
    pub schema_version: u16,
    pub statement_type: u16,
    pub statement_version: u16,
    pub depth: u32,
    pub root: [u8; 32],
    pub commitment: [u8; 32],
    pub domain_sep: [u8; 32],
    pub ctx_hash: [u8; 32],
}

/// A record of the second versioned schema.
#[derive(Clone, Debug, PartialEq, Eq)]
pub struct MembershipInstanceV2Bytes {
    pub schema_version: u16,
    pub public_inputs: MembershipPublicInputsV2Bytes,
    pub witness: MembershipWitnessV2Bytes,
}

/// The secret side of a membership statement.
#[derive(Clone, Debug, PartialEq, Eq)]
pub struct MembershipWitness {
    pub identity_scalar: FieldElement,
    pub blinding: FieldElement,
    /// From the leaf upwards; `true` puts the sibling on the left.
    pub merkle_path: Vec<(FieldElement, bool)>,
}

/// The public side of a membership statement.
#[derive(Clone, Debug, PartialEq, Eq)]
pub struct MembershipPublicInputs {
    pub root: FieldElement,
    pub commitment: FieldElement,
}

/// A membership statement with its witness.
#[derive(Clone, Debug, PartialEq, Eq)]
pub struct MembershipInstance {
    pub public_inputs: MembershipPublicInputs,
    pub witness: MembershipWitness,
}

/// The secret side of a membership statement of the second schema.
#[derive(Clone, Debug, PartialEq, Eq)]
pub struct MembershipWitnessV2 {
    pub identity_scalar: FieldElement,
    pub blinding: FieldElement,
    /// From the leaf upwards; `true` puts the sibling on the left.
    pub merkle_path: Vec<(FieldElement, bool)>,
}

/// The public side of a membership statement of the second schema.
#[derive(Clone, Debug, PartialEq, Eq)]
pub struct MembershipPublicInputsV2 {
    pub root: FieldElement,
    pub commitment: FieldElement,
    pub domain_sep: FieldElement,
    pub ctx_hash: FieldElement,
}

/// A membership statement of the second schema with its witness.
#[derive(Clone, Debug, PartialEq, Eq)]
pub struct MembershipInstanceV2 {
    pub public_inputs: MembershipPublicInputsV2,
    pub witness: MembershipWitnessV2,
}

/// What a witness holds.
pub struct WitnessView {
    pub identity_scalar: nat,
    pub blinding: nat,
    pub merkle_path: Seq<(nat, bool)>,
}

/// What the public inputs of the first two schemas hold.
pub struct PublicInputsView {
    pub root: nat,
    pub commitment: nat,
}

/// What the public inputs of the second versioned schema hold.
pub struct PublicInputsV2View {
    pub root: nat,
    pub commitment: nat,
    pub domain_sep: nat,
    pub ctx_hash: nat,
}

impl View for MembershipWitness {
    type V = WitnessView;

    open spec fn view(&self) -> WitnessView {
        WitnessView {
            identity_scalar: self.identity_scalar@,
            blinding: self.blinding@,
            merkle_path: path_values(self.merkle_path@),
        }
    }
}

impl View for MembershipWitnessV2 {
    type V = WitnessView;

    open spec fn view(&self) -> WitnessView {
        WitnessView {
            identity_scalar: self.identity_scalar@,
            blinding: self.blinding@,
            merkle_path: path_values(self.merkle_path@),
        }
    }
}

impl View for MembershipPublicInputs {
    type V = PublicInputsView;

    open spec fn view(&self) -> PublicInputsView {
        PublicInputsView { root: self.root@, commitment: self.commitment@ }
    }
}

impl View for MembershipPublicInputsV2 {
    type V = PublicInputsV2View;

    open spec fn view(&self) -> PublicInputsV2View {
        PublicInputsV2View {
            root: self.root@,
            commitment: self.commitment@,
            domain_sep: self.domain_sep@,
            ctx_hash: self.ctx_hash@,
        }
    }
}

impl View for MembershipInstance {
    type V = (PublicInputsView, WitnessView);

    open spec fn view(&self) -> (PublicInputsView, WitnessView) {
        (self.public_inputs@, self.witness@)
    }
}

impl View for MembershipInstanceV2 {
    type V = (PublicInputsV2View, WitnessView);

    open spec fn view(&self) -> (PublicInputsV2View, WitnessView) {
        (self.public_inputs@, self.witness@)
    }
}

/// The error of the first sibling, from level `from` on, that does not decode.
pub open spec fn siblings_error(siblings: Seq<Vec<u8>>, from: int) -> Option<SchemaError>
    decreases siblings.len() - from,
{
    if from < 0 || from >= siblings.len() {
        None
    } else {
        match field_error(Field::Sibling(from as usize), siblings[from]@) {
            Some(e) => Some(e),
            None => siblings_error(siblings, from + 1),
        }
    }
}

/// The error of the first path node, from level `from` on, whose sibling does
/// not decode.
pub open spec fn nodes_error(nodes: Seq<MerklePathNodeBytes>, from: int) -> Option<SchemaError>
    decreases nodes.len() - from,
{
    if from < 0 || from >= nodes.len() {
        None
    } else {
        match field_error(Field::PathSibling(from as usize), nodes[from].sibling@) {
            Some(e) => Some(e),
            None => nodes_error(nodes, from + 1),
        }
    }
}

/// The path that two lists of one length decode to.
pub open spec fn decoded_path(siblings: Seq<Vec<u8>>, directions: Seq<bool>) -> Seq<(nat, bool)> {
    Seq::new(siblings.len(), |i: int| (field_value(siblings[i]@), directions[i]))
}

/// The path that a list of nodes decodes to.
pub open spec fn decoded_nodes(nodes: Seq<MerklePathNodeBytes>) -> Seq<(nat, bool)> {
    Seq::new(nodes.len(), |i: int| (field_value(nodes[i].sibling@), nodes[i].is_left))
}

/// Decodes a path given as a list of siblings and a list of sides.
pub(crate) fn decode_path(siblings: &Vec<Vec<u8>>, directions: &Vec<bool>) -> (res: Result<
    Vec<(FieldElement, bool)>,
    SchemaError,
>)
    requires
        siblings@.len() == directions@.len(),
    ensures
        match res {
            Ok(path) => siblings_error(siblings@, 0) is None && path_values(path@) == decoded_path(
                siblings@,
                directions@,
            ),
            Err(e) => siblings_error(siblings@, 0) == Some(e),
        },
{
    let mut path: Vec<(FieldElement, bool)> = Vec::with_capacity(siblings.len());
    let mut idx: usize = 0;
    while idx < siblings.len()
        invariant
            idx <= siblings@.len(),
            siblings@.len() == directions@.len(),
            path@.len() == idx,
            siblings_error(siblings@, 0) == siblings_error(siblings@, idx as int),
            forall|j: int|
                0 <= j < idx ==> (#[trigger] path@[j]).0@ == field_value(siblings@[j]@) && path@[j].1
                    == directions@[j],
        decreases siblings@.len() - idx,
    {
        let sibling = match fr_from_bytes(Field::Sibling(idx), siblings[idx].as_slice()) {
            Ok(sibling) => sibling,
            Err(e) => {
                return Err(e);
            },
        };
        path.push((sibling, directions[idx]));
        idx = idx + 1;
    }
    assert(path_values(path@) =~= decoded_path(siblings@, directions@));
    Ok(path)
}

/// Decodes a path given as a list of nodes.
fn decode_nodes(nodes: &Vec<MerklePathNodeBytes>) -> (res: Result<
    Vec<(FieldElement, bool)>,
    SchemaError,
>)
    ensures
        match res {
            Ok(path) => nodes_error(nodes@, 0) is None && path_values(path@) == decoded_nodes(
                nodes@,
            ),
            Err(e) => nodes_error(nodes@, 0) == Some(e),
        },
{
    let mut path: Vec<(FieldElement, bool)> = Vec::with_capacity(nodes.len());
    let mut idx: usize = 0;
    while idx < nodes.len()
        invariant
            idx <= nodes@.len(),
            path@.len() == idx,
            nodes_error(nodes@, 0) == nodes_error(nodes@, idx as int),
            forall|j: int|
                0 <= j < idx ==> (#[trigger] path@[j]).0@ == field_value(nodes@[j].sibling@)
                    && path@[j].1 == nodes@[j].is_left,
        decreases nodes@.len() - idx,
    {
        let sibling = match fr_from_bytes(Field::PathSibling(idx), nodes[idx].sibling.as_slice()) {
            Ok(sibling) => sibling,
            Err(e) => {
                return Err(e);
            },
        };
        path.push((sibling, nodes[idx].is_left));
        idx = idx + 1;
    }
    assert(path_values(path@) =~= decoded_nodes(nodes@));
    Ok(path)
}

/// Checks the one-byte tag `version` of a record of the first versioned
/// schema against the one expected.
pub fn ensure_version(scope: Scope, version: u8, expected: u8) -> (res: Result<(), SchemaError>)
    ensures
        res == version_check(scope, VersionTag::Version, version as u16, expected as u16),
{
    if version != expected {
        return Err(
            SchemaError::VersionMismatch {
                scope,
                tag: VersionTag::Version,
                expected: expected as u16,
                got: version as u16,
            },
        );
    }
    Ok(())
}

/// Checks the two-byte tag `schema_version` of a record of the second
/// versioned schema against the one expected.
pub fn ensure_version_u16(scope: Scope, version: u16, expected: u16) -> (res: Result<
    (),
    SchemaError,
>)
    ensures
        res == version_check(scope, VersionTag::SchemaVersion, version, expected),
{
    if version != expected {
        return Err(
            SchemaError::VersionMismatch {
                scope,
                tag: VersionTag::SchemaVersion,
                expected,
                got: version,
            },
        );
    }
    Ok(())
}

/// Checks the statement tag and the statement revision of a record of the
/// second schema; the tag is looked at first.
pub fn ensure_statement_type_version(statement_type: u16, statement_version: u16) -> (res: Result<
    (),
    SchemaError,
>)
    ensures
        res == statement_check(statement_type, statement_version),
{
    if statement_type != MEMBERSHIP_STATEMENT_TYPE {
        return Err(
            SchemaError::StatementTypeMismatch {
                expected: MEMBERSHIP_STATEMENT_TYPE,
                got: statement_type,
            },
        );
    }
    if statement_version != MEMBERSHIP_STATEMENT_VERSION_V2 {
        return Err(
            SchemaError::StatementVersionMismatch {
                expected: MEMBERSHIP_STATEMENT_VERSION_V2,
                got: statement_version,
            },
        );
    }
    Ok(())
}

/// Checks that a domain separator is, byte for byte, that of the second schema.
pub fn ensure_domain_sep(scope: Scope, domain_sep: &[u8; 32]) -> (res: Result<(), SchemaError>)
    ensures
        res == domain_sep_check(scope, domain_sep@),
{
    if !same_bytes(domain_sep, &MEMBERSHIP_V2_DOMAIN_SEP) {
        return Err(SchemaError::DomainSepMismatch { scope });
    }
    Ok(())
}

/// The domain separator of the second schema as a field element.
pub fn membership_v2_domain_sep_fr() -> (fe: FieldElement)
    ensures
        Some(fe@) == decoded(MEMBERSHIP_V2_DOMAIN_SEP@),
        fe.valid(),
{
    match fr_from_fixed_bytes(Field::DomainSep, &MEMBERSHIP_V2_DOMAIN_SEP) {
        Ok(fe) => fe,
        Err(_) => FieldElement::from_u64(0),
    }
}

/// The outcome of checking a version tag.
pub open spec fn version_check(scope: Scope, tag: VersionTag, version: u16, expected: u16) -> Result<
    (),
    SchemaError,
> {
    if version != expected {
        Err(SchemaError::VersionMismatch { scope, tag, expected, got: version })
    } else {
        Ok(())
    }
}

/// The outcome of checking statement tag and statement revision.
pub open spec fn statement_check(statement_type: u16, statement_version: u16) -> Result<
    (),
    SchemaError,
> {
    if statement_type != MEMBERSHIP_STATEMENT_TYPE {
        Err(
            SchemaError::StatementTypeMismatch {
                expected: MEMBERSHIP_STATEMENT_TYPE,
                got: statement_type,
            },
        )
    } else if statement_version != MEMBERSHIP_STATEMENT_VERSION_V2 {
        Err(
            SchemaError::StatementVersionMismatch {
                expected: MEMBERSHIP_STATEMENT_VERSION_V2,
                got: statement_version,
            },
        )
    } else {
        Ok(())
    }
}

/// The outcome of checking a domain separator.
pub open spec fn domain_sep_check(scope: Scope, domain_sep: Seq<u8>) -> Result<(), SchemaError> {
    if domain_sep != MEMBERSHIP_V2_DOMAIN_SEP@ {
        Err(SchemaError::DomainSepMismatch { scope })
    } else {
        Ok(())
    }
}

/// What the lists of a versioned witness decode to after its version tag
/// was accepted: the depth must be the expected one, both lists must have
/// that length, and the siblings, the identity and the blinding must decode,
/// looked at in this order.
pub open spec fn witness_outcome(
    depth: u32,
    identity_scalar: Seq<u8>,
    blinding: Seq<u8>,
    siblings: Seq<Vec<u8>>,
    directions: Seq<bool>,
    expected_depth: usize,
) -> Result<WitnessView, SchemaError> {
    if depth as usize != expected_depth {
        Err(SchemaError::WitnessDepthMismatch { expected: expected_depth, got: depth })
    } else if siblings.len() != expected_depth {
        Err(
            SchemaError::SiblingsLengthMismatch {
                expected: expected_depth,
                got: siblings.len() as usize,
            },
        )
    } else if directions.len() != expected_depth {
        Err(
            SchemaError::DirectionsLengthMismatch {
                expected: expected_depth,
                got: directions.len() as usize,
            },
        )
    } else if siblings_error(siblings, 0) is Some {
        Err(siblings_error(siblings, 0).unwrap())
    } else if field_error(Field::IdentityScalar, identity_scalar) is Some {
        Err(field_error(Field::IdentityScalar, identity_scalar).unwrap())
    } else if field_error(Field::Blinding, blinding) is Some {
        Err(field_error(Field::Blinding, blinding).unwrap())
    } else {
        Ok(
            WitnessView {
                identity_scalar: field_value(identity_scalar),
                blinding: field_value(blinding),
                merkle_path: decoded_path(siblings, directions),
            },
        )
    }
}

/// What a pair of root and commitment decodes to, the root looked at first.
pub open spec fn root_and_commitment_outcome(root: Seq<u8>, commitment: Seq<u8>) -> Result<
    PublicInputsView,
    SchemaError,
> {
    if field_error(Field::Root, root) is Some {
        Err(field_error(Field::Root, root).unwrap())
    } else if field_error(Field::Commitment, commitment) is Some {
        Err(field_error(Field::Commitment, commitment).unwrap())
    } else {
        Ok(PublicInputsView { root: field_value(root), commitment: field_value(commitment) })
    }
}

/// Decodes the lists of a versioned witness whose version tag was accepted.
fn decode_witness(
    depth: u32,
    identity_scalar: &Vec<u8>,
    blinding: &Vec<u8>,
    siblings: &Vec<Vec<u8>>,
    directions: &Vec<bool>,
    expected_depth: usize,
) -> (res: Result<(FieldElement, FieldElement, Vec<(FieldElement, bool)>), SchemaError>)
    ensures
        match res {
            Ok(parts) => witness_outcome(
                depth,
                identity_scalar@,
                blinding@,
                siblings@,
                directions@,
                expected_depth,
            ) == Ok::<WitnessView, SchemaError>(
                WitnessView {
                    identity_scalar: parts.0@,
                    blinding: parts.1@,
                    merkle_path: path_values(parts.2@),
                },
            ),
            Err(e) => witness_outcome(
                depth,
                identity_scalar@,
                blinding@,
                siblings@,
                directions@,
                expected_depth,
            ) == Err::<WitnessView, SchemaError>(e),
        },
{
    if depth as usize != expected_depth {
        return Err(SchemaError::WitnessDepthMismatch { expected: expected_depth, got: depth });
    }
    if siblings.len() != expected_depth {
        return Err(
            SchemaError::SiblingsLengthMismatch { expected: expected_depth, got: siblings.len() },
        );
    }
    if directions.len() != expected_depth {
        return Err(
            SchemaError::DirectionsLengthMismatch {
                expected: expected_depth,
                got: directions.len(),
            },
        );
    }
    let path = decode_path(siblings, directions)?;
    let identity = fr_from_bytes(Field::IdentityScalar, identity_scalar.as_slice())?;
    let blinding = fr_from_bytes(Field::Blinding, blinding.as_slice())?;
    Ok((identity, blinding, path))
}

/// Decodes a root and a commitment.
fn decode_root_and_commitment(root: &[u8], commitment: &[u8]) -> (res: Result<
    MembershipPublicInputs,
    SchemaError,
>)
    ensures
        match res {
            Ok(inputs) => root_and_commitment_outcome(root@, commitment@) == Ok::<
                PublicInputsView,
                SchemaError,
            >(inputs@),
            Err(e) => root_and_commitment_outcome(root@, commitment@) == Err::<
                PublicInputsView,
                SchemaError,
            >(e),
        },
{
    let root = fr_from_bytes(Field::Root, root)?;
    let commitment = fr_from_bytes(Field::Commitment, commitment)?;
    Ok(MembershipPublicInputs { root, commitment })
}

impl MembershipPublicInputsBytes {
    /// What the record decodes to.
    pub open spec fn outcome(self) -> Result<PublicInputsView, SchemaError> {
        root_and_commitment_outcome(self.root@, self.commitment@)
    }

    /// Decodes root and commitment, each from between one and thirty-two bytes.
    pub fn into_public_inputs(self) -> (res: Result<MembershipPublicInputs, SchemaError>)
        ensures
            match res {
                Ok(inputs) => self.outcome() == Ok::<PublicInputsView, SchemaError>(inputs@),
                Err(e) => self.outcome() == Err::<PublicInputsView, SchemaError>(e),
            },
    {
        decode_root_and_commitment(self.root.as_slice(), self.commitment.as_slice())
    }
}

impl MembershipWitnessBytes {
    /// What the record decodes to: the path must have one level, and the
    /// siblings, the identity and the blinding must decode, looked at in this
    /// order.
    pub open spec fn outcome(self) -> Result<WitnessView, SchemaError> {
        if self.merkle_path@.len() != MERKLE_DEPTH {
            Err(
                SchemaError::PathLengthMismatch {
                    expected: MERKLE_DEPTH,
                    got: self.merkle_path@.len() as usize,
                },
            )
        } else if nodes_error(self.merkle_path@, 0) is Some {
            Err(nodes_error(self.merkle_path@, 0).unwrap())
        } else if field_error(Field::IdentityScalar, self.identity_scalar@) is Some {
            Err(field_error(Field::IdentityScalar, self.identity_scalar@).unwrap())
        } else if field_error(Field::Blinding, self.blinding@) is Some {
            Err(field_error(Field::Blinding, self.blinding@).unwrap())
        } else {
            Ok(
                WitnessView {
                    identity_scalar: field_value(self.identity_scalar@),
                    blinding: field_value(self.blinding@),
                    merkle_path: decoded_nodes(self.merkle_path@),
                },
            )
        }
    }

    /// Decodes the witness of a record without a version.
    pub fn into_witness(self) -> (res: Result<MembershipWitness, SchemaError>)
        ensures
            match res {
                Ok(witness) => self.outcome() == Ok::<WitnessView, SchemaError>(witness@),
                Err(e) => self.outcome() == Err::<WitnessView, SchemaError>(e),
            },
    {
        if self.merkle_path.len() != MERKLE_DEPTH {
            return Err(
                SchemaError::PathLengthMismatch {
                    expected: MERKLE_DEPTH,
                    got: self.merkle_path.len(),
                },
            );
        }
        let merkle_path = decode_nodes(&self.merkle_path)?;
        let identity_scalar = fr_from_bytes(Field::IdentityScalar, self.identity_scalar.as_slice())?;
        let blinding = fr_from_bytes(Field::Blinding, self.blinding.as_slice())?;
        Ok(MembershipWitness { identity_scalar, blinding, merkle_path })
    }
}

impl MembershipInstanceBytes {
    /// What the record decodes to, the public inputs looked at first.
    pub open spec fn outcome(self) -> Result<(PublicInputsView, WitnessView), SchemaError> {
        match self.public_inputs.outcome() {
            Err(e) => Err(e),
            Ok(public_inputs) => match self.witness.outcome() {
                Err(e) => Err(e),
                Ok(witness) => Ok((public_inputs, witness)),
            },
        }
    }

    /// Decodes a record without a version. Such a record carries no tag to
    /// tell its statement by, and this conversion compares nothing in it: a
    /// record that is to be proved goes through [`Self::into_valid_instance`].
    pub fn into_instance(self) -> (res: Result<MembershipInstance, SchemaError>)
        ensures
            match res {
                Ok(instance) => self.outcome() == Ok::<(PublicInputsView, WitnessView), SchemaError>(
                    instance@,
                ),
                Err(e) => self.outcome() == Err::<(PublicInputsView, WitnessView), SchemaError>(e),
            },
    {
        let public_inputs = self.public_inputs.into_public_inputs()?;
        let witness = self.witness.into_witness()?;
        Ok(MembershipInstance { public_inputs, witness })
    }

    /// What the record decodes to where it is to be proved: as
    /// [`Self::outcome`] says, and then commitment and root must be those
    /// that the witness hashes to.
    pub open spec fn valid_outcome(self) -> Result<(PublicInputsView, WitnessView), SchemaError> {
        match self.outcome() {
            Err(e) => Err(e),
            Ok((public_inputs, witness)) => match statement_error(public_inputs, witness) {
                Some(e) => Err(e),
                None => Ok((public_inputs, witness)),
            },
        }
    }

    /// Decodes a record without a version and recomputes the commitment and
    /// the root from the witness: a record that states another commitment or
    /// another root is refused.
    pub fn into_valid_instance(self) -> (res: Result<MembershipInstance, SchemaError>)
        ensures
            match res {
                Ok(instance) => self.valid_outcome() == Ok::<
                    (PublicInputsView, WitnessView),
                    SchemaError,
                >(instance@),
                Err(e) => self.valid_outcome() == Err::<(PublicInputsView, WitnessView), SchemaError>(
                    e,
                ),
            },
    {
        let instance = self.into_instance()?;
        instance.validate()?;
        Ok(instance)
    }
}

impl MembershipPublicInputsV1Bytes {
    /// What the record decodes to, with its depth: the version must be 1 and
    /// the depth positive, and root and commitment must decode, looked at in
    /// this order.
    pub open spec fn outcome(self) -> Result<(PublicInputsView, usize), SchemaError> {
        if self.version != MEMBERSHIP_INSTANCE_VERSION_V1 {
            Err(
                SchemaError::VersionMismatch {
                    scope: Scope::PublicInputs,
                    tag: VersionTag::Version,
                    expected: MEMBERSHIP_INSTANCE_VERSION_V1 as u16,
                    got: self.version as u16,
                },
            )
        } else if self.depth == 0 {
            Err(SchemaError::ZeroDepth)
        } else {
            match root_and_commitment_outcome(self.root@, self.commitment@) {
                Err(e) => Err(e),
                Ok(inputs) => Ok((inputs, self.depth as usize)),
            }
        }
    }

    /// Checks version and depth of the public inputs of the first versioned
    /// schema and decodes root and commitment. Whether they are those of a
    /// witness is for the conversion of the whole record to say.
    pub fn into_public_inputs_with_depth(self) -> (res: Result<
        (MembershipPublicInputs, usize),
        SchemaError,
    >)
        ensures
            match res {
                Ok(pair) => self.outcome() == Ok::<(PublicInputsView, usize), SchemaError>(
                    (pair.0@, pair.1),
                ),
                Err(e) => self.outcome() == Err::<(PublicInputsView, usize), SchemaError>(e),
            },
    {
        ensure_version(Scope::PublicInputs, self.version, MEMBERSHIP_INSTANCE_VERSION_V1)?;
        let depth = self.depth as usize;
        if depth == 0 {
            return Err(SchemaError::ZeroDepth);
        }
        let inputs = decode_root_and_commitment(self.root.as_slice(), self.commitment.as_slice())?;
        Ok((inputs, depth))
    }
}

impl MembershipWitnessV1Bytes {
    /// What the record decodes to against an expected depth: the version must
    /// be 1, then as [`witness_outcome`] says.
    pub open spec fn outcome(self, expected_depth: usize) -> Result<WitnessView, SchemaError> {
        if self.version != MEMBERSHIP_INSTANCE_VERSION_V1 {
            Err(
                SchemaError::VersionMismatch {
                    scope: Scope::Witness,
                    tag: VersionTag::Version,
                    expected: MEMBERSHIP_INSTANCE_VERSION_V1 as u16,
                    got: self.version as u16,
                },
            )
        } else {
            witness_outcome(
                self.depth,
                self.identity_scalar@,
                self.blinding@,
                self.merkle_siblings@,
                self.merkle_directions@,
                expected_depth,
            )
        }
    }

    /// Checks version, depth and lengths of a witness of the first versioned
    /// schema and decodes it.
    pub fn into_witness(self, expected_depth: usize) -> (res: Result<
        MembershipWitness,
        SchemaError,
    >)
        ensures
            match res {
                Ok(witness) => self.outcome(expected_depth) == Ok::<WitnessView, SchemaError>(
                    witness@,
                ),
                Err(e) => self.outcome(expected_depth) == Err::<WitnessView, SchemaError>(e),
            },
    {
        ensure_version(Scope::Witness, self.version, MEMBERSHIP_INSTANCE_VERSION_V1)?;
        let (identity_scalar, blinding, merkle_path) = decode_witness(
            self.depth,
            &self.identity_scalar,
            &self.blinding,
            &self.merkle_siblings,
            &self.merkle_directions,
            expected_depth,
        )?;
        Ok(MembershipWitness { identity_scalar, blinding, merkle_path })
    }
}

impl MembershipInstanceV1Bytes {
    /// What the record decodes to, with its depth: the version must be 1, the
    /// public inputs must be valid, the witness must declare their depth and
    /// be valid against it, and commitment and root must be those that the
    /// witness hashes to, looked at in this order.
    pub open spec fn outcome(self) -> Result<((PublicInputsView, WitnessView), usize), SchemaError> {
        if self.version != MEMBERSHIP_INSTANCE_VERSION_V1 {
            Err(
                SchemaError::VersionMismatch {
                    scope: Scope::Instance,
                    tag: VersionTag::Version,
                    expected: MEMBERSHIP_INSTANCE_VERSION_V1 as u16,
                    got: self.version as u16,
                },
            )
        } else {
            match self.public_inputs.outcome() {
                Err(e) => Err(e),
                Ok((public_inputs, depth)) => if self.witness.depth as usize != depth {
                    Err(
                        SchemaError::InstanceDepthMismatch {
                            public_inputs: depth,
                            witness: self.witness.depth,
                        },
                    )
                } else {
                    match self.witness.outcome(depth) {
                        Err(e) => Err(e),
                        Ok(witness) => match statement_error(public_inputs, witness) {
                            Some(e) => Err(e),
                            None => Ok(((public_inputs, witness), depth)),
                        },
                    }
                },
            }
        }
    }

    /// Validates a record of the first versioned schema and decodes it. The
    /// commitment and the root are recomputed from the witness: a record that
    /// states another commitment or another root is refused.
    pub fn into_instance_with_depth(self) -> (res: Result<(MembershipInstance, usize), SchemaError>)
        ensures
            match res {
                Ok(pair) => self.outcome() == Ok::<
                    ((PublicInputsView, WitnessView), usize),
                    SchemaError,
                >((pair.0@, pair.1)),
                Err(e) => self.outcome() == Err::<
                    ((PublicInputsView, WitnessView), usize),
                    SchemaError,
                >(e),
            },
    {
        ensure_version(Scope::Instance, self.version, MEMBERSHIP_INSTANCE_VERSION_V1)?;
        let (public_inputs, expected_depth) = self.public_inputs.into_public_inputs_with_depth()?;
        if self.witness.depth as usize != expected_depth {
            return Err(
                SchemaError::InstanceDepthMismatch {
                    public_inputs: expected_depth,
                    witness: self.witness.depth,
                },
            );
        }
        let witness = self.witness.into_witness(expected_depth)?;
        let instance = MembershipInstance { public_inputs, witness };
        instance.validate()?;
        Ok((instance, expected_depth))
    }
}

impl MembershipPublicInputsV2Bytes {
    /// What the record decodes to, with its depth: schema version, statement
    /// tag, statement revision and domain separator must be those of the
    /// second schema and the depth positive, looked at in this order.
    pub open spec fn outcome(self) -> Result<(PublicInputsV2View, usize), SchemaError> {
        if self.schema_version != MEMBERSHIP_INSTANCE_VERSION_V2 {
            Err(
                SchemaError::VersionMismatch {
                    scope: Scope::PublicInputs,
                    tag: VersionTag::SchemaVersion,
                    expected: MEMBERSHIP_INSTANCE_VERSION_V2,
                    got: self.schema_version,
                },
            )
        } else if statement_check(self.statement_type, self.statement_version) is Err {
            Err(statement_check(self.statement_type, self.statement_version)->Err_0)
        } else if self.domain_sep@ != MEMBERSHIP_V2_DOMAIN_SEP@ {
            Err(SchemaError::DomainSepMismatch { scope: Scope::PublicInputs })
        } else if self.depth == 0 {
            Err(SchemaError::ZeroDepth)
        } else {
            Ok(
                (
                    PublicInputsV2View {
                        root: field_value(self.root@),
                        commitment: field_value(self.commitment@),
                        domain_sep: field_value(self.domain_sep@),
                        ctx_hash: field_value(self.ctx_hash@),
                    },
                    self.depth as usize,
                ),
            )
        }
    }

    /// Checks the tags, the domain separator and the depth of the public
    /// inputs of the second versioned schema and decodes them. Whether root
    /// and commitment are those of a witness is for the conversion of the
    /// whole record to say.
    pub fn into_public_inputs_with_depth(self) -> (res: Result<
        (MembershipPublicInputsV2, usize),
        SchemaError,
    >)
        ensures
            match res {
                Ok(pair) => self.outcome() == Ok::<(PublicInputsV2View, usize), SchemaError>(
                    (pair.0@, pair.1),
                ),
                Err(e) => self.outcome() == Err::<(PublicInputsV2View, usize), SchemaError>(e),
            },
    {
        ensure_version_u16(
            Scope::PublicInputs,
            self.schema_version,
            MEMBERSHIP_INSTANCE_VERSION_V2,
        )?;
        ensure_statement_type_version(self.statement_type, self.statement_version)?;
        ensure_domain_sep(Scope::PublicInputs, &self.domain_sep)?;
        let depth = self.depth as usize;
        if depth == 0 {
            return Err(SchemaError::ZeroDepth);
        }
        let inputs = MembershipPublicInputsV2 {
            root: fr_from_fixed_bytes(Field::Root, &self.root)?,
            commitment: fr_from_fixed_bytes(Field::Commitment, &self.commitment)?,
            domain_sep: fr_from_fixed_bytes(Field::DomainSep, &self.domain_sep)?,
            ctx_hash: fr_from_fixed_bytes(Field::CtxHash, &self.ctx_hash)?,
        };
        Ok((inputs, depth))
    }
}

impl MembershipWitnessV2Bytes {
    /// What the record decodes to against an expected depth: the schema
    /// version must be 2, then as [`witness_outcome`] says.
    pub open spec fn outcome(self, expected_depth: usize) -> Result<WitnessView, SchemaError> {
        if self.schema_version != MEMBERSHIP_INSTANCE_VERSION_V2 {
            Err(
                SchemaError::VersionMismatch {
                    scope: Scope::Witness,
                    tag: VersionTag::SchemaVersion,
                    expected: MEMBERSHIP_INSTANCE_VERSION_V2,
                    got: self.schema_version,
                },
            )
        } else {
            witness_outcome(
                self.depth,
                self.identity_scalar@,
                self.blinding@,
                self.merkle_siblings@,
                self.merkle_directions@,
                expected_depth,
            )
        }
    }

    /// Checks version, depth and lengths of a witness of the second versioned
    /// schema and decodes it.
    pub fn into_witness(self, expected_depth: usize) -> (res: Result<
        MembershipWitnessV2,
        SchemaError,
    >)
        ensures
            match res {
                Ok(witness) => self.outcome(expected_depth) == Ok::<WitnessView, SchemaError>(
                    witness@,
                ),
                Err(e) => self.outcome(expected_depth) == Err::<WitnessView, SchemaError>(e),
            },
    {
        ensure_version_u16(Scope::Witness, self.schema_version, MEMBERSHIP_INSTANCE_VERSION_V2)?;
        let (identity_scalar, blinding, merkle_path) = decode_witness(
            self.depth,
            &self.identity_scalar,
            &self.blinding,
            &self.merkle_siblings,
            &self.merkle_directions,
            expected_depth,
        )?;
        Ok(MembershipWitnessV2 { identity_scalar, blinding, merkle_path })
    }
}

impl MembershipInstanceV2Bytes {
    /// What the record decodes to, with its depth: the schema version must be
    /// 2, the public inputs must be valid, the witness must declare their
    /// depth and be valid against it, and commitment and root must be those
    /// that the witness hashes to in the record's context, looked at in this
    /// order.
    pub open spec fn outcome(self) -> Result<
        ((PublicInputsV2View, WitnessView), usize),
        SchemaError,
    > {
        if self.schema_version != MEMBERSHIP_INSTANCE_VERSION_V2 {
            Err(
                SchemaError::VersionMismatch {
                    scope: Scope::Instance,
                    tag: VersionTag::SchemaVersion,
                    expected: MEMBERSHIP_INSTANCE_VERSION_V2,
                    got: self.schema_version,
                },
            )
        } else {
            match self.public_inputs.outcome() {
                Err(e) => Err(e),
                Ok((public_inputs, depth)) => if self.witness.depth as usize != depth {
                    Err(
                        SchemaError::InstanceDepthMismatch {
                            public_inputs: depth,
                            witness: self.witness.depth,
                        },
                    )
                } else {
                    match self.witness.outcome(depth) {
                        Err(e) => Err(e),
                        Ok(witness) => match statement_v2_error(public_inputs, witness) {
                            Some(e) => Err(e),
                            None => Ok(((public_inputs, witness), depth)),
                        },
                    }
                },
            }
        }
    }

    /// Validates a record of the second versioned schema and decodes it. The
    /// commitment and the root are recomputed from the witness and the
    /// context: a record that states another commitment or another root is
    /// refused.
    pub fn into_instance_with_depth(self) -> (res: Result<
        (MembershipInstanceV2, usize),
        SchemaError,
    >)
        ensures
            match res {
                Ok(pair) => self.outcome() == Ok::<
                    ((PublicInputsV2View, WitnessView), usize),
                    SchemaError,
                >((pair.0@, pair.1)),
                Err(e) => self.outcome() == Err::<
                    ((PublicInputsV2View, WitnessView), usize),
                    SchemaError,
                >(e),
            },
    {
        ensure_version_u16(Scope::Instance, self.schema_version, MEMBERSHIP_INSTANCE_VERSION_V2)?;
        let (public_inputs, expected_depth) = self.public_inputs.into_public_inputs_with_depth()?;
        if self.witness.depth as usize != expected_depth {
            return Err(
                SchemaError::InstanceDepthMismatch {
                    public_inputs: expected_depth,
                    witness: self.witness.depth,
                },
            );
        }
        let witness = self.witness.into_witness(expected_depth)?;
        let instance = MembershipInstanceV2 { public_inputs, witness };
        instance.validate()?;
        Ok((instance, expected_depth))
    }
}

/// The error that keeps an assignment from being a membership statement of
/// the first two schemas, if any: the commitment must hide the identity under
/// the blinding, and the path must lead from the leaf of the commitment to
/// the root, looked at in this order.
pub open spec fn statement_error(public: PublicInputsView, witness: WitnessView) -> Option<
    SchemaError,
> {
    if public.commitment != commitment(
        standard_params(),
        witness.identity_scalar,
        witness.blinding,
    ) {
        Some(SchemaError::CommitmentMismatch)
    } else if public.root != merkle_root(
        standard_params(),
        leaf(standard_params(), public.commitment),
        witness.merkle_path,
    ) {
        Some(SchemaError::RootMismatch)
    } else {
        None
    }
}

/// The error that keeps an assignment from being a membership statement of
/// the second versioned schema, if any: the domain separator must be that of
/// the schema, the commitment must hide the identity under the blinding, and
/// the path must lead from the leaf that binds the commitment to domain and
/// context to the root, looked at in this order.
pub open spec fn statement_v2_error(public: PublicInputsV2View, witness: WitnessView) -> Option<
    SchemaError,
> {
    if public.domain_sep != field_value(MEMBERSHIP_V2_DOMAIN_SEP@) {
        Some(SchemaError::DomainSepMismatch { scope: Scope::Instance })
    } else if public.commitment != commitment(
        standard_params(),
        witness.identity_scalar,
        witness.blinding,
    ) {
        Some(SchemaError::CommitmentMismatch)
    } else if public.root != merkle_root(
        standard_params(),
        leaf_v2(standard_params(), public.domain_sep, public.ctx_hash, public.commitment),
        witness.merkle_path,
    ) {
        Some(SchemaError::RootMismatch)
    } else {
        None
    }
}

impl MembershipInstance {
    /// Recomputes the commitment and the root from the witness and compares
    /// them with the public ones.
    pub fn validate(&self) -> (res: Result<(), SchemaError>)
        ensures
            match res {
                Ok(_) => statement_error(self.public_inputs@, self.witness@) is None,
                Err(e) => statement_error(self.public_inputs@, self.witness@) == Some(e),
            },
    {
        let params = poseidon_params();
        let expected = commitment_hash(
            &params,
            self.witness.identity_scalar,
            self.witness.blinding,
        );
        if !expected.eq(&self.public_inputs.commitment) {
            return Err(SchemaError::CommitmentMismatch);
        }
        let first = leaf_hash(&params, self.public_inputs.commitment);
        let root = compute_root(&params, first, &self.witness.merkle_path);
        if !root.eq(&self.public_inputs.root) {
            return Err(SchemaError::RootMismatch);
        }
        Ok(())
    }
}

impl MembershipInstanceV2 {
    /// Compares the domain separator with that of the schema, recomputes the
    /// commitment and the root from the witness and the context, and compares
    /// them with the public ones.
    pub fn validate(&self) -> (res: Result<(), SchemaError>)
        ensures
            match res {
                Ok(_) => statement_v2_error(self.public_inputs@, self.witness@) is None,
                Err(e) => statement_v2_error(self.public_inputs@, self.witness@) == Some(e),
            },
    {
        if !membership_v2_domain_sep_fr().eq(&self.public_inputs.domain_sep) {
            return Err(SchemaError::DomainSepMismatch { scope: Scope::Instance });
        }
        let params = poseidon_params();
        let expected = commitment_hash(
            &params,
            self.witness.identity_scalar,
            self.witness.blinding,
        );
        if !expected.eq(&self.public_inputs.commitment) {
            return Err(SchemaError::CommitmentMismatch);
        }
        let first = poseidon_hash_leaf_v2(
            &params,
            self.public_inputs.domain_sep,
            self.public_inputs.ctx_hash,
            self.public_inputs.commitment,
        );
        let root = compute_root(&params, first, &self.witness.merkle_path);
        if !root.eq(&self.public_inputs.root) {
            return Err(SchemaError::RootMismatch);
        }
        Ok(())
    }
}

} // verus!
