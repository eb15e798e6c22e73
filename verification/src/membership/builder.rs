//! Builders of membership records: from an identity, a blinding and a path
//! to the record that states the root, in each of the three schemas.

use crate::error::{Field, SchemaError};
use crate::field::{
    be_value, field_error, field_value, fixed_bytes32, fr_from_bytes, fr_to_fixed_bytes,
    lemma_decode_encode, lemma_encoding, left_padded, modulus, FieldElement, FIELD_BYTES,
};
use crate::membership::schema::{
    decode_path, decoded_nodes, decoded_path, membership_v2_domain_sep_fr, nodes_error,
    siblings_error,
    MembershipInstanceBytes, MembershipInstanceV1Bytes, MembershipInstanceV2Bytes,
    MembershipPublicInputsBytes, MembershipPublicInputsV1Bytes, MembershipPublicInputsV2Bytes,
    MembershipWitnessBytes, MembershipWitnessV1Bytes, MembershipWitnessV2Bytes,
    MerklePathNodeBytes, MEMBERSHIP_INSTANCE_VERSION_V1, MEMBERSHIP_INSTANCE_VERSION_V2,
    MEMBERSHIP_STATEMENT_TYPE, MEMBERSHIP_STATEMENT_VERSION_V2, MEMBERSHIP_V2_DEFAULT_CTX_HASH,
    MEMBERSHIP_V2_DOMAIN_SEP, MERKLE_DEPTH,
};
use crate::circuit::satisfied;
use crate::membership::circuit::{
    assigned_path, lemma_membership_plan, lemma_membership_v2_plan, statement_circuit,
    statement_circuit_v2,
};
use crate::merkle::{compute_root, merkle_root};
use crate::wire::encode_items;
use crate::poseidon::{
    commitment, commitment_hash, leaf, leaf_hash, leaf_v2, node, node_hash, poseidon_hash_leaf,
    poseidon_hash_leaf_v2, poseidon_params, standard_params,
};
use vstd::prelude::*;

verus! {

/// A copy of a byte string.
pub fn copy_bytes(bytes: &Vec<u8>) -> (out: Vec<u8>)
    ensures
        out@ == bytes@,
{
    let mut out: Vec<u8> = Vec::with_capacity(bytes.len());
    let mut i: usize = 0;
    while i < bytes.len()
        invariant
            i <= bytes@.len(),
            out@ == bytes@.subrange(0, i as int),
        decreases bytes@.len() - i,
    {
        out.push(bytes[i]);
        assert(out@ =~= bytes@.subrange(0, i + 1));
        i = i + 1;
    }
    assert(out@ =~= bytes@);
    out
}

/// Whether a list of byte strings holds the same strings as another.
pub open spec fn same_strings(a: Seq<Vec<u8>>, b: Seq<Vec<u8>>) -> bool {
    &&& a.len() == b.len()
    &&& forall|i: int| 0 <= i < a.len() ==> (#[trigger] a[i])@ == b[i]@
}

/// Whether a list of path nodes pairs the siblings with the sides, level by
/// level.
pub open spec fn pairs_up(
    nodes: Seq<MerklePathNodeBytes>,
    siblings: Seq<Vec<u8>>,
    sides: Seq<bool>,
) -> bool {
    &&& nodes.len() == siblings.len()
    &&& forall|i: int|
        0 <= i < nodes.len() ==> (#[trigger] nodes[i]).sibling@ == siblings[i]@ && nodes[i].is_left
            == sides[i]
}

/// The error that the inputs of a builder end in, if any: the two lists must
/// have one length, which `depth_error` must accept, and the siblings, the
/// identity and the blinding must decode, looked at in this order.
pub open spec fn inputs_error(
    identity_scalar: Seq<u8>,
    blinding: Seq<u8>,
    siblings: Seq<Vec<u8>>,
    sides: Seq<bool>,
    depth_error: Option<SchemaError>,
) -> Option<SchemaError> {
    if siblings.len() != sides.len() {
        Some(
            SchemaError::PathListsMismatch {
                siblings: siblings.len() as usize,
                directions: sides.len() as usize,
            },
        )
    } else if depth_error is Some {
        depth_error
    } else if siblings_error(siblings, 0) is Some {
        siblings_error(siblings, 0)
    } else if field_error(Field::IdentityScalar, identity_scalar) is Some {
        field_error(Field::IdentityScalar, identity_scalar)
    } else {
        field_error(Field::Blinding, blinding)
    }
}

/// The error of a path of a record without a version whose length is not one.
pub open spec fn legacy_depth_error(levels: nat) -> Option<SchemaError> {
    if levels != MERKLE_DEPTH {
        Some(SchemaError::PathLengthMismatch { expected: MERKLE_DEPTH, got: levels as usize })
    } else {
        None
    }
}

/// The error of a path of a versioned record: it must not be empty, and its
/// length must fit the record's depth field.
pub open spec fn versioned_depth_error(levels: nat) -> Option<SchemaError> {
    if levels == 0 {
        Some(SchemaError::EmptyPath)
    } else if levels > u32::MAX {
        Some(SchemaError::PathLengthMismatch { expected: u32::MAX as usize, got: levels as usize })
    } else {
        None
    }
}

/// The commitment and the root that the first two schemas state for an
/// identity, a blinding and a path, all as bytes.
pub open spec fn stated(
    identity_scalar: Seq<u8>,
    blinding: Seq<u8>,
    siblings: Seq<Vec<u8>>,
    sides: Seq<bool>,
) -> (nat, nat) {
    let c = commitment(standard_params(), field_value(identity_scalar), field_value(blinding));
    (c, merkle_root(standard_params(), leaf(standard_params(), c), decoded_path(siblings, sides)))
}

/// The commitment and the root that the second versioned schema states for an
/// identity, a blinding, a path and a context, all as bytes.
pub open spec fn stated_v2(
    identity_scalar: Seq<u8>,
    blinding: Seq<u8>,
    siblings: Seq<Vec<u8>>,
    sides: Seq<bool>,
    ctx_hash: Seq<u8>,
) -> (nat, nat) {
    let c = commitment(standard_params(), field_value(identity_scalar), field_value(blinding));
    let first = leaf_v2(
        standard_params(),
        field_value(MEMBERSHIP_V2_DOMAIN_SEP@),
        field_value(ctx_hash),
        c,
    );
    (c, merkle_root(standard_params(), first, decoded_path(siblings, sides)))
}

/// Whether thirty-two bytes are the canonical encoding of `value`.
pub open spec fn encodes(bytes: Seq<u8>, value: nat) -> bool {
    bytes.len() == FIELD_BYTES && be_value(bytes) == value && value < modulus()
}

/// Whether a record without a version and its public inputs are those of an
/// identity, a blinding and a path: the record holds the witness as it was
/// given, and both hold the canonical encodings of the commitment and of the
/// root.
pub open spec fn built(
    instance: MembershipInstanceBytes,
    public_inputs: MembershipPublicInputsBytes,
    identity_scalar: Seq<u8>,
    blinding: Seq<u8>,
    siblings: Seq<Vec<u8>>,
    sides: Seq<bool>,
) -> bool {
    let (c, root) = stated(identity_scalar, blinding, siblings, sides);
    &&& instance.witness.identity_scalar@ == identity_scalar
    &&& instance.witness.blinding@ == blinding
    &&& pairs_up(instance.witness.merkle_path@, siblings, sides)
    &&& encodes(public_inputs.root@, root)
    &&& encodes(public_inputs.commitment@, c)
    &&& instance.public_inputs.root@ == public_inputs.root@
    &&& instance.public_inputs.commitment@ == public_inputs.commitment@
}

/// Whether a record of the first versioned schema and its public inputs are
/// those of an identity, a blinding and a path: the record holds the witness
/// as it was given, and both hold the version, the length of the path as
/// depth, and the canonical encodings of the commitment and of the root.
pub open spec fn built_v1(
    instance: MembershipInstanceV1Bytes,
    public_inputs: MembershipPublicInputsV1Bytes,
    identity_scalar: Seq<u8>,
    blinding: Seq<u8>,
    siblings: Seq<Vec<u8>>,
    sides: Seq<bool>,
) -> bool {
    let (c, root) = stated(identity_scalar, blinding, siblings, sides);
    &&& instance.version == MEMBERSHIP_INSTANCE_VERSION_V1
    &&& instance.witness.version == MEMBERSHIP_INSTANCE_VERSION_V1
    &&& instance.witness.depth == siblings.len()
    &&& instance.witness.identity_scalar@ == identity_scalar
    &&& instance.witness.blinding@ == blinding
    &&& same_strings(instance.witness.merkle_siblings@, siblings)
    &&& instance.witness.merkle_directions@ == sides
    &&& public_inputs.version == MEMBERSHIP_INSTANCE_VERSION_V1
    &&& public_inputs.depth == siblings.len()
    &&& encodes(public_inputs.root@, root)
    &&& encodes(public_inputs.commitment@, c)
    &&& instance.public_inputs.version == public_inputs.version
    &&& instance.public_inputs.depth == public_inputs.depth
    &&& instance.public_inputs.root@ == public_inputs.root@
    &&& instance.public_inputs.commitment@ == public_inputs.commitment@
}

/// Whether a record of the second versioned schema and its public inputs are
/// those of an identity, a blinding, a path and a context: the record holds
/// the witness as it was given, and both hold version, statement tag,
/// statement revision and domain separator of the schema, the length of the
/// path as depth, the context padded to thirty-two bytes, and the canonical
/// encodings of the commitment and of the root.
pub open spec fn built_v2(
    instance: MembershipInstanceV2Bytes,
    public_inputs: MembershipPublicInputsV2Bytes,
    identity_scalar: Seq<u8>,
    blinding: Seq<u8>,
    siblings: Seq<Vec<u8>>,
    sides: Seq<bool>,
    ctx_hash: Seq<u8>,
) -> bool {
    let (c, root) = stated_v2(identity_scalar, blinding, siblings, sides, ctx_hash);
    &&& instance.schema_version == MEMBERSHIP_INSTANCE_VERSION_V2
    &&& instance.witness.schema_version == MEMBERSHIP_INSTANCE_VERSION_V2
    &&& instance.witness.depth == siblings.len()
    &&& instance.witness.identity_scalar@ == identity_scalar
    &&& instance.witness.blinding@ == blinding
    &&& same_strings(instance.witness.merkle_siblings@, siblings)
    &&& instance.witness.merkle_directions@ == sides
    &&& public_inputs.schema_version == MEMBERSHIP_INSTANCE_VERSION_V2
    &&& public_inputs.statement_type == MEMBERSHIP_STATEMENT_TYPE
    &&& public_inputs.statement_version == MEMBERSHIP_STATEMENT_VERSION_V2
    &&& public_inputs.depth == siblings.len()
    &&& encodes(public_inputs.root@, root)
    &&& encodes(public_inputs.commitment@, c)
    &&& public_inputs.domain_sep@ == MEMBERSHIP_V2_DOMAIN_SEP@
    &&& public_inputs.ctx_hash@ == left_padded(ctx_hash)
    &&& instance.public_inputs.schema_version == public_inputs.schema_version
    &&& instance.public_inputs.statement_type == public_inputs.statement_type
    &&& instance.public_inputs.statement_version == public_inputs.statement_version
    &&& instance.public_inputs.depth == public_inputs.depth
    &&& instance.public_inputs.root@ == public_inputs.root@
    &&& instance.public_inputs.commitment@ == public_inputs.commitment@
    &&& instance.public_inputs.domain_sep@ == public_inputs.domain_sep@
    &&& instance.public_inputs.ctx_hash@ == public_inputs.ctx_hash@
}

/// Decodes the inputs that the three builders share and hashes the identity
/// into its commitment.
fn commit_inputs(
    identity_scalar: &Vec<u8>,
    blinding: &Vec<u8>,
    siblings: &Vec<Vec<u8>>,
    sides: &Vec<bool>,
) -> (res: Result<(FieldElement, Vec<(FieldElement, bool)>), SchemaError>)
    requires
        siblings@.len() == sides@.len(),
    ensures
        match res {
            Ok(parts) => inputs_error(identity_scalar@, blinding@, siblings@, sides@, None) is None
                && parts.0.valid() && parts.0@ == commitment(
                standard_params(),
                field_value(identity_scalar@),
                field_value(blinding@),
            ) && crate::merkle::path_values(parts.1@) == decoded_path(siblings@, sides@),
            Err(e) => inputs_error(identity_scalar@, blinding@, siblings@, sides@, None) == Some(e),
        },
{
    let path = decode_path(siblings, sides)?;
    let identity = fr_from_bytes(Field::IdentityScalar, identity_scalar.as_slice())?;
    let blinding = fr_from_bytes(Field::Blinding, blinding.as_slice())?;
    let params = poseidon_params();
    Ok((commitment_hash(&params, identity, blinding), path))
}

/// Builds a record without a version, and its public inputs, for an identity,
/// a blinding and a path of one level. Both pass validation.
pub fn make_membership_instance(
    identity_scalar: Vec<u8>,
    blinding: Vec<u8>,
    merkle_siblings: Vec<Vec<u8>>,
    merkle_is_left: Vec<bool>,
) -> (res: Result<(MembershipInstanceBytes, MembershipPublicInputsBytes), SchemaError>)
    ensures
        match res {
            Ok((instance, public_inputs)) => {
                &&& inputs_error(
                    identity_scalar@,
                    blinding@,
                    merkle_siblings@,
                    merkle_is_left@,
                    legacy_depth_error(merkle_siblings@.len()),
                ) is None
                &&& built(
                    instance,
                    public_inputs,
                    identity_scalar@,
                    blinding@,
                    merkle_siblings@,
                    merkle_is_left@,
                )
                &&& instance.valid_outcome() is Ok
                &&& public_inputs.outcome() is Ok
            },
            Err(e) => inputs_error(
                identity_scalar@,
                blinding@,
                merkle_siblings@,
                merkle_is_left@,
                legacy_depth_error(merkle_siblings@.len()),
            ) == Some(e),
        },
{
    if merkle_siblings.len() != merkle_is_left.len() {
        return Err(
            SchemaError::PathListsMismatch {
                siblings: merkle_siblings.len(),
                directions: merkle_is_left.len(),
            },
        );
    }
    if merkle_siblings.len() != MERKLE_DEPTH {
        return Err(
            SchemaError::PathLengthMismatch { expected: MERKLE_DEPTH, got: merkle_siblings.len() },
        );
    }
    let (commitment, path) = commit_inputs(
        &identity_scalar,
        &blinding,
        &merkle_siblings,
        &merkle_is_left,
    )?;
    let params = poseidon_params();
    let root = compute_root(&params, leaf_hash(&params, commitment), &path);
    proof {
        lemma_encoding(root);
        lemma_encoding(commitment);
    }
    let mut merkle_path: Vec<MerklePathNodeBytes> = Vec::with_capacity(merkle_siblings.len());
    let mut idx: usize = 0;
    while idx < merkle_siblings.len()
        invariant
            idx <= merkle_siblings@.len(),
            merkle_siblings@.len() == merkle_is_left@.len(),
            merkle_path@.len() == idx,
            forall|j: int|
                0 <= j < idx ==> (#[trigger] merkle_path@[j]).sibling@ == merkle_siblings@[j]@
                    && merkle_path@[j].is_left == merkle_is_left@[j],
        decreases merkle_siblings@.len() - idx,
    {
        merkle_path.push(
            MerklePathNodeBytes {
                sibling: copy_bytes(&merkle_siblings[idx]),
                is_left: merkle_is_left[idx],
            },
        );
        idx = idx + 1;
    }
    let public_inputs = MembershipPublicInputsBytes {
        root: fr_to_fixed_bytes(&root),
        commitment: fr_to_fixed_bytes(&commitment),
    };
    let instance = MembershipInstanceBytes {
        public_inputs: MembershipPublicInputsBytes {
            root: fr_to_fixed_bytes(&root),
            commitment: fr_to_fixed_bytes(&commitment),
        },
        witness: MembershipWitnessBytes { identity_scalar, blinding, merkle_path },
    };
    proof {
        lemma_built(
            instance,
            public_inputs,
            instance.witness.identity_scalar@,
            instance.witness.blinding@,
            merkle_siblings@,
            merkle_is_left@,
        );
    }
    Ok((instance, public_inputs))
}

/// Builds a record of the first versioned schema, and its public inputs, for
/// an identity, a blinding and a path of at least one level. Both pass
/// validation.
pub fn make_membership_instance_v1(
    identity_scalar: Vec<u8>,
    blinding: Vec<u8>,
    merkle_siblings: Vec<Vec<u8>>,
    merkle_is_left: Vec<bool>,
) -> (res: Result<(MembershipInstanceV1Bytes, MembershipPublicInputsV1Bytes), SchemaError>)
    ensures
        match res {
            Ok((instance, public_inputs)) => {
                &&& inputs_error(
                    identity_scalar@,
                    blinding@,
                    merkle_siblings@,
                    merkle_is_left@,
                    versioned_depth_error(merkle_siblings@.len()),
                ) is None
                &&& built_v1(
                    instance,
                    public_inputs,
                    identity_scalar@,
                    blinding@,
                    merkle_siblings@,
                    merkle_is_left@,
                )
                &&& instance.outcome() is Ok
                &&& public_inputs.outcome() is Ok
            },
            Err(e) => inputs_error(
                identity_scalar@,
                blinding@,
                merkle_siblings@,
                merkle_is_left@,
                versioned_depth_error(merkle_siblings@.len()),
            ) == Some(e),
        },
{
    if merkle_siblings.len() != merkle_is_left.len() {
        return Err(
            SchemaError::PathListsMismatch {
                siblings: merkle_siblings.len(),
                directions: merkle_is_left.len(),
            },
        );
    }
    if merkle_siblings.len() == 0 {
        return Err(SchemaError::EmptyPath);
    }
    if merkle_siblings.len() > u32::MAX as usize {
        return Err(
            SchemaError::PathLengthMismatch {
                expected: u32::MAX as usize,
                got: merkle_siblings.len(),
            },
        );
    }
    let depth = merkle_siblings.len() as u32;
    let (commitment, path) = commit_inputs(
        &identity_scalar,
        &blinding,
        &merkle_siblings,
        &merkle_is_left,
    )?;
    let params = poseidon_params();
    let root = compute_root(&params, leaf_hash(&params, commitment), &path);
    proof {
        lemma_encoding(root);
        lemma_encoding(commitment);
    }
    let public_inputs = MembershipPublicInputsV1Bytes {
        version: MEMBERSHIP_INSTANCE_VERSION_V1,
        depth,
        root: fr_to_fixed_bytes(&root),
        commitment: fr_to_fixed_bytes(&commitment),
    };
    let instance = MembershipInstanceV1Bytes {
        version: MEMBERSHIP_INSTANCE_VERSION_V1,
        public_inputs: MembershipPublicInputsV1Bytes {
            version: MEMBERSHIP_INSTANCE_VERSION_V1,
            depth,
            root: fr_to_fixed_bytes(&root),
            commitment: fr_to_fixed_bytes(&commitment),
        },
        witness: MembershipWitnessV1Bytes {
            version: MEMBERSHIP_INSTANCE_VERSION_V1,
            depth,
            identity_scalar,
            blinding,
            merkle_siblings,
            merkle_directions: merkle_is_left,
        },
    };
    proof {
        let witness = instance.witness;
        assert(same_strings(witness.merkle_siblings@, witness.merkle_siblings@));
        lemma_built_v1(
            instance,
            public_inputs,
            witness.identity_scalar@,
            witness.blinding@,
            witness.merkle_siblings@,
            witness.merkle_directions@,
        );
    }
    Ok((instance, public_inputs))
}

/// The error that the inputs of the builder of the second versioned schema
/// end in, if any: as [`inputs_error`] says, but the context is looked at
/// once the lists were found to have one length and not to be empty.
pub open spec fn inputs_v2_error(
    identity_scalar: Seq<u8>,
    blinding: Seq<u8>,
    siblings: Seq<Vec<u8>>,
    sides: Seq<bool>,
    ctx_hash: Seq<u8>,
) -> Option<SchemaError> {
    if siblings.len() != sides.len() {
        Some(
            SchemaError::PathListsMismatch {
                siblings: siblings.len() as usize,
                directions: sides.len() as usize,
            },
        )
    } else if siblings.len() == 0 {
        Some(SchemaError::EmptyPath)
    } else if field_error(Field::CtxHash, ctx_hash) is Some {
        field_error(Field::CtxHash, ctx_hash)
    } else if siblings.len() > u32::MAX {
        Some(
            SchemaError::PathLengthMismatch {
                expected: u32::MAX as usize,
                got: siblings.len() as usize,
            },
        )
    } else {
        inputs_error(identity_scalar, blinding, siblings, sides, None)
    }
}

/// Builds a record of the second versioned schema, and its public inputs, for
/// an identity, a blinding, a path of at least one level and a context of
/// between one and thirty-two bytes. Both pass validation.
pub fn make_membership_instance_v2(
    identity_scalar: Vec<u8>,
    blinding: Vec<u8>,
    merkle_siblings: Vec<Vec<u8>>,
    merkle_is_left: Vec<bool>,
    ctx_hash: Vec<u8>,
) -> (res: Result<(MembershipInstanceV2Bytes, MembershipPublicInputsV2Bytes), SchemaError>)
    ensures
        match res {
            Ok((instance, public_inputs)) => {
                &&& inputs_v2_error(
                    identity_scalar@,
                    blinding@,
                    merkle_siblings@,
                    merkle_is_left@,
                    ctx_hash@,
                ) is None
                &&& built_v2(
                    instance,
                    public_inputs,
                    identity_scalar@,
                    blinding@,
                    merkle_siblings@,
                    merkle_is_left@,
                    ctx_hash@,
                )
                &&& instance.outcome() is Ok
                &&& public_inputs.outcome() is Ok
            },
            Err(e) => inputs_v2_error(
                identity_scalar@,
                blinding@,
                merkle_siblings@,
                merkle_is_left@,
                ctx_hash@,
            ) == Some(e),
        },
{
    if merkle_siblings.len() != merkle_is_left.len() {
        return Err(
            SchemaError::PathListsMismatch {
                siblings: merkle_siblings.len(),
                directions: merkle_is_left.len(),
            },
        );
    }
    if merkle_siblings.len() == 0 {
        return Err(SchemaError::EmptyPath);
    }
    let ctx_hash_fixed = fixed_bytes32(Field::CtxHash, ctx_hash.as_slice())?;
    if merkle_siblings.len() > u32::MAX as usize {
        return Err(
            SchemaError::PathLengthMismatch {
                expected: u32::MAX as usize,
                got: merkle_siblings.len(),
            },
        );
    }
    let depth = merkle_siblings.len() as u32;
    let (commitment, path) = commit_inputs(
        &identity_scalar,
        &blinding,
        &merkle_siblings,
        &merkle_is_left,
    )?;
    let params = poseidon_params();
    let ctx_hash_fr = match fr_from_bytes(Field::CtxHash, ctx_hash_fixed.as_slice()) {
        Ok(fe) => fe,
        Err(e) => {
            return Err(e);
        },
    };
    let first = poseidon_hash_leaf_v2(
        &params,
        membership_v2_domain_sep_fr(),
        ctx_hash_fr,
        commitment,
    );
    let root = compute_root(&params, first, &path);
    proof {
        lemma_encoding(root);
        lemma_encoding(commitment);
    }
    let root_bytes = root.to_bytes();
    let commitment_bytes = commitment.to_bytes();
    let public_inputs = MembershipPublicInputsV2Bytes {
        schema_version: MEMBERSHIP_INSTANCE_VERSION_V2,
        statement_type: MEMBERSHIP_STATEMENT_TYPE,
        statement_version: MEMBERSHIP_STATEMENT_VERSION_V2,
        depth,
        root: root_bytes,
        commitment: commitment_bytes,
        domain_sep: MEMBERSHIP_V2_DOMAIN_SEP,
        ctx_hash: ctx_hash_fixed,
    };
    let instance = MembershipInstanceV2Bytes {
        schema_version: MEMBERSHIP_INSTANCE_VERSION_V2,
        public_inputs: MembershipPublicInputsV2Bytes {
            schema_version: MEMBERSHIP_INSTANCE_VERSION_V2,
            statement_type: MEMBERSHIP_STATEMENT_TYPE,
            statement_version: MEMBERSHIP_STATEMENT_VERSION_V2,
            depth,
            root: root_bytes,
            commitment: commitment_bytes,
            domain_sep: MEMBERSHIP_V2_DOMAIN_SEP,
            ctx_hash: ctx_hash_fixed,
        },
        witness: MembershipWitnessV2Bytes {
            schema_version: MEMBERSHIP_INSTANCE_VERSION_V2,
            depth,
            identity_scalar,
            blinding,
            merkle_siblings,
            merkle_directions: merkle_is_left,
        },
    };
    proof {
        let witness = instance.witness;
        assert(same_strings(witness.merkle_siblings@, witness.merkle_siblings@));
        lemma_built_v2(
            instance,
            public_inputs,
            witness.identity_scalar@,
            witness.blinding@,
            witness.merkle_siblings@,
            witness.merkle_directions@,
            ctx_hash@,
        );
    }
    Ok((instance, public_inputs))
}

/// Builds a record without a version and its public inputs as
/// [`make_membership_instance`] does and encodes both.
pub fn make_membership_instance_bytes(
    identity_scalar: Vec<u8>,
    blinding: Vec<u8>,
    merkle_siblings: Vec<Vec<u8>>,
    merkle_is_left: Vec<bool>,
) -> (res: Result<(Vec<u8>, Vec<u8>), SchemaError>)
    ensures
        match res {
            Ok((instance_bytes, public_inputs_bytes)) => {
                &&& inputs_error(
                    identity_scalar@,
                    blinding@,
                    merkle_siblings@,
                    merkle_is_left@,
                    legacy_depth_error(merkle_siblings@.len()),
                ) is None
                &&& exists|
                    instance: MembershipInstanceBytes,
                    public_inputs: MembershipPublicInputsBytes,
                |
                    #![trigger built(
                        instance,
                        public_inputs,
                        identity_scalar@,
                        blinding@,
                        merkle_siblings@,
                        merkle_is_left@,
                    )]
                    built(
                        instance,
                        public_inputs,
                        identity_scalar@,
                        blinding@,
                        merkle_siblings@,
                        merkle_is_left@,
                    ) && instance_bytes@ == encode_items(instance.items()) && public_inputs_bytes@
                        == encode_items(public_inputs.items())
            },
            Err(e) => inputs_error(
                identity_scalar@,
                blinding@,
                merkle_siblings@,
                merkle_is_left@,
                legacy_depth_error(merkle_siblings@.len()),
            ) == Some(e),
        },
{
    let (instance, public_inputs) = make_membership_instance(
        identity_scalar,
        blinding,
        merkle_siblings,
        merkle_is_left,
    )?;
    Ok((instance.serialize(), public_inputs.serialize()))
}

/// Builds a record of the first versioned schema and its public inputs as
/// [`make_membership_instance_v1`] does and encodes both.
pub fn make_membership_instance_v1_bytes(
    identity_scalar: Vec<u8>,
    blinding: Vec<u8>,
    merkle_siblings: Vec<Vec<u8>>,
    merkle_is_left: Vec<bool>,
) -> (res: Result<(Vec<u8>, Vec<u8>), SchemaError>)
    ensures
        match res {
            Ok((instance_bytes, public_inputs_bytes)) => {
                &&& inputs_error(
                    identity_scalar@,
                    blinding@,
                    merkle_siblings@,
                    merkle_is_left@,
                    versioned_depth_error(merkle_siblings@.len()),
                ) is None
                &&& exists|
                    instance: MembershipInstanceV1Bytes,
                    public_inputs: MembershipPublicInputsV1Bytes,
                |
                    #![trigger built_v1(
                        instance,
                        public_inputs,
                        identity_scalar@,
                        blinding@,
                        merkle_siblings@,
                        merkle_is_left@,
                    )]
                    built_v1(
                        instance,
                        public_inputs,
                        identity_scalar@,
                        blinding@,
                        merkle_siblings@,
                        merkle_is_left@,
                    ) && instance_bytes@ == encode_items(instance.items()) && public_inputs_bytes@
                        == encode_items(public_inputs.items())
            },
            Err(e) => inputs_error(
                identity_scalar@,
                blinding@,
                merkle_siblings@,
                merkle_is_left@,
                versioned_depth_error(merkle_siblings@.len()),
            ) == Some(e),
        },
{
    let (instance, public_inputs) = make_membership_instance_v1(
        identity_scalar,
        blinding,
        merkle_siblings,
        merkle_is_left,
    )?;
    Ok((instance.serialize(), public_inputs.serialize()))
}

/// Builds a record of the second versioned schema and its public inputs as
/// [`make_membership_instance_v2`] does and encodes both.
pub fn make_membership_instance_v2_bytes(
    identity_scalar: Vec<u8>,
    blinding: Vec<u8>,
    merkle_siblings: Vec<Vec<u8>>,
    merkle_is_left: Vec<bool>,
    ctx_hash: Vec<u8>,
) -> (res: Result<(Vec<u8>, Vec<u8>), SchemaError>)
    ensures
        match res {
            Ok((instance_bytes, public_inputs_bytes)) => {
                &&& inputs_v2_error(
                    identity_scalar@,
                    blinding@,
                    merkle_siblings@,
                    merkle_is_left@,
                    ctx_hash@,
                ) is None
                &&& exists|
                    instance: MembershipInstanceV2Bytes,
                    public_inputs: MembershipPublicInputsV2Bytes,
                |
                    #![trigger built_v2(
                        instance,
                        public_inputs,
                        identity_scalar@,
                        blinding@,
                        merkle_siblings@,
                        merkle_is_left@,
                        ctx_hash@,
                    )]
                    built_v2(
                        instance,
                        public_inputs,
                        identity_scalar@,
                        blinding@,
                        merkle_siblings@,
                        merkle_is_left@,
                        ctx_hash@,
                    ) && instance_bytes@ == encode_items(instance.items()) && public_inputs_bytes@
                        == encode_items(public_inputs.items())
            },
            Err(e) => inputs_v2_error(
                identity_scalar@,
                blinding@,
                merkle_siblings@,
                merkle_is_left@,
                ctx_hash@,
            ) == Some(e),
        },
{
    let (instance, public_inputs) = make_membership_instance_v2(
        identity_scalar,
        blinding,
        merkle_siblings,
        merkle_is_left,
        ctx_hash,
    )?;
    Ok((instance.serialize(), public_inputs.serialize()))
}

/// Whether two lists of byte strings decode, and what they decode to,
/// depends on the strings alone.
pub proof fn lemma_same_strings_decode_alike(a: Seq<Vec<u8>>, b: Seq<Vec<u8>>, from: int)
    requires
        same_strings(a, b),
    ensures
        siblings_error(a, from) == siblings_error(b, from),
    decreases a.len() - from,
{
    if 0 <= from < a.len() {
        assert(a[from]@ == b[from]@);
        lemma_same_strings_decode_alike(a, b, from + 1);
    }
}

/// A list of path nodes decodes where the list of its siblings does.
pub proof fn lemma_nodes_decode_like_siblings(
    nodes: Seq<MerklePathNodeBytes>,
    siblings: Seq<Vec<u8>>,
    sides: Seq<bool>,
    from: int,
)
    requires
        pairs_up(nodes, siblings, sides),
    ensures
        siblings_error(siblings, from) is None <==> nodes_error(nodes, from) is None,
    decreases nodes.len() - from,
{
    if 0 <= from < nodes.len() {
        assert(nodes[from].sibling@ == siblings[from]@);
        lemma_nodes_decode_like_siblings(nodes, siblings, sides, from + 1);
    }
}

/// A record without a version that was built decodes, its commitment and its
/// root are those that its witness hashes to, it states what its builder was
/// given, and it satisfies the membership circuit.
pub proof fn lemma_built(
    instance: MembershipInstanceBytes,
    public_inputs: MembershipPublicInputsBytes,
    identity_scalar: Seq<u8>,
    blinding: Seq<u8>,
    siblings: Seq<Vec<u8>>,
    sides: Seq<bool>,
)
    requires
        built(instance, public_inputs, identity_scalar, blinding, siblings, sides),
        inputs_error(
            identity_scalar,
            blinding,
            siblings,
            sides,
            legacy_depth_error(siblings.len()),
        ) is None,
    ensures
        public_inputs.outcome() is Ok,
        instance.outcome() is Ok,
        instance.valid_outcome() == instance.outcome(),
        instance.outcome().unwrap().0 == public_inputs.outcome().unwrap(),
        ({
            let (public, witness) = instance.outcome().unwrap();
            &&& witness.identity_scalar == field_value(identity_scalar)
            &&& witness.blinding == field_value(blinding)
            &&& witness.merkle_path == decoded_path(siblings, sides)
            &&& satisfied(
                standard_params(),
                statement_circuit(
                    public.root,
                    public.commitment,
                    witness.identity_scalar,
                    witness.blinding,
                    witness.merkle_path,
                ).plan(),
            )
        }),
{
    let nodes = instance.witness.merkle_path@;
    lemma_nodes_decode_like_siblings(nodes, siblings, sides, 0);
    assert(decoded_nodes(nodes) =~= decoded_path(siblings, sides));
    vstd::arithmetic::div_mod::lemma_small_mod(be_value(public_inputs.root@), modulus());
    vstd::arithmetic::div_mod::lemma_small_mod(be_value(public_inputs.commitment@), modulus());
    let (public, witness) = instance.outcome().unwrap();
    let circuit = statement_circuit(
        public.root,
        public.commitment,
        witness.identity_scalar,
        witness.blinding,
        witness.merkle_path,
    );
    assert(assigned_path(circuit.merkle_path) =~= witness.merkle_path);
    lemma_membership_plan(standard_params(), circuit);
}

/// A record of the first versioned schema that was built passes validation,
/// states what its builder was given, and satisfies the membership circuit.
pub proof fn lemma_built_v1(
    instance: MembershipInstanceV1Bytes,
    public_inputs: MembershipPublicInputsV1Bytes,
    identity_scalar: Seq<u8>,
    blinding: Seq<u8>,
    siblings: Seq<Vec<u8>>,
    sides: Seq<bool>,
)
    requires
        built_v1(instance, public_inputs, identity_scalar, blinding, siblings, sides),
        inputs_error(
            identity_scalar,
            blinding,
            siblings,
            sides,
            versioned_depth_error(siblings.len()),
        ) is None,
    ensures
        public_inputs.outcome() is Ok,
        instance.outcome() is Ok,
        instance.outcome().unwrap().0.0 == public_inputs.outcome().unwrap().0,
        instance.outcome().unwrap().1 == siblings.len(),
        ({
            let (public, witness) = instance.outcome().unwrap().0;
            &&& witness.identity_scalar == field_value(identity_scalar)
            &&& witness.blinding == field_value(blinding)
            &&& witness.merkle_path == decoded_path(siblings, sides)
            &&& satisfied(
                standard_params(),
                statement_circuit(
                    public.root,
                    public.commitment,
                    witness.identity_scalar,
                    witness.blinding,
                    witness.merkle_path,
                ).plan(),
            )
        }),
{
    lemma_same_strings_decode_alike(instance.witness.merkle_siblings@, siblings, 0);
    assert(decoded_path(instance.witness.merkle_siblings@, instance.witness.merkle_directions@)
        =~= decoded_path(siblings, sides)) by {
        assert forall|i: int| 0 <= i < siblings.len() implies (
        #[trigger] instance.witness.merkle_siblings@[i])@ == siblings[i]@ by {}
    }
    vstd::arithmetic::div_mod::lemma_small_mod(be_value(public_inputs.root@), modulus());
    vstd::arithmetic::div_mod::lemma_small_mod(be_value(public_inputs.commitment@), modulus());
    let (public, witness) = instance.outcome().unwrap().0;
    let circuit = statement_circuit(
        public.root,
        public.commitment,
        witness.identity_scalar,
        witness.blinding,
        witness.merkle_path,
    );
    assert(assigned_path(circuit.merkle_path) =~= witness.merkle_path);
    lemma_membership_plan(standard_params(), circuit);
}

/// A record of the second versioned schema that was built passes validation,
/// states what its builder was given, and satisfies the membership circuit of
/// that schema.
pub proof fn lemma_built_v2(
    instance: MembershipInstanceV2Bytes,
    public_inputs: MembershipPublicInputsV2Bytes,
    identity_scalar: Seq<u8>,
    blinding: Seq<u8>,
    siblings: Seq<Vec<u8>>,
    sides: Seq<bool>,
    ctx_hash: Seq<u8>,
)
    requires
        built_v2(instance, public_inputs, identity_scalar, blinding, siblings, sides, ctx_hash),
        inputs_v2_error(identity_scalar, blinding, siblings, sides, ctx_hash) is None,
    ensures
        public_inputs.outcome() is Ok,
        instance.outcome() is Ok,
        instance.outcome().unwrap().0.0 == public_inputs.outcome().unwrap().0,
        instance.outcome().unwrap().1 == siblings.len(),
        ({
            let (public, witness) = instance.outcome().unwrap().0;
            &&& witness.identity_scalar == field_value(identity_scalar)
            &&& witness.blinding == field_value(blinding)
            &&& witness.merkle_path == decoded_path(siblings, sides)
            &&& public.ctx_hash == field_value(ctx_hash)
            &&& satisfied(
                standard_params(),
                statement_circuit_v2(
                    public.root,
                    public.commitment,
                    public.domain_sep,
                    public.ctx_hash,
                    witness.identity_scalar,
                    witness.blinding,
                    witness.merkle_path,
                ).plan(),
            )
        }),
{
    lemma_same_strings_decode_alike(instance.witness.merkle_siblings@, siblings, 0);
    assert(decoded_path(instance.witness.merkle_siblings@, instance.witness.merkle_directions@)
        =~= decoded_path(siblings, sides)) by {
        assert forall|i: int| 0 <= i < siblings.len() implies (
        #[trigger] instance.witness.merkle_siblings@[i])@ == siblings[i]@ by {}
    }
    vstd::arithmetic::div_mod::lemma_small_mod(be_value(public_inputs.root@), modulus());
    vstd::arithmetic::div_mod::lemma_small_mod(be_value(public_inputs.commitment@), modulus());
    crate::field::lemma_leading_zeros((FIELD_BYTES - ctx_hash.len()) as nat, ctx_hash);
    let (public, witness) = instance.outcome().unwrap().0;
    let circuit = statement_circuit_v2(
        public.root,
        public.commitment,
        public.domain_sep,
        public.ctx_hash,
        witness.identity_scalar,
        witness.blinding,
        witness.merkle_path,
    );
    assert(assigned_path(circuit.merkle_path) =~= witness.merkle_path);
    lemma_membership_v2_plan(standard_params(), circuit);
}

/// Identity of the sample records.
pub const SAMPLE_IDENTITY: u64 = 1;

/// Blinding of the sample records.
pub const SAMPLE_BLINDING: u64 = 2;

/// What is added to the number of a level to seed the sibling of a sample
/// path of the first versioned schema.
pub const SAMPLE_SEED_V1: u64 = 10;

/// What is added to the number of a level to seed the sibling of a sample
/// path of the second versioned schema.
pub const SAMPLE_SEED_V2: u64 = 20;

/// The commitment of the sample records.
pub open spec fn sample_commitment() -> nat {
    commitment(standard_params(), SAMPLE_IDENTITY as nat, SAMPLE_BLINDING as nat)
}

/// Whether lists of siblings and sides are those of a sample path: at each
/// level the sibling is the canonical encoding of the node above the sample
/// commitment and the number of the level plus `seed`, and it stands on the
/// left at the even levels.
pub open spec fn sample_path(
    siblings: Seq<Vec<u8>>,
    sides: Seq<bool>,
    depth: nat,
    seed: nat,
) -> bool {
    &&& siblings.len() == depth
    &&& sides.len() == depth
    &&& forall|i: int|
        0 <= i < depth ==> encodes(
            (#[trigger] siblings[i])@,
            node(standard_params(), sample_commitment(), (i + seed) as nat),
        ) && sides[i] == (i % 2 == 0)
}

/// Siblings of thirty-two bytes each all decode.
pub proof fn lemma_full_siblings_decode(siblings: Seq<Vec<u8>>, from: int)
    requires
        forall|i: int| 0 <= i < siblings.len() ==> (#[trigger] siblings[i])@.len() == FIELD_BYTES,
    ensures
        siblings_error(siblings, from) is None,
    decreases siblings.len() - from,
{
    if 0 <= from < siblings.len() {
        assert(siblings[from]@.len() == FIELD_BYTES);
        lemma_full_siblings_decode(siblings, from + 1);
    }
}

/// The siblings and sides of a sample path of the given depth.
fn build_sample_path(depth: usize, seed: u64) -> (out: (Vec<Vec<u8>>, Vec<bool>))
    requires
        depth + seed <= u64::MAX,
    ensures
        sample_path(out.0@, out.1@, depth as nat, seed as nat),
{
    let params = poseidon_params();
    let commitment = commitment_hash(
        &params,
        FieldElement::from_u64(SAMPLE_IDENTITY),
        FieldElement::from_u64(SAMPLE_BLINDING),
    );
    let mut siblings: Vec<Vec<u8>> = Vec::with_capacity(depth);
    let mut sides: Vec<bool> = Vec::with_capacity(depth);
    let mut idx: usize = 0;
    while idx < depth
        invariant
            idx <= depth,
            depth + seed <= u64::MAX,
            params@ == standard_params(),
            commitment@ == sample_commitment(),
            sample_path(siblings@, sides@, idx as nat, seed as nat),
        decreases depth - idx,
    {
        let sibling_seed = FieldElement::from_u64(idx as u64 + seed);
        let sibling = node_hash(&params, commitment, sibling_seed);
        let ghost siblings_before = siblings@;
        let ghost sides_before = sides@;
        siblings.push(fr_to_fixed_bytes(&sibling));
        sides.push(idx % 2 == 0);
        proof {
            lemma_encoding(sibling);
            assert forall|i: int| 0 <= i < idx + 1 implies encodes(
                (#[trigger] siblings@[i])@,
                node(standard_params(), sample_commitment(), (i + seed) as nat),
            ) && sides@[i] == (i % 2 == 0) by {
                if i < idx {
                    assert(siblings@[i] == siblings_before[i]);
                    assert(sides@[i] == sides_before[i]);
                }
            }
        }
        idx = idx + 1;
    }
    (siblings, sides)
}

/// A sample record without a version, with its public inputs: identity 1,
/// blinding 2, and as sibling, on the right, the leaf of the commitment to
/// identity 3 under blinding 4. Both pass validation.
pub fn build_legacy_instance() -> (res: Result<
    (MembershipInstanceBytes, MembershipPublicInputsBytes),
    SchemaError,
>)
    ensures
        res matches Ok((instance, public_inputs)) && ({
            let path = instance.witness.merkle_path@;
            let sibling = leaf(standard_params(), commitment(standard_params(), 3, 4));
            &&& encodes(instance.witness.identity_scalar@, SAMPLE_IDENTITY as nat)
            &&& encodes(instance.witness.blinding@, SAMPLE_BLINDING as nat)
            &&& path.len() == 1
            &&& encodes(path[0].sibling@, sibling)
            &&& !path[0].is_left
            &&& encodes(public_inputs.commitment@, sample_commitment())
            &&& encodes(
                public_inputs.root@,
                node(standard_params(), leaf(standard_params(), sample_commitment()), sibling),
            )
            &&& instance.public_inputs.root@ == public_inputs.root@
            &&& instance.public_inputs.commitment@ == public_inputs.commitment@
            &&& instance.valid_outcome() is Ok
            &&& public_inputs.outcome() is Ok
        }),
{
    let params = poseidon_params();
    let sibling_commitment = commitment_hash(
        &params,
        FieldElement::from_u64(3),
        FieldElement::from_u64(4),
    );
    let sibling = poseidon_hash_leaf(&params, sibling_commitment);
    let identity = FieldElement::from_u64(SAMPLE_IDENTITY);
    let blinding = FieldElement::from_u64(SAMPLE_BLINDING);
    proof {
        lemma_encoding(sibling);
        lemma_encoding(identity);
        lemma_encoding(blinding);
        lemma_decode_encode(sibling);
        lemma_decode_encode(identity);
        lemma_decode_encode(blinding);
    }
    let siblings = vec![fr_to_fixed_bytes(&sibling)];
    let sides = vec![false];
    proof {
        lemma_full_siblings_decode(siblings@, 0);
        let path = decoded_path(siblings@, sides@);
        assert(path.drop_last() =~= Seq::<(nat, bool)>::empty());
        reveal_with_fuel(merkle_root, 2);
    }
    make_membership_instance(
        fr_to_fixed_bytes(&identity),
        fr_to_fixed_bytes(&blinding),
        siblings,
        sides,
    )
}

/// A sample record of the first versioned schema, with its public inputs,
/// for a tree of the given depth: identity 1, blinding 2, and a sample path
/// seeded with 10. Fails where the depth is zero or does not fit the record.
pub fn build_v1_instance(depth: usize) -> (res: Result<
    (MembershipInstanceV1Bytes, MembershipPublicInputsV1Bytes),
    SchemaError,
>)
    ensures
        match res {
            Ok((instance, public_inputs)) => {
                &&& versioned_depth_error(depth as nat) is None
                &&& encodes(instance.witness.identity_scalar@, SAMPLE_IDENTITY as nat)
                &&& encodes(instance.witness.blinding@, SAMPLE_BLINDING as nat)
                &&& sample_path(
                    instance.witness.merkle_siblings@,
                    instance.witness.merkle_directions@,
                    depth as nat,
                    SAMPLE_SEED_V1 as nat,
                )
                &&& built_v1(
                    instance,
                    public_inputs,
                    instance.witness.identity_scalar@,
                    instance.witness.blinding@,
                    instance.witness.merkle_siblings@,
                    instance.witness.merkle_directions@,
                )
                &&& instance.outcome() is Ok
                &&& public_inputs.outcome() is Ok
            },
            Err(e) => versioned_depth_error(depth as nat) == Some(e),
        },
{
    if depth == 0 {
        return Err(SchemaError::EmptyPath);
    }
    if depth > u32::MAX as usize {
        return Err(SchemaError::PathLengthMismatch { expected: u32::MAX as usize, got: depth });
    }
    let identity = FieldElement::from_u64(SAMPLE_IDENTITY);
    let blinding = FieldElement::from_u64(SAMPLE_BLINDING);
    let (siblings, sides) = build_sample_path(depth, SAMPLE_SEED_V1);
    proof {
        lemma_encoding(identity);
        lemma_encoding(blinding);
        lemma_decode_encode(identity);
        lemma_decode_encode(blinding);
        assert forall|i: int| 0 <= i < siblings@.len() implies (#[trigger] siblings@[i])@.len()
            == FIELD_BYTES by {
            assert(encodes(
                siblings@[i]@,
                node(standard_params(), sample_commitment(), (i + SAMPLE_SEED_V1) as nat),
            ));
        }
        lemma_full_siblings_decode(siblings@, 0);
    }
    let ghost given = siblings@;
    let res = make_membership_instance_v1(
        fr_to_fixed_bytes(&identity),
        fr_to_fixed_bytes(&blinding),
        siblings,
        sides,
    );
    proof {
        if res is Ok {
            let instance = res->Ok_0.0;
            let kept = instance.witness.merkle_siblings@;
            assert(decoded_path(kept, instance.witness.merkle_directions@) =~= decoded_path(
                given,
                instance.witness.merkle_directions@,
            )) by {
                assert forall|i: int| 0 <= i < given.len() implies (#[trigger] kept[i])@
                    == given[i]@ by {}
            }
            assert forall|i: int| 0 <= i < depth implies encodes(
                (#[trigger] kept[i])@,
                node(standard_params(), sample_commitment(), (i + SAMPLE_SEED_V1) as nat),
            ) by {
                assert(kept[i]@ == given[i]@);
            }
            assert(sample_path(
                kept,
                instance.witness.merkle_directions@,
                depth as nat,
                SAMPLE_SEED_V1 as nat,
            ));
            assert(same_strings(kept, kept));
            assert(built_v1(
                instance,
                res->Ok_0.1,
                instance.witness.identity_scalar@,
                instance.witness.blinding@,
                kept,
                instance.witness.merkle_directions@,
            ));
        }
    }
    res
}

/// A sample record of the second versioned schema, with its public inputs,
/// for a tree of the given depth: identity 1, blinding 2, the context that
/// stands for none, and a sample path seeded with 20. Fails where the depth
/// is zero or does not fit the record.
pub fn build_v2_instance(depth: usize) -> (res: Result<
    (MembershipInstanceV2Bytes, MembershipPublicInputsV2Bytes),
    SchemaError,
>)
    ensures
        match res {
            Ok((instance, public_inputs)) => {
                &&& versioned_depth_error(depth as nat) is None
                &&& encodes(instance.witness.identity_scalar@, SAMPLE_IDENTITY as nat)
                &&& encodes(instance.witness.blinding@, SAMPLE_BLINDING as nat)
                &&& sample_path(
                    instance.witness.merkle_siblings@,
                    instance.witness.merkle_directions@,
                    depth as nat,
                    SAMPLE_SEED_V2 as nat,
                )
                &&& built_v2(
                    instance,
                    public_inputs,
                    instance.witness.identity_scalar@,
                    instance.witness.blinding@,
                    instance.witness.merkle_siblings@,
                    instance.witness.merkle_directions@,
                    MEMBERSHIP_V2_DEFAULT_CTX_HASH@,
                )
                &&& instance.outcome() is Ok
                &&& public_inputs.outcome() is Ok
            },
            Err(e) => versioned_depth_error(depth as nat) == Some(e),
        },
{
    if depth == 0 {
        return Err(SchemaError::EmptyPath);
    }
    if depth > u32::MAX as usize {
        return Err(SchemaError::PathLengthMismatch { expected: u32::MAX as usize, got: depth });
    }
    let identity = FieldElement::from_u64(SAMPLE_IDENTITY);
    let blinding = FieldElement::from_u64(SAMPLE_BLINDING);
    let (siblings, sides) = build_sample_path(depth, SAMPLE_SEED_V2);
    proof {
        lemma_encoding(identity);
        lemma_encoding(blinding);
        lemma_decode_encode(identity);
        lemma_decode_encode(blinding);
        assert forall|i: int| 0 <= i < siblings@.len() implies (#[trigger] siblings@[i])@.len()
            == FIELD_BYTES by {
            assert(encodes(
                siblings@[i]@,
                node(standard_params(), sample_commitment(), (i + SAMPLE_SEED_V2) as nat),
            ));
        }
        lemma_full_siblings_decode(siblings@, 0);
    }
    let ghost given = siblings@;
    let ctx_hash = crate::field::slice_to_vec32(&MEMBERSHIP_V2_DEFAULT_CTX_HASH);
    let res = make_membership_instance_v2(
        fr_to_fixed_bytes(&identity),
        fr_to_fixed_bytes(&blinding),
        siblings,
        sides,
        ctx_hash,
    );
    proof {
        if res is Ok {
            let instance = res->Ok_0.0;
            let kept = instance.witness.merkle_siblings@;
            assert(decoded_path(kept, instance.witness.merkle_directions@) =~= decoded_path(
                given,
                instance.witness.merkle_directions@,
            )) by {
                assert forall|i: int| 0 <= i < given.len() implies (#[trigger] kept[i])@
                    == given[i]@ by {}
            }
            assert forall|i: int| 0 <= i < depth implies encodes(
                (#[trigger] kept[i])@,
                node(standard_params(), sample_commitment(), (i + SAMPLE_SEED_V2) as nat),
            ) by {
                assert(kept[i]@ == given[i]@);
            }
            assert(sample_path(
                kept,
                instance.witness.merkle_directions@,
                depth as nat,
                SAMPLE_SEED_V2 as nat,
            ));
            assert(same_strings(kept, kept));
            assert(built_v2(
                instance,
                res->Ok_0.1,
                instance.witness.identity_scalar@,
                instance.witness.blinding@,
                kept,
                instance.witness.merkle_directions@,
                MEMBERSHIP_V2_DEFAULT_CTX_HASH@,
            ));
        }
    }
    res
}

} // verus!
