//! What holds of every valid statement, and what tampering with a statement
//! leads to.

use crate::circuit::satisfied;
use crate::continuity::circuit as continuity;
use crate::continuity::circuit::{lemma_continuity_plan, lemma_continuity_v2_plan};
use crate::continuity::schema::{
    commitment_v2, ContinuityInstanceV1, ContinuityInstanceV2, CONTINUITY_V1_DOMAIN_SEP,
    CONTINUITY_V2_DOMAIN_SEP,
};
use crate::field::field_value;
use crate::membership::circuit as membership;
use crate::membership::circuit::{assigned_path, lemma_membership_plan, lemma_membership_v2_plan};
use crate::membership::schema::{
    decoded_path, statement_error, statement_v2_error, MembershipInstanceV1Bytes,
    MembershipInstanceV2Bytes, MembershipPublicInputsV2Bytes, MembershipWitnessV1Bytes,
    MembershipWitnessV2Bytes, MEMBERSHIP_V2_DOMAIN_SEP,
};
use crate::merkle::merkle_root;
use crate::poseidon::{commitment, leaf, leaf_v2, standard_params, PoseidonParamsView};
use crate::unlinkability::circuit as unlinkability;
use crate::unlinkability::circuit::lemma_unlinkability_plan;
use crate::unlinkability::schema::{tag_of, UnlinkabilityInstanceV2, UNLINKABILITY_V2_DOMAIN_SEP};
use vstd::prelude::*;

verus! {

/// An assignment is a membership statement exactly where it satisfies the
/// membership circuit, in either form.
pub proof fn lemma_valid_membership(
    public: crate::membership::schema::PublicInputsView,
    public_v2: crate::membership::schema::PublicInputsV2View,
    witness: crate::membership::schema::WitnessView,
)
    ensures
        statement_error(public, witness) is None <==> satisfied(
            standard_params(),
            membership::statement_circuit(
                public.root,
                public.commitment,
                witness.identity_scalar,
                witness.blinding,
                witness.merkle_path,
            ).plan(),
        ),
        statement_v2_error(public_v2, witness) is None <==> satisfied(
            standard_params(),
            membership::statement_circuit_v2(
                public_v2.root,
                public_v2.commitment,
                public_v2.domain_sep,
                public_v2.ctx_hash,
                witness.identity_scalar,
                witness.blinding,
                witness.merkle_path,
            ).plan(),
        ),
{
    let first = membership::statement_circuit(
        public.root,
        public.commitment,
        witness.identity_scalar,
        witness.blinding,
        witness.merkle_path,
    );
    let second = membership::statement_circuit_v2(
        public_v2.root,
        public_v2.commitment,
        public_v2.domain_sep,
        public_v2.ctx_hash,
        witness.identity_scalar,
        witness.blinding,
        witness.merkle_path,
    );
    assert(assigned_path(first.merkle_path) =~= witness.merkle_path);
    assert(assigned_path(second.merkle_path) =~= witness.merkle_path);
    lemma_membership_plan(standard_params(), first);
    lemma_membership_v2_plan(standard_params(), second);
}

/// A membership record of either versioned schema that passes validation
/// states the commitment to its identity under its blinding and the root that
/// its path leads to, has a path of the depth it declares, and satisfies its
/// circuit.
pub proof fn lemma_valid_membership_record(
    first: MembershipInstanceV1Bytes,
    second: MembershipInstanceV2Bytes,
)
    ensures
        first.outcome() is Ok ==> ({
            let ((public, witness), depth) = first.outcome().unwrap();
            &&& statement_error(public, witness) is None
            &&& witness.merkle_path.len() == depth
            &&& satisfied(
                standard_params(),
                membership::statement_circuit(
                    public.root,
                    public.commitment,
                    witness.identity_scalar,
                    witness.blinding,
                    witness.merkle_path,
                ).plan(),
            )
        }),
        second.outcome() is Ok ==> ({
            let ((public, witness), depth) = second.outcome().unwrap();
            &&& statement_v2_error(public, witness) is None
            &&& witness.merkle_path.len() == depth
            &&& satisfied(
                standard_params(),
                membership::statement_circuit_v2(
                    public.root,
                    public.commitment,
                    public.domain_sep,
                    public.ctx_hash,
                    witness.identity_scalar,
                    witness.blinding,
                    witness.merkle_path,
                ).plan(),
            )
        }),
{
    if first.outcome() is Ok {
        let ((public, witness), _) = first.outcome().unwrap();
        lemma_valid_membership(public, second.outcome().unwrap().0.0, witness);
    }
    if second.outcome() is Ok {
        let ((public, witness), _) = second.outcome().unwrap();
        lemma_valid_membership(first.outcome().unwrap().0.0, public, witness);
    }
}

/// A continuity record of the first schema that passes validation binds both
/// public hashes to the one identity of its witness, the first under the
/// first blinding, the second under the second; with equal blindings the two
/// hashes are equal. Its circuit is satisfied.
pub proof fn lemma_valid_continuity(record: ContinuityInstanceV1)
    requires
        record.outcome() is Ok,
    ensures
        ({
            let (public, witness) = record.outcome().unwrap();
            &&& public.c1_hash == commitment(standard_params(), witness.id, witness.r1)
            &&& public.c2_hash == commitment(standard_params(), witness.id, witness.r2)
            &&& witness.r1 == witness.r2 ==> public.c1_hash == public.c2_hash
            &&& satisfied(
                standard_params(),
                continuity::statement_circuit(
                    public.c1_hash,
                    public.c2_hash,
                    public.domain_sep,
                    witness.id,
                    witness.r1,
                    witness.r2,
                ).plan(),
            )
        }),
{
    let (public, witness) = record.outcome().unwrap();
    lemma_continuity_plan(
        standard_params(),
        continuity::statement_circuit(
            public.c1_hash,
            public.c2_hash,
            public.domain_sep,
            witness.id,
            witness.r1,
            witness.r2,
        ),
    );
}

/// A continuity record of the second schema that passes validation binds
/// both public hashes to the one identity of its witness in the record's
/// context; with equal blindings the two hashes are equal. Its circuit is
/// satisfied.
pub proof fn lemma_valid_continuity_v2(record: ContinuityInstanceV2)
    requires
        record.outcome() is Ok,
    ensures
        ({
            let (public, witness) = record.outcome().unwrap();
            &&& public.c1_hash == commitment_v2(
                standard_params(),
                witness.id,
                witness.r1,
                public.ctx_hash,
            )
            &&& public.c2_hash == commitment_v2(
                standard_params(),
                witness.id,
                witness.r2,
                public.ctx_hash,
            )
            &&& witness.r1 == witness.r2 ==> public.c1_hash == public.c2_hash
            &&& satisfied(
                standard_params(),
                continuity::statement_circuit_v2(
                    public.c1_hash,
                    public.c2_hash,
                    public.domain_sep,
                    public.ctx_hash,
                    witness.id,
                    witness.r1,
                    witness.r2,
                ).plan(),
            )
        }),
{
    let (public, witness) = record.outcome().unwrap();
    lemma_continuity_v2_plan(
        standard_params(),
        continuity::statement_circuit_v2(
            public.c1_hash,
            public.c2_hash,
            public.domain_sep,
            public.ctx_hash,
            witness.id,
            witness.r1,
            witness.r2,
        ),
    );
}

/// An unlinkability record that passes validation carries the tag of its
/// identity, blinding and context, and its circuit is satisfied. Two such
/// records with one identity, one blinding and one context carry one tag.
pub proof fn lemma_valid_unlinkability(a: UnlinkabilityInstanceV2, b: UnlinkabilityInstanceV2)
    requires
        a.outcome() is Ok,
        b.outcome() is Ok,
    ensures
        ({
            let (public, witness) = a.outcome().unwrap();
            &&& public.tag == tag_of(witness.id, witness.blinding, public.ctx_hash)
            &&& satisfied(
                standard_params(),
                unlinkability::statement_circuit(
                    public.tag,
                    public.domain_sep,
                    public.ctx_hash,
                    witness.id,
                    witness.blinding,
                ).plan(),
            )
        }),
        a.outcome().unwrap().1 == b.outcome().unwrap().1 && a.outcome().unwrap().0.ctx_hash
            == b.outcome().unwrap().0.ctx_hash ==> a.outcome().unwrap().0.tag
            == b.outcome().unwrap().0.tag,
{
    let (public, witness) = a.outcome().unwrap();
    lemma_unlinkability_plan(
        standard_params(),
        unlinkability::statement_circuit(
            public.tag,
            public.domain_sep,
            public.ctx_hash,
            witness.id,
            witness.blinding,
        ),
    );
}

/// A continuity record whose first or second public hash is not the
/// commitment to its identity under the blinding that belongs to it, or whose
/// domain separator is not that of the first schema, does not pass
/// validation.
pub proof fn lemma_continuity_rejects(record: ContinuityInstanceV1)
    requires
        field_value(record.c1_hash@) != commitment(
            standard_params(),
            field_value(record.id@),
            field_value(record.r1@),
        ) || field_value(record.c2_hash@) != commitment(
            standard_params(),
            field_value(record.id@),
            field_value(record.r2@),
        ) || record.domain_sep@ != CONTINUITY_V1_DOMAIN_SEP@,
    ensures
        record.outcome() is Err,
{
}

/// A continuity record of the second schema whose first or second public
/// hash is not the commitment to its identity under the blinding that belongs
/// to it in the record's context, or whose domain separator is not that of
/// the second schema, does not pass validation.
pub proof fn lemma_continuity_v2_rejects(record: ContinuityInstanceV2)
    requires
        field_value(record.c1_hash@) != commitment_v2(
            standard_params(),
            field_value(record.id@),
            field_value(record.r1@),
            field_value(record.ctx_hash@),
        ) || field_value(record.c2_hash@) != commitment_v2(
            standard_params(),
            field_value(record.id@),
            field_value(record.r2@),
            field_value(record.ctx_hash@),
        ) || record.domain_sep@ != CONTINUITY_V2_DOMAIN_SEP@,
    ensures
        record.outcome() is Err,
{
}

/// An unlinkability record whose tag is not that of its identity, blinding
/// and context, or whose domain separator is not that of the schema, does not
/// pass validation.
pub proof fn lemma_unlinkability_rejects(record: UnlinkabilityInstanceV2)
    requires
        field_value(record.tag@) != tag_of(
            field_value(record.id@),
            field_value(record.blinding@),
            field_value(record.ctx_hash@),
        ) || record.domain_sep@ != UNLINKABILITY_V2_DOMAIN_SEP@,
    ensures
        record.outcome() is Err,
{
}

/// A membership witness whose list of siblings or of sides has not the
/// expected length does not pass validation, in either versioned schema; nor
/// do public inputs of the second versioned schema whose domain separator is
/// not that of the schema.
pub proof fn lemma_membership_rejects(
    first: MembershipWitnessV1Bytes,
    second: MembershipWitnessV2Bytes,
    public: MembershipPublicInputsV2Bytes,
    expected_depth: usize,
)
    ensures
        first.merkle_siblings@.len() != expected_depth || first.merkle_directions@.len()
            != expected_depth ==> first.outcome(expected_depth) is Err,
        second.merkle_siblings@.len() != expected_depth || second.merkle_directions@.len()
            != expected_depth ==> second.outcome(expected_depth) is Err,
        public.domain_sep@ != MEMBERSHIP_V2_DOMAIN_SEP@ ==> public.outcome() is Err,
{
}

/// A membership record of the first versioned schema whose commitment is not
/// that of its identity under its blinding, or whose root is not the one that
/// its path leads to from the leaf of its commitment, does not pass
/// validation. Nor does one of the second versioned schema whose commitment
/// is another, or whose root is not the one that its path leads to from the
/// leaf that binds its commitment to the domain separator and to its context.
pub proof fn lemma_membership_record_rejects(
    first: MembershipInstanceV1Bytes,
    second: MembershipInstanceV2Bytes,
)
    ensures
        field_value(first.public_inputs.commitment@) != commitment(
            standard_params(),
            field_value(first.witness.identity_scalar@),
            field_value(first.witness.blinding@),
        ) || field_value(first.public_inputs.root@) != merkle_root(
            standard_params(),
            leaf(standard_params(), field_value(first.public_inputs.commitment@)),
            decoded_path(first.witness.merkle_siblings@, first.witness.merkle_directions@),
        ) ==> first.outcome() is Err,
        field_value(second.public_inputs.commitment@) != commitment(
            standard_params(),
            field_value(second.witness.identity_scalar@),
            field_value(second.witness.blinding@),
        ) || field_value(second.public_inputs.root@) != merkle_root(
            standard_params(),
            leaf_v2(
                standard_params(),
                field_value(second.public_inputs.domain_sep@),
                field_value(second.public_inputs.ctx_hash@),
                field_value(second.public_inputs.commitment@),
            ),
            decoded_path(second.witness.merkle_siblings@, second.witness.merkle_directions@),
        ) ==> second.outcome() is Err,
{
}

/// No assignment with a root other than the one that the path leads to
/// satisfies the membership circuit, in either form; nor does one with a
/// commitment other than that of identity and blinding, nor, in the second
/// versioned schema, one with a domain separator other than that of the
/// schema.
pub proof fn lemma_membership_circuit_rejects(
    params: PoseidonParamsView,
    c: membership::CircuitView,
    d: membership::CircuitV2View,
)
    ensures
        satisfied(params, c.plan()) <==> c.assigned() && c.holds(params),
        satisfied(params, d.plan()) <==> d.assigned() && d.holds(params),
        d.assigned() && d.domain_sep.unwrap() != field_value(MEMBERSHIP_V2_DOMAIN_SEP@)
            ==> !satisfied(params, d.plan()),
{
    lemma_membership_plan(params, c);
    lemma_membership_v2_plan(params, d);
}

/// The continuity and the unlinkability circuits are satisfied by exactly
/// the assignments of which their statement holds: none with a hash or a tag
/// that the witness does not hash to, none with a domain separator other than
/// that of the schema.
pub proof fn lemma_circuits_reject(
    params: PoseidonParamsView,
    c: continuity::CircuitView,
    d: continuity::CircuitV2View,
    u: unlinkability::CircuitView,
)
    ensures
        satisfied(params, c.plan()) <==> c.assigned() && c.holds(params),
        satisfied(params, d.plan()) <==> d.assigned() && d.holds(params),
        satisfied(params, u.plan()) <==> u.assigned() && u.holds(params),
{
    lemma_continuity_plan(params, c);
    lemma_continuity_v2_plan(params, d);
    lemma_unlinkability_plan(params, u);
}

} // verus!
