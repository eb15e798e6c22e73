//! Verification of membership proofs.

use crate::error::Error;
use crate::wire::{decodes_to, parse_items, Item, WireError};
use crate::circuit::public_inputs;
use crate::groth16::{check_key, groth16_verdict, readable_key, verify, VerifyError};
use crate::membership::circuit::{
    lemma_membership_plan, lemma_membership_v2_plan, CircuitV2View, CircuitView,
};
use crate::membership::schema::{
    MembershipPublicInputs, MembershipPublicInputsBytes, MembershipPublicInputsV1Bytes,
    MembershipPublicInputsV2, MembershipPublicInputsV2Bytes, PublicInputsV2View,
    PublicInputsView,
};
use crate::poseidon::{standard_params, values};
use vstd::prelude::*;

verus! {

/// What the verifier is handed for public inputs of the first two schemas:
/// root, then commitment.
pub open spec fn verifier_inputs(public_inputs: PublicInputsView) -> Seq<nat> {
    seq![public_inputs.root, public_inputs.commitment]
}

/// What the verifier is handed for public inputs of the second versioned
/// schema: root, commitment, domain separator, context.
pub open spec fn verifier_inputs_v2(public_inputs: PublicInputsV2View) -> Seq<nat> {
    seq![
        public_inputs.root,
        public_inputs.commitment,
        public_inputs.domain_sep,
        public_inputs.ctx_hash,
    ]
}

/// Verifies a membership proof of the first two schemas under a verifying
/// key, both in their uncompressed canonical encoding.
pub fn verify_membership(vk: &[u8], public_inputs: &MembershipPublicInputs, proof: &[u8]) -> (res:
    Result<bool, VerifyError>)
    ensures
        res == groth16_verdict(vk@, verifier_inputs(public_inputs@), proof@),
{
    let inputs = vec![public_inputs.root, public_inputs.commitment];
    assert(values(inputs@) =~= verifier_inputs(public_inputs@));
    verify(vk, &inputs, proof)
}

/// Verifies a membership proof of the second versioned schema under a
/// verifying key, both in their uncompressed canonical encoding.
pub fn verify_membership_v2(
    vk: &[u8],
    public_inputs: &MembershipPublicInputsV2,
    proof: &[u8],
) -> (res: Result<bool, VerifyError>)
    ensures
        res == groth16_verdict(vk@, verifier_inputs_v2(public_inputs@), proof@),
{
    let inputs = vec![
        public_inputs.root,
        public_inputs.commitment,
        public_inputs.domain_sep,
        public_inputs.ctx_hash,
    ];
    assert(values(inputs@) =~= verifier_inputs_v2(public_inputs@));
    verify(vk, &inputs, proof)
}

/// The verifier is handed the public inputs in the order in which the
/// circuit allocates them.
pub proof fn lemma_input_order(circuit: CircuitView, inputs: PublicInputsView)
    requires
        circuit.root == Some(inputs.root),
        circuit.commitment == Some(inputs.commitment),
    ensures
        public_inputs(circuit.plan()) == verifier_inputs(inputs).map_values(|v: nat| Some(v)),
{
    lemma_membership_plan(standard_params(), circuit);
    assert(verifier_inputs(inputs).map_values(|v: nat| Some(v)) =~= seq![
        circuit.root,
        circuit.commitment,
    ]);
}

/// The verifier is handed the public inputs of the second versioned schema
/// in the order in which the circuit allocates them.
pub proof fn lemma_input_order_v2(circuit: CircuitV2View, inputs: PublicInputsV2View)
    requires
        circuit.root == Some(inputs.root),
        circuit.commitment == Some(inputs.commitment),
        circuit.domain_sep == Some(inputs.domain_sep),
        circuit.ctx_hash == Some(inputs.ctx_hash),
    ensures
        public_inputs(circuit.plan()) == verifier_inputs_v2(inputs).map_values(|v: nat| Some(v)),
{
    lemma_membership_v2_plan(standard_params(), circuit);
    assert(verifier_inputs_v2(inputs).map_values(|v: nat| Some(v)) =~= seq![
        circuit.root,
        circuit.commitment,
        circuit.domain_sep,
        circuit.ctx_hash,
    ]);
}

/// Decodes the public inputs of a record without a version from the head of
/// `public_inputs`, validates them, and verifies the proof for them. Errors
/// come in this order: a key that cannot be read, bytes that are not a
/// record, a record that is rejected, a proof that cannot be read, a verifier
/// that gives up.
pub fn verify_membership_bytes(vk: &[u8], public_inputs: &[u8], proof: &[u8]) -> (res: Result<
    bool,
    Error,
>)
    ensures
        !readable_key(vk@) ==> res == Err::<bool, Error>(
            Error::Verify(VerifyError::UnreadableKey),
        ),
        readable_key(vk@) ==> (match res {
            Ok(verdict) => exists|record: MembershipPublicInputsBytes|
                #![trigger record.outcome()]
                decodes_to(public_inputs@, MembershipPublicInputsBytes::layout(), record.items())
                    && record.outcome() is Ok && groth16_verdict(
                    vk@,
                    verifier_inputs(record.outcome().unwrap()),
                    proof@,
                ) == Ok::<bool, VerifyError>(verdict),
            Err(Error::Wire(e)) => parse_items(MembershipPublicInputsBytes::layout(), public_inputs@)
                == Err::<(Seq<Item>, nat), WireError>(e),
            Err(Error::Schema(e)) => exists|record: MembershipPublicInputsBytes|
                #![trigger record.outcome()]
                decodes_to(public_inputs@, MembershipPublicInputsBytes::layout(), record.items())
                    && record.outcome() is Err && record.outcome()->Err_0 == e,
            Err(Error::Verify(e)) => exists|record: MembershipPublicInputsBytes|
                #![trigger record.outcome()]
                decodes_to(public_inputs@, MembershipPublicInputsBytes::layout(), record.items())
                    && record.outcome() is Ok && groth16_verdict(
                    vk@,
                    verifier_inputs(record.outcome().unwrap()),
                    proof@,
                ) == Err::<bool, VerifyError>(e),
        }),
{
    match check_key(vk) {
        Ok(_) => {},
        Err(e) => {
            return Err(Error::Verify(e));
        },
    }
    let record = match MembershipPublicInputsBytes::deserialize(public_inputs) {
        Ok(record) => record,
        Err(e) => {
            return Err(Error::Wire(e));
        },
    };
    let ghost decoded = record;
    let inputs = match record.into_public_inputs() {
        Ok(inputs) => inputs,
        Err(e) => {
            assert(decoded.outcome() is Err);
            return Err(Error::Schema(e));
        },
    };
    assert(decoded.outcome() is Ok);
    match verify_membership(vk, &inputs, proof) {
        Ok(verdict) => Ok(verdict),
        Err(e) => Err(Error::Verify(e)),
    }
}

/// Decodes the public inputs of the first versioned schema from the head of
/// `public_inputs`, validates them, and verifies the proof for them. Errors
/// come in this order: a key that cannot be read, bytes that are not a
/// record, a record that is rejected, a proof that cannot be read, a verifier
/// that gives up.
pub fn verify_membership_v1_bytes(vk: &[u8], public_inputs: &[u8], proof: &[u8]) -> (res: Result<
    bool,
    Error,
>)
    ensures
        !readable_key(vk@) ==> res == Err::<bool, Error>(
            Error::Verify(VerifyError::UnreadableKey),
        ),
        readable_key(vk@) ==> (match res {
            Ok(verdict) => exists|record: MembershipPublicInputsV1Bytes|
                #![trigger record.outcome()]
                decodes_to(public_inputs@, MembershipPublicInputsV1Bytes::layout(), record.items())
                    && record.outcome() is Ok && groth16_verdict(
                    vk@,
                    verifier_inputs(record.outcome().unwrap().0),
                    proof@,
                ) == Ok::<bool, VerifyError>(verdict),
            Err(Error::Wire(e)) => parse_items(MembershipPublicInputsV1Bytes::layout(), public_inputs@)
                == Err::<(Seq<Item>, nat), WireError>(e),
            Err(Error::Schema(e)) => exists|record: MembershipPublicInputsV1Bytes|
                #![trigger record.outcome()]
                decodes_to(public_inputs@, MembershipPublicInputsV1Bytes::layout(), record.items())
                    && record.outcome() is Err && record.outcome()->Err_0 == e,
            Err(Error::Verify(e)) => exists|record: MembershipPublicInputsV1Bytes|
                #![trigger record.outcome()]
                decodes_to(public_inputs@, MembershipPublicInputsV1Bytes::layout(), record.items())
                    && record.outcome() is Ok && groth16_verdict(
                    vk@,
                    verifier_inputs(record.outcome().unwrap().0),
                    proof@,
                ) == Err::<bool, VerifyError>(e),
        }),
{
    match check_key(vk) {
        Ok(_) => {},
        Err(e) => {
            return Err(Error::Verify(e));
        },
    }
    let record = match MembershipPublicInputsV1Bytes::deserialize(public_inputs) {
        Ok(record) => record,
        Err(e) => {
            return Err(Error::Wire(e));
        },
    };
    let ghost decoded = record;
    let inputs = match record.into_public_inputs_with_depth() {
        Ok(inputs) => inputs.0,
        Err(e) => {
            assert(decoded.outcome() is Err);
            return Err(Error::Schema(e));
        },
    };
    assert(decoded.outcome() is Ok);
    match verify_membership(vk, &inputs, proof) {
        Ok(verdict) => Ok(verdict),
        Err(e) => Err(Error::Verify(e)),
    }
}

/// Decodes the public inputs of the second versioned schema from the head of
/// `public_inputs`, validates them, and verifies the proof for them. Errors
/// come in this order: a key that cannot be read, bytes that are not a
/// record, a record that is rejected, a proof that cannot be read, a verifier
/// that gives up.
pub fn verify_membership_v2_bytes(vk: &[u8], public_inputs: &[u8], proof: &[u8]) -> (res: Result<
    bool,
    Error,
>)
    ensures
        !readable_key(vk@) ==> res == Err::<bool, Error>(
            Error::Verify(VerifyError::UnreadableKey),
        ),
        readable_key(vk@) ==> (match res {
            Ok(verdict) => exists|record: MembershipPublicInputsV2Bytes|
                #![trigger record.outcome()]
                decodes_to(public_inputs@, MembershipPublicInputsV2Bytes::layout(), record.items())
                    && record.outcome() is Ok && groth16_verdict(
                    vk@,
                    verifier_inputs_v2(record.outcome().unwrap().0),
                    proof@,
                ) == Ok::<bool, VerifyError>(verdict),
            Err(Error::Wire(e)) => parse_items(MembershipPublicInputsV2Bytes::layout(), public_inputs@)
                == Err::<(Seq<Item>, nat), WireError>(e),
            Err(Error::Schema(e)) => exists|record: MembershipPublicInputsV2Bytes|
                #![trigger record.outcome()]
                decodes_to(public_inputs@, MembershipPublicInputsV2Bytes::layout(), record.items())
                    && record.outcome() is Err && record.outcome()->Err_0 == e,
            Err(Error::Verify(e)) => exists|record: MembershipPublicInputsV2Bytes|
                #![trigger record.outcome()]
                decodes_to(public_inputs@, MembershipPublicInputsV2Bytes::layout(), record.items())
                    && record.outcome() is Ok && groth16_verdict(
                    vk@,
                    verifier_inputs_v2(record.outcome().unwrap().0),
                    proof@,
                ) == Err::<bool, VerifyError>(e),
        }),
{
    match check_key(vk) {
        Ok(_) => {},
        Err(e) => {
            return Err(Error::Verify(e));
        },
    }
    let record = match MembershipPublicInputsV2Bytes::deserialize(public_inputs) {
        Ok(record) => record,
        Err(e) => {
            return Err(Error::Wire(e));
        },
    };
    let ghost decoded = record;
    let inputs = match record.into_public_inputs_with_depth() {
        Ok(inputs) => inputs.0,
        Err(e) => {
            assert(decoded.outcome() is Err);
            return Err(Error::Schema(e));
        },
    };
    assert(decoded.outcome() is Ok);
    match verify_membership_v2(vk, &inputs, proof) {
        Ok(verdict) => Ok(verdict),
        Err(e) => Err(Error::Verify(e)),
    }
}

} // verus!
