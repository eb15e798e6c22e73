//! Verification of unlinkability proofs.

use crate::error::Error;
use crate::wire::{decodes_to, parse_items, Item, WireError};
use crate::circuit::public_inputs;
use crate::groth16::{check_key, groth16_verdict, readable_key, verify, VerifyError};
use crate::poseidon::{standard_params, values};
use crate::unlinkability::circuit::{lemma_unlinkability_plan, CircuitView};
use crate::unlinkability::schema::{
    PublicInputsView, UnlinkabilityPublicInputsV2, UnlinkabilityPublicInputsV2Data,
};
use vstd::prelude::*;

verus! {

/// What the verifier is handed: tag, domain separator, context.
pub open spec fn verifier_inputs(public_inputs: PublicInputsView) -> Seq<nat> {
    seq![public_inputs.tag, public_inputs.domain_sep, public_inputs.ctx_hash]
}

/// Verifies an unlinkability proof under a verifying key, both in their
/// uncompressed canonical encoding.
pub fn verify_unlinkability_v2(
    vk: &[u8],
    public_inputs: &UnlinkabilityPublicInputsV2Data,
    proof: &[u8],
) -> (res: Result<bool, VerifyError>)
    ensures
        res == groth16_verdict(vk@, verifier_inputs(public_inputs@), proof@),
{
    let inputs = vec![public_inputs.tag, public_inputs.domain_sep, public_inputs.ctx_hash];
    assert(values(inputs@) =~= verifier_inputs(public_inputs@));
    verify(vk, &inputs, proof)
}

/// The verifier is handed the public inputs in the order in which the
/// circuit allocates them.
pub proof fn lemma_input_order(circuit: CircuitView, inputs: PublicInputsView)
    requires
        circuit.tag == Some(inputs.tag),
        circuit.domain_sep == Some(inputs.domain_sep),
        circuit.ctx_hash == Some(inputs.ctx_hash),
    ensures
        public_inputs(circuit.plan()) == verifier_inputs(inputs).map_values(|v: nat| Some(v)),
{
    lemma_unlinkability_plan(standard_params(), circuit);
    assert(verifier_inputs(inputs).map_values(|v: nat| Some(v)) =~= seq![
        circuit.tag,
        circuit.domain_sep,
        circuit.ctx_hash,
    ]);
}

/// Decodes the public inputs from the head of
/// `public_inputs`, validates them, and verifies the proof for them. Errors
/// come in this order: a key that cannot be read, bytes that are not a
/// record, a record that is rejected, a proof that cannot be read, a verifier
/// that gives up.
pub fn verify_unlinkability_v2_bytes(vk: &[u8], public_inputs: &[u8], proof: &[u8]) -> (res: Result<
    bool,
    Error,
>)
    ensures
        !readable_key(vk@) ==> res == Err::<bool, Error>(
            Error::Verify(VerifyError::UnreadableKey),
        ),
        readable_key(vk@) ==> (match res {
            Ok(verdict) => exists|record: UnlinkabilityPublicInputsV2|
                #![trigger record.outcome()]
                decodes_to(public_inputs@, UnlinkabilityPublicInputsV2::layout(), record.items())
                    && record.outcome() is Ok && groth16_verdict(
                    vk@,
                    verifier_inputs(record.outcome().unwrap()),
                    proof@,
                ) == Ok::<bool, VerifyError>(verdict),
            Err(Error::Wire(e)) => parse_items(UnlinkabilityPublicInputsV2::layout(), public_inputs@)
                == Err::<(Seq<Item>, nat), WireError>(e),
            Err(Error::Schema(e)) => exists|record: UnlinkabilityPublicInputsV2|
                #![trigger record.outcome()]
                decodes_to(public_inputs@, UnlinkabilityPublicInputsV2::layout(), record.items())
                    && record.outcome() is Err && record.outcome()->Err_0 == e,
            Err(Error::Verify(e)) => exists|record: UnlinkabilityPublicInputsV2|
                #![trigger record.outcome()]
                decodes_to(public_inputs@, UnlinkabilityPublicInputsV2::layout(), record.items())
                    && record.outcome() is Ok && groth16_verdict(
                    vk@,
                    verifier_inputs(record.outcome().unwrap()),
                    proof@,
                ) == Err::<bool, VerifyError>(e),
        }),
{
    match check_key(vk) {
        Ok(_) => {},
        Err(e) => {
            return Err(Error::Verify(e));
        },
    }
    let record = match UnlinkabilityPublicInputsV2::deserialize(public_inputs) {
        Ok(record) => record,
        Err(e) => {
            return Err(Error::Wire(e));
        },
    };
    let ghost decoded = record;
    let inputs = match record.into_public_inputs() {
        Ok(inputs) => inputs,
        Err(e) => {
            assert(decoded.outcome() is Err);
            return Err(Error::Schema(e));
        },
    };
    assert(decoded.outcome() is Ok);
    match verify_unlinkability_v2(vk, &inputs, proof) {
        Ok(verdict) => Ok(verdict),
        Err(e) => Err(Error::Verify(e)),
    }
}

} // verus!
