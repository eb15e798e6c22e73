//! Verification of Groth16 proofs over BN254 against a list of public inputs.

use crate::circuit::SynthesisError;
use crate::field::FieldElement;
use crate::poseidon::values;
use ark_bn254::{Bn254, Fr};
use ark_ff::PrimeField;
use ark_groth16::{prepare_verifying_key, Groth16, Proof, VerifyingKey};
use ark_relations::r1cs::SynthesisError as Outside;
use ark_serialize::CanonicalDeserialize;
use vstd::prelude::*;

verus! {

/// Why a verification did not come to a verdict.
#[derive(Clone, Copy, Debug, PartialEq, Eq, Structural)]
pub enum VerifyError {
    /// The bytes are not the uncompressed encoding of a verifying key.
    UnreadableKey,
    /// The bytes are not the uncompressed encoding of a proof.
    UnreadableProof,
    /// The verifier gave up: the key does not fit the public inputs, or the
    /// pairing check met an identity.
    Synthesis(SynthesisError),
}

/// The outcome of verifying a proof under a verifying key for a list of
/// public inputs, key and proof in their uncompressed canonical encoding.
pub uninterp spec fn groth16_verdict(vk: Seq<u8>, public_inputs: Seq<nat>, proof: Seq<u8>) -> Result<
    bool,
    VerifyError,
>;

/// Whether bytes are read as a verifying key over BN254 in its uncompressed
/// canonical encoding.
pub uninterp spec fn readable_key(vk: Seq<u8>) -> bool;

/// Tells whether a verifying key can be read, before anything else is looked
/// at.
pub fn check_key(vk: &[u8]) -> (res: Result<(), VerifyError>)
    ensures
        readable_key(vk@) ==> res is Ok,
        !readable_key(vk@) ==> res == Err::<(), VerifyError>(VerifyError::UnreadableKey),
{
    if key_is_readable(vk) {
        Ok(())
    } else {
        Err(VerifyError::UnreadableKey)
    }
}

/// Verifies a proof under a verifying key for a list of public inputs.
pub fn verify(vk: &[u8], public_inputs: &Vec<FieldElement>, proof: &[u8]) -> (res: Result<
    bool,
    VerifyError,
>)
    ensures
        res == groth16_verdict(vk@, values(public_inputs@), proof@),
{
    verify_proof(vk, public_inputs, proof)
}

/// Reads a verifying key over BN254 with `deserialize_uncompressed` of
/// ark-serialize and says whether that succeeded; the key itself is dropped.
/// Trusted: the answer is a function of the bytes.
#[verifier::external_body]
fn key_is_readable(vk: &[u8]) -> (ok: bool)
    ensures
        ok == readable_key(vk@),
{
    VerifyingKey::<Bn254>::deserialize_uncompressed(vk).is_ok()
}

/// Reads key and proof with `deserialize_uncompressed` of ark-serialize,
/// prepares the key with `prepare_verifying_key` and calls
/// `Groth16::verify_proof` of ark-groth16 on the inputs as field elements.
/// Key and proof cannot leave this function in their own types, so reading,
/// preparing and verifying stand together; an error of reading becomes
/// `UnreadableKey` or `UnreadableProof`, an error of the verifier its
/// namesake. Trusted: the result is a function of the three arguments.
#[verifier::external_body]
fn verify_proof(vk: &[u8], public_inputs: &Vec<FieldElement>, proof: &[u8]) -> (res: Result<
    bool,
    VerifyError,
>)
    ensures
        res == groth16_verdict(vk@, values(public_inputs@), proof@),
{
    let vk = VerifyingKey::<Bn254>::deserialize_uncompressed(vk).map_err(|_| VerifyError::UnreadableKey)?;
    let proof = Proof::<Bn254>::deserialize_uncompressed(proof).map_err(|_| VerifyError::UnreadableProof)?;
    let inputs: Vec<Fr> = public_inputs.iter().map(|x| Fr::from_be_bytes_mod_order(&x.bytes)).collect();
    Groth16::<Bn254>::verify_proof(&prepare_verifying_key(&vk), &proof, &inputs).map_err(|e| VerifyError::Synthesis(match e {
        Outside::MissingCS => SynthesisError::MissingCS,
        Outside::AssignmentMissing => SynthesisError::AssignmentMissing,
        Outside::DivisionByZero => SynthesisError::DivisionByZero,
        Outside::Unsatisfiable => SynthesisError::Unsatisfiable,
        Outside::PolynomialDegreeTooLarge => SynthesisError::PolynomialDegreeTooLarge,
        Outside::UnexpectedIdentity => SynthesisError::UnexpectedIdentity,
        Outside::MalformedVerifyingKey => SynthesisError::MalformedVerifyingKey,
        Outside::UnconstrainedVariable => SynthesisError::UnconstrainedVariable,
    }))
}

} // verus!
