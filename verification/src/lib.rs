//! Zero-knowledge statements about a secret identity held inside a Poseidon
//! commitment, over the scalar field of BN254:
//!
//! - [`membership`]: the commitment lies in a Merkle tree of a declared depth;
//! - [`continuity`]: two public commitments hide one identity;
//! - [`unlinkability`]: a public tag is the hash of the commitment in a context.
//!
//! Each statement has its records ([`wire`] gives their binary encoding),
//! their validation into field elements ([`field`], [`error`]), its circuit
//! as a constraint plan ([`circuit`]) and the verification of its Groth16
//! proofs ([`groth16`]). The hashes are those of [`poseidon`], the paths
//! those of [`merkle`]; [`laws`] states what holds of valid and of tampered
//! statements.

pub mod circuit;
pub mod continuity;
pub mod error;
pub mod field;
pub mod groth16;
pub mod laws;
pub mod membership;
pub mod merkle;
pub mod poseidon;
pub mod unlinkability;
pub mod wire;
