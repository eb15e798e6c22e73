//! Membership: a committed identity lies in a Merkle tree of a declared depth.

pub mod builder;
pub mod circuit;
pub mod encoding;
pub mod schema;
pub mod verification;
