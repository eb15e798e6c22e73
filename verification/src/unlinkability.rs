//! Unlinkability: a public tag is the hash of a committed identity under a
//! context, so that one identity is recognised within a context and not
//! across contexts.

pub mod builder;
pub mod circuit;
pub mod encoding;
pub mod schema;
pub mod verification;
