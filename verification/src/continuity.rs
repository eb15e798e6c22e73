//! Continuity: two public commitments hide one identity under two blindings.

pub mod builder;
pub mod circuit;
pub mod encoding;
pub mod schema;
pub mod verification;
