//! Declarations, their metadata and the scoring of a round and a match.

pub mod variant;
pub mod scoring;
