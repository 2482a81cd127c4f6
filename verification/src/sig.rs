//! Function signatures: normalisation, fuzzy hashing and matching.

pub mod comparaison;
pub mod sig_generation;
