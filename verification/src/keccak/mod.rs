//! The lookups of the Keccak circuit.

pub mod constants;
pub mod coverage;
pub mod environment;
pub mod lookup;
pub mod lookups;
