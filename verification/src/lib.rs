//! Lookup constraints of a Plonk-style constraint system: the gates of a circuit, the lookups
//! that each kind of gate asks for, and the lookups that one step of the Keccak circuit asks for.

pub mod bytes;
pub mod caml;
pub mod domain;
pub mod field;
pub mod gate;
pub mod interpolation;
pub mod keccak;
pub mod lookup;
pub mod lookup_info;
pub mod lookup_laws;
