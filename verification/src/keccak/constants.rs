//! Sizes of the Keccak circuit.

use vstd::prelude::*;

verus! {

/// Side of the square of lanes that the state is made of.
pub const DIM: usize = 5;

/// Parts of sixteen bits that a lane is made of.
pub const QUARTERS: usize = 4;

/// Shifted parts that an expanded quarter is made of.
pub const SHIFTS: usize = 4;

/// Quarters in a state.
pub const STATE_LEN: usize = 100;

/// Shifted parts of the quarters of a state.
pub const SHIFTS_LEN: usize = 400;

/// Bytes of a state.
pub const STATE_BYTES: usize = 200;

/// Parts that the suffix of the padding is made of.
pub const PAD_SUFFIX_LEN: usize = 5;

} // verus!
