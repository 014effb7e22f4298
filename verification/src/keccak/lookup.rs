//! Requests to find a value in a table.

use vstd::prelude::*;

use crate::field::One;

verus! {

/// The side of the lookup argument that a request belongs to.
#[derive(Clone, Copy, Debug, PartialEq, Eq, Structural)]
pub enum LookupMode {
    /// The value is looked up.
    Read,
    /// The value is an entry of the table.
    Write,
}

/// The tables of the Keccak circuit.
#[derive(Clone, Copy, Debug, PartialEq, Eq, Structural)]
pub enum LookupTable {
    /// The lengths of paddings, with two to the power of the length and the parts of the suffix.
    PadLookup,
    /// The round constants of each round.
    RoundConstantsLookup,
    /// The numbers of eight bits.
    ByteLookup,
    /// The numbers of sixteen bits.
    RangeCheck16Lookup,
    /// The expansions of the numbers of sixteen bits.
    SparseLookup,
    /// The numbers of sixteen bits, each with its expansion.
    ResetLookup,
}

/// A request to find `value` in a table, counted `magnitude` times.
#[derive(Debug)]
pub struct Lookup<T> {
    /// The side of the argument.
    pub mode: LookupMode,
    /// How many times the request counts.
    pub magnitude: T,
    /// The table.
    pub table_id: LookupTable,
    /// The entry.
    pub value: Vec<T>,
}

/// What a request stands for.
#[verifier::ext_equal]
pub struct LookupModel<T> {
    /// The side of the argument.
    pub mode: LookupMode,
    /// How many times the request counts.
    pub magnitude: T,
    /// The table.
    pub table_id: LookupTable,
    /// The entry.
    pub value: Seq<T>,
}

impl<T: View> View for Lookup<T> {
    type V = LookupModel<T::V>;

    open spec fn view(&self) -> LookupModel<T::V> {
        LookupModel {
            mode: self.mode,
            magnitude: self.magnitude@,
            table_id: self.table_id,
            value: crate::domain::views(self.value@),
        }
    }
}

impl<T: One> Lookup<T> {
    /// A request that counts once.
    pub fn new(mode: LookupMode, table_id: LookupTable, value: Vec<T>) -> (r: Self)
        ensures
            r.mode == mode,
            r.magnitude@ == T::one_view(),
            r.table_id == table_id,
            r.value == value,
    {
        Lookup { mode, magnitude: T::one(), table_id, value }
    }
}

} // verus!
