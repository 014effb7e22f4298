//! The cells of one row of the Keccak circuit and the requests made of them.

use vstd::prelude::*;

use crate::field::ArithOps;
use crate::keccak::constants::{
    DIM, PAD_SUFFIX_LEN, QUARTERS, SHIFTS, SHIFTS_LEN, STATE_BYTES, STATE_LEN,
};
use crate::keccak::lookup::Lookup;

verus! {

/// Index of quarter `q` of column `x`.
pub open spec fn column_index(x: int, q: int) -> int {
    q + 4 * x
}

/// Index of shifted part `i` of quarter `q` of column `x`.
pub open spec fn column_shift_index(i: int, x: int, q: int) -> int {
    q + 4 * (x + 5 * i)
}

/// Index of quarter `q` of the lane in row `y` and column `x`.
pub open spec fn lane_index(y: int, x: int, q: int) -> int {
    q + 4 * (x + 5 * y)
}

/// Index of shifted part `i` of quarter `q` of the lane in row `y` and column `x`.
pub open spec fn lane_shift_index(i: int, y: int, x: int, q: int) -> int {
    q + 4 * (x + 5 * (y + 5 * i))
}

/// The cells of a row that the lookups read.
#[derive(Debug)]
pub struct KeccakCells<V> {
    /// Length of the padding in the block; zero if there is none.
    pub length: V,
    /// Two to the power of the length of the padding.
    pub two_to_pad: V,
    /// Parts of the suffix of the block under the 10*1 rule.
    pub pad_suffix: Vec<V>,
    /// One if the row is a sponge step.
    pub is_sponge: V,
    /// Bytes of the new block or of the hash.
    pub sponge_bytes: Vec<V>,
    /// Shifted parts of the expansion of the new block or of the hash.
    pub sponge_shifts: Vec<V>,
    /// One if the row is a round of the permutation.
    pub is_round: V,
    /// Remainder of the rotation of the column sums.
    pub remainder_c: Vec<V>,
    /// Rotated column sums, dense.
    pub dense_rot_c: Vec<V>,
    /// Rotated column sums, expanded.
    pub expand_rot_c: Vec<V>,
    /// Column sums, dense.
    pub dense_c: Vec<V>,
    /// Shifted parts of the column sums.
    pub shifts_c: Vec<V>,
    /// Remainder of the rotation of the lanes.
    pub remainder_e: Vec<V>,
    /// Quotient of the rotation of the lanes.
    pub quotient_e: Vec<V>,
    /// Rotated lanes, dense.
    pub dense_rot_e: Vec<V>,
    /// Rotated lanes, expanded.
    pub expand_rot_e: Vec<V>,
    /// Lanes, dense.
    pub dense_e: Vec<V>,
    /// Shifted parts of the lanes.
    pub shifts_e: Vec<V>,
    /// Shifted parts of the permuted lanes.
    pub shifts_b: Vec<V>,
    /// Shifted parts of the sums of permuted lanes.
    pub shifts_sum: Vec<V>,
    /// Number of the round.
    pub round: V,
    /// Quarters of the constant of the round.
    pub round_constants: Vec<V>,
}

impl<V> KeccakCells<V> {
    /// Every group of cells has its size.
    pub open spec fn wf(&self) -> bool {
        &&& self.pad_suffix@.len() == PAD_SUFFIX_LEN
        &&& self.sponge_bytes@.len() == STATE_BYTES
        &&& self.sponge_shifts@.len() == SHIFTS_LEN
        &&& self.remainder_c@.len() == DIM * QUARTERS
        &&& self.dense_rot_c@.len() == DIM * QUARTERS
        &&& self.expand_rot_c@.len() == DIM * QUARTERS
        &&& self.dense_c@.len() == DIM * QUARTERS
        &&& self.shifts_c@.len() == SHIFTS * DIM * QUARTERS
        &&& self.remainder_e@.len() == STATE_LEN
        &&& self.quotient_e@.len() == STATE_LEN
        &&& self.dense_rot_e@.len() == STATE_LEN
        &&& self.expand_rot_e@.len() == STATE_LEN
        &&& self.dense_e@.len() == STATE_LEN
        &&& self.shifts_e@.len() == SHIFTS_LEN
        &&& self.shifts_b@.len() == SHIFTS_LEN
        &&& self.shifts_sum@.len() == SHIFTS_LEN
        &&& self.round_constants@.len() == QUARTERS
    }
}

/// A row of the Keccak circuit and the lookups requested so far.
#[derive(Debug)]
pub struct KeccakEnv<V> {
    /// The cells of the row.
    pub cells: KeccakCells<V>,
    /// The lookups, in the order of the requests.
    pub lookups: Vec<Lookup<V>>,
}

/// Copies the cell of the given index.
fn cell<V: ArithOps>(cells: &Vec<V>, i: usize) -> (r: V)
    requires
        i < cells@.len(),
    ensures
        r@ == cells@[i as int]@,
{
    cells[i].duplicate()
}

impl<V: ArithOps> KeccakEnv<V> {
    /// A row without requests.
    pub fn new(cells: KeccakCells<V>) -> (r: Self)
        ensures
            r.cells == cells,
            r.lookups@.len() == 0,
    {
        KeccakEnv { cells, lookups: Vec::new() }
    }

    /// Length of the padding.
    pub fn length(&self) -> (r: V)
        ensures
            r@ == self.cells.length@,
    {
        self.cells.length.duplicate()
    }

    /// Two to the power of the length of the padding.
    pub fn two_to_pad(&self) -> (r: V)
        ensures
            r@ == self.cells.two_to_pad@,
    {
        self.cells.two_to_pad.duplicate()
    }

    /// Part `i` of the suffix of the padding.
    pub fn pad_suffix(&self, i: usize) -> (r: V)
        requires
            self.cells.wf(),
            i < PAD_SUFFIX_LEN,
        ensures
            r@ == self.cells.pad_suffix@[i as int]@,
    {
        cell(&self.cells.pad_suffix, i)
    }

    /// Whether the row is a sponge step.
    pub fn is_sponge(&self) -> (r: V)
        ensures
            r@ == self.cells.is_sponge@,
    {
        self.cells.is_sponge.duplicate()
    }

    /// Byte `i` of the block.
    pub fn sponge_bytes(&self, i: usize) -> (r: V)
        requires
            self.cells.wf(),
            i < STATE_BYTES,
        ensures
            r@ == self.cells.sponge_bytes@[i as int]@,
    {
        cell(&self.cells.sponge_bytes, i)
    }

    /// Shifted part `i` of the block.
    pub fn sponge_shifts(&self, i: usize) -> (r: V)
        requires
            self.cells.wf(),
            i < SHIFTS_LEN,
        ensures
            r@ == self.cells.sponge_shifts@[i as int]@,
    {
        cell(&self.cells.sponge_shifts, i)
    }

    /// Whether the row is a round.
    pub fn is_round(&self) -> (r: V)
        ensures
            r@ == self.cells.is_round@,
    {
        self.cells.is_round.duplicate()
    }

    /// Remainder of quarter `q` of column `x`.
    pub fn remainder_c(&self, x: usize, q: usize) -> (r: V)
        requires
            self.cells.wf(),
            x < DIM,
            q < QUARTERS,
        ensures
            r@ == self.cells.remainder_c@[column_index(x as int, q as int)]@,
    {
        cell(&self.cells.remainder_c, q + QUARTERS * x)
    }

    /// Rotated quarter `q` of column `x`, dense.
    pub fn dense_rot_c(&self, x: usize, q: usize) -> (r: V)
        requires
            self.cells.wf(),
            x < DIM,
            q < QUARTERS,
        ensures
            r@ == self.cells.dense_rot_c@[column_index(x as int, q as int)]@,
    {
        cell(&self.cells.dense_rot_c, q + QUARTERS * x)
    }

    /// Rotated quarter `q` of column `x`, expanded.
    pub fn expand_rot_c(&self, x: usize, q: usize) -> (r: V)
        requires
            self.cells.wf(),
            x < DIM,
            q < QUARTERS,
        ensures
            r@ == self.cells.expand_rot_c@[column_index(x as int, q as int)]@,
    {
        cell(&self.cells.expand_rot_c, q + QUARTERS * x)
    }

    /// Quarter `q` of column `x`, dense.
    pub fn dense_c(&self, x: usize, q: usize) -> (r: V)
        requires
            self.cells.wf(),
            x < DIM,
            q < QUARTERS,
        ensures
            r@ == self.cells.dense_c@[column_index(x as int, q as int)]@,
    {
        cell(&self.cells.dense_c, q + QUARTERS * x)
    }

    /// Shifted part `i` of quarter `q` of column `x`.
    pub fn shifts_c(&self, i: usize, x: usize, q: usize) -> (r: V)
        requires
            self.cells.wf(),
            i < SHIFTS,
            x < DIM,
            q < QUARTERS,
        ensures
            r@ == self.cells.shifts_c@[column_shift_index(i as int, x as int, q as int)]@,
    {
        cell(&self.cells.shifts_c, q + QUARTERS * (x + DIM * i))
    }

    /// Remainder of quarter `q` of lane `(y, x)`.
    pub fn remainder_e(&self, y: usize, x: usize, q: usize) -> (r: V)
        requires
            self.cells.wf(),
            y < DIM,
            x < DIM,
            q < QUARTERS,
        ensures
            r@ == self.cells.remainder_e@[lane_index(y as int, x as int, q as int)]@,
    {
        cell(&self.cells.remainder_e, q + QUARTERS * (x + DIM * y))
    }

    /// Quotient of quarter `q` of lane `(y, x)`.
    pub fn quotient_e(&self, y: usize, x: usize, q: usize) -> (r: V)
        requires
            self.cells.wf(),
            y < DIM,
            x < DIM,
            q < QUARTERS,
        ensures
            r@ == self.cells.quotient_e@[lane_index(y as int, x as int, q as int)]@,
    {
        cell(&self.cells.quotient_e, q + QUARTERS * (x + DIM * y))
    }

    /// Rotated quarter `q` of lane `(y, x)`, dense.
    pub fn dense_rot_e(&self, y: usize, x: usize, q: usize) -> (r: V)
        requires
            self.cells.wf(),
            y < DIM,
            x < DIM,
            q < QUARTERS,
        ensures
            r@ == self.cells.dense_rot_e@[lane_index(y as int, x as int, q as int)]@,
    {
        cell(&self.cells.dense_rot_e, q + QUARTERS * (x + DIM * y))
    }

    /// Rotated quarter `q` of lane `(y, x)`, expanded.
    pub fn expand_rot_e(&self, y: usize, x: usize, q: usize) -> (r: V)
        requires
            self.cells.wf(),
            y < DIM,
            x < DIM,
            q < QUARTERS,
        ensures
            r@ == self.cells.expand_rot_e@[lane_index(y as int, x as int, q as int)]@,
    {
        cell(&self.cells.expand_rot_e, q + QUARTERS * (x + DIM * y))
    }

    /// Quarter `q` of lane `(y, x)`, dense.
    pub fn dense_e(&self, y: usize, x: usize, q: usize) -> (r: V)
        requires
            self.cells.wf(),
            y < DIM,
            x < DIM,
            q < QUARTERS,
        ensures
            r@ == self.cells.dense_e@[lane_index(y as int, x as int, q as int)]@,
    {
        cell(&self.cells.dense_e, q + QUARTERS * (x + DIM * y))
    }

    /// Shifted part `i` of quarter `q` of lane `(y, x)`.
    pub fn shifts_e(&self, i: usize, y: usize, x: usize, q: usize) -> (r: V)
        requires
            self.cells.wf(),
            i < SHIFTS,
            y < DIM,
            x < DIM,
            q < QUARTERS,
        ensures
            r@ == self.cells.shifts_e@[lane_shift_index(i as int, y as int, x as int, q as int)]@,
    {
        cell(&self.cells.shifts_e, q + QUARTERS * (x + DIM * (y + DIM * i)))
    }

    /// Shifted parts of the permuted lanes.
    pub fn vec_shifts_b(&self) -> (r: &Vec<V>)
        ensures
            r == self.cells.shifts_b,
    {
        &self.cells.shifts_b
    }

    /// Shifted parts of the sums of permuted lanes.
    pub fn vec_shifts_sum(&self) -> (r: &Vec<V>)
        ensures
            r == self.cells.shifts_sum,
    {
        &self.cells.shifts_sum
    }

    /// Number of the round.
    pub fn round(&self) -> (r: V)
        ensures
            r@ == self.cells.round@,
    {
        self.cells.round.duplicate()
    }

    /// Quarters of the constant of the round.
    pub fn round_constants(&self) -> (r: &Vec<V>)
        ensures
            r == self.cells.round_constants,
    {
        &self.cells.round_constants
    }
}

} // verus!
