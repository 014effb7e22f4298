//! What the lookups of a row amount to: how many they are, how wide, and which cells they cover.

use vstd::arithmetic::div_mod::*;
use vstd::arithmetic::power2::*;
use vstd::prelude::*;

use crate::field::{ArithOps, Fp};
use crate::keccak::environment::{KeccakCells, KeccakEnv};
use crate::keccak::lookup::{LookupMode, LookupModel, LookupTable};

verus! {

/// The number of values in an entry of the table.
pub open spec fn table_width(table: LookupTable) -> nat {
    match table {
        LookupTable::PadLookup => 7,
        LookupTable::RoundConstantsLookup => 2,
        LookupTable::ByteLookup => 1,
        LookupTable::RangeCheck16Lookup => 1,
        LookupTable::SparseLookup => 1,
        LookupTable::ResetLookup => 2,
    }
}

/// A row requests the same number of lookups whatever its cells hold: 601 for the sponge and 1624
/// for the round.
pub proof fn lemma_request_count<V: ArithOps>(cells: &KeccakCells<V>, rw: LookupMode)
    ensures
        cells.sponge_requests(rw).len() == 601,
        cells.round_requests(rw).len() == 1624,
        cells.requests(rw).len() == 2225,
{
}

/// Every request of a row is on the side asked for, is as wide as the entries of its table, and
/// counts once, or once if the row is a sponge step, or once if the row is a round.
pub proof fn lemma_request_shape<V: ArithOps>(cells: &KeccakCells<V>, rw: LookupMode, i: int)
    requires
        0 <= i < cells.requests(rw).len(),
    ensures
        cells.requests(rw)[i].mode == rw,
        cells.requests(rw)[i].value.len() == table_width(cells.requests(rw)[i].table_id),
        cells.requests(rw)[i].table_id is ByteLookup ==> cells.requests(rw)[i].magnitude
            == cells.is_sponge@,
        cells.requests(rw)[i].table_id is RangeCheck16Lookup ==> cells.requests(rw)[i].magnitude
            == cells.is_round@,
        cells.requests(rw)[i].table_id is ResetLookup ==> cells.requests(rw)[i].magnitude
            == if i < 601 {
            cells.is_sponge@
        } else {
            cells.is_round@
        },
        cells.requests(rw)[i].table_id is PadLookup ==> cells.requests(rw)[i].magnitude
            == V::one_view(),
        cells.requests(rw)[i].table_id is SparseLookup ==> cells.requests(rw)[i].magnitude
            == V::one_view(),
        cells.requests(rw)[i].table_id is RoundConstantsLookup ==> cells.requests(rw)[i].magnitude
            == V::one_view(),
{
    let r = cells.requests(rw)[i];
    if i < 1 {
        assert(r == cells.padding_requests(rw)[i]);
    } else if i < 201 {
        assert(r == cells.byte_requests(rw)[i - 1]);
    } else if i < 501 {
        assert(r == cells.sponge_sparse_requests(rw)[i - 201]);
    } else if i < 601 {
        assert(r == cells.sponge_reset_requests(rw)[i - 501]);
    } else if i < 721 {
        assert(r == cells.theta_requests(rw)[i - 601]);
    } else if i < 1421 {
        assert(r == cells.pi_rho_requests(rw)[i - 721]);
    } else if i < 2221 {
        assert(r == cells.chi_requests(rw)[i - 1421]);
    } else {
        assert(r == cells.iota_requests(rw)[i - 2221]);
    }
}

/// The padding is looked up: its length with two to the power of the length and the suffix.
pub proof fn lemma_padding_is_covered<V: ArithOps>(cells: &KeccakCells<V>, rw: LookupMode)
    ensures
        cells.requests(rw).contains(cells.padding_requests(rw)[0]),
        cells.requests(rw).contains(
            (LookupModel {
                mode: rw,
                magnitude: V::one_view(),
                table_id: LookupTable::PadLookup,
                value: seq![
                    cells.length@,
                    cells.two_to_pad@,
                    cells.pad_suffix@[0]@,
                    cells.pad_suffix@[1]@,
                    cells.pad_suffix@[2]@,
                    cells.pad_suffix@[3]@,
                    cells.pad_suffix@[4]@,
                ],
            }),
        ),
{
    assert(cells.requests(rw)[0] == cells.padding_requests(rw)[0]);
}

/// Every byte of the sponge is looked up among the bytes.
pub proof fn lemma_byte_is_covered<V: ArithOps>(cells: &KeccakCells<V>, rw: LookupMode, i: int)
    requires
        0 <= i < 200,
    ensures
        cells.requests(rw).contains(
            crate::keccak::lookups::request(
                rw,
                cells.is_sponge@,
                LookupTable::ByteLookup,
                seq![cells.sponge_bytes@[i]@],
            ),
        ),
{
    assert(cells.requests(rw)[1 + i] == cells.byte_requests(rw)[i]);
}

/// Every shifted part of the sponge is looked up: the first of each quarter as the expansion of
/// the quarter, the others among the expansions.
pub proof fn lemma_sponge_shift_is_covered<V: ArithOps>(
    cells: &KeccakCells<V>,
    rw: LookupMode,
    i: int,
)
    requires
        0 <= i < 400,
    ensures
        i < 100 ==> cells.requests(rw).contains(
            crate::keccak::lookups::request(
                rw,
                cells.is_sponge@,
                LookupTable::ResetLookup,
                seq![cells.sponge_dense(i), cells.sponge_shifts@[i]@],
            ),
        ),
        i >= 100 ==> cells.requests(rw).contains(cells.sparse(rw, cells.sponge_shifts@[i]@)),
{
    if i < 100 {
        assert(cells.requests(rw)[501 + i] == cells.sponge_reset_requests(rw)[i]);
    } else {
        assert(cells.requests(rw)[201 + (i - 100)] == cells.sponge_sparse_requests(rw)[i - 100]);
    }
}

/// In the field, a quarter of the sponge that is put together from two bytes is the number of
/// sixteen bits with those bytes, least significant first.
pub proof fn lemma_sponge_dense_value(cells: &KeccakCells<Fp>, i: int)
    requires
        cells.sponge_bytes@[2 * i]@ < 256,
        cells.sponge_bytes@[2 * i + 1]@ < 256,
    ensures
        cells.sponge_dense(i) == cells.sponge_bytes@[2 * i]@ + 256 * cells.sponge_bytes@[2 * i
            + 1]@,
        cells.sponge_dense(i) < 0x1_0000,
{
    let lo = cells.sponge_bytes@[2 * i]@;
    let hi = cells.sponge_bytes@[2 * i + 1]@;
    let p = crate::field::modulus();
    lemma2_to64();
    lemma_small_mod(256, p);
    lemma_small_mod(hi * 256, p);
    lemma_small_mod(lo + hi * 256, p);
}

/// Every request of the theta step is one of the requests of the row.
proof fn lemma_theta_request<V: ArithOps>(
    cells: &KeccakCells<V>,
    rw: LookupMode,
    q: int,
    x: int,
    j: int,
)
    requires
        0 <= q < 4,
        0 <= x < 5,
        0 <= j < 6,
    ensures
        cells.requests(rw).contains(cells.theta_request(rw, q, x, j)),
{
    let k = 30 * q + 6 * x + j;
    crate::keccak::lookups::lemma_theta_index(q, x, j);
    assert(cells.requests(rw)[601 + k] == cells.theta_requests(rw)[k]);
}

/// Every request of the pi and rho steps is one of the requests of the row.
proof fn lemma_pi_rho_request<V: ArithOps>(
    cells: &KeccakCells<V>,
    rw: LookupMode,
    q: int,
    x: int,
    y: int,
    j: int,
)
    requires
        0 <= q < 4,
        0 <= x < 5,
        0 <= y < 5,
        0 <= j < 7,
    ensures
        cells.requests(rw).contains(cells.pi_rho_request(rw, q, x, y, j)),
{
    let k = 175 * q + 35 * x + 7 * y + j;
    crate::keccak::lookups::lemma_pi_rho_index(q, x, y, j);
    assert(cells.requests(rw)[721 + k] == cells.pi_rho_requests(rw)[k]);
}

/// All cells of quarter `q` of column `x` are looked up: the remainder among the numbers of
/// sixteen bits, the two expansions beside what they expand, and the other shifted parts among the
/// expansions.
pub proof fn lemma_column_is_covered<V: ArithOps>(
    cells: &KeccakCells<V>,
    rw: LookupMode,
    x: int,
    q: int,
)
    requires
        0 <= x < 5,
        0 <= q < 4,
    ensures
        ({
            let k = crate::keccak::environment::column_index(x, q);
            let all = cells.requests(rw);
            &&& all.contains(cells.round_rc16(rw, cells.remainder_c@[k]@))
            &&& all.contains(
                cells.round_reset(rw, cells.dense_rot_c@[k]@, cells.expand_rot_c@[k]@),
            )
            &&& all.contains(
                cells.round_reset(
                    rw,
                    cells.dense_c@[k]@,
                    cells.shifts_c@[crate::keccak::environment::column_shift_index(0, x, q)]@,
                ),
            )
            &&& forall|i: int|
                1 <= i < 4 ==> all.contains(
                    cells.sparse(
                        rw,
                        cells.shifts_c@[
                            #[trigger] crate::keccak::environment::column_shift_index(i, x, q)
                        ]@,
                    ),
                )
        }),
{
    let all = cells.requests(rw);
    lemma_theta_request(cells, rw, q, x, 0);
    lemma_theta_request(cells, rw, q, x, 1);
    lemma_theta_request(cells, rw, q, x, 2);
    assert forall|i: int| 1 <= i < 4 implies all.contains(
        cells.sparse(
            rw,
            cells.shifts_c@[#[trigger] crate::keccak::environment::column_shift_index(i, x, q)]@,
        ),
    ) by {
        lemma_theta_request(cells, rw, q, x, i + 2);
    }
}

/// All cells of quarter `q` of the lane in row `y` and column `x` are looked up: remainder and
/// quotient among the numbers of sixteen bits, the two expansions beside what they expand, and the
/// other shifted parts among the expansions.
pub proof fn lemma_lane_is_covered<V: ArithOps>(
    cells: &KeccakCells<V>,
    rw: LookupMode,
    y: int,
    x: int,
    q: int,
)
    requires
        0 <= y < 5,
        0 <= x < 5,
        0 <= q < 4,
    ensures
        ({
            let k = crate::keccak::environment::lane_index(y, x, q);
            let all = cells.requests(rw);
            &&& all.contains(cells.round_rc16(rw, cells.remainder_e@[k]@))
            &&& all.contains(cells.round_rc16(rw, cells.quotient_e@[k]@))
            &&& all.contains(
                cells.round_reset(rw, cells.dense_rot_e@[k]@, cells.expand_rot_e@[k]@),
            )
            &&& all.contains(
                cells.round_reset(
                    rw,
                    cells.dense_e@[k]@,
                    cells.shifts_e@[crate::keccak::environment::lane_shift_index(0, y, x, q)]@,
                ),
            )
            &&& forall|i: int|
                1 <= i < 4 ==> all.contains(
                    cells.sparse(
                        rw,
                        cells.shifts_e@[
                            #[trigger] crate::keccak::environment::lane_shift_index(i, y, x, q)
                        ]@,
                    ),
                )
        }),
{
    let all = cells.requests(rw);
    lemma_pi_rho_request(cells, rw, q, x, y, 0);
    lemma_pi_rho_request(cells, rw, q, x, y, 1);
    lemma_pi_rho_request(cells, rw, q, x, y, 2);
    lemma_pi_rho_request(cells, rw, q, x, y, 3);
    assert forall|i: int| 1 <= i < 4 implies all.contains(
        cells.sparse(
            rw,
            cells.shifts_e@[#[trigger] crate::keccak::environment::lane_shift_index(i, y, x, q)]@,
        ),
    ) by {
        lemma_pi_rho_request(cells, rw, q, x, y, i + 3);
    }
}

/// Every shifted part of the permuted lanes and of their sums is looked up among the expansions.
pub proof fn lemma_chi_shift_is_covered<V: ArithOps>(
    cells: &KeccakCells<V>,
    rw: LookupMode,
    i: int,
)
    requires
        0 <= i < 400,
    ensures
        cells.requests(rw).contains(cells.sparse(rw, cells.shifts_b@[i]@)),
        cells.requests(rw).contains(cells.sparse(rw, cells.shifts_sum@[i]@)),
{
    let chi = cells.chi_requests(rw);
    assert((2 * i) / 2 == i && (2 * i + 1) / 2 == i);
    assert(chi[2 * i] == cells.sparse(rw, cells.shifts_b@[i]@));
    assert(chi[2 * i + 1] == cells.sparse(rw, cells.shifts_sum@[i]@));
    assert(cells.requests(rw)[1421 + 2 * i] == chi[2 * i]);
    assert(cells.requests(rw)[1421 + (2 * i + 1)] == chi[2 * i + 1]);
}

/// Every quarter of the round constant is looked up with the number of the round.
pub proof fn lemma_round_constant_is_covered<V: ArithOps>(
    cells: &KeccakCells<V>,
    rw: LookupMode,
    i: int,
)
    requires
        0 <= i < 4,
    ensures
        cells.requests(rw).contains(
            crate::keccak::lookups::request(
                rw,
                V::one_view(),
                LookupTable::RoundConstantsLookup,
                seq![cells.round@, cells.round_constants@[i]@],
            ),
        ),
{
    assert(cells.requests(rw)[2221 + i] == cells.iota_requests(rw)[i]);
}

/// What has grown are the requests alone: the cells are the same, the earlier requests are in their
/// places, and each new one, in order behind them, has the side, count, table and values asked for.
pub proof fn lemma_grown_by_parts<V: ArithOps>(
    before: &KeccakEnv<V>,
    after: &KeccakEnv<V>,
    by: Seq<LookupModel<V::V>>,
    i: int,
)
    requires
        after.grown(before, by),
    ensures
        after.cells == before.cells,
        after.lookups@.len() == before.lookups@.len() + by.len(),
        0 <= i < before.lookups@.len() ==> after.lookups@[i] == before.lookups@[i],
        0 <= i < by.len() ==> {
            let l = after.lookups@[before.lookups@.len() + i];
            &&& l.mode == by[i].mode
            &&& l.magnitude@ == by[i].magnitude
            &&& l.table_id == by[i].table_id
            &&& l.value@.len() == by[i].value.len()
            &&& forall|j: int|
                0 <= j < l.value@.len() ==> (#[trigger] l.value@[j])@ == by[i].value[j]
        },
{
    assert(after.requested().len() == after.lookups@.len());
    if 0 <= i < by.len() {
        let k = before.lookups@.len() + i;
        let l = after.lookups@[k];
        assert(after.requested()[k] == by[i]);
        assert(l@ == by[i]);
        assert forall|j: int| 0 <= j < l.value@.len() implies (#[trigger] l.value@[j])@
            == by[i].value[j] by {
            assert(l@.value[j] == l.value@[j]@);
        }
    }
}

/// The first request of a row is for the padding: its length, two to the power of the length, and
/// the five parts of the suffix.
pub proof fn lemma_padding_request<V: ArithOps>(cells: &KeccakCells<V>, rw: LookupMode)
    ensures
        cells.requests(rw)[0] == (LookupModel {
            mode: rw,
            magnitude: V::one_view(),
            table_id: LookupTable::PadLookup,
            value: seq![
                cells.length@,
                cells.two_to_pad@,
                cells.pad_suffix@[0]@,
                cells.pad_suffix@[1]@,
                cells.pad_suffix@[2]@,
                cells.pad_suffix@[3]@,
                cells.pad_suffix@[4]@,
            ],
        }),
{
}

/// The next requests of a row are for the bytes of the sponge, in order.
pub proof fn lemma_byte_request<V: ArithOps>(
    cells: &KeccakCells<V>,
    rw: LookupMode,
    i: int,
)
    requires
        0 <= i < 200,
    ensures
        cells.requests(rw)[1 + i] == (LookupModel {
            mode: rw,
            magnitude: cells.is_sponge@,
            table_id: LookupTable::ByteLookup,
            value: seq![cells.sponge_bytes@[i]@],
        }),
{
    assert(cells.requests(rw)[1 + i] == cells.byte_requests(rw)[i]);
}

/// The next requests of a row are for the shifted parts of the sponge from the hundredth on, in
/// order, among the expansions.
pub proof fn lemma_sponge_sparse_request<V: ArithOps>(
    cells: &KeccakCells<V>,
    rw: LookupMode,
    i: int,
)
    requires
        100 <= i < 400,
    ensures
        cells.requests(rw)[101 + i] == (LookupModel {
            mode: rw,
            magnitude: V::one_view(),
            table_id: LookupTable::SparseLookup,
            value: seq![cells.sponge_shifts@[i]@],
        }),
{
    assert(cells.requests(rw)[101 + i] == cells.sponge_sparse_requests(rw)[i - 100]);
}

/// The last requests for the sponge are for the first hundred shifted parts, in order, as the
/// expansions of the quarters put together from two bytes each.
pub proof fn lemma_sponge_reset_request<V: ArithOps>(
    cells: &KeccakCells<V>,
    rw: LookupMode,
    i: int,
)
    requires
        0 <= i < 100,
    ensures
        cells.requests(rw)[501 + i] == (LookupModel {
            mode: rw,
            magnitude: cells.is_sponge@,
            table_id: LookupTable::ResetLookup,
            value: seq![
                V::add_view(
                    cells.sponge_bytes@[2 * i]@,
                    V::mul_view(cells.sponge_bytes@[2 * i + 1]@, V::two_pow_view(8)),
                ),
                cells.sponge_shifts@[i]@,
            ],
        }),
{
    assert(cells.requests(rw)[501 + i] == cells.sponge_reset_requests(rw)[i]);
}

/// The six requests for quarter `q` of column `x` stand together, by quarters and then by columns:
/// the remainder, the rotated sum with its expansion, the sum with its first shifted part, and the
/// other three shifted parts.
#[verifier::spinoff_prover]
#[verifier::rlimit(50)]
pub proof fn lemma_column_requests<V: ArithOps>(
    cells: &KeccakCells<V>,
    rw: LookupMode,
    q: int,
    x: int,
)
    requires
        0 <= q < 4,
        0 <= x < 5,
    ensures
        cells.requests(rw)[601 + 30 * q + 6 * x] == (LookupModel {
            mode: rw,
            magnitude: cells.is_round@,
            table_id: LookupTable::RangeCheck16Lookup,
            value: seq![cells.remainder_c@[4 * x + q]@],
        }),
        cells.requests(rw)[602 + 30 * q + 6 * x] == (LookupModel {
            mode: rw,
            magnitude: cells.is_round@,
            table_id: LookupTable::ResetLookup,
            value: seq![cells.dense_rot_c@[4 * x + q]@, cells.expand_rot_c@[4 * x + q]@],
        }),
        cells.requests(rw)[603 + 30 * q + 6 * x] == (LookupModel {
            mode: rw,
            magnitude: cells.is_round@,
            table_id: LookupTable::ResetLookup,
            value: seq![cells.dense_c@[4 * x + q]@, cells.shifts_c@[4 * x + q]@],
        }),
        cells.requests(rw)[604 + 30 * q + 6 * x] == (LookupModel {
            mode: rw,
            magnitude: V::one_view(),
            table_id: LookupTable::SparseLookup,
            value: seq![cells.shifts_c@[20 + 4 * x + q]@],
        }),
        cells.requests(rw)[605 + 30 * q + 6 * x] == (LookupModel {
            mode: rw,
            magnitude: V::one_view(),
            table_id: LookupTable::SparseLookup,
            value: seq![cells.shifts_c@[40 + 4 * x + q]@],
        }),
        cells.requests(rw)[606 + 30 * q + 6 * x] == (LookupModel {
            mode: rw,
            magnitude: V::one_view(),
            table_id: LookupTable::SparseLookup,
            value: seq![cells.shifts_c@[60 + 4 * x + q]@],
        }),
{
    lemma_column_requests_values(cells, rw, q, x);
    lemma_theta_place(cells, rw, q, x, 0);
    lemma_theta_place(cells, rw, q, x, 1);
    lemma_theta_place(cells, rw, q, x, 2);
    lemma_theta_place(cells, rw, q, x, 3);
    lemma_theta_place(cells, rw, q, x, 4);
    lemma_theta_place(cells, rw, q, x, 5);
}

/// What the six requests for quarter `q` of column `x` are.
proof fn lemma_column_requests_values<V: ArithOps>(
    cells: &KeccakCells<V>,
    rw: LookupMode,
    q: int,
    x: int,
)
    requires
        0 <= q < 4,
        0 <= x < 5,
    ensures
        cells.theta_request(rw, q, x, 0) == (LookupModel {
            mode: rw,
            magnitude: cells.is_round@,
            table_id: LookupTable::RangeCheck16Lookup,
            value: seq![cells.remainder_c@[4 * x + q]@],
        }),
        cells.theta_request(rw, q, x, 1) == (LookupModel {
            mode: rw,
            magnitude: cells.is_round@,
            table_id: LookupTable::ResetLookup,
            value: seq![cells.dense_rot_c@[4 * x + q]@, cells.expand_rot_c@[4 * x + q]@],
        }),
        cells.theta_request(rw, q, x, 2) == (LookupModel {
            mode: rw,
            magnitude: cells.is_round@,
            table_id: LookupTable::ResetLookup,
            value: seq![cells.dense_c@[4 * x + q]@, cells.shifts_c@[4 * x + q]@],
        }),
        cells.theta_request(rw, q, x, 3) == (LookupModel {
            mode: rw,
            magnitude: V::one_view(),
            table_id: LookupTable::SparseLookup,
            value: seq![cells.shifts_c@[20 + 4 * x + q]@],
        }),
        cells.theta_request(rw, q, x, 4) == (LookupModel {
            mode: rw,
            magnitude: V::one_view(),
            table_id: LookupTable::SparseLookup,
            value: seq![cells.shifts_c@[40 + 4 * x + q]@],
        }),
        cells.theta_request(rw, q, x, 5) == (LookupModel {
            mode: rw,
            magnitude: V::one_view(),
            table_id: LookupTable::SparseLookup,
            value: seq![cells.shifts_c@[60 + 4 * x + q]@],
        }),
{
}

/// The place of a request of the theta step among those of the row.
proof fn lemma_theta_place<V: ArithOps>(
    cells: &KeccakCells<V>,
    rw: LookupMode,
    q: int,
    x: int,
    j: int,
)
    requires
        0 <= q < 4,
        0 <= x < 5,
        0 <= j < 6,
    ensures
        cells.requests(rw)[601 + 30 * q + 6 * x + j] == cells.theta_request(rw, q, x, j),
{
    let k = 30 * q + 6 * x + j;
    crate::keccak::lookups::lemma_theta_index(q, x, j);
    assert(cells.requests(rw)[601 + k] == cells.theta_requests(rw)[k]);
}

/// The seven requests for quarter `q` of the lane in row `y` and column `x` stand together, by
/// quarters, then by columns, then by rows: the remainder, the quotient, the rotated lane with its
/// expansion, the lane with its first shifted part, and the other three shifted parts.
#[verifier::spinoff_prover]
#[verifier::rlimit(50)]
pub proof fn lemma_lane_requests<V: ArithOps>(
    cells: &KeccakCells<V>,
    rw: LookupMode,
    q: int,
    x: int,
    y: int,
)
    requires
        0 <= q < 4,
        0 <= x < 5,
        0 <= y < 5,
    ensures
        cells.requests(rw)[721 + 175 * q + 35 * x + 7 * y] == (LookupModel {
            mode: rw,
            magnitude: cells.is_round@,
            table_id: LookupTable::RangeCheck16Lookup,
            value: seq![cells.remainder_e@[20 * y + 4 * x + q]@],
        }),
        cells.requests(rw)[722 + 175 * q + 35 * x + 7 * y] == (LookupModel {
            mode: rw,
            magnitude: cells.is_round@,
            table_id: LookupTable::RangeCheck16Lookup,
            value: seq![cells.quotient_e@[20 * y + 4 * x + q]@],
        }),
        cells.requests(rw)[723 + 175 * q + 35 * x + 7 * y] == (LookupModel {
            mode: rw,
            magnitude: cells.is_round@,
            table_id: LookupTable::ResetLookup,
            value: seq![
                cells.dense_rot_e@[20 * y + 4 * x + q]@,
                cells.expand_rot_e@[20 * y + 4 * x + q]@,
            ],
        }),
        cells.requests(rw)[724 + 175 * q + 35 * x + 7 * y] == (LookupModel {
            mode: rw,
            magnitude: cells.is_round@,
            table_id: LookupTable::ResetLookup,
            value: seq![
                cells.dense_e@[20 * y + 4 * x + q]@,
                cells.shifts_e@[20 * y + 4 * x + q]@,
            ],
        }),
        cells.requests(rw)[725 + 175 * q + 35 * x + 7 * y] == (LookupModel {
            mode: rw,
            magnitude: V::one_view(),
            table_id: LookupTable::SparseLookup,
            value: seq![cells.shifts_e@[100 + 20 * y + 4 * x + q]@],
        }),
        cells.requests(rw)[726 + 175 * q + 35 * x + 7 * y] == (LookupModel {
            mode: rw,
            magnitude: V::one_view(),
            table_id: LookupTable::SparseLookup,
            value: seq![cells.shifts_e@[200 + 20 * y + 4 * x + q]@],
        }),
        cells.requests(rw)[727 + 175 * q + 35 * x + 7 * y] == (LookupModel {
            mode: rw,
            magnitude: V::one_view(),
            table_id: LookupTable::SparseLookup,
            value: seq![cells.shifts_e@[300 + 20 * y + 4 * x + q]@],
        }),
{
    lemma_lane_requests_values(cells, rw, q, x, y);
    lemma_pi_rho_place(cells, rw, q, x, y, 0);
    lemma_pi_rho_place(cells, rw, q, x, y, 1);
    lemma_pi_rho_place(cells, rw, q, x, y, 2);
    lemma_pi_rho_place(cells, rw, q, x, y, 3);
    lemma_pi_rho_place(cells, rw, q, x, y, 4);
    lemma_pi_rho_place(cells, rw, q, x, y, 5);
    lemma_pi_rho_place(cells, rw, q, x, y, 6);
}

/// What the seven requests for quarter `q` of the lane in row `y` and column `x` are.
proof fn lemma_lane_requests_values<V: ArithOps>(
    cells: &KeccakCells<V>,
    rw: LookupMode,
    q: int,
    x: int,
    y: int,
)
    requires
        0 <= q < 4,
        0 <= x < 5,
        0 <= y < 5,
    ensures
        cells.pi_rho_request(rw, q, x, y, 0) == (LookupModel {
            mode: rw,
            magnitude: cells.is_round@,
            table_id: LookupTable::RangeCheck16Lookup,
            value: seq![cells.remainder_e@[20 * y + 4 * x + q]@],
        }),
        cells.pi_rho_request(rw, q, x, y, 1) == (LookupModel {
            mode: rw,
            magnitude: cells.is_round@,
            table_id: LookupTable::RangeCheck16Lookup,
            value: seq![cells.quotient_e@[20 * y + 4 * x + q]@],
        }),
        cells.pi_rho_request(rw, q, x, y, 2) == (LookupModel {
            mode: rw,
            magnitude: cells.is_round@,
            table_id: LookupTable::ResetLookup,
            value: seq![
                cells.dense_rot_e@[20 * y + 4 * x + q]@,
                cells.expand_rot_e@[20 * y + 4 * x + q]@,
            ],
        }),
        cells.pi_rho_request(rw, q, x, y, 3) == (LookupModel {
            mode: rw,
            magnitude: cells.is_round@,
            table_id: LookupTable::ResetLookup,
            value: seq![
                cells.dense_e@[20 * y + 4 * x + q]@,
                cells.shifts_e@[20 * y + 4 * x + q]@,
            ],
        }),
        cells.pi_rho_request(rw, q, x, y, 4) == (LookupModel {
            mode: rw,
            magnitude: V::one_view(),
            table_id: LookupTable::SparseLookup,
            value: seq![cells.shifts_e@[100 + 20 * y + 4 * x + q]@],
        }),
        cells.pi_rho_request(rw, q, x, y, 5) == (LookupModel {
            mode: rw,
            magnitude: V::one_view(),
            table_id: LookupTable::SparseLookup,
            value: seq![cells.shifts_e@[200 + 20 * y + 4 * x + q]@],
        }),
        cells.pi_rho_request(rw, q, x, y, 6) == (LookupModel {
            mode: rw,
            magnitude: V::one_view(),
            table_id: LookupTable::SparseLookup,
            value: seq![cells.shifts_e@[300 + 20 * y + 4 * x + q]@],
        }),
{
}

/// The place of a request of the pi and rho steps among those of the row.
proof fn lemma_pi_rho_place<V: ArithOps>(
    cells: &KeccakCells<V>,
    rw: LookupMode,
    q: int,
    x: int,
    y: int,
    j: int,
)
    requires
        0 <= q < 4,
        0 <= x < 5,
        0 <= y < 5,
        0 <= j < 7,
    ensures
        cells.requests(rw)[721 + 175 * q + 35 * x + 7 * y + j] == cells.pi_rho_request(
            rw,
            q,
            x,
            y,
            j,
        ),
{
    let k = 175 * q + 35 * x + 7 * y + j;
    crate::keccak::lookups::lemma_pi_rho_index(q, x, y, j);
    assert(cells.requests(rw)[721 + k] == cells.pi_rho_requests(rw)[k]);
}

/// The next requests of a row are for the shifted parts of the permuted lanes and of their sums, by
/// turns and in order, among the expansions.
pub proof fn lemma_chi_requests<V: ArithOps>(
    cells: &KeccakCells<V>,
    rw: LookupMode,
    i: int,
)
    requires
        0 <= i < 400,
    ensures
        cells.requests(rw)[1421 + 2 * i] == (LookupModel {
            mode: rw,
            magnitude: V::one_view(),
            table_id: LookupTable::SparseLookup,
            value: seq![cells.shifts_b@[i]@],
        }),
        cells.requests(rw)[1422 + 2 * i] == (LookupModel {
            mode: rw,
            magnitude: V::one_view(),
            table_id: LookupTable::SparseLookup,
            value: seq![cells.shifts_sum@[i]@],
        }),
{
    let chi = cells.chi_requests(rw);
    assert((2 * i) / 2 == i && (2 * i + 1) / 2 == i);
    assert(cells.requests(rw)[1421 + 2 * i] == chi[2 * i]);
    assert(cells.requests(rw)[1421 + (2 * i + 1)] == chi[2 * i + 1]);
}

/// The last requests of a row are for the quarters of the round constant, in order, each with the
/// number of the round.
pub proof fn lemma_iota_request<V: ArithOps>(
    cells: &KeccakCells<V>,
    rw: LookupMode,
    i: int,
)
    requires
        0 <= i < 4,
    ensures
        cells.requests(rw)[2221 + i] == (LookupModel {
            mode: rw,
            magnitude: V::one_view(),
            table_id: LookupTable::RoundConstantsLookup,
            value: seq![cells.round@, cells.round_constants@[i]@],
        }),
{
    assert(cells.requests(rw)[2221 + i] == cells.iota_requests(rw)[i]);
}

} // verus!
