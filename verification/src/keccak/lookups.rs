//! The lookups that a row of the Keccak circuit requests.

use vstd::prelude::*;

use crate::field::ArithOps;
use crate::keccak::constants::{DIM, QUARTERS, SHIFTS, SHIFTS_LEN, STATE_BYTES, STATE_LEN};
use crate::keccak::environment::{KeccakCells, KeccakEnv};
use crate::keccak::lookup::{Lookup, LookupMode, LookupModel, LookupTable};

verus! {

/// A request to find `value` in a table, counted `magnitude` times.
pub open spec fn request<T>(
    rw: LookupMode,
    magnitude: T,
    table_id: LookupTable,
    value: Seq<T>,
) -> LookupModel<T> {
    LookupModel { mode: rw, magnitude, table_id, value }
}

impl<V: ArithOps> KeccakCells<V> {
    /// The value is looked up among the numbers of sixteen bits if the row is a round.
    pub open spec fn round_rc16(&self, rw: LookupMode, value: V::V) -> LookupModel<V::V> {
        request(rw, self.is_round@, LookupTable::RangeCheck16Lookup, seq![value])
    }

    /// The second value is looked up as the expansion of the first if the row is a round.
    pub open spec fn round_reset(&self, rw: LookupMode, dense: V::V, sparse: V::V) -> LookupModel<
        V::V,
    > {
        request(rw, self.is_round@, LookupTable::ResetLookup, seq![dense, sparse])
    }

    /// The value is looked up among the expansions.
    pub open spec fn sparse(&self, rw: LookupMode, value: V::V) -> LookupModel<V::V> {
        request(rw, V::one_view(), LookupTable::SparseLookup, seq![value])
    }

    /// The padding: its length, two to the power of the length, and the suffix.
    pub open spec fn padding_requests(&self, rw: LookupMode) -> Seq<LookupModel<V::V>> {
        seq![
            request(
                rw,
                V::one_view(),
                LookupTable::PadLookup,
                seq![
                    self.length@,
                    self.two_to_pad@,
                    self.pad_suffix@[0]@,
                    self.pad_suffix@[1]@,
                    self.pad_suffix@[2]@,
                    self.pad_suffix@[3]@,
                    self.pad_suffix@[4]@,
                ],
            ),
        ]
    }

    /// The bytes of the sponge: each is a byte.
    pub open spec fn byte_requests(&self, rw: LookupMode) -> Seq<LookupModel<V::V>> {
        Seq::new(
            200,
            |i: int|
                request(
                    rw,
                    self.is_sponge@,
                    LookupTable::ByteLookup,
                    seq![self.sponge_bytes@[i]@],
                ),
        )
    }

    /// The shifted parts of the sponge but the first of each quarter: each is an expansion.
    pub open spec fn sponge_sparse_requests(&self, rw: LookupMode) -> Seq<LookupModel<V::V>> {
        Seq::new(300, |i: int| self.sparse(rw, self.sponge_shifts@[100 + i]@))
    }

    /// Quarter `i` of the sponge, put together from two bytes.
    pub open spec fn sponge_dense(&self, i: int) -> V::V {
        V::add_view(
            self.sponge_bytes@[2 * i]@,
            V::mul_view(self.sponge_bytes@[2 * i + 1]@, V::two_pow_view(8)),
        )
    }

    /// The first shifted part of each quarter of the sponge: each is the expansion of the quarter.
    pub open spec fn sponge_reset_requests(&self, rw: LookupMode) -> Seq<LookupModel<V::V>> {
        Seq::new(
            100,
            |i: int|
                request(
                    rw,
                    self.is_sponge@,
                    LookupTable::ResetLookup,
                    seq![self.sponge_dense(i), self.sponge_shifts@[i]@],
                ),
        )
    }

    /// Everything that is looked up for a sponge step.
    pub open spec fn sponge_requests(&self, rw: LookupMode) -> Seq<LookupModel<V::V>> {
        self.padding_requests(rw) + self.byte_requests(rw) + self.sponge_sparse_requests(rw)
            + self.sponge_reset_requests(rw)
    }

    /// Request `j` of the six for quarter `q` of column `x`.
    pub open spec fn theta_request(&self, rw: LookupMode, q: int, x: int, j: int) -> LookupModel<
        V::V,
    > {
        let k = crate::keccak::environment::column_index(x, q);
        if j == 0 {
            self.round_rc16(rw, self.remainder_c@[k]@)
        } else if j == 1 {
            self.round_reset(rw, self.dense_rot_c@[k]@, self.expand_rot_c@[k]@)
        } else if j == 2 {
            let s = crate::keccak::environment::column_shift_index(0, x, q);
            self.round_reset(rw, self.dense_c@[k]@, self.shifts_c@[s]@)
        } else {
            let s = crate::keccak::environment::column_shift_index(j - 2, x, q);
            self.sparse(rw, self.shifts_c@[s]@)
        }
    }

    /// Everything that is looked up for the theta step.
    pub open spec fn theta_requests(&self, rw: LookupMode) -> Seq<LookupModel<V::V>> {
        Seq::new(120, |k: int| self.theta_request(rw, k / 30, (k / 6) % 5, k % 6))
    }

    /// Request `j` of the seven for quarter `q` of the lane in row `y` and column `x`.
    pub open spec fn pi_rho_request(
        &self,
        rw: LookupMode,
        q: int,
        x: int,
        y: int,
        j: int,
    ) -> LookupModel<V::V> {
        let k = crate::keccak::environment::lane_index(y, x, q);
        if j == 0 {
            self.round_rc16(rw, self.remainder_e@[k]@)
        } else if j == 1 {
            self.round_rc16(rw, self.quotient_e@[k]@)
        } else if j == 2 {
            self.round_reset(rw, self.dense_rot_e@[k]@, self.expand_rot_e@[k]@)
        } else if j == 3 {
            let s = crate::keccak::environment::lane_shift_index(0, y, x, q);
            self.round_reset(rw, self.dense_e@[k]@, self.shifts_e@[s]@)
        } else {
            let s = crate::keccak::environment::lane_shift_index(j - 3, y, x, q);
            self.sparse(rw, self.shifts_e@[s]@)
        }
    }

    /// Everything that is looked up for the pi and rho steps.
    pub open spec fn pi_rho_requests(&self, rw: LookupMode) -> Seq<LookupModel<V::V>> {
        Seq::new(
            700,
            |k: int| self.pi_rho_request(rw, k / 175, (k / 35) % 5, (k / 7) % 5, k % 7),
        )
    }

    /// Everything that is looked up for the chi step.
    pub open spec fn chi_requests(&self, rw: LookupMode) -> Seq<LookupModel<V::V>> {
        Seq::new(
            800,
            |k: int|
                if k % 2 == 0 {
                    self.sparse(rw, self.shifts_b@[k / 2]@)
                } else {
                    self.sparse(rw, self.shifts_sum@[k / 2]@)
                },
        )
    }

    /// Everything that is looked up for the iota step.
    pub open spec fn iota_requests(&self, rw: LookupMode) -> Seq<LookupModel<V::V>> {
        Seq::new(
            4,
            |i: int|
                request(
                    rw,
                    V::one_view(),
                    LookupTable::RoundConstantsLookup,
                    seq![self.round@, self.round_constants@[i]@],
                ),
        )
    }

    /// Everything that is looked up for a round.
    pub open spec fn round_requests(&self, rw: LookupMode) -> Seq<LookupModel<V::V>> {
        self.theta_requests(rw) + self.pi_rho_requests(rw) + self.chi_requests(rw)
            + self.iota_requests(rw)
    }

    /// Everything that is looked up for a row, in order.
    pub open spec fn requests(&self, rw: LookupMode) -> Seq<LookupModel<V::V>> {
        self.sponge_requests(rw) + self.round_requests(rw)
    }
}

/// Taking one more element of a sequence.
proof fn lemma_take_one_more<T>(base: Seq<T>, s: Seq<T>, k: int)
    requires
        0 <= k < s.len(),
    ensures
        base + s.take(k) + seq![s[k]] == base + s.take(k + 1),
{
    assert(base + s.take(k) + seq![s[k]] =~= base + s.take(k + 1));
}

/// The index of a request of the theta step gives its quarter, column and number.
pub proof fn lemma_theta_index(q: int, x: int, j: int)
    requires
        0 <= q < 4,
        0 <= x < 5,
        0 <= j < 6,
    ensures
        0 <= 30 * q + 6 * x + j < 120,
        (30 * q + 6 * x + j) / 30 == q,
        ((30 * q + 6 * x + j) / 6) % 5 == x,
        (30 * q + 6 * x + j) % 6 == j,
{
    let k = 30 * q + 6 * x + j;
    assert(k / 6 == 5 * q + x);
}

/// The index of a request of the pi and rho steps gives its quarter, lane and number.
pub proof fn lemma_pi_rho_index(q: int, x: int, y: int, j: int)
    requires
        0 <= q < 4,
        0 <= x < 5,
        0 <= y < 5,
        0 <= j < 7,
    ensures
        0 <= 175 * q + 35 * x + 7 * y + j < 700,
        (175 * q + 35 * x + 7 * y + j) / 175 == q,
        ((175 * q + 35 * x + 7 * y + j) / 35) % 5 == x,
        ((175 * q + 35 * x + 7 * y + j) / 7) % 5 == y,
        (175 * q + 35 * x + 7 * y + j) % 7 == j,
{
    let k = 175 * q + 35 * x + 7 * y + j;
    assert(k / 35 == 5 * q + x);
    assert(k / 7 == 25 * q + 5 * x + y);
}

/// The place of a request of the theta step.
proof fn lemma_theta_step<V: ArithOps>(
    cells: &KeccakCells<V>,
    rw: LookupMode,
    base: Seq<LookupModel<V::V>>,
    q: int,
    x: int,
    j: int,
)
    requires
        0 <= q < 4,
        0 <= x < 5,
        0 <= j < 6,
    ensures
        base + cells.theta_requests(rw).take(30 * q + 6 * x + j) + seq![
            cells.theta_request(rw, q, x, j),
        ] == base + cells.theta_requests(rw).take(30 * q + 6 * x + j + 1),
{
    let k = 30 * q + 6 * x + j;
    lemma_theta_index(q, x, j);
    lemma_take_one_more(base, cells.theta_requests(rw), k);
}

/// The place of a request of the pi and rho steps.
proof fn lemma_pi_rho_step<V: ArithOps>(
    cells: &KeccakCells<V>,
    rw: LookupMode,
    base: Seq<LookupModel<V::V>>,
    q: int,
    x: int,
    y: int,
    j: int,
)
    requires
        0 <= q < 4,
        0 <= x < 5,
        0 <= y < 5,
        0 <= j < 7,
    ensures
        base + cells.pi_rho_requests(rw).take(175 * q + 35 * x + 7 * y + j) + seq![
            cells.pi_rho_request(rw, q, x, y, j),
        ] == base + cells.pi_rho_requests(rw).take(175 * q + 35 * x + 7 * y + j + 1),
{
    let k = 175 * q + 35 * x + 7 * y + j;
    lemma_pi_rho_index(q, x, y, j);
    lemma_take_one_more(base, cells.pi_rho_requests(rw), k);
}

impl<V: ArithOps> KeccakEnv<V> {
    /// What the requests made so far stand for.
    pub open spec fn requested(&self) -> Seq<LookupModel<V::V>> {
        crate::domain::views(self.lookups@)
    }

    /// The requests made before are still there, in their places.
    pub open spec fn kept(&self, before: &Self) -> bool {
        &&& before.lookups@.len() <= self.lookups@.len()
        &&& forall|i: int|
            0 <= i < before.lookups@.len() ==> #[trigger] self.lookups@[i] == before.lookups@[i]
    }

    /// Only the requests have grown, by the given ones behind the earlier ones.
    pub open spec fn grown(&self, before: &Self, by: Seq<LookupModel<V::V>>) -> bool {
        &&& self.cells == before.cells
        &&& self.kept(before)
        &&& self.requested() == before.requested() + by
    }

    /// The last request holds these very values.
    pub open spec fn ends_with(
        &self,
        rw: LookupMode,
        magnitude: V,
        table_id: LookupTable,
        value: Seq<V>,
    ) -> bool {
        &&& self.lookups@.len() > 0
        &&& self.lookups@.last().mode == rw
        &&& self.lookups@.last().magnitude == magnitude
        &&& self.lookups@.last().table_id == table_id
        &&& self.lookups@.last().value@ == value
    }

    /// Adds a request.
    pub fn add_lookup(&mut self, lookup: Lookup<V>)
        ensures
            final(self).cells == old(self).cells,
            final(self).lookups@ == old(self).lookups@.push(lookup),
            final(self).grown(old(self), seq![lookup@]),
    {
        self.lookups.push(lookup);
        assert(self.requested() =~= old(self).requested() + seq![lookup@]);
    }

    /// Requests that the value be a number of sixteen bits.
    pub fn lookup_rc16(&mut self, rw: LookupMode, flag: V, value: V)
        ensures
            final(self).grown(
                old(self),
                seq![request(rw, flag@, LookupTable::RangeCheck16Lookup, seq![value@])],
            ),
            final(self).lookups@.len() == old(self).lookups@.len() + 1,
            final(self).ends_with(rw, flag, LookupTable::RangeCheck16Lookup, seq![value]),
            final(self).lookups@.drop_last() == old(self).lookups@,
            final(self).lookups@.last().mode == rw,
            final(self).lookups@.last().magnitude == flag,
            final(self).lookups@.last().table_id == LookupTable::RangeCheck16Lookup,
            final(self).lookups@.last().value@ == seq![value],
    {
        let lookup = Lookup {
            mode: rw,
            magnitude: flag,
            table_id: LookupTable::RangeCheck16Lookup,
            value: vec![value],
        };
        assert(lookup.value@ =~= seq![value]);
        assert(lookup@.value =~= seq![value@]);
        self.add_lookup(lookup);
    }

    /// Requests that the second value be the expansion of the first.
    pub fn lookup_reset(&mut self, rw: LookupMode, flag: V, dense: V, sparse: V)
        ensures
            final(self).grown(
                old(self),
                seq![request(rw, flag@, LookupTable::ResetLookup, seq![dense@, sparse@])],
            ),
            final(self).lookups@.len() == old(self).lookups@.len() + 1,
            final(self).ends_with(rw, flag, LookupTable::ResetLookup, seq![dense, sparse]),
            final(self).lookups@.drop_last() == old(self).lookups@,
            final(self).lookups@.last().mode == rw,
            final(self).lookups@.last().magnitude == flag,
            final(self).lookups@.last().table_id == LookupTable::ResetLookup,
            final(self).lookups@.last().value@ == seq![dense, sparse],
    {
        let lookup = Lookup {
            mode: rw,
            magnitude: flag,
            table_id: LookupTable::ResetLookup,
            value: vec![dense, sparse],
        };
        assert(lookup.value@ =~= seq![dense, sparse]);
        assert(lookup@.value =~= seq![dense@, sparse@]);
        self.add_lookup(lookup);
    }

    /// Requests that the value be a byte.
    pub fn lookup_byte(&mut self, rw: LookupMode, flag: V, value: V)
        ensures
            final(self).grown(
                old(self),
                seq![request(rw, flag@, LookupTable::ByteLookup, seq![value@])],
            ),
            final(self).lookups@.len() == old(self).lookups@.len() + 1,
            final(self).ends_with(rw, flag, LookupTable::ByteLookup, seq![value]),
            final(self).lookups@.drop_last() == old(self).lookups@,
            final(self).lookups@.last().mode == rw,
            final(self).lookups@.last().magnitude == flag,
            final(self).lookups@.last().table_id == LookupTable::ByteLookup,
            final(self).lookups@.last().value@ == seq![value],
    {
        let lookup = Lookup {
            mode: rw,
            magnitude: flag,
            table_id: LookupTable::ByteLookup,
            value: vec![value],
        };
        assert(lookup.value@ =~= seq![value]);
        assert(lookup@.value =~= seq![value@]);
        self.add_lookup(lookup);
    }

    /// Requests that the value be an expansion.
    fn lookup_sparse(&mut self, rw: LookupMode, value: V)
        ensures
            final(self).grown(
                old(self),
                seq![request(rw, V::one_view(), LookupTable::SparseLookup, seq![value@])],
            ),
    {
        let lookup = Lookup::new(rw, LookupTable::SparseLookup, vec![value]);
        assert(lookup@.value =~= seq![value@]);
        self.add_lookup(lookup);
    }

    /// Requests what a sponge step needs.
    fn sponge_lookups(&mut self, rw: LookupMode)
        requires
            old(self).cells.wf(),
        ensures
            final(self).grown(old(self), old(self).cells.sponge_requests(rw)),
    {
        let ghost base = self.requested();
        let ghost cells = self.cells;
        let ghost padding = cells.padding_requests(rw);
        let ghost bytes = cells.byte_requests(rw);
        let ghost sparse = cells.sponge_sparse_requests(rw);
        let ghost reset = cells.sponge_reset_requests(rw);
        let lookup = Lookup::new(
            rw,
            LookupTable::PadLookup,
            vec![
                self.length(),
                self.two_to_pad(),
                self.pad_suffix(0),
                self.pad_suffix(1),
                self.pad_suffix(2),
                self.pad_suffix(3),
                self.pad_suffix(4),
            ],
        );
        assert(lookup@.value =~= padding[0].value);
        self.add_lookup(lookup);
        assert(self.requested() =~= base + padding + bytes.take(0));
        for i in 0..STATE_BYTES
            invariant
                self.cells == cells,
                self.kept(old(self)),
                cells.wf(),
                bytes == cells.byte_requests(rw),
                self.requested() == base + padding + bytes.take(i as int),
        {
            let flag = self.is_sponge();
            let value = self.sponge_bytes(i);
            self.lookup_byte(rw, flag, value);
            assert(self.requested() =~= base + padding + bytes.take(i + 1));
        }
        assert(self.requested() =~= base + padding + bytes + sparse.take(0));
        for i in 100..SHIFTS_LEN
            invariant
                self.cells == cells,
                self.kept(old(self)),
                cells.wf(),
                sparse == cells.sponge_sparse_requests(rw),
                self.requested() == base + padding + bytes + sparse.take(i - 100),
        {
            let value = self.sponge_shifts(i);
            self.lookup_sparse(rw, value);
            assert(self.requested() =~= base + padding + bytes + sparse.take(i + 1 - 100));
        }
        assert(self.requested() =~= base + padding + bytes + sparse + reset.take(0));
        for i in 0..STATE_LEN
            invariant
                self.cells == cells,
                self.kept(old(self)),
                cells.wf(),
                reset == cells.sponge_reset_requests(rw),
                self.requested() == base + padding + bytes + sparse + reset.take(i as int),
        {
            let dense = self.sponge_bytes(2 * i).plus(
                self.sponge_bytes(2 * i + 1).times(V::two_pow(8)),
            );
            let flag = self.is_sponge();
            let shifts = self.sponge_shifts(i);
            self.lookup_reset(rw, flag, dense, shifts);
            assert(self.requested() =~= base + padding + bytes + sparse + reset.take(i + 1));
        }
        assert(self.requested() =~= base + (padding + bytes + sparse + reset));
    }

    /// Requests what the theta step needs.
    fn theta_lookups(&mut self, rw: LookupMode)
        requires
            old(self).cells.wf(),
        ensures
            final(self).grown(old(self), old(self).cells.theta_requests(rw)),
    {
        let ghost base = self.requested();
        let ghost cells = self.cells;
        let ghost theta = cells.theta_requests(rw);
        assert(self.requested() =~= base + theta.take(0));
        for q in 0..QUARTERS
            invariant
                self.cells == cells,
                self.kept(old(self)),
                cells.wf(),
                theta == cells.theta_requests(rw),
                self.requested() == base + theta.take(30 * q),
        {
            for x in 0..DIM
                invariant
                    q < QUARTERS,
                    self.cells == cells,
                    self.kept(old(self)),
                    cells.wf(),
                    theta == cells.theta_requests(rw),
                    self.requested() == base + theta.take(30 * q + 6 * x),
            {
                let ghost k = 30 * q + 6 * x;
                let flag = self.is_round();
                let remainder = self.remainder_c(x, q);
                self.lookup_rc16(rw, flag, remainder);
                proof {
                    lemma_theta_step(&cells, rw, base, q as int, x as int, 0);
                }
                let flag = self.is_round();
                let dense = self.dense_rot_c(x, q);
                let expand = self.expand_rot_c(x, q);
                self.lookup_reset(rw, flag, dense, expand);
                proof {
                    lemma_theta_step(&cells, rw, base, q as int, x as int, 1);
                }
                let flag = self.is_round();
                let dense = self.dense_c(x, q);
                let shift = self.shifts_c(0, x, q);
                self.lookup_reset(rw, flag, dense, shift);
                proof {
                    lemma_theta_step(&cells, rw, base, q as int, x as int, 2);
                }
                for i in 1..SHIFTS
                    invariant
                        q < QUARTERS,
                        x < DIM,
                        self.cells == cells,
                        self.kept(old(self)),
                        cells.wf(),
                        theta == cells.theta_requests(rw),
                        k == 30 * q + 6 * x,
                        self.requested() == base + theta.take(k + 2 + i),
                {
                    let shift = self.shifts_c(i, x, q);
                    self.lookup_sparse(rw, shift);
                    proof {
                        lemma_theta_step(&cells, rw, base, q as int, x as int, 2 + i);
                    }
                }
            }
        }
        assert(theta.take(120) =~= theta);
    }

    /// Requests what the pi and rho steps need.
    fn pi_rho_lookups(&mut self, rw: LookupMode)
        requires
            old(self).cells.wf(),
        ensures
            final(self).grown(old(self), old(self).cells.pi_rho_requests(rw)),
    {
        let ghost base = self.requested();
        let ghost cells = self.cells;
        let ghost pi_rho = cells.pi_rho_requests(rw);
        assert(self.requested() =~= base + pi_rho.take(0));
        for q in 0..QUARTERS
            invariant
                self.cells == cells,
                self.kept(old(self)),
                cells.wf(),
                pi_rho == cells.pi_rho_requests(rw),
                self.requested() == base + pi_rho.take(175 * q),
        {
            for x in 0..DIM
                invariant
                    q < QUARTERS,
                    self.cells == cells,
                    self.kept(old(self)),
                    cells.wf(),
                    pi_rho == cells.pi_rho_requests(rw),
                    self.requested() == base + pi_rho.take(175 * q + 35 * x),
            {
                for y in 0..DIM
                    invariant
                        q < QUARTERS,
                        x < DIM,
                        self.cells == cells,
                        self.kept(old(self)),
                        cells.wf(),
                        pi_rho == cells.pi_rho_requests(rw),
                        self.requested() == base + pi_rho.take(175 * q + 35 * x + 7 * y),
                {
                    let ghost k = 175 * q + 35 * x + 7 * y;
                    let flag = self.is_round();
                    let remainder = self.remainder_e(y, x, q);
                    self.lookup_rc16(rw, flag, remainder);
                    proof {
                        lemma_pi_rho_step(&cells, rw, base, q as int, x as int, y as int, 0);
                    }
                    let flag = self.is_round();
                    let quotient = self.quotient_e(y, x, q);
                    self.lookup_rc16(rw, flag, quotient);
                    proof {
                        lemma_pi_rho_step(&cells, rw, base, q as int, x as int, y as int, 1);
                    }
                    let flag = self.is_round();
                    let dense = self.dense_rot_e(y, x, q);
                    let expand = self.expand_rot_e(y, x, q);
                    self.lookup_reset(rw, flag, dense, expand);
                    proof {
                        lemma_pi_rho_step(&cells, rw, base, q as int, x as int, y as int, 2);
                    }
                    let flag = self.is_round();
                    let dense = self.dense_e(y, x, q);
                    let shift = self.shifts_e(0, y, x, q);
                    self.lookup_reset(rw, flag, dense, shift);
                    proof {
                        lemma_pi_rho_step(&cells, rw, base, q as int, x as int, y as int, 3);
                    }
                    for i in 1..SHIFTS
                        invariant
                            q < QUARTERS,
                            x < DIM,
                            y < DIM,
                            self.cells == cells,
                            self.kept(old(self)),
                            cells.wf(),
                            pi_rho == cells.pi_rho_requests(rw),
                            k == 175 * q + 35 * x + 7 * y,
                            self.requested() == base + pi_rho.take(k + 3 + i),
                    {
                        let shift = self.shifts_e(i, y, x, q);
                        self.lookup_sparse(rw, shift);
                        proof {
                            lemma_pi_rho_step(&cells, rw, base, q as int, x as int, y as int, 3 + i);
                        }
                    }
                }
            }
        }
        assert(pi_rho.take(700) =~= pi_rho);
    }

    /// Requests what the chi and iota steps need.
    fn chi_iota_lookups(&mut self, rw: LookupMode)
        requires
            old(self).cells.wf(),
        ensures
            final(self).grown(
                old(self),
                old(self).cells.chi_requests(rw) + old(self).cells.iota_requests(rw),
            ),
    {
        let ghost base = self.requested();
        let ghost cells = self.cells;
        let ghost chi = cells.chi_requests(rw);
        let ghost iota = cells.iota_requests(rw);
        assert(self.requested() =~= base + chi.take(0));
        for i in 0..SHIFTS_LEN
            invariant
                self.cells == cells,
                self.kept(old(self)),
                cells.wf(),
                chi == cells.chi_requests(rw),
                self.requested() == base + chi.take(2 * i),
        {
            let shift = self.vec_shifts_b()[i].duplicate();
            self.lookup_sparse(rw, shift);
            assert(self.requested() =~= base + chi.take(2 * i + 1));
            let shift = self.vec_shifts_sum()[i].duplicate();
            self.lookup_sparse(rw, shift);
            assert(self.requested() =~= base + chi.take(2 * i + 2));
        }
        assert(self.requested() =~= base + chi + iota.take(0));
        for i in 0..QUARTERS
            invariant
                self.cells == cells,
                self.kept(old(self)),
                cells.wf(),
                iota == cells.iota_requests(rw),
                self.requested() == base + chi + iota.take(i as int),
        {
            let lookup = Lookup::new(
                rw,
                LookupTable::RoundConstantsLookup,
                vec![self.round(), self.round_constants()[i].duplicate()],
            );
            assert(lookup@.value =~= iota[i as int].value);
            self.add_lookup(lookup);
            assert(self.requested() =~= base + chi + iota.take(i + 1));
        }
        assert(self.requested() =~= base + (chi + iota));
    }

    /// Requests everything that is looked up for the row: first what a sponge step needs, then
    /// what a round needs. The flags of the row decide which of the requests count.
    pub fn lookups(&mut self, rw: LookupMode)
        requires
            old(self).cells.wf(),
        ensures
            final(self).grown(old(self), old(self).cells.requests(rw)),
    {
        let ghost base = self.requested();
        let ghost cells = self.cells;
        self.sponge_lookups(rw);
        self.theta_lookups(rw);
        self.pi_rho_lookups(rw);
        self.chi_iota_lookups(rw);
        assert(self.requested() =~= base + cells.requests(rw));
    }
}

} // verus!
