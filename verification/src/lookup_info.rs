//! Which lookups the gates of a circuit ask for.

use vstd::prelude::*;

use crate::domain::{EvaluationDomains, Evaluations, FftField};
use crate::gate::{CircuitGate, CurrOrNext, GateType};
use crate::lookup::JointLookupSpec;
use std::collections::HashMap;

verus! {

/// A table that gates look values up in.
#[derive(Clone, Copy, Debug, PartialEq, Eq, Structural)]
pub struct GateLookupTable {
    /// The number by which lookups refer to the table.
    pub table_id: i32,
}

/// Whether the lookups of a circuit are joint: a challenge to combine the components of the
/// vectors with is drawn only for those.
#[derive(Clone, Copy, Debug, PartialEq, Eq, Structural)]
pub enum LookupsUsed {
    /// Only single values are looked up.
    Single,
    /// Vectors are looked up.
    Joint,
}

/// The number of a kind of gate together with a row: what the maps of lookups are keyed by.
pub open spec fn location(typ: GateType, row: CurrOrNext) -> u64 {
    (2 * typ.code() + row.offset()) as u64
}

/// The number of a kind of gate together with a row: what the maps of lookups are keyed by.
pub fn location_key(typ: GateType, row: CurrOrNext) -> (r: u64)
    ensures
        r == location(typ, row),
{
    2 * (typ.to_u8() as u64) + row.shift() as u64
}

/// A kind of gate together with a row has a number of its own.
pub proof fn lemma_location_injective(
    typ1: GateType,
    row1: CurrOrNext,
    typ2: GateType,
    row2: CurrOrNext,
)
    requires
        location(typ1, row1) == location(typ2, row2),
    ensures
        typ1 == typ2,
        row1 == row2,
{
}

/// The kind of gate and the row with the given number, if there are any.
pub fn location_of(key: u64) -> (r: Option<(GateType, CurrOrNext)>)
    ensures
        r is Some <==> key < 22,
        r matches Some(l) ==> location(l.0, l.1) == key,
{
    if key >= 22 {
        return None;
    }
    let row = if key % 2 == 0 {
        CurrOrNext::Curr
    } else {
        CurrOrNext::Next
    };
    match GateType::from_u8((key / 2) as u8) {
        Some(typ) => Some((typ, row)),
        None => None,
    }
}

/// What each kind of gate asks for on its own row and on the next.
#[derive(Debug)]
pub struct GatesLookupMaps {
    /// The kind of lookups, by its index.
    pub gate_selector_map: HashMap<u64, usize>,
    /// The table.
    pub gate_table_map: HashMap<u64, GateLookupTable>,
}

/// The lookups that the gates of a circuit may ask for.
#[derive(Clone)]
pub struct LookupInfo<F> {
    /// The kinds of lookups: each is the list of lookups that a row may be asked for.
    pub kinds: Vec<Vec<JointLookupSpec<F>>>,
    /// For a kind of gate and a row, as numbered by `location`, the kind of lookups asked for
    /// there, by its index in `kinds`.
    pub kinds_map: HashMap<u64, usize>,
    /// For a kind of gate and a row, as numbered by `location`, the table used there.
    pub kinds_tables: HashMap<u64, GateLookupTable>,
    /// The length of the longest of `kinds`.
    pub max_per_row: usize,
    /// The length of the longest vector that is looked up in one of `kinds`.
    pub max_joint_size: u32,
    /// No lookups.
    pub empty: Vec<JointLookupSpec<F>>,
}

/// `r` is the length of the longest of `kinds`, or zero if there is none.
pub open spec fn is_max_per_row<F>(kinds: Seq<Vec<JointLookupSpec<F>>>, r: int) -> bool {
    &&& forall|i: int| 0 <= i < kinds.len() ==> (#[trigger] kinds[i])@.len() <= r
    &&& (kinds.len() == 0 && r == 0) || exists|i: int|
        0 <= i < kinds.len() && (#[trigger] kinds[i])@.len() == r
}

/// The length of a vector that is looked up, as a number of thirty-two bits.
pub open spec fn joint_size<F>(kinds: Seq<Vec<JointLookupSpec<F>>>, i: int, j: int) -> u32 {
    kinds[i]@[j].entry@.len() as u32
}

/// `r` is the length of the longest vector that is looked up in one of `kinds`, or zero if there
/// is none.
pub open spec fn is_max_joint_size<F>(kinds: Seq<Vec<JointLookupSpec<F>>>, r: u32) -> bool {
    &&& forall|i: int, j: int|
        0 <= i < kinds.len() && 0 <= j < kinds[i]@.len() ==> #[trigger] joint_size(kinds, i, j) <= r
    &&& (r == 0) || exists|i: int, j: int|
        0 <= i < kinds.len() && 0 <= j < kinds[i]@.len() && #[trigger] joint_size(kinds, i, j) == r
}

/// The length of the longest of `kinds`.
pub fn max_lookups_per_row<F>(kinds: &[Vec<JointLookupSpec<F>>]) -> (r: usize)
    ensures
        is_max_per_row(kinds@, r as int),
{
    let mut acc: usize = 0;
    for i in 0..kinds.len()
        invariant
            is_max_per_row(kinds@.take(i as int), acc as int),
    {
        let n: usize = kinds[i].len();
        let ghost before = kinds@.take(i as int);
        let ghost after = kinds@.take(i + 1);
        assert(after[i as int] == kinds@[i as int]);
        assert(forall|j: int| 0 <= j < i ==> before[j] == #[trigger] after[j]);
        proof {
            if i > 0 && n < acc {
                let j = choose|j: int| 0 <= j < before.len() && (#[trigger] before[j])@.len() == acc;
                assert(after[j]@.len() == acc);
            }
        }
        if n >= acc {
            acc = n;
        }
    }
    assert(kinds@.take(kinds@.len() as int) =~= kinds@);
    acc
}

/// The length of the longest vector that is looked up in one of `kinds`.
fn max_joint_size<F>(kinds: &[Vec<JointLookupSpec<F>>]) -> (r: u32)
    ensures
        is_max_joint_size(kinds@, r),
{
    let mut acc: u32 = 0;
    for i in 0..kinds.len()
        invariant
            forall|a: int, b: int|
                0 <= a < i && 0 <= b < kinds@[a]@.len() ==> #[trigger] joint_size(kinds@, a, b)
                    <= acc,
            acc == 0 || exists|a: int, b: int|
                0 <= a < i && 0 <= b < kinds@[a]@.len() && #[trigger] joint_size(kinds@, a, b)
                    == acc,
    {
        let v = &kinds[i];
        for j in 0..v.len()
            invariant
                i < kinds@.len(),
                *v == kinds@[i as int],
                forall|a: int, b: int|
                    (0 <= a < i && 0 <= b < kinds@[a]@.len()) || (a == i && 0 <= b < j)
                        ==> #[trigger] joint_size(kinds@, a, b) <= acc,
                acc == 0 || exists|a: int, b: int|
                    ((0 <= a < i && 0 <= b < kinds@[a]@.len()) || (a == i && 0 <= b < j))
                        && #[trigger] joint_size(kinds@, a, b) == acc,
        {
            let n: u32 = #[verifier::truncate] (v[j].entry.len() as u32);
            assert(joint_size(kinds@, i as int, j as int) == n);
            if n > acc {
                acc = n;
            }
        }
    }
    acc
}

impl<F> LookupInfo<F> {
    /// The kind of lookups that a kind of gate asks for on a row, by its index.
    pub open spec fn selector(&self, typ: GateType, row: CurrOrNext) -> Option<usize> {
        if self.kinds_map@.contains_key(location(typ, row)) {
            Some(self.kinds_map@[location(typ, row)])
        } else {
            None
        }
    }

    /// The table that a kind of gate uses on a row.
    pub open spec fn table(&self, typ: GateType, row: CurrOrNext) -> Option<GateLookupTable> {
        if self.kinds_tables@.contains_key(location(typ, row)) {
            Some(self.kinds_tables@[location(typ, row)])
        } else {
            None
        }
    }

    /// The value kept for rows without lookups is empty.
    pub open spec fn wf(&self) -> bool {
        self.empty@.len() == 0
    }

    /// The maxima are those of `kinds`.
    pub open spec fn maxima_known(&self) -> bool {
        &&& is_max_per_row(self.kinds@, self.max_per_row as int)
        &&& is_max_joint_size(self.kinds@, self.max_joint_size)
    }

    /// What a kind of gate asks for are kinds of lookups that exist.
    pub open spec fn covers_gate(&self, typ: GateType) -> bool {
        &&& self.selector(typ, CurrOrNext::Curr) matches Some(v) ==> v < self.kinds@.len()
        &&& self.selector(typ, CurrOrNext::Next) matches Some(v) ==> v < self.kinds@.len()
    }

    /// What the gates ask for are kinds of lookups that exist.
    pub open spec fn covers(&self, gates: Seq<CircuitGate<F>>) -> bool {
        forall|i: int| 0 <= i < gates.len() ==> self.covers_gate((#[trigger] gates[i]).typ)
    }

    /// A kind of gate asks for lookups.
    pub open spec fn asks(&self, typ: GateType) -> bool {
        self.selector(typ, CurrOrNext::Curr) is Some || self.selector(typ, CurrOrNext::Next) is Some
    }

    /// A kind of gate asks for lookups, on a row, of a kind that is not empty.
    pub open spec fn asks_joint_on(&self, typ: GateType, row: CurrOrNext) -> bool {
        self.selector(typ, row) matches Some(v) && v < self.kinds@.len()
            && self.kinds@[v as int]@.len() > 0
    }

    /// A kind of gate asks for lookups of a kind that is not empty.
    pub open spec fn asks_joint(&self, typ: GateType) -> bool {
        self.asks_joint_on(typ, CurrOrNext::Curr) || self.asks_joint_on(typ, CurrOrNext::Next)
    }

    /// What the gates ask for are kinds of lookups that exist, as far as they are looked at in
    /// order until one asks for a kind that is not empty.
    pub open spec fn covers_until_joint(&self, gates: Seq<CircuitGate<F>>) -> bool {
        forall|i: int|
            0 <= i < gates.len() && (forall|j: int|
                0 <= j < i ==> !self.asks_joint((#[trigger] gates[j]).typ)) ==> {
                let typ = (#[trigger] gates[i]).typ;
                &&& self.selector(typ, CurrOrNext::Curr) matches Some(v) ==> v < self.kinds@.len()
                &&& !self.asks_joint_on(typ, CurrOrNext::Curr) ==> self.covers_gate(typ)
            }
    }

    /// What kind of lookups, if any, the gates use.
    pub open spec fn used(&self, gates: Seq<CircuitGate<F>>) -> Option<LookupsUsed> {
        if exists|i: int| 0 <= i < gates.len() && self.asks_joint((#[trigger] gates[i]).typ) {
            Some(LookupsUsed::Joint)
        } else if exists|i: int| 0 <= i < gates.len() && self.asks((#[trigger] gates[i]).typ) {
            Some(LookupsUsed::Single)
        } else {
            None
        }
    }

    /// The configuration with the given kinds of lookups, asked for as the maps say.
    pub fn create(kinds: Vec<Vec<JointLookupSpec<F>>>, maps: GatesLookupMaps) -> (r: Self)
        ensures
            r.wf(),
            r.kinds == kinds,
            r.kinds_map == maps.gate_selector_map,
            r.kinds_tables == maps.gate_table_map,
            r.maxima_known(),
    {
        let GatesLookupMaps { gate_selector_map: kinds_map, gate_table_map: kinds_tables } = maps;
        let max_per_row: usize = max_lookups_per_row(&kinds);
        LookupInfo {
            max_joint_size: max_joint_size(&kinds),
            kinds_map,
            kinds_tables,
            kinds,
            max_per_row,
            empty: Vec::new(),
        }
    }

    /// The kind of lookups that a kind of gate asks for on a row, by its index.
    fn selector_at(&self, typ: GateType, row: CurrOrNext) -> (r: Option<usize>)
        ensures
            r == self.selector(typ, row),
    {
        broadcast use vstd::std_specs::hash::group_hash_axioms;

        match self.kinds_map.get(&location_key(typ, row)) {
            Some(v) => Some(*v),
            None => None,
        }
    }

    /// The table that a kind of gate uses on a row.
    fn table_at(&self, typ: GateType, row: CurrOrNext) -> (r: Option<GateLookupTable>)
        ensures
            r == self.table(typ, row),
    {
        broadcast use vstd::std_specs::hash::group_hash_axioms;

        match self.kinds_tables.get(&location_key(typ, row)) {
            Some(t) => Some(*t),
            None => None,
        }
    }

    /// What kind of lookups, if any, the circuit uses.
    pub fn lookup_used(&self, gates: &[CircuitGate<F>]) -> (r: Option<LookupsUsed>)
        requires
            self.covers_until_joint(gates@),
        ensures
            r == self.used(gates@),
    {
        let mut lookups_used: Option<LookupsUsed> = None;
        for i in 0..gates.len()
            invariant
                self.covers_until_joint(gates@),
                forall|j: int| 0 <= j < i ==> !self.asks_joint((#[trigger] gates@[j]).typ),
                lookups_used == (if exists|j: int|
                    0 <= j < i && self.asks((#[trigger] gates@[j]).typ) {
                    Some(LookupsUsed::Single)
                } else {
                    None
                }),
        {
            let typ = gates[i].typ;
            assert(gates@[i as int].typ == typ);
            if let Some(v) = self.selector_at(typ, CurrOrNext::Curr) {
                if !self.kinds[v].is_empty() {
                    assert(self.asks_joint(gates@[i as int].typ));
                    return Some(LookupsUsed::Joint);
                } else {
                    assert(self.asks(gates@[i as int].typ));
                    lookups_used = Some(LookupsUsed::Single);
                }
            }
            if let Some(v) = self.selector_at(typ, CurrOrNext::Next) {
                if !self.kinds[v].is_empty() {
                    assert(self.asks_joint(gates@[i as int].typ));
                    return Some(LookupsUsed::Joint);
                } else {
                    assert(self.asks(gates@[i as int].typ));
                    lookups_used = Some(LookupsUsed::Single);
                }
            }
        }
        lookups_used
    }

    /// The lookups asked for on a row: what its gate asks for on its own row, or else what the one
    /// before it asks for on the next.
    pub open spec fn row_kind(&self, gates: Seq<CircuitGate<F>>, i: int) -> Option<usize> {
        if 0 <= i < gates.len() && self.selector(gates[i].typ, CurrOrNext::Curr) is Some {
            self.selector(gates[i].typ, CurrOrNext::Curr)
        } else if 0 < i <= gates.len() {
            self.selector(gates[i - 1].typ, CurrOrNext::Next)
        } else {
            None
        }
    }

    /// The lookups of the given kind; none without one.
    pub open spec fn kind_lookups(&self, kind: Option<usize>) -> Seq<JointLookupSpec<F>> {
        match kind {
            Some(v) => self.kinds@[v as int]@,
            None => Seq::empty(),
        }
    }

    /// The rows hold, for each row of the circuit and the one after the last, the lookups that are
    /// asked for there.
    pub open spec fn rows_given(
        &self,
        gates: Seq<CircuitGate<F>>,
        rows: Seq<&Vec<JointLookupSpec<F>>>,
    ) -> bool {
        &&& rows.len() == gates.len() + 1
        &&& forall|i: int|
            0 <= i < rows.len() ==> (#[trigger] rows[i])@ == self.kind_lookups(
                self.row_kind(gates, i),
            )
    }

    /// For each row of the circuit and the one after the last, the lookups that are asked for
    /// there.
    pub fn by_row<'a>(&'a self, gates: &[CircuitGate<F>]) -> (r: Vec<&'a Vec<JointLookupSpec<F>>>)
        requires
            self.wf(),
            self.covers(gates@),
            gates@.len() < usize::MAX,
        ensures
            self.rows_given(gates@, r@),
    {
        let mut kinds: Vec<&'a Vec<JointLookupSpec<F>>> = Vec::new();
        for i in 0..gates.len() + 1
            invariant
                self.wf(),
                gates@.len() < usize::MAX,
                kinds@.len() == i,
                forall|j: int| 0 <= j < i ==> (#[trigger] kinds@[j])@ == Seq::<JointLookupSpec<F>>::empty(),
        {
            kinds.push(&self.empty);
        }
        for i in 0..gates.len()
            invariant
                self.covers(gates@),
                gates@.len() < usize::MAX,
                kinds@.len() == gates@.len() + 1,
                forall|j: int|
                    0 <= j < kinds@.len() ==> (#[trigger] kinds@[j])@ == self.kind_lookups(
                        self.row_kind(gates@.take(i as int), j),
                    ),
        {
            let typ = gates[i].typ;
            assert(self.covers_gate(gates@[i as int].typ));
            if let Some(v) = self.selector_at(typ, CurrOrNext::Curr) {
                kinds.set(i, &self.kinds[v]);
            }
            if let Some(v) = self.selector_at(typ, CurrOrNext::Next) {
                kinds.set(i + 1, &self.kinds[v]);
            }
        }
        assert(gates@.take(gates@.len() as int) =~= gates@);
        kinds
    }

    /// The selector of kind `k` is on at row `i`: its gate asks for that kind on its own row, or the
    /// one before it on the next.
    pub open spec fn selector_on(&self, gates: Seq<CircuitGate<F>>, k: int, i: int) -> bool {
        ||| 0 <= i < gates.len() && self.selector(gates[i].typ, CurrOrNext::Curr) == Some(
            k as usize,
        )
        ||| 0 < i <= gates.len() && self.selector(gates[i - 1].typ, CurrOrNext::Next) == Some(
            k as usize,
        )
    }

    /// A table is used by one of the gates.
    pub open spec fn table_used(&self, gates: Seq<CircuitGate<F>>, t: GateLookupTable) -> bool {
        exists|i: int|
            0 <= i < gates.len() && {
                ||| self.table((#[trigger] gates[i]).typ, CurrOrNext::Curr) == Some(t)
                ||| self.table(gates[i].typ, CurrOrNext::Next) == Some(t)
            }
    }

    /// The gates on the first `n` rows.
    pub open spec fn placed(gates: Seq<CircuitGate<F>>, n: nat) -> Seq<CircuitGate<F>> {
        if gates.len() <= n {
            gates
        } else {
            gates.take(n as int)
        }
    }

    /// Every table that the gates use can be asked for.
    pub open spec fn tables_known<T, G: Fn(GateLookupTable) -> T>(
        &self,
        gates: Seq<CircuitGate<F>>,
        get_table: G,
    ) -> bool {
        forall|t: GateLookupTable| #[trigger]
            self.table_used(gates, t) ==> call_requires(get_table, (t,))
    }

    /// The tables that the gates use, each once, as `get_table` may give them.
    pub open spec fn tables_given<T, G: Fn(GateLookupTable) -> T>(
        &self,
        gates: Seq<CircuitGate<F>>,
        get_table: G,
        tables: Seq<T>,
    ) -> bool {
        exists|ids: Seq<GateLookupTable>|
            {
                &&& #[trigger] ids.no_duplicates()
                &&& forall|t: GateLookupTable| #[trigger]
                    ids.contains(t) <==> self.table_used(gates, t)
                &&& tables.len() == ids.len()
                &&& forall|i: int|
                    0 <= i < ids.len() ==> call_ensures(get_table, (ids[i],), #[trigger] tables[i])
            }
    }

    /// The tables that the gates use, each once.
    fn tables_of(&self, gates: &[CircuitGate<F>], n: usize) -> (r: Vec<GateLookupTable>)
        requires
            n <= gates@.len(),
        ensures
            r@.no_duplicates(),
            forall|t: GateLookupTable| #[trigger]
                r@.contains(t) <==> self.table_used(gates@.take(n as int), t),
    {
        let mut ids: Vec<GateLookupTable> = Vec::new();
        for i in 0..n
            invariant
                n <= gates@.len(),
                ids@.no_duplicates(),
                forall|t: GateLookupTable| #[trigger]
                    ids@.contains(t) <==> self.table_used(gates@.take(i as int), t),
        {
            let typ = gates[i].typ;
            let curr = self.table_at(typ, CurrOrNext::Curr);
            let next = self.table_at(typ, CurrOrNext::Next);
            let ghost before = ids@;
            if let Some(t) = curr {
                insert(&mut ids, t);
            }
            if let Some(t) = next {
                insert(&mut ids, t);
            }
            assert forall|t: GateLookupTable| #[trigger] ids@.contains(t) <==> self.table_used(
                gates@.take(i + 1),
                t,
            ) by {
                let earlier = gates@.take(i as int);
                let later = gates@.take(i + 1);
                assert(later[i as int] == gates@[i as int]);
                assert(forall|j: int| 0 <= j < i ==> later[j] == #[trigger] earlier[j]);
                assert(before.contains(t) <==> self.table_used(earlier, t));
            }
        }
        ids
    }
}

/// Adds a table that is not there yet.
fn insert(ids: &mut Vec<GateLookupTable>, t: GateLookupTable)
    requires
        old(ids)@.no_duplicates(),
    ensures
        final(ids)@.no_duplicates(),
        forall|u: GateLookupTable| #[trigger]
            final(ids)@.contains(u) <==> old(ids)@.contains(u) || u == t,
{
    for i in 0..ids.len()
        invariant
            ids@ == old(ids)@,
            old(ids)@.no_duplicates(),
            forall|j: int| 0 <= j < i ==> #[trigger] ids@[j] != t,
    {
        if ids[i] == t {
            assert(ids@.contains(t));
            return ;
        }
    }
    ids.push(t);
    proof {
        let before = old(ids)@;
        let after = ids@;
        assert(after == before.push(t));
        assert(after[before.len() as int] == t);
        assert forall|u: GateLookupTable| #[trigger] after.contains(u) <==> before.contains(u) || u
            == t by {
            if before.contains(u) {
                let j = choose|j: int| 0 <= j < before.len() && before[j] == u;
                assert(after[j] == u);
            }
        }
    }
}

impl<F: FftField> LookupInfo<F> {
    /// The values on the first `n` rows of the selector polynomial of kind `k`.
    pub open spec fn selector_column(
        &self,
        gates: Seq<CircuitGate<F>>,
        k: int,
        n: nat,
    ) -> Seq<F::V> {
        Seq::new(
            n,
            |i: int|
                if self.selector_on(gates, k, i) {
                    F::one_view()
                } else {
                    F::zero_view()
                },
        )
    }

    /// The values on the larger domain of the selector polynomials, one for each kind of lookups, of
    /// the gates that have a place in the domain of the rows.
    pub open spec fn selectors_given(
        &self,
        domain: &EvaluationDomains,
        gates: Seq<CircuitGate<F>>,
        selectors: Seq<Evaluations<F>>,
    ) -> bool {
        let n = domain.d1.size as nat;
        &&& selectors.len() == self.kinds@.len()
        &&& forall|k: int|
            0 <= k < selectors.len() ==> {
                &&& (#[trigger] selectors[k]).domain == domain.d8
                &&& selectors[k].evals@.len() == domain.d8.size
                &&& F::extends(
                    self.selector_column(Self::placed(gates, n), k, n),
                    crate::domain::views(selectors[k].evals@),
                )
            }
    }

    /// The values on the first `n` rows of the selector polynomials.
    fn selector_values(&self, gates: &[CircuitGate<F>], n: usize) -> (r: Vec<Vec<F>>)
        requires
            self.covers(Self::placed(gates@, n as nat)),
            n <= gates@.len() && n > 0 ==> self.selector(gates@[n - 1].typ, CurrOrNext::Next) is None,
        ensures
            r@.len() == self.kinds@.len(),
            forall|k: int|
                0 <= k < r@.len() ==> crate::domain::views((#[trigger] r@[k])@)
                    == self.selector_column(Self::placed(gates@, n as nat), k, n as nat),
    {
        let ghost placed = Self::placed(gates@, n as nat);
        let mut values: Vec<Vec<F>> = Vec::new();
        for k in 0..self.kinds.len()
            invariant
                values@.len() == k,
                forall|j: int|
                    0 <= j < k ==> crate::domain::views((#[trigger] values@[j])@)
                        == self.selector_column(placed.take(0), j, n as nat),
        {
            let mut column: Vec<F> = Vec::new();
            for i in 0..n
                invariant
                    column@.len() == i,
                    forall|j: int| 0 <= j < i ==> (#[trigger] column@[j])@ == F::zero_view(),
            {
                column.push(F::zero());
            }
            assert(crate::domain::views(column@) =~= self.selector_column(
                placed.take(0),
                k as int,
                n as nat,
            ));
            values.push(column);
        }
        let rows: usize = if gates.len() < n {
            gates.len()
        } else {
            n
        };
        for i in 0..rows
            invariant
                rows == placed.len(),
                rows <= n,
                rows <= gates@.len(),
                placed == gates@.take(rows as int),
                self.covers(placed),
                rows == n && n > 0 ==> self.selector(gates@[n - 1].typ, CurrOrNext::Next) is None,
                values@.len() == self.kinds@.len(),
                forall|k: int|
                    0 <= k < values@.len() ==> crate::domain::views((#[trigger] values@[k])@)
                        == self.selector_column(placed.take(i as int), k, n as nat),
        {
            let typ = gates[i].typ;
            assert(self.covers_gate(placed[i as int].typ));
            let ghost before = values@;
            let ghost earlier = placed.take(i as int);
            let ghost later = placed.take(i + 1);
            assert forall|k: int, j: int|
                0 <= k < values@.len() && 0 <= j < n implies (#[trigger] before[k]@[j])@ == (
            if self.selector_on(earlier, k, j) {
                F::one_view()
            } else {
                F::zero_view()
            }) && before[k]@.len() == n by {
                assert(crate::domain::views(before[k]@) == self.selector_column(
                    earlier,
                    k,
                    n as nat,
                ));
                assert(crate::domain::views(before[k]@)[j] == before[k]@[j]@);
            }
            if let Some(s) = self.selector_at(typ, CurrOrNext::Curr) {
                values[s][i] = F::one();
            }
            if let Some(s) = self.selector_at(typ, CurrOrNext::Next) {
                values[s][i + 1] = F::one();
            }
            assert forall|k: int| 0 <= k < values@.len() implies crate::domain::views(
                (#[trigger] values@[k])@,
            ) == self.selector_column(later, k, n as nat) by {
                assert(later[i as int] == gates@[i as int]);
                assert(forall|j: int| 0 <= j < i ==> later[j] == #[trigger] earlier[j]);
                assert(crate::domain::views(before[k]@) == self.selector_column(
                    earlier,
                    k,
                    n as nat,
                ));
                assert(k as usize == k) by {
                    assert(values.len() == values@.len());
                }
                assert forall|j: int| 0 <= j < n implies (#[trigger] values@[k]@[j])@ == (
                if self.selector_on(later, k, j) {
                    F::one_view()
                } else {
                    F::zero_view()
                }) by {
                    assert(before[k]@[j]@ == if self.selector_on(earlier, k, j) {
                        F::one_view()
                    } else {
                        F::zero_view()
                    });
                }
                assert(crate::domain::views(values@[k]@) =~= self.selector_column(
                    later,
                    k,
                    n as nat,
                ));
            }
        }
        assert(placed.take(rows as int) =~= placed);
        values
    }

    /// Each kind of lookups has a selector polynomial, which is one on the rows where lookups of
    /// that kind are asked for and zero on the other rows. This gives their values on the larger
    /// domain, and the tables that the gates use.
    pub fn selector_polynomials_and_tables<T, G: Fn(GateLookupTable) -> T>(
        &self,
        domain: &EvaluationDomains,
        gates: &[CircuitGate<F>],
        get_table: &G,
    ) -> (r: (Vec<Evaluations<F>>, Vec<T>))
        requires
            domain.wf::<F>(),
            self.covers(Self::placed(gates@, domain.d1.size as nat)),
            domain.d1.size <= gates@.len() && domain.d1.size > 0 ==> self.selector(
                gates@[domain.d1.size - 1].typ,
                CurrOrNext::Next,
            ) is None,
            self.tables_known(Self::placed(gates@, domain.d1.size as nat), *get_table),
        ensures
            self.selectors_given(domain, gates@, r.0@),
            self.tables_given(
                Self::placed(gates@, domain.d1.size as nat),
                *get_table,
                r.1@,
            ),
    {
        let n: usize = domain.d1.size as usize;
        let ghost placed = Self::placed(gates@, n as nat);
        let selector_values = self.selector_values(gates, n);
        let mut selector_values8: Vec<Evaluations<F>> = Vec::new();
        for k in 0..selector_values.len()
            invariant
                domain.wf::<F>(),
                n == domain.d1.size,
                selector_values@.len() == self.kinds@.len(),
                forall|j: int|
                    0 <= j < selector_values@.len() ==> crate::domain::views(
                        (#[trigger] selector_values@[j])@,
                    ) == self.selector_column(placed, j, n as nat),
                selector_values8@.len() == k,
                forall|j: int|
                    0 <= j < k ==> {
                        &&& (#[trigger] selector_values8@[j]).domain == domain.d8
                        &&& selector_values8@[j].evals@.len() == domain.d8.size
                        &&& F::extends(
                            self.selector_column(placed, j, n as nat),
                            crate::domain::views(selector_values8@[j].evals@),
                        )
                    },
        {
            assert(crate::domain::views(selector_values@[k as int]@).len() == n);
            let evals = F::extend(&selector_values[k], domain.d8.size as usize);
            selector_values8.push(Evaluations { evals, domain: domain.d8 });
        }
        let rows: usize = if gates.len() < n {
            gates.len()
        } else {
            n
        };
        assert(gates@.take(rows as int) =~= placed);
        let ids = self.tables_of(gates, rows);
        let mut res_tables: Vec<T> = Vec::new();
        for i in 0..ids.len()
            invariant
                self.tables_known(placed, *get_table),
                forall|t: GateLookupTable| #[trigger]
                    ids@.contains(t) <==> self.table_used(placed, t),
                res_tables@.len() == i,
                forall|j: int|
                    0 <= j < i ==> call_ensures(
                        *get_table,
                        (ids@[j],),
                        #[trigger] res_tables@[j],
                    ),
        {
            assert(ids@.contains(ids@[i as int]));
            res_tables.push(get_table(ids[i]));
        }
        assert(ids@.no_duplicates());
        (selector_values8, res_tables)
    }
}

} // verus!
