//! How the answers that a lookup configuration gives about a circuit fit together, and what
//! combinations of cells amount to in the field.

use vstd::arithmetic::div_mod::*;
use vstd::arithmetic::mul::*;
use vstd::arithmetic::power::*;
use vstd::prelude::*;
use vstd::seq_lib::*;

use crate::domain::{EvaluationDomains, Evaluations, FftField};
use crate::field::{Fp, One, Scale, Zero};
use crate::gate::{CircuitGate, CurrOrNext, LocalPosition};
use crate::lookup::{JointLookup, JointLookupSpec, SingleLookup};
use crate::lookup_info::{GateLookupTable, GatesLookupMaps, LookupInfo, LookupsUsed};

verus! {

/// A configuration in which every kind of lookups that is asked for exists fits every circuit.
pub proof fn lemma_covers_all<F>(info: &LookupInfo<F>, gates: Seq<CircuitGate<F>>)
    requires
        forall|key: u64| #[trigger]
            info.kinds_map@.contains_key(key) ==> info.kinds_map@[key] < info.kinds@.len(),
    ensures
        info.covers(gates),
        info.covers_until_joint(gates),
{
}

/// The lookups asked for on a row are of a kind whose selector is on at that row.
pub proof fn lemma_row_kind_is_selected<F>(
    info: &LookupInfo<F>,
    gates: Seq<CircuitGate<F>>,
    i: int,
)
    requires
        info.row_kind(gates, i) is Some,
    ensures
        info.selector_on(gates, info.row_kind(gates, i)->0 as int, i),
{
}

/// Where the selector of one kind only is on at a row, that kind is what the row is asked for.
pub proof fn lemma_only_selected_is_row_kind<F>(
    info: &LookupInfo<F>,
    gates: Seq<CircuitGate<F>>,
    k: usize,
    i: int,
)
    requires
        info.selector_on(gates, k as int, i),
        forall|other: usize| #[trigger]
            info.selector_on(gates, other as int, i) ==> other == k,
    ensures
        info.row_kind(gates, i) == Some(k),
{
    lemma_row_kind_is_selected(info, gates, i);
}

/// A circuit uses no lookups if and only if every selector is off at every row.
pub proof fn lemma_unused_means_unselected<F>(info: &LookupInfo<F>, gates: Seq<CircuitGate<F>>)
    ensures
        info.used(gates) is None <==> forall|k: usize, i: int| !#[trigger]
            info.selector_on(gates, k as int, i),
{
    if info.used(gates) is Some {
        let i = choose|i: int|
            0 <= i < gates.len() && (info.asks((#[trigger] gates[i]).typ) || info.asks_joint(
                gates[i].typ,
            ));
        match info.selector(gates[i].typ, CurrOrNext::Curr) {
            Some(k) => {
                assert(info.selector_on(gates, k as int, i));
            },
            None => {
                let k = info.selector(gates[i].typ, CurrOrNext::Next)->0;
                assert(info.selector_on(gates, k as int, i + 1));
            },
        }
    } else {
        assert forall|k: usize, i: int| !#[trigger] info.selector_on(gates, k as int, i) by {
            if 0 <= i < gates.len() {
                assert(!info.asks(gates[i].typ));
            }
            if 0 < i <= gates.len() {
                assert(!info.asks(gates[i - 1].typ));
            }
        }
    }
}

/// A circuit uses joint lookups if and only if the selector of a kind that is not empty is on at
/// some row.
pub proof fn lemma_joint_means_selected<F>(info: &LookupInfo<F>, gates: Seq<CircuitGate<F>>)
    ensures
        info.used(gates) == Some(LookupsUsed::Joint) <==> exists|k: usize, i: int| #[trigger]
            info.selector_on(gates, k as int, i) && k < info.kinds@.len()
                && info.kinds@[k as int]@.len() > 0,
{
    if info.used(gates) == Some(LookupsUsed::Joint) {
        let i = choose|i: int| 0 <= i < gates.len() && info.asks_joint((#[trigger] gates[i]).typ);
        if info.asks_joint_on(gates[i].typ, CurrOrNext::Curr) {
            let k = info.selector(gates[i].typ, CurrOrNext::Curr)->0;
            assert(info.selector_on(gates, k as int, i));
        } else {
            let k = info.selector(gates[i].typ, CurrOrNext::Next)->0;
            assert(info.selector_on(gates, k as int, i + 1));
        }
    } else {
        assert forall|k: usize, i: int| #[trigger]
            info.selector_on(gates, k as int, i) implies !(k < info.kinds@.len()
            && info.kinds@[k as int]@.len() > 0) by {
            if 0 <= i < gates.len() {
                assert(!info.asks_joint(gates[i].typ));
            }
            if 0 < i <= gates.len() {
                assert(!info.asks_joint(gates[i - 1].typ));
            }
        }
    }
}

/// A circuit with lookups asked for on some row uses joint lookups.
pub proof fn lemma_row_lookups_are_joint<F>(
    info: &LookupInfo<F>,
    gates: Seq<CircuitGate<F>>,
    i: int,
)
    requires
        info.covers(gates),
        info.kind_lookups(info.row_kind(gates, i)).len() > 0,
    ensures
        info.used(gates) == Some(LookupsUsed::Joint),
{
    lemma_row_kind_is_selected(info, gates, i);
    lemma_joint_means_selected(info, gates);
    if 0 <= i < gates.len() {
        assert(info.covers_gate(gates[i].typ));
    }
    if 0 < i <= gates.len() {
        assert(info.covers_gate(gates[i - 1].typ));
    }
    let k = info.row_kind(gates, i)->0;
    assert(info.selector_on(gates, k as int, i) && info.kinds@[k as int]@.len() > 0);
}

/// No row has more lookups than `max_per_row`, and no lookup of a row is of a vector longer than
/// `max_joint_size`, if the length of the vector fits in thirty-two bits.
pub proof fn lemma_rows_within_maxima<F>(
    info: &LookupInfo<F>,
    gates: Seq<CircuitGate<F>>,
    rows: Seq<&Vec<JointLookupSpec<F>>>,
    i: int,
)
    requires
        info.maxima_known(),
        info.covers(gates),
        info.rows_given(gates, rows),
        0 <= i < rows.len(),
    ensures
        rows[i]@.len() <= info.max_per_row,
        forall|j: int|
            0 <= j < rows[i]@.len() && rows[i]@[j].entry@.len() <= u32::MAX ==> (
            #[trigger] rows[i]@[j]).entry@.len() <= info.max_joint_size,
{
    if i < gates.len() {
        assert(info.covers_gate(gates[i].typ));
    }
    if 0 < i {
        assert(info.covers_gate(gates[i - 1].typ));
    }
    assert(rows[i]@ == info.kind_lookups(info.row_kind(gates, i)));
    assert forall|j: int|
        0 <= j < rows[i]@.len() && rows[i]@[j].entry@.len() <= u32::MAX implies (
    #[trigger] rows[i]@[j]).entry@.len() <= info.max_joint_size by {
        let k = info.row_kind(gates, i)->0;
        assert(crate::lookup_info::joint_size(info.kinds@, k as int, j) <= info.max_joint_size);
    }
}

/// One more gate changes what is asked for on its own row and on the next only: the rows before it
/// keep their lookups, its own row keeps them unless it asks for lookups there, and the row after
/// it gets what it asks for on the next row.
pub proof fn lemma_one_more_gate<F>(
    info: &LookupInfo<F>,
    gates: Seq<CircuitGate<F>>,
    gate: CircuitGate<F>,
    i: int,
)
    ensures
        i < gates.len() ==> info.row_kind(gates.push(gate), i) == info.row_kind(gates, i),
        i == gates.len() && info.selector(gate.typ, CurrOrNext::Curr) is None ==> info.row_kind(
            gates.push(gate),
            i,
        ) == info.row_kind(gates, i),
        i == gates.len() && info.selector(gate.typ, CurrOrNext::Curr) is Some ==> info.row_kind(
            gates.push(gate),
            i,
        ) == info.selector(gate.typ, CurrOrNext::Curr),
        i == gates.len() + 1 ==> info.row_kind(gates.push(gate), i) == info.selector(
            gate.typ,
            CurrOrNext::Next,
        ),
{
    let more = gates.push(gate);
    assert(more[gates.len() as int] == gate);
    if 0 <= i < gates.len() {
        assert(more[i] == gates[i]);
    }
    if 0 < i <= gates.len() {
        assert(more[i - 1] == gates[i - 1]);
    }
}

/// The rows of a circuit with one more gate are one more, and they are the same as before up to the
/// row of the new gate, and on that row too unless it asks for lookups there.
pub proof fn lemma_one_more_row<F>(
    info: &LookupInfo<F>,
    gates: Seq<CircuitGate<F>>,
    gate: CircuitGate<F>,
    before: Seq<&Vec<JointLookupSpec<F>>>,
    after: Seq<&Vec<JointLookupSpec<F>>>,
)
    requires
        info.rows_given(gates, before),
        info.rows_given(gates.push(gate), after),
    ensures
        after.len() == before.len() + 1,
        forall|i: int| 0 <= i < gates.len() ==> (#[trigger] after[i])@ == before[i]@,
        info.selector(gate.typ, CurrOrNext::Curr) is None ==> after[gates.len() as int]@
            == before[gates.len() as int]@,
{
    assert forall|i: int| 0 <= i < gates.len() implies (#[trigger] after[i])@ == before[i]@ by {
        lemma_one_more_gate(info, gates, gate, i);
        assert(before[i]@ == info.kind_lookups(info.row_kind(gates, i)));
    }
    let n = gates.len() as int;
    lemma_one_more_gate(info, gates, gate, n);
    assert(before[n]@ == info.kind_lookups(info.row_kind(gates, n)));
    assert(after[n]@ == info.kind_lookups(info.row_kind(gates.push(gate), n)));
}

/// Adding gates at the end of a circuit takes no lookups away: what was joint stays joint and what
/// was used stays used.
pub proof fn lemma_used_grows<F>(
    info: &LookupInfo<F>,
    gates: Seq<CircuitGate<F>>,
    more: Seq<CircuitGate<F>>,
)
    ensures
        info.used(gates) is Some ==> info.used(gates + more) is Some,
        info.used(gates) == Some(LookupsUsed::Joint) ==> info.used(gates + more) == Some(
            LookupsUsed::Joint,
        ),
{
    let all = gates + more;
    if exists|i: int| 0 <= i < gates.len() && info.asks_joint((#[trigger] gates[i]).typ) {
        let i = choose|i: int| 0 <= i < gates.len() && info.asks_joint((#[trigger] gates[i]).typ);
        assert(all[i] == gates[i]);
    } else if exists|i: int| 0 <= i < gates.len() && info.asks((#[trigger] gates[i]).typ) {
        let i = choose|i: int| 0 <= i < gates.len() && info.asks((#[trigger] gates[i]).typ);
        assert(all[i] == gates[i]);
    }
}

/// A selector polynomial controls where its kind of lookups is enforced: on the rows, which are
/// every `m / n`-th element of the larger domain, it is one where lookups of that kind are asked
/// for and zero elsewhere.
pub proof fn lemma_selector_on_rows(
    info: &LookupInfo<Fp>,
    gates: Seq<CircuitGate<Fp>>,
    k: int,
    n: nat,
    evals: Seq<nat>,
    i: int,
)
    requires
        crate::domain::is_fp_domain_size(n),
        crate::domain::is_fp_domain_size(evals.len()),
        n <= evals.len(),
        Fp::extends(info.selector_column(gates, k, n), evals),
        0 <= i < n,
    ensures
        0 <= (evals.len() / n) * i < evals.len(),
        evals[(evals.len() / n) * i] == if info.selector_on(gates, k, i) {
            1nat
        } else {
            0nat
        },
{
    crate::domain::lemma_extension_keeps_values(info.selector_column(gates, k, n), evals, i);
}

/// The selector polynomial of a kind of lookups that no row is asked for is zero everywhere on the
/// larger domain, not only on the rows.
pub proof fn lemma_unselected_is_zero(
    info: &LookupInfo<Fp>,
    gates: Seq<CircuitGate<Fp>>,
    k: int,
    n: nat,
    evals: Seq<nat>,
)
    requires
        crate::domain::is_fp_domain_size(n),
        Fp::extends(info.selector_column(gates, k, n), evals),
        forall|i: int| 0 <= i < n ==> !#[trigger] info.selector_on(gates, k, i),
    ensures
        evals == Seq::new(evals.len(), |i: int| 0nat),
{
    let column = info.selector_column(gates, k, n);
    let zeros = Seq::new(evals.len(), |i: int| 0nat);
    let none = Seq::<nat>::empty();
    assert(crate::domain::takes_values(none, column));
    assert(crate::domain::takes_values(none, zeros));
    crate::interpolation::lemma_extension_unique(column, evals, zeros);
}

/// Gates behind the first `n` rows do not change the selector polynomials: those of the circuit and
/// of its first `n` gates are the same.
pub proof fn lemma_later_gates_select_nothing<F: FftField>(
    info: &LookupInfo<F>,
    gates: Seq<CircuitGate<F>>,
    k: int,
    n: nat,
    all: Seq<F::V>,
    first: Seq<F::V>,
)
    requires
        n <= gates.len(),
        F::is_domain_size(n),
        all.len() == first.len(),
        F::extends(info.selector_column(LookupInfo::placed(gates, n), k, n), all),
        F::extends(
            info.selector_column(LookupInfo::placed(gates.take(n as int), n), k, n),
            first,
        ),
    ensures
        all == first,
{
    assert(LookupInfo::placed(gates, n) =~= gates.take(n as int));
    F::lemma_extends_once(info.selector_column(gates.take(n as int), k, n), all, first);
}

/// Gates behind the first `n` rows use no tables: those given for the circuit and for its first `n`
/// gates are the same up to their order, wherever each table that they use is given in
/// one way.
pub proof fn lemma_later_gates_use_no_tables<F, T, G: Fn(GateLookupTable) -> T>(
    info: &LookupInfo<F>,
    gates: Seq<CircuitGate<F>>,
    n: nat,
    get_table: G,
    all: Seq<T>,
    first: Seq<T>,
)
    requires
        n <= gates.len(),
        info.tables_given(LookupInfo::placed(gates, n), get_table, all),
        info.tables_given(LookupInfo::placed(gates.take(n as int), n), get_table, first),
        forall|id: GateLookupTable, x: T, y: T|
            #![trigger call_ensures(get_table, (id,), x), call_ensures(get_table, (id,), y)]
            info.table_used(LookupInfo::placed(gates, n), id) && call_ensures(get_table, (id,), x)
                && call_ensures(get_table, (id,), y) ==> x == y,
    ensures
        all.to_multiset() == first.to_multiset(),
{
    let used = gates.take(n as int);
    assert(LookupInfo::placed(gates, n) =~= used);
    let ids = choose|ids: Seq<GateLookupTable>|
        {
            &&& #[trigger] ids.no_duplicates()
            &&& forall|t: GateLookupTable| #[trigger] ids.contains(t) <==> info.table_used(used, t)
            &&& all.len() == ids.len()
            &&& forall|i: int|
                0 <= i < ids.len() ==> call_ensures(get_table, (ids[i],), #[trigger] all[i])
        };
    let jds = choose|jds: Seq<GateLookupTable>|
        {
            &&& #[trigger] jds.no_duplicates()
            &&& forall|t: GateLookupTable| #[trigger] jds.contains(t) <==> info.table_used(used, t)
            &&& first.len() == jds.len()
            &&& forall|i: int|
                0 <= i < jds.len() ==> call_ensures(get_table, (jds[i],), #[trigger] first[i])
        };
    assert forall|t: GateLookupTable| #[trigger] ids.contains(t) <==> jds.contains(t) by {
        assert(ids.contains(t) <==> info.table_used(used, t));
        assert(jds.contains(t) <==> info.table_used(used, t));
    }
    assert forall|id: GateLookupTable, x: T, y: T|
        #![trigger call_ensures(get_table, (id,), x), call_ensures(get_table, (id,), y)]
        ids.contains(id) && call_ensures(get_table, (id,), x) && call_ensures(
            get_table,
            (id,),
            y,
        ) implies x == y by {
        assert(info.table_used(used, id));
    }
    lemma_tables_permuted(ids, jds, get_table, all, first);
}

/// Gates behind the rows of the domain are ignored: the selector polynomials and tables that may be
/// given for the circuit are those that may be given for its gates on those rows.
pub proof fn lemma_later_gates_are_ignored<F: FftField, T, G: Fn(GateLookupTable) -> T>(
    info: &LookupInfo<F>,
    domain: &EvaluationDomains,
    gates: Seq<CircuitGate<F>>,
    get_table: G,
    selectors: Seq<Evaluations<F>>,
    tables: Seq<T>,
)
    requires
        domain.d1.size <= gates.len(),
    ensures
        ({
            let n = domain.d1.size as nat;
            let first = gates.take(n as int);
            &&& info.selectors_given(domain, gates, selectors) <==> info.selectors_given(
                domain,
                first,
                selectors,
            )
            &&& info.tables_given(LookupInfo::placed(gates, n), get_table, tables)
                <==> info.tables_given(LookupInfo::placed(first, n), get_table, tables)
        }),
{
    let n = domain.d1.size as nat;
    assert(LookupInfo::placed(gates, n) =~= LookupInfo::placed(gates.take(n as int), n));
}

/// Gates behind the rows of the domain are ignored: the selector polynomials given for the circuit
/// and for its gates on those rows have the same values, and the tables are the same up to their
/// order, wherever each table that these gates use is given in one way.
pub proof fn lemma_later_gates_change_nothing<F: FftField, T, G: Fn(GateLookupTable) -> T>(
    info: &LookupInfo<F>,
    domain: &EvaluationDomains,
    gates: Seq<CircuitGate<F>>,
    get_table: G,
    all: (Seq<Evaluations<F>>, Seq<T>),
    first: (Seq<Evaluations<F>>, Seq<T>),
)
    requires
        domain.wf::<F>(),
        domain.d1.size <= gates.len(),
        info.selectors_given(domain, gates, all.0),
        info.tables_given(LookupInfo::placed(gates, domain.d1.size as nat), get_table, all.1),
        info.selectors_given(domain, gates.take(domain.d1.size as int), first.0),
        info.tables_given(
            LookupInfo::placed(gates.take(domain.d1.size as int), domain.d1.size as nat),
            get_table,
            first.1,
        ),
        forall|id: GateLookupTable, x: T, y: T|
            #![trigger call_ensures(get_table, (id,), x), call_ensures(get_table, (id,), y)]
            info.table_used(LookupInfo::placed(gates, domain.d1.size as nat), id) && call_ensures(
                get_table,
                (id,),
                x,
            ) && call_ensures(get_table, (id,), y) ==> x == y,
    ensures
        all.0.len() == first.0.len(),
        forall|k: int|
            0 <= k < all.0.len() ==> (#[trigger] all.0[k]).domain == first.0[k].domain
                && crate::domain::views(all.0[k].evals@) == crate::domain::views(
                first.0[k].evals@,
            ),
        all.1.to_multiset() == first.1.to_multiset(),
{
    let n = domain.d1.size as nat;
    assert forall|k: int| 0 <= k < all.0.len() implies (#[trigger] all.0[k]).domain
        == first.0[k].domain && crate::domain::views(all.0[k].evals@) == crate::domain::views(
        first.0[k].evals@,
    ) by {
        assert(first.0[k].domain == domain.d8);
        lemma_later_gates_select_nothing(
            info,
            gates,
            k,
            n,
            crate::domain::views(all.0[k].evals@),
            crate::domain::views(first.0[k].evals@),
        );
    }
    lemma_later_gates_use_no_tables(info, gates, n, get_table, all.1, first.1);
}

/// The same tables in two orders are given as the same values in two orders.
proof fn lemma_tables_permuted<T, G: Fn(GateLookupTable) -> T>(
    ids: Seq<GateLookupTable>,
    jds: Seq<GateLookupTable>,
    get_table: G,
    s: Seq<T>,
    t: Seq<T>,
)
    requires
        ids.no_duplicates(),
        jds.no_duplicates(),
        forall|id: GateLookupTable| #[trigger] ids.contains(id) <==> jds.contains(id),
        s.len() == ids.len(),
        t.len() == jds.len(),
        forall|i: int| 0 <= i < ids.len() ==> call_ensures(get_table, (ids[i],), #[trigger] s[i]),
        forall|i: int| 0 <= i < jds.len() ==> call_ensures(get_table, (jds[i],), #[trigger] t[i]),
        forall|id: GateLookupTable, x: T, y: T|
            #![trigger call_ensures(get_table, (id,), x), call_ensures(get_table, (id,), y)]
            ids.contains(id) && call_ensures(get_table, (id,), x) && call_ensures(
                get_table,
                (id,),
                y,
            ) ==> x == y,
    ensures
        s.to_multiset() == t.to_multiset(),
    decreases ids.len(),
{
    if ids.len() == 0 {
        if jds.len() > 0 {
            assert(jds.contains(jds[0]));
            assert(ids.contains(jds[0]));
        }
        assert(s =~= t);
    } else {
        let last = ids.len() - 1;
        let id = ids[last];
        assert(ids.contains(id));
        let j = choose|j: int| 0 <= j < jds.len() && jds[j] == id;
        let (is, js) = (ids.drop_last(), jds.remove(j));
        let (xs, ys) = (s.drop_last(), t.remove(j));
        assert(call_ensures(get_table, (ids[last],), s[last]));
        assert(call_ensures(get_table, (jds[j],), t[j]));
        assert forall|u: GateLookupTable| #[trigger] is.contains(u) <==> js.contains(u) by {
            if is.contains(u) {
                let a = choose|a: int| 0 <= a < is.len() && is[a] == u;
                assert(ids[a] == u);
                assert(ids.contains(u));
                let b = choose|b: int| 0 <= b < jds.len() && jds[b] == u;
                assert(b != j);
                assert(js[if b < j { b } else { b - 1 }] == u);
            }
            if js.contains(u) {
                let b = choose|b: int| 0 <= b < js.len() && js[b] == u;
                let c = if b < j { b } else { b + 1 };
                assert(jds[c] == u);
                assert(jds.contains(u));
                assert(ids.contains(u));
                let a = choose|a: int| 0 <= a < ids.len() && ids[a] == u;
                assert(a != last);
                assert(is[a] == u);
            }
        }
        assert forall|i: int| 0 <= i < js.len() implies call_ensures(
            get_table,
            (js[i],),
            #[trigger] ys[i],
        ) by {
            let c = if i < j { i } else { i + 1 };
            assert(js[i] == jds[c] && ys[i] == t[c]);
            assert(call_ensures(get_table, (jds[c],), t[c]));
        }
        assert forall|i: int| 0 <= i < is.len() implies call_ensures(
            get_table,
            (is[i],),
            #[trigger] xs[i],
        ) by {
            assert(call_ensures(get_table, (ids[i],), s[i]));
        }
        assert forall|u: GateLookupTable, x: T, y: T|
            #![trigger call_ensures(get_table, (u,), x), call_ensures(get_table, (u,), y)]
            is.contains(u) && call_ensures(get_table, (u,), x) && call_ensures(
                get_table,
                (u,),
                y,
            ) implies x == y by {
            let a = choose|a: int| 0 <= a < is.len() && is[a] == u;
            assert(ids[a] == u);
            assert(ids.contains(u));
        }
        lemma_tables_permuted(is, js, get_table, xs, ys);
        assert(xs.push(s[last]) =~= s);
        assert(ys.insert(j, t[j]) =~= t);
        to_multiset_build(xs, s[last]);
        to_multiset_insert(ys, j, t[j]);
    }
}

/// A reader that gives each cell of a combination one meaning gives the combination one value.
pub proof fn lemma_evaluation_unique<F: View, K: Scale<F>, G: Fn(LocalPosition) -> K>(
    lookup: &SingleLookup<F>,
    eval: G,
    a: K::V,
    b: K::V,
)
    requires
        lookup.evaluates_to::<K, G>(eval, a),
        lookup.evaluates_to::<K, G>(eval, b),
        lookup.read_once::<K, G>(eval),
    ensures
        a == b,
{
    let xs = choose|xs: Seq<K>| #[trigger]
        lookup.reads(eval, xs) && a == crate::lookup::linear_combination::<F, K>(
            lookup.coeffs(),
            crate::domain::views(xs),
        );
    let ys = choose|ys: Seq<K>| #[trigger]
        lookup.reads(eval, ys) && b == crate::lookup::linear_combination::<F, K>(
            lookup.coeffs(),
            crate::domain::views(ys),
        );
    assert forall|i: int| 0 <= i < xs.len() implies xs[i]@ == (#[trigger] ys[i])@ by {
        assert(call_ensures(eval, (lookup.value@[i].1,), xs[i]));
        assert(call_ensures(eval, (lookup.value@[i].1,), ys[i]));
    }
    assert(crate::domain::views(xs) =~= crate::domain::views(ys));
}

/// A reader that gives each cell of a vector of combinations one meaning gives the vector one value,
/// so that a joint lookup evaluates to the combined value of the vector that it reduces to.
pub proof fn lemma_reduction_unique<F: View, K: Scale<F>, G: Fn(LocalPosition) -> K>(
    lookup: &JointLookupSpec<F>,
    eval: G,
    a: Seq<K::V>,
    b: Seq<K::V>,
)
    requires
        lookup.reduces_to::<K, G>(eval, a),
        lookup.reduces_to::<K, G>(eval, b),
        lookup.read_once::<K, G>(eval),
    ensures
        a == b,
{
    assert forall|i: int| 0 <= i < a.len() implies a[i] == b[i] by {
        assert(lookup.entry@[i].evaluates_to::<K, G>(eval, a[i]));
        assert(lookup.entry@[i].evaluates_to::<K, G>(eval, b[i]));
        lemma_evaluation_unique::<F, K, G>(&lookup.entry@[i], eval, a[i], b[i]);
    }
    assert(a =~= b);
}

/// A sum of three values does not depend on which two are added first.
pub open spec fn regroups<K: Zero>(u: K::V, v: K::V, w: K::V) -> bool {
    K::add_view(K::add_view(u, v), w) == K::add_view(u, K::add_view(v, w))
}

/// A combination of the cells of two lists is the sum of the two combinations, wherever addition is
/// associative and adding zero changes nothing.
pub proof fn lemma_combination_splits<F: View, K: Scale<F>>(
    c: Seq<F::V>,
    x: Seq<K::V>,
    d: Seq<F::V>,
    y: Seq<K::V>,
)
    requires
        c.len() == x.len(),
        d.len() == y.len(),
        forall|u: K::V, v: K::V, w: K::V| #[trigger] regroups::<K>(u, v, w),
        K::add_view(crate::lookup::linear_combination::<F, K>(c, x), K::zero_view())
            == crate::lookup::linear_combination::<F, K>(c, x),
    ensures
        crate::lookup::linear_combination::<F, K>(c + d, x + y) == K::add_view(
            crate::lookup::linear_combination::<F, K>(c, x),
            crate::lookup::linear_combination::<F, K>(d, y),
        ),
    decreases d.len(),
{
    if d.len() == 0 {
        assert(c + d =~= c);
        assert(x + y =~= x);
    } else {
        lemma_combination_splits::<F, K>(c, x, d.drop_last(), y.drop_last());
        assert((c + d).drop_last() =~= c + d.drop_last());
        assert((x + y).drop_last() =~= x + y.drop_last());
        assert(regroups::<K>(
            crate::lookup::linear_combination::<F, K>(c, x),
            crate::lookup::linear_combination::<F, K>(d.drop_last(), y.drop_last()),
            K::scale_view(y.last(), d.last()),
        ));
    }
}

/// In the field, a combination of the cells of two lists is the sum of the two combinations.
pub proof fn lemma_fp_combination_splits(c: Seq<nat>, x: Seq<nat>, d: Seq<nat>, y: Seq<nat>)
    requires
        c.len() == x.len(),
        d.len() == y.len(),
    ensures
        crate::lookup::linear_combination::<Fp, Fp>(c + d, x + y) == crate::field::residue_add(
            crate::lookup::linear_combination::<Fp, Fp>(c, x),
            crate::lookup::linear_combination::<Fp, Fp>(d, y),
        ),
{
    let p = crate::field::modulus() as int;
    assert forall|u: nat, v: nat, w: nat| #[trigger] regroups::<Fp>(u, v, w) by {
        lemma_add_mod_noop_right(w as int, (u + v) as int, p);
        lemma_add_mod_noop_right(u as int, (v + w) as int, p);
    }
    lemma_combination_reduced(c, x);
    lemma_small_mod(crate::lookup::linear_combination::<Fp, Fp>(c, x), p as nat);
    lemma_combination_splits::<Fp, Fp>(c, x, d, y);
}

/// A combination is a least residue.
proof fn lemma_combination_reduced(c: Seq<nat>, x: Seq<nat>)
    ensures
        crate::lookup::linear_combination::<Fp, Fp>(c, x) < crate::field::modulus(),
    decreases c.len(),
{
}

/// The sum of the entries, each multiplied by the power of `x` of its index.
pub open spec fn power_sum(x: nat, entries: Seq<nat>) -> nat
    decreases entries.len(),
{
    if entries.len() == 0 {
        0
    } else {
        (power_sum(x, entries.drop_last()) + entries.last() * pow(
            x as int,
            (entries.len() - 1) as nat,
        )) as nat
    }
}

/// In the field, the combined value of a vector is the sum of its components, each multiplied by
/// the power of the joint combiner of its index.
pub proof fn lemma_combined_is_power_sum(x: nat, entries: Seq<nat>)
    ensures
        crate::lookup::combined_entry::<Fp>(x, entries) == power_sum(x, entries)
            % crate::field::modulus(),
    decreases entries.len(),
{
    let p = crate::field::modulus() as int;
    if entries.len() == 0 {
        lemma_small_mod(0, p as nat);
    } else {
        let rest = entries.drop_first();
        lemma_combined_is_power_sum(x, rest);
        lemma_power_sum_first(x, entries);
        let r = power_sum(x, rest);
        lemma_mul_mod_noop_right(x as int, r as int, p);
        lemma_add_mod_noop((x * r) as int, entries[0] as int, p);
        lemma_add_mod_noop_right(entries[0] as int, (x * r) as int, p);
    }
}

/// The sum of the entries by powers, with the first entry apart.
proof fn lemma_power_sum_first(x: nat, entries: Seq<nat>)
    requires
        entries.len() > 0,
    ensures
        power_sum(x, entries) == entries[0] + x * power_sum(x, entries.drop_first()),
    decreases entries.len(),
{
    reveal_with_fuel(power_sum, 2);
    lemma_pow0(x as int);
    let rest = entries.drop_first();
    if entries.len() == 1 {
        assert(rest.len() == 0);
        assert(entries.drop_last().len() == 0);
        assert(power_sum(x, rest) == 0);
        assert(entries.last() * pow(x as int, 0) == entries[0]);
        assert(x * 0 == 0) by (nonlinear_arith);
    } else {
        let n = (entries.len() - 1) as nat;
        lemma_power_sum_first(x, entries.drop_last());
        assert(entries.drop_last().drop_first() =~= rest.drop_last());
        assert(pow(x as int, n) == x * pow(x as int, (n - 1) as nat)) by {
            reveal(pow);
        }
        lemma_pow_nonnegative(x, (n - 1) as nat);
        let last = entries.last();
        let s = power_sum(x, rest.drop_last());
        let w = pow(x as int, (n - 1) as nat);
        assert(rest.last() == last);
        assert(power_sum(x, rest) == s + last * w) by {
            assert(last * w >= 0) by (nonlinear_arith)
                requires
                    w >= 0,
                    last >= 0,
            ;
        }
        assert(last * (x * w) == x * (last * w)) by (nonlinear_arith);
        assert(x * (s + last * w) == x * s + x * (last * w)) by (nonlinear_arith);
        assert(last * (x * w) >= 0) by (nonlinear_arith)
            requires
                w >= 0,
                last >= 0,
                x >= 0,
        ;
        assert(entries.drop_last()[0] == entries[0]);
        assert(power_sum(x, entries) == power_sum(x, entries.drop_last()) + last * (x * w));
    }
}

/// Powers of natural numbers are not negative.
proof fn lemma_pow_nonnegative(x: nat, n: nat)
    ensures
        pow(x as int, n) >= 0,
    decreases n,
{
    reveal(pow);
    if n > 0 {
        lemma_pow_nonnegative(x, (n - 1) as nat);
        lemma_mul_nonnegative(x as int, pow(x as int, (n - 1) as nat));
    }
}

/// Every term of a combination counts: it comes out as the last of the sums that start at zero and
/// grow, term by term, by what is read at the position of the term times its coefficient.
pub proof fn lemma_every_term_counts<F: View, K: Scale<F>, G: Fn(LocalPosition) -> K>(
    lookup: &SingleLookup<F>,
    eval: G,
    out: K::V,
)
    requires
        lookup.evaluates_to::<K, G>(eval, out),
    ensures
        exists|xs: Seq<K>, sums: Seq<K::V>|
            {
                &&& #[trigger] xs.len() == lookup.value@.len()
                &&& forall|i: int|
                    0 <= i < xs.len() ==> call_ensures(
                        eval,
                        (lookup.value@[i].1,),
                        #[trigger] xs[i],
                    )
                &&& #[trigger] sums.len() == lookup.value@.len() + 1
                &&& sums[0] == K::zero_view()
                &&& forall|i: int|
                    0 <= i < xs.len() ==> #[trigger] sums[i + 1] == K::add_view(
                        sums[i],
                        K::scale_view(xs[i]@, lookup.value@[i].0@),
                    )
                &&& out == sums[lookup.value@.len() as int]
            },
{
    let coeffs = lookup.coeffs();
    let n = lookup.value@.len();
    let xs = choose|xs: Seq<K>| #[trigger]
        lookup.reads(eval, xs) && out == crate::lookup::linear_combination::<F, K>(
            coeffs,
            crate::domain::views(xs),
        );
    let values = crate::domain::views(xs);
    let sums = Seq::new(
        n + 1,
        |i: int| crate::lookup::linear_combination::<F, K>(coeffs.take(i), values.take(i)),
    );
    assert forall|i: int| 0 <= i < xs.len() implies #[trigger] sums[i + 1] == K::add_view(
        sums[i],
        K::scale_view(xs[i]@, lookup.value@[i].0@),
    ) by {
        assert(coeffs.take(i + 1).drop_last() =~= coeffs.take(i));
        assert(values.take(i + 1).drop_last() =~= values.take(i));
    }
    assert(coeffs.take(n as int) =~= coeffs);
    assert(values.take(n as int) =~= values);
    assert(xs.len() == n && sums.len() == n + 1);
}

/// A combination with one more term comes out as a value of the combination without it, plus what
/// is read at the position of the term times its coefficient.
pub proof fn lemma_one_more_term<F: View, K: Scale<F>, G: Fn(LocalPosition) -> K>(
    shorter: &SingleLookup<F>,
    longer: &SingleLookup<F>,
    c: F,
    p: LocalPosition,
    eval: G,
    out: K::V,
)
    requires
        longer.value@ == shorter.value@.push((c, p)),
        longer.evaluates_to::<K, G>(eval, out),
    ensures
        exists|sum: K::V, x: K| #[trigger]
            shorter.evaluates_to::<K, G>(eval, sum) && #[trigger] call_ensures(eval, (p,), x) && out
                == K::add_view(sum, K::scale_view(x@, c@)),
{
    let cells = choose|cells: Seq<K>| #[trigger]
        longer.reads(eval, cells) && out == crate::lookup::linear_combination::<F, K>(
            longer.coeffs(),
            crate::domain::views(cells),
        );
    let fewer = cells.drop_last();
    let n = shorter.value@.len() as int;
    assert(longer.coeffs().drop_last() =~= shorter.coeffs());
    assert(crate::domain::views(cells).drop_last() =~= crate::domain::views(fewer));
    assert forall|i: int| 0 <= i < fewer.len() implies call_ensures(
        eval,
        (shorter.value@[i].1,),
        #[trigger] fewer[i],
    ) by {
        assert(longer.value@[i] == shorter.value@[i]);
        assert(call_ensures(eval, (longer.value@[i].1,), cells[i]));
    }
    assert(shorter.reads(eval, fewer));
    let sum = crate::lookup::linear_combination::<F, K>(
        shorter.coeffs(),
        crate::domain::views(fewer),
    );
    assert(shorter.evaluates_to::<K, G>(eval, sum));
    assert(longer.value@[n] == (c, p));
    assert(call_ensures(eval, (longer.value@[n].1,), cells[n]));
}

/// A vector of combinations comes out with as many components, and with one more combination it
/// comes out with the value of that combination behind the others.
pub proof fn lemma_one_more_component<F: View, K: Scale<F>, G: Fn(LocalPosition) -> K>(
    shorter: &JointLookupSpec<F>,
    longer: &JointLookupSpec<F>,
    last: SingleLookup<F>,
    eval: G,
    out: Seq<K::V>,
)
    requires
        longer.entry@ == shorter.entry@.push(last),
        longer.reduces_to::<K, G>(eval, out),
    ensures
        out.len() == longer.entry@.len(),
        shorter.reduces_to::<K, G>(eval, out.drop_last()),
        last.evaluates_to::<K, G>(eval, out.last()),
{
    let n = shorter.entry@.len() as int;
    assert(longer.entry@[n] == last);
    assert(longer.entry@[n].evaluates_to::<K, G>(eval, out[n]));
    let fewer = out.drop_last();
    assert forall|i: int| 0 <= i < fewer.len() implies shorter.entry@[i].evaluates_to::<K, G>(
        eval,
        #[trigger] fewer[i],
    ) by {
        assert(longer.entry@[i] == shorter.entry@[i]);
        assert(longer.entry@[i].evaluates_to::<K, G>(eval, out[i]));
    }
}

/// A vector of combinations comes out component by component: as many components as combinations,
/// each a value of its combination.
pub proof fn lemma_every_component_counts<F: View, K: Scale<F>, G: Fn(LocalPosition) -> K>(
    lookup: &JointLookupSpec<F>,
    eval: G,
    out: Seq<K::V>,
)
    requires
        lookup.reduces_to::<K, G>(eval, out),
    ensures
        out.len() == lookup.entry@.len(),
        forall|i: int|
            0 <= i < lookup.entry@.len() ==> (#[trigger] lookup.entry@[i]).evaluates_to::<K, G>(
                eval,
                out[i],
            ),
{
    assert forall|i: int| 0 <= i < lookup.entry@.len() implies (
    #[trigger] lookup.entry@[i]).evaluates_to::<K, G>(eval, out[i]) by {
        let x = out[i];
    }
}

/// Every component of a vector counts in its combined value: this is the last of the values that
/// start at zero and, from the last component to the first, are multiplied by the joint combiner
/// before the component is added.
pub proof fn lemma_every_entry_counts<F: Zero + One>(x: F::V, entry: Seq<F>)
    ensures
        exists|partial: Seq<F::V>|
            {
                &&& #[trigger] partial.len() == entry.len() + 1
                &&& partial[entry.len() as int] == F::zero_view()
                &&& forall|i: int|
                    0 <= i < entry.len() ==> #[trigger] partial[i] == F::add_view(
                        F::mul_view(x, partial[i + 1]),
                        entry[i]@,
                    )
                &&& crate::lookup::combined_entry::<F>(x, crate::domain::views(entry)) == partial[0]
            },
{
    let all = crate::domain::views(entry);
    let n = entry.len();
    let partial = Seq::new(n + 1, |i: int| crate::lookup::combined_entry::<F>(x, all.skip(i)));
    assert(all.skip(n as int) =~= Seq::empty());
    assert(all.skip(0) =~= all);
    assert forall|i: int| 0 <= i < entry.len() implies #[trigger] partial[i] == F::add_view(
        F::mul_view(x, partial[i + 1]),
        entry[i]@,
    ) by {
        assert(all.skip(i).drop_first() =~= all.skip(i + 1));
        assert(all.skip(i)[0] == entry[i]@);
    }
    assert(partial.len() == n + 1);
}

/// The combined value of a vector with one more component in front is that of the vector times the
/// joint combiner, plus the component; without components it is zero.
pub proof fn lemma_one_more_entry<F: Zero + One>(x: F::V, first: F, rest: Seq<F>)
    ensures
        crate::lookup::combined_entry::<F>(x, crate::domain::views(Seq::<F>::empty()))
            == F::zero_view(),
        crate::lookup::combined_entry::<F>(x, crate::domain::views(seq![first] + rest))
            == F::add_view(
            F::mul_view(x, crate::lookup::combined_entry::<F>(x, crate::domain::views(rest))),
            first@,
        ),
{
    let all = crate::domain::views(seq![first] + rest);
    assert(crate::domain::views(Seq::<F>::empty()).len() == 0);
    assert(all.drop_first() =~= crate::domain::views(rest));
    assert(all[0] == first@);
}

/// The number of lookups of a row at most is the length of one of the kinds of lookups, and no kind
/// is longer.
pub proof fn lemma_max_per_row<F>(kinds: Seq<Vec<JointLookupSpec<F>>>, r: int)
    requires
        crate::lookup_info::is_max_per_row(kinds, r),
    ensures
        forall|i: int| 0 <= i < kinds.len() ==> (#[trigger] kinds[i])@.len() <= r,
        r == 0 || exists|i: int| 0 <= i < kinds.len() && (#[trigger] kinds[i])@.len() == r,
{
}

/// A configuration that knows its maxima knows the length of the longest kind of lookups, and that
/// of the longest vector that is looked up, as a number of thirty-two bits.
pub proof fn lemma_maxima<F>(info: &LookupInfo<F>)
    requires
        info.maxima_known(),
    ensures
        forall|i: int|
            0 <= i < info.kinds@.len() ==> (#[trigger] info.kinds@[i])@.len() <= info.max_per_row,
        info.max_per_row == 0 || exists|i: int|
            0 <= i < info.kinds@.len() && (#[trigger] info.kinds@[i])@.len() == info.max_per_row,
        forall|i: int, j: int|
            0 <= i < info.kinds@.len() && 0 <= j < info.kinds@[i]@.len() ==> (
            #[trigger] info.kinds@[i]@[j]).entry@.len() as u32 <= info.max_joint_size,
        info.max_joint_size == 0 || exists|i: int, j: int|
            0 <= i < info.kinds@.len() && 0 <= j < info.kinds@[i]@.len() && (
            #[trigger] info.kinds@[i]@[j]).entry@.len() as u32 == info.max_joint_size,
{
    assert forall|i: int, j: int|
        0 <= i < info.kinds@.len() && 0 <= j < info.kinds@[i]@.len() implies (
    #[trigger] info.kinds@[i]@[j]).entry@.len() as u32 <= info.max_joint_size by {
        assert(crate::lookup_info::joint_size(info.kinds@, i, j) <= info.max_joint_size);
    }
    if info.max_joint_size != 0 {
        let (i, j) = choose|i: int, j: int|
            0 <= i < info.kinds@.len() && 0 <= j < info.kinds@[i]@.len()
                && #[trigger] crate::lookup_info::joint_size(info.kinds@, i, j)
                == info.max_joint_size;
        assert(info.kinds@[i]@[j].entry@.len() as u32 == info.max_joint_size);
    }
}

/// A circuit uses joint lookups if and only if the map gives one of its gates, on its own row or on
/// the next, a kind that is not empty; it uses none if and only if the map gives no gate any kind.
pub proof fn lemma_used_by_map<F>(info: &LookupInfo<F>, gates: Seq<CircuitGate<F>>)
    ensures
        info.used(gates) == Some(LookupsUsed::Joint) <==> exists|i: int, row: CurrOrNext|
            {
                let l = #[trigger] crate::lookup_info::location(gates[i].typ, row);
                &&& 0 <= i < gates.len()
                &&& info.kinds_map@.contains_key(l)
                &&& info.kinds_map@[l] < info.kinds@.len()
                &&& info.kinds@[info.kinds_map@[l] as int]@.len() > 0
            },
        info.used(gates) is None <==> forall|i: int, row: CurrOrNext|
            0 <= i < gates.len() ==> !info.kinds_map@.contains_key(
                #[trigger] crate::lookup_info::location(gates[i].typ, row),
            ),
{
    if exists|i: int, row: CurrOrNext|
        {
            let l = #[trigger] crate::lookup_info::location(gates[i].typ, row);
            &&& 0 <= i < gates.len()
            &&& info.kinds_map@.contains_key(l)
            &&& info.kinds_map@[l] < info.kinds@.len()
            &&& info.kinds@[info.kinds_map@[l] as int]@.len() > 0
        } {
        let (i, row) = choose|i: int, row: CurrOrNext|
            {
                let l = #[trigger] crate::lookup_info::location(gates[i].typ, row);
                &&& 0 <= i < gates.len()
                &&& info.kinds_map@.contains_key(l)
                &&& info.kinds_map@[l] < info.kinds@.len()
                &&& info.kinds@[info.kinds_map@[l] as int]@.len() > 0
            };
        assert(info.asks_joint_on(gates[i].typ, row));
        assert(info.asks_joint(gates[i].typ));
    }
    if info.used(gates) == Some(LookupsUsed::Joint) {
        let i = choose|i: int| 0 <= i < gates.len() && info.asks_joint((#[trigger] gates[i]).typ);
        let row = if info.asks_joint_on(gates[i].typ, CurrOrNext::Curr) {
            CurrOrNext::Curr
        } else {
            CurrOrNext::Next
        };
        let l = crate::lookup_info::location(gates[i].typ, row);
        assert(info.kinds_map@.contains_key(l));
    }
    if info.used(gates) is None {
        assert forall|i: int, row: CurrOrNext|
            0 <= i < gates.len() implies !info.kinds_map@.contains_key(
            #[trigger] crate::lookup_info::location(gates[i].typ, row),
        ) by {
            assert(!info.asks(gates[i].typ));
        }
    } else {
        let i = choose|i: int|
            0 <= i < gates.len() && (info.asks((#[trigger] gates[i]).typ) || info.asks_joint(
                gates[i].typ,
            ));
        let row = if info.selector(gates[i].typ, CurrOrNext::Curr) is Some {
            CurrOrNext::Curr
        } else {
            CurrOrNext::Next
        };
        assert(info.kinds_map@.contains_key(crate::lookup_info::location(gates[i].typ, row)));
    }
}

/// What two circuits one after the other use is joint if one of them is, and nothing if neither of
/// them uses anything.
pub proof fn lemma_used_joins<F>(
    info: &LookupInfo<F>,
    a: Seq<CircuitGate<F>>,
    b: Seq<CircuitGate<F>>,
)
    ensures
        info.used(a + b) == Some(LookupsUsed::Joint) <==> info.used(a) == Some(LookupsUsed::Joint)
            || info.used(b) == Some(LookupsUsed::Joint),
        info.used(a + b) is None <==> info.used(a) is None && info.used(b) is None,
{
    let all = a + b;
    assert forall|i: int| 0 <= i < a.len() implies #[trigger] all[i] == a[i] by {}
    assert forall|i: int| 0 <= i < b.len() implies #[trigger] b[i] == all[a.len() + i] by {}
    assert forall|i: int| a.len() <= i < all.len() implies #[trigger] all[i] == b[i - a.len()] by {}
    lemma_used_grows(info, a, b);
}

/// The lookups of a row are those of the kind that the map gives its gate on its own row, or else
/// those of the kind that it gives a gate on the row before for the next, all of them; without either
/// there are none.
pub proof fn lemma_row_lookups<F>(
    info: &LookupInfo<F>,
    gates: Seq<CircuitGate<F>>,
    rows: Seq<&Vec<JointLookupSpec<F>>>,
    i: int,
)
    requires
        info.rows_given(gates, rows),
        0 <= i <= gates.len(),
    ensures
        rows.len() == gates.len() + 1,
        ({
            let map = info.kinds_map@;
            let own = crate::lookup_info::location(gates[i].typ, CurrOrNext::Curr);
            let before = crate::lookup_info::location(gates[i - 1].typ, CurrOrNext::Next);
            if i < gates.len() && map.contains_key(own) {
                rows[i]@ == info.kinds@[map[own] as int]@
            } else if 0 < i && map.contains_key(before) {
                rows[i]@ == info.kinds@[map[before] as int]@
            } else {
                rows[i]@.len() == 0
            }
        }),
{
    assert(rows[i]@ == info.kind_lookups(info.row_kind(gates, i)));
}

/// There is a selector polynomial for each kind of lookups, given on the larger domain. It is the
/// extension of the column that is one where the map gives that kind to a gate on the row for its own
/// row, or to a gate on the row before for the next, and zero elsewhere.
pub proof fn lemma_selector_by_map<F: FftField>(
    info: &LookupInfo<F>,
    domain: &EvaluationDomains,
    gates: Seq<CircuitGate<F>>,
    selectors: Seq<Evaluations<F>>,
    k: int,
    column: Seq<F::V>,
)
    requires
        info.selectors_given(domain, gates, selectors),
        0 <= k < info.kinds@.len(),
        column.len() == domain.d1.size,
        forall|i: int|
            0 <= i < column.len() ==> {
                let own = crate::lookup_info::location(gates[i].typ, CurrOrNext::Curr);
                let before = crate::lookup_info::location(gates[i - 1].typ, CurrOrNext::Next);
                #[trigger] column[i] == if (i < gates.len() && info.kinds_map@.contains_key(own)
                    && info.kinds_map@[own] == k) || (0 < i <= gates.len()
                    && info.kinds_map@.contains_key(before) && info.kinds_map@[before] == k) {
                    F::one_view()
                } else {
                    F::zero_view()
                }
            },
    ensures
        selectors.len() == info.kinds@.len(),
        selectors[k].domain == domain.d8,
        selectors[k].evals@.len() == domain.d8.size,
        F::extends(
            column,
            Seq::new(selectors[k].evals@.len(), |j: int| selectors[k].evals@[j]@),
        ),
{
    let n = domain.d1.size as nat;
    let placed = LookupInfo::placed(gates, n);
    assert(selectors[k].domain == domain.d8);
    assert(k as usize == k) by {
        assert(info.kinds.len() == info.kinds@.len());
    }
    assert(column =~= info.selector_column(placed, k, n));
    assert(Seq::new(selectors[k].evals@.len(), |j: int| selectors[k].evals@[j]@)
        =~= crate::domain::views(selectors[k].evals@));
}

/// In the field, the selector polynomials have on the rows, which are every `m / n`-th element of
/// the larger domain, the value one where the map asks for their kind and zero elsewhere, and on the
/// whole larger domain the values of a polynomial with no more coefficients than there are rows.
pub proof fn lemma_selector_values_by_map(
    info: &LookupInfo<Fp>,
    domain: &EvaluationDomains,
    gates: Seq<CircuitGate<Fp>>,
    selectors: Seq<Evaluations<Fp>>,
    k: int,
)
    requires
        domain.wf::<Fp>(),
        info.selectors_given(domain, gates, selectors),
        0 <= k < info.kinds@.len(),
    ensures
        selectors[k].evals@.len() == domain.d8.size,
        forall|i: int|
            0 <= i < domain.d1.size ==> {
                let own = #[trigger] crate::lookup_info::location(gates[i].typ, CurrOrNext::Curr);
                let before = crate::lookup_info::location(gates[i - 1].typ, CurrOrNext::Next);
                let j = (domain.d8.size / domain.d1.size) * i;
                &&& 0 <= j < selectors[k].evals@.len()
                &&& selectors[k].evals@[j]@ == if (i < gates.len()
                    && info.kinds_map@.contains_key(own) && info.kinds_map@[own] == k) || (0 < i
                    <= gates.len() && info.kinds_map@.contains_key(before)
                    && info.kinds_map@[before] == k) {
                    1nat
                } else {
                    0nat
                }
            },
        exists|coeffs: Seq<nat>|
            {
                &&& #[trigger] coeffs.len() <= domain.d1.size
                &&& forall|j: int|
                    0 <= j < selectors[k].evals@.len() ==> (#[trigger] selectors[k].evals@[j])@
                        == crate::domain::poly_value(
                        coeffs,
                        crate::domain::domain_element(domain.d8.size as nat, j as nat),
                    )
            },
{
    let n = domain.d1.size as nat;
    let placed = LookupInfo::placed(gates, n);
    let evals = crate::domain::views(selectors[k].evals@);
    assert(selectors[k].domain == domain.d8);
    assert(k as usize == k) by {
        assert(info.kinds.len() == info.kinds@.len());
    }
    assert forall|i: int| 0 <= i < domain.d1.size implies {
        let own = #[trigger] crate::lookup_info::location(gates[i].typ, CurrOrNext::Curr);
        let before = crate::lookup_info::location(gates[i - 1].typ, CurrOrNext::Next);
        let j = (domain.d8.size / domain.d1.size) * i;
        &&& 0 <= j < selectors[k].evals@.len()
        &&& selectors[k].evals@[j]@ == if (i < gates.len() && info.kinds_map@.contains_key(own)
            && info.kinds_map@[own] == k) || (0 < i <= gates.len()
            && info.kinds_map@.contains_key(before) && info.kinds_map@[before] == k) {
            1nat
        } else {
            0nat
        }
    } by {
        lemma_selector_on_rows(info, placed, k, n, evals, i);
        let j = (domain.d8.size / domain.d1.size) * i;
        assert(evals[j] == selectors[k].evals@[j]@);
    }
    let column = info.selector_column(placed, k, n);
    let coeffs = choose|c: Seq<nat>|
        {
            &&& c.len() <= column.len()
            &&& #[trigger] crate::domain::takes_values(c, column)
            &&& crate::domain::takes_values(c, evals)
        };
    assert forall|j: int| 0 <= j < selectors[k].evals@.len() implies (
    #[trigger] selectors[k].evals@[j])@ == crate::domain::poly_value(
        coeffs,
        crate::domain::domain_element(domain.d8.size as nat, j as nat),
    ) by {
        assert(evals[j] == selectors[k].evals@[j]@);
    }
    assert(coeffs.len() <= domain.d1.size);
}

/// The tables given are those that the map gives the gates on the first `n` rows, on their own row
/// or on the next, each once and none besides.
pub proof fn lemma_tables_by_map<F, T, G: Fn(GateLookupTable) -> T>(
    info: &LookupInfo<F>,
    gates: Seq<CircuitGate<F>>,
    n: nat,
    get_table: G,
    tables: Seq<T>,
)
    requires
        info.tables_given(LookupInfo::placed(gates, n), get_table, tables),
    ensures
        exists|ids: Seq<GateLookupTable>|
            {
                &&& #[trigger] ids.no_duplicates()
                &&& tables.len() == ids.len()
                &&& forall|j: int|
                    0 <= j < tables.len() ==> call_ensures(
                        get_table,
                        (ids[j],),
                        #[trigger] tables[j],
                    )
                &&& forall|i: int, row: CurrOrNext|
                    0 <= i < gates.len() && i < n && info.kinds_tables@.contains_key(
                        #[trigger] crate::lookup_info::location(gates[i].typ, row),
                    ) ==> ids.contains(
                        info.kinds_tables@[crate::lookup_info::location(gates[i].typ, row)],
                    )
                &&& forall|t: GateLookupTable| #[trigger]
                    ids.contains(t) ==> exists|i: int, row: CurrOrNext|
                        {
                            let l = #[trigger] crate::lookup_info::location(gates[i].typ, row);
                            &&& 0 <= i < gates.len()
                            &&& i < n
                            &&& info.kinds_tables@.contains_key(l)
                            &&& info.kinds_tables@[l] == t
                        }
            },
        forall|i: int, row: CurrOrNext|
            0 <= i < gates.len() && i < n && info.kinds_tables@.contains_key(
                #[trigger] crate::lookup_info::location(gates[i].typ, row),
            ) ==> exists|j: int|
                0 <= j < tables.len() && call_ensures(
                    get_table,
                    (info.kinds_tables@[crate::lookup_info::location(gates[i].typ, row)],),
                    #[trigger] tables[j],
                ),
{
    let placed = LookupInfo::placed(gates, n);
    let ids = choose|ids: Seq<GateLookupTable>|
        {
            &&& #[trigger] ids.no_duplicates()
            &&& forall|t: GateLookupTable| #[trigger]
                ids.contains(t) <==> info.table_used(placed, t)
            &&& tables.len() == ids.len()
            &&& forall|i: int|
                0 <= i < ids.len() ==> call_ensures(get_table, (ids[i],), #[trigger] tables[i])
        };
    assert forall|i: int, row: CurrOrNext|
        0 <= i < gates.len() && i < n && info.kinds_tables@.contains_key(
            #[trigger] crate::lookup_info::location(gates[i].typ, row),
        ) implies ids.contains(
        info.kinds_tables@[crate::lookup_info::location(gates[i].typ, row)],
    ) by {
        let t = info.kinds_tables@[crate::lookup_info::location(gates[i].typ, row)];
        assert(placed[i] == gates[i]);
        assert(info.table(placed[i].typ, row) == Some(t));
        assert(info.table_used(placed, t));
    }
    assert forall|t: GateLookupTable| #[trigger] ids.contains(t) implies exists|
        i: int,
        row: CurrOrNext,
    |
        {
            let l = #[trigger] crate::lookup_info::location(gates[i].typ, row);
            &&& 0 <= i < gates.len()
            &&& i < n
            &&& info.kinds_tables@.contains_key(l)
            &&& info.kinds_tables@[l] == t
        } by {
        let i = choose|i: int|
            0 <= i < placed.len() && {
                ||| info.table((#[trigger] placed[i]).typ, CurrOrNext::Curr) == Some(t)
                ||| info.table(placed[i].typ, CurrOrNext::Next) == Some(t)
            };
        assert(placed[i] == gates[i]);
        let row = if info.table(placed[i].typ, CurrOrNext::Curr) == Some(t) {
            CurrOrNext::Curr
        } else {
            CurrOrNext::Next
        };
        let l = crate::lookup_info::location(gates[i].typ, row);
        assert(info.kinds_tables@.contains_key(l));
    }
    assert forall|i: int, row: CurrOrNext|
        0 <= i < gates.len() && i < n && info.kinds_tables@.contains_key(
            #[trigger] crate::lookup_info::location(gates[i].typ, row),
        ) implies exists|j: int|
        0 <= j < tables.len() && call_ensures(
            get_table,
            (info.kinds_tables@[crate::lookup_info::location(gates[i].typ, row)],),
            #[trigger] tables[j],
        ) by {
        let t = info.kinds_tables@[crate::lookup_info::location(gates[i].typ, row)];
        assert(ids.contains(t));
        let j = choose|j: int| 0 <= j < ids.len() && ids[j] == t;
        assert(call_ensures(get_table, (ids[j],), tables[j]));
    }
}

/// What `by_row` returns: for each row and the one after the last, the lookups of the kind that the
/// map gives its gate on its own row, or else of the kind that it gives a gate on the row before for
/// the next, all of them; without either there are none.
pub proof fn lemma_by_row_call<F>(
    info: &LookupInfo<F>,
    gates: &[CircuitGate<F>],
    r: Vec<&Vec<JointLookupSpec<F>>>,
    i: int,
)
    requires
        call_ensures(LookupInfo::<F>::by_row, (info, gates), r),
        0 <= i <= gates@.len(),
    ensures
        r@.len() == gates@.len() + 1,
        ({
            let map = info.kinds_map@;
            let own = crate::lookup_info::location(gates@[i].typ, CurrOrNext::Curr);
            let before = crate::lookup_info::location(gates@[i - 1].typ, CurrOrNext::Next);
            if i < gates@.len() && map.contains_key(own) {
                r@[i]@ == info.kinds@[map[own] as int]@
            } else if 0 < i && map.contains_key(before) {
                r@[i]@ == info.kinds@[map[before] as int]@
            } else {
                r@[i]@.len() == 0
            }
        }),
{
    lemma_row_lookups(info, gates@, r@, i);
}

/// What `lookup_used` returns: joint if and only if the map gives one of the gates, on its own row
/// or on the next, a kind that is not empty, and nothing if and only if it gives no gate any kind.
pub proof fn lemma_lookup_used_call<F>(
    info: &LookupInfo<F>,
    gates: &[CircuitGate<F>],
    r: Option<LookupsUsed>,
)
    requires
        call_ensures(LookupInfo::<F>::lookup_used, (info, gates), r),
    ensures
        r == Some(LookupsUsed::Joint) <==> exists|i: int, row: CurrOrNext|
            {
                let l = #[trigger] crate::lookup_info::location(gates@[i].typ, row);
                &&& 0 <= i < gates@.len()
                &&& info.kinds_map@.contains_key(l)
                &&& info.kinds_map@[l] < info.kinds@.len()
                &&& info.kinds@[info.kinds_map@[l] as int]@.len() > 0
            },
        r is None <==> forall|i: int, row: CurrOrNext|
            0 <= i < gates@.len() ==> !info.kinds_map@.contains_key(
                #[trigger] crate::lookup_info::location(gates@[i].typ, row),
            ),
{
    lemma_used_by_map(info, gates@);
}

/// What `create` returns: a configuration with the given kinds and maps, no lookups for rows without
/// any, and the maxima of the kinds.
pub proof fn lemma_create_call<F>(
    kinds: Vec<Vec<JointLookupSpec<F>>>,
    maps: GatesLookupMaps,
    r: LookupInfo<F>,
)
    requires
        call_ensures(LookupInfo::<F>::create, (kinds, maps), r),
    ensures
        r.kinds == kinds,
        r.kinds_map == maps.gate_selector_map,
        r.kinds_tables == maps.gate_table_map,
        r.empty@.len() == 0,
        forall|i: int| 0 <= i < kinds@.len() ==> (#[trigger] kinds@[i])@.len() <= r.max_per_row,
        r.max_per_row == 0 || exists|i: int|
            0 <= i < kinds@.len() && (#[trigger] kinds@[i])@.len() == r.max_per_row,
        forall|i: int, j: int|
            0 <= i < kinds@.len() && 0 <= j < kinds@[i]@.len() ==> (
            #[trigger] kinds@[i]@[j]).entry@.len() as u32 <= r.max_joint_size,
        r.max_joint_size == 0 || exists|i: int, j: int|
            0 <= i < kinds@.len() && 0 <= j < kinds@[i]@.len() && (
            #[trigger] kinds@[i]@[j]).entry@.len() as u32 == r.max_joint_size,
{
    lemma_maxima(&r);
}

/// What `max_lookups_per_row` returns: the length of the longest kind, or zero without one.
pub proof fn lemma_max_lookups_per_row_call<F>(kinds: &[Vec<JointLookupSpec<F>>], r: usize)
    requires
        call_ensures(crate::lookup_info::max_lookups_per_row::<F>, (kinds,), r),
    ensures
        forall|i: int| 0 <= i < kinds@.len() ==> (#[trigger] kinds@[i])@.len() <= r,
        r == 0 || exists|i: int| 0 <= i < kinds@.len() && (#[trigger] kinds@[i])@.len() == r,
{
    lemma_max_per_row(kinds@, r as int);
}

/// What `evaluate` returns for a combination: the last of the sums that start at zero and grow,
/// term by term, by what is read at the position of the term times its coefficient.
pub proof fn lemma_evaluate_call<F: Copy + View, K: Scale<F>, G: Fn(LocalPosition) -> K>(
    lookup: &SingleLookup<F>,
    eval: G,
    r: K,
)
    requires
        call_ensures(SingleLookup::<F>::evaluate::<K, G>, (lookup, eval), r),
    ensures
        exists|xs: Seq<K>, sums: Seq<K::V>|
            {
                &&& #[trigger] xs.len() == lookup.value@.len()
                &&& forall|i: int|
                    0 <= i < xs.len() ==> call_ensures(
                        eval,
                        (lookup.value@[i].1,),
                        #[trigger] xs[i],
                    )
                &&& #[trigger] sums.len() == lookup.value@.len() + 1
                &&& sums[0] == K::zero_view()
                &&& forall|i: int|
                    0 <= i < xs.len() ==> #[trigger] sums[i + 1] == K::add_view(
                        sums[i],
                        K::scale_view(xs[i]@, lookup.value@[i].0@),
                    )
                &&& r@ == sums[lookup.value@.len() as int]
            },
{
    lemma_every_term_counts::<F, K, G>(lookup, eval, r@);
}

/// What `reduce` returns: the same table and as many components as combinations, each a value of its
/// combination.
pub proof fn lemma_reduce_call<F: Copy + View, K: Scale<F>, G: Fn(LocalPosition) -> K>(
    lookup: &JointLookupSpec<F>,
    eval: &G,
    r: JointLookup<K>,
)
    requires
        call_ensures(JointLookup::<SingleLookup<F>>::reduce::<K, G>, (lookup, eval), r),
    ensures
        r.table_id == lookup.table_id,
        r.entry@.len() == lookup.entry@.len(),
        forall|i: int|
            0 <= i < lookup.entry@.len() ==> (#[trigger] lookup.entry@[i]).evaluates_to::<K, G>(
                *eval,
                r.entry@[i]@,
            ),
{
    let out = crate::domain::views(r.entry@);
    lemma_every_component_counts::<F, K, G>(lookup, *eval, out);
    assert forall|i: int| 0 <= i < lookup.entry@.len() implies (
    #[trigger] lookup.entry@[i]).evaluates_to::<K, G>(*eval, r.entry@[i]@) by {
        assert(out[i] == r.entry@[i]@);
    }
}

/// What `combine_table_entry` returns: the last of the values that start at zero and, from the last
/// component to the first, are multiplied by the joint combiner before the component is added.
pub proof fn lemma_combine_call<F: Zero + One>(x: F, entry: &Vec<F>, r: F)
    requires
        call_ensures(crate::lookup::combine_table_entry::<F>, (x, entry), r),
    ensures
        exists|partial: Seq<F::V>|
            {
                &&& #[trigger] partial.len() == entry@.len() + 1
                &&& partial[entry@.len() as int] == F::zero_view()
                &&& forall|i: int|
                    0 <= i < entry@.len() ==> #[trigger] partial[i] == F::add_view(
                        F::mul_view(x@, partial[i + 1]),
                        entry@[i]@,
                    )
                &&& r@ == partial[0]
            },
{
    lemma_every_entry_counts::<F>(x@, entry@);
}

/// What `selector_polynomials_and_tables` returns: for each kind of lookups the extension to the
/// larger domain of the column that is one where the map asks for that kind and zero elsewhere, and
/// among the tables every one that the other map gives a gate with a place in the domain of the rows.
pub proof fn lemma_selectors_call<F: FftField, T, G: Fn(GateLookupTable) -> T>(
    info: &LookupInfo<F>,
    domain: &EvaluationDomains,
    gates: &[CircuitGate<F>],
    get_table: &G,
    r: (Vec<Evaluations<F>>, Vec<T>),
    k: int,
    column: Seq<F::V>,
)
    requires
        call_ensures(
            LookupInfo::<F>::selector_polynomials_and_tables::<T, G>,
            (info, domain, gates, get_table),
            r,
        ),
        0 <= k < info.kinds@.len(),
        column.len() == domain.d1.size,
        forall|i: int|
            0 <= i < column.len() ==> {
                let own = crate::lookup_info::location(gates@[i].typ, CurrOrNext::Curr);
                let before = crate::lookup_info::location(gates@[i - 1].typ, CurrOrNext::Next);
                #[trigger] column[i] == if (i < gates@.len() && info.kinds_map@.contains_key(own)
                    && info.kinds_map@[own] == k) || (0 < i <= gates@.len()
                    && info.kinds_map@.contains_key(before) && info.kinds_map@[before] == k) {
                    F::one_view()
                } else {
                    F::zero_view()
                }
            },
    ensures
        r.0@.len() == info.kinds@.len(),
        r.0@[k].domain == domain.d8,
        r.0@[k].evals@.len() == domain.d8.size,
        F::extends(column, Seq::new(r.0@[k].evals@.len(), |j: int| r.0@[k].evals@[j]@)),
        forall|i: int, row: CurrOrNext|
            0 <= i < gates@.len() && i < domain.d1.size && info.kinds_tables@.contains_key(
                #[trigger] crate::lookup_info::location(gates@[i].typ, row),
            ) ==> exists|j: int|
                0 <= j < r.1@.len() && call_ensures(
                    *get_table,
                    (info.kinds_tables@[crate::lookup_info::location(gates@[i].typ, row)],),
                    #[trigger] r.1@[j],
                ),
{
    lemma_selector_by_map(info, domain, gates@, r.0@, k, column);
    lemma_tables_by_map(info, gates@, domain.d1.size as nat, *get_table, r.1@);
}

/// What `evaluate` returns for a vector: the last of the values that start at zero and, from the
/// last component to the first, are multiplied by the joint combiner before the component is added.
pub proof fn lemma_joint_evaluate_call<F: Zero + One>(lookup: &JointLookup<F>, x: F, r: F)
    requires
        call_ensures(JointLookup::<F>::evaluate, (lookup, x), r),
    ensures
        exists|partial: Seq<F::V>|
            {
                &&& #[trigger] partial.len() == lookup.entry@.len() + 1
                &&& partial[lookup.entry@.len() as int] == F::zero_view()
                &&& forall|i: int|
                    0 <= i < lookup.entry@.len() ==> #[trigger] partial[i] == F::add_view(
                        F::mul_view(x@, partial[i + 1]),
                        lookup.entry@[i]@,
                    )
                &&& r@ == partial[0]
            },
{
    lemma_every_entry_counts::<F>(x@, lookup.entry@);
}

/// What `evaluate` returns for a vector of combinations: the combined value of a vector with as many
/// components, each a value of its combination.
pub proof fn lemma_joint_spec_evaluate_call<
    F: Copy + View,
    K: Scale<F> + One,
    G: Fn(LocalPosition) -> K,
>(lookup: &JointLookupSpec<F>, x: K, eval: &G, r: K)
    requires
        call_ensures(JointLookup::<SingleLookup<F>>::evaluate::<K, G>, (lookup, x, eval), r),
    ensures
        exists|entry: Seq<K::V>, partial: Seq<K::V>|
            {
                &&& #[trigger] entry.len() == lookup.entry@.len()
                &&& forall|i: int|
                    0 <= i < lookup.entry@.len() ==> (
                    #[trigger] lookup.entry@[i]).evaluates_to::<K, G>(*eval, entry[i])
                &&& #[trigger] partial.len() == lookup.entry@.len() + 1
                &&& partial[lookup.entry@.len() as int] == K::zero_view()
                &&& forall|i: int|
                    0 <= i < lookup.entry@.len() ==> #[trigger] partial[i] == K::add_view(
                        K::mul_view(x@, partial[i + 1]),
                        entry[i],
                    )
                &&& r@ == partial[0]
            },
{
    let entry = choose|entry: Seq<K::V>| #[trigger]
        lookup.reduces_to::<K, G>(*eval, entry) && r@ == crate::lookup::combined_entry::<K>(
            x@,
            entry,
        );
    lemma_every_component_counts::<F, K, G>(lookup, *eval, entry);
    let n = entry.len();
    let partial = Seq::new(n + 1, |i: int| crate::lookup::combined_entry::<K>(x@, entry.skip(i)));
    assert(entry.skip(n as int) =~= Seq::empty());
    assert(entry.skip(0) =~= entry);
    assert forall|i: int| 0 <= i < lookup.entry@.len() implies #[trigger] partial[i]
        == K::add_view(K::mul_view(x@, partial[i + 1]), entry[i]) by {
        assert(entry.skip(i).drop_first() =~= entry.skip(i + 1));
        assert(entry.skip(i)[0] == entry[i]);
    }
    assert(entry.len() == lookup.entry@.len() && partial.len() == lookup.entry@.len() + 1);
}

} // verus!
