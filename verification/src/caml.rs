//! Gates in the shape in which they cross into OCaml, which has no arrays of fixed size.

use vstd::prelude::*;

use crate::gate::{CircuitGate, GateType, Wire, PERMUTS};
use itertools::Itertools;

verus! {

/// `Itertools::next_tuple` of `itertools`, on the items of a vector and for a tuple of seven: the
/// first seven items in order, or nothing if there are fewer.
#[verifier::external_body]
fn next_seven<T>(items: Vec<T>) -> (r: Option<(T, T, T, T, T, T, T)>)
    ensures
        r is Some <==> items@.len() >= 7,
        r matches Some(t) ==> seq![t.0, t.1, t.2, t.3, t.4, t.5, t.6] == items@.take(7),
{
    items.into_iter().next_tuple()
}

/// A list of values may have been converted into the other, value by value.
pub open spec fn converted<T1, T2: From<T1>>(a: Seq<T1>, b: Seq<T2>) -> bool {
    &&& a.len() == b.len()
    &&& forall|i: int| 0 <= i < a.len() ==> call_ensures(T2::from, (a[i],), #[trigger] b[i])
}

/// The components of a tuple of seven.
pub open spec fn tuple_items<T>(t: (T, T, T, T, T, T, T)) -> Seq<T> {
    seq![t.0, t.1, t.2, t.3, t.4, t.5, t.6]
}

/// Converts the values of an array into the components of a tuple.
pub fn array_to_tuple<T1: Copy, T2: From<T1>>(a: [T1; PERMUTS]) -> (r: (
    T2,
    T2,
    T2,
    T2,
    T2,
    T2,
    T2,
))
    ensures
        converted(a@, tuple_items(r)),
{
    let mut items: Vec<T2> = Vec::new();
    for i in 0..PERMUTS
        invariant
            items@.len() == i,
            forall|j: int| 0 <= j < i ==> call_ensures(T2::from, (a@[j],), #[trigger] items@[j]),
    {
        items.push(T2::from(a[i]));
    }
    let ghost all = items@;
    match next_seven(items) {
        Some(t) => {
            assert(tuple_items(t) =~= all);
            t
        },
        None => {
            assert(false);
            vstd::pervasive::unreached()
        },
    }
}

/// Converts the components of a tuple into the values of an array.
pub fn tuple_to_array<T1, T2: From<T1>>(a: (T1, T1, T1, T1, T1, T1, T1)) -> (r: [T2; PERMUTS])
    ensures
        converted(tuple_items(a), r@),
{
    let r = [
        T2::from(a.0),
        T2::from(a.1),
        T2::from(a.2),
        T2::from(a.3),
        T2::from(a.4),
        T2::from(a.5),
        T2::from(a.6),
    ];
    r
}

/// Converts the values of a vector.
fn convert_all<T1, T2: From<T1>>(a: Vec<T1>) -> (r: Vec<T2>)
    ensures
        converted(a@, r@),
{
    let ghost all = a@;
    let mut r: Vec<T2> = Vec::new();
    for x in it: a
        invariant
            it.seq() == all,
            r@.len() == it.index(),
            forall|j: int|
                0 <= j < it.index() ==> call_ensures(T2::from, (all[j],), #[trigger] r@[j]),
    {
        r.push(T2::from(x));
    }
    r
}

/// Converts copies of the values of a vector.
fn convert_copies<T1: Copy, T2: From<T1>>(a: &Vec<T1>) -> (r: Vec<T2>)
    ensures
        converted(a@, r@),
{
    let mut r: Vec<T2> = Vec::new();
    for i in 0..a.len()
        invariant
            r@.len() == i,
            forall|j: int| 0 <= j < i ==> call_ensures(T2::from, (a@[j],), #[trigger] r@[j]),
    {
        r.push(T2::from(a[i]));
    }
    r
}

/// A wire on its way to or from OCaml.
#[derive(Clone, Copy, Debug, PartialEq, Eq, Structural)]
pub struct CamlWire {
    /// The row of the cell.
    pub row: usize,
    /// The column of the cell.
    pub col: usize,
}

impl From<Wire> for CamlWire {
    fn from(w: Wire) -> (r: Self) {
        CamlWire { row: w.row, col: w.col }
    }
}

impl vstd::std_specs::convert::FromSpecImpl<Wire> for CamlWire {
    open spec fn obeys_from_spec() -> bool {
        true
    }

    open spec fn from_spec(w: Wire) -> Self {
        CamlWire { row: w.row, col: w.col }
    }
}

impl From<CamlWire> for Wire {
    fn from(w: CamlWire) -> (r: Self) {
        Wire { row: w.row, col: w.col }
    }
}

impl vstd::std_specs::convert::FromSpecImpl<CamlWire> for Wire {
    open spec fn obeys_from_spec() -> bool {
        true
    }

    open spec fn from_spec(w: CamlWire) -> Self {
        Wire { row: w.row, col: w.col }
    }
}

/// A gate on its way to or from OCaml.
pub struct CamlCircuitGate<F> {
    /// The kind of gate.
    pub typ: GateType,
    /// The wiring.
    pub wires: (CamlWire, CamlWire, CamlWire, CamlWire, CamlWire, CamlWire, CamlWire),
    /// The coefficients.
    pub coeffs: Vec<F>,
}

impl<CamlF> CamlCircuitGate<CamlF> {
    /// It may have been made from the given gate: same kind, same wires, coefficients
    /// converted one by one.
    pub open spec fn made_from<F>(&self, cg: CircuitGate<F>) -> bool where CamlF: From<F> {
        &&& self.typ == cg.typ
        &&& converted(cg.wires@, tuple_items(self.wires))
        &&& converted(cg.coeffs@, self.coeffs@)
    }

    /// The given gate may have been made from this one: same kind, same wires, coefficients
    /// converted one by one.
    pub open spec fn made_into<F: From<CamlF>>(&self, cg: CircuitGate<F>) -> bool {
        &&& cg.typ == self.typ
        &&& converted(tuple_items(self.wires), cg.wires@)
        &&& converted(self.coeffs@, cg.coeffs@)
    }
}

impl<F, CamlF: From<F>> From<CircuitGate<F>> for CamlCircuitGate<CamlF> {
    fn from(cg: CircuitGate<F>) -> (r: Self)
        ensures
            r.made_from(cg),
    {
        CamlCircuitGate {
            typ: cg.typ,
            wires: array_to_tuple(cg.wires),
            coeffs: convert_all(cg.coeffs),
        }
    }
}

impl<F, CamlF: From<F>> vstd::std_specs::convert::FromSpecImpl<CircuitGate<F>>
    for CamlCircuitGate<CamlF> {
    open spec fn obeys_from_spec() -> bool {
        false
    }

    open spec fn from_spec(cg: CircuitGate<F>) -> Self {
        arbitrary()
    }
}

impl<F: Copy, CamlF: From<F>> From<&CircuitGate<F>> for CamlCircuitGate<CamlF> {
    fn from(cg: &CircuitGate<F>) -> (r: Self)
        ensures
            r.made_from(*cg),
    {
        CamlCircuitGate {
            typ: cg.typ,
            wires: array_to_tuple(cg.wires),
            coeffs: convert_copies(&cg.coeffs),
        }
    }
}

impl<F: Copy, CamlF: From<F>> vstd::std_specs::convert::FromSpecImpl<&CircuitGate<F>>
    for CamlCircuitGate<CamlF> {
    open spec fn obeys_from_spec() -> bool {
        false
    }

    open spec fn from_spec(cg: &CircuitGate<F>) -> Self {
        arbitrary()
    }
}

impl<CamlF, F: From<CamlF>> From<CamlCircuitGate<CamlF>> for CircuitGate<F> {
    fn from(ccg: CamlCircuitGate<CamlF>) -> (r: Self)
        ensures
            ccg.made_into(r),
    {
        CircuitGate {
            typ: ccg.typ,
            wires: tuple_to_array(ccg.wires),
            coeffs: convert_all(ccg.coeffs),
        }
    }
}

impl<CamlF, F: From<CamlF>> vstd::std_specs::convert::FromSpecImpl<CamlCircuitGate<CamlF>>
    for CircuitGate<F> {
    open spec fn obeys_from_spec() -> bool {
        false
    }

    open spec fn from_spec(ccg: CamlCircuitGate<CamlF>) -> Self {
        arbitrary()
    }
}

/// A gate that goes to OCaml and comes back is the same gate, wherever the conversion back of its
/// coefficients undoes the conversion there.
pub proof fn lemma_round_trip<F: From<CamlF>, CamlF: From<F>>(
    gate: CircuitGate<F>,
    there: CamlCircuitGate<CamlF>,
    back: CircuitGate<F>,
)
    requires
        there.made_from(gate),
        there.made_into(back),
        forall|i: int, y: CamlF, z: F|
            #![trigger call_ensures(CamlF::from, (gate.coeffs@[i],), y), call_ensures(
                F::from,
                (y,),
                z,
            )]
            0 <= i < gate.coeffs@.len() && call_ensures(CamlF::from, (gate.coeffs@[i],), y)
                && call_ensures(F::from, (y,), z) ==> z == gate.coeffs@[i],
    ensures
        back.typ == gate.typ,
        back.wires@ == gate.wires@,
        back.coeffs@ == gate.coeffs@,
{
    let w = tuple_items(there.wires);
    assert forall|i: int| 0 <= i < gate.wires@.len() implies gate.wires@[i] == back.wires@[i] by {
        assert(call_ensures(CamlWire::from, (gate.wires@[i],), w[i]));
        assert(call_ensures(Wire::from, (w[i],), back.wires@[i]));
    }
    assert(back.wires@ =~= gate.wires@);
    assert forall|i: int| 0 <= i < gate.coeffs@.len() implies gate.coeffs@[i]
        == back.coeffs@[i] by {
        assert(call_ensures(CamlF::from, (gate.coeffs@[i],), there.coeffs@[i]));
        assert(call_ensures(F::from, (there.coeffs@[i],), back.coeffs@[i]));
    }
    assert(back.coeffs@ =~= gate.coeffs@);
}

/// A gate goes to OCaml in one way, whether it is converted by value or by reference: its kind is
/// kept, each wire becomes the wire with the same row and column, and the coefficients are the
/// same wherever the conversion of each of them gives one answer.
pub proof fn lemma_conversions_agree<F, CamlF: From<F>>(
    gate: CircuitGate<F>,
    a: CamlCircuitGate<CamlF>,
    b: CamlCircuitGate<CamlF>,
)
    requires
        a.made_from(gate),
        b.made_from(gate),
        forall|i: int, x: CamlF, y: CamlF|
            #![trigger call_ensures(CamlF::from, (gate.coeffs@[i],), x), call_ensures(
                CamlF::from,
                (gate.coeffs@[i],),
                y,
            )]
            0 <= i < gate.coeffs@.len() && call_ensures(CamlF::from, (gate.coeffs@[i],), x)
                && call_ensures(CamlF::from, (gate.coeffs@[i],), y) ==> x == y,
    ensures
        a.typ == b.typ,
        a.wires == b.wires,
        forall|i: int|
            0 <= i < PERMUTS ==> #[trigger] tuple_items(a.wires)[i] == (CamlWire {
                row: gate.wires@[i].row,
                col: gate.wires@[i].col,
            }),
        a.coeffs@ == b.coeffs@,
{
    let (v, w) = (tuple_items(a.wires), tuple_items(b.wires));
    assert forall|i: int| 0 <= i < PERMUTS implies #[trigger] v[i] == (CamlWire {
        row: gate.wires@[i].row,
        col: gate.wires@[i].col,
    }) && v[i] == w[i] by {
        assert(call_ensures(CamlWire::from, (gate.wires@[i],), v[i]));
        assert(call_ensures(CamlWire::from, (gate.wires@[i],), w[i]));
    }
    assert(a.wires == b.wires) by {
        assert(v[0] == w[0] && v[1] == w[1] && v[2] == w[2] && v[3] == w[3] && v[4] == w[4] && v[5]
            == w[5] && v[6] == w[6]);
    }
    assert forall|i: int| 0 <= i < gate.coeffs@.len() implies a.coeffs@[i] == b.coeffs@[i] by {
        assert(call_ensures(CamlF::from, (gate.coeffs@[i],), a.coeffs@[i]));
        assert(call_ensures(CamlF::from, (gate.coeffs@[i],), b.coeffs@[i]));
    }
    assert(a.coeffs@ =~= b.coeffs@);
}

/// The tuple that an array is converted into holds, in order, what its values are converted into.
pub proof fn lemma_array_by_parts<T1, T2: From<T1>>(
    a: [T1; PERMUTS],
    t: (T2, T2, T2, T2, T2, T2, T2),
)
    requires
        converted(a@, tuple_items(t)),
    ensures
        call_ensures(T2::from, (a@[0],), t.0),
        call_ensures(T2::from, (a@[1],), t.1),
        call_ensures(T2::from, (a@[2],), t.2),
        call_ensures(T2::from, (a@[3],), t.3),
        call_ensures(T2::from, (a@[4],), t.4),
        call_ensures(T2::from, (a@[5],), t.5),
        call_ensures(T2::from, (a@[6],), t.6),
{
    let items = tuple_items(t);
    assert(items.len() == 7);
    assert(call_ensures(T2::from, (a@[0],), items[0]));
    assert(call_ensures(T2::from, (a@[1],), items[1]));
    assert(call_ensures(T2::from, (a@[2],), items[2]));
    assert(call_ensures(T2::from, (a@[3],), items[3]));
    assert(call_ensures(T2::from, (a@[4],), items[4]));
    assert(call_ensures(T2::from, (a@[5],), items[5]));
    assert(call_ensures(T2::from, (a@[6],), items[6]));
}

/// The array that a tuple is converted into holds, in order, what its components are converted into.
pub proof fn lemma_tuple_by_parts<T1, T2: From<T1>>(
    t: (T1, T1, T1, T1, T1, T1, T1),
    a: [T2; PERMUTS],
)
    requires
        converted(tuple_items(t), a@),
    ensures
        call_ensures(T2::from, (t.0,), a@[0]),
        call_ensures(T2::from, (t.1,), a@[1]),
        call_ensures(T2::from, (t.2,), a@[2]),
        call_ensures(T2::from, (t.3,), a@[3]),
        call_ensures(T2::from, (t.4,), a@[4]),
        call_ensures(T2::from, (t.5,), a@[5]),
        call_ensures(T2::from, (t.6,), a@[6]),
{
    let items = tuple_items(t);
    assert(items.len() == 7);
    assert(call_ensures(T2::from, (items[0],), a@[0]));
    assert(call_ensures(T2::from, (items[1],), a@[1]));
    assert(call_ensures(T2::from, (items[2],), a@[2]));
    assert(call_ensures(T2::from, (items[3],), a@[3]));
    assert(call_ensures(T2::from, (items[4],), a@[4]));
    assert(call_ensures(T2::from, (items[5],), a@[5]));
    assert(call_ensures(T2::from, (items[6],), a@[6]));
}

/// A gate for OCaml has the same kind as what it is made from, the same wires in order, and as many
/// coefficients, each what the coefficient in its place is converted into.
pub proof fn lemma_made_from_by_parts<F, CamlF: From<F>>(
    gate: CircuitGate<F>,
    there: CamlCircuitGate<CamlF>,
)
    requires
        there.made_from(gate),
    ensures
        there.typ == gate.typ,
        there.wires.0.row == gate.wires@[0].row && there.wires.0.col == gate.wires@[0].col,
        there.wires.1.row == gate.wires@[1].row && there.wires.1.col == gate.wires@[1].col,
        there.wires.2.row == gate.wires@[2].row && there.wires.2.col == gate.wires@[2].col,
        there.wires.3.row == gate.wires@[3].row && there.wires.3.col == gate.wires@[3].col,
        there.wires.4.row == gate.wires@[4].row && there.wires.4.col == gate.wires@[4].col,
        there.wires.5.row == gate.wires@[5].row && there.wires.5.col == gate.wires@[5].col,
        there.wires.6.row == gate.wires@[6].row && there.wires.6.col == gate.wires@[6].col,
        there.coeffs@.len() == gate.coeffs@.len(),
        forall|i: int|
            0 <= i < gate.coeffs@.len() ==> call_ensures(
                CamlF::from,
                (gate.coeffs@[i],),
                #[trigger] there.coeffs@[i],
            ),
{
    lemma_array_by_parts(gate.wires, there.wires);
}

/// A gate made from one of OCaml has its kind, its wires in order, and as many coefficients, each
/// what the coefficient in its place is converted into.
pub proof fn lemma_made_into_by_parts<CamlF, F: From<CamlF>>(
    there: CamlCircuitGate<CamlF>,
    gate: CircuitGate<F>,
)
    requires
        there.made_into(gate),
    ensures
        gate.typ == there.typ,
        gate.wires@[0].row == there.wires.0.row && gate.wires@[0].col == there.wires.0.col,
        gate.wires@[1].row == there.wires.1.row && gate.wires@[1].col == there.wires.1.col,
        gate.wires@[2].row == there.wires.2.row && gate.wires@[2].col == there.wires.2.col,
        gate.wires@[3].row == there.wires.3.row && gate.wires@[3].col == there.wires.3.col,
        gate.wires@[4].row == there.wires.4.row && gate.wires@[4].col == there.wires.4.col,
        gate.wires@[5].row == there.wires.5.row && gate.wires@[5].col == there.wires.5.col,
        gate.wires@[6].row == there.wires.6.row && gate.wires@[6].col == there.wires.6.col,
        gate.coeffs@.len() == there.coeffs@.len(),
        forall|i: int|
            0 <= i < there.coeffs@.len() ==> call_ensures(
                F::from,
                (there.coeffs@[i],),
                #[trigger] gate.coeffs@[i],
            ),
{
    lemma_tuple_by_parts(there.wires, gate.wires);
}

/// What `array_to_tuple` returns: in order, what the values of the array are converted into.
pub proof fn lemma_array_to_tuple_call<T1: Copy, T2: From<T1>>(
    a: [T1; PERMUTS],
    t: (T2, T2, T2, T2, T2, T2, T2),
)
    requires
        call_ensures(array_to_tuple::<T1, T2>, (a,), t),
    ensures
        call_ensures(T2::from, (a@[0],), t.0),
        call_ensures(T2::from, (a@[1],), t.1),
        call_ensures(T2::from, (a@[2],), t.2),
        call_ensures(T2::from, (a@[3],), t.3),
        call_ensures(T2::from, (a@[4],), t.4),
        call_ensures(T2::from, (a@[5],), t.5),
        call_ensures(T2::from, (a@[6],), t.6),
{
    lemma_array_by_parts(a, t);
}

/// What `tuple_to_array` returns: in order, what the components of the tuple are converted into.
pub proof fn lemma_tuple_to_array_call<T1, T2: From<T1>>(
    t: (T1, T1, T1, T1, T1, T1, T1),
    a: [T2; PERMUTS],
)
    requires
        call_ensures(tuple_to_array::<T1, T2>, (t,), a),
    ensures
        call_ensures(T2::from, (t.0,), a@[0]),
        call_ensures(T2::from, (t.1,), a@[1]),
        call_ensures(T2::from, (t.2,), a@[2]),
        call_ensures(T2::from, (t.3,), a@[3]),
        call_ensures(T2::from, (t.4,), a@[4]),
        call_ensures(T2::from, (t.5,), a@[5]),
        call_ensures(T2::from, (t.6,), a@[6]),
{
    lemma_tuple_by_parts(t, a);
}

} // verus!
