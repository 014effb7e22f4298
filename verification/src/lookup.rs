//! Lookups into tables, with the looked-up values given as combinations of cells.

use vstd::prelude::*;

use crate::field::{One, Scale, Zero};
use crate::gate::LocalPosition;

verus! {

/// The sum of the values, each multiplied by the coefficient beside it.
pub open spec fn linear_combination<F: View, K: Scale<F>>(
    coeffs: Seq<F::V>,
    values: Seq<K::V>,
) -> K::V
    decreases coeffs.len(),
{
    if coeffs.len() == 0 {
        K::zero_view()
    } else {
        K::add_view(
            linear_combination::<F, K>(coeffs.drop_last(), values.drop_last()),
            K::scale_view(values.last(), coeffs.last()),
        )
    }
}

/// The value at `x` of the polynomial whose coefficients are the entries, that of degree zero
/// first.
pub open spec fn combined_entry<F: Zero + One>(x: F::V, entries: Seq<F::V>) -> F::V
    decreases entries.len(),
{
    if entries.len() == 0 {
        F::zero_view()
    } else {
        F::add_view(F::mul_view(x, combined_entry::<F>(x, entries.drop_first())), entries[0])
    }
}

/// The combined value of the entry of a table: the entries are the coefficients of a polynomial,
/// that of degree zero first, and the combined value is its value at `joint_combiner`.
pub fn combine_table_entry<F: Zero + One>(joint_combiner: F, v: &Vec<F>) -> (r: F)
    ensures
        r@ == combined_entry::<F>(joint_combiner@, crate::domain::views(v@)),
{
    let ghost entries = crate::domain::views(v@);
    let mut acc = F::zero();
    let mut i: usize = v.len();
    assert(entries.skip(i as int) =~= Seq::empty());
    while i > 0
        invariant
            i <= v@.len(),
            entries == crate::domain::views(v@),
            acc@ == combined_entry::<F>(joint_combiner@, entries.skip(i as int)),
        decreases i,
    {
        i = i - 1;
        assert(entries.skip(i as int).drop_first() =~= entries.skip(i + 1));
        acc = joint_combiner.duplicate().times(acc).plus(v[i].duplicate());
    }
    assert(entries.skip(0) =~= entries);
    acc
}

/// A single value to look up: a combination of cells near a row.
#[derive(Clone)]
pub struct SingleLookup<F> {
    /// The cells, each with its coefficient.
    pub value: Vec<(F, LocalPosition)>,
}

impl<F: View> SingleLookup<F> {
    /// The coefficients.
    pub open spec fn coeffs(&self) -> Seq<F::V> {
        Seq::new(self.value@.len(), |i: int| self.value@[i].0@)
    }

    /// Every cell can be read.
    pub open spec fn readable<K, G: Fn(LocalPosition) -> K>(&self, eval: G) -> bool {
        forall|i: int|
            0 <= i < self.value@.len() ==> call_requires(eval, ((#[trigger] self.value@[i]).1,))
    }

    /// The cells may be read as the given values.
    pub open spec fn reads<K, G: Fn(LocalPosition) -> K>(&self, eval: G, cells: Seq<K>) -> bool {
        &&& cells.len() == self.value@.len()
        &&& forall|i: int|
            0 <= i < cells.len() ==> call_ensures(eval, (self.value@[i].1,), #[trigger] cells[i])
    }

    /// Each of the cells is read with one meaning.
    pub open spec fn read_once<K: View, G: Fn(LocalPosition) -> K>(&self, eval: G) -> bool {
        forall|i: int, x: K, y: K|
            #![trigger call_ensures(eval, (self.value@[i].1,), x), call_ensures(
                eval,
                (self.value@[i].1,),
                y,
            )]
            0 <= i < self.value@.len() && call_ensures(eval, (self.value@[i].1,), x)
                && call_ensures(eval, (self.value@[i].1,), y) ==> x@ == y@
    }

    /// The combination may come out as `out`.
    pub open spec fn evaluates_to<K: Scale<F>, G: Fn(LocalPosition) -> K>(
        &self,
        eval: G,
        out: K::V,
    ) -> bool {
        exists|cells: Seq<K>| #[trigger]
            self.reads(eval, cells) && out == linear_combination::<F, K>(
                self.coeffs(),
                crate::domain::views(cells),
            )
    }
}

impl<F: Copy + View> SingleLookup<F> {
    /// The value of the combination, with the cells read by `eval`.
    fn evaluate_by<K: Scale<F>, G: Fn(LocalPosition) -> K>(&self, eval: &G) -> (r: K)
        requires
            self.readable(*eval),
        ensures
            self.evaluates_to(*eval, r@),
    {
        let ghost coeffs = self.coeffs();
        let ghost mut cells: Seq<K> = Seq::empty();
        let mut acc = K::zero();
        assert(coeffs.take(0) =~= Seq::empty());
        for i in 0..self.value.len()
            invariant
                self.readable(*eval),
                coeffs == self.coeffs(),
                cells.len() == i,
                forall|j: int|
                    0 <= j < i ==> call_ensures(
                        *eval,
                        (self.value@[j].1,),
                        #[trigger] cells[j],
                    ),
                acc@ == linear_combination::<F, K>(
                    coeffs.take(i as int),
                    crate::domain::views(cells),
                ),
        {
            let (c, p) = self.value[i];
            let x = eval(p);
            let ghost before = cells;
            proof {
                cells = cells.push(x);
                assert(coeffs.take(i + 1).drop_last() =~= coeffs.take(i as int));
                assert(crate::domain::views(cells).drop_last() =~= crate::domain::views(before));
            }
            acc = acc.plus(x.scale(c));
        }
        assert(coeffs.take(coeffs.len() as int) =~= coeffs);
        assert(self.reads(*eval, cells));
        acc
    }

    /// The value of the combination, with the cells read by `eval`.
    pub fn evaluate<K: Scale<F>, G: Fn(LocalPosition) -> K>(&self, eval: G) -> (r: K)
        requires
            self.readable(eval),
        ensures
            self.evaluates_to(eval, r@),
    {
        self.evaluate_by(&eval)
    }
}

/// A vector to look up in a table of vectors.
#[derive(Clone)]
pub struct JointLookup<SingleLookup> {
    /// The table.
    pub table_id: i32,
    /// The components of the vector.
    pub entry: Vec<SingleLookup>,
}

/// A vector to look up in a table of vectors, whose components are combinations of cells near a
/// row.
pub type JointLookupSpec<F> = JointLookup<SingleLookup<F>>;

impl<F: Zero + One> JointLookup<F> {
    /// The combined value of the vector.
    pub fn evaluate(&self, joint_combiner: F) -> (r: F)
        ensures
            r@ == combined_entry::<F>(joint_combiner@, crate::domain::views(self.entry@)),
    {
        combine_table_entry(joint_combiner, &self.entry)
    }
}

impl<F: View> JointLookup<SingleLookup<F>> {
    /// Every cell of every component can be read.
    pub open spec fn readable<K, G: Fn(LocalPosition) -> K>(&self, eval: G) -> bool {
        forall|i: int| 0 <= i < self.entry@.len() ==> (#[trigger] self.entry@[i]).readable(eval)
    }

    /// Each of the cells of each component is read with one meaning.
    pub open spec fn read_once<K: View, G: Fn(LocalPosition) -> K>(&self, eval: G) -> bool {
        forall|i: int|
            0 <= i < self.entry@.len() ==> (#[trigger] self.entry@[i]).read_once::<K, G>(eval)
    }

    /// The components may come out as the given values.
    pub open spec fn reduces_to<K: Scale<F>, G: Fn(LocalPosition) -> K>(
        &self,
        eval: G,
        out: Seq<K::V>,
    ) -> bool {
        &&& out.len() == self.entry@.len()
        &&& forall|i: int|
            0 <= i < out.len() ==> self.entry@[i].evaluates_to::<K, G>(eval, #[trigger] out[i])
    }
}

impl<F: Copy + View> JointLookup<SingleLookup<F>> {
    /// The vector itself: each component is the value of its combination, with the cells read by
    /// `eval`.
    pub fn reduce<K: Scale<F>, G: Fn(LocalPosition) -> K>(&self, eval: &G) -> (r: JointLookup<K>)
        requires
            self.readable(*eval),
        ensures
            r.table_id == self.table_id,
            self.reduces_to::<K, G>(*eval, crate::domain::views(r.entry@)),
    {
        let mut entry: Vec<K> = Vec::new();
        for i in 0..self.entry.len()
            invariant
                self.readable(*eval),
                entry@.len() == i,
                forall|j: int|
                    0 <= j < i ==> self.entry@[j].evaluates_to::<K, G>(
                        *eval,
                        (#[trigger] entry@[j])@,
                    ),
        {
            entry.push(self.entry[i].evaluate_by(eval));
        }
        JointLookup { table_id: self.table_id, entry }
    }

    /// The combined value of the vector, with the cells read by `eval`.
    pub fn evaluate<K: Scale<F> + One, G: Fn(LocalPosition) -> K>(
        &self,
        joint_combiner: K,
        eval: &G,
    ) -> (r: K)
        requires
            self.readable(*eval),
        ensures
            exists|entries: Seq<K::V>| #[trigger]
                self.reduces_to::<K, G>(*eval, entries) && r@ == combined_entry::<K>(
                    joint_combiner@,
                    entries,
                ),
    {
        let reduced = self.reduce::<K, G>(eval);
        let ghost entries = crate::domain::views(reduced.entry@);
        assert(self.reduces_to::<K, G>(*eval, entries));
        reduced.evaluate(joint_combiner)
    }
}

} // verus!
