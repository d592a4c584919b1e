//! The order of the rows of a sorted column.

use crate::datatypes::{values_view, AnyType, Value};
use crate::ops::order::before;
use crate::ops::sort::sort_partial_by;
use crate::series::Series;
use crate::take::{all_in_bounds, gather, lemma_take_fits, take_values};
use itertools::Itertools;
use vstd::prelude::*;

verus! {

/// Whether `rows` lists the rows of a column in sorted order: each row
/// once; no value before one that comes before it; rows of equal value in
/// the order of the column.
pub open spec fn is_argsort(rows: Seq<usize>, values: Seq<Value>, reverse: bool) -> bool {
    &&& rows.len() == values.len()
    &&& rows.no_duplicates()
    &&& all_in_bounds(rows, values.len())
    &&& forall|x: int, y: int|
        0 <= x < y < rows.len() ==> !before(
            values[(#[trigger] rows[y]) as int],
            values[(#[trigger] rows[x]) as int],
            reverse,
        )
    &&& forall|x: int, y: int|
        0 <= x < y < rows.len() && values[(#[trigger] rows[x]) as int] == values[(
        #[trigger] rows[y]) as int] ==> rows[x] < rows[y]
}

/// Whether a column is sorted.
pub open spec fn is_sorted(values: Seq<Value>, reverse: bool) -> bool {
    forall|x: int, y: int|
        0 <= x < y < values.len() ==> !before(#[trigger] values[y], #[trigger] values[x], reverse)
}

/// `itertools`' `sorted_by` over the numbered cells, with `sort_partial_by`
/// to compare: the rows in sorted order.  The sort is stable, so rows of
/// equal value keep their order.  Not proved; it relies on the order of
/// values being a total order, which `lemma_value_lt_order` shows.
#[verifier::external_body]
pub(crate) fn sorted_rows(cells: &Vec<AnyType>, reverse: bool) -> (rows: Vec<usize>)
    ensures
        is_argsort(rows@, values_view(cells@), reverse),
{
    cells.iter().enumerate().sorted_by(|a, b| sort_partial_by(a.1, b.1, reverse)).map(|p| p.0).collect()
}

/// Sorting a column.
pub trait ChunkSort: Sized {
    /// The rows of the column.
    spec fn sort_cells(&self) -> Seq<Value>;

    /// The column sorted, from large to small under `reverse`; nulls come
    /// first, or last under `reverse`.
    fn sort(&self, reverse: bool) -> Self;

    /// Sorts the column.
    fn sort_in_place(&mut self, reverse: bool);

    /// The rows of the column in sorted order; rows of equal value in the
    /// order of the column.
    fn argsort(&self, reverse: bool) -> (rows: Vec<usize>)
        ensures
            is_argsort(rows@, self.sort_cells(), reverse),
    ;
}

impl ChunkSort for Series {
    open spec fn sort_cells(&self) -> Seq<Value> {
        self@.values
    }

    fn sort(&self, reverse: bool) -> (r: Series)
        ensures
            r@.name == self@.name,
            r@.dtype == self@.dtype,
            is_sorted(r@.values, reverse),
            r@.values.to_multiset() == self@.values.to_multiset(),
            exists|rows: Seq<usize>|
                is_argsort(rows, self@.values, reverse) && r@.values == take_values(
                    self@.values,
                    rows,
                ),
    {
        let rows = self.argsort(reverse);
        let values = gather(self.values(), &rows, Some(rows.len()));
        let n = self.len();
        proof {
            lemma_take_fits(self@.values, rows@, self@.dtype);
            lemma_argsort_permutes(rows@, self@.values, reverse);
        }
        Series::from_fitting(self.name().clone(), self.dtype(), values)
    }

    fn sort_in_place(&mut self, reverse: bool)
        ensures
            final(self)@.name == old(self)@.name,
            final(self)@.dtype == old(self)@.dtype,
            is_sorted(final(self)@.values, reverse),
            final(self)@.values.to_multiset() == old(self)@.values.to_multiset(),
    {
        let sorted = self.sort(reverse);
        *self = sorted;
    }

    fn argsort(&self, reverse: bool) -> (rows: Vec<usize>) {
        sorted_rows(self.values(), reverse)
    }
}

/// A column gathered at its rows in sorted order is sorted and holds what
/// the column holds, each value as often.
pub proof fn lemma_argsort_permutes(rows: Seq<usize>, values: Seq<Value>, reverse: bool)
    requires
        values.len() <= usize::MAX,
        is_argsort(rows, values, reverse),
    ensures
        is_sorted(take_values(values, rows), reverse),
        take_values(values, rows).to_multiset() == values.to_multiset(),
{
    let taken = take_values(values, rows);
    assert forall|x: int, y: int| 0 <= x < y < taken.len() implies !before(
        #[trigger] taken[y],
        #[trigger] taken[x],
        reverse,
    ) by {
        assert(taken[y] == values[rows[y] as int]);
        assert(taken[x] == values[rows[x] as int]);
    }
    lemma_permutation_multiset(rows, values);
}

/// Gathering a column at rows that list each of its rows once gives the
/// values of the column, each as often.
pub proof fn lemma_permutation_multiset(rows: Seq<usize>, values: Seq<Value>)
    requires
        values.len() <= usize::MAX,
        rows.len() == values.len(),
        rows.no_duplicates(),
        all_in_bounds(rows, values.len()),
    ensures
        take_values(values, rows).to_multiset() == values.to_multiset(),
    decreases values.len(),
{
    broadcast use vstd::seq_lib::group_to_multiset_ensures;

    let taken = take_values(values, rows);
    if values.len() == 0 {
        assert(taken =~= values);
    } else {
        let n = (values.len() - 1) as usize;
        // the place of the last row among `rows`
        lemma_covers(rows, values.len());
        assert(rows.contains(n));
        let p = choose|p: int| 0 <= p < rows.len() && rows[p] == n;
        let rest_rows = rows.remove(p);
        let rest_values = values.drop_last();
        assert(rest_rows.no_duplicates()) by {
            assert forall|x: int, y: int|
                0 <= x < rest_rows.len() && 0 <= y < rest_rows.len() && x != y implies rest_rows[x]
                != rest_rows[y] by {
                let a = if x < p { x } else { x + 1 };
                let b = if y < p { y } else { y + 1 };
                assert(rest_rows[x] == rows[a] && rest_rows[y] == rows[b]);
            }
        }
        assert(all_in_bounds(rest_rows, rest_values.len())) by {
            assert forall|x: int| 0 <= x < rest_rows.len() implies (#[trigger] rest_rows[x])
                < rest_values.len() by {
                let a = if x < p { x } else { x + 1 };
                assert(rest_rows[x] == rows[a]);
                assert(rows[a] != rows[p]);
            }
        }
        lemma_permutation_multiset(rest_rows, rest_values);
        let rest_taken = take_values(rest_values, rest_rows);
        assert(rest_taken =~= taken.remove(p)) by {
            assert forall|x: int| 0 <= x < rest_taken.len() implies rest_taken[x] == taken.remove(
                p,
            )[x] by {
                let a = if x < p { x } else { x + 1 };
                assert(rest_rows[x] == rows[a]);
                assert(rows[a] != rows[p]);
            }
        }
        assert(taken[p] == values.last());
        vstd::seq_lib::to_multiset_remove(taken, p);
        vstd::seq_lib::to_multiset_build(rest_values, values.last());
        taken.to_multiset_ensures();
        assert(values =~= rest_values.push(values.last()));
        assert(taken.to_multiset().count(taken[p]) > 0) by {
            assert(taken.contains(taken[p]));
        }
        assert(taken.to_multiset() =~= taken.remove(p).to_multiset().insert(taken[p]));
    }
}

/// Rows that list `len` different rows below `len` list every row below
/// `len`.
pub proof fn lemma_covers(rows: Seq<usize>, len: nat)
    requires
        rows.len() == len,
        rows.no_duplicates(),
        all_in_bounds(rows, len),
        len <= usize::MAX,
    ensures
        forall|i: usize| i < len ==> rows.contains(i),
{
    let s = rows.to_set();
    let full = Set::new(|i: usize| i < len);
    rows.unique_seq_to_set();
    assert(s.subset_of(full)) by {
        assert forall|i: usize| s.contains(i) implies full.contains(i) by {
            let x = choose|x: int| 0 <= x < rows.len() && rows[x] == i;
            assert(rows[x] < len);
        }
    }
    lemma_below_set(len);
    vstd::set_lib::lemma_subset_equality(s, full);
    assert forall|i: usize| i < len implies rows.contains(i) by {
        assert(full.contains(i));
        assert(s.contains(i));
    }
}

/// There are `len` numbers below `len`.
pub proof fn lemma_below_set(len: nat)
    requires
        len <= usize::MAX,
    ensures
        Set::new(|i: usize| i < len).finite(),
        Set::new(|i: usize| i < len).len() == len,
    decreases len,
{
    let s = Set::new(|i: usize| i < len);
    if len == 0 {
        assert(s =~= Set::<usize>::empty());
    } else {
        let prev = Set::new(|i: usize| i < (len - 1) as nat);
        lemma_below_set((len - 1) as nat);
        assert(s =~= prev.insert((len - 1) as usize));
    }
}

} // verus!
