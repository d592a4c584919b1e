//! Group-by: the rows of a column grouped by value, and the aggregations
//! over the groups.

use crate::datatypes::{values_view, AnyType, DataType, Value};
use crate::error::{PolarsError, PolarsResult};
use crate::frame::{
    columns_view, distinct_names, equal_heights, lemma_name_index, name_index, DataFrame,
};
use crate::group_agg::{fold_group, integer_like, is_integer_like, lemma_fold_fits, mean_parts, Agg};
use crate::group_par::{par_agg, par_mean};
use crate::hash_join::frames::outcome;
use crate::ops::fill::result_view;
use crate::hash_join::keys::{
    column_keys, key_view, keys_view, row_key, row_keys, single_rows, JoinKey,
};
use crate::hash_join::prepare::prepare_hashed_relation;
use crate::hash_join::relation::{
    lemma_rows_empty, lemma_rows_mapped, lemma_rows_with_key, maps_apart, rows_by_key,
    rows_with_key,
};
use crate::hash_join::rows::lemma_row_keys_apart;
use crate::hash_join::table::{lists_all_of, table_drain};
use crate::hash_join::tuples::append_copy;
use crate::series::{Series, SeriesView};
use crate::take::{all_in_bounds, take_values, Take};
use vstd::prelude::*;
use vstd::string::StringExecFns;

verus! {

/// The groups as pairs of a first row and all rows.
pub open spec fn groups_view(groups: Seq<(usize, Vec<usize>)>) -> Seq<(usize, Seq<usize>)> {
    Seq::new(groups.len(), |g: int| (groups[g].0, groups[g].1@))
}

/// Whether `groups` groups the rows of `keys` by key: each group holds all
/// rows of one key, in ascending order, and names the first of them; no
/// two groups are of the same key; and every key that a row holds has its
/// group.  The order of the groups is not defined.
pub open spec fn is_grouping<K>(groups: Seq<(usize, Seq<usize>)>, keys: Seq<K>) -> bool {
    &&& forall|g: int|
        0 <= g < groups.len() ==> (#[trigger] groups[g]).0 < keys.len() && groups[g].1
            == rows_with_key(keys, keys[groups[g].0 as int]) && groups[g].1.len() > 0
            && groups[g].1[0] == groups[g].0
    &&& forall|g: int, h: int|
        0 <= g < h < groups.len() ==> keys[(#[trigger] groups[g]).0 as int] != keys[(
        #[trigger] groups[h]).0 as int]
    &&& forall|i: int| 0 <= i < keys.len() ==> #[trigger] key_grouped(groups, keys, i)
}

/// Whether one of the groups is of the key of row `i`.
pub open spec fn key_grouped<K>(groups: Seq<(usize, Seq<usize>)>, keys: Seq<K>, i: int) -> bool {
    exists|g: int| 0 <= g < groups.len() && keys[(#[trigger] groups[g]).0 as int] == keys[i]
}

/// Whether row `i` is in group `g`.
pub open spec fn in_group(groups: Seq<(usize, Seq<usize>)>, g: int, i: usize) -> bool {
    0 <= g < groups.len() && groups[g].1.contains(i)
}

/// Whether row `i` is in one of the groups.
pub open spec fn has_group(groups: Seq<(usize, Seq<usize>)>, i: usize) -> bool {
    exists|g: int| #[trigger] in_group(groups, g, i)
}

/// The groups of a grouping split the rows: every row is in one group and
/// in no other, and a group holds rows only, each once.
pub proof fn groupby_partition<K>(groups: Seq<(usize, Seq<usize>)>, keys: Seq<K>)
    requires
        keys.len() <= usize::MAX,
        is_grouping(groups, keys),
    ensures
        forall|i: usize| i < keys.len() ==> #[trigger] has_group(groups, i),
        forall|i: usize, g: int, h: int|
            in_group(groups, g, i) && in_group(groups, h, i) ==> g == h,
        forall|i: usize, g: int| in_group(groups, g, i) ==> i < keys.len(),
        forall|g: int| 0 <= g < groups.len() ==> (#[trigger] groups[g]).1.no_duplicates(),
{
    assert forall|g: int| 0 <= g < groups.len() implies (forall|i: usize|
        (#[trigger] groups[g]).1.contains(i) <==> (i < keys.len() && keys[i as int]
            == keys[groups[g].0 as int])) && groups[g].1.no_duplicates() by {
        lemma_rows_with_key(keys, keys[groups[g].0 as int]);
    }
    assert forall|i: usize| i < keys.len() implies #[trigger] has_group(groups, i) by {
        assert(key_grouped(groups, keys, i as int));
        let g = choose|g: int|
            0 <= g < groups.len() && keys[(#[trigger] groups[g]).0 as int] == keys[i as int];
        assert(groups[g].1.contains(i));
        assert(in_group(groups, g, i));
    }
    assert forall|i: usize, g: int, h: int|
        in_group(groups, g, i) && in_group(groups, h, i) implies g == h by {
        assert(groups[g].1.contains(i));
        assert(groups[h].1.contains(i));
        if g < h {
            assert(keys[groups[g].0 as int] != keys[groups[h].0 as int]);
        }
        if h < g {
            assert(keys[groups[h].0 as int] != keys[groups[g].0 as int]);
        }
    }
    assert forall|i: usize, g: int| in_group(groups, g, i) implies i < keys.len() by {
        assert(groups[g].1.contains(i));
    }
}

/// Two groupings of the same rows hold the same groups and equally many;
/// they differ at most in the order of the groups.
pub proof fn grouping_determinism<K>(
    a: Seq<(usize, Seq<usize>)>,
    b: Seq<(usize, Seq<usize>)>,
    keys: Seq<K>,
)
    requires
        is_grouping(a, keys),
        is_grouping(b, keys),
    ensures
        a.to_set() == b.to_set(),
        a.len() == b.len(),
        a.no_duplicates(),
{
    lemma_grouping_within(a, b, keys);
    lemma_grouping_within(b, a, keys);
    assert(a.to_set() =~= b.to_set());
    a.unique_seq_to_set();
    b.unique_seq_to_set();
}

/// Every group of one grouping is a group of every other grouping of the
/// same rows, and no grouping holds a group twice.
pub proof fn lemma_grouping_within<K>(
    a: Seq<(usize, Seq<usize>)>,
    b: Seq<(usize, Seq<usize>)>,
    keys: Seq<K>,
)
    requires
        is_grouping(a, keys),
        is_grouping(b, keys),
    ensures
        forall|t: (usize, Seq<usize>)| a.to_set().contains(t) ==> b.to_set().contains(t),
        a.no_duplicates(),
{
    assert forall|t: (usize, Seq<usize>)| a.to_set().contains(t) implies b.to_set().contains(
        t,
    ) by {
        let g = choose|g: int| 0 <= g < a.len() && a[g] == t;
        let first = a[g].0 as int;
        assert(key_grouped(b, keys, first));
        let h = choose|h: int| 0 <= h < b.len() && keys[(#[trigger] b[h]).0 as int] == keys[first];
        assert(b[h].1 == a[g].1);
        assert(b[h].0 == b[h].1[0]);
        assert(b[h] == t);
        assert(b.contains(t));
    }
    assert forall|g: int, h: int| 0 <= g < a.len() && 0 <= h < a.len() && g != h implies a[g]
        != a[h] by {
        if g < h {
            assert(keys[a[g].0 as int] != keys[a[h].0 as int]);
        } else {
            assert(keys[a[h].0 as int] != keys[a[g].0 as int]);
        }
    }
}

/// A grouping of the images of keys that are told apart by their images is
/// a grouping of the keys.
pub proof fn lemma_grouping_mapped<A, B>(
    groups: Seq<(usize, Seq<usize>)>,
    keys: Seq<A>,
    mapped: Seq<B>,
    f: spec_fn(A) -> B,
)
    requires
        maps_apart(keys, mapped, f),
        is_grouping(groups, mapped),
    ensures
        is_grouping(groups, keys),
{
    assert forall|g: int| 0 <= g < groups.len() implies (#[trigger] groups[g]).0 < keys.len()
        && groups[g].1 == rows_with_key(keys, keys[groups[g].0 as int]) && groups[g].1.len() > 0
        && groups[g].1[0] == groups[g].0 by {
        let first = groups[g].0 as int;
        assert(mapped[first] == f(keys[first]));
        lemma_rows_mapped(keys, mapped, f, keys[first]);
    }
    assert forall|g: int, h: int| 0 <= g < h < groups.len() implies keys[(
    #[trigger] groups[g]).0 as int] != keys[(#[trigger] groups[h]).0 as int] by {
        assert(mapped[groups[g].0 as int] == f(keys[groups[g].0 as int]));
        assert(mapped[groups[h].0 as int] == f(keys[groups[h].0 as int]));
    }
    assert forall|i: int| 0 <= i < keys.len() implies #[trigger] key_grouped(groups, keys, i) by {
        assert(mapped[i] == f(keys[i]));
        assert(key_grouped(groups, mapped, i));
        let g = choose|g: int|
            0 <= g < groups.len() && mapped[(#[trigger] groups[g]).0 as int] == mapped[i];
        assert(mapped[groups[g].0 as int] == f(keys[groups[g].0 as int]));
    }
}

/// Groups the rows of a relation by key: one hash table over all rows, then
/// one group per key in it, in the order in which the table hands them out.
pub fn groupby(keys: &Vec<JoinKey>) -> (groups: Vec<(usize, Vec<usize>)>)
    ensures
        is_grouping(groups_view(groups@), keys_view(keys@)),
{
    let ghost all = keys_view(keys@);
    let mut hash_tbl = prepare_hashed_relation(keys);
    let entries = table_drain(&mut hash_tbl);
    let mut groups: Vec<(usize, Vec<usize>)> = Vec::with_capacity(entries.len());
    let mut x: usize = 0;
    while x < entries.len()
        invariant
            x <= entries.len(),
            all == keys_view(keys@),
            all.len() == keys.len(),
            lists_all_of(entries@, rows_by_key(all)),
            groups.len() == x,
            forall|g: int|
                0 <= g < x ==> (#[trigger] groups[g]).1@ == entries[g].1@ && groups[g].1.len() > 0
                    && groups[g].0 == groups[g].1[0] && groups[g].0 < all.len()
                    && all[groups[g].0 as int] == key_view(entries[g].0@),
        decreases entries.len() - x,
    {
        let ghost k = key_view(entries[x as int].0@);
        proof {
            assert(rows_by_key(all).contains_key(k));
            lemma_rows_with_key(all, k);
            lemma_rows_empty(all, k);
            assert(entries[x as int].1@ == rows_with_key(all, k));
            assert(rows_with_key(all, k).contains(rows_with_key(all, k)[0]));
        }
        let mut indexes: Vec<usize> = Vec::with_capacity(entries[x].1.len());
        append_copy(&mut indexes, &entries[x].1);
        assert(indexes@ =~= entries[x as int].1@);
        let first = indexes[0];
        groups.push((first, indexes));
        x += 1;
    }
    proof {
        let gv = groups_view(groups@);
        assert forall|g: int| 0 <= g < gv.len() implies (#[trigger] gv[g]).0 < all.len() && gv[g].1
            == rows_with_key(all, all[gv[g].0 as int]) && gv[g].1.len() > 0 && gv[g].1[0]
            == gv[g].0 by {
            assert(gv[g] == (groups[g].0, groups[g].1@));
            assert(rows_by_key(all).contains_key(key_view(entries[g].0@)));
        }
        assert forall|g: int, h: int| 0 <= g < h < gv.len() implies all[(
        #[trigger] gv[g]).0 as int] != all[(#[trigger] gv[h]).0 as int] by {
            assert(gv[g] == (groups[g].0, groups[g].1@));
            assert(gv[h] == (groups[h].0, groups[h].1@));
            assert(key_view(entries[g].0@) != key_view(entries[h].0@));
        }
        assert forall|i: int| 0 <= i < all.len() implies #[trigger] key_grouped(gv, all, i) by {
            assert(all.contains(all[i]));
            assert(rows_by_key(all).contains_key(all[i]));
            let g = choose|g: int|
                0 <= g < entries@.len() && key_view((#[trigger] entries@[g]).0@) == all[i];
            assert(gv[g] == (groups[g].0, groups[g].1@));
            assert(all[gv[g].0 as int] == all[i]);
        }
    }
    groups
}

/// Grouping the rows of one column by value.
pub trait IntoGroupTuples {
    /// The rows to group, one key each.
    spec fn group_keys(&self) -> Seq<Seq<Value>>;

    /// The groups: for each value that the column holds, the first row with
    /// it and all rows with it.
    fn group_tuples(&self) -> (groups: Vec<(usize, Vec<usize>)>)
        ensures
            is_grouping(groups_view(groups@), self.group_keys()),
    ;
}

impl IntoGroupTuples for Series {
    open spec fn group_keys(&self) -> Seq<Seq<Value>> {
        single_rows(self@.values)
    }

    fn group_tuples(&self) -> (groups: Vec<(usize, Vec<usize>)>) {
        let keys = column_keys(self);
        let groups = groupby(&keys);
        proof {
            let rows = single_rows(self@.values);
            lemma_row_keys_apart(rows);
            lemma_grouping_mapped(
                groups_view(groups@),
                rows,
                row_keys(rows),
                |row: Seq<Value>| row_key(row),
            );
        }
        groups
    }
}

/// The first rows of the groups.
pub open spec fn first_rows(groups: Seq<(usize, Seq<usize>)>) -> Seq<usize> {
    Seq::new(groups.len(), |g: int| groups[g].0)
}

/// The aggregate of every group.
pub open spec fn agg_values(values: Seq<Value>, groups: Seq<(usize, Seq<usize>)>, kind: Agg) -> Seq<
    Value,
> {
    Seq::new(groups.len(), |g: int| fold_group(values, groups[g].1, kind))
}

/// The number of rows of every group.
pub open spec fn count_values(groups: Seq<(usize, Seq<usize>)>) -> Seq<Value> {
    Seq::new(groups.len(), |g: int| Value::UInt32(groups[g].1.len() as u32))
}

/// Aggregations over the groups of a column of integers.
pub trait NumericAggSync: Sized {
    /// The rows of the column.
    spec fn agg_cells(&self) -> Seq<Value>;

    /// The smallest value of each group, null where all are null.
    fn agg_min(&self, groups: &Vec<(usize, Vec<usize>)>) -> PolarsResult<Self>
        requires
            forall|g: int|
                0 <= g < groups.len() ==> all_in_bounds(
                    (#[trigger] groups[g]).1@,
                    self.agg_cells().len(),
                ),
    ;

    /// The largest value of each group, null where all are null.
    fn agg_max(&self, groups: &Vec<(usize, Vec<usize>)>) -> PolarsResult<Self>
        requires
            forall|g: int|
                0 <= g < groups.len() ==> all_in_bounds(
                    (#[trigger] groups[g]).1@,
                    self.agg_cells().len(),
                ),
    ;

    /// The sum of each group, wrapping round at the type's bounds; null
    /// where all values are null.
    fn agg_sum(&self, groups: &Vec<(usize, Vec<usize>)>) -> PolarsResult<Self>
        requires
            forall|g: int|
                0 <= g < groups.len() ==> all_in_bounds(
                    (#[trigger] groups[g]).1@,
                    self.agg_cells().len(),
                ),
    ;
}

/// What aggregating a column over groups gives: refused for columns that
/// are not of integers; else one cell per group, under the column's name
/// and of its element type.
pub open spec fn agg_series(column: SeriesView, groups: Seq<(usize, Seq<usize>)>, kind: Agg) -> Result<
    SeriesView,
    PolarsError,
> {
    if is_integer_like(column.dtype) {
        Ok(column.with_values(agg_values(column.values, groups, kind)))
    } else {
        Err(PolarsError::InvalidOperation)
    }
}

impl Series {
    /// Aggregates the column over the groups, the groups in parallel.
    pub fn agg(&self, groups: &Vec<(usize, Vec<usize>)>, kind: Agg) -> (r: PolarsResult<Series>)
        requires
            forall|g: int|
                0 <= g < groups.len() ==> all_in_bounds(
                    (#[trigger] groups[g]).1@,
                    self@.values.len(),
                ),
        ensures
            result_view(r) == agg_series(self@, groups_view(groups@), kind),
    {
        if !integer_like(self.dtype()) {
            return Err(PolarsError::InvalidOperation);
        }
        let in_place = self.null_count() == 0;
        let values = self.values();
        let out = par_agg(values, groups, kind, in_place);
        proof {
            let gv = groups_view(groups@);
            assert(values_view(out@) =~= agg_values(self@.values, gv, kind));
            assert forall|g: int| 0 <= g < out.len() implies (#[trigger] values_view(out@)[g]).fits(
                self@.dtype,
            ) by {
                lemma_fold_fits(self@.values, groups[g].1@, kind, self@.dtype);
            }
        }
        Ok(Series::from_fitting(self.name().clone(), self.dtype(), out))
    }
}

impl Series {
    /// What the mean of each group is made of: the exact sum of its values
    /// and the number of its rows, nulls counted; nothing where all values
    /// of the group are null.  The quotient is left to the caller.
    pub fn agg_mean(&self, groups: &Vec<(usize, Vec<usize>)>) -> (r: PolarsResult<
        Vec<Option<(i128, usize)>>,
    >)
        requires
            forall|g: int|
                0 <= g < groups.len() ==> all_in_bounds(
                    (#[trigger] groups[g]).1@,
                    self@.values.len(),
                ),
        ensures
            match r {
                Ok(parts) => is_integer_like(self@.dtype) && parts@ == Seq::new(
                    groups.len() as nat,
                    |g: int| mean_parts(self@.values, groups[g].1@),
                ),
                Err(e) => !is_integer_like(self@.dtype) && e == PolarsError::InvalidOperation,
            },
    {
        if !integer_like(self.dtype()) {
            return Err(PolarsError::InvalidOperation);
        }
        let out = par_mean(self.values(), groups);
        assert(out@ =~= Seq::new(
            groups.len() as nat,
            |g: int| mean_parts(self@.values, groups[g].1@),
        ));
        Ok(out)
    }
}

impl NumericAggSync for Series {
    open spec fn agg_cells(&self) -> Seq<Value> {
        self@.values
    }

    fn agg_min(&self, groups: &Vec<(usize, Vec<usize>)>) -> (r: PolarsResult<Series>)
        ensures
            result_view(r) == agg_series(self@, groups_view(groups@), Agg::Min),
    {
        self.agg(groups, Agg::Min)
    }

    fn agg_max(&self, groups: &Vec<(usize, Vec<usize>)>) -> (r: PolarsResult<Series>)
        ensures
            result_view(r) == agg_series(self@, groups_view(groups@), Agg::Max),
    {
        self.agg(groups, Agg::Max)
    }

    fn agg_sum(&self, groups: &Vec<(usize, Vec<usize>)>) -> (r: PolarsResult<Series>)
        ensures
            result_view(r) == agg_series(self@, groups_view(groups@), Agg::Sum),
    {
        self.agg(groups, Agg::Sum)
    }
}

/// The rows of the groups of a grouping are rows of the relation.
pub proof fn lemma_grouping_bounds<K>(groups: Seq<(usize, Seq<usize>)>, keys: Seq<K>)
    requires
        keys.len() <= usize::MAX,
        is_grouping(groups, keys),
    ensures
        all_in_bounds(first_rows(groups), keys.len()),
        forall|g: int| 0 <= g < groups.len() ==> all_in_bounds((#[trigger] groups[g]).1, keys.len()),
{
    assert forall|g: int| 0 <= g < groups.len() implies all_in_bounds(
        (#[trigger] groups[g]).1,
        keys.len(),
    ) by {
        lemma_rows_with_key(keys, keys[groups[g].0 as int]);
    }
    assert forall|g: int| 0 <= g < groups.len() implies (#[trigger] first_rows(groups)[g])
        < keys.len() by {
        assert(groups[g].0 < keys.len());
    }
}

/// A frame of the given columns, or why there is none.
pub open spec fn new_frame_spec(cols: Seq<SeriesView>) -> Result<Seq<SeriesView>, PolarsError> {
    if !equal_heights(cols) {
        Err(PolarsError::ShapeMisMatch)
    } else if !distinct_names(cols) {
        Err(PolarsError::Duplicate)
    } else {
        Ok(cols)
    }
}

/// The key column of an aggregation: the grouped column at the first row
/// of each group.
pub open spec fn keys_column(key: SeriesView, groups: Seq<(usize, Seq<usize>)>) -> SeriesView {
    key.with_values(take_values(key.values, first_rows(groups)))
}

/// What comes behind the column's name in the name of its aggregate.
pub open spec fn agg_suffix(kind: Agg) -> Seq<char> {
    match kind {
        Agg::Sum => "_sum"@,
        Agg::Min => "_min"@,
        Agg::Max => "_max"@,
    }
}

/// What aggregating the selected column over the groups gives: a frame of
/// the keys and the aggregates, the latter named after the column and the
/// aggregation; refused when no column is selected, when the selected
/// column is not there, or when it is not of integers.
pub open spec fn group_agg_outcome(
    frame: Seq<SeriesView>,
    by: Seq<char>,
    groups: Seq<(usize, Seq<usize>)>,
    selected: Option<Seq<char>>,
    kind: Agg,
) -> Result<Seq<SeriesView>, PolarsError> {
    match selected {
        None => Err(PolarsError::NoSelection),
        Some(name) => match name_index(frame, name) {
            None => Err(PolarsError::NotFound),
            Some(c) => match agg_series(frame[c], groups, kind) {
                Err(e) => Err(e),
                Ok(agg) => new_frame_spec(
                    seq![
                        keys_column(frame[name_index(frame, by)->0], groups),
                        agg.renamed(name + agg_suffix(kind)),
                    ],
                ),
            },
        },
    }
}

/// Whether a group has more rows than an unsigned 32-bit count can hold.
pub open spec fn count_overflows(groups: Seq<(usize, Seq<usize>)>) -> bool {
    exists|g: int| 0 <= g < groups.len() && (#[trigger] groups[g]).1.len() > u32::MAX
}

/// What counting the rows of the groups gives: a frame of the keys and the
/// numbers of rows, nulls counted like other rows; the count is named after
/// the selected column.
pub open spec fn group_count_outcome(
    frame: Seq<SeriesView>,
    by: Seq<char>,
    groups: Seq<(usize, Seq<usize>)>,
    selected: Option<Seq<char>>,
) -> Result<Seq<SeriesView>, PolarsError> {
    match selected {
        None => Err(PolarsError::NoSelection),
        Some(name) => match name_index(frame, name) {
            None => Err(PolarsError::NotFound),
            Some(c) => if count_overflows(groups) {
                Err(PolarsError::ComputeError)
            } else {
                new_frame_spec(
                    seq![
                        keys_column(frame[name_index(frame, by)->0], groups),
                        (SeriesView {
                            name: name + "_count"@,
                            dtype: DataType::UInt32,
                            values: count_values(groups),
                        }),
                    ],
                )
            },
        },
    }
}

/// A frame grouped by one of its columns, with, once chosen, the column to
/// aggregate.
pub struct GroupBy<'a> {
    df: &'a DataFrame,
    by: String,
    groups: Vec<(usize, Vec<usize>)>,
    selection: Option<String>,
}

impl<'a> GroupBy<'a> {
    #[verifier::type_invariant]
    spec fn well_formed(&self) -> bool {
        &&& name_index(self.df@, self.by@) is Some
        &&& is_grouping(
            groups_view(self.groups@),
            single_rows(self.df@[name_index(self.df@, self.by@)->0].values),
        )
    }

    /// The grouped frame.
    pub closed spec fn frame(&self) -> Seq<SeriesView> {
        self.df@
    }

    /// The name of the column that the frame is grouped by.
    pub closed spec fn by_name(&self) -> Seq<char> {
        self.by@
    }

    /// The groups.
    pub closed spec fn group_rows(&self) -> Seq<(usize, Seq<usize>)> {
        groups_view(self.groups@)
    }

    /// The name of the column to aggregate, once one is selected.
    pub closed spec fn selected(&self) -> Option<Seq<char>> {
        match self.selection {
            Some(name) => Some(name@),
            None => None,
        }
    }

    /// The name of the column that the frame is grouped by.
    pub fn by(&self) -> (r: &String)
        ensures
            r@ == self.by_name(),
    {
        &self.by
    }

    /// The groups: for each value of the grouped column, the first row
    /// with it and all rows with it.
    pub fn get_groups(&self) -> (r: &Vec<(usize, Vec<usize>)>)
        ensures
            groups_view(r@) == self.group_rows(),
            name_index(self.frame(), self.by_name()) is Some,
            is_grouping(
                self.group_rows(),
                single_rows(self.frame()[name_index(self.frame(), self.by_name())->0].values),
            ),
    {
        proof {
            use_type_invariant(self);
        }
        &self.groups
    }

    /// Selects the column to aggregate.
    pub fn select(self, name: &str) -> (r: GroupBy<'a>)
        ensures
            r.frame() == self.frame(),
            r.by_name() == self.by_name(),
            r.group_rows() == self.group_rows(),
            r.selected() == Some(name@),
    {
        proof {
            use_type_invariant(&self);
        }
        GroupBy { df: self.df, by: self.by, groups: self.groups, selection: Some(name.to_owned()) }
    }

    /// The key of each group: the grouped column at the first row of each
    /// group.
    pub fn keys(&self) -> (r: Series)
        ensures
            name_index(self.frame(), self.by_name()) is Some,
            r@ == keys_column(
                self.frame()[name_index(self.frame(), self.by_name())->0],
                self.group_rows(),
            ),
    {
        proof {
            use_type_invariant(self);
            lemma_name_index(self.df@, self.by@);
        }
        let column = match self.df.column(self.by.as_str()) {
            Ok(c) => c,
            Err(_) => {
                proof {
                    assert(false);
                }
                return Series::empty("", DataType::Boolean);
            },
        };
        let n = column.len();
        let mut firsts: Vec<usize> = Vec::with_capacity(self.groups.len());
        let mut g: usize = 0;
        while g < self.groups.len()
            invariant
                g <= self.groups.len(),
                firsts.len() == g,
                forall|h: int| 0 <= h < g ==> firsts[h] == self.groups[h].0,
            decreases self.groups.len() - g,
        {
            firsts.push(self.groups[g].0);
            g += 1;
        }
        proof {
            assert(firsts@ =~= first_rows(groups_view(self.groups@)));
            lemma_grouping_bounds(groups_view(self.groups@), single_rows(column@.values));
        }
        column.take_unchecked(&firsts, Some(self.groups.len()))
    }

    /// The name of the selected column, the keys, and the selected column.
    pub fn prepare_agg(&self) -> (r: PolarsResult<(&String, Series, &Series)>)
        ensures
            match r {
                Ok((name, keys, agg_col)) => self.selected() == Some(name@) && name_index(
                    self.frame(),
                    name@,
                ) is Some && agg_col@ == self.frame()[name_index(self.frame(), name@)->0]
                    && name_index(self.frame(), self.by_name()) is Some && keys@ == keys_column(
                    self.frame()[name_index(self.frame(), self.by_name())->0],
                    self.group_rows(),
                ),
                Err(e) => match self.selected() {
                    None => e == PolarsError::NoSelection,
                    Some(name) => name_index(self.frame(), name) is None && e
                        == PolarsError::NotFound,
                },
            },
    {
        let name = match &self.selection {
            Some(name) => name,
            None => {
                return Err(PolarsError::NoSelection);
            },
        };
        let keys = self.keys();
        let agg_col = match self.df.column(name.as_str()) {
            Ok(c) => c,
            Err(e) => {
                return Err(e);
            },
        };
        Ok((name, keys, agg_col))
    }

    /// Aggregates the selected column over the groups.
    pub fn aggregate(&self, kind: Agg) -> (r: PolarsResult<DataFrame>)
        ensures
            outcome(r) == group_agg_outcome(
                self.frame(),
                self.by_name(),
                self.group_rows(),
                self.selected(),
                kind,
            ),
    {
        let (name, keys, agg_col) = match self.prepare_agg() {
            Ok(parts) => parts,
            Err(e) => {
                return Err(e);
            },
        };
        let suffix = match kind {
            Agg::Sum => "_sum",
            Agg::Min => "_min",
            Agg::Max => "_max",
        };
        let new_name = name.clone().concat(suffix);
        proof {
            use_type_invariant(self);
            let frame = self.df@;
            lemma_name_index(frame, name@);
            lemma_name_index(frame, self.by@);
        }
        let columns = self.df.get_columns();
        proof {
            let frame = self.df@;
            let key = frame[name_index(frame, self.by@)->0];
            assert(agg_col@.values.len() == frame[0].values.len());
            assert(key.values.len() == frame[0].values.len());
        }
        let n = agg_col.len();
        proof {
            let frame = self.df@;
            let key = frame[name_index(frame, self.by@)->0];
            assert(single_rows(key.values).len() == n);
            lemma_grouping_bounds(groups_view(self.groups@), single_rows(key.values));
            assert forall|g: int| 0 <= g < self.groups.len() implies all_in_bounds(
                (#[trigger] self.groups[g]).1@,
                agg_col@.values.len(),
            ) by {
                assert(groups_view(self.groups@)[g].1 == self.groups[g].1@);
            }
        }
        let mut agg = match agg_col.agg(&self.groups, kind) {
            Ok(s) => s,
            Err(e) => {
                return Err(e);
            },
        };
        agg.rename(new_name.as_str());
        let mut out: Vec<Series> = Vec::with_capacity(2);
        out.push(keys);
        out.push(agg);
        proof {
            let frame = self.df@;
            assert(columns_view(out@) =~= seq![
                keys_column(frame[name_index(frame, self.by@)->0], groups_view(self.groups@)),
                agg_series(agg_col@, groups_view(self.groups@), kind)->Ok_0.renamed(
                    name@ + agg_suffix(kind),
                ),
            ]);
        }
        DataFrame::new(out)
    }

    /// The sum of the selected column in each group.
    pub fn sum(&self) -> (r: PolarsResult<DataFrame>)
        ensures
            outcome(r) == group_agg_outcome(
                self.frame(),
                self.by_name(),
                self.group_rows(),
                self.selected(),
                Agg::Sum,
            ),
    {
        self.aggregate(Agg::Sum)
    }

    /// The smallest value of the selected column in each group.
    pub fn min(&self) -> (r: PolarsResult<DataFrame>)
        ensures
            outcome(r) == group_agg_outcome(
                self.frame(),
                self.by_name(),
                self.group_rows(),
                self.selected(),
                Agg::Min,
            ),
    {
        self.aggregate(Agg::Min)
    }

    /// The largest value of the selected column in each group.
    pub fn max(&self) -> (r: PolarsResult<DataFrame>)
        ensures
            outcome(r) == group_agg_outcome(
                self.frame(),
                self.by_name(),
                self.group_rows(),
                self.selected(),
                Agg::Max,
            ),
    {
        self.aggregate(Agg::Max)
    }

    /// What the mean of the selected column in each group is made of: the
    /// keys of the groups, and for each group the exact sum of its values
    /// and the number of its rows.  The quotient, which is no integer, is
    /// left to the caller.
    pub fn mean_parts(&self) -> (r: PolarsResult<(Series, Vec<Option<(i128, usize)>>)>)
        ensures
            match r {
                Ok((keys, parts)) => match self.selected() {
                    Some(name) => name_index(self.frame(), name) is Some && is_integer_like(
                        self.frame()[name_index(self.frame(), name)->0].dtype,
                    ) && parts@ == Seq::new(
                        self.group_rows().len(),
                        |g: int|
                            mean_parts(
                                self.frame()[name_index(self.frame(), name)->0].values,
                                self.group_rows()[g].1,
                            ),
                    ) && keys@ == keys_column(
                        self.frame()[name_index(self.frame(), self.by_name())->0],
                        self.group_rows(),
                    ),
                    None => false,
                },
                Err(e) => match self.selected() {
                    None => e == PolarsError::NoSelection,
                    Some(name) => match name_index(self.frame(), name) {
                        None => e == PolarsError::NotFound,
                        Some(c) => !is_integer_like(self.frame()[c].dtype) && e
                            == PolarsError::InvalidOperation,
                    },
                },
            },
    {
        let (name, keys, agg_col) = match self.prepare_agg() {
            Ok(parts) => parts,
            Err(e) => {
                return Err(e);
            },
        };
        proof {
            use_type_invariant(self);
            let frame = self.df@;
            lemma_name_index(frame, name@);
            lemma_name_index(frame, self.by@);
        }
        let columns = self.df.get_columns();
        proof {
            let frame = self.df@;
            let key = frame[name_index(frame, self.by@)->0];
            assert(agg_col@.values.len() == frame[0].values.len());
            assert(key.values.len() == frame[0].values.len());
        }
        let n = agg_col.len();
        proof {
            let frame = self.df@;
            let key = frame[name_index(frame, self.by@)->0];
            assert(single_rows(key.values).len() == n);
            lemma_grouping_bounds(groups_view(self.groups@), single_rows(key.values));
            assert forall|g: int| 0 <= g < self.groups.len() implies all_in_bounds(
                (#[trigger] self.groups[g]).1@,
                agg_col@.values.len(),
            ) by {
                assert(groups_view(self.groups@)[g].1 == self.groups[g].1@);
            }
        }
        match agg_col.agg_mean(&self.groups) {
            Ok(parts) => {
                assert(parts@ =~= Seq::new(
                    groups_view(self.groups@).len(),
                    |g: int| mean_parts(agg_col@.values, groups_view(self.groups@)[g].1),
                ));
                Ok((keys, parts))
            },
            Err(e) => Err(e),
        }
    }

    /// The number of rows in each group, nulls counted like other rows.
    pub fn count(&self) -> (r: PolarsResult<DataFrame>)
        ensures
            outcome(r) == group_count_outcome(
                self.frame(),
                self.by_name(),
                self.group_rows(),
                self.selected(),
            ),
    {
        let (name, keys, agg_col) = match self.prepare_agg() {
            Ok(parts) => parts,
            Err(e) => {
                return Err(e);
            },
        };
        let new_name = name.clone().concat("_count");
        let ghost gv = groups_view(self.groups@);
        let mut counts: Vec<AnyType> = Vec::with_capacity(self.groups.len());
        let mut g: usize = 0;
        while g < self.groups.len()
            invariant
                g <= self.groups.len(),
                gv == groups_view(self.groups@),
                gv == self.group_rows(),
                self.selected() == Some(name@),
                name_index(self.frame(), name@) is Some,
                counts.len() == g,
                forall|h: int| 0 <= h < g ==> (#[trigger] gv[h]).1.len() <= u32::MAX,
                forall|h: int| 0 <= h < g ==> (#[trigger] counts[h])@ == count_values(gv)[h],
            decreases self.groups.len() - g,
        {
            let n = self.groups[g].1.len();
            assert(gv[g as int].1.len() == n);
            if n > u32::MAX as usize {
                assert(count_overflows(gv));
                return Err(PolarsError::ComputeError);
            }
            counts.push(AnyType::UInt32(n as u32));
            g += 1;
        }
        assert(values_view(counts@) =~= count_values(gv));
        let agg = Series::from_fitting(new_name, DataType::UInt32, counts);
        let mut out: Vec<Series> = Vec::with_capacity(2);
        out.push(keys);
        out.push(agg);
        proof {
            use_type_invariant(self);
            let frame = self.df@;
            lemma_name_index(frame, self.by@);
            assert(columns_view(out@) =~= seq![
                keys_column(frame[name_index(frame, self.by@)->0], gv),
                (SeriesView {
                    name: name@ + "_count"@,
                    dtype: DataType::UInt32,
                    values: count_values(gv),
                }),
            ]);
        }
        DataFrame::new(out)
    }
}

impl DataFrame {
    /// Groups the frame by the values of one column; `NotFound` when the
    /// column is not there, `InvalidOperation` when it is of lists.
    pub fn groupby(&self, by: &str) -> (r: PolarsResult<GroupBy<'_>>)
        ensures
            match r {
                Ok(g) => name_index(self@, by@) is Some && !(self@[name_index(
                    self@,
                    by@,
                )->0].dtype is List) && g.frame() == self@ && g.by_name() == by@ && g.selected()
                    is None && is_grouping(
                    g.group_rows(),
                    single_rows(self@[name_index(self@, by@)->0].values),
                ),
                Err(e) => match name_index(self@, by@) {
                    None => e == PolarsError::NotFound,
                    Some(c) => self@[c].dtype is List && e == PolarsError::InvalidOperation,
                },
            },
    {
        let groups = match self.column(by) {
            Ok(s) => {
                if s.dtype() == DataType::List {
                    return Err(PolarsError::InvalidOperation);
                }
                s.group_tuples()
            },
            Err(_) => {
                return Err(PolarsError::NotFound);
            },
        };
        Ok(GroupBy { df: self, by: by.to_owned(), groups, selection: None })
    }
}

} // verus!
