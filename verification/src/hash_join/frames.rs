//! Joining frames: the key columns are joined to index pairs, both frames
//! are gathered at them, and the two halves are put side by side.

use crate::datatypes::{all_fit, values_view, AnyType, DataType, Value};
use crate::error::{PolarsError, PolarsResult};
use crate::frame::{
    columns_view, distinct_names, equal_heights, frame_height, frame_take, frame_take_opt, is_frame,
    lemma_name_index, name_index, position_of_name, DataFrame,
};
use crate::hash_join::laws::{
    inner_join_pairs, matching_pairs,
    build_side, inner_join, left_join_totality, lemma_inner_join_bounds, lemma_left_join_bounds,
    lemma_left_join_one_each, lemma_outer_join_bounds, probe_side,
};
use crate::take::take_values;
use crate::hash_join::threads::n_join_threads;
use crate::take::take_opt_values;
use crate::hash_join::relation::left_tuples;
use crate::hash_join::rows::{
    inner_join_multiple_keys, is_outer_join_of, key_rows, left_join_multiple_keys,
    outer_join_multiple_keys,
};
use crate::select::{names_view, Selection};
use crate::hash_join::names::{name_set_contains, name_set_insert, name_set_new, set_names};
use crate::hash_join::table::random_state;
use crate::series::{Series, SeriesView};
use crate::take::{all_in_bounds, all_opt_in_bounds};
use vstd::prelude::*;
use vstd::string::StringExecFns;

verus! {

/// The kind of a join.
#[derive(Clone, Copy, Debug, PartialEq, Eq, Structural)]
pub enum JoinType {
    Left,
    Inner,
    Outer,
}

/// The left rows of the pairs of an inner join.
pub open spec fn firsts(t: Seq<(usize, usize)>) -> Seq<usize> {
    Seq::new(t.len(), |x: int| t[x].0)
}

/// The right rows of the pairs of an inner join.
pub open spec fn seconds(t: Seq<(usize, usize)>) -> Seq<usize> {
    Seq::new(t.len(), |x: int| t[x].1)
}

/// The left rows of the pairs of a left join.
pub open spec fn left_firsts(t: Seq<(usize, Option<usize>)>) -> Seq<usize> {
    Seq::new(t.len(), |x: int| t[x].0)
}

/// The right rows of the pairs of a left join.
pub open spec fn left_seconds(t: Seq<(usize, Option<usize>)>) -> Seq<Option<usize>> {
    Seq::new(t.len(), |x: int| t[x].1)
}

/// The left rows of the pairs of an outer join.
pub open spec fn outer_firsts(t: Seq<(Option<usize>, Option<usize>)>) -> Seq<Option<usize>> {
    Seq::new(t.len(), |x: int| t[x].0)
}

/// The right rows of the pairs of an outer join.
pub open spec fn outer_seconds(t: Seq<(Option<usize>, Option<usize>)>) -> Seq<Option<usize>> {
    Seq::new(t.len(), |x: int| t[x].1)
}

/// Columns put behind other columns: refused when the heights differ or a
/// name would occur twice.
pub open spec fn hstack_spec(a: Seq<SeriesView>, b: Seq<SeriesView>) -> Result<
    Seq<SeriesView>,
    PolarsError,
> {
    if !equal_heights(a + b) {
        Err(PolarsError::ShapeMisMatch)
    } else if !distinct_names(a + b) {
        Err(PolarsError::Duplicate)
    } else {
        Ok(a + b)
    }
}

/// The name that a right column gets when a left column has its name.
pub open spec fn suffixed(name: Seq<char>) -> Seq<char> {
    name + "_right"@
}

/// The right columns of a join, those renamed whose name a left column has.
pub open spec fn right_renamed(left: Seq<SeriesView>, right: Seq<SeriesView>) -> Seq<SeriesView> {
    Seq::new(
        right.len(),
        |c: int|
            if name_index(left, right[c].name) is Some {
                right[c].renamed(suffixed(right[c].name))
            } else {
                right[c]
            },
    )
}

/// The two halves of a join side by side.
pub open spec fn finish_spec(left: Seq<SeriesView>, right: Seq<SeriesView>) -> Result<
    Seq<SeriesView>,
    PolarsError,
> {
    hstack_spec(left, right_renamed(left, right))
}

/// What a fallible frame operation returned, as a model.
pub open spec fn outcome(r: PolarsResult<DataFrame>) -> Result<Seq<SeriesView>, PolarsError> {
    match r {
        Ok(df) => Ok(df@),
        Err(e) => Err(e),
    }
}

/// Whether the frame has a column for each of the names.
pub open spec fn names_found(cols: Seq<SeriesView>, names: Seq<Seq<char>>) -> bool {
    forall|k: int| 0 <= k < names.len() ==> name_index(cols, #[trigger] names[k]) is Some
}

/// The columns with the given names, in the order of the names.
pub open spec fn select_columns(cols: Seq<SeriesView>, names: Seq<Seq<char>>) -> Seq<SeriesView> {
    Seq::new(names.len(), |k: int| cols[name_index(cols, names[k])->0])
}

/// The frame without the columns of the given names, taken out one after
/// the other; nothing where a name is not, or no longer, there.
pub open spec fn drop_names(cols: Seq<SeriesView>, names: Seq<Seq<char>>) -> Option<
    Seq<SeriesView>,
>
    decreases names.len(),
{
    if names.len() == 0 {
        Some(cols)
    } else {
        match drop_names(cols, names.drop_last()) {
            Some(rest) => match name_index(rest, names.last()) {
                Some(i) => Some(rest.remove(i)),
                None => None,
            },
            None => None,
        }
    }
}

/// Two sets of columns have the same element types, column by column.
pub open spec fn same_dtypes(a: Seq<SeriesView>, b: Seq<SeriesView>) -> bool {
    a.len() == b.len() && forall|k: int| 0 <= k < a.len() ==> (#[trigger] a[k]).dtype == b[k].dtype
}

/// The key column of an outer join: the left key where the pair has a left
/// row, else the right key.
pub open spec fn zip_outer_values(
    left: Seq<Value>,
    right: Seq<Value>,
    t: Seq<(Option<usize>, Option<usize>)>,
) -> Seq<Value> {
    Seq::new(
        t.len(),
        |x: int|
            match t[x].0 {
                Some(i) => left[i as int],
                None => match t[x].1 {
                    Some(j) => right[j as int],
                    None => Value::Null,
                },
            },
    )
}

/// The pairs of an outer join name rows that are there.
pub open spec fn outer_in_bounds(
    t: Seq<(Option<usize>, Option<usize>)>,
    left_len: nat,
    right_len: nat,
) -> bool {
    all_opt_in_bounds(outer_firsts(t), left_len) && all_opt_in_bounds(outer_seconds(t), right_len)
}

/// Fills the key column of an outer join from the key columns of both
/// sides.
pub trait ZipOuterJoinColumn: Sized {
    /// The rows of the column.
    spec fn cells(&self) -> Seq<Value>;

    /// Whether the other column can be zipped with this one.
    spec fn zips_with(&self, right_column: &Self) -> bool;

    fn zip_outer_join_column(
        &self,
        right_column: &Self,
        opt_join_tuples: &Vec<(Option<usize>, Option<usize>)>,
    ) -> Self
        requires
            self.zips_with(right_column),
            outer_in_bounds(opt_join_tuples@, self.cells().len(), right_column.cells().len()),
    ;
}

impl ZipOuterJoinColumn for Series {
    open spec fn cells(&self) -> Seq<Value> {
        self@.values
    }

    open spec fn zips_with(&self, right_column: &Series) -> bool {
        self@.dtype == right_column@.dtype
    }

    fn zip_outer_join_column(
        &self,
        right_column: &Series,
        opt_join_tuples: &Vec<(Option<usize>, Option<usize>)>,
    ) -> (r: Series)
        ensures
            r@ == self@.with_values(
                zip_outer_values(self@.values, right_column@.values, opt_join_tuples@),
            ),
    {
        let left = self.values();
        let right = right_column.values();
        let ghost t = opt_join_tuples@;
        let mut out: Vec<AnyType> = Vec::with_capacity(opt_join_tuples.len());
        let mut x: usize = 0;
        while x < opt_join_tuples.len()
            invariant
                x <= opt_join_tuples.len(),
                t == opt_join_tuples@,
                out.len() == x,
                values_view(left@) == self@.values,
                values_view(right@) == right_column@.values,
                all_fit(self@.values, self@.dtype),
                all_fit(right_column@.values, self@.dtype),
                outer_in_bounds(t, self@.values.len(), right_column@.values.len()),
                forall|y: int|
                    0 <= y < x ==> (#[trigger] out[y])@ == zip_outer_values(
                        self@.values,
                        right_column@.values,
                        t,
                    )[y] && out[y]@.fits(self@.dtype),
            decreases opt_join_tuples.len() - x,
        {
            assert(outer_firsts(t)[x as int] == t[x as int].0);
            assert(outer_seconds(t)[x as int] == t[x as int].1);
            let cell = match opt_join_tuples[x].0 {
                Some(i) => {
                    assert(self@.values[i as int].fits(self@.dtype));
                    left[i].duplicate()
                },
                None => match opt_join_tuples[x].1 {
                    Some(j) => {
                        assert(right_column@.values[j as int].fits(self@.dtype));
                        right[j].duplicate()
                    },
                    None => AnyType::Null,
                },
            };
            out.push(cell);
            x += 1;
        }
        assert(values_view(out@) =~= zip_outer_values(self@.values, right_column@.values, t));
        Series::from_fitting(self.name().clone(), self.dtype(), out)
    }
}

/// The rows of the pairs of an inner join, side by side.
pub fn split_pairs(tuples: &Vec<(usize, usize)>) -> (r: (Vec<usize>, Vec<usize>))
    ensures
        r.0@ == firsts(tuples@),
        r.1@ == seconds(tuples@),
{
    let mut left: Vec<usize> = Vec::with_capacity(tuples.len());
    let mut right: Vec<usize> = Vec::with_capacity(tuples.len());
    let mut x: usize = 0;
    while x < tuples.len()
        invariant
            x <= tuples.len(),
            left.len() == x,
            right.len() == x,
            forall|y: int| 0 <= y < x ==> left[y] == tuples[y].0 && right[y] == tuples[y].1,
        decreases tuples.len() - x,
    {
        left.push(tuples[x].0);
        right.push(tuples[x].1);
        x += 1;
    }
    assert(left@ =~= firsts(tuples@));
    assert(right@ =~= seconds(tuples@));
    (left, right)
}

/// The rows of the pairs of a left join, side by side.
pub fn split_left_pairs(tuples: &Vec<(usize, Option<usize>)>) -> (r: (
    Vec<usize>,
    Vec<Option<usize>>,
))
    ensures
        r.0@ == left_firsts(tuples@),
        r.1@ == left_seconds(tuples@),
{
    let mut left: Vec<usize> = Vec::with_capacity(tuples.len());
    let mut right: Vec<Option<usize>> = Vec::with_capacity(tuples.len());
    let mut x: usize = 0;
    while x < tuples.len()
        invariant
            x <= tuples.len(),
            left.len() == x,
            right.len() == x,
            forall|y: int| 0 <= y < x ==> left[y] == tuples[y].0 && right[y] == tuples[y].1,
        decreases tuples.len() - x,
    {
        left.push(tuples[x].0);
        right.push(tuples[x].1);
        x += 1;
    }
    assert(left@ =~= left_firsts(tuples@));
    assert(right@ =~= left_seconds(tuples@));
    (left, right)
}

/// The rows of the pairs of an outer join, side by side.
pub fn split_outer_pairs(tuples: &Vec<(Option<usize>, Option<usize>)>) -> (r: (
    Vec<Option<usize>>,
    Vec<Option<usize>>,
))
    ensures
        r.0@ == outer_firsts(tuples@),
        r.1@ == outer_seconds(tuples@),
{
    let mut left: Vec<Option<usize>> = Vec::with_capacity(tuples.len());
    let mut right: Vec<Option<usize>> = Vec::with_capacity(tuples.len());
    let mut x: usize = 0;
    while x < tuples.len()
        invariant
            x <= tuples.len(),
            left.len() == x,
            right.len() == x,
            forall|y: int| 0 <= y < x ==> left[y] == tuples[y].0 && right[y] == tuples[y].1,
        decreases tuples.len() - x,
    {
        left.push(tuples[x].0);
        right.push(tuples[x].1);
        x += 1;
    }
    assert(left@ =~= outer_firsts(tuples@));
    assert(right@ =~= outer_seconds(tuples@));
    (left, right)
}

/// Whether two sets of columns have the same element types, column by
/// column.
pub fn check_dtypes(a: &Vec<Series>, b: &Vec<Series>) -> (r: bool)
    ensures
        r == same_dtypes(columns_view(a@), columns_view(b@)),
{
    if a.len() != b.len() {
        return false;
    }
    let ghost av = columns_view(a@);
    let ghost bv = columns_view(b@);
    let mut k: usize = 0;
    while k < a.len()
        invariant
            k <= a.len(),
            a.len() == b.len(),
            av == columns_view(a@),
            bv == columns_view(b@),
            forall|j: int| 0 <= j < k ==> (#[trigger] av[j]).dtype == bv[j].dtype,
        decreases a.len() - k,
    {
        if a[k].dtype() != b[k].dtype() {
            assert(av[k as int].dtype != bv[k as int].dtype);
            return false;
        }
        k += 1;
    }
    true
}

/// The names of the first `c` columns.
pub open spec fn names_upto(cols: Seq<SeriesView>, c: int) -> Set<Seq<char>> {
    Set::new(|n: Seq<char>| exists|i: int| 0 <= i < c && (#[trigger] cols[i]).name == n)
}

/// The set of the names of a frame holds a name exactly when the frame has
/// a column of that name.
pub proof fn lemma_names_upto(cols: Seq<SeriesView>, name: Seq<char>)
    ensures
        names_upto(cols, cols.len() as int).contains(name) <==> name_index(cols, name) is Some,
{
    lemma_name_index(cols, name);
    if name_index(cols, name) is Some {
        let i = name_index(cols, name)->0;
        assert(cols[i].name == name);
    }
}

/// Whether one of the columns is of lists.
pub fn any_list(columns: &Vec<Series>) -> (r: bool)
    ensures
        r == has_list(columns_view(columns@)),
{
    let ghost cols = columns_view(columns@);
    let mut k: usize = 0;
    while k < columns.len()
        invariant
            k <= columns.len(),
            cols == columns_view(columns@),
            forall|j: int| 0 <= j < k ==> !((#[trigger] cols[j]).dtype is List),
        decreases columns.len() - k,
    {
        if columns[k].dtype() == DataType::List {
            assert(cols[k as int].dtype is List);
            return true;
        }
        k += 1;
    }
    false
}

impl DataFrame {
    /// Copies of the columns with the given names, in the order of the
    /// names; `NotFound` when a name is not there.
    pub fn select_series(&self, names: &Vec<&str>) -> (r: PolarsResult<Vec<Series>>)
        ensures
            match r {
                Ok(cols) => names_found(self@, names_view(names@)) && columns_view(cols@)
                    == select_columns(self@, names_view(names@)),
                Err(e) => !names_found(self@, names_view(names@)) && e == PolarsError::NotFound,
            },
    {
        let ghost nv = names_view(names@);
        let columns = self.get_columns();
        let mut out: Vec<Series> = Vec::with_capacity(names.len());
        let mut k: usize = 0;
        while k < names.len()
            invariant
                k <= names.len(),
                nv == names_view(names@),
                columns_view(columns@) == self@,
                out.len() == k,
                forall|j: int| 0 <= j < k ==> name_index(self@, #[trigger] nv[j]) is Some,
                forall|j: int|
                    0 <= j < k ==> (#[trigger] out[j])@ == self@[name_index(self@, nv[j])->0],
            decreases names.len() - k,
        {
            let name = names[k].to_owned();
            assert(name@ == nv[k as int]);
            proof {
                lemma_name_index(self@, name@);
            }
            match position_of_name(columns, &name) {
                Some(i) => {
                    out.push(columns[i].duplicate());
                },
                None => {
                    return Err(PolarsError::NotFound);
                },
            }
            k += 1;
        }
        assert(columns_view(out@) =~= select_columns(self@, nv));
        Ok(out)
    }

    /// The frame without the columns of the given names, which are taken
    /// out one after the other; `NotFound` when a name is not, or no
    /// longer, there.
    pub fn remove_selected(&self, names: &Vec<&str>) -> (r: PolarsResult<DataFrame>)
        ensures
            match r {
                Ok(df) => drop_names(self@, names_view(names@)) == Some(df@),
                Err(e) => drop_names(self@, names_view(names@)) is None && e
                    == PolarsError::NotFound,
            },
    {
        let ghost nv = names_view(names@);
        let mut rest = self.duplicate();
        let mut k: usize = 0;
        assert(nv.take(0) =~= Seq::<Seq<char>>::empty());
        while k < names.len()
            invariant
                k <= names.len(),
                nv == names_view(names@),
                drop_names(self@, nv.take(k as int)) == Some(rest@),
            decreases names.len() - k,
        {
            proof {
                assert(nv.take(k as int + 1).drop_last() =~= nv.take(k as int));
                assert(nv.take(k as int + 1).last() == names[k as int]@);
            }
            match rest.drop(names[k]) {
                Ok(df) => {
                    rest = df;
                },
                Err(_) => {
                    proof {
                        lemma_drop_names_fails(self@, nv, k as int + 1);
                    }
                    return Err(PolarsError::NotFound);
                },
            }
            k += 1;
        }
        assert(nv.take(k as int) =~= nv);
        Ok(rest)
    }

    /// Puts the two halves of a join side by side.  A column of the right
    /// half whose name a column of the left half has gets `_right` behind
    /// its name.
    pub fn finish_join(df_left: DataFrame, df_right: DataFrame) -> (r: PolarsResult<DataFrame>)
        ensures
            outcome(r) == finish_spec(df_left@, df_right@),
    {
        let left = df_left.get_columns();
        let right = df_right.get_columns();
        let ghost lv = df_left@;
        let ghost rv = df_right@;
        // the names of the left half, in a hash set
        let mut left_names = name_set_new(left.len(), random_state());
        let mut l: usize = 0;
        assert(set_names(left_names) =~= names_upto(lv, 0));
        while l < left.len()
            invariant
                l <= left.len(),
                columns_view(left@) == lv,
                set_names(left_names) == names_upto(lv, l as int),
            decreases left.len() - l,
        {
            let _ = name_set_insert(&mut left_names, left[l].name().clone());
            proof {
                assert forall|n: Seq<char>| names_upto(lv, l as int + 1).contains(n)
                    <==> names_upto(lv, l as int).insert(lv[l as int].name).contains(n) by {
                    if names_upto(lv, l as int + 1).contains(n) {
                        let i = choose|i: int| 0 <= i < l + 1 && (#[trigger] lv[i]).name == n;
                        if i < l {
                            assert(names_upto(lv, l as int).contains(n));
                        }
                    }
                    if names_upto(lv, l as int).contains(n) {
                        let i = choose|i: int| 0 <= i < l && (#[trigger] lv[i]).name == n;
                        assert(0 <= i < l + 1);
                    }
                }
                assert(set_names(left_names) =~= names_upto(lv, l as int + 1));
            }
            l += 1;
        }
        let mut renamed: Vec<Series> = Vec::with_capacity(right.len());
        let mut c: usize = 0;
        while c < right.len()
            invariant
                c <= right.len(),
                columns_view(left@) == lv,
                columns_view(right@) == rv,
                set_names(left_names) == names_upto(lv, lv.len() as int),
                renamed.len() == c,
                forall|d: int| 0 <= d < c ==> (#[trigger] renamed[d])@ == right_renamed(lv, rv)[d],
            decreases right.len() - c,
        {
            let mut column = right[c].duplicate();
            proof {
                lemma_names_upto(lv, rv[c as int].name);
            }
            if name_set_contains(&left_names, right[c].name().as_str()) {
                let name = right[c].name().clone().concat("_right");
                column.rename(name.as_str());
            }
            renamed.push(column);
            c += 1;
        }
        assert(columns_view(renamed@) =~= right_renamed(lv, rv));
        df_left.hstack(&renamed)
    }
}

/// Where the names up to `k` cannot all be taken out, nor can all names.
pub proof fn lemma_drop_names_fails(cols: Seq<SeriesView>, names: Seq<Seq<char>>, k: int)
    requires
        0 <= k <= names.len(),
        drop_names(cols, names.take(k)) is None,
    ensures
        drop_names(cols, names) is None,
    decreases names.len() - k,
{
    if k < names.len() {
        assert(names.take(k + 1).drop_last() =~= names.take(k));
        lemma_drop_names_fails(cols, names, k + 1);
    } else {
        assert(names.take(k) =~= names);
    }
}

/// Whether one of the columns is of lists.
pub open spec fn has_list(cols: Seq<SeriesView>) -> bool {
    exists|k: int| 0 <= k < cols.len() && (#[trigger] cols[k]).dtype is List
}

/// Why a join is refused before any row is looked at, if it is: a key
/// column is not there; the two sides name different numbers of keys, or
/// none; two keys differ in element type; a key is of lists; or a key is
/// named twice.
pub open spec fn join_refusal(
    left: Seq<SeriesView>,
    right: Seq<SeriesView>,
    left_on: Seq<Seq<char>>,
    right_on: Seq<Seq<char>>,
    how: JoinType,
) -> Option<PolarsError> {
    if !names_found(left, left_on) || !names_found(right, right_on) {
        Some(PolarsError::NotFound)
    } else if left_on.len() != right_on.len() {
        Some(PolarsError::ShapeMisMatch)
    } else if left_on.len() == 0 {
        Some(PolarsError::InvalidOperation)
    } else if !same_dtypes(select_columns(left, left_on), select_columns(right, right_on)) {
        Some(PolarsError::DataTypeMisMatch)
    } else if has_list(select_columns(left, left_on)) {
        Some(PolarsError::InvalidOperation)
    } else if drop_names(right, right_on) is None || (how is Outer && drop_names(left, left_on)
        is None) {
        Some(PolarsError::NotFound)
    } else {
        None
    }
}

/// The frame of an inner join with the given pairs: the left frame at the
/// left rows, then the right frame without its keys at the right rows.
pub open spec fn inner_frames(
    left: Seq<SeriesView>,
    right: Seq<SeriesView>,
    right_on: Seq<Seq<char>>,
    t: Seq<(usize, usize)>,
) -> Result<Seq<SeriesView>, PolarsError> {
    finish_spec(frame_take(left, firsts(t)), frame_take(drop_names(right, right_on)->0, seconds(t)))
}

/// The frame of a left join with the given pairs: the left frame at the
/// left rows, then the right frame without its keys at the right rows,
/// null in every column where a pair has no right row.
pub open spec fn left_frames(
    left: Seq<SeriesView>,
    right: Seq<SeriesView>,
    right_on: Seq<Seq<char>>,
    t: Seq<(usize, Option<usize>)>,
) -> Result<Seq<SeriesView>, PolarsError> {
    finish_spec(
        frame_take(left, left_firsts(t)),
        frame_take_opt(drop_names(right, right_on)->0, left_seconds(t)),
    )
}

/// The key columns of an outer join: for each pair of keys, the left key
/// where a pair has a left row, else the right key, under the left key's
/// name.
pub open spec fn outer_keys(
    left: Seq<SeriesView>,
    right: Seq<SeriesView>,
    left_on: Seq<Seq<char>>,
    right_on: Seq<Seq<char>>,
    t: Seq<(Option<usize>, Option<usize>)>,
) -> Seq<SeriesView> {
    Seq::new(
        left_on.len(),
        |k: int|
            select_columns(left, left_on)[k].with_values(
                zip_outer_values(
                    select_columns(left, left_on)[k].values,
                    select_columns(right, right_on)[k].values,
                    t,
                ),
            ),
    )
}

/// The frame of an outer join with the given pairs: the left frame without
/// its keys, the key columns, then the right frame without its keys; null
/// where a pair lacks the row of a side.
pub open spec fn outer_frames(
    left: Seq<SeriesView>,
    right: Seq<SeriesView>,
    left_on: Seq<Seq<char>>,
    right_on: Seq<Seq<char>>,
    t: Seq<(Option<usize>, Option<usize>)>,
) -> Result<Seq<SeriesView>, PolarsError> {
    match hstack_spec(
        frame_take_opt(drop_names(left, left_on)->0, outer_firsts(t)),
        outer_keys(left, right, left_on, right_on, t),
    ) {
        Ok(left_half) => finish_spec(
            left_half,
            frame_take_opt(drop_names(right, right_on)->0, outer_seconds(t)),
        ),
        Err(e) => Err(e),
    }
}

/// Whether `result` is what joining `left` with `right` on the given keys
/// gives.
pub open spec fn is_join_of(
    result: Result<Seq<SeriesView>, PolarsError>,
    left: Seq<SeriesView>,
    right: Seq<SeriesView>,
    left_on: Seq<Seq<char>>,
    right_on: Seq<Seq<char>>,
    how: JoinType,
) -> bool {
    match join_refusal(left, right, left_on, right_on, how) {
        Some(e) => result == Err::<Seq<SeriesView>, PolarsError>(e),
        None => {
            let left_rows = key_rows(select_columns(left, left_on));
            let right_rows = key_rows(select_columns(right, right_on));
            match how {
                JoinType::Inner => result == inner_frames(
                    left,
                    right,
                    right_on,
                    inner_join(left_rows, right_rows),
                ),
                JoinType::Left => result == left_frames(
                    left,
                    right,
                    right_on,
                    left_tuples(left_rows, right_rows),
                ),
                JoinType::Outer => exists|t: Seq<(Option<usize>, Option<usize>)>|
                    is_outer_join_of(t, left_rows, right_rows) && result == outer_frames(
                        left,
                        right,
                        left_on,
                        right_on,
                        t,
                    ),
            }
        },
    }
}

/// Selected columns of a frame are as high as the frame.
pub proof fn lemma_selected_height(cols: Seq<SeriesView>, names: Seq<Seq<char>>)
    requires
        is_frame(cols),
        names_found(cols, names),
    ensures
        equal_heights(select_columns(cols, names)),
        names.len() > 0 ==> frame_height(select_columns(cols, names)) == frame_height(cols),
        key_rows(select_columns(cols, names)).len() == frame_height(select_columns(cols, names)),
{
    let sel = select_columns(cols, names);
    assert forall|k: int| 0 <= k < names.len() implies (#[trigger] sel[k]).values.len()
        == frame_height(cols) by {
        lemma_name_index(cols, names[k]);
        let i = name_index(cols, names[k])->0;
        assert(cols[i].values.len() == cols[0].values.len());
    }
}

/// What is left of a frame after columns are taken out is a frame of the
/// same height, if a column is left.
pub proof fn lemma_drop_names_height(cols: Seq<SeriesView>, names: Seq<Seq<char>>)
    requires
        is_frame(cols),
        drop_names(cols, names) is Some,
    ensures
        drop_names(cols, names)->0.len() > 0 ==> frame_height(drop_names(cols, names)->0)
            == frame_height(cols),
        forall|c: int|
            0 <= c < drop_names(cols, names)->0.len() ==> (#[trigger] drop_names(
                cols,
                names,
            )->0[c]).values.len() == frame_height(cols),
    decreases names.len(),
{
    if names.len() == 0 {
        assert forall|c: int| 0 <= c < cols.len() implies (#[trigger] cols[c]).values.len()
            == frame_height(cols) by {
            assert(cols[c].values.len() == cols[0].values.len());
        }
    } else {
        lemma_drop_names_height(cols, names.drop_last());
        let rest = drop_names(cols, names.drop_last())->0;
        lemma_name_index(rest, names.last());
        let i = name_index(rest, names.last())->0;
        let out = rest.remove(i);
        assert forall|c: int| 0 <= c < out.len() implies (#[trigger] out[c]).values.len()
            == frame_height(cols) by {
            let d = if c < i {
                c
            } else {
                c + 1
            };
            assert(out[c] == rest[d]);
        }
    }
}

impl DataFrame {
    /// Joins this frame with another on the given key columns.
    ///
    /// The rows of the key columns are joined; the result holds the columns
    /// of this frame, then those of the other without its key columns.  A
    /// right column whose name a left column has gets `_right` behind its
    /// name.  `n_threads` workers build the tables and probe them; their
    /// number changes nothing in the result of an inner or a left join.
    pub fn join_on(
        &self,
        other: &DataFrame,
        left_on: &Vec<&str>,
        right_on: &Vec<&str>,
        how: JoinType,
        n_threads: usize,
    ) -> (r: PolarsResult<DataFrame>)
        ensures
            is_join_of(
                outcome(r),
                self@,
                other@,
                names_view(left_on@),
                names_view(right_on@),
                how,
            ),
    {
        let ghost lv = self@;
        let ghost rv = other@;
        let ghost ln = names_view(left_on@);
        let ghost rn = names_view(right_on@);
        let selected_left = match self.select_series(left_on) {
            Ok(cols) => cols,
            Err(e) => {
                return Err(e);
            },
        };
        let selected_right = match other.select_series(right_on) {
            Ok(cols) => cols,
            Err(e) => {
                return Err(e);
            },
        };
        if left_on.len() != right_on.len() {
            return Err(PolarsError::ShapeMisMatch);
        }
        if left_on.len() == 0 {
            return Err(PolarsError::InvalidOperation);
        }
        if !check_dtypes(&selected_left, &selected_right) {
            return Err(PolarsError::DataTypeMisMatch);
        }
        if any_list(&selected_left) {
            return Err(PolarsError::InvalidOperation);
        }
        let right_rest = match other.remove_selected(right_on) {
            Ok(df) => df,
            Err(e) => {
                return Err(e);
            },
        };
        let _ = self.get_columns();
        let _ = other.get_columns();
        let left_height = selected_left[0].len();
        let right_height = selected_right[0].len();
        let ghost left_rows = key_rows(select_columns(lv, ln));
        let ghost right_rows = key_rows(select_columns(rv, rn));
        proof {
            lemma_selected_height(lv, ln);
            lemma_selected_height(rv, rn);
            lemma_drop_names_height(rv, rn);
            assert(columns_view(selected_left@)[0] == selected_left[0]@);
            assert(columns_view(selected_right@)[0] == selected_right[0]@);
            assert(left_rows.len() == left_height);
            assert(right_rows.len() == right_height);
        }
        match how {
            JoinType::Inner => {
                let join_tuples = inner_join_multiple_keys(
                    &selected_left,
                    &selected_right,
                    n_threads,
                );
                let (left_idx, right_idx) = split_pairs(&join_tuples);
                proof {
                    lemma_inner_join_bounds(left_rows, right_rows);
                    assert forall|x: int| 0 <= x < left_idx.len() implies (#[trigger] left_idx[x])
                        < frame_height(lv) by {
                        assert(left_idx[x] == join_tuples[x].0);
                    }
                    assert forall|x: int| 0 <= x < right_idx.len() implies (
                    #[trigger] right_idx[x]) < frame_height(rv) by {
                        assert(right_idx[x] == join_tuples[x].1);
                    }
                }
                let df_left = self.create_left_df(&left_idx, false);
                let df_right = right_rest.take_iter_unchecked(&right_idx);
                DataFrame::finish_join(df_left, df_right)
            },
            JoinType::Left => {
                let join_tuples = left_join_multiple_keys(
                    &selected_left,
                    &selected_right,
                    n_threads,
                );
                let (left_idx, right_idx) = split_left_pairs(&join_tuples);
                proof {
                    lemma_left_join_bounds(left_rows, right_rows);
                    assert forall|x: int| 0 <= x < left_idx.len() implies (#[trigger] left_idx[x])
                        < frame_height(lv) by {
                        assert(left_idx[x] == join_tuples[x].0);
                    }
                    assert forall|x: int| 0 <= x < right_idx.len() implies match (
                    #[trigger] right_idx[x]) {
                        Some(j) => j < frame_height(rv),
                        None => true,
                    } by {
                        assert(right_idx[x] == join_tuples[x].1);
                    }
                }
                proof {
                    lemma_left_join_one_each(left_rows, right_rows, left_rows.len() as int);
                    if left_idx.len() == frame_height(lv) {
                        assert forall|x: int| 0 <= x < left_idx.len() implies left_idx[x] == x by {
                            assert(left_idx[x] == join_tuples[x].0);
                        }
                    }
                }
                let df_left = self.create_left_df(&left_idx, true);
                let df_right = right_rest.take_opt_iter_unchecked(&right_idx);
                DataFrame::finish_join(df_left, df_right)
            },
            JoinType::Outer => {
                let left_rest = match self.remove_selected(left_on) {
                    Ok(df) => df,
                    Err(e) => {
                        return Err(e);
                    },
                };
                proof {
                    lemma_drop_names_height(lv, ln);
                }
                let opt_join_tuples = outer_join_multiple_keys(
                    &selected_left,
                    &selected_right,
                    n_threads,
                );
                let ghost t = opt_join_tuples@;
                let (left_idx, right_idx) = split_outer_pairs(&opt_join_tuples);
                proof {
                    if left_rows.len() > right_rows.len() {
                        lemma_outer_join_bounds(t, left_rows, right_rows, false);
                    } else {
                        lemma_outer_join_bounds(t, right_rows, left_rows, true);
                    }
                    assert forall|x: int| 0 <= x < t.len() implies match (#[trigger] left_idx[x]) {
                        Some(i) => i < frame_height(lv),
                        None => true,
                    } by {
                        assert(left_idx[x] == t[x].0);
                        if left_rows.len() > right_rows.len() {
                            assert(probe_side(t[x], false) == t[x].0);
                        } else {
                            assert(build_side(t[x], true) == t[x].0);
                        }
                    }
                    assert forall|x: int| 0 <= x < t.len() implies match (#[trigger] right_idx[x]) {
                        Some(j) => j < frame_height(rv),
                        None => true,
                    } by {
                        assert(right_idx[x] == t[x].1);
                        if left_rows.len() > right_rows.len() {
                            assert(build_side(t[x], false) == t[x].1);
                        } else {
                            assert(probe_side(t[x], true) == t[x].1);
                        }
                    }
                }
                let df_left = left_rest.take_opt_iter_unchecked(&left_idx);
                let df_right = right_rest.take_opt_iter_unchecked(&right_idx);
                let mut keys: Vec<Series> = Vec::with_capacity(selected_left.len());
                let mut k: usize = 0;
                while k < selected_left.len()
                    invariant
                        k <= selected_left.len(),
                        selected_left.len() == selected_right.len(),
                        selected_left.len() == ln.len(),
                        t == opt_join_tuples@,
                        keys.len() == k,
                        columns_view(selected_left@) == select_columns(lv, ln),
                        columns_view(selected_right@) == select_columns(rv, rn),
                        same_dtypes(select_columns(lv, ln), select_columns(rv, rn)),
                        forall|c: int|
                            0 <= c < ln.len() ==> (#[trigger] select_columns(
                                lv,
                                ln,
                            )[c]).values.len() == frame_height(lv),
                        forall|c: int|
                            0 <= c < ln.len() ==> (#[trigger] select_columns(
                                rv,
                                rn,
                            )[c]).values.len() == frame_height(rv),
                        outer_in_bounds(t, frame_height(lv), frame_height(rv)),
                        forall|j: int|
                            0 <= j < k ==> (#[trigger] keys[j])@ == outer_keys(lv, rv, ln, rn, t)[j],
                    decreases selected_left.len() - k,
                {
                    assert(columns_view(selected_left@)[k as int] == selected_left[k as int]@);
                    assert(columns_view(selected_right@)[k as int] == selected_right[k as int]@);
                    assert(select_columns(lv, ln)[k as int].dtype == select_columns(
                        rv,
                        rn,
                    )[k as int].dtype);
                    let s = selected_left[k].zip_outer_join_column(
                        &selected_right[k],
                        &opt_join_tuples,
                    );
                    keys.push(s);
                    k += 1;
                }
                assert(columns_view(keys@) =~= outer_keys(lv, rv, ln, rn, t));
                let df_left = match df_left.hstack(&keys) {
                    Ok(df) => df,
                    Err(e) => {
                        return Err(e);
                    },
                };
                DataFrame::finish_join(df_left, df_right)
            },
        }
    }

    /// The left half of a join: this frame at the left rows of the pairs.
    /// In a left join that has as many pairs as the frame has rows, the
    /// left rows are the rows of the frame in order, and the frame is
    /// copied as it is.
    pub fn create_left_df(&self, left_idx: &Vec<usize>, left_join: bool) -> (r: DataFrame)
        requires
            self@.len() > 0 ==> all_in_bounds(left_idx@, frame_height(self@)),
            left_join && self@.len() > 0 && left_idx@.len() == frame_height(self@) ==> forall|
                x: int,
            | 0 <= x < left_idx@.len() ==> left_idx@[x] == x,
        ensures
            r@ == frame_take(self@, left_idx@),
    {
        if left_join && self.width() > 0 && left_idx.len() == self.height() {
            let _ = self.get_columns();
            proof {
                let cols = self@;
                assert forall|c: int| 0 <= c < cols.len() implies cols[c] == (
                #[trigger] cols[c]).with_values(take_values(cols[c].values, left_idx@)) by {
                    assert(cols[c].values.len() == cols[0].values.len());
                    assert(take_values(cols[c].values, left_idx@) =~= cols[c].values);
                }
                assert(cols =~= frame_take(cols, left_idx@));
            }
            self.duplicate()
        } else {
            self.take_iter_unchecked(left_idx)
        }
    }
}

impl DataFrame {
    /// Joins this frame with another on one or several key columns.
    /// `max_threads` limits the number of workers; without a limit there
    /// are as many as the machine has processors.
    pub fn join<'a, S1: Selection<'a>, S2: Selection<'a>>(
        &self,
        other: &DataFrame,
        left_on: S1,
        right_on: S2,
        how: JoinType,
        max_threads: Option<usize>,
    ) -> (r: PolarsResult<DataFrame>)
        ensures
            is_join_of(outcome(r), self@, other@, left_on.names(), right_on.names(), how),
    {
        let left_names = left_on.to_selection_vec();
        let right_names = right_on.to_selection_vec();
        self.join_on(other, &left_names, &right_names, how, n_join_threads(max_threads))
    }

    /// Inner join on one key column of each frame: a row for every pair of
    /// a left and a right row with the same key.
    pub fn inner_join(
        &self,
        other: &DataFrame,
        left_on: &str,
        right_on: &str,
        max_threads: Option<usize>,
    ) -> (r: PolarsResult<DataFrame>)
        ensures
            is_join_of(
                outcome(r),
                self@,
                other@,
                seq![left_on@],
                seq![right_on@],
                JoinType::Inner,
            ),
    {
        self.join(other, left_on, right_on, JoinType::Inner, max_threads)
    }

    /// Left join on one key column of each frame: every left row, with
    /// each right row of the same key, or with nulls where there is none.
    pub fn left_join(
        &self,
        other: &DataFrame,
        left_on: &str,
        right_on: &str,
        max_threads: Option<usize>,
    ) -> (r: PolarsResult<DataFrame>)
        ensures
            is_join_of(outcome(r), self@, other@, seq![left_on@], seq![right_on@], JoinType::Left),
    {
        self.join(other, left_on, right_on, JoinType::Left, max_threads)
    }

    /// Outer join on one key column of each frame: the rows of both frames,
    /// side by side where the keys are the same, with nulls where a row has
    /// no partner.
    pub fn outer_join(
        &self,
        other: &DataFrame,
        left_on: &str,
        right_on: &str,
        max_threads: Option<usize>,
    ) -> (r: PolarsResult<DataFrame>)
        ensures
            is_join_of(
                outcome(r),
                self@,
                other@,
                seq![left_on@],
                seq![right_on@],
                JoinType::Outer,
            ),
    {
        self.join(other, left_on, right_on, JoinType::Outer, max_threads)
    }
}

/// In a left join, a row whose left key no right row holds is null in
/// every column that comes from the right frame, not in the key alone.
pub proof fn left_join_null_fill(
    left: Seq<SeriesView>,
    right: Seq<SeriesView>,
    left_on: Seq<Seq<char>>,
    right_on: Seq<Seq<char>>,
    x: int,
    c: int,
)
    requires
        frame_height(left) <= usize::MAX,
        frame_height(right) <= usize::MAX,
        is_frame(left),
        is_frame(right),
        join_refusal(left, right, left_on, right_on, JoinType::Left) is None,
        left_frames(
            left,
            right,
            right_on,
            left_tuples(
                key_rows(select_columns(left, left_on)),
                key_rows(select_columns(right, right_on)),
            ),
        ) is Ok,
        0 <= x < left_tuples(
            key_rows(select_columns(left, left_on)),
            key_rows(select_columns(right, right_on)),
        ).len(),
        !key_rows(select_columns(right, right_on)).contains(
            key_rows(select_columns(left, left_on))[left_tuples(
                key_rows(select_columns(left, left_on)),
                key_rows(select_columns(right, right_on)),
            )[x].0 as int],
        ),
        left.len() <= c < left_frames(
            left,
            right,
            right_on,
            left_tuples(
                key_rows(select_columns(left, left_on)),
                key_rows(select_columns(right, right_on)),
            ),
        )->Ok_0.len(),
    ensures
        left_frames(
            left,
            right,
            right_on,
            left_tuples(
                key_rows(select_columns(left, left_on)),
                key_rows(select_columns(right, right_on)),
            ),
        )->Ok_0[c].values[x] is Null,
{
    let left_rows = key_rows(select_columns(left, left_on));
    let right_rows = key_rows(select_columns(right, right_on));
    let t = left_tuples(left_rows, right_rows);
    lemma_selected_height(left, left_on);
    lemma_selected_height(right, right_on);
    left_join_totality(left_rows, right_rows);
    lemma_left_join_bounds(left_rows, right_rows);
    let i = t[x].0;
    assert(t[x].1 is None) by {
        if t[x].1 is Some {
            let j = t[x].1->0;
            assert(t.contains((i, Some(j))));
            assert(right_rows[j as int] == left_rows[i as int]);
        }
    }
    let rest = drop_names(right, right_on)->0;
    let left_half = frame_take(left, left_firsts(t));
    let right_half = frame_take_opt(rest, left_seconds(t));
    let d = c - left.len();
    assert(right_renamed(left_half, right_half)[d].values == right_half[d].values);
    assert(take_opt_values(rest[d].values, left_seconds(t))[x] is Null);
}

/// An inner join that is not refused gives a frame exactly where no two
/// columns of the result would stand under one name: the left columns, and
/// the right columns without the keys, each under its new name if a left
/// column has its name.  Where two would, the join fails with `Duplicate`:
/// a left frame of `k`, `a` and `a_right` joined on `k` with a right frame
/// of `k` and `a` is such a one.
pub proof fn inner_join_gives_frame(
    left: Seq<SeriesView>,
    right: Seq<SeriesView>,
    left_on: Seq<Seq<char>>,
    right_on: Seq<Seq<char>>,
    result: Result<Seq<SeriesView>, PolarsError>,
)
    requires
        is_frame(left),
        is_frame(right),
        join_refusal(left, right, left_on, right_on, JoinType::Inner) is None,
        is_join_of(result, left, right, left_on, right_on, JoinType::Inner),
    ensures
        result is Ok <==> distinct_names(
            left + right_renamed(left, drop_names(right, right_on)->0),
        ),
        result is Err ==> result == Err::<Seq<SeriesView>, PolarsError>(PolarsError::Duplicate),
{
    let left_rows = key_rows(select_columns(left, left_on));
    let right_rows = key_rows(select_columns(right, right_on));
    let t = inner_join(left_rows, right_rows);
    let rest = drop_names(right, right_on)->0;
    let left_half = frame_take(left, firsts(t));
    let right_half = frame_take(rest, seconds(t));
    let whole = left_half + right_renamed(left_half, right_half);
    let names = left + right_renamed(left, rest);
    assert forall|n: Seq<char>| name_index(left_half, n) is Some <==> name_index(left, n)
        is Some by {
        lemma_name_index(left_half, n);
        lemma_name_index(left, n);
        if name_index(left_half, n) is Some {
            let i = name_index(left_half, n)->0;
            assert(left[i].name == n);
        }
        if name_index(left, n) is Some {
            let i = name_index(left, n)->0;
            assert(left_half[i].name == n);
        }
    }
    assert(whole.len() == names.len());
    assert forall|c: int| 0 <= c < whole.len() implies (#[trigger] whole[c]).name
        == names[c].name && whole[c].values.len() == t.len() by {
        if c >= left.len() {
            let d = c - left.len();
            assert(whole[c] == right_renamed(left_half, right_half)[d]);
            assert(names[c] == right_renamed(left, rest)[d]);
            assert(right_half[d].name == rest[d].name);
        }
    }
    assert(equal_heights(whole));
    if distinct_names(names) {
        assert forall|i: int, j: int| 0 <= i < j < whole.len() implies (#[trigger] whole[i]).name
            != (#[trigger] whole[j]).name by {
            assert(names[i].name != names[j].name);
        }
    }
    if distinct_names(whole) {
        assert forall|i: int, j: int| 0 <= i < j < names.len() implies (#[trigger] names[i]).name
            != (#[trigger] names[j]).name by {
            assert(whole[i].name != whole[j].name);
        }
    }
}

/// Where an inner join gives a frame, the frame has one row for every pair
/// of a left and a right row that hold the same values in the key columns,
/// and no other row.  (A join gives no frame where it is refused, or where
/// a right column still meets a left column of its name after it has been
/// renamed.)
pub proof fn inner_join_frame_cardinality(
    left: Seq<SeriesView>,
    right: Seq<SeriesView>,
    left_on: Seq<Seq<char>>,
    right_on: Seq<Seq<char>>,
    joined: Seq<SeriesView>,
)
    requires
        is_frame(left),
        is_frame(right),
        frame_height(left) <= usize::MAX,
        frame_height(right) <= usize::MAX,
        is_join_of(
            Ok::<Seq<SeriesView>, PolarsError>(joined),
            left,
            right,
            left_on,
            right_on,
            JoinType::Inner,
        ),
    ensures
        joined.len() > 0,
        frame_height(joined) == matching_pairs(
            key_rows(select_columns(left, left_on)),
            key_rows(select_columns(right, right_on)),
        ).len(),
{
    let left_rows = key_rows(select_columns(left, left_on));
    let right_rows = key_rows(select_columns(right, right_on));
    let t = inner_join(left_rows, right_rows);
    assert(join_refusal(left, right, left_on, right_on, JoinType::Inner) is None);
    lemma_selected_height(left, left_on);
    lemma_selected_height(right, right_on);
    lemma_name_index(left, left_on[0]);
    assert(left.len() > 0);
    inner_join_pairs(left_rows, right_rows);
    let left_half = frame_take(left, firsts(t));
    let right_half = frame_take(drop_names(right, right_on)->0, seconds(t));
    assert(joined == left_half + right_renamed(left_half, right_half));
    assert(joined[0] == left_half[0]);
    assert(left_half[0].values.len() == t.len());
}

} // verus!
