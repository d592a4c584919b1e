//! Frames: columns of equal height with names that differ from one another.

use crate::error::{PolarsError, PolarsResult};
use crate::series::{equal_no_nulls, Series, SeriesView};
use crate::take::{
    all_in_bounds, all_opt_in_bounds, check_bounds, check_opt_bounds, take_opt_values, take_values,
    Take,
};
use vstd::prelude::*;

verus! {

/// The models of a vector of columns.
pub open spec fn columns_view(columns: Seq<Series>) -> Seq<SeriesView> {
    Seq::new(columns.len(), |i: int| columns[i]@)
}

/// All columns have the same number of rows.
pub open spec fn equal_heights(cols: Seq<SeriesView>) -> bool {
    forall|i: int, j: int|
        0 <= i < cols.len() && 0 <= j < cols.len() ==> (#[trigger] cols[i]).values.len() == (
        #[trigger] cols[j]).values.len()
}

/// No two columns have the same name.
pub open spec fn distinct_names(cols: Seq<SeriesView>) -> bool {
    forall|i: int, j: int|
        0 <= i < j < cols.len() ==> (#[trigger] cols[i]).name != (#[trigger] cols[j]).name
}

/// What makes a sequence of columns a frame.
pub open spec fn is_frame(cols: Seq<SeriesView>) -> bool {
    equal_heights(cols) && distinct_names(cols)
}

/// The number of rows of a frame; none where it has no column.
pub open spec fn frame_height(cols: Seq<SeriesView>) -> nat {
    if cols.len() == 0 {
        0
    } else {
        cols[0].values.len()
    }
}

/// Whether a column of the frame has this name.
pub open spec fn has_name(cols: Seq<SeriesView>, name: Seq<char>) -> bool {
    exists|i: int| 0 <= i < cols.len() && (#[trigger] cols[i]).name == name
}

/// The first column with this name, if there is one.
pub open spec fn name_index(cols: Seq<SeriesView>, name: Seq<char>) -> Option<int>
    decreases cols.len(),
{
    if cols.len() == 0 {
        None
    } else {
        match name_index(cols.drop_last(), name) {
            Some(i) => Some(i),
            None => if cols.last().name == name {
                Some(cols.len() - 1)
            } else {
                None
            },
        }
    }
}

/// `name_index` finds the first column of that name, and none where there
/// is none.
pub proof fn lemma_name_index(cols: Seq<SeriesView>, name: Seq<char>)
    ensures
        match name_index(cols, name) {
            Some(i) => 0 <= i < cols.len() && cols[i].name == name && forall|j: int|
                0 <= j < i ==> (#[trigger] cols[j]).name != name,
            None => !has_name(cols, name),
        },
    decreases cols.len(),
{
    if cols.len() > 0 {
        lemma_name_index(cols.drop_last(), name);
        match name_index(cols.drop_last(), name) {
            Some(i) => {
                assert(cols.drop_last()[i] == cols[i]);
                assert forall|j: int| 0 <= j < i implies (#[trigger] cols[j]).name != name by {
                    assert(cols.drop_last()[j] == cols[j]);
                }
            },
            None => {
                assert forall|j: int| 0 <= j < cols.len() - 1 implies (#[trigger] cols[j]).name
                    != name by {
                    assert(cols.drop_last()[j] == cols[j]);
                }
            },
        }
    }
}

/// Every column gathered at the same rows.
pub open spec fn frame_take(cols: Seq<SeriesView>, indices: Seq<usize>) -> Seq<SeriesView> {
    Seq::new(cols.len(), |c: int| cols[c].with_values(take_values(cols[c].values, indices)))
}

/// Every column gathered at the same rows, null where no row is given.
pub open spec fn frame_take_opt(cols: Seq<SeriesView>, indices: Seq<Option<usize>>) -> Seq<
    SeriesView,
> {
    Seq::new(cols.len(), |c: int| cols[c].with_values(take_opt_values(cols[c].values, indices)))
}

/// A frame: an ordered set of columns, all of one height, each under a
/// name of its own.
pub struct DataFrame {
    columns: Vec<Series>,
}

impl View for DataFrame {
    type V = Seq<SeriesView>;

    closed spec fn view(&self) -> Seq<SeriesView> {
        columns_view(self.columns@)
    }
}

/// Copies of a vector of columns.
pub fn duplicate_columns(columns: &Vec<Series>) -> (r: Vec<Series>)
    ensures
        columns_view(r@) == columns_view(columns@),
{
    let mut out: Vec<Series> = Vec::with_capacity(columns.len());
    let mut i: usize = 0;
    while i < columns.len()
        invariant
            i <= columns.len(),
            out.len() == i,
            forall|j: int| 0 <= j < i ==> out[j]@ == columns[j]@,
        decreases columns.len() - i,
    {
        out.push(columns[i].duplicate());
        i += 1;
    }
    assert(columns_view(out@) =~= columns_view(columns@));
    out
}

/// Whether all columns have the same number of rows.
pub fn check_heights(columns: &Vec<Series>) -> (r: bool)
    ensures
        r == equal_heights(columns_view(columns@)),
{
    let ghost cols = columns_view(columns@);
    let mut i: usize = 1;
    while i < columns.len()
        invariant
            1 <= i,
            cols == columns_view(columns@),
            forall|j: int| 0 <= j < i && j < cols.len() ==> (#[trigger] cols[j]).values.len()
                == cols[0].values.len(),
        decreases columns.len() - i,
    {
        if columns[i].len() != columns[0].len() {
            assert(cols[i as int].values.len() != cols[0].values.len());
            return false;
        }
        i += 1;
    }
    true
}

/// The first of the columns that has the given name, if one has.
pub fn position_of_name(columns: &Vec<Series>, name: &String) -> (r: Option<usize>)
    ensures
        match r {
            Some(i) => name_index(columns_view(columns@), name@) == Some(i as int),
            None => name_index(columns_view(columns@), name@) is None,
        },
{
    let ghost cols = columns_view(columns@);
    let mut i: usize = 0;
    while i < columns.len()
        invariant
            i <= columns.len(),
            cols == columns_view(columns@),
            forall|j: int| 0 <= j < i ==> (#[trigger] cols[j]).name != name@,
        decreases columns.len() - i,
    {
        if *columns[i].name() == *name {
            proof {
                lemma_name_index(cols, name@);
                assert(cols[i as int].name == name@);
            }
            return Some(i);
        }
        i += 1;
    }
    proof {
        lemma_name_index(cols, name@);
    }
    None
}

/// Whether no two columns have the same name.
pub fn check_names(columns: &Vec<Series>) -> (r: bool)
    ensures
        r == distinct_names(columns_view(columns@)),
{
    let ghost cols = columns_view(columns@);
    let mut j: usize = 0;
    while j < columns.len()
        invariant
            j <= columns.len(),
            cols == columns_view(columns@),
            forall|a: int, b: int| 0 <= a < b < j ==> (#[trigger] cols[a]).name != (
            #[trigger] cols[b]).name,
        decreases columns.len() - j,
    {
        let mut i: usize = 0;
        while i < j
            invariant
                i <= j < columns.len(),
                cols == columns_view(columns@),
                forall|a: int| 0 <= a < i ==> (#[trigger] cols[a]).name != cols[j as int].name,
            decreases j - i,
        {
            if *columns[i].name() == *columns[j].name() {
                assert(cols[i as int].name == cols[j as int].name);
                return false;
            }
            i += 1;
        }
        j += 1;
    }
    true
}

impl DataFrame {
    #[verifier::type_invariant]
    spec fn well_formed(&self) -> bool {
        is_frame(columns_view(self.columns@))
    }

    /// A frame of the given columns; refused when they differ in height or
    /// when two of them have the same name.
    pub fn new(columns: Vec<Series>) -> (r: PolarsResult<DataFrame>)
        ensures
            match r {
                Ok(df) => is_frame(columns_view(columns@)) && df@ == columns_view(columns@),
                Err(e) => if !equal_heights(columns_view(columns@)) {
                    e == PolarsError::ShapeMisMatch
                } else {
                    !distinct_names(columns_view(columns@)) && e == PolarsError::Duplicate
                },
            },
    {
        if !check_heights(&columns) {
            return Err(PolarsError::ShapeMisMatch);
        }
        if !check_names(&columns) {
            return Err(PolarsError::Duplicate);
        }
        Ok(DataFrame { columns })
    }

    /// The number of rows.
    pub fn height(&self) -> (r: usize)
        ensures
            r == frame_height(self@),
    {
        if self.columns.len() == 0 {
            0
        } else {
            self.columns[0].len()
        }
    }

    /// The number of columns.
    pub fn width(&self) -> (r: usize)
        ensures
            r == self@.len(),
    {
        self.columns.len()
    }

    /// The numbers of rows and of columns.
    pub fn shape(&self) -> (r: (usize, usize))
        ensures
            r.0 == frame_height(self@),
            r.1 == self@.len(),
    {
        (self.height(), self.width())
    }

    /// The columns, in order.
    pub fn get_columns(&self) -> (r: &Vec<Series>)
        ensures
            columns_view(r@) == self@,
            is_frame(self@),
    {
        proof {
            use_type_invariant(self);
        }
        &self.columns
    }

    /// The position of the column with the given name.
    pub fn find_idx_by_name(&self, name: &str) -> (r: Option<usize>)
        ensures
            match r {
                Some(i) => name_index(self@, name@) == Some(i as int),
                None => name_index(self@, name@) is None,
            },
    {
        let owned = name.to_owned();
        position_of_name(&self.columns, &owned)
    }

    /// The column at a position.
    pub fn select_at_idx(&self, idx: usize) -> (r: Option<&Series>)
        ensures
            match r {
                Some(s) => idx < self@.len() && s@ == self@[idx as int],
                None => idx >= self@.len(),
            },
    {
        if idx < self.columns.len() {
            Some(&self.columns[idx])
        } else {
            None
        }
    }

    /// The column with the given name; `NotFound` where there is none.
    pub fn column(&self, name: &str) -> (r: PolarsResult<&Series>)
        ensures
            match r {
                Ok(s) => name_index(self@, name@) is Some && s@ == self@[name_index(
                    self@,
                    name@,
                )->0],
                Err(e) => name_index(self@, name@) is None && e == PolarsError::NotFound,
            },
    {
        proof {
            lemma_name_index(self@, name@);
        }
        match self.find_idx_by_name(name) {
            Some(i) => Ok(&self.columns[i]),
            None => Err(PolarsError::NotFound),
        }
    }

    /// A copy of the frame.
    pub fn duplicate(&self) -> (r: DataFrame)
        ensures
            r@ == self@,
    {
        proof {
            use_type_invariant(self);
        }
        DataFrame { columns: duplicate_columns(&self.columns) }
    }

    /// The frame without the column of the given name; `NotFound` where
    /// there is none.
    pub fn drop(&self, name: &str) -> (r: PolarsResult<DataFrame>)
        ensures
            match r {
                Ok(df) => name_index(self@, name@) is Some && df@ == self@.remove(
                    name_index(self@, name@)->0,
                ),
                Err(e) => name_index(self@, name@) is None && e == PolarsError::NotFound,
            },
    {
        proof {
            use_type_invariant(self);
            lemma_name_index(self@, name@);
        }
        match self.find_idx_by_name(name) {
            Some(at) => {
                let mut columns = duplicate_columns(&self.columns);
                let dropped = columns.remove(at);
                proof {
                    let old_cols = self@;
                    let new_cols = columns_view(columns@);
                    assert(new_cols =~= old_cols.remove(at as int));
                    assert forall|i: int, j: int|
                        0 <= i < new_cols.len() && 0 <= j < new_cols.len() implies (
                    #[trigger] new_cols[i]).values.len() == (#[trigger] new_cols[j]).values.len() by {
                        let a = if i < at { i } else { i + 1 };
                        let b = if j < at { j } else { j + 1 };
                        assert(new_cols[i] == old_cols[a]);
                        assert(new_cols[j] == old_cols[b]);
                    }
                    assert forall|i: int, j: int| 0 <= i < j < new_cols.len() implies (
                    #[trigger] new_cols[i]).name != (#[trigger] new_cols[j]).name by {
                        let a = if i < at { i } else { i + 1 };
                        let b = if j < at { j } else { j + 1 };
                        assert(new_cols[i] == old_cols[a]);
                        assert(new_cols[j] == old_cols[b]);
                    }
                }
                Ok(DataFrame { columns })
            },
            None => Err(PolarsError::NotFound),
        }
    }

    /// Every column gathered at `indices`, which are known to be below the
    /// frame's height.
    pub fn take_iter_unchecked(&self, indices: &Vec<usize>) -> (r: DataFrame)
        requires
            self@.len() > 0 ==> all_in_bounds(indices@, frame_height(self@)),
        ensures
            r@ == frame_take(self@, indices@),
    {
        proof {
            use_type_invariant(self);
        }
        let ghost cols = self@;
        let mut columns: Vec<Series> = Vec::with_capacity(self.columns.len());
        let mut c: usize = 0;
        while c < self.columns.len()
            invariant
                c <= self.columns.len(),
                columns.len() == c,
                cols == self@,
                is_frame(cols),
                cols == columns_view(self.columns@),
                cols.len() > 0 ==> all_in_bounds(indices@, frame_height(cols)),
                forall|d: int|
                    0 <= d < c ==> (#[trigger] columns[d])@ == cols[d].with_values(
                        take_values(cols[d].values, indices@),
                    ),
            decreases self.columns.len() - c,
        {
            assert(cols[c as int].values.len() == cols[0].values.len());
            let taken = self.columns[c].take_unchecked(indices, None);
            columns.push(taken);
            c += 1;
        }
        proof {
            let out = columns_view(columns@);
            assert(out =~= frame_take(cols, indices@));
            assert forall|i: int, j: int| 0 <= i < j < out.len() implies (#[trigger] out[i]).name
                != (#[trigger] out[j]).name by {
                assert(cols[i].name != cols[j].name);
            }
        }
        DataFrame { columns }
    }

    /// Every column gathered at `indices`, which are known to be below the
    /// frame's height; null where no index is given.
    pub fn take_opt_iter_unchecked(&self, indices: &Vec<Option<usize>>) -> (r: DataFrame)
        requires
            self@.len() > 0 ==> all_opt_in_bounds(indices@, frame_height(self@)),
        ensures
            r@ == frame_take_opt(self@, indices@),
    {
        proof {
            use_type_invariant(self);
        }
        let ghost cols = self@;
        let mut columns: Vec<Series> = Vec::with_capacity(self.columns.len());
        let mut c: usize = 0;
        while c < self.columns.len()
            invariant
                c <= self.columns.len(),
                columns.len() == c,
                cols == self@,
                is_frame(cols),
                cols == columns_view(self.columns@),
                cols.len() > 0 ==> all_opt_in_bounds(indices@, frame_height(cols)),
                forall|d: int|
                    0 <= d < c ==> (#[trigger] columns[d])@ == cols[d].with_values(
                        take_opt_values(cols[d].values, indices@),
                    ),
            decreases self.columns.len() - c,
        {
            assert(cols[c as int].values.len() == cols[0].values.len());
            let taken = self.columns[c].take_opt_unchecked(indices, None);
            columns.push(taken);
            c += 1;
        }
        proof {
            let out = columns_view(columns@);
            assert(out =~= frame_take_opt(cols, indices@));
            assert forall|i: int, j: int| 0 <= i < j < out.len() implies (#[trigger] out[i]).name
                != (#[trigger] out[j]).name by {
                assert(cols[i].name != cols[j].name);
            }
        }
        DataFrame { columns }
    }

    /// Whether both frames have as many columns, and each column of the one
    /// has the element type and the values of the column at its place in
    /// the other, with no null among them.  Names are not compared.
    pub fn frame_equal(&self, other: &DataFrame) -> (r: bool)
        ensures
            r == (self@.len() == other@.len() && forall|c: int|
                0 <= c < self@.len() ==> (#[trigger] self@[c]).dtype == other@[c].dtype
                    && equal_no_nulls(self@[c].values, other@[c].values)),
    {
        if self.columns.len() != other.columns.len() {
            return false;
        }
        let mut c: usize = 0;
        while c < self.columns.len()
            invariant
                c <= self.columns.len(),
                self.columns.len() == other.columns.len(),
                forall|d: int|
                    0 <= d < c ==> (#[trigger] self@[d]).dtype == other@[d].dtype
                        && equal_no_nulls(self@[d].values, other@[d].values),
            decreases self.columns.len() - c,
        {
            if !self.columns[c].series_equal(&other.columns[c]) {
                assert(!(self@[c as int].dtype == other@[c as int].dtype && equal_no_nulls(
                    self@[c as int].values,
                    other@[c as int].values,
                )));
                return false;
            }
            c += 1;
        }
        true
    }

    /// The frame with the given columns put behind its own; refused when
    /// the heights differ or a name would occur twice.
    pub fn hstack(&self, columns: &Vec<Series>) -> (r: PolarsResult<DataFrame>)
        ensures
            match r {
                Ok(df) => is_frame(self@ + columns_view(columns@)) && df@ == self@
                    + columns_view(columns@),
                Err(e) => if !equal_heights(self@ + columns_view(columns@)) {
                    e == PolarsError::ShapeMisMatch
                } else {
                    !distinct_names(self@ + columns_view(columns@)) && e
                        == PolarsError::Duplicate
                },
            },
    {
        let mut all = duplicate_columns(&self.columns);
        let mut more = duplicate_columns(columns);
        all.append(&mut more);
        assert(columns_view(all@) =~= self@ + columns_view(columns@));
        DataFrame::new(all)
    }

    /// Puts the given columns behind the frame's own; refused, and the
    /// frame left as it was, when the heights differ or a name would occur
    /// twice.
    pub fn hstack_mut(&mut self, columns: &Vec<Series>) -> (r: PolarsResult<()>)
        ensures
            match r {
                Ok(_) => is_frame(old(self)@ + columns_view(columns@)) && final(self)@ == old(
                    self,
                )@ + columns_view(columns@),
                Err(e) => final(self)@ == old(self)@ && if !equal_heights(
                    old(self)@ + columns_view(columns@),
                ) {
                    e == PolarsError::ShapeMisMatch
                } else {
                    !distinct_names(old(self)@ + columns_view(columns@)) && e
                        == PolarsError::Duplicate
                },
            },
    {
        match self.hstack(columns) {
            Ok(df) => {
                proof {
                    use_type_invariant(&df);
                }
                self.columns = df.columns;
                Ok(())
            },
            Err(e) => Err(e),
        }
    }
}

impl crate::take_index::ChunkTake for DataFrame {
    open spec fn take_height(&self) -> nat {
        if self@.len() == 0 {
            usize::MAX as nat + 1
        } else {
            frame_height(self@)
        }
    }

    /// Every column gathered at `indices`; `OutOfBounds` when the frame has
    /// columns and an index is not below its height.
    fn take(&self, indices: &Vec<usize>, capacity: Option<usize>) -> (r: PolarsResult<DataFrame>)
        ensures
            match r {
                Ok(df) => all_in_bounds(indices@, self.take_height()) && df@ == frame_take(
                    self@,
                    indices@,
                ),
                Err(e) => !all_in_bounds(indices@, self.take_height()) && e
                    == PolarsError::OutOfBounds,
            },
    {
        if self.width() == 0 || check_bounds(indices, self.height()) {
            Ok(self.take_iter_unchecked(indices))
        } else {
            Err(PolarsError::OutOfBounds)
        }
    }

    fn take_unchecked(&self, indices: &Vec<usize>, capacity: Option<usize>) -> (r: DataFrame)
        ensures
            r@ == frame_take(self@, indices@),
    {
        self.take_iter_unchecked(indices)
    }

    /// Every column gathered at `indices`, null where none is given;
    /// `OutOfBounds` when the frame has columns and an index is not below
    /// its height.
    fn take_opt(&self, indices: &Vec<Option<usize>>, capacity: Option<usize>) -> (r: PolarsResult<
        DataFrame,
    >)
        ensures
            match r {
                Ok(df) => all_opt_in_bounds(indices@, self.take_height()) && df@ == frame_take_opt(
                    self@,
                    indices@,
                ),
                Err(e) => !all_opt_in_bounds(indices@, self.take_height()) && e
                    == PolarsError::OutOfBounds,
            },
    {
        if self.width() == 0 || check_opt_bounds(indices, self.height()) {
            Ok(self.take_opt_iter_unchecked(indices))
        } else {
            Err(PolarsError::OutOfBounds)
        }
    }

    fn take_opt_unchecked(&self, indices: &Vec<Option<usize>>, capacity: Option<usize>) -> (r:
        DataFrame)
        ensures
            r@ == frame_take_opt(self@, indices@),
    {
        self.take_opt_iter_unchecked(indices)
    }
}

} // verus!
