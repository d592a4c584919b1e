//! Columns and frames as arrays of one and two dimensions.

use crate::datatypes::{all_fit, count_nulls, values_view, AnyType, DataType, Value};
use crate::error::{PolarsError, PolarsResult};
use crate::frame::{columns_view, frame_height, is_frame, DataFrame};
use crate::ops::set::{can_convert, cast_value, ChunkCast};
use crate::series::{Series, SeriesView};
use vstd::prelude::*;

verus! {

/// The models of the rows of a matrix of cells.
pub open spec fn matrix_view(rows: Seq<Vec<AnyType>>) -> Seq<Seq<Value>> {
    Seq::new(rows.len(), |r: int| values_view(rows[r]@))
}

/// The models of the rows of a matrix of numbers.
pub open spec fn number_rows(rows: Seq<Vec<i64>>) -> Seq<Seq<i64>> {
    Seq::new(rows.len(), |r: int| rows[r]@)
}

/// A cell in the type of a matrix: the cell itself where it is of that
/// type, else converted.
pub open spec fn matrix_cell(from: DataType, to: DataType, v: Value) -> Value {
    if from == to {
        v
    } else {
        cast_value(to, v)
    }
}

/// The frame as a matrix of one type, row by row.
pub open spec fn frame_matrix(cols: Seq<SeriesView>, dtype: DataType) -> Seq<Seq<Value>> {
    Seq::new(
        frame_height(cols),
        |r: int| Seq::new(cols.len(), |c: int| matrix_cell(cols[c].dtype, dtype, cols[c].values[r])),
    )
}

/// Whether a matrix holds a null.
pub open spec fn has_null_cell(m: Seq<Seq<Value>>) -> bool {
    exists|r: int, c: int| 0 <= r < m.len() && 0 <= c < m[r].len() && #[trigger] m[r][c] is Null
}

/// The first column that holds a null or cannot be converted, if there is
/// one.
pub open spec fn first_refused(cols: Seq<SeriesView>, dtype: DataType) -> Option<int>
    decreases cols.len(),
{
    if cols.len() == 0 {
        None
    } else {
        match first_refused(cols.drop_last(), dtype) {
            Some(c) => Some(c),
            None => if count_nulls(cols.last().values) > 0 || !can_convert(cols.last().dtype, dtype) {
                Some(cols.len() - 1)
            } else {
                None
            },
        }
    }
}

/// What turning a frame into a matrix of one type gives: refused at the
/// first column that holds a null (`HasNullValues`) or cannot be converted
/// (`InvalidOperation`), and where a number does not fit the type
/// (`ComputeError`).
pub open spec fn to_ndarray_spec(cols: Seq<SeriesView>, dtype: DataType) -> Result<
    Seq<Seq<Value>>,
    PolarsError,
> {
    match first_refused(cols, dtype) {
        Some(c) => if count_nulls(cols[c].values) > 0 {
            Err(PolarsError::HasNullValues)
        } else {
            Err(PolarsError::InvalidOperation)
        },
        None => if has_null_cell(frame_matrix(cols, dtype)) {
            Err(PolarsError::ComputeError)
        } else {
            Ok(frame_matrix(cols, dtype))
        },
    }
}

/// What a fallible matrix operation returned, as a model.
pub open spec fn matrix_outcome(r: PolarsResult<Vec<Vec<AnyType>>>) -> Result<
    Seq<Seq<Value>>,
    PolarsError,
> {
    match r {
        Ok(m) => Ok(matrix_view(m@)),
        Err(e) => Err(e),
    }
}

impl Series {
    /// The cells of the column as one run of values; `NoSlice` where the
    /// column holds a null.
    pub fn cont_slice(&self) -> (r: PolarsResult<&Vec<AnyType>>)
        ensures
            match r {
                Ok(cells) => count_nulls(self@.values) == 0 && values_view(cells@) == self@.values,
                Err(e) => count_nulls(self@.values) > 0 && e == PolarsError::NoSlice,
            },
    {
        if self.null_count() == 0 {
            Ok(self.values())
        } else {
            Err(PolarsError::NoSlice)
        }
    }

    /// The column as an array of one dimension; `NoSlice` where it holds a
    /// null.
    pub fn to_ndarray(&self) -> (r: PolarsResult<&Vec<AnyType>>)
        ensures
            match r {
                Ok(cells) => count_nulls(self@.values) == 0 && values_view(cells@) == self@.values,
                Err(e) => count_nulls(self@.values) > 0 && e == PolarsError::NoSlice,
            },
    {
        self.cont_slice()
    }
}

/// A column without nulls has no null among its cells.
pub proof fn lemma_no_nulls(values: Seq<Value>)
    ensures
        count_nulls(values) == 0 <==> forall|i: int|
            0 <= i < values.len() ==> !(#[trigger] values[i] is Null),
    decreases values.len(),
{
    if values.len() > 0 {
        lemma_no_nulls(values.drop_last());
        if count_nulls(values) == 0 {
            assert forall|i: int| 0 <= i < values.len() implies !(#[trigger] values[i] is Null) by {
                if i < values.len() - 1 {
                    assert(values.drop_last()[i] == values[i]);
                }
            }
        } else {
            if forall|i: int| 0 <= i < values.len() ==> !(#[trigger] values[i] is Null) {
                assert forall|i: int| 0 <= i < values.drop_last().len() implies !(
                #[trigger] values.drop_last()[i] is Null) by {
                    assert(values.drop_last()[i] == values[i]);
                }
                assert(!(values[values.len() - 1] is Null));
            }
        }
    }
}

impl DataFrame {
    /// The frame as a matrix of one type, row by row.  The columns must
    /// hold no nulls, and are converted to the type where they are of
    /// another.
    pub fn to_ndarray(&self, dtype: DataType) -> (r: PolarsResult<Vec<Vec<AnyType>>>)
        ensures
            matrix_outcome(r) == to_ndarray_spec(self@, dtype),
    {
        let columns = self.get_columns();
        let ghost cols = self@;
        let mut cast: Vec<Series> = Vec::with_capacity(columns.len());
        let mut c: usize = 0;
        while c < columns.len()
            invariant
                c <= columns.len(),
                cols == self@,
                columns_view(columns@) == cols,
                cast.len() == c,
                first_refused(cols.take(c as int), dtype) is None,
                forall|d: int|
                    0 <= d < c ==> (#[trigger] cast[d])@.values == Seq::new(
                        cols[d].values.len(),
                        |r: int| matrix_cell(cols[d].dtype, dtype, cols[d].values[r]),
                    ),
            decreases columns.len() - c,
        {
            proof {
                assert(cols.take(c as int + 1).drop_last() =~= cols.take(c as int));
                assert(cols.take(c as int + 1).last() == cols[c as int]);
            }
            if columns[c].null_count() != 0 {
                proof {
                    lemma_refused_from(cols, dtype, c as int + 1);
                }
                return Err(PolarsError::HasNullValues);
            }
            let series = match columns[c].cast(dtype) {
                Ok(s) => s,
                Err(e) => {
                    proof {
                        lemma_refused_from(cols, dtype, c as int + 1);
                    }
                    return Err(e);
                },
            };
            assert(series@.values =~= Seq::new(
                cols[c as int].values.len(),
                |r: int| matrix_cell(cols[c as int].dtype, dtype, cols[c as int].values[r]),
            ));
            cast.push(series);
            c += 1;
        }
        assert(cols.take(c as int) =~= cols);
        let height = self.height();
        let width = columns.len();
        let ghost want = frame_matrix(cols, dtype);
        let mut rows: Vec<Vec<AnyType>> = Vec::with_capacity(height);
        let mut r: usize = 0;
        while r < height
            invariant
                r <= height,
                cols == self@,
                height == frame_height(cols),
                width == cols.len(),
                cast.len() == width,
                is_frame(cols),
                want == frame_matrix(cols, dtype),
                first_refused(cols, dtype) is None,
                rows.len() == r,
                forall|d: int|
                    0 <= d < width ==> (#[trigger] cast[d])@.values == Seq::new(
                        cols[d].values.len(),
                        |q: int| matrix_cell(cols[d].dtype, dtype, cols[d].values[q]),
                    ),
                forall|q: int| 0 <= q < r ==> values_view((#[trigger] rows[q])@) == want[q],
                forall|q: int, d: int|
                    0 <= q < r && 0 <= d < width ==> !(#[trigger] want[q][d] is Null),
            decreases height - r,
        {
            let mut row: Vec<AnyType> = Vec::with_capacity(width);
            let mut d: usize = 0;
            while d < width
                invariant
                    d <= width,
                    r < height,
                    cols == self@,
                    height == frame_height(cols),
                    width == cols.len(),
                    cast.len() == width,
                    is_frame(cols),
                    want == frame_matrix(cols, dtype),
                    first_refused(cols, dtype) is None,
                    row.len() == d,
                    forall|e: int|
                        0 <= e < width ==> (#[trigger] cast[e])@.values == Seq::new(
                            cols[e].values.len(),
                            |q: int| matrix_cell(cols[e].dtype, dtype, cols[e].values[q]),
                        ),
                    forall|e: int| 0 <= e < d ==> (#[trigger] row[e])@ == want[r as int][e],
                    forall|e: int| 0 <= e < d ==> !(#[trigger] want[r as int][e] is Null),
                decreases width - d,
            {
                assert(cols[d as int].values.len() == cols[0].values.len());
                let cell = cast[d].value(r);
                if cell.is_null() {
                    assert(want[r as int][d as int] is Null);
                    assert(has_null_cell(want));
                    return Err(PolarsError::ComputeError);
                }
                row.push(cell.duplicate());
                d += 1;
            }
            assert(values_view(row@) =~= want[r as int]);
            rows.push(row);
            r += 1;
        }
        assert(matrix_view(rows@) =~= want);
        assert(!has_null_cell(want)) by {
            if has_null_cell(want) {
                let (q, d) = choose|q: int, d: int|
                    0 <= q < want.len() && 0 <= d < want[q].len() && #[trigger] want[q][d] is Null;
                assert(!(want[q][d] is Null));
            }
        }
        Ok(rows)
    }
}

/// Where the first `k` columns hold one that is refused, the first refused
/// column of all is the first refused among them.
pub proof fn lemma_refused_from(cols: Seq<SeriesView>, dtype: DataType, k: int)
    requires
        0 <= k <= cols.len(),
        first_refused(cols.take(k), dtype) is Some,
    ensures
        first_refused(cols, dtype) == first_refused(cols.take(k), dtype),
    decreases cols.len() - k,
{
    if k < cols.len() {
        assert(cols.take(k + 1).drop_last() =~= cols.take(k));
        lemma_refused_from(cols, dtype, k + 1);
    } else {
        assert(cols.take(k) =~= cols);
    }
}

/// What turning a column of lists into a matrix gives: one row per list;
/// refused where the column is not of lists (`DataTypeMisMatch`), holds a
/// null (`HasNullValues`), has no row (`NoData`), or holds lists of
/// different lengths (`ShapeMisMatch`).
pub open spec fn list_matrix_spec(ca: SeriesView) -> Result<Seq<Seq<i64>>, PolarsError> {
    if ca.dtype != DataType::List {
        Err(PolarsError::DataTypeMisMatch)
    } else if count_nulls(ca.values) > 0 {
        Err(PolarsError::HasNullValues)
    } else if ca.values.len() == 0 {
        Err(PolarsError::NoData)
    } else if exists|r: int|
        0 <= r < ca.values.len() && (#[trigger] ca.values[r])->List_0.len()
            != ca.values[0]->List_0.len() {
        Err(PolarsError::ShapeMisMatch)
    } else {
        Ok(Seq::new(ca.values.len(), |r: int| ca.values[r]->List_0))
    }
}

impl Series {
    /// A column of lists of one length as a matrix, one row per list.
    pub fn list_to_ndarray(&self) -> (r: PolarsResult<Vec<Vec<i64>>>)
        ensures
            match r {
                Ok(m) => list_matrix_spec(self@) == Ok::<Seq<Seq<i64>>, PolarsError>(
                    number_rows(m@),
                ),
                Err(e) => list_matrix_spec(self@) == Err::<Seq<Seq<i64>>, PolarsError>(e),
            },
    {
        if self.dtype() != DataType::List {
            return Err(PolarsError::DataTypeMisMatch);
        }
        if self.null_count() != 0 {
            return Err(PolarsError::HasNullValues);
        }
        let values = self.values();
        if values.len() == 0 {
            return Err(PolarsError::NoData);
        }
        proof {
            lemma_no_nulls(self@.values);
        }
        let width = match &values[0] {
            AnyType::List(l) => l.len(),
            _ => 0,
        };
        let mut rows: Vec<Vec<i64>> = Vec::with_capacity(values.len());
        let mut r: usize = 0;
        while r < values.len()
            invariant
                r <= values.len(),
                values.len() > 0,
                values_view(values@) == self@.values,
                self@.dtype == DataType::List,
                count_nulls(self@.values) == 0,
                all_fit(self@.values, DataType::List),
                forall|i: int| 0 <= i < self@.values.len() ==> !(#[trigger] self@.values[i] is Null),
                width == self@.values[0]->List_0.len(),
                rows.len() == r,
                forall|q: int|
                    0 <= q < r ==> (#[trigger] rows[q])@ == self@.values[q]->List_0 && rows[q].len()
                        == width,
            decreases values.len() - r,
        {
            assert(self@.values[r as int].fits(DataType::List));
            assert(!(self@.values[r as int] is Null));
            match &values[r] {
                AnyType::List(l) => {
                    if l.len() != width {
                        assert(self@.values[r as int]->List_0.len() != self@.values[0]->List_0.len());
                        return Err(PolarsError::ShapeMisMatch);
                    }
                    rows.push(crate::datatypes::copy_list(l));
                },
                _ => {
                    assert(false);
                },
            }
            r += 1;
        }
        assert(number_rows(rows@) =~= Seq::new(
            self@.values.len(),
            |r: int| self@.values[r]->List_0,
        ));
        assert(!(exists|q: int|
            0 <= q < self@.values.len() && (#[trigger] self@.values[q])->List_0.len()
                != self@.values[0]->List_0.len())) by {
            if exists|q: int|
                0 <= q < self@.values.len() && (#[trigger] self@.values[q])->List_0.len()
                    != self@.values[0]->List_0.len() {
                let q = choose|q: int|
                    0 <= q < self@.values.len() && (#[trigger] self@.values[q])->List_0.len()
                        != self@.values[0]->List_0.len();
                assert(rows[q]@ == self@.values[q]->List_0);
            }
        }
        Ok(rows)
    }
}

} // verus!
