//! A named, nullable column of one element type.

use crate::datatypes::{all_fit, count_nulls, values_view, AnyType, DataType, Value};
use crate::error::{PolarsError, PolarsResult};
use vstd::prelude::*;

verus! {

/// A column: a name, an element type and one cell per row.  Every cell is
/// null or of the column's element type.
pub struct Series {
    name: String,
    dtype: DataType,
    values: Vec<AnyType>,
}

/// The mathematical model of a column.
pub struct SeriesView {
    pub name: Seq<char>,
    pub dtype: DataType,
    pub values: Seq<Value>,
}

impl SeriesView {
    pub open spec fn len(self) -> nat {
        self.values.len()
    }

    /// The same column under another name.
    pub open spec fn renamed(self, name: Seq<char>) -> SeriesView {
        SeriesView { name, dtype: self.dtype, values: self.values }
    }

    /// The same name and element type over other cells.
    pub open spec fn with_values(self, values: Seq<Value>) -> SeriesView {
        SeriesView { name: self.name, dtype: self.dtype, values }
    }
}

impl View for Series {
    type V = SeriesView;

    closed spec fn view(&self) -> SeriesView {
        SeriesView { name: self.name@, dtype: self.dtype, values: values_view(self.values@) }
    }
}

impl Series {
    #[verifier::type_invariant]
    spec fn well_typed(&self) -> bool {
        all_fit(values_view(self.values@), self.dtype)
    }

    /// A column from its cells; refused when a cell is of another element
    /// type than `dtype`.
    pub fn new(name: &str, dtype: DataType, values: Vec<AnyType>) -> (r: PolarsResult<Series>)
        ensures
            match r {
                Ok(s) => all_fit(values_view(values@), dtype) && s@ == (SeriesView {
                    name: name@,
                    dtype,
                    values: values_view(values@),
                }),
                Err(e) => !all_fit(values_view(values@), dtype) && e == PolarsError::DataTypeMisMatch,
            },
    {
        let mut i: usize = 0;
        while i < values.len()
            invariant
                i <= values.len(),
                forall|j: int| 0 <= j < i ==> (#[trigger] values_view(values@)[j]).fits(dtype),
            decreases values.len() - i,
        {
            if !values[i].fits(dtype) {
                assert(!values_view(values@)[i as int].fits(dtype));
                return Err(PolarsError::DataTypeMisMatch);
            }
            i += 1;
        }
        Ok(Series { name: name.to_owned(), dtype, values })
    }

    /// A column from cells that are known to fit.
    pub(crate) fn from_fitting(name: String, dtype: DataType, values: Vec<AnyType>) -> (r: Series)
        requires
            all_fit(values_view(values@), dtype),
        ensures
            r@ == (SeriesView { name: name@, dtype, values: values_view(values@) }),
    {
        Series { name, dtype, values }
    }

    /// An empty column.
    pub fn empty(name: &str, dtype: DataType) -> (r: Series)
        ensures
            r@ == (SeriesView { name: name@, dtype, values: Seq::empty() }),
    {
        let values: Vec<AnyType> = Vec::new();
        assert(values_view(values@) =~= Seq::empty());
        Series { name: name.to_owned(), dtype, values }
    }

    pub fn name(&self) -> (r: &String)
        ensures
            r@ == self@.name,
    {
        &self.name
    }

    pub fn dtype(&self) -> (r: DataType)
        ensures
            r == self@.dtype,
    {
        self.dtype
    }

    /// The number of rows.
    pub fn len(&self) -> (r: usize)
        ensures
            r == self@.values.len(),
    {
        self.values.len()
    }

    pub fn is_empty(&self) -> (r: bool)
        ensures
            r == (self@.values.len() == 0),
    {
        self.values.len() == 0
    }

    /// The cells, row by row.
    pub fn values(&self) -> (r: &Vec<AnyType>)
        ensures
            values_view(r@) == self@.values,
            all_fit(self@.values, self@.dtype),
    {
        proof {
            use_type_invariant(self);
        }
        &self.values
    }

    /// The cell of row `index`.
    pub fn value(&self, index: usize) -> (r: &AnyType)
        requires
            index < self@.values.len(),
        ensures
            r@ == self@.values[index as int],
            r@.fits(self@.dtype),
    {
        proof {
            use_type_invariant(self);
        }
        &self.values[index]
    }

    /// Gives the column another name.
    pub fn rename(&mut self, name: &str)
        ensures
            final(self)@ == old(self)@.renamed(name@),
    {
        proof {
            use_type_invariant(&*self);
        }
        self.name = name.to_owned();
    }

    /// A copy of the column.
    pub fn duplicate(&self) -> (r: Series)
        ensures
            r@ == self@,
    {
        let values = duplicate_cells(self.values());
        Series::from_fitting(self.name.clone(), self.dtype, values)
    }

    /// The number of null cells.
    pub fn null_count(&self) -> (r: usize)
        ensures
            r == count_nulls(self@.values),
    {
        let mut n: usize = 0;
        let mut i: usize = 0;
        while i < self.values.len()
            invariant
                i <= self.values.len(),
                n <= i,
                n == count_nulls(self@.values.take(i as int)),
            decreases self.values.len() - i,
        {
            assert(self@.values.take(i as int + 1).drop_last() =~= self@.values.take(i as int));
            if self.values[i].is_null() {
                n += 1;
            }
            i += 1;
        }
        assert(self@.values.take(i as int) =~= self@.values);
        n
    }
}

/// Two columns of cells hold the same values, row by row, and no null.
pub open spec fn equal_no_nulls(a: Seq<Value>, b: Seq<Value>) -> bool {
    a.len() == b.len() && forall|i: int|
        0 <= i < a.len() ==> (#[trigger] a[i]) == b[i] && !(a[i] is Null)
}

impl Series {
    /// Whether both columns have the same element type and hold the same
    /// values, row by row; a null is equal to nothing, itself included.
    pub fn series_equal(&self, other: &Series) -> (r: bool)
        ensures
            r == (self@.dtype == other@.dtype && equal_no_nulls(self@.values, other@.values)),
    {
        if self.dtype != other.dtype || self.values.len() != other.values.len() {
            return false;
        }
        let mut i: usize = 0;
        while i < self.values.len()
            invariant
                i <= self.values.len(),
                self.values.len() == other.values.len(),
                forall|j: int|
                    0 <= j < i ==> (#[trigger] self@.values[j]) == other@.values[j] && !(
                    self@.values[j] is Null),
            decreases self.values.len() - i,
        {
            if self.values[i].is_null() || !self.values[i].same(&other.values[i]) {
                assert(!(self@.values[i as int] == other@.values[i as int] && !(
                self@.values[i as int] is Null)));
                return false;
            }
            i += 1;
        }
        true
    }

    /// Whether both columns have the same element type and hold the same
    /// values, row by row, where null is equal to null.
    pub fn series_equal_missing(&self, other: &Series) -> (r: bool)
        ensures
            r == (self@.dtype == other@.dtype && self@.values == other@.values),
    {
        if self.dtype != other.dtype || self.values.len() != other.values.len() {
            assert(self@.values.len() == self.values.len());
            assert(other@.values.len() == other.values.len());
            return false;
        }
        let mut i: usize = 0;
        while i < self.values.len()
            invariant
                i <= self.values.len(),
                self.values.len() == other.values.len(),
                forall|j: int| 0 <= j < i ==> (#[trigger] self@.values[j]) == other@.values[j],
            decreases self.values.len() - i,
        {
            if !self.values[i].same(&other.values[i]) {
                assert(self@.values[i as int] != other@.values[i as int]);
                return false;
            }
            i += 1;
        }
        assert(self@.values =~= other@.values);
        true
    }
}

/// A copy of a vector of cells.
pub fn duplicate_cells(values: &Vec<AnyType>) -> (r: Vec<AnyType>)
    ensures
        values_view(r@) == values_view(values@),
{
    let mut out: Vec<AnyType> = Vec::with_capacity(values.len());
    let mut i: usize = 0;
    while i < values.len()
        invariant
            i <= values.len(),
            out.len() == i,
            forall|j: int| 0 <= j < i ==> out[j]@ == values[j]@,
        decreases values.len() - i,
    {
        out.push(values[i].duplicate());
        i += 1;
    }
    assert(values_view(out@) =~= values_view(values@));
    out
}

} // verus!
