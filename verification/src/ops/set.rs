//! Setting cells, converting between integer types, applying a function to
//! every cell, and comparing columns row by row.

use crate::datatypes::{all_fit, values_view, AnyType, DataType, Value};
use crate::error::{PolarsError, PolarsResult};
use crate::group_agg::{integer_like, is_integer_like};
use crate::ops::fill::{cell_int, cell_of_int, result_view, value_of_int};
use crate::ops::order::value_lt;
use crate::ops::sort::cell_lt;
use crate::series::{Series, SeriesView};
use crate::take::{all_in_bounds, check_bounds};
use vstd::prelude::*;

verus! {

/// The column with `value` in the rows that `idx` lists.
pub open spec fn set_at_values(values: Seq<Value>, idx: Seq<usize>, value: Value) -> Seq<Value> {
    Seq::new(values.len(), |i: int| if idx.contains(i as usize) { value } else { values[i] })
}

/// The column with `value` in the rows where the mask holds `true`.
pub open spec fn set_masked_values(values: Seq<Value>, mask: Seq<Value>, value: Value) -> Seq<
    Value,
> {
    Seq::new(
        values.len(),
        |i: int|
            if mask[i] == Value::Boolean(true) {
                value
            } else {
                values[i]
            },
    )
}

/// Setting cells of a column.
pub trait ChunkSet<A>: Sized {
    /// The column with `opt_value`, or null where none is given, in the
    /// rows that `idx` lists.
    fn set_at_idx(&self, idx: &Vec<usize>, opt_value: Option<A>) -> PolarsResult<Self>;

    /// The column with `opt_value`, or null where none is given, in the
    /// rows where the mask holds `true`.
    fn set(&self, mask: &Self, opt_value: Option<A>) -> PolarsResult<Self>;
}

/// What is put into a cell: the given value, or null.
pub open spec fn given_cell(opt_value: Option<AnyType>) -> Value {
    match opt_value {
        Some(v) => v@,
        None => Value::Null,
    }
}

/// Whether the rows of `idx` that lie before `upto` hold row `i`.
fn listed_in(idx: &Vec<usize>, i: usize) -> (r: bool)
    ensures
        r == idx@.contains(i),
{
    let mut x: usize = 0;
    while x < idx.len()
        invariant
            x <= idx.len(),
            forall|y: int| 0 <= y < x ==> idx[y] != i,
        decreases idx.len() - x,
    {
        if idx[x] == i {
            return true;
        }
        x += 1;
    }
    false
}

impl ChunkSet<AnyType> for Series {
    /// Refused when the value is of another type than the column, or when
    /// an index is out of bounds.
    fn set_at_idx(&self, idx: &Vec<usize>, opt_value: Option<AnyType>) -> (r: PolarsResult<Series>)
        ensures
            result_view(r) == if !given_cell(opt_value).fits(self@.dtype) {
                Err::<SeriesView, PolarsError>(PolarsError::DataTypeMisMatch)
            } else if !all_in_bounds(idx@, self@.values.len()) {
                Err(PolarsError::OutOfBounds)
            } else {
                Ok(self@.with_values(set_at_values(self@.values, idx@, given_cell(opt_value))))
            },
    {
        let value = match opt_value {
            Some(v) => v,
            None => AnyType::Null,
        };
        if !value.fits(self.dtype()) {
            return Err(PolarsError::DataTypeMisMatch);
        }
        if !check_bounds(idx, self.len()) {
            return Err(PolarsError::OutOfBounds);
        }
        let values = self.values();
        let mut out: Vec<AnyType> = Vec::with_capacity(values.len());
        let mut i: usize = 0;
        while i < values.len()
            invariant
                i <= values.len(),
                out.len() == i,
                values_view(values@) == self@.values,
                all_fit(self@.values, self@.dtype),
                value@.fits(self@.dtype),
                forall|j: int|
                    0 <= j < i ==> (#[trigger] out[j])@ == set_at_values(
                        self@.values,
                        idx@,
                        value@,
                    )[j] && out[j]@.fits(self@.dtype),
            decreases values.len() - i,
        {
            let cell = if listed_in(idx, i) {
                value.duplicate()
            } else {
                assert(self@.values[i as int].fits(self@.dtype));
                values[i].duplicate()
            };
            out.push(cell);
            i += 1;
        }
        assert(values_view(out@) =~= set_at_values(self@.values, idx@, value@));
        Ok(Series::from_fitting(self.name().clone(), self.dtype(), out))
    }

    /// Refused when the value is of another type than the column, when the
    /// mask is not of booleans, or when it is not as long as the column.
    fn set(&self, mask: &Series, opt_value: Option<AnyType>) -> (r: PolarsResult<Series>)
        ensures
            result_view(r) == if !given_cell(opt_value).fits(self@.dtype) || mask@.dtype
                != DataType::Boolean {
                Err::<SeriesView, PolarsError>(PolarsError::DataTypeMisMatch)
            } else if mask@.values.len() != self@.values.len() {
                Err(PolarsError::ShapeMisMatch)
            } else {
                Ok(
                    self@.with_values(
                        set_masked_values(self@.values, mask@.values, given_cell(opt_value)),
                    ),
                )
            },
    {
        let value = match opt_value {
            Some(v) => v,
            None => AnyType::Null,
        };
        if !value.fits(self.dtype()) || mask.dtype() != DataType::Boolean {
            return Err(PolarsError::DataTypeMisMatch);
        }
        if mask.len() != self.len() {
            return Err(PolarsError::ShapeMisMatch);
        }
        let values = self.values();
        let flags = mask.values();
        let mut out: Vec<AnyType> = Vec::with_capacity(values.len());
        let mut i: usize = 0;
        while i < values.len()
            invariant
                i <= values.len(),
                values.len() == flags.len(),
                out.len() == i,
                values_view(values@) == self@.values,
                values_view(flags@) == mask@.values,
                all_fit(self@.values, self@.dtype),
                value@.fits(self@.dtype),
                forall|j: int|
                    0 <= j < i ==> (#[trigger] out[j])@ == set_masked_values(
                        self@.values,
                        mask@.values,
                        value@,
                    )[j] && out[j]@.fits(self@.dtype),
            decreases values.len() - i,
        {
            let put = match &flags[i] {
                AnyType::Boolean(b) => *b,
                _ => false,
            };
            let cell = if put {
                value.duplicate()
            } else {
                assert(self@.values[i as int].fits(self@.dtype));
                values[i].duplicate()
            };
            out.push(cell);
            i += 1;
        }
        assert(values_view(out@) =~= set_masked_values(self@.values, mask@.values, value@));
        Ok(Series::from_fitting(self.name().clone(), self.dtype(), out))
    }
}

/// A cell converted to another integer-like type: the same number, or null
/// where the type cannot hold it; a truth value gives 1 or 0.
pub open spec fn cast_value(dtype: DataType, v: Value) -> Value {
    match v {
        Value::Boolean(b) => value_of_int(dtype, if b { 1int } else { 0int }),
        _ => match v.as_int() {
            Some(n) => value_of_int(dtype, n),
            None => Value::Null,
        },
    }
}

/// Whether a column of type `from` can be converted to type `to`: to its
/// own type, or from integers or truth values to integers.
pub open spec fn can_convert(from: DataType, to: DataType) -> bool {
    from == to || ((is_integer_like(from) || from is Boolean) && is_integer_like(to))
}

/// Converting a column to another type.
pub trait ChunkCast: Sized {
    /// The column in the given type; `InvalidOperation` where there is no
    /// conversion.
    fn cast(&self, dtype: DataType) -> PolarsResult<Self>;
}

impl ChunkCast for Series {
    fn cast(&self, dtype: DataType) -> (r: PolarsResult<Series>)
        ensures
            result_view(r) == if !can_convert(self@.dtype, dtype) {
                Err::<SeriesView, PolarsError>(PolarsError::InvalidOperation)
            } else if self@.dtype == dtype {
                Ok(self@)
            } else {
                Ok(
                    (SeriesView {
                        name: self@.name,
                        dtype,
                        values: Seq::new(
                            self@.values.len(),
                            |i: int| cast_value(dtype, self@.values[i]),
                        ),
                    }),
                )
            },
    {
        if self.dtype() == dtype {
            return Ok(self.duplicate());
        }
        let from_ok = integer_like(self.dtype()) || self.dtype() == DataType::Boolean;
        if !from_ok || !integer_like(dtype) {
            return Err(PolarsError::InvalidOperation);
        }
        let values = self.values();
        let mut out: Vec<AnyType> = Vec::with_capacity(values.len());
        let mut i: usize = 0;
        while i < values.len()
            invariant
                i <= values.len(),
                out.len() == i,
                values_view(values@) == self@.values,
                forall|j: int|
                    0 <= j < i ==> (#[trigger] out[j])@ == cast_value(dtype, self@.values[j])
                        && out[j]@.fits(dtype),
            decreases values.len() - i,
        {
            let cell = match &values[i] {
                AnyType::Boolean(b) => cell_of_int(dtype, if *b { 1 } else { 0 }),
                other => match cell_int(other) {
                    Some(n) => cell_of_int(dtype, n as i128),
                    None => AnyType::Null,
                },
            };
            out.push(cell);
            i += 1;
        }
        assert(values_view(out@) =~= Seq::new(
            self@.values.len(),
            |i: int| cast_value(dtype, self@.values[i]),
        ));
        Ok(Series::from_fitting(self.name().clone(), dtype, out))
    }
}

/// Applying a function to every cell.
pub trait ChunkApply: Sized {
    /// The column of what `f` gives for each cell that is not null.  Where
    /// `f` gives a value of another type than the column's, the cell is
    /// null.
    fn apply<F: Fn(AnyType) -> AnyType>(&self, f: F) -> Self
        requires
            forall|v: AnyType| call_requires(f, (v,)),
    ;
}

impl ChunkApply for Series {
    fn apply<F: Fn(AnyType) -> AnyType>(&self, f: F) -> (r: Series)
        ensures
            r@.name == self@.name,
            r@.dtype == self@.dtype,
            r@.values.len() == self@.values.len(),
            forall|i: int|
                0 <= i < self@.values.len() ==> if self@.values[i] is Null {
                    #[trigger] r@.values[i] is Null
                } else {
                    exists|input: AnyType, output: AnyType|
                        input@ == self@.values[i] && call_ensures(f, (input,), output)
                            && r@.values[i] == if output@.fits(self@.dtype) {
                            output@
                        } else {
                            Value::Null
                        }
                },
    {
        let values = self.values();
        let mut out: Vec<AnyType> = Vec::with_capacity(values.len());
        let mut i: usize = 0;
        while i < values.len()
            invariant
                i <= values.len(),
                out.len() == i,
                values_view(values@) == self@.values,
                forall|v: AnyType| call_requires(f, (v,)),
                forall|j: int| 0 <= j < i ==> (#[trigger] out[j])@.fits(self@.dtype),
                forall|j: int|
                    0 <= j < i ==> if self@.values[j] is Null {
                        (#[trigger] out[j])@ is Null
                    } else {
                        exists|input: AnyType, output: AnyType|
                            input@ == self@.values[j] && call_ensures(f, (input,), output)
                                && out[j]@ == if output@.fits(self@.dtype) {
                                output@
                            } else {
                                Value::Null
                            }
                    },
            decreases values.len() - i,
        {
            let cell = if values[i].is_null() {
                AnyType::Null
            } else {
                let input = values[i].duplicate();
                let ghost given = input;
                let output = f(input);
                let ghost got = output;
                let cell = if output.fits(self.dtype()) {
                    output
                } else {
                    AnyType::Null
                };
                assert(given@ == self@.values[i as int] && call_ensures(f, (given,), got)
                    && cell@ == if got@.fits(self@.dtype) {
                    got@
                } else {
                    Value::Null
                });
                cell
            };
            out.push(cell);
            i += 1;
        }
        let r = Series::from_fitting(self.name().clone(), self.dtype(), out);
        assert forall|i: int| 0 <= i < self@.values.len() implies if self@.values[i] is Null {
            #[trigger] r@.values[i] is Null
        } else {
            exists|input: AnyType, output: AnyType|
                input@ == self@.values[i] && call_ensures(f, (input,), output) && r@.values[i]
                    == if output@.fits(self@.dtype) {
                    output@
                } else {
                    Value::Null
                }
        } by {
            assert(r@.values[i] == out[i]@);
        }
        r
    }
}

/// The comparisons of two values.
#[derive(Clone, Copy, Debug, PartialEq, Eq, Structural)]
pub enum Comparison {
    EqMissing,
    Eq,
    Neq,
    Gt,
    GtEq,
    Lt,
    LtEq,
}

/// What comparing two cells gives.  Where either is null the answer is
/// null, but for `EqMissing`, under which null equals null and nothing
/// else.
pub open spec fn compare_values(how: Comparison, a: Value, b: Value) -> Value {
    if how is EqMissing {
        Value::Boolean(a == b)
    } else if a is Null || b is Null {
        Value::Null
    } else {
        Value::Boolean(
            match how {
                Comparison::Eq => a == b,
                Comparison::Neq => a != b,
                Comparison::Gt => value_lt(b, a),
                Comparison::GtEq => !value_lt(a, b),
                Comparison::Lt => value_lt(a, b),
                _ => !value_lt(b, a),
            },
        )
    }
}

/// What comparing two columns row by row gives: a column of truth values
/// under the name of the first, as long as the first; a row that the
/// second lacks is null.
pub open spec fn compare_columns(how: Comparison, a: SeriesView, b: SeriesView) -> SeriesView {
    SeriesView {
        name: a.name,
        dtype: DataType::Boolean,
        values: Seq::new(
            a.values.len(),
            |i: int|
                if i < b.values.len() {
                    compare_values(how, a.values[i], b.values[i])
                } else {
                    Value::Null
                },
        ),
    }
}

/// Comparing columns row by row.
pub trait ChunkCompare<Rhs>: Sized {
    /// Whether the rows are equal, null being equal to null.
    fn eq_missing(&self, rhs: Rhs) -> Self;

    /// Whether the rows are equal.
    fn eq(&self, rhs: Rhs) -> Self;

    /// Whether the rows differ.
    fn neq(&self, rhs: Rhs) -> Self;

    /// Whether the row is above that of `rhs`.
    fn gt(&self, rhs: Rhs) -> Self;

    /// Whether the row is not below that of `rhs`.
    fn gt_eq(&self, rhs: Rhs) -> Self;

    /// Whether the row is below that of `rhs`.
    fn lt(&self, rhs: Rhs) -> Self;

    /// Whether the row is not above that of `rhs`.
    fn lt_eq(&self, rhs: Rhs) -> Self;
}

/// What comparing two cells gives.
pub fn compare_cells(how: Comparison, a: &AnyType, b: &AnyType) -> (r: AnyType)
    ensures
        r@ == compare_values(how, a@, b@),
{
    match how {
        Comparison::EqMissing => AnyType::Boolean(a.same(b)),
        _ => {
            if a.is_null() || b.is_null() {
                AnyType::Null
            } else {
                let truth = match how {
                    Comparison::Eq => a.same(b),
                    Comparison::Neq => !a.same(b),
                    Comparison::Gt => cell_lt(b, a),
                    Comparison::GtEq => !cell_lt(a, b),
                    Comparison::Lt => cell_lt(a, b),
                    _ => !cell_lt(b, a),
                };
                AnyType::Boolean(truth)
            }
        },
    }
}

impl Series {
    /// This column compared with another, row by row.
    pub fn compare(&self, how: Comparison, rhs: &Series) -> (r: Series)
        ensures
            r@ == compare_columns(how, self@, rhs@),
    {
        let left = self.values();
        let right = rhs.values();
        let mut out: Vec<AnyType> = Vec::with_capacity(left.len());
        let mut i: usize = 0;
        while i < left.len()
            invariant
                i <= left.len(),
                out.len() == i,
                values_view(left@) == self@.values,
                values_view(right@) == rhs@.values,
                forall|j: int|
                    0 <= j < i ==> (#[trigger] out[j])@ == compare_columns(
                        how,
                        self@,
                        rhs@,
                    ).values[j] && out[j]@.fits(DataType::Boolean),
            decreases left.len() - i,
        {
            let cell = if i < right.len() {
                compare_cells(how, &left[i], &right[i])
            } else {
                AnyType::Null
            };
            out.push(cell);
            i += 1;
        }
        assert(values_view(out@) =~= compare_columns(how, self@, rhs@).values);
        Series::from_fitting(self.name().clone(), DataType::Boolean, out)
    }
}

impl ChunkCompare<&Series> for Series {
    fn eq_missing(&self, rhs: &Series) -> (r: Series)
        ensures
            r@ == compare_columns(Comparison::EqMissing, self@, rhs@),
    {
        self.compare(Comparison::EqMissing, rhs)
    }

    fn eq(&self, rhs: &Series) -> (r: Series)
        ensures
            r@ == compare_columns(Comparison::Eq, self@, rhs@),
    {
        self.compare(Comparison::Eq, rhs)
    }

    fn neq(&self, rhs: &Series) -> (r: Series)
        ensures
            r@ == compare_columns(Comparison::Neq, self@, rhs@),
    {
        self.compare(Comparison::Neq, rhs)
    }

    fn gt(&self, rhs: &Series) -> (r: Series)
        ensures
            r@ == compare_columns(Comparison::Gt, self@, rhs@),
    {
        self.compare(Comparison::Gt, rhs)
    }

    fn gt_eq(&self, rhs: &Series) -> (r: Series)
        ensures
            r@ == compare_columns(Comparison::GtEq, self@, rhs@),
    {
        self.compare(Comparison::GtEq, rhs)
    }

    fn lt(&self, rhs: &Series) -> (r: Series)
        ensures
            r@ == compare_columns(Comparison::Lt, self@, rhs@),
    {
        self.compare(Comparison::Lt, rhs)
    }

    fn lt_eq(&self, rhs: &Series) -> (r: Series)
        ensures
            r@ == compare_columns(Comparison::LtEq, self@, rhs@),
    {
        self.compare(Comparison::LtEq, rhs)
    }
}

} // verus!
