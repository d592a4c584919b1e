//! Replacing nulls, and columns of one repeated value.

use crate::datatypes::{all_fit, count_nulls, values_view, AnyType, DataType, Value};
use crate::error::{PolarsError, PolarsResult};
use crate::group_agg::{
    agg_group, all_rows, fold_group, integer_like, is_integer_like, lemma_fold_fits, Agg,
};
use crate::series::{Series, SeriesView};
use crate::take::TakeRandom;
use vstd::prelude::*;

verus! {

/// How nulls are replaced.
#[derive(Copy, Clone, Debug, PartialEq, Eq, Structural)]
pub enum FillNoneStrategy {
    /// By the value of the row behind.
    Backward,
    /// By the value of the row before.
    Forward,
    /// By the mean of the column.
    Mean,
    /// By the smallest value of the column.
    Min,
    /// By the largest value of the column.
    Max,
}

/// Replacing nulls.
pub trait ChunkFillNone<T>: Sized {
    /// The column with its nulls replaced as the strategy says.
    fn fill_none(&self, strategy: FillNoneStrategy) -> PolarsResult<Self>;

    /// The column with its nulls replaced by a value.
    fn fill_none_with_value(&self, value: T) -> PolarsResult<Self>;
}

/// A column of one repeated value.
pub trait ChunkFull<T>: Sized {
    /// A column of `length` rows that all hold `value`.
    fn full(name: &str, value: T, length: usize) -> Self;

    /// A column of `length` nulls.
    fn full_null(name: &str, length: usize) -> Self;
}

/// A column of the value of one row.
pub trait ChunkExpandAtIndex: Sized {
    /// A column of `length` rows that all hold what row `index` holds; of
    /// nulls where that row is null or not there.
    fn expand_at_index(&self, index: usize, length: usize) -> Self;
}

/// A null takes the value of the row before it; the first row and a null
/// behind a null stay null.
pub open spec fn fill_forward_values(values: Seq<Value>) -> Seq<Value> {
    Seq::new(
        values.len(),
        |i: int|
            if values[i] is Null && i > 0 {
                values[i - 1]
            } else {
                values[i]
            },
    )
}

/// A null takes the value of the row behind it; the last row and a null
/// before a null stay null.
pub open spec fn fill_backward_values(values: Seq<Value>) -> Seq<Value> {
    Seq::new(
        values.len(),
        |i: int|
            if values[i] is Null && i + 1 < values.len() {
                values[i + 1]
            } else {
                values[i]
            },
    )
}

/// Every null takes the given value.
pub open spec fn fill_value_values(values: Seq<Value>, value: Value) -> Seq<Value> {
    Seq::new(values.len(), |i: int| if values[i] is Null { value } else { values[i] })
}

/// The reduction of a whole column.
pub open spec fn column_agg(values: Seq<Value>, kind: Agg) -> Value {
    fold_group(values, all_rows(values.len()), kind)
}

/// The exact sum of the integers of a column, nulls passed over.
pub open spec fn exact_sum(values: Seq<Value>) -> int
    decreases values.len(),
{
    if values.len() == 0 {
        0
    } else {
        exact_sum(values.drop_last()) + match values.last().as_int() {
            Some(v) => v,
            None => 0,
        }
    }
}

/// The quotient of `a` by a positive `n`, rounded towards zero.
pub open spec fn div_towards_zero(a: int, n: int) -> int {
    if a >= 0 {
        a / n
    } else {
        -((-a) / n)
    }
}

/// The cell of an integer-like type that holds `v`; null where `v` does
/// not fit the type.
pub open spec fn value_of_int(dtype: DataType, v: int) -> Value {
    match dtype {
        DataType::UInt32 => if 0 <= v <= u32::MAX { Value::UInt32(v as u32) } else { Value::Null },
        DataType::Int32 => if i32::MIN <= v <= i32::MAX {
            Value::Int32(v as i32)
        } else {
            Value::Null
        },
        DataType::Int64 => if i64::MIN <= v <= i64::MAX {
            Value::Int64(v as i64)
        } else {
            Value::Null
        },
        DataType::Date32 => if i32::MIN <= v <= i32::MAX {
            Value::Date32(v as i32)
        } else {
            Value::Null
        },
        DataType::Date64 => if i64::MIN <= v <= i64::MAX {
            Value::Date64(v as i64)
        } else {
            Value::Null
        },
        DataType::Time64Nanosecond => if i64::MIN <= v <= i64::MAX {
            Value::Time64Nanosecond(v as i64)
        } else {
            Value::Null
        },
        DataType::Duration(u) => if i64::MIN <= v <= i64::MAX {
            Value::Duration(v as i64, u)
        } else {
            Value::Null
        },
        DataType::Timestamp(u) => if i64::MIN <= v <= i64::MAX {
            Value::TimeStamp(v as i64, u)
        } else {
            Value::Null
        },
        DataType::IntervalDayTime => if i64::MIN <= v <= i64::MAX {
            Value::IntervalDayTime(v as i64)
        } else {
            Value::Null
        },
        DataType::IntervalYearMonth => if i32::MIN <= v <= i32::MAX {
            Value::IntervalYearMonth(v as i32)
        } else {
            Value::Null
        },
        _ => Value::Null,
    }
}

/// The mean of a column of integers, in the column's type: the sum of its
/// values by their number, rounded towards zero; null where all is null.
pub open spec fn column_mean(values: Seq<Value>, dtype: DataType) -> Value {
    if values.len() == count_nulls(values) {
        Value::Null
    } else {
        value_of_int(
            dtype,
            div_towards_zero(exact_sum(values), values.len() - count_nulls(values)),
        )
    }
}

/// The column with a null replaced by the value of the row before it.
pub fn fill_forward(ca: &Series) -> (r: Series)
    ensures
        r@ == ca@.with_values(fill_forward_values(ca@.values)),
{
    let values = ca.values();
    let mut out: Vec<AnyType> = Vec::with_capacity(values.len());
    let mut i: usize = 0;
    while i < values.len()
        invariant
            i <= values.len(),
            out.len() == i,
            values_view(values@) == ca@.values,
            all_fit(ca@.values, ca@.dtype),
            forall|j: int|
                0 <= j < i ==> (#[trigger] out[j])@ == fill_forward_values(ca@.values)[j]
                    && out[j]@.fits(ca@.dtype),
        decreases values.len() - i,
    {
        let cell = if values[i].is_null() && i > 0 {
            assert(ca@.values[i - 1].fits(ca@.dtype));
            values[i - 1].duplicate()
        } else {
            assert(ca@.values[i as int].fits(ca@.dtype));
            values[i].duplicate()
        };
        out.push(cell);
        i += 1;
    }
    assert(values_view(out@) =~= fill_forward_values(ca@.values));
    Series::from_fitting(ca.name().clone(), ca.dtype(), out)
}

/// The column with a null replaced by the value of the row behind it.
pub fn fill_backward(ca: &Series) -> (r: Series)
    ensures
        r@ == ca@.with_values(fill_backward_values(ca@.values)),
{
    let values = ca.values();
    let mut out: Vec<AnyType> = Vec::with_capacity(values.len());
    let mut i: usize = 0;
    while i < values.len()
        invariant
            i <= values.len(),
            out.len() == i,
            values_view(values@) == ca@.values,
            all_fit(ca@.values, ca@.dtype),
            forall|j: int|
                0 <= j < i ==> (#[trigger] out[j])@ == fill_backward_values(ca@.values)[j]
                    && out[j]@.fits(ca@.dtype),
        decreases values.len() - i,
    {
        let cell = if values[i].is_null() && i + 1 < values.len() {
            assert(ca@.values[i + 1].fits(ca@.dtype));
            values[i + 1].duplicate()
        } else {
            assert(ca@.values[i as int].fits(ca@.dtype));
            values[i].duplicate()
        };
        out.push(cell);
        i += 1;
    }
    assert(values_view(out@) =~= fill_backward_values(ca@.values));
    Series::from_fitting(ca.name().clone(), ca.dtype(), out)
}

/// The column with every null replaced by `value`, which fits it.
pub fn fill_value(ca: &Series, value: &AnyType) -> (r: Series)
    requires
        value@.fits(ca@.dtype),
    ensures
        r@ == ca@.with_values(fill_value_values(ca@.values, value@)),
{
    let values = ca.values();
    let mut out: Vec<AnyType> = Vec::with_capacity(values.len());
    let mut i: usize = 0;
    while i < values.len()
        invariant
            i <= values.len(),
            out.len() == i,
            values_view(values@) == ca@.values,
            all_fit(ca@.values, ca@.dtype),
            value@.fits(ca@.dtype),
            forall|j: int|
                0 <= j < i ==> (#[trigger] out[j])@ == fill_value_values(ca@.values, value@)[j]
                    && out[j]@.fits(ca@.dtype),
        decreases values.len() - i,
    {
        let cell = if values[i].is_null() {
            value.duplicate()
        } else {
            assert(ca@.values[i as int].fits(ca@.dtype));
            values[i].duplicate()
        };
        out.push(cell);
        i += 1;
    }
    assert(values_view(out@) =~= fill_value_values(ca@.values, value@));
    Series::from_fitting(ca.name().clone(), ca.dtype(), out)
}

/// The integer that an integer-like cell holds.
pub fn cell_int(cell: &AnyType) -> (r: Option<i64>)
    ensures
        match r {
            Some(v) => cell@.as_int() == Some(v as int),
            None => cell@.as_int() is None,
        },
{
    match cell {
        AnyType::UInt32(v) => Some(*v as i64),
        AnyType::Int32(v) => Some(*v as i64),
        AnyType::Int64(v) => Some(*v),
        AnyType::Date32(v) => Some(*v as i64),
        AnyType::Date64(v) => Some(*v),
        AnyType::Time64Nanosecond(v) => Some(*v),
        AnyType::Duration(v, _) => Some(*v),
        AnyType::TimeStamp(v, _) => Some(*v),
        AnyType::IntervalDayTime(v) => Some(*v),
        AnyType::IntervalYearMonth(v) => Some(*v as i64),
        _ => None,
    }
}

/// The cell of an integer-like type that holds `v`; null where `v` does
/// not fit the type.
pub fn cell_of_int(dtype: DataType, v: i128) -> (r: AnyType)
    ensures
        r@ == value_of_int(dtype, v as int),
        r@.fits(dtype),
{
    match dtype {
        DataType::UInt32 => if 0 <= v && v <= u32::MAX as i128 {
            AnyType::UInt32(v as u32)
        } else {
            AnyType::Null
        },
        DataType::Int32 => if i32::MIN as i128 <= v && v <= i32::MAX as i128 {
            AnyType::Int32(v as i32)
        } else {
            AnyType::Null
        },
        DataType::Int64 => if i64::MIN as i128 <= v && v <= i64::MAX as i128 {
            AnyType::Int64(v as i64)
        } else {
            AnyType::Null
        },
        DataType::Date32 => if i32::MIN as i128 <= v && v <= i32::MAX as i128 {
            AnyType::Date32(v as i32)
        } else {
            AnyType::Null
        },
        DataType::Date64 => if i64::MIN as i128 <= v && v <= i64::MAX as i128 {
            AnyType::Date64(v as i64)
        } else {
            AnyType::Null
        },
        DataType::Time64Nanosecond => if i64::MIN as i128 <= v && v <= i64::MAX as i128 {
            AnyType::Time64Nanosecond(v as i64)
        } else {
            AnyType::Null
        },
        DataType::Duration(u) => if i64::MIN as i128 <= v && v <= i64::MAX as i128 {
            AnyType::Duration(v as i64, u)
        } else {
            AnyType::Null
        },
        DataType::Timestamp(u) => if i64::MIN as i128 <= v && v <= i64::MAX as i128 {
            AnyType::TimeStamp(v as i64, u)
        } else {
            AnyType::Null
        },
        DataType::IntervalDayTime => if i64::MIN as i128 <= v && v <= i64::MAX as i128 {
            AnyType::IntervalDayTime(v as i64)
        } else {
            AnyType::Null
        },
        DataType::IntervalYearMonth => if i32::MIN as i128 <= v && v <= i32::MAX as i128 {
            AnyType::IntervalYearMonth(v as i32)
        } else {
            AnyType::Null
        },
        _ => AnyType::Null,
    }
}

/// The exact sum of a column stays within what its rows allow.
pub proof fn lemma_exact_sum_bounds(values: Seq<Value>)
    ensures
        -0x8000_0000_0000_0000 * values.len() <= exact_sum(values) <= 0x7fff_ffff_ffff_ffff
            * values.len(),
    decreases values.len(),
{
    if values.len() > 0 {
        lemma_exact_sum_bounds(values.drop_last());
        let n = values.len() as int;
        assert(-0x8000_0000_0000_0000 * (n - 1) - 0x8000_0000_0000_0000 == -0x8000_0000_0000_0000
            * n) by (nonlinear_arith);
        assert(0x7fff_ffff_ffff_ffff * (n - 1) + 0x7fff_ffff_ffff_ffff == 0x7fff_ffff_ffff_ffff
            * n) by (nonlinear_arith);
    }
}

impl Series {
    /// The smallest, the largest, or the wrapping sum of the column's
    /// values; null where all is null.  The column is of integers.
    pub fn reduce(&self, kind: Agg) -> (r: AnyType)
        requires
            is_integer_like(self@.dtype),
        ensures
            r@ == column_agg(self@.values, kind),
            r@.fits(self@.dtype),
    {
        let values = self.values();
        let mut idx: Vec<usize> = Vec::with_capacity(values.len());
        let mut i: usize = 0;
        while i < values.len()
            invariant
                i <= values.len(),
                idx.len() == i,
                forall|j: int| 0 <= j < i ==> idx[j] == j,
            decreases values.len() - i,
        {
            idx.push(i);
            i += 1;
        }
        assert(idx@ =~= all_rows(self@.values.len()));
        proof {
            lemma_fold_fits(self@.values, idx@, kind, self@.dtype);
        }
        agg_group(values, &idx, kind, true)
    }

    /// The mean of the column's values, in the column's type; null where
    /// all is null.
    pub fn column_mean(&self) -> (r: AnyType)
        ensures
            r@ == column_mean(self@.values, self@.dtype),
            r@.fits(self@.dtype),
    {
        let values = self.values();
        let mut sum: i128 = 0;
        let mut nulls: usize = 0;
        let mut i: usize = 0;
        while i < values.len()
            invariant
                i <= values.len(),
                values_view(values@) == self@.values,
                sum == exact_sum(self@.values.take(i as int)),
                nulls == count_nulls(self@.values.take(i as int)),
                nulls <= i,
            decreases values.len() - i,
        {
            proof {
                assert(self@.values.take(i as int + 1).drop_last() =~= self@.values.take(i as int));
                lemma_exact_sum_bounds(self@.values.take(i as int));
                assert(0x7fff_ffff_ffff_ffff * i <= 0x7fff_ffff_ffff_ffff * 0xffff_ffff_ffff_ffff)
                    by (nonlinear_arith)
                    requires
                        i <= 0xffff_ffff_ffff_ffff,
                ;
                assert(-0x8000_0000_0000_0000 * i >= -0x8000_0000_0000_0000
                    * 0xffff_ffff_ffff_ffff) by (nonlinear_arith)
                    requires
                        0 <= i <= 0xffff_ffff_ffff_ffff,
                ;
            }
            if values[i].is_null() {
                nulls += 1;
            }
            match cell_int(&values[i]) {
                Some(v) => {
                    sum = sum + v as i128;
                },
                None => {},
            }
            i += 1;
        }
        assert(self@.values.take(i as int) =~= self@.values);
        proof {
            lemma_exact_sum_bounds(self@.values);
            assert(-0x8000_0000_0000_0000 * i >= -0x8000_0000_0000_0000 * 0xffff_ffff_ffff_ffff)
                by (nonlinear_arith)
                requires
                    0 <= i <= 0xffff_ffff_ffff_ffff,
            ;
        }
        if nulls == values.len() {
            AnyType::Null
        } else {
            let n = (values.len() - nulls) as i128;
            let mean = if sum >= 0 {
                sum / n
            } else {
                -((-sum) / n)
            };
            cell_of_int(self.dtype(), mean)
        }
    }
}

/// What replacing the nulls of a column by a strategy gives.
pub open spec fn fill_none_spec(ca: SeriesView, strategy: FillNoneStrategy) -> Result<
    SeriesView,
    PolarsError,
> {
    if ca.dtype is List {
        Err(PolarsError::InvalidOperation)
    } else if count_nulls(ca.values) == 0 {
        Ok(ca)
    } else {
        match strategy {
            FillNoneStrategy::Forward => Ok(ca.with_values(fill_forward_values(ca.values))),
            FillNoneStrategy::Backward => Ok(ca.with_values(fill_backward_values(ca.values))),
            _ => if !is_integer_like(ca.dtype) {
                Err(PolarsError::InvalidOperation)
            } else {
                Ok(
                    ca.with_values(
                        fill_value_values(
                            ca.values,
                            match strategy {
                                FillNoneStrategy::Min => column_agg(ca.values, Agg::Min),
                                FillNoneStrategy::Max => column_agg(ca.values, Agg::Max),
                                _ => column_mean(ca.values, ca.dtype),
                            },
                        ),
                    ),
                )
            },
        }
    }
}

/// What a fallible column operation returned, as a model.
pub open spec fn result_view(r: PolarsResult<Series>) -> Result<SeriesView, PolarsError> {
    match r {
        Ok(s) => Ok(s@),
        Err(e) => Err(e),
    }
}

impl ChunkFillNone<AnyType> for Series {
    /// Nothing changes where the column has no null.  The mean, the
    /// smallest and the largest value exist for columns of integers only;
    /// for columns of lists there is no filling.
    fn fill_none(&self, strategy: FillNoneStrategy) -> (r: PolarsResult<Series>)
        ensures
            result_view(r) == fill_none_spec(self@, strategy),
    {
        if self.dtype() == DataType::List {
            return Err(PolarsError::InvalidOperation);
        }
        if self.null_count() == 0 {
            return Ok(self.duplicate());
        }
        match strategy {
            FillNoneStrategy::Forward => Ok(fill_forward(self)),
            FillNoneStrategy::Backward => Ok(fill_backward(self)),
            FillNoneStrategy::Min => {
                if !integer_like(self.dtype()) {
                    return Err(PolarsError::InvalidOperation);
                }
                let v = self.reduce(Agg::Min);
                Ok(fill_value(self, &v))
            },
            FillNoneStrategy::Max => {
                if !integer_like(self.dtype()) {
                    return Err(PolarsError::InvalidOperation);
                }
                let v = self.reduce(Agg::Max);
                Ok(fill_value(self, &v))
            },
            FillNoneStrategy::Mean => {
                if !integer_like(self.dtype()) {
                    return Err(PolarsError::InvalidOperation);
                }
                let v = self.column_mean();
                Ok(fill_value(self, &v))
            },
        }
    }

    /// Refused for columns of lists, and when the value is of another type
    /// than the column.
    fn fill_none_with_value(&self, value: AnyType) -> (r: PolarsResult<Series>)
        ensures
            result_view(r) == if self@.dtype is List {
                Err::<SeriesView, PolarsError>(PolarsError::InvalidOperation)
            } else if !value@.fits(self@.dtype) {
                Err(PolarsError::DataTypeMisMatch)
            } else {
                Ok(self@.with_values(fill_value_values(self@.values, value@)))
            },
    {
        if self.dtype() == DataType::List {
            return Err(PolarsError::InvalidOperation);
        }
        if value.fits(self.dtype()) {
            Ok(fill_value(self, &value))
        } else {
            Err(PolarsError::DataTypeMisMatch)
        }
    }
}

/// A column of `length` rows that all hold `value`.
pub open spec fn full_values(value: Value, length: nat) -> Seq<Value> {
    Seq::new(length, |i: int| value)
}

impl Series {
    /// A column of `length` rows of the given type that all hold `value`,
    /// which fits the type.
    pub fn full_of(name: &str, dtype: DataType, value: &AnyType, length: usize) -> (r: Series)
        requires
            value@.fits(dtype),
        ensures
            r@ == (SeriesView { name: name@, dtype, values: full_values(value@, length as nat) }),
    {
        let mut out: Vec<AnyType> = Vec::with_capacity(length);
        let mut i: usize = 0;
        while i < length
            invariant
                i <= length,
                out.len() == i,
                forall|j: int| 0 <= j < i ==> (#[trigger] out[j])@ == value@,
            decreases length - i,
        {
            out.push(value.duplicate());
            i += 1;
        }
        assert(values_view(out@) =~= full_values(value@, length as nat));
        Series::from_fitting(name.to_owned(), dtype, out)
    }
}

impl ChunkFull<AnyType> for Series {
    /// The column is of the type of `value`; of booleans where `value` is
    /// null.
    fn full(name: &str, value: AnyType, length: usize) -> (r: Series)
        ensures
            r@ == (SeriesView {
                name: name@,
                dtype: match value@.dtype() {
                    Some(d) => d,
                    None => DataType::Boolean,
                },
                values: full_values(value@, length as nat),
            }),
    {
        let dtype = match value.dtype() {
            Some(d) => d,
            None => DataType::Boolean,
        };
        Series::full_of(name, dtype, &value, length)
    }

    /// The column is of booleans.
    fn full_null(name: &str, length: usize) -> (r: Series)
        ensures
            r@ == (SeriesView {
                name: name@,
                dtype: DataType::Boolean,
                values: full_values(Value::Null, length as nat),
            }),
    {
        Series::full_of(name, DataType::Boolean, &AnyType::Null, length)
    }
}

impl ChunkExpandAtIndex for Series {
    fn expand_at_index(&self, index: usize, length: usize) -> (r: Series)
        ensures
            r@ == self@.with_values(
                full_values(
                    if index < self@.values.len() {
                        self@.values[index as int]
                    } else {
                        Value::Null
                    },
                    length as nat,
                ),
            ),
    {
        match self.get(index) {
            Some(val) => Series::full_of(self.name().as_str(), self.dtype(), &val, length),
            None => Series::full_of(self.name().as_str(), self.dtype(), &AnyType::Null, length),
        }
    }
}

/// The reductions of a whole column.
pub trait ChunkAgg<T>: Sized {
    /// The sum of the values, wrapping round at the type's bounds.
    fn sum(&self) -> T;

    /// The smallest value.
    fn min(&self) -> T;

    /// The largest value.
    fn max(&self) -> T;

    /// The mean of the values, in the column's type.
    fn mean(&self) -> T;
}

/// The reduction of a column to one cell: null for a column that is not of
/// integers, that is empty, or that holds nulls only.
pub open spec fn agg_cell(ca: SeriesView, kind: Agg) -> Value {
    if is_integer_like(ca.dtype) {
        column_agg(ca.values, kind)
    } else {
        Value::Null
    }
}

/// The mean of a column as one cell: null for a column that is not of
/// integers, that is empty, or that holds nulls only.
pub open spec fn mean_cell(ca: SeriesView) -> Value {
    if is_integer_like(ca.dtype) {
        column_mean(ca.values, ca.dtype)
    } else {
        Value::Null
    }
}

impl ChunkAgg<AnyType> for Series {
    fn sum(&self) -> (r: AnyType)
        ensures
            r@ == agg_cell(self@, Agg::Sum),
            r@.fits(self@.dtype),
    {
        if integer_like(self.dtype()) {
            self.reduce(Agg::Sum)
        } else {
            AnyType::Null
        }
    }

    fn min(&self) -> (r: AnyType)
        ensures
            r@ == agg_cell(self@, Agg::Min),
            r@.fits(self@.dtype),
    {
        if integer_like(self.dtype()) {
            self.reduce(Agg::Min)
        } else {
            AnyType::Null
        }
    }

    fn max(&self) -> (r: AnyType)
        ensures
            r@ == agg_cell(self@, Agg::Max),
            r@.fits(self@.dtype),
    {
        if integer_like(self.dtype()) {
            self.reduce(Agg::Max)
        } else {
            AnyType::Null
        }
    }

    fn mean(&self) -> (r: AnyType)
        ensures
            r@ == mean_cell(self@),
            r@.fits(self@.dtype),
    {
        if integer_like(self.dtype()) {
            self.column_mean()
        } else {
            AnyType::Null
        }
    }
}

/// The reductions of a whole column, as columns of one row.
pub trait ChunkAggSeries: Sized {
    /// The sum of the values, as a column of one row.
    fn sum_as_series(&self) -> Self;

    /// The largest value, as a column of one row.
    fn max_as_series(&self) -> Self;

    /// The smallest value, as a column of one row.
    fn min_as_series(&self) -> Self;

    /// The mean of the values, as a column of one row.
    fn mean_as_series(&self) -> Self;
}

impl ChunkAggSeries for Series {
    fn sum_as_series(&self) -> (r: Series)
        ensures
            r@ == self@.with_values(seq![agg_cell(self@, Agg::Sum)]),
    {
        let cell = self.sum();
        let r = Series::full_of(self.name().as_str(), self.dtype(), &cell, 1);
        assert(r@.values =~= seq![agg_cell(self@, Agg::Sum)]);
        r
    }

    fn max_as_series(&self) -> (r: Series)
        ensures
            r@ == self@.with_values(seq![agg_cell(self@, Agg::Max)]),
    {
        let cell = self.max();
        let r = Series::full_of(self.name().as_str(), self.dtype(), &cell, 1);
        assert(r@.values =~= seq![agg_cell(self@, Agg::Max)]);
        r
    }

    fn min_as_series(&self) -> (r: Series)
        ensures
            r@ == self@.with_values(seq![agg_cell(self@, Agg::Min)]),
    {
        let cell = self.min();
        let r = Series::full_of(self.name().as_str(), self.dtype(), &cell, 1);
        assert(r@.values =~= seq![agg_cell(self@, Agg::Min)]);
        r
    }

    fn mean_as_series(&self) -> (r: Series)
        ensures
            r@ == self@.with_values(seq![mean_cell(self@)]),
    {
        let cell = ChunkAgg::mean(self);
        let r = Series::full_of(self.name().as_str(), self.dtype(), &cell, 1);
        assert(r@.values =~= seq![mean_cell(self@)]);
        r
    }
}

} // verus!
