//! Reversing, filtering, shifting and zipping columns.

use crate::datatypes::{all_fit, count_nulls, values_view, AnyType, DataType, Value};
use crate::error::{PolarsError, PolarsResult};
use crate::ops::fill::result_view;
use crate::series::{Series, SeriesView};
use vstd::prelude::*;

verus! {

/// The rows in reverse order.
pub open spec fn reverse_values(values: Seq<Value>) -> Seq<Value> {
    Seq::new(values.len(), |i: int| values[values.len() - 1 - i])
}

/// The rows whose row of the mask holds `true`, in order.
pub open spec fn filter_values(values: Seq<Value>, mask: Seq<Value>) -> Seq<Value>
    decreases values.len(),
{
    if values.len() == 0 || mask.len() == 0 {
        Seq::empty()
    } else {
        let rest = filter_values(values.drop_last(), mask.drop_last());
        if mask.last() == Value::Boolean(true) {
            rest.push(values.last())
        } else {
            rest
        }
    }
}

/// The rows moved down by `periods`, or up where `periods` is negative; the
/// rows that this leaves empty hold `fill`.
pub open spec fn shift_values(values: Seq<Value>, periods: int, fill: Value) -> Seq<Value> {
    Seq::new(
        values.len(),
        |i: int|
            if 0 <= i - periods < values.len() {
                values[i - periods]
            } else {
                fill
            },
    )
}

/// The value that is put into emptied rows: the given one, or null.
pub open spec fn fill_cell(fill_value: Option<AnyType>) -> Value {
    match fill_value {
        Some(v) => v@,
        None => Value::Null,
    }
}

/// What shifting a column gives: refused when the fill value is of another
/// type, or when the column has not more rows than it is shifted by.
pub open spec fn shift_spec(ca: SeriesView, periods: int, fill: Value) -> Result<
    SeriesView,
    PolarsError,
> {
    if !fill.fits(ca.dtype) {
        Err(PolarsError::DataTypeMisMatch)
    } else if periods >= ca.values.len() || -periods >= ca.values.len() {
        Err(PolarsError::OutOfBounds)
    } else {
        Ok(ca.with_values(shift_values(ca.values, periods, fill)))
    }
}

/// Row by row, the value of `left` where the mask holds `true` and that of
/// `right` where it holds `false`; over as many rows as all three have.
pub open spec fn zip_values(mask: Seq<Value>, left: Seq<Value>, right: Seq<Value>) -> Seq<Value> {
    Seq::new(
        min3(mask.len(), left.len(), right.len()),
        |i: int|
            if mask[i] == Value::Boolean(true) {
                left[i]
            } else {
                right[i]
            },
    )
}

/// The smallest of three lengths.
pub open spec fn min3(a: nat, b: nat, c: nat) -> nat {
    if a <= b && a <= c {
        a
    } else if b <= c {
        b
    } else {
        c
    }
}

/// A column of one row stands for as many rows as are asked for.
pub open spec fn broadcast(values: Seq<Value>, len: nat) -> Seq<Value> {
    Seq::new(len, |i: int| values[0])
}

/// What zipping two columns by a mask gives.  Columns of lists cannot be
/// zipped.  The mask is of booleans without nulls and the columns are of
/// one type.  Where the three are not
/// equally long, a column of one row stands for any number of rows; if
/// neither column has one row, the zip is refused.
pub open spec fn zip_spec(ca: SeriesView, mask: SeriesView, other: SeriesView) -> Result<
    SeriesView,
    PolarsError,
> {
    if ca.dtype is List {
        Err(PolarsError::InvalidOperation)
    } else if mask.dtype != DataType::Boolean || other.dtype != ca.dtype {
        Err(PolarsError::DataTypeMisMatch)
    } else if count_nulls(mask.values) > 0 {
        Err(PolarsError::HasNullValues)
    } else if ca.values.len() == mask.values.len() && other.values.len() == mask.values.len() {
        Ok(ca.with_values(zip_values(mask.values, ca.values, other.values)))
    } else if ca.values.len() == 1 && other.values.len() == 1 {
        Ok(
            ca.with_values(
                zip_values(
                    mask.values,
                    broadcast(ca.values, mask.values.len()),
                    broadcast(other.values, mask.values.len()),
                ),
            ),
        )
    } else if other.values.len() == 1 {
        Ok(
            ca.with_values(
                zip_values(mask.values, ca.values, broadcast(other.values, mask.values.len())),
            ),
        )
    } else if ca.values.len() == 1 {
        Ok(
            ca.with_values(
                zip_values(mask.values, broadcast(ca.values, mask.values.len()), other.values),
            ),
        )
    } else {
        Err(PolarsError::ShapeMisMatch)
    }
}

/// Reversing a column.
pub trait ChunkReverse: Sized {
    /// The column with its rows in reverse order.
    fn reverse(&self) -> Self;
}

/// Filtering a column by a mask.
pub trait ChunkFilter: Sized {
    /// The rows whose row of the mask holds `true`.
    fn filter(&self, filter: &Self) -> PolarsResult<Self>;
}

/// Shifting the rows of a column.
pub trait ChunkShift<V>: Sized {
    /// The column with its rows moved by `periods`; the emptied rows hold
    /// `fill_value`, or null where none is given.
    fn shift(&self, periods: i32, fill_value: &Option<V>) -> PolarsResult<Self>;
}

/// Choosing between two columns row by row.
pub trait ChunkZip: Sized {
    /// The values of this column where the mask holds `true`, those of
    /// `other` where it holds `false`.
    fn zip_with(&self, mask: &Self, other: &Self) -> PolarsResult<Self>;

    /// As `zip_with`.
    fn zip_with_series(&self, mask: &Self, other: &Self) -> PolarsResult<Self>;
}

impl ChunkReverse for Series {
    fn reverse(&self) -> (r: Series)
        ensures
            r@ == self@.with_values(reverse_values(self@.values)),
    {
        let values = self.values();
        let n = values.len();
        let mut out: Vec<AnyType> = Vec::with_capacity(n);
        let mut i: usize = 0;
        while i < n
            invariant
                i <= n,
                n == values.len(),
                out.len() == i,
                values_view(values@) == self@.values,
                all_fit(self@.values, self@.dtype),
                forall|j: int|
                    0 <= j < i ==> (#[trigger] out[j])@ == self@.values[n - 1 - j]
                        && out[j]@.fits(self@.dtype),
            decreases n - i,
        {
            assert(self@.values[n - 1 - i].fits(self@.dtype));
            out.push(values[n - 1 - i].duplicate());
            i += 1;
        }
        assert(values_view(out@) =~= reverse_values(self@.values));
        Series::from_fitting(self.name().clone(), self.dtype(), out)
    }
}

/// What is kept of a column is of the column's type.
pub proof fn lemma_filter_fits(values: Seq<Value>, mask: Seq<Value>, dtype: DataType)
    requires
        all_fit(values, dtype),
    ensures
        all_fit(filter_values(values, mask), dtype),
    decreases values.len(),
{
    if values.len() > 0 && mask.len() > 0 {
        assert(all_fit(values.drop_last(), dtype)) by {
            assert forall|i: int| 0 <= i < values.drop_last().len() implies (
            #[trigger] values.drop_last()[i]).fits(dtype) by {
                assert(values[i].fits(dtype));
            }
        }
        lemma_filter_fits(values.drop_last(), mask.drop_last(), dtype);
        assert(values.last().fits(dtype));
    }
}

impl ChunkFilter for Series {
    /// Refused when the mask is not of booleans or not as long as the
    /// column.  A row whose mask is null is left out.
    fn filter(&self, filter: &Series) -> (r: PolarsResult<Series>)
        ensures
            result_view(r) == if filter@.dtype != DataType::Boolean {
                Err::<SeriesView, PolarsError>(PolarsError::DataTypeMisMatch)
            } else if filter@.values.len() != self@.values.len() {
                Err(PolarsError::ShapeMisMatch)
            } else {
                Ok(self@.with_values(filter_values(self@.values, filter@.values)))
            },
    {
        if filter.dtype() != DataType::Boolean {
            return Err(PolarsError::DataTypeMisMatch);
        }
        if self.len() != filter.len() {
            return Err(PolarsError::ShapeMisMatch);
        }
        let values = self.values();
        let mask = filter.values();
        let mut out: Vec<AnyType> = Vec::new();
        let mut i: usize = 0;
        assert(values_view(out@) =~= filter_values(
            self@.values.take(0),
            filter@.values.take(0),
        ));
        while i < values.len()
            invariant
                i <= values.len(),
                values.len() == mask.len(),
                values_view(values@) == self@.values,
                values_view(mask@) == filter@.values,
                values_view(out@) == filter_values(
                    self@.values.take(i as int),
                    filter@.values.take(i as int),
                ),
            decreases values.len() - i,
        {
            proof {
                assert(self@.values.take(i as int + 1).drop_last() =~= self@.values.take(i as int));
                assert(filter@.values.take(i as int + 1).drop_last() =~= filter@.values.take(
                    i as int,
                ));
            }
            let keep = match &mask[i] {
                AnyType::Boolean(b) => *b,
                _ => false,
            };
            if keep {
                let ghost before = values_view(out@);
                out.push(values[i].duplicate());
                assert(values_view(out@) =~= before.push(self@.values[i as int]));
            }
            i += 1;
        }
        proof {
            assert(self@.values.take(i as int) =~= self@.values);
            assert(filter@.values.take(i as int) =~= filter@.values);
            lemma_filter_fits(self@.values, filter@.values, self@.dtype);
        }
        Ok(Series::from_fitting(self.name().clone(), self.dtype(), out))
    }
}

/// Adds `amount` cells of the column to `builder`, from row `skip` on, or
/// as many as the column has from there.
pub fn chunk_shift_helper(ca: &Series, builder: &mut Vec<AnyType>, amount: usize, skip: usize)
    ensures
        values_view(final(builder)@) == values_view(old(builder)@) + ca@.values.subrange(
            if skip <= ca@.values.len() {
                skip as int
            } else {
                ca@.values.len() as int
            },
            if skip + amount <= ca@.values.len() {
                skip + amount
            } else {
                ca@.values.len() as int
            },
        ),
{
    let values = ca.values();
    let n = values.len();
    let start = if skip <= n {
        skip
    } else {
        n
    };
    let end = if amount <= n - start {
        start + amount
    } else {
        n
    };
    let mut i: usize = start;
    assert(values_view(builder@) =~= values_view(old(builder)@) + ca@.values.subrange(
        start as int,
        start as int,
    ));
    while i < end
        invariant
            start <= i <= end <= n,
            n == values.len(),
            values_view(values@) == ca@.values,
            values_view(builder@) == values_view(old(builder)@) + ca@.values.subrange(
                start as int,
                i as int,
            ),
        decreases end - i,
    {
        let ghost before = values_view(builder@);
        builder.push(values[i].duplicate());
        assert(values_view(builder@) =~= before.push(ca@.values[i as int]));
        assert(ca@.values.subrange(start as int, i as int + 1) =~= ca@.values.subrange(
            start as int,
            i as int,
        ).push(ca@.values[i as int]));
        assert(values_view(builder@) =~= values_view(old(builder)@) + ca@.values.subrange(
            start as int,
            i as int + 1,
        ));
        i += 1;
    }
}

/// Adds `count` copies of a cell to `builder`.
pub fn append_fill(builder: &mut Vec<AnyType>, cell: &AnyType, count: usize)
    ensures
        values_view(final(builder)@) == values_view(old(builder)@) + Seq::new(
            count as nat,
            |i: int| cell@,
        ),
{
    let mut i: usize = 0;
    assert(values_view(builder@) =~= values_view(old(builder)@) + Seq::new(0, |i: int| cell@));
    while i < count
        invariant
            i <= count,
            values_view(builder@) == values_view(old(builder)@) + Seq::new(
                i as nat,
                |j: int| cell@,
            ),
        decreases count - i,
    {
        let ghost before = values_view(builder@);
        builder.push(cell.duplicate());
        assert(values_view(builder@) =~= before.push(cell@));
        assert(Seq::new((i + 1) as nat, |j: int| cell@) =~= Seq::new(i as nat, |j: int| cell@).push(
            cell@,
        ));
        assert(values_view(builder@) =~= values_view(old(builder)@) + Seq::new(
            (i + 1) as nat,
            |j: int| cell@,
        ));
        i += 1;
    }
}

impl ChunkShift<AnyType> for Series {
    fn shift(&self, periods: i32, fill_value: &Option<AnyType>) -> (r: PolarsResult<Series>)
        ensures
            result_view(r) == shift_spec(self@, periods as int, fill_cell(*fill_value)),
    {
        let fill = match fill_value {
            Some(v) => v.duplicate(),
            None => AnyType::Null,
        };
        if !fill.fits(self.dtype()) {
            return Err(PolarsError::DataTypeMisMatch);
        }
        let n = self.len();
        let by: u32 = if periods < 0 {
            (-(periods as i64)) as u32
        } else {
            periods as u32
        };
        if by as u64 >= n as u64 {
            return Err(PolarsError::OutOfBounds);
        }
        let by = by as usize;
        let amount = n - by;
        let mut builder: Vec<AnyType> = Vec::with_capacity(n);
        let _ = self.values();
        if periods > 0 {
            append_fill(&mut builder, &fill, by);
            chunk_shift_helper(self, &mut builder, amount, 0);
        } else {
            chunk_shift_helper(self, &mut builder, amount, by);
            append_fill(&mut builder, &fill, by);
        }
        proof {
            let out = values_view(builder@);
            let want = shift_values(self@.values, periods as int, fill@);
            assert(out.len() == want.len());
            assert forall|i: int| 0 <= i < out.len() implies out[i] == want[i] by {}
            assert(out =~= want);
            assert forall|i: int| 0 <= i < want.len() implies (#[trigger] want[i]).fits(
                self@.dtype,
            ) by {
                if 0 <= i - periods < self@.values.len() {
                    assert(self@.values[i - periods].fits(self@.dtype));
                }
            }
        }
        Ok(Series::from_fitting(self.name().clone(), self.dtype(), builder))
    }
}

/// The cell of row `i` of a column, or of its only row where it has but
/// one and stands for many.
fn cell_at(values: &Vec<AnyType>, i: usize, one_for_all: bool) -> (r: &AnyType)
    requires
        if one_for_all {
            values.len() >= 1
        } else {
            i < values.len()
        },
    ensures
        r@ == if one_for_all {
            values[0]@
        } else {
            values[i as int]@
        },
{
    if one_for_all {
        &values[0]
    } else {
        &values[i]
    }
}

impl ChunkZip for Series {
    fn zip_with(&self, mask: &Series, other: &Series) -> (r: PolarsResult<Series>)
        ensures
            result_view(r) == zip_spec(self@, mask@, other@),
    {
        if self.dtype() == DataType::List {
            return Err(PolarsError::InvalidOperation);
        }
        if mask.dtype() != DataType::Boolean || other.dtype() != self.dtype() {
            return Err(PolarsError::DataTypeMisMatch);
        }
        if mask.null_count() > 0 {
            return Err(PolarsError::HasNullValues);
        }
        let self_len = self.len();
        let other_len = other.len();
        let mask_len = mask.len();
        let same = self_len == mask_len && other_len == mask_len;
        let left_one = !same && self_len == 1;
        let right_one = !same && other_len == 1;
        if !same && !left_one && !right_one {
            return Err(PolarsError::ShapeMisMatch);
        }
        let left = self.values();
        let right = other.values();
        let flags = mask.values();
        let n = if left_one && right_one {
            mask_len
        } else if right_one {
            if mask_len <= self_len {
                mask_len
            } else {
                self_len
            }
        } else if left_one {
            if mask_len <= other_len {
                mask_len
            } else {
                other_len
            }
        } else {
            mask_len
        };
        let ghost lv = if left_one {
            broadcast(self@.values, mask@.values.len())
        } else {
            self@.values
        };
        let ghost rv = if right_one {
            broadcast(other@.values, mask@.values.len())
        } else {
            other@.values
        };
        let mut out: Vec<AnyType> = Vec::with_capacity(n);
        let mut i: usize = 0;
        while i < n
            invariant
                i <= n,
                n == min3(mask@.values.len(), lv.len(), rv.len()),
                out.len() == i,
                values_view(left@) == self@.values,
                values_view(right@) == other@.values,
                values_view(flags@) == mask@.values,
                all_fit(self@.values, self@.dtype),
                all_fit(other@.values, self@.dtype),
                left_one ==> left.len() == 1,
                right_one ==> right.len() == 1,
                lv == if left_one {
                    broadcast(self@.values, mask@.values.len())
                } else {
                    self@.values
                },
                rv == if right_one {
                    broadcast(other@.values, mask@.values.len())
                } else {
                    other@.values
                },
                forall|j: int|
                    0 <= j < i ==> (#[trigger] out[j])@ == zip_values(mask@.values, lv, rv)[j]
                        && out[j]@.fits(self@.dtype),
            decreases n - i,
        {
            let take_left = match &flags[i] {
                AnyType::Boolean(b) => *b,
                _ => false,
            };
            let cell = if take_left {
                cell_at(left, i, left_one)
            } else {
                cell_at(right, i, right_one)
            };
            proof {
                if left_one {
                    assert(self@.values[0].fits(self@.dtype));
                } else {
                    assert(self@.values[i as int].fits(self@.dtype));
                }
                if right_one {
                    assert(other@.values[0].fits(self@.dtype));
                } else {
                    assert(other@.values[i as int].fits(self@.dtype));
                }
            }
            out.push(cell.duplicate());
            i += 1;
        }
        assert(values_view(out@) =~= zip_values(mask@.values, lv, rv));
        Ok(Series::from_fitting(self.name().clone(), self.dtype(), out))
    }

    fn zip_with_series(&self, mask: &Series, other: &Series) -> (r: PolarsResult<Series>)
        ensures
            result_view(r) == zip_spec(self@, mask@, other@),
    {
        self.zip_with(mask, other)
    }
}

} // verus!
