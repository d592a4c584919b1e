//! Reducing the rows of a group to one value.

use crate::datatypes::{all_fit, values_view, AnyType, DataType, Value};
use crate::take::{all_in_bounds, gather, take_values};
use vstd::prelude::*;

verus! {

/// The reductions that a group-by offers over integer-like columns.
#[derive(Clone, Copy, Debug, PartialEq, Eq, Structural)]
pub enum Agg {
    Sum,
    Min,
    Max,
}

/// Whether columns of this element type can be summed and ordered here:
/// the integers, and the dates, times, durations, timestamps and intervals,
/// which are integers.
pub open spec fn is_integer_like(dtype: DataType) -> bool {
    dtype is UInt32 || dtype is Int32 || dtype is Int64 || dtype is Date32 || dtype is Date64
        || dtype is Time64Nanosecond || dtype is Duration || dtype is Timestamp
        || dtype is IntervalDayTime || dtype is IntervalYearMonth
}

/// The sum of two cells of one integer-like type, wrapping round at the
/// type's bounds; a null adds nothing.
pub open spec fn add_values(a: Value, b: Value) -> Value {
    match (a, b) {
        (Value::Null, _) => b,
        (_, Value::Null) => a,
        (Value::UInt32(x), Value::UInt32(y)) => Value::UInt32(x.wrapping_add(y)),
        (Value::Int32(x), Value::Int32(y)) => Value::Int32(x.wrapping_add(y)),
        (Value::Int64(x), Value::Int64(y)) => Value::Int64(x.wrapping_add(y)),
        (Value::Date32(x), Value::Date32(y)) => Value::Date32(x.wrapping_add(y)),
        (Value::Date64(x), Value::Date64(y)) => Value::Date64(x.wrapping_add(y)),
        (Value::Time64Nanosecond(x), Value::Time64Nanosecond(y)) => Value::Time64Nanosecond(
            x.wrapping_add(y),
        ),
        (Value::Duration(x, u), Value::Duration(y, v)) => if u == v {
            Value::Duration(x.wrapping_add(y), u)
        } else {
            Value::Null
        },
        (Value::TimeStamp(x, u), Value::TimeStamp(y, v)) => if u == v {
            Value::TimeStamp(x.wrapping_add(y), u)
        } else {
            Value::Null
        },
        (Value::IntervalDayTime(x), Value::IntervalDayTime(y)) => Value::IntervalDayTime(x.wrapping_add(y)),
        (Value::IntervalYearMonth(x), Value::IntervalYearMonth(y)) => Value::IntervalYearMonth(x.wrapping_add(y)),
        _ => Value::Null,
    }
}

/// The smaller of two cells of one integer-like type; a null is passed
/// over.
pub open spec fn min_values(a: Value, b: Value) -> Value {
    match (a, b) {
        (Value::Null, _) => b,
        (_, Value::Null) => a,
        (Value::UInt32(x), Value::UInt32(y)) => if x < y { a } else { b },
        (Value::Int32(x), Value::Int32(y)) => if x < y { a } else { b },
        (Value::Int64(x), Value::Int64(y)) => if x < y { a } else { b },
        (Value::Date32(x), Value::Date32(y)) => if x < y { a } else { b },
        (Value::Date64(x), Value::Date64(y)) => if x < y { a } else { b },
        (Value::Time64Nanosecond(x), Value::Time64Nanosecond(y)) => if x < y { a } else { b },
        (Value::Duration(x, u), Value::Duration(y, v)) => if u == v {
            Value::Duration(if x < y { x } else { y }, u)
        } else {
            Value::Null
        },
        (Value::TimeStamp(x, u), Value::TimeStamp(y, v)) => if u == v {
            Value::TimeStamp(if x < y { x } else { y }, u)
        } else {
            Value::Null
        },
        (Value::IntervalDayTime(x), Value::IntervalDayTime(y)) => Value::IntervalDayTime(if x < y { x } else { y }),
        (Value::IntervalYearMonth(x), Value::IntervalYearMonth(y)) => Value::IntervalYearMonth(if x < y { x } else { y }),
        _ => Value::Null,
    }
}

/// The larger of two cells of one integer-like type; a null is passed over.
pub open spec fn max_values(a: Value, b: Value) -> Value {
    match (a, b) {
        (Value::Null, _) => b,
        (_, Value::Null) => a,
        (Value::UInt32(x), Value::UInt32(y)) => if x > y { a } else { b },
        (Value::Int32(x), Value::Int32(y)) => if x > y { a } else { b },
        (Value::Int64(x), Value::Int64(y)) => if x > y { a } else { b },
        (Value::Date32(x), Value::Date32(y)) => if x > y { a } else { b },
        (Value::Date64(x), Value::Date64(y)) => if x > y { a } else { b },
        (Value::Time64Nanosecond(x), Value::Time64Nanosecond(y)) => if x > y { a } else { b },
        (Value::Duration(x, u), Value::Duration(y, v)) => if u == v {
            Value::Duration(if x > y { x } else { y }, u)
        } else {
            Value::Null
        },
        (Value::TimeStamp(x, u), Value::TimeStamp(y, v)) => if u == v {
            Value::TimeStamp(if x > y { x } else { y }, u)
        } else {
            Value::Null
        },
        (Value::IntervalDayTime(x), Value::IntervalDayTime(y)) => Value::IntervalDayTime(if x > y { x } else { y }),
        (Value::IntervalYearMonth(x), Value::IntervalYearMonth(y)) => Value::IntervalYearMonth(if x > y { x } else { y }),
        _ => Value::Null,
    }
}

/// One step of a reduction.
pub open spec fn combine(kind: Agg, acc: Value, v: Value) -> Value {
    match kind {
        Agg::Sum => add_values(acc, v),
        Agg::Min => min_values(acc, v),
        Agg::Max => max_values(acc, v),
    }
}

/// The reduction of the rows `idx` of a column, taken in order: null for no
/// rows and for rows that are all null.
pub open spec fn fold_group(values: Seq<Value>, idx: Seq<usize>, kind: Agg) -> Value
    decreases idx.len(),
{
    if idx.len() == 0 {
        Value::Null
    } else {
        combine(kind, fold_group(values, idx.drop_last(), kind), values[idx.last() as int])
    }
}

/// A reduction of cells that fit an integer-like column fits it too.
pub proof fn lemma_fold_fits(values: Seq<Value>, idx: Seq<usize>, kind: Agg, dtype: DataType)
    requires
        all_fit(values, dtype),
        all_in_bounds(idx, values.len()),
    ensures
        fold_group(values, idx, kind).fits(dtype),
    decreases idx.len(),
{
    if idx.len() > 0 {
        assert(all_in_bounds(idx.drop_last(), values.len())) by {
            assert forall|i: int| 0 <= i < idx.drop_last().len() implies (
            #[trigger] idx.drop_last()[i]) < values.len() by {
                assert(idx[i] < values.len());
            }
        }
        lemma_fold_fits(values, idx.drop_last(), kind, dtype);
        assert(values[idx.last() as int].fits(dtype));
    }
}

/// The smallest of the rows of a group is one of them and not above any of
/// them; null only where all rows are null.
pub proof fn lemma_min_is_least(values: Seq<Value>, idx: Seq<usize>, dtype: DataType)
    requires
        is_integer_like(dtype),
        all_fit(values, dtype),
        all_in_bounds(idx, values.len()),
    ensures
        fold_group(values, idx, Agg::Min) is Null <==> forall|i: int|
            0 <= i < idx.len() ==> values[#[trigger] idx[i] as int] is Null,
        !(fold_group(values, idx, Agg::Min) is Null) ==> exists|i: int|
            0 <= i < idx.len() && values[#[trigger] idx[i] as int] == fold_group(
                values,
                idx,
                Agg::Min,
            ),
        forall|i: int|
            0 <= i < idx.len() && !(values[#[trigger] idx[i] as int] is Null) ==> fold_group(
                values,
                idx,
                Agg::Min,
            ).as_int()->0 <= values[idx[i] as int].as_int()->0,
    decreases idx.len(),
{
    if idx.len() > 0 {
        let init = idx.drop_last();
        assert(all_in_bounds(init, values.len())) by {
            assert forall|i: int| 0 <= i < init.len() implies (#[trigger] init[i])
                < values.len() by {
                assert(idx[i] < values.len());
            }
        }
        lemma_min_is_least(values, init, dtype);
        lemma_fold_fits(values, init, Agg::Min, dtype);
        let acc = fold_group(values, init, Agg::Min);
        let v = values[idx.last() as int];
        let r = fold_group(values, idx, Agg::Min);
        assert(v.fits(dtype));
        assert forall|i: int| 0 <= i < init.len() implies values[#[trigger] init[i] as int]
            == values[idx[i] as int] by {}
        if !(r is Null) {
            if r == v {
                assert(values[idx[idx.len() - 1] as int] == r);
            } else {
                let i = choose|i: int|
                    0 <= i < init.len() && values[#[trigger] init[i] as int] == acc;
                assert(values[idx[i] as int] == r);
            }
        }
        assert forall|i: int|
            0 <= i < idx.len() && !(values[#[trigger] idx[i] as int] is Null) implies r.as_int()->0
            <= values[idx[i] as int].as_int()->0 by {
            if i < init.len() {
                assert(values[init[i] as int] == values[idx[i] as int]);
            }
        }
        if r is Null {
            assert forall|i: int| 0 <= i < idx.len() implies values[#[trigger] idx[i] as int]
                is Null by {
                if i < init.len() {
                    assert(values[init[i] as int] is Null);
                }
            }
        }
    }
}

/// The largest of the rows of a group is one of them and not below any of
/// them; null only where all rows are null.
pub proof fn lemma_max_is_greatest(values: Seq<Value>, idx: Seq<usize>, dtype: DataType)
    requires
        is_integer_like(dtype),
        all_fit(values, dtype),
        all_in_bounds(idx, values.len()),
    ensures
        fold_group(values, idx, Agg::Max) is Null <==> forall|i: int|
            0 <= i < idx.len() ==> values[#[trigger] idx[i] as int] is Null,
        !(fold_group(values, idx, Agg::Max) is Null) ==> exists|i: int|
            0 <= i < idx.len() && values[#[trigger] idx[i] as int] == fold_group(
                values,
                idx,
                Agg::Max,
            ),
        forall|i: int|
            0 <= i < idx.len() && !(values[#[trigger] idx[i] as int] is Null) ==> fold_group(
                values,
                idx,
                Agg::Max,
            ).as_int()->0 >= values[idx[i] as int].as_int()->0,
    decreases idx.len(),
{
    if idx.len() > 0 {
        let init = idx.drop_last();
        assert(all_in_bounds(init, values.len())) by {
            assert forall|i: int| 0 <= i < init.len() implies (#[trigger] init[i])
                < values.len() by {
                assert(idx[i] < values.len());
            }
        }
        lemma_max_is_greatest(values, init, dtype);
        lemma_fold_fits(values, init, Agg::Max, dtype);
        let acc = fold_group(values, init, Agg::Max);
        let v = values[idx.last() as int];
        let r = fold_group(values, idx, Agg::Max);
        assert(v.fits(dtype));
        assert forall|i: int| 0 <= i < init.len() implies values[#[trigger] init[i] as int]
            == values[idx[i] as int] by {}
        if !(r is Null) {
            if r == v {
                assert(values[idx[idx.len() - 1] as int] == r);
            } else {
                let i = choose|i: int|
                    0 <= i < init.len() && values[#[trigger] init[i] as int] == acc;
                assert(values[idx[i] as int] == r);
            }
        }
        assert forall|i: int|
            0 <= i < idx.len() && !(values[#[trigger] idx[i] as int] is Null) implies r.as_int()->0
            >= values[idx[i] as int].as_int()->0 by {
            if i < init.len() {
                assert(values[init[i] as int] == values[idx[i] as int]);
            }
        }
        if r is Null {
            assert forall|i: int| 0 <= i < idx.len() implies values[#[trigger] idx[i] as int]
                is Null by {
                if i < init.len() {
                    assert(values[init[i] as int] is Null);
                }
            }
        }
    }
}

/// The sum of two cells.
pub fn add_cells(a: &AnyType, b: &AnyType) -> (r: AnyType)
    ensures
        r@ == add_values(a@, b@),
{
    match (a, b) {
        (AnyType::Null, _) => b.duplicate(),
        (_, AnyType::Null) => a.duplicate(),
        (AnyType::UInt32(x), AnyType::UInt32(y)) => AnyType::UInt32(x.wrapping_add(*y)),
        (AnyType::Int32(x), AnyType::Int32(y)) => AnyType::Int32(x.wrapping_add(*y)),
        (AnyType::Int64(x), AnyType::Int64(y)) => AnyType::Int64(x.wrapping_add(*y)),
        (AnyType::Date32(x), AnyType::Date32(y)) => AnyType::Date32(x.wrapping_add(*y)),
        (AnyType::Date64(x), AnyType::Date64(y)) => AnyType::Date64(x.wrapping_add(*y)),
        (AnyType::Time64Nanosecond(x), AnyType::Time64Nanosecond(y)) => AnyType::Time64Nanosecond(
            x.wrapping_add(*y),
        ),
        (AnyType::Duration(x, u), AnyType::Duration(y, v)) => if *u == *v {
            AnyType::Duration(x.wrapping_add(*y), *u)
        } else {
            AnyType::Null
        },
        (AnyType::TimeStamp(x, u), AnyType::TimeStamp(y, v)) => if *u == *v {
            AnyType::TimeStamp(x.wrapping_add(*y), *u)
        } else {
            AnyType::Null
        },
        (AnyType::IntervalDayTime(x), AnyType::IntervalDayTime(y)) => AnyType::IntervalDayTime(x.wrapping_add(*y)),
        (AnyType::IntervalYearMonth(x), AnyType::IntervalYearMonth(y)) => AnyType::IntervalYearMonth(x.wrapping_add(*y)),
        _ => AnyType::Null,
    }
}

/// The smaller of two cells.
pub fn min_cells(a: &AnyType, b: &AnyType) -> (r: AnyType)
    ensures
        r@ == min_values(a@, b@),
{
    match (a, b) {
        (AnyType::Null, _) => b.duplicate(),
        (_, AnyType::Null) => a.duplicate(),
        (AnyType::UInt32(x), AnyType::UInt32(y)) => AnyType::UInt32(if *x < *y { *x } else { *y }),
        (AnyType::Int32(x), AnyType::Int32(y)) => AnyType::Int32(if *x < *y { *x } else { *y }),
        (AnyType::Int64(x), AnyType::Int64(y)) => AnyType::Int64(if *x < *y { *x } else { *y }),
        (AnyType::Date32(x), AnyType::Date32(y)) => AnyType::Date32(if *x < *y { *x } else { *y }),
        (AnyType::Date64(x), AnyType::Date64(y)) => AnyType::Date64(if *x < *y { *x } else { *y }),
        (AnyType::Time64Nanosecond(x), AnyType::Time64Nanosecond(y)) => AnyType::Time64Nanosecond(
            if *x < *y { *x } else { *y },
        ),
        (AnyType::Duration(x, u), AnyType::Duration(y, v)) => if *u == *v {
            AnyType::Duration(if *x < *y { *x } else { *y }, *u)
        } else {
            AnyType::Null
        },
        (AnyType::TimeStamp(x, u), AnyType::TimeStamp(y, v)) => if *u == *v {
            AnyType::TimeStamp(if *x < *y { *x } else { *y }, *u)
        } else {
            AnyType::Null
        },
        (AnyType::IntervalDayTime(x), AnyType::IntervalDayTime(y)) => AnyType::IntervalDayTime(if *x < *y { *x } else { *y }),
        (AnyType::IntervalYearMonth(x), AnyType::IntervalYearMonth(y)) => AnyType::IntervalYearMonth(if *x < *y { *x } else { *y }),
        _ => AnyType::Null,
    }
}

/// The larger of two cells.
pub fn max_cells(a: &AnyType, b: &AnyType) -> (r: AnyType)
    ensures
        r@ == max_values(a@, b@),
{
    match (a, b) {
        (AnyType::Null, _) => b.duplicate(),
        (_, AnyType::Null) => a.duplicate(),
        (AnyType::UInt32(x), AnyType::UInt32(y)) => AnyType::UInt32(if *x > *y { *x } else { *y }),
        (AnyType::Int32(x), AnyType::Int32(y)) => AnyType::Int32(if *x > *y { *x } else { *y }),
        (AnyType::Int64(x), AnyType::Int64(y)) => AnyType::Int64(if *x > *y { *x } else { *y }),
        (AnyType::Date32(x), AnyType::Date32(y)) => AnyType::Date32(if *x > *y { *x } else { *y }),
        (AnyType::Date64(x), AnyType::Date64(y)) => AnyType::Date64(if *x > *y { *x } else { *y }),
        (AnyType::Time64Nanosecond(x), AnyType::Time64Nanosecond(y)) => AnyType::Time64Nanosecond(
            if *x > *y { *x } else { *y },
        ),
        (AnyType::Duration(x, u), AnyType::Duration(y, v)) => if *u == *v {
            AnyType::Duration(if *x > *y { *x } else { *y }, *u)
        } else {
            AnyType::Null
        },
        (AnyType::TimeStamp(x, u), AnyType::TimeStamp(y, v)) => if *u == *v {
            AnyType::TimeStamp(if *x > *y { *x } else { *y }, *u)
        } else {
            AnyType::Null
        },
        (AnyType::IntervalDayTime(x), AnyType::IntervalDayTime(y)) => AnyType::IntervalDayTime(if *x > *y { *x } else { *y }),
        (AnyType::IntervalYearMonth(x), AnyType::IntervalYearMonth(y)) => AnyType::IntervalYearMonth(if *x > *y { *x } else { *y }),
        _ => AnyType::Null,
    }
}

/// Whether columns of this element type can be summed and ordered here.
pub fn integer_like(dtype: DataType) -> (r: bool)
    ensures
        r == is_integer_like(dtype),
{
    match dtype {
        DataType::UInt32 | DataType::Int32 | DataType::Int64 | DataType::Date32
        | DataType::Date64 | DataType::Time64Nanosecond | DataType::Duration(_)
        | DataType::Timestamp(_) | DataType::IntervalDayTime | DataType::IntervalYearMonth => true,
        _ => false,
    }
}

/// One step of a reduction.
pub fn combine_cells(kind: Agg, acc: &AnyType, cell: &AnyType) -> (r: AnyType)
    ensures
        r@ == combine(kind, acc@, cell@),
{
    match kind {
        Agg::Sum => add_cells(acc, cell),
        Agg::Min => min_cells(acc, cell),
        Agg::Max => max_cells(acc, cell),
    }
}

/// All rows of a column of `len` rows.
pub open spec fn all_rows(len: nat) -> Seq<usize> {
    Seq::new(len, |i: int| i as usize)
}

/// A reduction looks at the rows that it is given only.
pub proof fn lemma_fold_rows_only(a: Seq<Value>, b: Seq<Value>, idx: Seq<usize>, kind: Agg)
    requires
        forall|i: int| 0 <= i < idx.len() ==> a[#[trigger] idx[i] as int] == b[idx[i] as int],
    ensures
        fold_group(a, idx, kind) == fold_group(b, idx, kind),
    decreases idx.len(),
{
    if idx.len() > 0 {
        assert forall|i: int| 0 <= i < idx.drop_last().len() implies a[
        #[trigger] idx.drop_last()[i] as int] == b[idx.drop_last()[i] as int] by {
            assert(idx.drop_last()[i] == idx[i]);
        }
        lemma_fold_rows_only(a, b, idx.drop_last(), kind);
        assert(a[idx[idx.len() - 1] as int] == b[idx[idx.len() - 1] as int]);
    }
}

/// Reducing the gathered rows of a group is reducing the group.
pub proof fn lemma_fold_gathered(values: Seq<Value>, idx: Seq<usize>, kind: Agg)
    requires
        idx.len() <= usize::MAX,
    ensures
        fold_group(take_values(values, idx), all_rows(idx.len()), kind) == fold_group(
            values,
            idx,
            kind,
        ),
    decreases idx.len(),
{
    let taken = take_values(values, idx);
    if idx.len() > 0 {
        let n = (idx.len() - 1) as nat;
        lemma_fold_gathered(values, idx.drop_last(), kind);
        assert(all_rows(idx.len()).drop_last() =~= all_rows(n));
        assert(all_rows(idx.len()).last() == n as usize);
        assert(taken.drop_last() =~= take_values(values, idx.drop_last()));
        assert forall|i: int| 0 <= i < all_rows(n).len() implies taken[
        #[trigger] all_rows(n)[i] as int] == taken.drop_last()[all_rows(n)[i] as int] by {}
        lemma_fold_rows_only(taken, taken.drop_last(), all_rows(n), kind);
    }
}

/// Reduces the rows `idx` of a column to one cell.  Where the column is
/// known to hold no null, the rows are read in place; else they are
/// gathered first and the gathered rows are reduced.
pub fn agg_group(values: &Vec<AnyType>, idx: &Vec<usize>, kind: Agg, in_place: bool) -> (r: AnyType)
    requires
        all_in_bounds(idx@, values.len() as nat),
    ensures
        r@ == fold_group(values_view(values@), idx@, kind),
{
    let ghost vals = values_view(values@);
    if in_place {
        let mut acc = AnyType::Null;
        let mut x: usize = 0;
        while x < idx.len()
            invariant
                x <= idx.len(),
                vals == values_view(values@),
                all_in_bounds(idx@, values.len() as nat),
                acc@ == fold_group(vals, idx@.take(x as int), kind),
            decreases idx.len() - x,
        {
            assert(idx@.take(x as int + 1).drop_last() =~= idx@.take(x as int));
            acc = combine_cells(kind, &acc, &values[idx[x]]);
            x += 1;
        }
        assert(idx@.take(x as int) =~= idx@);
        acc
    } else {
        let take = gather(values, idx, Some(values.len()));
        let ghost taken = values_view(take@);
        assert(take.len() == idx.len()) by {
            assert(taken.len() == idx@.len());
        }
        let mut acc = AnyType::Null;
        let mut x: usize = 0;
        assert(all_rows(take.len() as nat).take(0) =~= Seq::<usize>::empty());
        while x < take.len()
            invariant
                x <= take.len(),
                take.len() == idx.len(),
                taken == values_view(take@),
                taken == take_values(vals, idx@),
                acc@ == fold_group(taken, all_rows(take.len() as nat).take(x as int), kind),
            decreases take.len() - x,
        {
            assert(all_rows(take.len() as nat).take(x as int + 1).drop_last() =~= all_rows(
                take.len() as nat,
            ).take(x as int));
            acc = combine_cells(kind, &acc, &take[x]);
            x += 1;
        }
        proof {
            assert(all_rows(take.len() as nat).take(x as int) =~= all_rows(take.len() as nat));
            lemma_fold_gathered(vals, idx@, kind);
        }
        acc
    }
}

/// The exact sum of the integers of the rows `idx` of a column, nulls
/// passed over.
pub open spec fn group_exact_sum(values: Seq<Value>, idx: Seq<usize>) -> int
    decreases idx.len(),
{
    if idx.len() == 0 {
        0
    } else {
        group_exact_sum(values, idx.drop_last()) + match values[idx.last() as int].as_int() {
            Some(v) => v,
            None => 0,
        }
    }
}

/// Whether all rows `idx` of a column are null.
pub open spec fn group_all_null(values: Seq<Value>, idx: Seq<usize>) -> bool {
    forall|i: int| 0 <= i < idx.len() ==> values[#[trigger] idx[i] as int] is Null
}

/// What a mean is made of: the exact sum of the values of a group and the
/// number of its rows, nulls counted; nothing where all of its values are
/// null.
pub open spec fn mean_parts(values: Seq<Value>, idx: Seq<usize>) -> Option<(i128, usize)> {
    if group_all_null(values, idx) {
        None
    } else {
        Some((group_exact_sum(values, idx) as i128, idx.len() as usize))
    }
}

/// The exact sum of a group stays within what its rows allow.
pub proof fn lemma_group_sum_bounds(values: Seq<Value>, idx: Seq<usize>)
    ensures
        -0x8000_0000_0000_0000 * idx.len() <= group_exact_sum(values, idx)
            <= 0x7fff_ffff_ffff_ffff * idx.len(),
    decreases idx.len(),
{
    if idx.len() > 0 {
        lemma_group_sum_bounds(values, idx.drop_last());
        let n = idx.len() as int;
        assert(-0x8000_0000_0000_0000 * (n - 1) - 0x8000_0000_0000_0000 == -0x8000_0000_0000_0000
            * n) by (nonlinear_arith);
        assert(0x7fff_ffff_ffff_ffff * (n - 1) + 0x7fff_ffff_ffff_ffff == 0x7fff_ffff_ffff_ffff
            * n) by (nonlinear_arith);
    }
}

/// The parts of the mean of the rows `idx` of a column.
pub fn mean_group(values: &Vec<AnyType>, idx: &Vec<usize>) -> (r: Option<(i128, usize)>)
    requires
        all_in_bounds(idx@, values.len() as nat),
    ensures
        r == mean_parts(values_view(values@), idx@),
{
    let ghost vals = values_view(values@);
    let mut sum: i128 = 0;
    let mut all_null = true;
    let mut x: usize = 0;
    while x < idx.len()
        invariant
            x <= idx.len(),
            vals == values_view(values@),
            all_in_bounds(idx@, values.len() as nat),
            sum == group_exact_sum(vals, idx@.take(x as int)),
            all_null == group_all_null(vals, idx@.take(x as int)),
        decreases idx.len() - x,
    {
        proof {
            let before = idx@.take(x as int);
            let after = idx@.take(x as int + 1);
            assert(after.drop_last() =~= before);
            lemma_group_sum_bounds(vals, before);
            assert(0x7fff_ffff_ffff_ffff * x <= 0x7fff_ffff_ffff_ffff * 0xffff_ffff_ffff_ffff)
                by (nonlinear_arith)
                requires
                    x <= 0xffff_ffff_ffff_ffff,
            ;
            assert(-0x8000_0000_0000_0000 * x >= -0x8000_0000_0000_0000 * 0xffff_ffff_ffff_ffff)
                by (nonlinear_arith)
                requires
                    0 <= x <= 0xffff_ffff_ffff_ffff,
            ;
            if group_all_null(vals, before) && vals[idx@[x as int] as int] is Null {
                assert forall|i: int| 0 <= i < after.len() implies vals[
                #[trigger] after[i] as int] is Null by {
                    if i < x {
                        assert(before[i] == after[i]);
                    }
                }
            }
            if !group_all_null(vals, before) {
                let i = choose|i: int|
                    0 <= i < before.len() && !(vals[#[trigger] before[i] as int] is Null);
                assert(after[i] == before[i]);
            }
            if !(vals[idx@[x as int] as int] is Null) {
                assert(after[x as int] == idx@[x as int]);
            }
        }
        let cell = &values[idx[x]];
        if !cell.is_null() {
            all_null = false;
        }
        match crate::ops::fill::cell_int(cell) {
            Some(v) => {
                sum = sum + v as i128;
            },
            None => {},
        }
        x += 1;
    }
    assert(idx@.take(x as int) =~= idx@);
    proof {
        lemma_group_sum_bounds(vals, idx@);
        assert(0x7fff_ffff_ffff_ffff * x <= 0x7fff_ffff_ffff_ffff * 0xffff_ffff_ffff_ffff)
            by (nonlinear_arith)
            requires
                x <= 0xffff_ffff_ffff_ffff,
        ;
        assert(-0x8000_0000_0000_0000 * x >= -0x8000_0000_0000_0000 * 0xffff_ffff_ffff_ffff)
            by (nonlinear_arith)
            requires
                0 <= x <= 0xffff_ffff_ffff_ffff,
        ;
    }
    if all_null {
        None
    } else {
        Some((sum, idx.len()))
    }
}

} // verus!
