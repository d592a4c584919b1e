//! Sorting columns.

use crate::datatypes::{unit_index, AnyType};
use crate::ops::order::{before, float_key, float_key32, i64_of, u64_of, value_lt, wide};
use std::cmp::Ordering;
use vstd::prelude::*;

verus! {

/// `str`'s `cmp`: texts are ordered character by character from the front,
/// by code point, as the documentation of `str` says.  Not proved.
#[verifier::external_body]
pub(crate) fn compare_text(a: &String, b: &String) -> (r: Ordering)
    ensures
        match r {
            Ordering::Less => crate::ops::order::text_lt(a@, b@),
            Ordering::Greater => crate::ops::order::text_lt(b@, a@),
            Ordering::Equal => a@ == b@,
        },
{
    a.as_str().cmp(b.as_str())
}

/// The place of a kind of cell among the kinds.
fn rank_of(cell: &AnyType) -> (r: u8)
    ensures
        r == crate::ops::order::kind_rank(cell@),
{
    match cell {
        AnyType::Null => 0,
        AnyType::Boolean(_) => 1,
        AnyType::UInt32(_) => 2,
        AnyType::Int32(_) => 3,
        AnyType::Int64(_) => 4,
        AnyType::Float64(_) => 5,
        AnyType::Utf8(_) => 6,
        AnyType::Date32(_) => 7,
        AnyType::Date64(_) => 8,
        AnyType::Time64Nanosecond(_) => 9,
        AnyType::List(_) => 10,
        AnyType::Float32(_) => 11,
        AnyType::Duration(_, _) => 12,
        AnyType::TimeStamp(_, _) => 13,
        AnyType::IntervalDayTime(_) => 14,
        AnyType::IntervalYearMonth(_) => 15,
    }
}

/// How two unsigned numbers stand to one another.
fn order_u64(x: u64, y: u64) -> (r: Ordering)
    ensures
        match r {
            Ordering::Less => x < y,
            Ordering::Greater => x > y,
            Ordering::Equal => x == y,
        },
{
    if x < y {
        Ordering::Less
    } else if x > y {
        Ordering::Greater
    } else {
        Ordering::Equal
    }
}

/// How two signed numbers stand to one another.
fn order_i64(x: i64, y: i64) -> (r: Ordering)
    ensures
        match r {
            Ordering::Less => x < y,
            Ordering::Greater => x > y,
            Ordering::Equal => x == y,
        },
{
    if x < y {
        Ordering::Less
    } else if x > y {
        Ordering::Greater
    } else {
        Ordering::Equal
    }
}

/// How two cells stand to one another in the order of values: a null comes
/// before every value.  Lists count as equal.
pub fn sort_partial(a: &AnyType, b: &AnyType) -> (r: Ordering)
    ensures
        match r {
            Ordering::Less => value_lt(a@, b@),
            Ordering::Greater => value_lt(b@, a@),
            Ordering::Equal => a@ == b@ || (a@ is List && b@ is List),
        },
{
    match (a, b) {
        (AnyType::Boolean(x), AnyType::Boolean(y)) => {
            if !*x && *y {
                Ordering::Less
            } else if *x && !*y {
                Ordering::Greater
            } else {
                Ordering::Equal
            }
        },
        (AnyType::UInt32(x), AnyType::UInt32(y)) => order_u64(u64_of(*x), u64_of(*y)),
        (AnyType::Int32(x), AnyType::Int32(y)) => order_i64(i64_of(*x), i64_of(*y)),
        (AnyType::Int64(x), AnyType::Int64(y)) => order_i64(*x, *y),
        (AnyType::Float64(x), AnyType::Float64(y)) => order_u64(float_key(*x), float_key(*y)),
        (AnyType::Utf8(x), AnyType::Utf8(y)) => compare_text(x, y),
        (AnyType::Date32(x), AnyType::Date32(y)) => order_i64(i64_of(*x), i64_of(*y)),
        (AnyType::Date64(x), AnyType::Date64(y)) => order_i64(*x, *y),
        (AnyType::Time64Nanosecond(x), AnyType::Time64Nanosecond(y)) => order_i64(*x, *y),
        (AnyType::Float32(x), AnyType::Float32(y)) => order_u64(float_key32(*x), float_key32(*y)),
        (AnyType::Duration(x, u), AnyType::Duration(y, v)) => {
            if *u == *v {
                order_i64(*x, *y)
            } else {
                order_u64(wide(unit_index(*u)), wide(unit_index(*v)))
            }
        },
        (AnyType::TimeStamp(x, u), AnyType::TimeStamp(y, v)) => {
            if *u == *v {
                order_i64(*x, *y)
            } else {
                order_u64(wide(unit_index(*u)), wide(unit_index(*v)))
            }
        },
        (AnyType::IntervalDayTime(x), AnyType::IntervalDayTime(y)) => order_i64(*x, *y),
        (AnyType::IntervalYearMonth(x), AnyType::IntervalYearMonth(y)) => order_i64(
            i64_of(*x),
            i64_of(*y),
        ),
        _ => {
            let r = order_u64(wide(rank_of(a)), wide(rank_of(b)));
            r
        },
    }
}

/// How two cells stand to one another in a sort that may run from large to
/// small.
pub fn sort_partial_by(a: &AnyType, b: &AnyType, reverse: bool) -> (r: Ordering)
    ensures
        match r {
            Ordering::Less => before(a@, b@, reverse),
            Ordering::Greater => before(b@, a@, reverse),
            Ordering::Equal => a@ == b@ || (a@ is List && b@ is List),
        },
{
    if reverse {
        sort_partial(b, a)
    } else {
        sort_partial(a, b)
    }
}

/// Whether cell `a` comes before cell `b` in the order of values.
pub fn cell_lt(a: &AnyType, b: &AnyType) -> (r: bool)
    ensures
        r == value_lt(a@, b@),
{
    proof {
        crate::ops::order::lemma_value_lt_order(a@, b@, a@);
    }
    match sort_partial(a, b) {
        Ordering::Less => true,
        _ => false,
    }
}

} // verus!
