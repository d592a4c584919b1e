//! The order of the values of a column.

use crate::datatypes::{unit_rank, Value};
use vstd::prelude::*;

verus! {

/// Whether text `a` comes before text `b`: character by character from the
/// front, by code point; a text comes behind its beginnings.
pub open spec fn text_lt(a: Seq<char>, b: Seq<char>) -> bool
    decreases a.len(),
{
    if b.len() == 0 {
        false
    } else if a.len() == 0 {
        true
    } else if a[0] != b[0] {
        (a[0] as int) < (b[0] as int)
    } else {
        text_lt(a.subrange(1, a.len() as int), b.subrange(1, b.len() as int))
    }
}

/// The place of a float among the floats, from its bit pattern: the larger
/// the float, the larger its place.  Floats below zero have the sign bit
/// set and grow as their other bits shrink; the others grow with their
/// bits.  Minus zero comes before zero, and what is not a number comes
/// before or behind all numbers, as its sign says.
pub open spec fn float_rank(bits: u64) -> int {
    if bits >= 0x8000_0000_0000_0000 {
        0xffff_ffff_ffff_ffff - bits
    } else {
        bits + 0x8000_0000_0000_0000
    }
}

/// The place of a 32-bit float among the 32-bit floats, as `float_rank`
/// gives it for floats of 64 bits.
pub open spec fn float_rank32(bits: u32) -> int {
    if bits >= 0x8000_0000 {
        0xffff_ffff - bits
    } else {
        bits + 0x8000_0000
    }
}

/// The place of a kind of value among the kinds; null comes first.
pub open spec fn kind_rank(v: Value) -> int {
    match v {
        Value::Null => 0,
        Value::Boolean(_) => 1,
        Value::UInt32(_) => 2,
        Value::Int32(_) => 3,
        Value::Int64(_) => 4,
        Value::Float64(_) => 5,
        Value::Utf8(_) => 6,
        Value::Date32(_) => 7,
        Value::Date64(_) => 8,
        Value::Time64Nanosecond(_) => 9,
        Value::List(_) => 10,
        Value::Float32(_) => 11,
        Value::Duration(_, _) => 12,
        Value::TimeStamp(_, _) => 13,
        Value::IntervalDayTime(_) => 14,
        Value::IntervalYearMonth(_) => 15,
    }
}

/// Whether value `a` comes before value `b`.  Null comes before all else;
/// `false` before `true`; numbers, dates and times by size; texts as
/// `text_lt` says; floats by size, as `float_rank` says; durations and
/// timestamps by their number, which are of one unit in a column.  No list
/// comes before another.
/// Values of different kinds, which no column holds together, are ordered
/// by kind.
pub open spec fn value_lt(a: Value, b: Value) -> bool {
    match (a, b) {
        (Value::Boolean(x), Value::Boolean(y)) => !x && y,
        (Value::UInt32(x), Value::UInt32(y)) => x < y,
        (Value::Int32(x), Value::Int32(y)) => x < y,
        (Value::Int64(x), Value::Int64(y)) => x < y,
        (Value::Float64(x), Value::Float64(y)) => float_rank(x) < float_rank(y),
        (Value::Utf8(x), Value::Utf8(y)) => text_lt(x, y),
        (Value::Date32(x), Value::Date32(y)) => x < y,
        (Value::Date64(x), Value::Date64(y)) => x < y,
        (Value::Time64Nanosecond(x), Value::Time64Nanosecond(y)) => x < y,
        (Value::Float32(x), Value::Float32(y)) => float_rank32(x) < float_rank32(y),
        (Value::Duration(x, u), Value::Duration(y, v)) => if u == v {
            x < y
        } else {
            unit_rank(u) < unit_rank(v)
        },
        (Value::TimeStamp(x, u), Value::TimeStamp(y, v)) => if u == v {
            x < y
        } else {
            unit_rank(u) < unit_rank(v)
        },
        (Value::IntervalDayTime(x), Value::IntervalDayTime(y)) => x < y,
        (Value::IntervalYearMonth(x), Value::IntervalYearMonth(y)) => x < y,
        _ => kind_rank(a) < kind_rank(b),
    }
}

/// Whether `a` comes before `b` in a sort, which may run from large to
/// small.
pub open spec fn before(a: Value, b: Value, reverse: bool) -> bool {
    if reverse {
        value_lt(b, a)
    } else {
        value_lt(a, b)
    }
}

/// No text comes before itself.
pub proof fn lemma_text_lt_irreflexive(a: Seq<char>)
    ensures
        !text_lt(a, a),
    decreases a.len(),
{
    if a.len() > 0 {
        lemma_text_lt_irreflexive(a.subrange(1, a.len() as int));
    }
}

/// Of two texts that differ, one comes before the other, and not both.
pub proof fn lemma_text_lt_total(a: Seq<char>, b: Seq<char>)
    ensures
        a != b ==> (text_lt(a, b) || text_lt(b, a)),
        !(text_lt(a, b) && text_lt(b, a)),
    decreases a.len(),
{
    if a.len() > 0 && b.len() > 0 {
        let ta = a.subrange(1, a.len() as int);
        let tb = b.subrange(1, b.len() as int);
        lemma_text_lt_total(ta, tb);
        if a[0] == b[0] && ta == tb {
            assert forall|i: int| 0 <= i < a.len() implies a[i] == b[i] by {
                if i > 0 {
                    assert(a[i] == ta[i - 1]);
                    assert(b[i] == tb[i - 1]);
                }
            }
            assert(a.len() == ta.len() + 1 && b.len() == tb.len() + 1);
            assert(a =~= b);
        }
    } else if a.len() == 0 && b.len() == 0 {
        assert(a =~= b);
    }
}

/// The order of texts carries over: what comes before a text comes before
/// all that the text comes before.
pub proof fn lemma_text_lt_transitive(a: Seq<char>, b: Seq<char>, c: Seq<char>)
    requires
        text_lt(a, b),
        text_lt(b, c),
    ensures
        text_lt(a, c),
    decreases a.len(),
{
    if a.len() > 0 {
        if a[0] == b[0] && b[0] == c[0] {
            lemma_text_lt_transitive(
                a.subrange(1, a.len() as int),
                b.subrange(1, b.len() as int),
                c.subrange(1, c.len() as int),
            );
        }
    }
}

/// The order of values is a strict order, and total but for lists: no
/// value comes before itself, of two different values that are not both
/// lists one comes before the other, and the order carries over.
pub proof fn lemma_value_lt_order(a: Value, b: Value, c: Value)
    ensures
        !value_lt(a, a),
        a != b && !(a is List && b is List) ==> (value_lt(a, b) || value_lt(b, a)),
        !(value_lt(a, b) && value_lt(b, a)),
        value_lt(a, b) && value_lt(b, c) ==> value_lt(a, c),
{
    match (a, b) {
        (Value::Utf8(x), Value::Utf8(y)) => {
            lemma_text_lt_total(x, y);
            lemma_text_lt_irreflexive(x);
            match c {
                Value::Utf8(z) => {
                    if text_lt(x, y) && text_lt(y, z) {
                        lemma_text_lt_transitive(x, y, z);
                    }
                },
                _ => {},
            }
        },
        (Value::Utf8(x), _) => {
            lemma_text_lt_irreflexive(x);
        },
        _ => {},
    }
}

/// The place of a float among the floats.
pub fn float_key(bits: u64) -> (r: u64)
    ensures
        r == float_rank(bits),
{
    if bits >= 0x8000_0000_0000_0000 {
        0xffff_ffff_ffff_ffff - bits
    } else {
        bits + 0x8000_0000_0000_0000
    }
}

/// The place of a 32-bit float among the 32-bit floats.
pub fn float_key32(bits: u32) -> (r: u64)
    ensures
        r == float_rank32(bits),
{
    if bits >= 0x8000_0000 {
        (0xffff_ffff - bits) as u64
    } else {
        bits as u64 + 0x8000_0000
    }
}

/// The same number in 64 bits.
pub fn u64_of(x: u32) -> (r: u64)
    ensures
        r == x,
{
    x as u64
}

/// The same number in 64 bits.
pub fn i64_of(x: i32) -> (r: i64)
    ensures
        r == x,
{
    x as i64
}

/// The same number in 64 bits.
pub fn wide(x: u8) -> (r: u64)
    ensures
        r == x,
{
    x as u64
}

} // verus!
