//! Element types, scalar values and their mathematical models.

use vstd::prelude::*;

verus! {

/// The unit in which a duration or a timestamp counts.
#[derive(Clone, Copy, Debug, PartialEq, Eq, Structural)]
pub enum TimeUnit {
    Second,
    Millisecond,
    Microsecond,
    Nanosecond,
}

/// The element type of a column.
#[derive(Clone, Copy, Debug, PartialEq, Eq, Structural)]
pub enum DataType {
    Boolean,
    UInt32,
    Int32,
    Int64,
    /// 64-bit floats, held and compared by their bit pattern.
    Float64,
    Utf8,
    /// Days since the epoch.
    Date32,
    /// Milliseconds since the epoch.
    Date64,
    /// Nanoseconds since midnight.
    Time64Nanosecond,
    /// Lists of 64-bit integers.
    List,
    /// 32-bit floats, held and compared by their bit pattern.
    Float32,
    /// Spans of time, counted in a unit.
    Duration(TimeUnit),
    /// Moments, counted in a unit since the epoch.
    Timestamp(TimeUnit),
    /// Spans of days and milliseconds, packed into one number.
    IntervalDayTime,
    /// Spans of months.
    IntervalYearMonth,
}

/// One cell of a column.
#[derive(Clone, Debug, PartialEq, Eq)]
pub enum AnyType {
    Null,
    Boolean(bool),
    UInt32(u32),
    Int32(i32),
    Int64(i64),
    /// The bit pattern of a 64-bit float.
    Float64(u64),
    Utf8(String),
    Date32(i32),
    Date64(i64),
    Time64Nanosecond(i64),
    List(Vec<i64>),
    /// The bit pattern of a 32-bit float.
    Float32(u32),
    Duration(i64, TimeUnit),
    TimeStamp(i64, TimeUnit),
    IntervalDayTime(i64),
    IntervalYearMonth(i32),
}

/// The mathematical value of a cell: as `AnyType`, with text as a sequence
/// of characters.
pub enum Value {
    Null,
    Boolean(bool),
    UInt32(u32),
    Int32(i32),
    Int64(i64),
    Float64(u64),
    Utf8(Seq<char>),
    Date32(i32),
    Date64(i64),
    Time64Nanosecond(i64),
    List(Seq<i64>),
    Float32(u32),
    Duration(i64, TimeUnit),
    TimeStamp(i64, TimeUnit),
    IntervalDayTime(i64),
    IntervalYearMonth(i32),
}

impl View for AnyType {
    type V = Value;

    open spec fn view(&self) -> Value {
        match self {
            AnyType::Null => Value::Null,
            AnyType::Boolean(v) => Value::Boolean(*v),
            AnyType::UInt32(v) => Value::UInt32(*v),
            AnyType::Int32(v) => Value::Int32(*v),
            AnyType::Int64(v) => Value::Int64(*v),
            AnyType::Float64(v) => Value::Float64(*v),
            AnyType::Utf8(v) => Value::Utf8(v@),
            AnyType::Date32(v) => Value::Date32(*v),
            AnyType::Date64(v) => Value::Date64(*v),
            AnyType::Time64Nanosecond(v) => Value::Time64Nanosecond(*v),
            AnyType::List(v) => Value::List(v@),
            AnyType::Float32(v) => Value::Float32(*v),
            AnyType::Duration(v, u) => Value::Duration(*v, *u),
            AnyType::TimeStamp(v, u) => Value::TimeStamp(*v, *u),
            AnyType::IntervalDayTime(v) => Value::IntervalDayTime(*v),
            AnyType::IntervalYearMonth(v) => Value::IntervalYearMonth(*v),
        }
    }
}

/// The place of a unit among the units, from the longest to the shortest.
pub open spec fn unit_rank(u: TimeUnit) -> int {
    match u {
        TimeUnit::Second => 0,
        TimeUnit::Millisecond => 1,
        TimeUnit::Microsecond => 2,
        TimeUnit::Nanosecond => 3,
    }
}

/// The place of a unit among the units.
pub fn unit_index(u: TimeUnit) -> (r: u8)
    ensures
        r == unit_rank(u),
{
    match u {
        TimeUnit::Second => 0,
        TimeUnit::Millisecond => 1,
        TimeUnit::Microsecond => 2,
        TimeUnit::Nanosecond => 3,
    }
}

impl Value {
    /// The element type of a value; `None` for null, which fits every column.
    pub open spec fn dtype(self) -> Option<DataType> {
        match self {
            Value::Null => None,
            Value::Boolean(_) => Some(DataType::Boolean),
            Value::UInt32(_) => Some(DataType::UInt32),
            Value::Int32(_) => Some(DataType::Int32),
            Value::Int64(_) => Some(DataType::Int64),
            Value::Float64(_) => Some(DataType::Float64),
            Value::Utf8(_) => Some(DataType::Utf8),
            Value::Date32(_) => Some(DataType::Date32),
            Value::Date64(_) => Some(DataType::Date64),
            Value::Time64Nanosecond(_) => Some(DataType::Time64Nanosecond),
            Value::List(_) => Some(DataType::List),
            Value::Float32(_) => Some(DataType::Float32),
            Value::Duration(_, u) => Some(DataType::Duration(u)),
            Value::TimeStamp(_, u) => Some(DataType::Timestamp(u)),
            Value::IntervalDayTime(_) => Some(DataType::IntervalDayTime),
            Value::IntervalYearMonth(_) => Some(DataType::IntervalYearMonth),
        }
    }

    /// Whether a value may stand in a column of element type `dtype`.
    pub open spec fn fits(self, dtype: DataType) -> bool {
        self.dtype() is None || self.dtype() == Some(dtype)
    }

    /// The number held by an integer-like value (booleans and text have none).
    pub open spec fn as_int(self) -> Option<int> {
        match self {
            Value::UInt32(v) => Some(v as int),
            Value::Int32(v) => Some(v as int),
            Value::Int64(v) => Some(v as int),
            Value::Date32(v) => Some(v as int),
            Value::Date64(v) => Some(v as int),
            Value::Time64Nanosecond(v) => Some(v as int),
            Value::Duration(v, _) => Some(v as int),
            Value::TimeStamp(v, _) => Some(v as int),
            Value::IntervalDayTime(v) => Some(v as int),
            Value::IntervalYearMonth(v) => Some(v as int),
            _ => None,
        }
    }
}

/// Every value of `values` may stand in a column of element type `dtype`.
pub open spec fn all_fit(values: Seq<Value>, dtype: DataType) -> bool {
    forall|i: int| 0 <= i < values.len() ==> (#[trigger] values[i]).fits(dtype)
}

/// The values of a vector of cells.
pub open spec fn values_view(values: Seq<AnyType>) -> Seq<Value> {
    Seq::new(values.len(), |i: int| values[i]@)
}

/// The number of nulls among `values`.
pub open spec fn count_nulls(values: Seq<Value>) -> nat
    decreases values.len(),
{
    if values.len() == 0 {
        0
    } else {
        count_nulls(values.drop_last()) + if values.last() is Null {
            1nat
        } else {
            0nat
        }
    }
}

impl AnyType {
    /// The element type of this cell, `None` for null.
    pub fn dtype(&self) -> (r: Option<DataType>)
        ensures
            r == self@.dtype(),
    {
        match self {
            AnyType::Null => None,
            AnyType::Boolean(_) => Some(DataType::Boolean),
            AnyType::UInt32(_) => Some(DataType::UInt32),
            AnyType::Int32(_) => Some(DataType::Int32),
            AnyType::Int64(_) => Some(DataType::Int64),
            AnyType::Float64(_) => Some(DataType::Float64),
            AnyType::Utf8(_) => Some(DataType::Utf8),
            AnyType::Date32(_) => Some(DataType::Date32),
            AnyType::Date64(_) => Some(DataType::Date64),
            AnyType::Time64Nanosecond(_) => Some(DataType::Time64Nanosecond),
            AnyType::List(_) => Some(DataType::List),
            AnyType::Float32(_) => Some(DataType::Float32),
            AnyType::Duration(_, u) => Some(DataType::Duration(*u)),
            AnyType::TimeStamp(_, u) => Some(DataType::Timestamp(*u)),
            AnyType::IntervalDayTime(_) => Some(DataType::IntervalDayTime),
            AnyType::IntervalYearMonth(_) => Some(DataType::IntervalYearMonth),
        }
    }

    pub fn is_null(&self) -> (r: bool)
        ensures
            r == (self@ is Null),
    {
        match self {
            AnyType::Null => true,
            _ => false,
        }
    }

    /// Whether this cell may stand in a column of element type `dtype`.
    pub fn fits(&self, dtype: DataType) -> (r: bool)
        ensures
            r == self@.fits(dtype),
    {
        match self.dtype() {
            None => true,
            Some(d) => d == dtype,
        }
    }

    /// A copy of this cell.
    pub fn duplicate(&self) -> (r: AnyType)
        ensures
            r@ == self@,
    {
        match self {
            AnyType::Null => AnyType::Null,
            AnyType::Boolean(v) => AnyType::Boolean(*v),
            AnyType::UInt32(v) => AnyType::UInt32(*v),
            AnyType::Int32(v) => AnyType::Int32(*v),
            AnyType::Int64(v) => AnyType::Int64(*v),
            AnyType::Float64(v) => AnyType::Float64(*v),
            AnyType::Utf8(v) => AnyType::Utf8(v.clone()),
            AnyType::Date32(v) => AnyType::Date32(*v),
            AnyType::Date64(v) => AnyType::Date64(*v),
            AnyType::Time64Nanosecond(v) => AnyType::Time64Nanosecond(*v),
            AnyType::List(v) => AnyType::List(copy_list(v)),
            AnyType::Float32(v) => AnyType::Float32(*v),
            AnyType::Duration(v, u) => AnyType::Duration(*v, *u),
            AnyType::TimeStamp(v, u) => AnyType::TimeStamp(*v, *u),
            AnyType::IntervalDayTime(v) => AnyType::IntervalDayTime(*v),
            AnyType::IntervalYearMonth(v) => AnyType::IntervalYearMonth(*v),
        }
    }

    /// Whether two cells hold the same value; null equals only null, floats
    /// are equal when their bits are.
    pub fn same(&self, other: &AnyType) -> (r: bool)
        ensures
            r == (self@ == other@),
    {
        match (self, other) {
            (AnyType::Null, AnyType::Null) => true,
            (AnyType::Boolean(a), AnyType::Boolean(b)) => *a == *b,
            (AnyType::UInt32(a), AnyType::UInt32(b)) => *a == *b,
            (AnyType::Int32(a), AnyType::Int32(b)) => *a == *b,
            (AnyType::Int64(a), AnyType::Int64(b)) => *a == *b,
            (AnyType::Float64(a), AnyType::Float64(b)) => *a == *b,
            (AnyType::Utf8(a), AnyType::Utf8(b)) => *a == *b,
            (AnyType::Date32(a), AnyType::Date32(b)) => *a == *b,
            (AnyType::Date64(a), AnyType::Date64(b)) => *a == *b,
            (AnyType::Time64Nanosecond(a), AnyType::Time64Nanosecond(b)) => *a == *b,
            (AnyType::List(a), AnyType::List(b)) => same_list(a, b),
            (AnyType::Float32(a), AnyType::Float32(b)) => *a == *b,
            (AnyType::Duration(a, u), AnyType::Duration(b, v)) => *a == *b && *u == *v,
            (AnyType::TimeStamp(a, u), AnyType::TimeStamp(b, v)) => *a == *b && *u == *v,
            (AnyType::IntervalDayTime(a), AnyType::IntervalDayTime(b)) => *a == *b,
            (AnyType::IntervalYearMonth(a), AnyType::IntervalYearMonth(b)) => *a == *b,
            _ => false,
        }
    }
}

/// A copy of a list.
pub fn copy_list(v: &Vec<i64>) -> (r: Vec<i64>)
    ensures
        r@ == v@,
{
    let mut out: Vec<i64> = Vec::with_capacity(v.len());
    let mut i: usize = 0;
    while i < v.len()
        invariant
            i <= v.len(),
            out.len() == i,
            forall|j: int| 0 <= j < i ==> out[j] == v[j],
        decreases v.len() - i,
    {
        out.push(v[i]);
        i += 1;
    }
    assert(out@ =~= v@);
    out
}

/// Whether two lists hold the same numbers in the same order.
pub fn same_list(a: &Vec<i64>, b: &Vec<i64>) -> (r: bool)
    ensures
        r == (a@ == b@),
{
    if a.len() != b.len() {
        return false;
    }
    let mut i: usize = 0;
    while i < a.len()
        invariant
            i <= a.len(),
            a.len() == b.len(),
            forall|j: int| 0 <= j < i ==> a[j] == b[j],
        decreases a.len() - i,
    {
        if a[i] != b[i] {
            return false;
        }
        i += 1;
    }
    assert(a@ =~= b@);
    true
}

} // verus!
