//! Columns and cells as text.

use crate::datatypes::{values_view, AnyType, DataType, TimeUnit, Value};
use crate::fmt_text::{
    date_text, exp_text, format_date32, format_date64, format_exp, format_int, format_time,
    int_text, millis_date_text, time_text,
};
use crate::series::{Series, SeriesView};
use vstd::prelude::*;
use vstd::string::{StrSliceExecFns, StringExecFns};

verus! {

/// How many rows of a column are written out.
pub const LIMIT: usize = 10;

/// A signed integer as it is shown: in decimal up to 9999, in scientific
/// notation above.
pub open spec fn shown_int(v: i64) -> Seq<char> {
    if v > 9999 {
        exp_text(v)
    } else {
        int_text(v as int)
    }
}

/// A time of day as it is shown, from nanoseconds since midnight: the time
/// as `chrono` writes it, or the number where it is no time of day.
pub open spec fn shown_time(v: i64) -> Seq<char> {
    if 0 <= v && v / 1_000_000_000 <= u32::MAX {
        match time_text((v / 1_000_000_000) as u32, (v % 1_000_000_000) as u32) {
            Some(t) => t,
            None => int_text(v as int),
        }
    } else {
        int_text(v as int)
    }
}

/// The numbers of a list, with a comma and a blank between them.
pub open spec fn list_items(l: Seq<i64>) -> Seq<char>
    decreases l.len(),
{
    if l.len() == 0 {
        Seq::empty()
    } else if l.len() == 1 {
        int_text(l[0] as int)
    } else {
        list_items(l.drop_last()) + ", "@ + int_text(l.last() as int)
    }
}

/// A cell as it is shown.  Text stands in quotes.  A float is shown by its
/// bit pattern, as a number.  A date that `chrono` does not have is shown
/// as its number, and so are durations, timestamps and intervals.
pub open spec fn cell_text(v: Value) -> Seq<char> {
    match v {
        Value::Null => "null"@,
        Value::Boolean(b) => if b {
            "true"@
        } else {
            "false"@
        },
        Value::UInt32(x) => int_text(x as int),
        Value::Int32(x) => shown_int(x as i64),
        Value::Int64(x) => shown_int(x),
        Value::Float64(bits) => int_text(bits as int),
        Value::Utf8(s) => "\""@ + s + "\""@,
        Value::Date32(x) => match date_text(x) {
            Some(t) => t,
            None => int_text(x as int),
        },
        Value::Date64(x) => match millis_date_text(x) {
            Some(t) => t,
            None => int_text(x as int),
        },
        Value::Time64Nanosecond(x) => shown_time(x),
        Value::List(l) => "["@ + list_items(l) + "]"@,
        Value::Float32(bits) => int_text(bits as int),
        Value::Duration(x, _) => int_text(x as int),
        Value::TimeStamp(x, _) => int_text(x as int),
        Value::IntervalDayTime(x) => int_text(x as int),
        Value::IntervalYearMonth(x) => int_text(x as int),
    }
}

/// A cell as a row of a column shows it: as `cell_text`, but of a text only
/// its first characters.
pub open spec fn row_cell_text(v: Value) -> Seq<char> {
    match v {
        Value::Utf8(s) => "\""@ + s.take(if LIMIT <= s.len() { LIMIT as int } else { s.len() as int })
            + "\""@,
        _ => cell_text(v),
    }
}

/// The name under which a type is shown.
pub open spec fn type_text(dtype: DataType) -> Seq<char> {
    match dtype {
        DataType::Boolean => "bool"@,
        DataType::UInt32 => "u32"@,
        DataType::Int32 => "i32"@,
        DataType::Int64 => "i64"@,
        DataType::Float64 => "f64"@,
        DataType::Utf8 => "str "@,
        DataType::Date32 => "date32(day)"@,
        DataType::Date64 => "date64(ms)"@,
        DataType::Time64Nanosecond => "time64(ns)"@,
        DataType::List => "list"@,
        DataType::Float32 => "f32"@,
        DataType::Duration(u) => match u {
            TimeUnit::Second => "duration(s)"@,
            TimeUnit::Millisecond => "duration(ms)"@,
            TimeUnit::Microsecond => "duration(μs)"@,
            TimeUnit::Nanosecond => "duration(ns)"@,
        },
        DataType::Timestamp(u) => match u {
            TimeUnit::Second => "timestamp(s)"@,
            TimeUnit::Millisecond => "timestamp(ms)"@,
            TimeUnit::Microsecond => "timestamp(μs)"@,
            TimeUnit::Nanosecond => "timestamp(ns)"@,
        },
        DataType::IntervalDayTime => "interval(daytime)"@,
        DataType::IntervalYearMonth => "interval(year-month)"@,
    }
}

/// The rows of a column, each behind a tab and closed by a line feed.
pub open spec fn rows_text(values: Seq<Value>) -> Seq<char>
    decreases values.len(),
{
    if values.len() == 0 {
        Seq::empty()
    } else {
        rows_text(values.drop_last()) + "\t"@ + row_cell_text(values.last()) + "\n"@
    }
}

/// A column as it is shown: its type, then its first rows in brackets.
pub open spec fn series_text(s: SeriesView) -> Seq<char> {
    "Series: "@ + type_text(s.dtype) + "\n[\n"@ + rows_text(
        s.values.take(if LIMIT <= s.values.len() { LIMIT as int } else { s.values.len() as int }),
    ) + "]"@
}

/// The first `n` characters of a text, or all of it where it has fewer.
pub fn first_chars(s: &str, n: usize) -> (r: String)
    ensures
        r@ == s@.take(if n <= s@.len() { n as int } else { s@.len() as int }),
{
    let len = s.unicode_len();
    let m = if n <= len {
        n
    } else {
        len
    };
    let r = s.substring_char(0, m).to_owned();
    assert(s@.subrange(0, m as int) =~= s@.take(m as int));
    r
}

/// A signed integer as it is shown.
pub fn fmt_integer(v: i64) -> (r: String)
    ensures
        r@ == shown_int(v),
{
    if v > 9999 {
        format_exp(v)
    } else {
        format_int(v as i128)
    }
}

/// A time of day as it is shown, from nanoseconds since midnight.
pub fn fmt_time(v: i64) -> (r: String)
    ensures
        r@ == shown_time(v),
{
    if v >= 0 && v / 1_000_000_000 <= u32::MAX as i64 {
        match format_time((v / 1_000_000_000) as u32, (v % 1_000_000_000) as u32) {
            Some(t) => t,
            None => format_int(v as i128),
        }
    } else {
        format_int(v as i128)
    }
}

/// The numbers of a list as they are shown.
pub fn fmt_list(l: &Vec<i64>) -> (r: String)
    ensures
        r@ == "["@ + list_items(l@) + "]"@,
{
    let mut out = String::new();
    out.append("[");
    let mut i: usize = 0;
    assert(l@.take(0) =~= Seq::<i64>::empty());
    assert(out@ =~= "["@ + list_items(l@.take(0)));
    while i < l.len()
        invariant
            i <= l.len(),
            out@ == "["@ + list_items(l@.take(i as int)),
        decreases l.len() - i,
    {
        assert(l@.take(i as int + 1).drop_last() =~= l@.take(i as int));
        if i > 0 {
            out.append(", ");
        }
        let item = format_int(l[i] as i128);
        out.append(item.as_str());
        assert(out@ =~= "["@ + list_items(l@.take(i as int + 1)));
        i += 1;
    }
    assert(l@.take(i as int) =~= l@);
    out.append("]");
    out
}

impl AnyType {
    /// The cell as it is shown.
    pub fn fmt(&self) -> (r: String)
        ensures
            r@ == cell_text(self@),
    {
        match self {
            AnyType::Null => "null".to_owned(),
            AnyType::Boolean(b) => if *b {
                "true".to_owned()
            } else {
                "false".to_owned()
            },
            AnyType::UInt32(v) => format_int(*v as i128),
            AnyType::Int32(v) => fmt_integer(*v as i64),
            AnyType::Int64(v) => fmt_integer(*v),
            AnyType::Float64(bits) => format_int(*bits as i128),
            AnyType::Utf8(v) => {
                let mut out = String::new();
                out.append("\"");
                out.append(v.as_str());
                out.append("\"");
                assert(out@ =~= "\""@ + v@ + "\""@);
                out
            },
            AnyType::Date32(v) => match format_date32(*v) {
                Some(t) => t,
                None => format_int(*v as i128),
            },
            AnyType::Date64(v) => match format_date64(*v) {
                Some(t) => t,
                None => format_int(*v as i128),
            },
            AnyType::Time64Nanosecond(v) => fmt_time(*v),
            AnyType::List(l) => fmt_list(l),
            AnyType::Float32(bits) => format_int(*bits as i128),
            AnyType::Duration(v, _) => format_int(*v as i128),
            AnyType::TimeStamp(v, _) => format_int(*v as i128),
            AnyType::IntervalDayTime(v) => format_int(*v as i128),
            AnyType::IntervalYearMonth(v) => format_int(*v as i128),
        }
    }

    /// The cell as a row of a column shows it.
    pub fn fmt_row(&self) -> (r: String)
        ensures
            r@ == row_cell_text(self@),
    {
        match self {
            AnyType::Utf8(v) => {
                let short = first_chars(v.as_str(), LIMIT);
                let mut out = String::new();
                out.append("\"");
                out.append(short.as_str());
                out.append("\"");
                assert(out@ =~= row_cell_text(self@));
                out
            },
            other => other.fmt(),
        }
    }
}

/// The name under which a type is shown.
pub fn dtype_label(dtype: DataType) -> (r: &'static str)
    ensures
        r@ == type_text(dtype),
{
    match dtype {
        DataType::Boolean => "bool",
        DataType::UInt32 => "u32",
        DataType::Int32 => "i32",
        DataType::Int64 => "i64",
        DataType::Float64 => "f64",
        DataType::Utf8 => "str ",
        DataType::Date32 => "date32(day)",
        DataType::Date64 => "date64(ms)",
        DataType::Time64Nanosecond => "time64(ns)",
        DataType::List => "list",
        DataType::Float32 => "f32",
        DataType::Duration(u) => match u {
            TimeUnit::Second => "duration(s)",
            TimeUnit::Millisecond => "duration(ms)",
            TimeUnit::Microsecond => "duration(μs)",
            TimeUnit::Nanosecond => "duration(ns)",
        },
        DataType::Timestamp(u) => match u {
            TimeUnit::Second => "timestamp(s)",
            TimeUnit::Millisecond => "timestamp(ms)",
            TimeUnit::Microsecond => "timestamp(μs)",
            TimeUnit::Nanosecond => "timestamp(ns)",
        },
        DataType::IntervalDayTime => "interval(daytime)",
        DataType::IntervalYearMonth => "interval(year-month)",
    }
}

impl Series {
    /// The column as it is shown: its type and its first rows.
    pub fn fmt(&self) -> (r: String)
        ensures
            r@ == series_text(self@),
    {
        let values = self.values();
        let limit = if LIMIT <= values.len() {
            LIMIT
        } else {
            values.len()
        };
        let ghost shown = self@.values.take(limit as int);
        let mut out = String::new();
        out.append("Series: ");
        out.append(dtype_label(self.dtype()));
        out.append("\n[\n");
        let ghost head = out@;
        let mut i: usize = 0;
        assert(shown.take(0) =~= Seq::<Value>::empty());
        assert(out@ =~= head + rows_text(shown.take(0)));
        while i < limit
            invariant
                i <= limit <= values.len(),
                values_view(values@) == self@.values,
                shown == self@.values.take(limit as int),
                out@ == head + rows_text(shown.take(i as int)),
            decreases limit - i,
        {
            assert(shown.take(i as int + 1).drop_last() =~= shown.take(i as int));
            assert(shown.take(i as int + 1).last() == self@.values[i as int]);
            let cell = values[i].fmt_row();
            out.append("\t");
            out.append(cell.as_str());
            out.append("\n");
            assert(out@ =~= head + rows_text(shown.take(i as int + 1)));
            i += 1;
        }
        assert(shown.take(i as int) =~= shown);
        out.append("]");
        assert(head =~= "Series: "@ + type_text(self@.dtype) + "\n[\n"@);
        assert(out@ =~= series_text(self@));
        out
    }
}

} // verus!
