//! Dates and times as the plain numbers that the columns hold: days,
//! seconds, or parts of a second since the epoch or since midnight.

use vstd::prelude::*;

verus! {

/// A point in time, held as the number it was given as.
pub struct DateTime<T: Copy>(pub T);

impl<T: Copy> DateTime<T> {
    /// The number of the date.
    pub fn date(&self) -> (r: T)
        ensures
            r == self.0,
    {
        self.0
    }
}

/// Days since the epoch, as a date.
pub fn date32_as_datetime(v: i32) -> (r: DateTime<i32>)
    ensures
        r.0 == v,
{
    DateTime(v)
}

/// Milliseconds since the epoch, as a date.
pub fn date64_as_datetime(v: i64) -> (r: DateTime<i64>)
    ensures
        r.0 == v,
{
    DateTime(v)
}

/// Milliseconds since midnight.
pub fn time32_millisecond_as_time(v: i32) -> (r: i32)
    ensures
        r == v,
{
    v
}

/// Seconds since midnight.
pub fn time32_second_as_time(v: i32) -> (r: i32)
    ensures
        r == v,
{
    v
}

/// Nanoseconds since midnight.
pub fn time64_nanosecond_as_time(v: i64) -> (r: i64)
    ensures
        r == v,
{
    v
}

/// Microseconds since midnight.
pub fn time64_microsecond_as_time(v: i64) -> (r: i64)
    ensures
        r == v,
{
    v
}

/// Nanoseconds since the epoch.
pub fn timestamp_nanoseconds_as_datetime(v: i64) -> (r: i64)
    ensures
        r == v,
{
    v
}

/// Microseconds since the epoch.
pub fn timestamp_microseconds_as_datetime(v: i64) -> (r: i64)
    ensures
        r == v,
{
    v
}

/// Milliseconds since the epoch.
pub fn timestamp_milliseconds_as_datetime(v: i64) -> (r: i64)
    ensures
        r == v,
{
    v
}

/// Seconds since the epoch.
pub fn timestamp_seconds_as_datetime(v: i64) -> (r: i64)
    ensures
        r == v,
{
    v
}

} // verus!
