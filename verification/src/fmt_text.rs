//! Numbers, dates and times as text.
//!
//! Nothing in this file is proved: each function hands a value to the
//! formatting of the standard library or of `chrono` and states what comes
//! back.

use vstd::prelude::*;

verus! {

/// The character of a digit.
pub open spec fn digit_char(d: int) -> char {
    if d == 0 {
        '0'
    } else if d == 1 {
        '1'
    } else if d == 2 {
        '2'
    } else if d == 3 {
        '3'
    } else if d == 4 {
        '4'
    } else if d == 5 {
        '5'
    } else if d == 6 {
        '6'
    } else if d == 7 {
        '7'
    } else if d == 8 {
        '8'
    } else {
        '9'
    }
}

/// The decimal digits of a number, without leading zeros.
pub open spec fn digits(n: nat) -> Seq<char>
    decreases n,
{
    if n < 10 {
        seq![digit_char(n as int)]
    } else {
        digits(n / 10).push(digit_char((n % 10) as int))
    }
}

/// An integer in decimal, with a minus sign where it is negative.
pub open spec fn int_text(v: int) -> Seq<char> {
    if v < 0 {
        seq!['-'] + digits((-v) as nat)
    } else {
        digits(v as nat)
    }
}

/// An integer in scientific notation, as the standard library writes it
/// for `{:e}`.
pub uninterp spec fn exp_text(v: i64) -> Seq<char>;

/// The date that lies `days` days behind the first of January 1970, as
/// `chrono` writes it; nothing where `chrono` has no such date.
pub uninterp spec fn date_text(days: i32) -> Option<Seq<char>>;

/// The date of the moment that lies `millis` milliseconds behind the
/// beginning of 1970, as `chrono` writes it; nothing where `chrono` has no
/// such moment.
pub uninterp spec fn millis_date_text(millis: i64) -> Option<Seq<char>>;

/// The time of day that lies `secs` seconds and `nano` nanoseconds behind
/// midnight, as `chrono` writes it; nothing where that is no time of day.
pub uninterp spec fn time_text(secs: u32, nano: u32) -> Option<Seq<char>>;

/// `i128`'s `to_string`: the number in decimal.
#[verifier::external_body]
pub(crate) fn format_int(v: i128) -> (r: String)
    ensures
        r@ == int_text(v as int),
{
    v.to_string()
}

/// `format!` with `{:e}` on an `i64`.
#[verifier::external_body]
pub(crate) fn format_exp(v: i64) -> (r: String)
    ensures
        r@ == exp_text(v),
{
    format!("{:e}", v)
}

/// `chrono::NaiveDate::from_epoch_days`, written out where it gives a
/// date.
#[verifier::external_body]
pub(crate) fn format_date32(days: i32) -> (r: Option<String>)
    ensures
        match r {
            Some(s) => date_text(days) == Some(s@),
            None => date_text(days) is None,
        },
{
    chrono::NaiveDate::from_epoch_days(days).map(|d| d.to_string())
}

/// `chrono::DateTime::from_timestamp_millis` and the date of what it
/// gives, written out where it gives a moment.
#[verifier::external_body]
pub(crate) fn format_date64(millis: i64) -> (r: Option<String>)
    ensures
        match r {
            Some(s) => millis_date_text(millis) == Some(s@),
            None => millis_date_text(millis) is None,
        },
{
    chrono::DateTime::from_timestamp_millis(millis).map(|d| d.date_naive().to_string())
}

/// `chrono::NaiveTime::from_num_seconds_from_midnight_opt`, written out
/// where it gives a time.
#[verifier::external_body]
pub(crate) fn format_time(secs: u32, nano: u32) -> (r: Option<String>)
    ensures
        match r {
            Some(s) => time_text(secs, nano) == Some(s@),
            None => time_text(secs, nano) is None,
        },
{
    chrono::NaiveTime::from_num_seconds_from_midnight_opt(secs, nano).map(|t| t.to_string())
}

/// A text in quotes, with what cannot stand in quotes written round, as
/// the standard library writes a text for `{:?}`.
pub uninterp spec fn quoted_text(s: Seq<char>) -> Seq<char>;

/// `format!` with `{:?}` on a text.
#[verifier::external_body]
pub(crate) fn format_quoted(s: &str) -> (r: String)
    ensures
        r@ == quoted_text(s@),
{
    format!("{:?}", s)
}

} // verus!
