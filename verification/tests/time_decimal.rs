use chrono::{NaiveDate, NaiveDateTime, NaiveTime};
use polars::decimal::{DecimalType, DecimalValue, Int128Chunked};
use polars::error::PolarsError;
use polars::time::{groupby, Bounds, Duration, Window};

#[test]
fn test_group_tuples() {
    let dt = &[
        NaiveDateTime::new(
            NaiveDate::from_ymd_opt(2001, 1, 1).unwrap(),
            NaiveTime::from_hms_opt(1, 0, 0).unwrap(),
        ),
        NaiveDateTime::new(
            NaiveDate::from_ymd_opt(2001, 1, 1).unwrap(),
            NaiveTime::from_hms_opt(1, 0, 15).unwrap(),
        ),
        NaiveDateTime::new(
            NaiveDate::from_ymd_opt(2001, 1, 1).unwrap(),
            NaiveTime::from_hms_opt(1, 0, 30).unwrap(),
        ),
        NaiveDateTime::new(
            NaiveDate::from_ymd_opt(2001, 1, 1).unwrap(),
            NaiveTime::from_hms_opt(1, 0, 45).unwrap(),
        ),
        NaiveDateTime::new(
            NaiveDate::from_ymd_opt(2001, 1, 1).unwrap(),
            NaiveTime::from_hms_opt(1, 1, 0).unwrap(),
        ),
        NaiveDateTime::new(
            NaiveDate::from_ymd_opt(2001, 1, 1).unwrap(),
            NaiveTime::from_hms_opt(1, 1, 15).unwrap(),
        ),
        NaiveDateTime::new(
            NaiveDate::from_ymd_opt(2001, 1, 1).unwrap(),
            NaiveTime::from_hms_opt(1, 1, 30).unwrap(),
        ),
    ];

    let ts = dt
        .iter()
        .map(|dt| dt.and_utc().timestamp_nanos_opt().unwrap())
        .collect::<Vec<_>>();
    let window = Window::new(
        Duration::from_seconds(30),
        Duration::from_seconds(30),
        Duration::from_seconds(0),
    )
    .unwrap();
    let gt = groupby(window, &ts);

    let expected = &[[0, 1, 2], [2, 3, 4], [4, 5, 6]];
    assert_eq!(gt, expected);
}

#[test]
fn windows_before_the_epoch_and_past_the_end() {
    let window = Window::new(
        Duration::from_nanoseconds(10),
        Duration::from_nanoseconds(10),
        Duration::from_nanoseconds(0),
    )
    .unwrap();
    // the first window starts at -10; the last window, from 20 to 30, holds no time, so
    // the number of rows stands for the row that it did not find
    let gt = groupby(window, &[-7, -1, 3, 12, 30]);
    assert_eq!(gt, vec![vec![0, 1, 2], vec![2, 3], vec![3, 4], vec![5]]);
    let gt = groupby(window, &[5, 6, 9]);
    assert_eq!(gt, vec![vec![0, 1, 2, 3]]);
    let none: Vec<Vec<u32>> = vec![];
    assert_eq!(groupby(window, &[]), none);
    assert!(Window::new(
        Duration::from_nanoseconds(0),
        Duration::from_nanoseconds(10),
        Duration::from_nanoseconds(0)
    )
    .is_none());
    assert_eq!(Duration::from_seconds(i64::MAX).duration(), i64::MAX);
    assert_eq!(Duration::from_seconds(2).duration(), 2_000_000_000);
    assert!(Bounds::new(1, 3).is_member(1));
    assert!(!Bounds::new(1, 3).is_member(3));
    assert_eq!(Bounds::from_times(&[4, 9, 7]), Bounds::new(4, 7));
}

#[test]
fn decimals_keep_to_their_precision() {
    let ca = Int128Chunked::new("d", vec![Some(999), None, Some(-999)]);
    let dec = ca.into_decimal(Some(3), 2).unwrap();
    assert_eq!(dec.precision(), Some(3));
    assert_eq!(dec.scale(), 2);
    assert_eq!(dec.get_any_value(0), Ok(DecimalValue::Decimal(999, 2)));
    assert_eq!(dec.get_any_value(1), Ok(DecimalValue::Null));
    assert_eq!(dec.get_any_value(3), Err(PolarsError::OutOfBounds));

    let ca = Int128Chunked::new("d", vec![Some(1000)]);
    assert!(matches!(ca.into_decimal(Some(3), 2), Err(PolarsError::ComputeError)));
    let ca = Int128Chunked::new("d", vec![Some(-1000)]);
    assert!(matches!(ca.into_decimal(Some(3), 0), Err(PolarsError::ComputeError)));
    let ca = Int128Chunked::new("d", vec![Some(i128::MIN), Some(i128::MAX)]);
    assert!(ca.into_decimal(Some(39), 0).is_ok());
    let ca = Int128Chunked::new("d", vec![Some(i128::MAX)]);
    assert!(matches!(ca.into_decimal(Some(38), 0), Err(PolarsError::ComputeError)));
    let ca = Int128Chunked::new("d", vec![Some(0)]);
    assert!(matches!(ca.into_decimal(Some(0), 0), Ok(_)));
    let ca = Int128Chunked::new("d", vec![Some(1)]);
    assert!(matches!(ca.into_decimal(Some(0), 0), Err(PolarsError::ComputeError)));
    let ca = Int128Chunked::new("d", vec![Some(i128::MAX)]);
    assert!(ca.into_decimal(None, 5).is_ok());
}

#[test]
fn decimal_casts_only_widen() {
    let dec = Int128Chunked::new("d", vec![Some(12)]).into_decimal_unchecked(Some(5), 2);
    let wide = dec
        .cast(&DecimalType { precision: Some(7), scale: Some(2) })
        .unwrap();
    assert_eq!(wide.precision(), Some(7));
    assert_eq!(wide.get_any_value(0), Ok(DecimalValue::Decimal(12, 2)));
    assert!(dec.cast(&DecimalType { precision: None, scale: Some(2) }).is_ok());
    assert!(matches!(
        dec.cast(&DecimalType { precision: Some(4), scale: Some(2) }),
        Err(PolarsError::InvalidOperation)
    ));
    assert!(matches!(
        dec.cast(&DecimalType { precision: Some(7), scale: Some(3) }),
        Err(PolarsError::InvalidOperation)
    ));
    assert!(matches!(
        dec.cast(&DecimalType { precision: Some(7), scale: None }),
        Err(PolarsError::ComputeError)
    ));
    let open = Int128Chunked::new("d", vec![Some(12)]).into_decimal_unchecked(None, 2);
    assert!(matches!(
        open.cast(&DecimalType { precision: Some(7), scale: Some(2) }),
        Err(PolarsError::InvalidOperation)
    ));
}
