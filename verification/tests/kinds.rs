use polars::arithmetic::ArithOp;
use polars::datatypes::{AnyType, DataType, TimeUnit};
use polars::error::PolarsError;
use polars::fmt::dtype_label;
use polars::frame::DataFrame;
use polars::ops::argsort::ChunkSort;
use polars::ops::fill::ChunkAgg;
use polars::series::Series;

fn f32_col(v: &[f32]) -> Series {
    let cells = v.iter().map(|x| AnyType::Float32(x.to_bits())).collect();
    Series::new("f", DataType::Float32, cells).unwrap()
}

fn as_f32(s: &Series) -> Vec<f32> {
    s.values()
        .iter()
        .map(|c| match c {
            AnyType::Float32(bits) => f32::from_bits(*bits),
            other => panic!("not a float: {:?}", other),
        })
        .collect()
}

fn spans(name: &str, unit: TimeUnit, v: &[Option<i64>]) -> Series {
    let cells = v
        .iter()
        .map(|x| match x {
            Some(n) => AnyType::Duration(*n, unit),
            None => AnyType::Null,
        })
        .collect();
    Series::new(name, DataType::Duration(unit), cells).unwrap()
}

fn span_numbers(s: &Series) -> Vec<Option<i64>> {
    s.values()
        .iter()
        .map(|c| match c {
            AnyType::Duration(n, _) => Some(*n),
            AnyType::Null => None,
            other => panic!("not a duration: {:?}", other),
        })
        .collect()
}

#[test]
fn short_floats_sort_by_size() {
    let v = [2.5f32, -1.0, 0.0, f32::INFINITY, -0.0, -8.0, f32::NEG_INFINITY, 1e-30];
    let sorted = as_f32(&f32_col(&v).sort(false));
    let mut expected = v.to_vec();
    expected.sort_by(|a, b| a.total_cmp(b));
    assert_eq!(
        sorted.iter().map(|x| x.to_bits()).collect::<Vec<u32>>(),
        expected.iter().map(|x| x.to_bits()).collect::<Vec<u32>>()
    );
    assert_eq!(sorted[0], f32::NEG_INFINITY);
    assert_eq!(sorted[7], f32::INFINITY);
}

#[test]
fn a_column_holds_cells_of_its_own_unit() {
    let cells = vec![AnyType::Duration(1, TimeUnit::Millisecond)];
    assert_eq!(
        Series::new("d", DataType::Duration(TimeUnit::Nanosecond), cells).err(),
        Some(PolarsError::DataTypeMisMatch)
    );
    let cells = vec![AnyType::TimeStamp(1, TimeUnit::Second), AnyType::Null];
    let s = Series::new("t", DataType::Timestamp(TimeUnit::Second), cells).unwrap();
    assert_eq!(s.dtype(), DataType::Timestamp(TimeUnit::Second));
    assert_eq!(s.null_count(), 1);
    let cells = vec![AnyType::Float32(0)];
    assert_eq!(
        Series::new("f", DataType::Float64, cells).err(),
        Some(PolarsError::DataTypeMisMatch)
    );
}

#[test]
fn durations_sort_and_aggregate() {
    let d = spans("d", TimeUnit::Millisecond, &[Some(30), None, Some(-4), Some(7)]);
    assert_eq!(span_numbers(&d.sort(false)), vec![None, Some(-4), Some(7), Some(30)]);
    assert_eq!(d.sum(), AnyType::Duration(33, TimeUnit::Millisecond));
    assert_eq!(d.min(), AnyType::Duration(-4, TimeUnit::Millisecond));
    assert_eq!(d.max(), AnyType::Duration(30, TimeUnit::Millisecond));
    let months = Series::new(
        "m",
        DataType::IntervalYearMonth,
        vec![AnyType::IntervalYearMonth(14), AnyType::IntervalYearMonth(-2)],
    )
    .unwrap();
    assert_eq!(months.sum(), AnyType::IntervalYearMonth(12));
    assert_eq!(months.min(), AnyType::IntervalYearMonth(-2));
}

#[test]
fn arithmetic_on_durations() {
    let a = spans("a", TimeUnit::Nanosecond, &[Some(10), None, Some(3)]);
    let b = spans("b", TimeUnit::Nanosecond, &[Some(4), Some(1), Some(3)]);
    let diff = a.arithmetic(ArithOp::Sub, &b).unwrap();
    assert_eq!(span_numbers(&diff), vec![Some(6), None, Some(0)]);
    assert_eq!(diff.dtype(), DataType::Duration(TimeUnit::Nanosecond));
    let coarse = spans("c", TimeUnit::Second, &[Some(1), Some(2), Some(3)]);
    assert_eq!(
        coarse.arithmetic(ArithOp::Add, &coarse).err(),
        Some(PolarsError::InvalidOperation)
    );
    let stamps = Series::new(
        "t",
        DataType::Timestamp(TimeUnit::Nanosecond),
        vec![AnyType::TimeStamp(5, TimeUnit::Nanosecond)],
    )
    .unwrap();
    assert_eq!(
        stamps.arithmetic(ArithOp::Add, &stamps).err(),
        Some(PolarsError::InvalidOperation)
    );
}

#[test]
fn join_on_timestamps() {
    let unit = TimeUnit::Microsecond;
    let stamp = |v: &[i64]| -> Vec<AnyType> { v.iter().map(|x| AnyType::TimeStamp(*x, unit)).collect() };
    let ints = |v: &[i64]| -> Vec<AnyType> { v.iter().map(|x| AnyType::Int64(*x)).collect() };
    let left = DataFrame::new(vec![
        Series::new("at", DataType::Timestamp(unit), stamp(&[100, 200, 100, 300])).unwrap(),
        Series::new("l", DataType::Int64, ints(&[1, 2, 3, 4])).unwrap(),
    ])
    .unwrap();
    let right = DataFrame::new(vec![
        Series::new("at", DataType::Timestamp(unit), stamp(&[100, 300, 400])).unwrap(),
        Series::new("r", DataType::Int64, ints(&[10, 30, 40])).unwrap(),
    ])
    .unwrap();
    let joined = left.inner_join(&right, "at", "at", None).unwrap();
    assert_eq!(joined.shape(), (3, 3));
    let mut pairs: Vec<(AnyType, AnyType)> = joined
        .column("l")
        .unwrap()
        .values()
        .iter()
        .cloned()
        .zip(joined.column("r").unwrap().values().iter().cloned())
        .collect();
    pairs.sort_by_key(|p| match p.0 {
        AnyType::Int64(x) => x,
        _ => 0,
    });
    assert_eq!(
        pairs,
        vec![
            (AnyType::Int64(1), AnyType::Int64(10)),
            (AnyType::Int64(3), AnyType::Int64(10)),
            (AnyType::Int64(4), AnyType::Int64(30)),
        ]
    );
    let other_unit = DataFrame::new(vec![Series::new(
        "at",
        DataType::Timestamp(TimeUnit::Second),
        vec![AnyType::TimeStamp(100, TimeUnit::Second)],
    )
    .unwrap()])
    .unwrap();
    assert_eq!(
        left.inner_join(&other_unit, "at", "at", None).err(),
        Some(PolarsError::DataTypeMisMatch)
    );
}

#[test]
fn names_of_the_element_types() {
    assert_eq!(dtype_label(DataType::Float32), "f32");
    assert_eq!(dtype_label(DataType::Duration(TimeUnit::Nanosecond)), "duration(ns)");
    assert_eq!(dtype_label(DataType::Duration(TimeUnit::Microsecond)), "duration(μs)");
    assert_eq!(dtype_label(DataType::Duration(TimeUnit::Millisecond)), "duration(ms)");
    assert_eq!(dtype_label(DataType::Duration(TimeUnit::Second)), "duration(s)");
    assert_eq!(dtype_label(DataType::Timestamp(TimeUnit::Second)), "timestamp(s)");
    assert_eq!(dtype_label(DataType::IntervalDayTime), "interval(daytime)");
    assert_eq!(dtype_label(DataType::IntervalYearMonth), "interval(year-month)");
    assert_eq!(AnyType::Duration(-12, TimeUnit::Second).fmt(), "-12");
    assert_eq!(AnyType::TimeStamp(1_600_000_000, TimeUnit::Second).fmt(), "1600000000");
    assert_eq!(AnyType::IntervalYearMonth(7).fmt(), "7");
}
