use polars::datatypes::{AnyType, DataType};
use polars::error::PolarsError;
use polars::ops::argsort::ChunkSort;
use polars::ops::fill::{
    ChunkAgg, ChunkAggSeries, ChunkExpandAtIndex, ChunkFillNone, ChunkFull, FillNoneStrategy,
};
use polars::ops::shape::{ChunkFilter, ChunkReverse, ChunkShift, ChunkZip};
use polars::series::Series;
use polars::unique::{ChunkUnique, Unique};

fn opt_i32(name: &str, v: &[Option<i32>]) -> Series {
    let cells = v
        .iter()
        .map(|o| match o {
            Some(x) => AnyType::Int32(*x),
            None => AnyType::Null,
        })
        .collect();
    Series::new(name, DataType::Int32, cells).unwrap()
}

fn as_opt_i32(s: &Series) -> Vec<Option<i32>> {
    s.values()
        .iter()
        .map(|c| match c {
            AnyType::Int32(x) => Some(*x),
            AnyType::Null => None,
            other => panic!("not an i32: {:?}", other),
        })
        .collect()
}

fn as_opt_bool(s: &Series) -> Vec<Option<bool>> {
    s.values()
        .iter()
        .map(|c| match c {
            AnyType::Boolean(x) => Some(*x),
            AnyType::Null => None,
            other => panic!("not a bool: {:?}", other),
        })
        .collect()
}

#[test]
fn test_fill_none() {
    let ca = opt_i32("", &[None, Some(2), Some(3), None, Some(4), None]);
    let filled = ca.fill_none(FillNoneStrategy::Forward).unwrap();
    assert_eq!(
        as_opt_i32(&filled),
        &[None, Some(2), Some(3), Some(3), Some(4), Some(4)]
    );
    let filled = ca.fill_none(FillNoneStrategy::Backward).unwrap();
    assert_eq!(
        as_opt_i32(&filled),
        &[Some(2), Some(2), Some(3), Some(4), Some(4), None]
    );
    let filled = ca.fill_none(FillNoneStrategy::Min).unwrap();
    assert_eq!(
        as_opt_i32(&filled),
        &[Some(2), Some(2), Some(3), Some(2), Some(4), Some(2)]
    );
    let filled = ca.fill_none_with_value(AnyType::Int32(10)).unwrap();
    assert_eq!(
        as_opt_i32(&filled),
        &[Some(10), Some(2), Some(3), Some(10), Some(4), Some(10)]
    );
    let filled = ca.fill_none(FillNoneStrategy::Mean).unwrap();
    assert_eq!(
        as_opt_i32(&filled),
        &[Some(3), Some(2), Some(3), Some(3), Some(4), Some(3)]
    );
    println!("{:?}", as_opt_i32(&filled));
}

#[test]
fn unique() {
    let ca = opt_i32("a", &[Some(1), Some(2), Some(3), Some(2), Some(1)]);
    assert_eq!(
        as_opt_i32(&ChunkUnique::unique(&ca)),
        vec![Some(1), Some(2), Some(3)]
    );
    let cells = vec![
        AnyType::Boolean(true),
        AnyType::Boolean(false),
        AnyType::Boolean(true),
    ];
    let ca = Series::new("a", DataType::Boolean, cells).unwrap();
    assert_eq!(
        as_opt_bool(&ChunkUnique::unique(&ca)),
        vec![Some(true), Some(false)]
    );
}

#[test]
fn fill_none_max_and_refusals() {
    let ca = opt_i32("", &[None, Some(-2), Some(7), None]);
    let filled = ca.fill_none(FillNoneStrategy::Max).unwrap();
    assert_eq!(as_opt_i32(&filled), &[Some(7), Some(-2), Some(7), Some(7)]);
    assert_eq!(
        ca.fill_none_with_value(AnyType::Int64(1)).err(),
        Some(PolarsError::DataTypeMisMatch)
    );
    let text = Series::new(
        "t",
        DataType::Utf8,
        vec![AnyType::Null, AnyType::Utf8("a".to_string())],
    )
    .unwrap();
    assert_eq!(
        text.fill_none(FillNoneStrategy::Min).err(),
        Some(PolarsError::InvalidOperation)
    );
    let back = text.fill_none(FillNoneStrategy::Backward).unwrap();
    assert_eq!(
        back.values(),
        &vec![AnyType::Utf8("a".to_string()), AnyType::Utf8("a".to_string())]
    );
}

#[test]
fn mean_rounds_towards_zero() {
    let ca = opt_i32("", &[Some(-3), Some(-4), None]);
    assert_eq!(ca.mean(), AnyType::Int32(-3));
    assert_eq!(ca.column_mean(), AnyType::Int32(-3));
    assert_eq!(ca.sum(), AnyType::Int32(-7));
    assert_eq!(ca.min(), AnyType::Int32(-4));
    assert_eq!(ca.max(), AnyType::Int32(-3));
    assert_eq!(ca.sum_as_series().values(), &vec![AnyType::Int32(-7)]);
    assert_eq!(ca.min_as_series().values(), &vec![AnyType::Int32(-4)]);
    assert_eq!(ca.max_as_series().values(), &vec![AnyType::Int32(-3)]);
    assert_eq!(ca.mean_as_series().values(), &vec![AnyType::Int32(-3)]);
    assert_eq!(ca.mean_as_series().name(), "");
    let ca = opt_i32("", &[None, None]);
    assert_eq!(ca.mean(), AnyType::Null);
    assert_eq!(ca.sum(), AnyType::Null);
    let text = Series::new("t", DataType::Utf8, vec![AnyType::Utf8("a".to_string())]).unwrap();
    assert_eq!(text.max(), AnyType::Null);
    assert_eq!(text.mean_as_series().values(), &vec![AnyType::Null]);
}

#[test]
fn unique_of_cells_and_first_rows() {
    let cells = vec![
        AnyType::Utf8("b".to_string()),
        AnyType::Null,
        AnyType::Utf8("b".to_string()),
        AnyType::Null,
        AnyType::Utf8("a".to_string()),
    ];
    assert_eq!(
        Unique::unique(&cells),
        vec![
            AnyType::Utf8("b".to_string()),
            AnyType::Null,
            AnyType::Utf8("a".to_string())
        ]
    );
    let s = Series::new("s", DataType::Utf8, cells).unwrap();
    assert_eq!(s.arg_unique(), vec![0, 1, 4]);
    assert_eq!(s.n_unique(), 3);
}

#[test]
fn full_columns() {
    let s = Series::full("x", AnyType::Int64(5), 3);
    assert_eq!(s.dtype(), DataType::Int64);
    assert_eq!(
        s.values(),
        &vec![AnyType::Int64(5), AnyType::Int64(5), AnyType::Int64(5)]
    );
    let n = Series::full_null("n", 2);
    assert_eq!(n.null_count(), 2);
}

fn i32_col(name: &str, v: &[Option<i32>]) -> Series {
    opt_i32(name, v)
}

fn bools(name: &str, v: &[Option<bool>]) -> Series {
    let cells = v
        .iter()
        .map(|o| match o {
            Some(x) => AnyType::Boolean(*x),
            None => AnyType::Null,
        })
        .collect();
    Series::new(name, DataType::Boolean, cells).unwrap()
}

fn texts(name: &str, v: &[Option<&str>]) -> Series {
    let cells = v
        .iter()
        .map(|o| match o {
            Some(x) => AnyType::Utf8(x.to_string()),
            None => AnyType::Null,
        })
        .collect();
    Series::new(name, DataType::Utf8, cells).unwrap()
}

fn as_opt_text(s: &Series) -> Vec<Option<String>> {
    s.values()
        .iter()
        .map(|c| match c {
            AnyType::Utf8(x) => Some(x.clone()),
            AnyType::Null => None,
            other => panic!("not text: {:?}", other),
        })
        .collect()
}

#[test]
fn test_shift() {
    let ca = i32_col("", &[Some(1), Some(2), Some(3)]);
    let shifted = ca.shift(1, &Some(AnyType::Int32(0))).unwrap();
    assert_eq!(as_opt_i32(&shifted), &[Some(0), Some(1), Some(2)]);
    assert_eq!(shifted.null_count(), 0);
    let shifted = ca.shift(1, &None).unwrap();
    assert_eq!(as_opt_i32(&shifted), &[None, Some(1), Some(2)]);
    let shifted = ca.shift(-1, &None).unwrap();
    assert_eq!(as_opt_i32(&shifted), &[Some(2), Some(3), None]);
    assert!(ca.shift(3, &None).is_err());

    let s = texts("a", &[Some("a"), Some("b"), Some("c")]);
    let shifted = s.shift(-1, &None).unwrap();
    assert_eq!(
        as_opt_text(&shifted),
        &[Some("b".to_string()), Some("c".to_string()), None]
    );
}

#[test]
fn shift_refusals() {
    let ca = i32_col("", &[Some(1), Some(2), Some(3)]);
    assert_eq!(ca.shift(-3, &None).err(), Some(PolarsError::OutOfBounds));
    assert_eq!(ca.shift(i32::MIN, &None).err(), Some(PolarsError::OutOfBounds));
    assert_eq!(
        ca.shift(1, &Some(AnyType::Boolean(true))).err(),
        Some(PolarsError::DataTypeMisMatch)
    );
    let empty = i32_col("", &[]);
    assert_eq!(empty.shift(0, &None).err(), Some(PolarsError::OutOfBounds));
    assert_eq!(as_opt_i32(&ca.shift(0, &None).unwrap()), &[Some(1), Some(2), Some(3)]);
    assert_eq!(as_opt_i32(&ca.shift(-2, &Some(AnyType::Int32(9))).unwrap()), &[Some(3), Some(9), Some(9)]);
}

#[test]
fn reverse_and_filter() {
    let ca = i32_col("a", &[Some(1), None, Some(3)]);
    assert_eq!(as_opt_i32(&ca.reverse()), &[Some(3), None, Some(1)]);
    let mask = bools("m", &[Some(true), None, Some(true)]);
    assert_eq!(as_opt_i32(&ca.filter(&mask).unwrap()), &[Some(1), Some(3)]);
    let mask = bools("m", &[Some(false), Some(true), Some(false)]);
    assert_eq!(as_opt_i32(&ca.filter(&mask).unwrap()), &[None]);
    let short = bools("m", &[Some(true)]);
    assert_eq!(ca.filter(&short).err(), Some(PolarsError::ShapeMisMatch));
    assert_eq!(ca.filter(&ca).err(), Some(PolarsError::DataTypeMisMatch));
}

#[test]
fn zip_with_mask() {
    let a = i32_col("a", &[Some(1), Some(2), Some(3)]);
    let b = i32_col("b", &[Some(10), None, Some(30)]);
    let mask = bools("m", &[Some(true), Some(false), Some(false)]);
    let z = a.zip_with(&mask, &b).unwrap();
    assert_eq!(as_opt_i32(&z), &[Some(1), None, Some(30)]);
    assert_eq!(z.name(), "a");
    let one = i32_col("o", &[Some(7)]);
    assert_eq!(as_opt_i32(&a.zip_with(&mask, &one).unwrap()), &[Some(1), Some(7), Some(7)]);
    assert_eq!(as_opt_i32(&one.zip_with(&mask, &b).unwrap()), &[Some(7), None, Some(30)]);
    assert_eq!(as_opt_i32(&one.zip_with(&mask, &one).unwrap()), &[Some(7), Some(7), Some(7)]);
    let two = i32_col("t", &[Some(7), Some(8)]);
    assert_eq!(a.zip_with(&mask, &two).err(), Some(PolarsError::ShapeMisMatch));
    let holes = bools("m", &[Some(true), None, Some(false)]);
    assert_eq!(a.zip_with(&holes, &b).err(), Some(PolarsError::HasNullValues));
    assert_eq!(a.zip_with(&mask, &mask).err(), Some(PolarsError::DataTypeMisMatch));
}

#[test]
fn sort_and_argsort() {
    let ca = i32_col("a", &[Some(3), None, Some(-1), Some(3), Some(0)]);
    assert_eq!(as_opt_i32(&ca.sort(false)), &[None, Some(-1), Some(0), Some(3), Some(3)]);
    assert_eq!(as_opt_i32(&ca.sort(true)), &[Some(3), Some(3), Some(0), Some(-1), None]);
    assert_eq!(ca.argsort(false), vec![1, 2, 4, 0, 3]);
    assert_eq!(ca.argsort(true), vec![0, 3, 4, 2, 1]);
    let mut t = texts("t", &[Some("b"), Some("ab"), None, Some("a"), Some("")]);
    t.sort_in_place(false);
    assert_eq!(
        as_opt_text(&t),
        &[
            None,
            Some("".to_string()),
            Some("a".to_string()),
            Some("ab".to_string()),
            Some("b".to_string())
        ]
    );
    let b = bools("b", &[Some(true), Some(false), None]);
    assert_eq!(as_opt_bool(&b.sort(false)), &[None, Some(false), Some(true)]);
}

#[test]
fn expand_at_index() {
    let ca = i32_col("a", &[Some(3), None]);
    assert_eq!(as_opt_i32(&ca.expand_at_index(0, 3)), &[Some(3), Some(3), Some(3)]);
    assert_eq!(as_opt_i32(&ca.expand_at_index(1, 2)), &[None, None]);
    assert_eq!(as_opt_i32(&ca.expand_at_index(5, 1)), &[None]);
}

fn f64_col(v: &[f64]) -> Series {
    let cells = v.iter().map(|x| AnyType::Float64(x.to_bits())).collect();
    Series::new("f", DataType::Float64, cells).unwrap()
}

fn as_f64(s: &Series) -> Vec<f64> {
    s.values()
        .iter()
        .map(|c| match c {
            AnyType::Float64(bits) => f64::from_bits(*bits),
            other => panic!("not a float: {:?}", other),
        })
        .collect()
}

#[test]
fn floats_sort_by_size() {
    let v = [
        3.5,
        -1.0,
        0.0,
        f64::INFINITY,
        -0.0,
        -7.25,
        1e-300,
        f64::NEG_INFINITY,
        -1e-300,
        2.0,
    ];
    let sorted = as_f64(&f64_col(&v).sort(false));
    let mut expected = v.to_vec();
    expected.sort_by(|a, b| a.total_cmp(b));
    assert_eq!(
        sorted.iter().map(|x| x.to_bits()).collect::<Vec<u64>>(),
        expected.iter().map(|x| x.to_bits()).collect::<Vec<u64>>()
    );
    assert!(sorted.windows(2).all(|w| w[0] <= w[1]));
    assert_eq!(sorted[0], f64::NEG_INFINITY);
    assert_eq!(sorted[1], -7.25);
    let reversed = as_f64(&f64_col(&v).sort(true));
    assert!(reversed.windows(2).all(|w| w[0] >= w[1]));
    assert_eq!(f64_col(&[2.0, -3.0, 1.0]).argsort(false), vec![1, 2, 0]);
    // what is not a number stands at the ends, as its sign says
    let with_nan = as_f64(&f64_col(&[1.0, f64::NAN, -1.0, -f64::NAN]).sort(false));
    assert!(with_nan[0].is_nan() && with_nan[3].is_nan());
    assert_eq!(with_nan[1..3], [-1.0, 1.0]);
}
