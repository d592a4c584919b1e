use polars::datatypes::{AnyType, DataType};
use polars::error::PolarsError;
use polars::frame::DataFrame;
use polars::series::Series;

fn column(name: &str, dtype: DataType, cells: Vec<AnyType>) -> Series {
    Series::new(name, dtype, cells).unwrap()
}

#[test]
fn temporal() {
    let s = column(
        "date32",
        DataType::Date32,
        vec![AnyType::Date32(1), AnyType::Null, AnyType::Date32(3)],
    );
    assert_eq!(
        r#"Series: date32(day)
[
	1970-01-02
	null
	1970-01-04
]"#,
        s.fmt()
    );

    let s = column(
        "",
        DataType::Date64,
        vec![
            AnyType::Date64(1),
            AnyType::Null,
            AnyType::Date64(1000_000_000_000),
        ],
    );
    assert_eq!(
        r#"Series: date64(ms)
[
	1970-01-01
	null
	2001-09-09
]"#,
        s.fmt()
    );
    let s = column(
        "",
        DataType::Time64Nanosecond,
        vec![
            AnyType::Time64Nanosecond(1_000_000),
            AnyType::Time64Nanosecond(37_800_005_000_000),
            AnyType::Time64Nanosecond(86_399_210_000_000),
        ],
    );
    assert_eq!(
        r#"Series: time64(ns)
[
	00:00:00.001
	10:30:00.005
	23:59:59.210
]"#,
        s.fmt()
    );
}

#[test]
fn cells_as_text() {
    assert_eq!(AnyType::Null.fmt(), "null");
    assert_eq!(AnyType::Boolean(true).fmt(), "true");
    assert_eq!(AnyType::Boolean(false).fmt(), "false");
    assert_eq!(AnyType::UInt32(4_000_000_000).fmt(), "4000000000");
    assert_eq!(AnyType::Int32(-17).fmt(), "-17");
    assert_eq!(AnyType::Int32(0).fmt(), "0");
    assert_eq!(AnyType::Int64(9999).fmt(), "9999");
    assert_eq!(AnyType::Int64(10000).fmt(), "1e4");
    assert_eq!(AnyType::Int64(12345).fmt(), "1.2345e4");
    assert_eq!(AnyType::Int64(i64::MIN).fmt(), "-9223372036854775808");
    assert_eq!(AnyType::Utf8("a long text it is".to_string()).fmt(), "\"a long text it is\"");
    assert_eq!(AnyType::Float64(1.5f64.to_bits()).fmt(), "4609434218613702656");
    assert_eq!(AnyType::List(vec![]).fmt(), "[]");
    assert_eq!(AnyType::List(vec![3]).fmt(), "[3]");
    assert_eq!(AnyType::List(vec![3, -4, 5]).fmt(), "[3, -4, 5]");
}

#[test]
fn dates_and_times_out_of_range_are_numbers() {
    assert_eq!(AnyType::Date32(0).fmt(), "1970-01-01");
    assert_eq!(AnyType::Date32(-1).fmt(), "1969-12-31");
    assert_eq!(AnyType::Date32(i32::MAX).fmt(), "2147483647");
    assert_eq!(AnyType::Date64(-1).fmt(), "1969-12-31");
    assert_eq!(AnyType::Date64(i64::MAX).fmt(), "9223372036854775807");
    assert_eq!(AnyType::Time64Nanosecond(0).fmt(), "00:00:00");
    assert_eq!(AnyType::Time64Nanosecond(-5).fmt(), "-5");
    assert_eq!(
        AnyType::Time64Nanosecond(86_400_000_000_000).fmt(),
        "86400000000000"
    );
}

#[test]
fn columns_show_ten_rows_and_short_texts() {
    let cells = (0..12).map(|i| AnyType::Int32(i * 1000)).collect();
    let s = column("n", DataType::Int32, cells);
    assert_eq!(
        s.fmt(),
        "Series: i32\n[\n\t0\n\t1000\n\t2000\n\t3000\n\t4000\n\t5000\n\t6000\n\t7000\n\t8000\n\t9000\n]"
    );
    let s = column(
        "t",
        DataType::Utf8,
        vec![
            AnyType::Utf8("twelve chars".to_string()),
            AnyType::Null,
            AnyType::Utf8("äöüäöüäöüäöü".to_string()),
        ],
    );
    assert_eq!(
        s.fmt(),
        "Series: str \n[\n\t\"twelve cha\"\n\tnull\n\t\"äöüäöüäöüä\"\n]"
    );
    let s = Series::empty("e", DataType::Boolean);
    assert_eq!(s.fmt(), "Series: bool\n[\n]");
}

fn f64s(name: &str, v: &[f64]) -> Series {
    let cells = v.iter().map(|x| AnyType::Float64(x.to_bits())).collect();
    Series::new(name, DataType::Float64, cells).unwrap()
}

fn as_f64(m: Vec<Vec<AnyType>>) -> Vec<Vec<f64>> {
    m.into_iter()
        .map(|row| {
            row.into_iter()
                .map(|c| match c {
                    AnyType::Float64(bits) => f64::from_bits(bits),
                    other => panic!("not a float: {:?}", other),
                })
                .collect()
        })
        .collect()
}

#[test]
fn test_ndarray_from_df() {
    let df = DataFrame::new(vec![f64s("a", &[1.0, 2.0, 3.0]), f64s("b", &[2.0, 3.0, 4.0])]).unwrap();

    let ndarr = df.to_ndarray(DataType::Float64).unwrap();
    let expected = vec![vec![1.0, 2.0], vec![2.0, 3.0], vec![3.0, 4.0]];
    assert_eq!(as_f64(ndarr), expected);
}

#[test]
fn matrices_of_integers_and_refusals() {
    let a = column("a", DataType::UInt32, vec![AnyType::UInt32(1), AnyType::UInt32(2)]);
    let b = column("b", DataType::Int32, vec![AnyType::Int32(-1), AnyType::Int32(7)]);
    let df = DataFrame::new(vec![a, b]).unwrap();
    assert_eq!(
        df.to_ndarray(DataType::Int64).unwrap(),
        vec![
            vec![AnyType::Int64(1), AnyType::Int64(-1)],
            vec![AnyType::Int64(2), AnyType::Int64(7)]
        ]
    );
    // -1 is no unsigned number
    assert_eq!(df.to_ndarray(DataType::UInt32).err(), Some(PolarsError::ComputeError));
    assert_eq!(df.to_ndarray(DataType::Float64).err(), Some(PolarsError::InvalidOperation));
    let holes = column("h", DataType::Int32, vec![AnyType::Null, AnyType::Int32(7)]);
    let df = DataFrame::new(vec![holes]).unwrap();
    assert_eq!(df.to_ndarray(DataType::Int32).err(), Some(PolarsError::HasNullValues));
    let none: Vec<Vec<AnyType>> = vec![];
    assert_eq!(DataFrame::new(vec![]).unwrap().to_ndarray(DataType::Int32).unwrap(), none);

    let lists = column(
        "l",
        DataType::List,
        vec![AnyType::List(vec![1, 2, 3]), AnyType::List(vec![2, 4, 5])],
    );
    assert_eq!(lists.list_to_ndarray().unwrap(), vec![vec![1, 2, 3], vec![2, 4, 5]]);
    let ragged = column(
        "l",
        DataType::List,
        vec![AnyType::List(vec![1, 2, 3]), AnyType::List(vec![2])],
    );
    assert_eq!(ragged.list_to_ndarray().err(), Some(PolarsError::ShapeMisMatch));
    let empty = Series::empty("l", DataType::List);
    assert_eq!(empty.list_to_ndarray().err(), Some(PolarsError::NoData));
    let holes = column("l", DataType::List, vec![AnyType::Null]);
    assert_eq!(holes.list_to_ndarray().err(), Some(PolarsError::HasNullValues));
    let numbers = column("n", DataType::Int32, vec![AnyType::Int32(1)]);
    assert_eq!(numbers.list_to_ndarray().err(), Some(PolarsError::DataTypeMisMatch));
    assert_eq!(numbers.to_ndarray().unwrap(), &vec![AnyType::Int32(1)]);
    let holes = column("h", DataType::Int32, vec![AnyType::Null]);
    assert_eq!(holes.to_ndarray().err(), Some(PolarsError::NoSlice));
}

fn float_list(v: &[f64]) -> AnyType {
    AnyType::List(v.iter().map(|x| x.to_bits() as i64).collect())
}

fn floats_of(rows: Vec<Vec<i64>>) -> Vec<Vec<f64>> {
    rows.into_iter()
        .map(|row| row.into_iter().map(|b| f64::from_bits(b as u64)).collect())
        .collect()
}

#[test]
fn test_ndarray_from_ca() {
    let ca = f64s("", &[1.0, 2.0, 3.0]);
    let ndarr = ca.to_ndarray().unwrap();
    let view: Vec<f64> = ndarr
        .iter()
        .map(|c| match c {
            AnyType::Float64(bits) => f64::from_bits(*bits),
            other => panic!("not a float: {:?}", other),
        })
        .collect();
    assert_eq!(view, vec![1.0, 2.0, 3.0]);

    let list = column(
        "",
        DataType::List,
        vec![
            float_list(&[1.0, 2.0, 3.0]),
            float_list(&[2.0, 4.0, 5.0]),
            float_list(&[6.0, 7.0, 8.0]),
        ],
    );

    let ndarr = list.list_to_ndarray().unwrap();
    let expected = vec![vec![1.0, 2.0, 3.0], vec![2.0, 4.0, 5.0], vec![6.0, 7.0, 8.0]];
    assert_eq!(floats_of(ndarr), expected);

    // test list array that is not square
    let list = column(
        "",
        DataType::List,
        vec![
            float_list(&[1.0, 2.0, 3.0]),
            float_list(&[2.0]),
            float_list(&[6.0, 7.0, 8.0]),
        ],
    );
    assert!(list.list_to_ndarray().is_err());
}
