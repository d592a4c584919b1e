use polars::datatypes::{AnyType, DataType};
use polars::error::PolarsError;
use polars::frame::DataFrame;
use polars::group_by::IntoGroupTuples;
use polars::series::Series;

fn i32s(name: &str, v: &[i32]) -> Series {
    Series::new(name, DataType::Int32, v.iter().map(|x| AnyType::Int32(*x)).collect()).unwrap()
}

fn opt_i32s(name: &str, v: &[Option<i32>]) -> Series {
    let cells = v
        .iter()
        .map(|o| match o {
            Some(x) => AnyType::Int32(*x),
            None => AnyType::Null,
        })
        .collect();
    Series::new(name, DataType::Int32, cells).unwrap()
}

fn f64s(name: &str, v: &[f64]) -> Series {
    let cells = v.iter().map(|x| AnyType::Float64(x.to_bits())).collect();
    Series::new(name, DataType::Float64, cells).unwrap()
}

fn strs(name: &str, v: &[&str]) -> Series {
    let cells = v.iter().map(|x| AnyType::Utf8(x.to_string())).collect();
    Series::new(name, DataType::Utf8, cells).unwrap()
}

fn pairs(df: &DataFrame, key: &str, agg: &str) -> Vec<(AnyType, AnyType)> {
    let k = df.column(key).unwrap().values().clone();
    let a = df.column(agg).unwrap().values().clone();
    let mut out: Vec<(AnyType, AnyType)> = k.into_iter().zip(a.into_iter()).collect();
    out.sort_by_key(|p| format!("{:?}", p.0));
    out
}

fn text(s: &str) -> AnyType {
    AnyType::Utf8(s.to_string())
}

#[test]
fn test_group_by() {
    let s0 = strs("days", ["mo", "mo", "tue", "wed", "tue"].as_ref());
    let s1 = i32s("temp", [20, 10, 7, 9, 1].as_ref());
    let s2 = f64s("rain", [0.2, 0.1, 0.3, 0.1, 0.01].as_ref());
    let df = DataFrame::new(vec![s0, s1, s2]).unwrap();

    let count = df.groupby("days").unwrap().select("temp").count().unwrap();
    println!("{:?}", pairs(&count, "days", "temp_count"));
    let sum = df.groupby("days").unwrap().select("temp").sum().unwrap();
    println!("{:?}", pairs(&sum, "days", "temp_sum"));
    let min = df.groupby("days").unwrap().select("temp").min().unwrap();
    println!("{:?}", pairs(&min, "days", "temp_min"));
    let max = df.groupby("days").unwrap().select("temp").max().unwrap();
    println!("{:?}", pairs(&max, "days", "temp_max"));

    assert_eq!(
        pairs(&count, "days", "temp_count"),
        vec![
            (text("mo"), AnyType::UInt32(2)),
            (text("tue"), AnyType::UInt32(2)),
            (text("wed"), AnyType::UInt32(1))
        ]
    );
    assert_eq!(
        pairs(&sum, "days", "temp_sum"),
        vec![
            (text("mo"), AnyType::Int32(30)),
            (text("tue"), AnyType::Int32(8)),
            (text("wed"), AnyType::Int32(9))
        ]
    );
    assert_eq!(
        pairs(&min, "days", "temp_min"),
        vec![
            (text("mo"), AnyType::Int32(10)),
            (text("tue"), AnyType::Int32(1)),
            (text("wed"), AnyType::Int32(9))
        ]
    );
    assert_eq!(
        pairs(&max, "days", "temp_max"),
        vec![
            (text("mo"), AnyType::Int32(20)),
            (text("tue"), AnyType::Int32(7)),
            (text("wed"), AnyType::Int32(9))
        ]
    );
}

#[test]
fn count_of_mo_mo_tue() {
    let df = DataFrame::new(vec![strs("day", &["mo", "mo", "tue"]), i32s("v", &[1, 2, 3])]).unwrap();
    let count = df.groupby("day").unwrap().select("v").count().unwrap();
    assert_eq!(
        pairs(&count, "day", "v_count"),
        vec![(text("mo"), AnyType::UInt32(2)), (text("tue"), AnyType::UInt32(1))]
    );
}

#[test]
fn groups_split_the_rows() {
    let s = opt_i32s(
        "k",
        &[Some(3), None, Some(1), Some(3), None, Some(1), Some(3), Some(8)],
    );
    let groups = s.group_tuples();
    assert_eq!(groups.len(), 4);
    let mut seen = vec![0usize; s.len()];
    for (first, rows) in &groups {
        assert_eq!(*first, rows[0]);
        assert!(rows.windows(2).all(|w| w[0] < w[1]));
        for r in rows {
            seen[*r] += 1;
            assert_eq!(s.values()[*r], s.values()[*first]);
        }
    }
    assert!(seen.iter().all(|n| *n == 1));
}

#[test]
fn all_null_groups_aggregate_to_null_and_count_all_rows() {
    let df = DataFrame::new(vec![
        strs("k", &["a", "a", "b", "b"]),
        opt_i32s("v", &[None, None, Some(4), None]),
    ])
    .unwrap();
    let gb = df.groupby("k").unwrap().select("v");
    assert_eq!(
        pairs(&gb.sum().unwrap(), "k", "v_sum"),
        vec![(text("a"), AnyType::Null), (text("b"), AnyType::Int32(4))]
    );
    assert_eq!(
        pairs(&gb.min().unwrap(), "k", "v_min"),
        vec![(text("a"), AnyType::Null), (text("b"), AnyType::Int32(4))]
    );
    assert_eq!(
        pairs(&gb.count().unwrap(), "k", "v_count"),
        vec![(text("a"), AnyType::UInt32(2)), (text("b"), AnyType::UInt32(2))]
    );
}

#[test]
fn sum_wraps_round() {
    let df = DataFrame::new(vec![i32s("k", &[1, 1]), i32s("v", &[i32::MAX, 1])]).unwrap();
    let sum = df.groupby("k").unwrap().select("v").sum().unwrap();
    assert_eq!(sum.column("v_sum").unwrap().values(), &vec![AnyType::Int32(i32::MIN)]);
}

#[test]
fn groupby_refusals() {
    let df = DataFrame::new(vec![
        strs("k", &["a", "b"]),
        i32s("v", &[1, 2]),
        f64s("f", &[1.0, 2.0]),
    ])
    .unwrap();
    assert!(matches!(df.groupby("nope"), Err(PolarsError::NotFound)));
    let gb = df.groupby("k").unwrap();
    assert_eq!(gb.sum().err(), Some(PolarsError::NoSelection));
    assert_eq!(gb.count().err(), Some(PolarsError::NoSelection));
    let gb = df.groupby("k").unwrap().select("nope");
    assert_eq!(gb.max().err(), Some(PolarsError::NotFound));
    let gb = df.groupby("k").unwrap().select("k");
    assert_eq!(gb.sum().err(), Some(PolarsError::InvalidOperation));
    let gb = df.groupby("k").unwrap().select("f");
    assert_eq!(gb.sum().err(), Some(PolarsError::InvalidOperation));
    // the key column and the aggregate under one name
    let df = DataFrame::new(vec![i32s("v_sum", &[1, 2]), i32s("v", &[1, 2])]).unwrap();
    let gb = df.groupby("v_sum").unwrap().select("v");
    assert_eq!(gb.sum().err(), Some(PolarsError::Duplicate));
}

#[test]
fn the_prelude_names_the_engine() {
    use_prelude();
}

fn use_prelude() {
    let s = polars::prelude::Series::new(
        "k",
        polars::prelude::DataType::Int32,
        vec![polars::prelude::AnyType::Int32(1)],
    )
    .unwrap();
    let df = polars::prelude::DataFrame::new(vec![s]).unwrap();
    assert_eq!(df.shape(), (1, 1));
}
