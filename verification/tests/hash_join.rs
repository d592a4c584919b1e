use polars::datatypes::{AnyType, DataType};
use polars::error::PolarsError;
use polars::frame::DataFrame;
use polars::hash_join::frames::JoinType;
use polars::hash_join::keys::JoinKey;
use polars::hash_join::outer::hash_join_tuples_outer;
use polars::hash_join::rows::det_hash_prone_order;
use polars::hash_join::tuples::{hash_join_tuples_inner_threaded, hash_join_tuples_left_threaded};
use polars::series::Series;

fn i32s(name: &str, v: &[i32]) -> Series {
    Series::new(name, DataType::Int32, v.iter().map(|x| AnyType::Int32(*x)).collect()).unwrap()
}

fn f64s(name: &str, v: &[f64]) -> Series {
    let cells = v.iter().map(|x| AnyType::Float64(x.to_bits())).collect();
    Series::new(name, DataType::Float64, cells).unwrap()
}

fn opt_f64s(name: &str, v: &[Option<f64>]) -> Series {
    let cells = v
        .iter()
        .map(|o| match o {
            Some(x) => AnyType::Float64(x.to_bits()),
            None => AnyType::Null,
        })
        .collect();
    Series::new(name, DataType::Float64, cells).unwrap()
}

fn strs(name: &str, v: &[&str]) -> Series {
    let cells = v.iter().map(|x| AnyType::Utf8(x.to_string())).collect();
    Series::new(name, DataType::Utf8, cells).unwrap()
}

fn sum_f64(s: &Series) -> f64 {
    s.values()
        .iter()
        .map(|c| match c {
            AnyType::Float64(bits) => f64::from_bits(*bits),
            _ => 0.0,
        })
        .sum()
}

fn sum_i32(s: &Series) -> Option<i32> {
    let mut sum = None;
    for c in s.values() {
        if let AnyType::Int32(x) = c {
            sum = Some(sum.unwrap_or(0) + *x);
        }
    }
    sum
}

fn opt_strs(s: &Series) -> Vec<Option<String>> {
    s.values()
        .iter()
        .map(|c| match c {
            AnyType::Utf8(x) => Some(x.clone()),
            AnyType::Null => None,
            other => panic!("not text: {:?}", other),
        })
        .collect()
}

fn create_frames() -> (DataFrame, DataFrame) {
    let s0 = i32s("days", &[0, 1, 2]);
    let s1 = f64s("temp", &[22.1, 19.9, 7.]);
    let s2 = f64s("rain", &[0.2, 0.1, 0.3]);
    let temp = DataFrame::new(vec![s0, s1, s2]).unwrap();

    let s0 = i32s("days", &[1, 2, 3, 1]);
    let s1 = f64s("rain", &[0.1, 0.2, 0.3, 0.4]);
    let rain = DataFrame::new(vec![s0, s1]).unwrap();
    (temp, rain)
}

#[test]
fn test_inner_join() {
    let (temp, rain) = create_frames();

    for i in 1..8 {
        let joined = temp.inner_join(&rain, "days", "days", Some(i)).unwrap();

        let join_col_days = i32s("days", &[1, 2, 1]);
        let join_col_temp = f64s("temp", &[19.9, 7., 19.9]);
        let join_col_rain = f64s("rain", &[0.1, 0.3, 0.1]);
        let join_col_rain_right = f64s("rain_right", [0.1, 0.2, 0.4].as_ref());
        let true_df = DataFrame::new(vec![
            join_col_days,
            join_col_temp,
            join_col_rain,
            join_col_rain_right,
        ])
        .unwrap();

        assert!(joined.frame_equal(&true_df));
        let names: Vec<&str> = joined.get_columns().iter().map(|s| s.name().as_str()).collect();
        assert_eq!(names, vec!["days", "temp", "rain", "rain_right"]);
    }
}

#[test]
fn test_left_join() {
    for i in 1..8 {
        let s0 = i32s("days", &[0, 1, 2, 3, 4]);
        let s1 = f64s("temp", &[22.1, 19.9, 7., 2., 3.]);
        let temp = DataFrame::new(vec![s0, s1]).unwrap();

        let s0 = i32s("days", &[1, 2]);
        let s1 = f64s("rain", &[0.1, 0.2]);
        let rain = DataFrame::new(vec![s0, s1]).unwrap();
        let joined = temp.left_join(&rain, "days", "days", Some(i)).unwrap();
        assert_eq!(
            (sum_f64(joined.column("rain").unwrap()) as f32 * 10.).round(),
            3.
        );
        assert_eq!(joined.column("rain").unwrap().null_count(), 3);

        // test join on utf8
        let s0 = strs("days", &["mo", "tue", "wed", "thu", "fri"]);
        let s1 = f64s("temp", &[22.1, 19.9, 7., 2., 3.]);
        let temp = DataFrame::new(vec![s0, s1]).unwrap();

        let s0 = strs("days", &["tue", "wed"]);
        let s1 = f64s("rain", &[0.1, 0.2]);
        let rain = DataFrame::new(vec![s0, s1]).unwrap();
        let joined = temp.left_join(&rain, "days", "days", Some(i)).unwrap();
        assert_eq!(
            (sum_f64(joined.column("rain").unwrap()) as f32 * 10.).round(),
            3.
        );
        assert_eq!(joined.column("rain").unwrap().null_count(), 3);
    }
}

#[test]
fn test_outer_join() {
    let (temp, rain) = create_frames();
    let joined = temp.outer_join(&rain, "days", "days", None).unwrap();
    assert_eq!(joined.height(), 5);
    assert_eq!(sum_i32(joined.column("days").unwrap()), Some(7));
}

#[test]
fn test_join_with_nulls() {
    let dts = &[20, 21, 22, 23, 24, 25, 27, 28];
    let vals = &[1.2, 2.4, 4.67, 5.8, 4.4, 3.6, 7.6, 6.5];
    let df = DataFrame::new(vec![i32s("date", dts), f64s("val", vals)]).unwrap();

    let vals2 = &[Some(1.1), None, Some(3.3), None, None];
    let df2 = DataFrame::new(vec![i32s("date", &dts[3..]), opt_f64s("val2", vals2)]).unwrap();

    let joined = df.left_join(&df2, "date", "date", None).unwrap();
    assert_eq!(
        joined.column("val2").unwrap().values()[joined.height() - 1],
        AnyType::Null
    );
}

fn get_dfs() -> (DataFrame, DataFrame) {
    let df_a = DataFrame::new(vec![
        i32s("a", &[1, 2, 1, 1]),
        strs("b", &["a", "b", "c", "c"]),
        i32s("c", &[0, 1, 2, 3]),
    ])
    .unwrap();

    let df_b = DataFrame::new(vec![
        i32s("foo", &[1, 1, 1]),
        strs("bar", &["a", "c", "c"]),
        strs("ham", &["let", "var", "const"]),
    ])
    .unwrap();
    (df_a, df_b)
}

fn with_dummy(df: &DataFrame, number: &str, text: &str) -> DataFrame {
    let numbers = df.column(number).unwrap().values().clone();
    let texts = df.column(text).unwrap().values().clone();
    let dummy: Vec<String> = numbers
        .iter()
        .zip(texts.iter())
        .map(|(n, t)| match (n, t) {
            (AnyType::Int32(n), AnyType::Utf8(t)) => format!("{}{}", n, t),
            _ => panic!("unexpected cells"),
        })
        .collect();
    let refs: Vec<&str> = dummy.iter().map(|s| s.as_str()).collect();
    df.hstack(&vec![strs("dummy", &refs)]).unwrap()
}

#[test]
fn test_join_multiple_columns() {
    let (df_a, df_b) = get_dfs();

    // First do a hack with concatenated string dummy column
    let df_a = with_dummy(&df_a, "a", "b");
    let df_b = with_dummy(&df_b, "foo", "bar");

    let joined = df_a.left_join(&df_b, "dummy", "dummy", None).unwrap();
    let ham_col = joined.column("ham").unwrap();

    let correct_ham = vec![
        Some("let".to_string()),
        None,
        Some("var".to_string()),
        Some("const".to_string()),
        Some("var".to_string()),
        Some("const".to_string()),
    ];

    assert_eq!(opt_strs(ham_col), correct_ham);

    // now check the join with multiple columns
    let joined = df_a
        .join(&df_b, vec!["a", "b"], vec!["foo", "bar"], JoinType::Left, None)
        .unwrap();
    let ca = joined.column("ham").unwrap();
    assert_eq!(opt_strs(ca), correct_ham);
    let joined_inner_hack = df_a.inner_join(&df_b, "dummy", "dummy", None).unwrap();
    let joined_inner = df_a
        .join(&df_b, vec!["a", "b"], vec!["foo", "bar"], JoinType::Inner, None)
        .unwrap();

    assert!(joined_inner_hack
        .column("ham")
        .unwrap()
        .series_equal_missing(joined_inner.column("ham").unwrap()));

    let joined_outer_hack = df_a.outer_join(&df_b, "dummy", "dummy", None).unwrap();
    let joined_outer = df_a
        .join(&df_b, vec!["a", "b"], vec!["foo", "bar"], JoinType::Outer, None)
        .unwrap();
    assert!(joined_outer_hack
        .column("ham")
        .unwrap()
        .series_equal_missing(joined_outer.column("ham").unwrap()));
}

#[test]
fn empty_df_join() {
    let empty: Vec<&str> = vec![];
    let left = DataFrame::new(vec![strs("key", &empty), strs("lval", &empty)]).unwrap();

    let right = DataFrame::new(vec![strs("key", &["foo"]), i32s("rval", &[4])]).unwrap();

    let res = left.inner_join(&right, "key", "key", None);

    assert!(res.is_ok());
    assert_eq!(res.unwrap().height(), 0);
    right.left_join(&left, "key", "key", None).unwrap();
    right.inner_join(&left, "key", "key", None).unwrap();
    right.outer_join(&left, "key", "key", None).unwrap();
}

fn key(v: u64) -> JoinKey {
    vec![(2u8, v, String::new(), Vec::new())]
}

#[test]
fn inner_tuples_follow_probe_order() {
    let probe = vec![key(1), key(2), key(3), key(1)];
    let build = vec![key(0), key(1), key(2)];
    for n in 1..9 {
        let got = hash_join_tuples_inner_threaded(&probe, &build, true, n);
        assert_eq!(got, vec![(1, 0), (2, 1), (1, 3)]);
        let got = hash_join_tuples_inner_threaded(&probe, &build, false, n);
        assert_eq!(got, vec![(0, 1), (1, 2), (3, 1)]);
    }
}

#[test]
fn inner_join_cardinality_is_the_number_of_matching_pairs() {
    // keys 7 (2 x 3 pairs), 8 (1 x 1), 9 on one side only
    let left = vec![key(7), key(8), key(7), key(9)];
    let right = vec![key(7), key(7), key(8), key(7), key(5)];
    for n in 1..9 {
        let got = hash_join_tuples_inner_threaded(&right, &left, true, n);
        assert_eq!(got.len(), 7);
        let mut sorted = got.clone();
        sorted.sort();
        sorted.dedup();
        assert_eq!(sorted.len(), 7);
        for (l, r) in got {
            assert_eq!(left[l], right[r]);
        }
    }
}

#[test]
fn left_tuples_keep_every_probe_row() {
    let probe = vec![key(0), key(1), key(2), key(1)];
    let build = vec![key(1), key(5), key(1)];
    for n in 1..9 {
        let got = hash_join_tuples_left_threaded(&probe, &build, n);
        assert_eq!(
            got,
            vec![
                (0, None),
                (1, Some(0)),
                (1, Some(2)),
                (2, None),
                (3, Some(0)),
                (3, Some(2))
            ]
        );
    }
}

#[test]
fn outer_tuples_take_keys_out_and_drain_the_rest() {
    let probe = vec![key(1), key(2), key(3), key(1)];
    let build = vec![key(0), key(1), key(2), key(0)];
    for n in 1..9 {
        let got = hash_join_tuples_outer(&probe, &build, true, n);
        // the probed part is in probe order; a key that was found is gone for the next probe
        assert_eq!(
            got[..4],
            [
                (Some(1), Some(0)),
                (Some(2), Some(1)),
                (None, Some(2)),
                (None, Some(3))
            ]
        );
        let mut tail = got[4..].to_vec();
        tail.sort();
        assert_eq!(tail, vec![(Some(0), None), (Some(3), None)]);
    }
}

#[test]
fn outer_join_tuple_sets_agree_across_thread_counts() {
    let probe: Vec<JoinKey> = (0..40u64).map(|i| key(i % 13)).collect();
    let build: Vec<JoinKey> = (0..25u64).map(|i| key((i * 7) % 17)).collect();
    let mut first = hash_join_tuples_outer(&probe, &build, false, 1);
    first.sort();
    for n in 2..9 {
        let mut other = hash_join_tuples_outer(&probe, &build, false, n);
        other.sort();
        assert_eq!(first, other);
    }
}

#[test]
fn build_side_is_the_shorter_relation() {
    let short = vec![key(1)];
    let long = vec![key(1), key(2)];
    let (probe, build, swap) = det_hash_prone_order(&long, &short);
    assert_eq!((probe.len(), build.len(), swap), (2, 1, false));
    let (probe, build, swap) = det_hash_prone_order(&short, &long);
    assert_eq!((probe.len(), build.len(), swap), (2, 1, true));
    let (probe, build, swap) = det_hash_prone_order(&short, &short);
    assert_eq!((probe.len(), build.len(), swap), (1, 1, true));
}

#[test]
fn join_symmetry_gives_the_same_rows() {
    let (temp, rain) = create_frames();
    let ab = temp.inner_join(&rain, "days", "days", Some(3)).unwrap();
    let ba = rain.inner_join(&temp, "days", "days", Some(3)).unwrap();
    assert_eq!(ab.height(), ba.height());
    let rows = |df: &DataFrame, cols: &[&str]| {
        let mut rows: Vec<Vec<String>> = (0..df.height())
            .map(|r| {
                cols.iter()
                    .map(|c| format!("{:?}", df.column(c).unwrap().values()[r]))
                    .collect()
            })
            .collect();
        rows.sort();
        rows
    };
    assert_eq!(
        rows(&ab, &["days", "rain", "rain_right"]),
        rows(&ba, &["days", "rain_right", "rain"])
    );
}

#[test]
fn left_join_nulls_every_right_column() {
    let left = DataFrame::new(vec![i32s("k", &[1, 9])]).unwrap();
    let right = DataFrame::new(vec![
        i32s("k", &[1]),
        i32s("x", &[10]),
        strs("y", &["ten"]),
    ])
    .unwrap();
    let joined = left.left_join(&right, "k", "k", Some(2)).unwrap();
    assert_eq!(joined.width(), 3);
    assert_eq!(joined.column("x").unwrap().values()[1], AnyType::Null);
    assert_eq!(joined.column("y").unwrap().values()[1], AnyType::Null);
    assert_eq!(joined.column("x").unwrap().values()[0], AnyType::Int32(10));
}

#[test]
fn floats_join_by_bit_pattern() {
    let nan_a = f64::from_bits(0x7ff8_0000_0000_0001);
    let nan_b = f64::from_bits(0x7ff8_0000_0000_0002);
    let left = DataFrame::new(vec![f64s("k", &[nan_a, 0.0, 1.5])]).unwrap();
    let right = DataFrame::new(vec![f64s("k", &[nan_a, nan_b, -0.0, 1.5]), i32s("v", &[1, 2, 3, 4])])
        .unwrap();
    let joined = left.inner_join(&right, "k", "k", Some(2)).unwrap();
    // the identical NaN matches, the other NaN and the negative zero do not
    let mut v: Vec<AnyType> = joined.column("v").unwrap().values().clone();
    v.sort_by_key(|c| format!("{:?}", c));
    assert_eq!(v, vec![AnyType::Int32(1), AnyType::Int32(4)]);
}

#[test]
fn join_refusals() {
    let (temp, rain) = create_frames();
    assert_eq!(
        temp.inner_join(&rain, "nope", "days", None).err(),
        Some(PolarsError::NotFound)
    );
    assert_eq!(
        temp.inner_join(&rain, "days", "nope", None).err(),
        Some(PolarsError::NotFound)
    );
    assert_eq!(
        temp.inner_join(&rain, "days", "rain", None).err(),
        Some(PolarsError::DataTypeMisMatch)
    );
    assert_eq!(
        temp.join(&rain, vec!["days", "temp"], vec!["days"], JoinType::Inner, None)
            .err(),
        Some(PolarsError::ShapeMisMatch)
    );
    let none: Vec<&str> = vec![];
    assert_eq!(
        temp.join(&rain, none.clone(), none, JoinType::Inner, None).err(),
        Some(PolarsError::InvalidOperation)
    );
    assert_eq!(
        temp.join(
            &rain,
            vec!["days", "days"],
            vec!["days", "days"],
            JoinType::Left,
            None
        )
        .err(),
        Some(PolarsError::NotFound)
    );
    // a renamed right column that meets a left column of that name
    let left = DataFrame::new(vec![i32s("k", &[1]), i32s("x", &[1]), i32s("x_right", &[1])]).unwrap();
    let right = DataFrame::new(vec![i32s("k", &[1]), i32s("x", &[2])]).unwrap();
    assert_eq!(
        left.inner_join(&right, "k", "k", None).err(),
        Some(PolarsError::Duplicate)
    );
}
