use polars::agg_context::{AggState, AggregationContext};
use polars::arithmetic::{ArithOp, LhsNumOps};
use polars::builders::NamedFrom;
use polars::datatypes::{AnyType, DataType};
use polars::error::PolarsError;
use polars::frame::DataFrame;
use polars::group_by::IntoGroupTuples;
use polars::hash_join::frames::{JoinType, ZipOuterJoinColumn};
use polars::hash_join::rows::HashJoin;
use polars::hash_join::threads::{limit_threads, n_join_threads};
use polars::ops::argsort::ChunkSort;
use polars::ops::fill::{ChunkFillNone, FillNoneStrategy};
use polars::ops::set::{ChunkApply, ChunkCast, ChunkCompare, ChunkSet, Comparison};
use polars::ops::shape::ChunkZip;
use polars::select::Selection;
use polars::series::Series;
use polars::slice::{slice_offsets, SliceExpr};
use polars::take::{IntoTakeRandom, NumTakeRandomCont, Take, TakeRandom};
use polars::take_index::{AsTakeIndex, ChunkTake, TakeRandomUtf8};
use polars::unique::{fill_set, fill_set_value_count, ChunkUnique, ValueCounts};

fn ints(name: &str, v: &[Option<i32>]) -> Series {
    Series::new_from(name, &v.to_vec())
}

fn as_ints(s: &Series) -> Vec<Option<i32>> {
    s.values()
        .iter()
        .map(|c| match c {
            AnyType::Int32(x) => Some(*x),
            AnyType::Null => None,
            other => panic!("not an i32: {:?}", other),
        })
        .collect()
}

fn as_bools(s: &Series) -> Vec<Option<bool>> {
    s.values()
        .iter()
        .map(|c| match c {
            AnyType::Boolean(x) => Some(*x),
            AnyType::Null => None,
            other => panic!("not a bool: {:?}", other),
        })
        .collect()
}

fn lists(name: &str, v: &[&[i64]]) -> Series {
    let cells = v.iter().map(|l| AnyType::List(l.to_vec())).collect();
    Series::new(name, DataType::List, cells).unwrap()
}

#[test]
fn builders_make_typed_columns() {
    let s = Series::new_from("a", &vec![1i32, 2]);
    assert_eq!(s.dtype(), DataType::Int32);
    assert_eq!(s.name(), "a");
    assert_eq!(s.values(), &vec![AnyType::Int32(1), AnyType::Int32(2)]);
    let s = Series::new_from("b", &vec![1i64]);
    assert_eq!(s.values(), &vec![AnyType::Int64(1)]);
    let s = Series::new_from("c", &vec![7u32]);
    assert_eq!(s.values(), &vec![AnyType::UInt32(7)]);
    let s = Series::new_from("d", &vec![true, false]);
    assert_eq!(s.values(), &vec![AnyType::Boolean(true), AnyType::Boolean(false)]);
    let s = Series::new_from("e", &vec!["x", "y"]);
    assert_eq!(
        s.values(),
        &vec![AnyType::Utf8("x".to_string()), AnyType::Utf8("y".to_string())]
    );
    let s = ints("f", &[None, Some(3)]);
    assert_eq!(s.null_count(), 1);
    assert_eq!(s.len(), 2);
    assert!(!s.is_empty());
    assert!(matches!(
        Series::new("g", DataType::Int32, vec![AnyType::Int64(1)]),
        Err(PolarsError::DataTypeMisMatch)
    ));
}

#[test]
fn series_equality_and_renaming() {
    let mut a = ints("a", &[Some(1), Some(2)]);
    let b = ints("b", &[Some(1), Some(2)]);
    assert!(a.series_equal(&b));
    assert!(a.series_equal_missing(&b));
    let holes = ints("h", &[Some(1), None]);
    assert!(!holes.series_equal(&holes.duplicate()));
    assert!(holes.series_equal_missing(&holes.duplicate()));
    assert!(!a.series_equal(&Series::new_from("c", &vec![1i64, 2])));
    assert!(!a.series_equal_missing(&ints("s", &[Some(1)])));
    a.rename("z");
    assert_eq!(a.name(), "z");
    assert_eq!(as_ints(&a), vec![Some(1), Some(2)]);
}

#[test]
fn frames_check_shape_and_names() {
    let a = ints("a", &[Some(1), Some(2)]);
    let b = ints("b", &[Some(3), Some(4)]);
    let df = DataFrame::new(vec![a.duplicate(), b.duplicate()]).unwrap();
    assert_eq!(df.shape(), (2, 2));
    assert_eq!(df.height(), 2);
    assert_eq!(df.width(), 2);
    assert_eq!(df.find_idx_by_name("b"), Some(1));
    assert_eq!(df.find_idx_by_name("c"), None);
    assert_eq!(df.select_at_idx(0).unwrap().name(), "a");
    assert!(df.select_at_idx(2).is_none());
    assert!(matches!(df.column("c"), Err(PolarsError::NotFound)));
    assert!(matches!(
        DataFrame::new(vec![a.duplicate(), ints("c", &[Some(1)])]),
        Err(PolarsError::ShapeMisMatch)
    ));
    assert!(matches!(
        DataFrame::new(vec![a.duplicate(), a.duplicate()]),
        Err(PolarsError::Duplicate)
    ));
    // the heights are looked at first
    assert!(matches!(
        DataFrame::new(vec![a.duplicate(), ints("a", &[Some(1)])]),
        Err(PolarsError::ShapeMisMatch)
    ));
    let dropped = df.drop("a").unwrap();
    assert_eq!(dropped.width(), 1);
    assert_eq!(dropped.get_columns()[0].name(), "b");
    assert!(matches!(df.drop("c"), Err(PolarsError::NotFound)));
    let wide = df.hstack(&vec![ints("c", &[Some(5), Some(6)])]).unwrap();
    assert_eq!(wide.width(), 3);
    assert!(matches!(df.hstack(&vec![a.duplicate()]), Err(PolarsError::Duplicate)));
    assert!(matches!(
        df.hstack(&vec![ints("c", &[Some(5)])]),
        Err(PolarsError::ShapeMisMatch)
    ));
    let mut grown = df.duplicate();
    assert!(grown.hstack_mut(&vec![a.duplicate()]).is_err());
    assert_eq!(grown.width(), 2);
    grown.hstack_mut(&vec![ints("c", &[Some(5), Some(6)])]).unwrap();
    assert_eq!(grown.width(), 3);
    assert_eq!(DataFrame::new(vec![]).unwrap().height(), 0);
    let picked = df.select_series(&vec!["b", "a"]).unwrap();
    assert_eq!(picked[0].name(), "b");
    assert!(matches!(df.select_series(&vec!["b", "x"]), Err(PolarsError::NotFound)));
    assert_eq!(df.remove_selected(&vec!["b", "a"]).unwrap().width(), 0);
    assert!(matches!(df.remove_selected(&vec!["b", "b"]), Err(PolarsError::NotFound)));
}

#[test]
fn gather_checks_bounds() {
    let s = ints("a", &[Some(10), None, Some(30)]);
    assert_eq!(as_ints(&s.take(&vec![2, 0, 2], None).unwrap()), vec![Some(30), Some(10), Some(30)]);
    assert_eq!(s.take(&vec![3], Some(1)).err(), Some(PolarsError::OutOfBounds));
    assert_eq!(
        as_ints(&s.take_opt(&vec![Some(0), None, Some(1)], None).unwrap()),
        vec![Some(10), None, None]
    );
    assert_eq!(s.take_opt(&vec![None, Some(3)], None).err(), Some(PolarsError::OutOfBounds));
    assert_eq!(as_ints(&s.take_unchecked(&vec![1], None)), vec![None]);
    assert_eq!(as_ints(&s.take_opt_unchecked(&vec![None], None)), vec![None]);
    assert_eq!(TakeRandom::get(&s, 0), Some(AnyType::Int32(10)));
    assert_eq!(TakeRandom::get(&s, 1), None);
    assert_eq!(TakeRandom::get(&s, 3), None);
    assert_eq!(TakeRandom::get_unchecked(&s, 1), AnyType::Null);
    assert_eq!((&s).take_rand().len(), 3);

    let data = [5u8, 6, 7];
    let cont = NumTakeRandomCont { slice: &data };
    assert_eq!(cont.get(2), Some(7));
    assert_eq!(cont.get(3), None);
    assert_eq!(cont.get_unchecked(0), 5);

    let df = DataFrame::new(vec![s.duplicate(), ints("b", &[Some(1), Some(2), Some(3)])]).unwrap();
    let taken = ChunkTake::take(&df, &vec![2, 2], None).unwrap();
    assert_eq!(as_ints(taken.column("b").unwrap()), vec![Some(3), Some(3)]);
    assert!(ChunkTake::take(&df, &vec![3], None).is_err());
    let taken = df.take_opt(&vec![None, Some(0)], None).unwrap();
    assert_eq!(as_ints(taken.column("a").unwrap()), vec![None, Some(10)]);
    assert!(df.take_opt(&vec![Some(9)], None).is_err());
    assert_eq!(ChunkTake::take_unchecked(&df, &vec![0], None).height(), 1);
    assert_eq!(ChunkTake::take_opt_unchecked(&df, &vec![None], None).height(), 1);
    let no_columns = DataFrame::new(vec![]).unwrap();
    assert!(ChunkTake::take(&no_columns, &vec![5], None).is_ok());
}

#[test]
fn indices_from_vectors_and_columns() {
    let v: Vec<usize> = vec![3, 1];
    assert_eq!(v.as_take_iter(), vec![3, 1]);
    assert_eq!(v.as_opt_take_iter(), vec![Some(3), Some(1)]);
    assert_eq!(v.take_index_len(), 2);
    let v: Vec<u32> = vec![4];
    assert_eq!(v.as_take_iter(), vec![4]);
    assert_eq!(v.as_opt_take_iter(), vec![Some(4)]);
    assert_eq!(v.take_index_len(), 1);
    let s = Series::new(
        "i",
        DataType::UInt32,
        vec![AnyType::UInt32(2), AnyType::Null, AnyType::UInt32(0)],
    )
    .unwrap();
    assert_eq!(s.as_take_iter(), vec![2, 0]);
    assert_eq!(s.as_opt_take_iter(), vec![Some(2), None, Some(0)]);
    assert_eq!(s.take_index_len(), 3);

    let t = Series::new_from("t", &vec!["a", "b"]);
    assert_eq!(TakeRandomUtf8::get(&t, 1), Some("b"));
    assert_eq!(TakeRandomUtf8::get(&t, 2), None);
    assert_eq!(TakeRandomUtf8::get(&s, 0), None);
    assert_eq!(TakeRandomUtf8::get_unchecked(&t, 0), "a");
}

#[test]
fn set_cast_apply_compare() {
    let s = ints("a", &[Some(1), Some(2), Some(3)]);
    assert_eq!(
        as_ints(&s.set_at_idx(&vec![0, 1], Some(AnyType::Int32(10))).unwrap()),
        vec![Some(10), Some(10), Some(3)]
    );
    assert_eq!(as_ints(&s.set_at_idx(&vec![2], None).unwrap()), vec![Some(1), Some(2), None]);
    assert_eq!(s.set_at_idx(&vec![3], None).err(), Some(PolarsError::OutOfBounds));
    assert_eq!(
        s.set_at_idx(&vec![0], Some(AnyType::Boolean(true))).err(),
        Some(PolarsError::DataTypeMisMatch)
    );
    let mask = Series::new_from("m", &vec![false, true, false]);
    assert_eq!(
        as_ints(&s.set(&mask, Some(AnyType::Int32(5))).unwrap()),
        vec![Some(1), Some(5), Some(3)]
    );
    assert_eq!(
        s.set(&Series::new_from("m", &vec![true]), None).err(),
        Some(PolarsError::ShapeMisMatch)
    );
    assert_eq!(s.set(&s, None).err(), Some(PolarsError::DataTypeMisMatch));

    let wide = s.cast(DataType::Int64).unwrap();
    assert_eq!(wide.values(), &vec![AnyType::Int64(1), AnyType::Int64(2), AnyType::Int64(3)]);
    let neg = ints("n", &[Some(-1), Some(4)]);
    assert_eq!(
        neg.cast(DataType::UInt32).unwrap().values(),
        &vec![AnyType::Null, AnyType::UInt32(4)]
    );
    assert_eq!(
        mask.cast(DataType::Int32).unwrap().values(),
        &vec![AnyType::Int32(0), AnyType::Int32(1), AnyType::Int32(0)]
    );
    assert_eq!(s.cast(DataType::Utf8).err(), Some(PolarsError::InvalidOperation));
    assert_eq!(as_ints(&s.cast(DataType::Int32).unwrap()), vec![Some(1), Some(2), Some(3)]);

    let holes = ints("h", &[Some(1), None, Some(3)]);
    let doubled = holes.apply(|c| match c {
        AnyType::Int32(x) => AnyType::Int32(2 * x),
        other => other,
    });
    assert_eq!(as_ints(&doubled), vec![Some(2), None, Some(6)]);
    let misfit = holes.apply(|_| AnyType::Boolean(true));
    assert_eq!(as_ints(&misfit), vec![None, None, None]);

    let other = ints("o", &[Some(2), None]);
    assert_eq!(as_bools(&holes.lt(&other)), vec![Some(true), None, None]);
    assert_eq!(as_bools(&holes.lt_eq(&other)), vec![Some(true), None, None]);
    assert_eq!(as_bools(&holes.gt(&other)), vec![Some(false), None, None]);
    assert_eq!(as_bools(&holes.gt_eq(&other)), vec![Some(false), None, None]);
    assert_eq!(as_bools(&holes.eq(&other)), vec![Some(false), None, None]);
    assert_eq!(as_bools(&holes.neq(&other)), vec![Some(true), None, None]);
    assert_eq!(
        as_bools(&holes.eq_missing(&other)),
        vec![Some(false), Some(true), None]
    );
    assert_eq!(
        as_bools(&holes.compare(Comparison::Eq, &holes)),
        vec![Some(true), None, Some(true)]
    );
    assert_eq!(holes.lt(&other).name(), "h");
}

#[test]
fn arithmetic_on_columns() {
    let a = ints("a", &[Some(7), None, Some(-8), Some(i32::MAX)]);
    let b = ints("b", &[Some(2), Some(1), Some(3), Some(1)]);
    assert_eq!(
        as_ints(&a.add_to(&b).unwrap()),
        vec![Some(9), None, Some(-5), Some(i32::MIN)]
    );
    assert_eq!(
        as_ints(&a.subtract(&b).unwrap()),
        vec![Some(5), None, Some(-11), Some(i32::MAX - 1)]
    );
    assert_eq!(
        as_ints(&a.multiply(&b).unwrap()),
        vec![Some(14), None, Some(-24), Some(i32::MAX)]
    );
    assert_eq!(
        as_ints(&a.divide(&b).unwrap()),
        vec![Some(3), None, Some(-2), Some(i32::MAX)]
    );
    assert_eq!(as_ints(&(&a + &b).unwrap()), vec![Some(9), None, Some(-5), Some(i32::MIN)]);
    assert_eq!(as_ints(&(&a - &b).unwrap()), vec![Some(5), None, Some(-11), Some(i32::MAX - 1)]);
    assert_eq!(as_ints(&(&a * &b).unwrap()), vec![Some(14), None, Some(-24), Some(i32::MAX)]);
    assert_eq!(as_ints(&(&a / &b).unwrap()), vec![Some(3), None, Some(-2), Some(i32::MAX)]);
    let zero = ints("z", &[Some(1), Some(0), Some(0), Some(1)]);
    assert_eq!(a.divide(&zero).err(), Some(PolarsError::ComputeError));
    // a null is divided by nothing
    let zero = ints("z", &[Some(1), Some(0), Some(1), Some(1)]);
    assert!(a.divide(&zero).is_ok());
    let min = ints("m", &[Some(i32::MIN)]);
    assert_eq!(as_ints(&min.divide(&ints("d", &[Some(-1)])).unwrap()), vec![Some(i32::MIN)]);
    assert_eq!(a.add_to(&ints("s", &[Some(1)])).err(), Some(PolarsError::ShapeMisMatch));
    assert_eq!(
        a.add_to(&Series::new_from("l", &vec![1i64, 2, 3, 4])).err(),
        Some(PolarsError::DataTypeMisMatch)
    );
    let text = Series::new_from("t", &vec!["x"]);
    assert_eq!(text.add_to(&text).err(), Some(PolarsError::InvalidOperation));
    assert_eq!(text.add_to(&a).err(), Some(PolarsError::InvalidOperation));

    let small = ints("s", &[Some(6), None]);
    assert_eq!(as_ints(&small.arithmetic_scalar(ArithOp::Sub, 1, false).unwrap()), vec![Some(5), None]);
    assert_eq!(as_ints(&LhsNumOps::sub(1i64, &small).unwrap()), vec![Some(-5), None]);
    assert_eq!(as_ints(&LhsNumOps::add(1i64, &small).unwrap()), vec![Some(7), None]);
    assert_eq!(as_ints(&LhsNumOps::mul(3i64, &small).unwrap()), vec![Some(18), None]);
    assert_eq!(as_ints(&LhsNumOps::div(13i64, &small).unwrap()), vec![Some(2), None]);
    assert_eq!(
        small.arithmetic_scalar(ArithOp::Div, 0, false).err(),
        Some(PolarsError::ComputeError)
    );
    assert_eq!(
        small.arithmetic_scalar(ArithOp::Add, i64::MAX, false).err(),
        Some(PolarsError::ComputeError)
    );
    assert_eq!(
        text.arithmetic_scalar(ArithOp::Add, 1, false).err(),
        Some(PolarsError::InvalidOperation)
    );
}

#[test]
fn lists_are_moved_but_not_joined_grouped_or_zipped() {
    let l = lists("l", &[&[1, 2], &[], &[1, 2]]);
    assert_eq!(
        l.take(&vec![2, 1], None).unwrap().values(),
        &vec![AnyType::List(vec![1, 2]), AnyType::List(vec![])]
    );
    assert_eq!(l.arg_unique(), vec![0, 1]);
    // a sort leaves a column of lists as it is
    assert_eq!(l.sort(true).values(), l.values());
    assert_eq!(l.argsort(false), vec![0, 1, 2]);
    let df = DataFrame::new(vec![l.duplicate(), ints("v", &[Some(1), Some(2), Some(3)])]).unwrap();
    assert_eq!(
        df.inner_join(&df, "l", "l", None).err(),
        Some(PolarsError::InvalidOperation)
    );
    assert_eq!(
        df.join(&df, vec!["v", "l"], vec!["v", "l"], JoinType::Outer, None)
            .err(),
        Some(PolarsError::InvalidOperation)
    );
    assert!(matches!(df.groupby("l"), Err(PolarsError::InvalidOperation)));
    let mask = Series::new_from("m", &vec![true, false, true]);
    assert_eq!(l.zip_with(&mask, &l).err(), Some(PolarsError::InvalidOperation));
    assert_eq!(
        l.fill_none(FillNoneStrategy::Forward).err(),
        Some(PolarsError::InvalidOperation)
    );
    assert_eq!(
        l.fill_none_with_value(AnyType::List(vec![])).err(),
        Some(PolarsError::InvalidOperation)
    );
}

#[test]
fn series_joins_and_zipped_keys() {
    let left = ints("k", &[Some(1), None, Some(2)]);
    let right = ints("k", &[None, Some(2), Some(2), Some(5)]);
    for n in 0..5 {
        // the left side is shorter, so it is built and the right side probed
        assert_eq!(left.hash_join_inner(&right, n), vec![(1, 0), (2, 1), (2, 2)]);
        assert_eq!(right.hash_join_inner(&left, n), vec![(0, 1), (1, 2), (2, 2)]);
        assert_eq!(
            left.hash_join_left(&right, n),
            vec![(0, None), (1, Some(0)), (2, Some(1)), (2, Some(2))]
        );
        let outer = left.hash_join_outer(&right, n);
        assert_eq!(
            outer[..4],
            [
                (Some(1), Some(0)),
                (Some(2), Some(1)),
                (None, Some(2)),
                (None, Some(3))
            ]
        );
        assert_eq!(outer[4..], [(Some(0), None)]);
        let zipped = left.zip_outer_join_column(&right, &outer);
        assert_eq!(as_ints(&zipped), vec![None, Some(2), Some(2), Some(5), Some(1)]);
    }
}

#[test]
fn thread_counts() {
    assert_eq!(limit_threads(8, None), 8);
    assert_eq!(limit_threads(8, Some(3)), 3);
    assert_eq!(limit_threads(2, Some(3)), 2);
    assert!(n_join_threads(None) >= 1);
    assert_eq!(n_join_threads(Some(1)), 1);
    assert_eq!(n_join_threads(Some(0)), 0);
}

#[test]
fn selections() {
    assert_eq!("a".to_selection_vec(), vec!["a"]);
    let owned = "b".to_string();
    assert_eq!((&owned).to_selection_vec(), vec!["b"]);
    assert_eq!(vec!["a", "b"].to_selection_vec(), vec!["a", "b"]);
    let names = vec!["x".to_string(), "y".to_string()];
    assert_eq!((&names).to_selection_vec(), vec!["x", "y"]);
    assert_eq!(("a", "b").to_selection_vec(), vec!["a", "b"]);
    assert_eq!(("a", "b", "c").to_selection_vec(), vec!["a", "b", "c"]);
}

#[test]
fn slices_count_from_either_end() {
    assert_eq!(slice_offsets(1, 2, 5), (1, 2));
    assert_eq!(slice_offsets(4, 2, 5), (4, 1));
    assert_eq!(slice_offsets(5, 2, 5), (5, 0));
    assert_eq!(slice_offsets(6, 2, 5), (5, 0));
    assert_eq!(slice_offsets(-2, 5, 5), (3, 2));
    assert_eq!(slice_offsets(-2, 1, 5), (3, 1));
    assert_eq!(slice_offsets(-7, 3, 5), (0, 3));
    assert_eq!(slice_offsets(-7, 9, 5), (0, 5));
    assert_eq!(slice_offsets(i64::MIN, 1, 0), (0, 0));
    let s = ints("a", &[Some(1), Some(2), Some(3), Some(4)]);
    assert_eq!(as_ints(&s.slice(-3, 2)), vec![Some(2), Some(3)]);
    let expr = SliceExpr { offset: 1, len: 2 };
    assert_eq!(as_ints(&expr.evaluate(&s)), vec![Some(2), Some(3)]);
    let groups = vec![(0, vec![0, 2, 4]), (1, vec![1])];
    assert_eq!(
        expr.evaluate_on_groups(&groups),
        vec![(0, vec![2, 4]), (1, vec![])]
    );
}

#[test]
fn walking_over_groups() {
    let groups = vec![(0, vec![0, 2]), (1, vec![1])];
    let s = ints("v", &[Some(10), Some(20), Some(30)]);
    let names = |items: &Vec<Option<Series>>| -> Vec<Option<String>> {
        items.iter().map(|i| i.as_ref().map(|s| s.name().clone())).collect()
    };
    let cells = |items: &Vec<Option<Series>>| -> Vec<Option<Vec<AnyType>>> {
        items.iter().map(|i| i.as_ref().map(|s| s.values().clone())).collect()
    };
    let ac = AggregationContext { state: AggState::NotAggregated(s.duplicate()), groups: groups.clone() };
    let items = ac.iter_groups(true).unwrap();
    assert_eq!(names(&items), vec![Some("v".to_string()), Some("v".to_string())]);
    assert_eq!(
        cells(&items),
        vec![
            Some(vec![AnyType::Int32(10), AnyType::Int32(30)]),
            Some(vec![AnyType::Int32(20)])
        ]
    );
    let ac = AggregationContext {
        state: AggState::NotAggregated(s.duplicate()),
        groups: vec![(0, vec![0, 3])],
    };
    assert_eq!(ac.iter_groups(true).err(), Some(PolarsError::OutOfBounds));

    let ac = AggregationContext { state: AggState::Literal(ints("l", &[Some(1)])), groups: groups.clone() };
    let items = ac.iter_groups(false).unwrap();
    assert_eq!(names(&items), vec![Some("".to_string()), Some("".to_string())]);
    assert_eq!(
        cells(&items),
        vec![Some(vec![AnyType::Int32(1)]), Some(vec![AnyType::Int32(1)])]
    );

    let ac = AggregationContext {
        state: AggState::AggregatedFlat(ints("f", &[Some(7)])),
        groups: groups.clone(),
    };
    let items = ac.iter_groups(true).unwrap();
    assert_eq!(cells(&items), vec![Some(vec![AnyType::Int32(7)]), Some(vec![])]);

    let l = Series::new(
        "l",
        DataType::List,
        vec![AnyType::List(vec![1, 2]), AnyType::Null, AnyType::List(vec![])],
    )
    .unwrap();
    let ac = AggregationContext { state: AggState::AggregatedList(l), groups };
    let items = ac.iter_groups(true).unwrap();
    assert_eq!(
        cells(&items),
        vec![
            Some(vec![AnyType::Int64(1), AnyType::Int64(2)]),
            None,
            Some(vec![])
        ]
    );
    assert_eq!(ac.series().name(), "l");
}

#[test]
fn counting_values() {
    let s = ints("v", &[Some(3), None, Some(3), Some(1), None, Some(3)]);
    let mut counts = s.value_counts();
    counts.sort_by_key(|c| format!("{:?}", c.0));
    assert_eq!(
        counts,
        vec![(AnyType::Int32(1), 1), (AnyType::Int32(3), 3), (AnyType::Null, 2)]
    );
    let keys = vec![
        vec![(2u8, 5u64, String::new(), Vec::new())],
        vec![(2u8, 6u64, String::new(), Vec::new())],
        vec![(2u8, 5u64, String::new(), Vec::new())],
    ];
    let mut counts = fill_set_value_count(&keys);
    counts.sort();
    assert_eq!(counts, vec![(0, 2), (1, 1)]);
    assert_eq!(fill_set(&keys, 3).len(), 2);
}

#[test]
fn means_as_sum_and_count() {
    let df = DataFrame::new(vec![
        Series::new_from("k", &vec!["a", "a", "b", "b", "c"]),
        ints("v", &[Some(20), Some(10), None, Some(7), None]),
    ])
    .unwrap();
    let gb = df.groupby("k").unwrap().select("v");
    let (keys, parts) = gb.mean_parts().unwrap();
    let mut rows: Vec<(AnyType, Option<(i128, usize)>)> =
        keys.values().clone().into_iter().zip(parts.into_iter()).collect();
    rows.sort_by_key(|r| format!("{:?}", r.0));
    assert_eq!(
        rows,
        vec![
            (AnyType::Utf8("a".to_string()), Some((30, 2))),
            (AnyType::Utf8("b".to_string()), Some((7, 2))),
            (AnyType::Utf8("c".to_string()), None)
        ]
    );
    let mean: Vec<f64> = rows
        .iter()
        .filter_map(|r| r.1.map(|(sum, n)| sum as f64 / n as f64))
        .collect();
    assert_eq!(mean, vec![15.0, 3.5]);
    assert_eq!(
        df.groupby("k").unwrap().mean_parts().err(),
        Some(PolarsError::NoSelection)
    );
    assert_eq!(
        df.groupby("k").unwrap().select("k").mean_parts().err(),
        Some(PolarsError::InvalidOperation)
    );
    let gb = df.groupby("v").unwrap();
    assert_eq!(gb.by(), "v");
    assert_eq!(gb.get_groups().len(), 4);
    assert_eq!(gb.keys().len(), 4);
    let v = df.column("v").unwrap();
    assert_eq!(v.group_tuples().len(), 4);
    assert_eq!(
        v.agg_mean(&vec![(0, vec![0, 1, 2])]).unwrap(),
        vec![Some((30, 3))]
    );
}
