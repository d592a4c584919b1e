use polars::datatypes::{AnyType, DataType};
use polars::error::PolarsError;
use polars::frame::DataFrame;
use polars::lazy::dsl::{col, lit, not, Expr, Literal, Operator, ScalarValue};
use polars::lazy::planner::{DefaultPlanner, Executor, LogicalPlan, PhysicalExpr};
use polars::lazy::schema::{get_supertype, ArrowDataType, Field, Schema};
use polars::series::Series;
use polars::temporal::{
    date32_as_datetime, date64_as_datetime, time32_millisecond_as_time, time32_second_as_time,
    time64_microsecond_as_time, time64_nanosecond_as_time, timestamp_microseconds_as_datetime,
    timestamp_milliseconds_as_datetime, timestamp_nanoseconds_as_datetime,
    timestamp_seconds_as_datetime,
};

fn schema() -> Schema {
    Schema {
        fields: vec![
            Field::new("a", ArrowDataType::Int32, false),
            Field::new("b", ArrowDataType::Float64, true),
            Field::new("s", ArrowDataType::Utf8, true),
        ],
    }
}

#[test]
fn expressions_as_text() {
    assert_eq!(col("a").fmt(), "COLUMN a");
    assert_eq!(col("a").eq(lit(5i32)).fmt(), "COLUMN a Eq Int32(5)");
    assert_eq!(col("a").neq(lit(5u8)).fmt(), "COLUMN a NotEq UInt8(5)");
    assert_eq!(col("a").lt(lit(-5i64)).fmt(), "COLUMN a Lt Int64(-5)");
    assert_eq!(col("a").gt(lit(true)).fmt(), "COLUMN a Gt Boolean(true)");
    assert_eq!(col("a").gt_eq(lit(1u16)).fmt(), "COLUMN a GtEq UInt16(1)");
    assert_eq!(col("a").lt_eq(lit(1i8)).fmt(), "COLUMN a LtEq Int8(1)");
    assert_eq!(col("a").not().fmt(), "NOT COLUMN a");
    assert_eq!(not(col("a")).fmt(), "NOT COLUMN a");
    assert_eq!(col("a").alias("b").fmt(), "COLUMN a AS b");
    assert_eq!(col("a").is_null().fmt(), "COLUMN a IS NULL");
    assert_eq!(col("a").is_not_null().fmt(), "COLUMN a IS NOT NULL");
    assert_eq!(col("a").agg_min().fmt(), "AGGREGATE MIN COLUMN a");
    assert_eq!(lit("x\"y").fmt(), "Utf8(\"x\\\"y\")");
    assert_eq!("t".to_string().lit().fmt(), "Utf8(\"t\")");
    assert_eq!(lit(3u32).fmt(), "UInt32(3)");
    assert_eq!(lit(3u64).fmt(), "UInt64(3)");
    assert_eq!(lit(3i16).fmt(), "Int16(3)");
    assert_eq!(Expr::Literal(ScalarValue::Null).fmt(), "Null");
    assert_eq!(
        Expr::Sort { expr: Box::new(col("a")), reverse: true }.fmt(),
        "COLUMN a DESC"
    );
    assert_eq!(
        Expr::Sort { expr: Box::new(col("a")), reverse: false }.fmt(),
        "COLUMN a ASC"
    );
    assert_eq!(col("a").eq(col("b")).duplicate().fmt(), "COLUMN a Eq COLUMN b");
}

fn plus(l: Expr, r: Expr) -> Expr {
    Expr::BinaryExpr { left: Box::new(l), op: Operator::Plus, right: Box::new(r) }
}

#[test]
fn types_and_fields_of_expressions() {
    let s = schema();
    assert_eq!(col("a").get_type(&s), Ok(ArrowDataType::Int32));
    assert_eq!(col("x").get_type(&s), Err(PolarsError::NotFound));
    assert_eq!(col("a").alias("z").get_type(&s), Ok(ArrowDataType::Int32));
    assert_eq!(lit(1u8).get_type(&s), Ok(ArrowDataType::UInt8));
    assert_eq!(col("a").eq(col("x")).get_type(&s), Ok(ArrowDataType::Boolean));
    assert_eq!(plus(col("a"), col("b")).get_type(&s), Ok(ArrowDataType::Float64));
    assert_eq!(plus(col("a"), lit(1i64)).get_type(&s), Ok(ArrowDataType::Int64));
    assert_eq!(plus(col("a"), col("s")).get_type(&s), Err(PolarsError::DataTypeMisMatch));
    assert_eq!(plus(col("a"), col("x")).get_type(&s), Err(PolarsError::NotFound));
    assert_eq!(col("s").is_null().get_type(&s), Ok(ArrowDataType::Boolean));
    assert_eq!(col("s").is_not_null().get_type(&s), Ok(ArrowDataType::Boolean));
    assert_eq!(col("s").not().get_type(&s), Ok(ArrowDataType::Boolean));
    assert_eq!(col("b").agg_min().get_type(&s), Ok(ArrowDataType::Float64));
    assert_eq!(get_supertype(ArrowDataType::Utf8, ArrowDataType::Utf8), Ok(ArrowDataType::Utf8));
    assert_eq!(get_supertype(ArrowDataType::UInt8, ArrowDataType::Int8), Ok(ArrowDataType::Int8));

    let field = |e: Expr| e.to_field(&s).map(|f| (f.name, f.data_type, f.nullable));
    assert_eq!(field(col("a")), Ok(("a".to_string(), ArrowDataType::Int32, false)));
    assert_eq!(field(col("x")), Err(PolarsError::NotFound));
    assert_eq!(field(col("a").alias("z")), Ok(("z".to_string(), ArrowDataType::Int32, true)));
    assert_eq!(field(lit(true)), Ok(("lit".to_string(), ArrowDataType::Boolean, true)));
    assert_eq!(
        field(plus(col("a"), col("b"))),
        Ok(("binary_expr".to_string(), ArrowDataType::Float64, true))
    );
    assert_eq!(field(col("a").eq(col("s"))), Err(PolarsError::DataTypeMisMatch));
    assert_eq!(field(col("a").not()), Ok(("not".to_string(), ArrowDataType::Boolean, true)));
    assert_eq!(field(col("a").is_null()), Ok(("is_null".to_string(), ArrowDataType::Boolean, true)));
    assert_eq!(
        field(col("a").is_not_null()),
        Ok(("is_not_null".to_string(), ArrowDataType::Boolean, true))
    );
    assert_eq!(field(col("a").agg_min()), Ok(("a_min".to_string(), ArrowDataType::Int32, false)));
    assert_eq!(
        field(Expr::Sort { expr: Box::new(col("b")), reverse: true }),
        Ok(("b".to_string(), ArrowDataType::Float64, true))
    );
    assert_eq!(s.field_with_name("s").unwrap().data_type, ArrowDataType::Utf8);
}

fn scan() -> LogicalPlan {
    let df = DataFrame::new(vec![Series::new(
        "a",
        DataType::Int32,
        vec![AnyType::Int32(1)],
    )
    .unwrap()])
    .unwrap();
    LogicalPlan::DataFrameScan { df }
}

#[test]
fn plans_mirror_the_query() {
    let planner = DefaultPlanner::default();
    let plan = LogicalPlan::Sort {
        input: Box::new(LogicalPlan::Projection {
            expr: vec![col("a").alias("b"), lit(1i32)],
            input: Box::new(LogicalPlan::Filter {
                input: Box::new(scan()),
                predicate: col("a").gt(lit(0i32)),
            }),
        }),
        expr: vec![col("b")],
    };
    let physical = planner.create_physical_plan(&plan).unwrap();
    match physical {
        Executor::Pipe { operation, input, exprs } => {
            assert_eq!(operation, "sort");
            assert_eq!(exprs.len(), 1);
            assert!(matches!(&exprs[0], PhysicalExpr::Column(n) if n == "b"));
            match *input {
                Executor::Pipe { operation, input, exprs } => {
                    assert_eq!(operation, "projection");
                    assert!(matches!(&exprs[0], PhysicalExpr::Alias(_, n) if n == "b"));
                    assert!(matches!(&exprs[1], PhysicalExpr::Literal(ScalarValue::Int32(1))));
                    match *input {
                        Executor::Filter { predicate, input } => {
                            assert!(matches!(
                                predicate,
                                PhysicalExpr::Binary { op: Operator::Gt, .. }
                            ));
                            assert!(matches!(*input, Executor::DataFrame { .. }));
                        }
                        _ => panic!("no filter"),
                    }
                }
                _ => panic!("no projection"),
            }
        }
        _ => panic!("no sort"),
    }
    let csv = LogicalPlan::CsvScan {
        path: "data.csv".to_string(),
        schema: schema(),
        has_header: true,
        delimiter: Some(b';'),
    };
    assert!(matches!(
        planner.create_initial_physical_plan(&csv),
        Ok(Executor::Csv { has_header: true, delimiter: Some(b';'), .. })
    ));
    let bad = LogicalPlan::Filter { input: Box::new(scan()), predicate: col("a").agg_min() };
    assert!(matches!(
        planner.create_initial_physical_plan(&bad),
        Err(PolarsError::InvalidOperation)
    ));
    let bad = LogicalPlan::Projection { expr: vec![col("a"), col("a").agg_min().not()], input: Box::new(scan()) };
    assert!(matches!(planner.create_physical_plan(&bad), Err(PolarsError::InvalidOperation)));
    assert!(matches!(
        planner.create_physical_expr(&col("a").is_null()),
        Ok(PhysicalExpr::IsNull(_))
    ));
    assert!(matches!(
        planner.create_physical_expr(&col("a").is_not_null().not()),
        Ok(PhysicalExpr::Not(_))
    ));
    assert!(matches!(
        planner.create_physical_expr(&Expr::Sort { expr: Box::new(col("a")), reverse: true }),
        Ok(PhysicalExpr::Sort { reverse: true, .. })
    ));
}

#[test]
fn times_pass_through_as_numbers() {
    assert_eq!(date32_as_datetime(3).date(), 3);
    assert_eq!(date64_as_datetime(-4).date(), -4);
    assert_eq!(time32_millisecond_as_time(5), 5);
    assert_eq!(time32_second_as_time(6), 6);
    assert_eq!(time64_nanosecond_as_time(7), 7);
    assert_eq!(time64_microsecond_as_time(8), 8);
    assert_eq!(timestamp_nanoseconds_as_datetime(9), 9);
    assert_eq!(timestamp_microseconds_as_datetime(10), 10);
    assert_eq!(timestamp_milliseconds_as_datetime(11), 11);
    assert_eq!(timestamp_seconds_as_datetime(12), 12);
}
