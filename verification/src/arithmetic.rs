//! Arithmetic on columns of integers, row by row.

use crate::datatypes::{all_fit, values_view, AnyType, DataType, Value};
use crate::error::{PolarsError, PolarsResult};
use crate::datatypes::TimeUnit;
use crate::ops::fill::{cell_of_int, full_values, result_view, value_of_int};
use crate::series::{Series, SeriesView};
use vstd::prelude::*;

verus! {

/// Whether columns of this element type take part in arithmetic: the
/// integers, the dates, the times of day, and the durations that count in
/// nanoseconds.
pub open spec fn is_arithmetic(dtype: DataType) -> bool {
    dtype is UInt32 || dtype is Int32 || dtype is Int64 || dtype is Date32 || dtype is Date64
        || dtype is Time64Nanosecond || dtype == DataType::Duration(TimeUnit::Nanosecond)
}

/// Whether columns of this element type take part in arithmetic.
pub fn arithmetic_type(dtype: DataType) -> (r: bool)
    ensures
        r == is_arithmetic(dtype),
{
    match dtype {
        DataType::UInt32 | DataType::Int32 | DataType::Int64 | DataType::Date32
        | DataType::Date64 | DataType::Time64Nanosecond => true,
        DataType::Duration(u) => match u {
            TimeUnit::Nanosecond => true,
            _ => false,
        },
        _ => false,
    }
}

/// The four operations.
#[derive(Clone, Copy, Debug, PartialEq, Eq, Structural)]
pub enum ArithOp {
    Add,
    Sub,
    Mul,
    Div,
}

/// The operation on two unsigned 32-bit numbers, wrapping round at the
/// type's bounds; a quotient by zero is the dividend.
pub open spec fn apply_u32(op: ArithOp, x: u32, y: u32) -> u32 {
    match op {
        ArithOp::Add => x.wrapping_add(y),
        ArithOp::Sub => x.wrapping_sub(y),
        ArithOp::Mul => x.wrapping_mul(y),
        ArithOp::Div => match x.checked_div(y) {
            Some(q) => q,
            None => x,
        },
    }
}

/// The operation on two signed 32-bit numbers, wrapping round at the type's
/// bounds; a quotient rounds towards zero.
pub open spec fn apply_i32(op: ArithOp, x: i32, y: i32) -> i32 {
    match op {
        ArithOp::Add => x.wrapping_add(y),
        ArithOp::Sub => x.wrapping_sub(y),
        ArithOp::Mul => x.wrapping_mul(y),
        ArithOp::Div => match x.checked_div(y) {
            Some(q) => q,
            None => x,
        },
    }
}

/// The operation on two signed 64-bit numbers, wrapping round at the type's
/// bounds; a quotient rounds towards zero.
pub open spec fn apply_i64(op: ArithOp, x: i64, y: i64) -> i64 {
    match op {
        ArithOp::Add => x.wrapping_add(y),
        ArithOp::Sub => x.wrapping_sub(y),
        ArithOp::Mul => x.wrapping_mul(y),
        ArithOp::Div => match x.checked_div(y) {
            Some(q) => q,
            None => x,
        },
    }
}

/// The operation on two cells: null where either is null.
pub open spec fn arith_value(op: ArithOp, a: Value, b: Value) -> Value {
    match (a, b) {
        (Value::UInt32(x), Value::UInt32(y)) => Value::UInt32(apply_u32(op, x, y)),
        (Value::Int32(x), Value::Int32(y)) => Value::Int32(apply_i32(op, x, y)),
        (Value::Int64(x), Value::Int64(y)) => Value::Int64(apply_i64(op, x, y)),
        (Value::Date32(x), Value::Date32(y)) => Value::Date32(apply_i32(op, x, y)),
        (Value::Date64(x), Value::Date64(y)) => Value::Date64(apply_i64(op, x, y)),
        (Value::Time64Nanosecond(x), Value::Time64Nanosecond(y)) => Value::Time64Nanosecond(
            apply_i64(op, x, y),
        ),
        (Value::Duration(x, u), Value::Duration(y, v)) => if u == v {
            Value::Duration(apply_i64(op, x, y), u)
        } else {
            Value::Null
        },
        _ => Value::Null,
    }
}

/// The operation on two columns, row by row.
pub open spec fn arith_values(op: ArithOp, a: Seq<Value>, b: Seq<Value>) -> Seq<Value> {
    Seq::new(a.len(), |i: int| arith_value(op, a[i], b[i]))
}

/// Whether row `i` divides a value by zero.
pub open spec fn zero_divides(a: Seq<Value>, b: Seq<Value>, i: int) -> bool {
    0 <= i < a.len() && i < b.len() && !(a[i] is Null) && b[i].as_int() == Some(0int)
}

/// Whether the operation divides a value by zero in some row.
pub open spec fn divides_by_zero(op: ArithOp, a: Seq<Value>, b: Seq<Value>) -> bool {
    op is Div && exists|i: int| zero_divides(a, b, i)
}

/// What the operation on two columns gives: refused for columns that are
/// not of integers, for columns of different types or lengths, and for a
/// division by zero.
pub open spec fn arith_spec(op: ArithOp, lhs: SeriesView, rhs: SeriesView) -> Result<
    SeriesView,
    PolarsError,
> {
    if !is_arithmetic(lhs.dtype) {
        Err(PolarsError::InvalidOperation)
    } else if rhs.dtype != lhs.dtype {
        Err(PolarsError::DataTypeMisMatch)
    } else if rhs.values.len() != lhs.values.len() {
        Err(PolarsError::ShapeMisMatch)
    } else if divides_by_zero(op, lhs.values, rhs.values) {
        Err(PolarsError::ComputeError)
    } else {
        Ok(lhs.with_values(arith_values(op, lhs.values, rhs.values)))
    }
}

fn op_u32(op: ArithOp, x: u32, y: u32) -> (r: u32)
    ensures
        r == apply_u32(op, x, y),
{
    match op {
        ArithOp::Add => x.wrapping_add(y),
        ArithOp::Sub => x.wrapping_sub(y),
        ArithOp::Mul => x.wrapping_mul(y),
        ArithOp::Div => match x.checked_div(y) {
            Some(q) => q,
            None => x,
        },
    }
}

fn op_i32(op: ArithOp, x: i32, y: i32) -> (r: i32)
    ensures
        r == apply_i32(op, x, y),
{
    match op {
        ArithOp::Add => x.wrapping_add(y),
        ArithOp::Sub => x.wrapping_sub(y),
        ArithOp::Mul => x.wrapping_mul(y),
        ArithOp::Div => match x.checked_div(y) {
            Some(q) => q,
            None => x,
        },
    }
}

fn op_i64(op: ArithOp, x: i64, y: i64) -> (r: i64)
    ensures
        r == apply_i64(op, x, y),
{
    match op {
        ArithOp::Add => x.wrapping_add(y),
        ArithOp::Sub => x.wrapping_sub(y),
        ArithOp::Mul => x.wrapping_mul(y),
        ArithOp::Div => match x.checked_div(y) {
            Some(q) => q,
            None => x,
        },
    }
}

/// The operation on two cells.
pub fn arith_cells(op: ArithOp, a: &AnyType, b: &AnyType) -> (r: AnyType)
    ensures
        r@ == arith_value(op, a@, b@),
{
    match (a, b) {
        (AnyType::UInt32(x), AnyType::UInt32(y)) => AnyType::UInt32(op_u32(op, *x, *y)),
        (AnyType::Int32(x), AnyType::Int32(y)) => AnyType::Int32(op_i32(op, *x, *y)),
        (AnyType::Int64(x), AnyType::Int64(y)) => AnyType::Int64(op_i64(op, *x, *y)),
        (AnyType::Date32(x), AnyType::Date32(y)) => AnyType::Date32(op_i32(op, *x, *y)),
        (AnyType::Date64(x), AnyType::Date64(y)) => AnyType::Date64(op_i64(op, *x, *y)),
        (AnyType::Time64Nanosecond(x), AnyType::Time64Nanosecond(y)) => AnyType::Time64Nanosecond(
            op_i64(op, *x, *y),
        ),
        (AnyType::Duration(x, u), AnyType::Duration(y, v)) => if *u == *v {
            AnyType::Duration(op_i64(op, *x, *y), *u)
        } else {
            AnyType::Null
        },
        _ => AnyType::Null,
    }
}

/// Whether a cell holds the number zero.
fn is_zero(cell: &AnyType) -> (r: bool)
    ensures
        r == (cell@.as_int() == Some(0int)),
{
    match cell {
        AnyType::UInt32(v) => *v == 0,
        AnyType::Int32(v) => *v == 0,
        AnyType::Int64(v) => *v == 0,
        AnyType::Date32(v) => *v == 0,
        AnyType::Date64(v) => *v == 0,
        AnyType::Time64Nanosecond(v) => *v == 0,
        AnyType::Duration(v, _) => *v == 0,
        AnyType::TimeStamp(v, _) => *v == 0,
        AnyType::IntervalDayTime(v) => *v == 0,
        AnyType::IntervalYearMonth(v) => *v == 0,
        _ => false,
    }
}

impl Series {
    /// The operation on this column and another, row by row.
    pub fn arithmetic(&self, op: ArithOp, rhs: &Series) -> (r: PolarsResult<Series>)
        ensures
            result_view(r) == arith_spec(op, self@, rhs@),
    {
        if !arithmetic_type(self.dtype()) {
            return Err(PolarsError::InvalidOperation);
        }
        if rhs.dtype() != self.dtype() {
            return Err(PolarsError::DataTypeMisMatch);
        }
        if rhs.len() != self.len() {
            return Err(PolarsError::ShapeMisMatch);
        }
        let left = self.values();
        let right = rhs.values();
        let by_zero = match op {
            ArithOp::Div => true,
            _ => false,
        };
        let mut out: Vec<AnyType> = Vec::with_capacity(left.len());
        let mut i: usize = 0;
        while i < left.len()
            invariant
                i <= left.len(),
                left.len() == right.len(),
                out.len() == i,
                by_zero == (op is Div),
                is_arithmetic(self@.dtype),
                rhs@.dtype == self@.dtype,
                rhs@.values.len() == self@.values.len(),
                values_view(left@) == self@.values,
                values_view(right@) == rhs@.values,
                all_fit(self@.values, self@.dtype),
                all_fit(rhs@.values, self@.dtype),
                forall|j: int| 0 <= j < i ==> !(by_zero && zero_divides(self@.values, rhs@.values, j)),
                forall|j: int|
                    0 <= j < i ==> (#[trigger] out[j])@ == arith_value(
                        op,
                        self@.values[j],
                        rhs@.values[j],
                    ) && out[j]@.fits(self@.dtype),
            decreases left.len() - i,
        {
            if by_zero && !left[i].is_null() && is_zero(&right[i]) {
                assert(zero_divides(self@.values, rhs@.values, i as int));
                return Err(PolarsError::ComputeError);
            }
            assert(self@.values[i as int].fits(self@.dtype));
            assert(rhs@.values[i as int].fits(self@.dtype));
            out.push(arith_cells(op, &left[i], &right[i]));
            i += 1;
        }
        assert(values_view(out@) =~= arith_values(op, self@.values, rhs@.values));
        Ok(Series::from_fitting(self.name().clone(), self.dtype(), out))
    }

    /// This column minus the other, row by row.
    pub fn subtract(&self, rhs: &Series) -> (r: PolarsResult<Series>)
        ensures
            result_view(r) == arith_spec(ArithOp::Sub, self@, rhs@),
    {
        self.arithmetic(ArithOp::Sub, rhs)
    }

    /// This column plus the other, row by row.
    pub fn add_to(&self, rhs: &Series) -> (r: PolarsResult<Series>)
        ensures
            result_view(r) == arith_spec(ArithOp::Add, self@, rhs@),
    {
        self.arithmetic(ArithOp::Add, rhs)
    }

    /// This column times the other, row by row.
    pub fn multiply(&self, rhs: &Series) -> (r: PolarsResult<Series>)
        ensures
            result_view(r) == arith_spec(ArithOp::Mul, self@, rhs@),
    {
        self.arithmetic(ArithOp::Mul, rhs)
    }

    /// This column divided by the other, row by row.
    pub fn divide(&self, rhs: &Series) -> (r: PolarsResult<Series>)
        ensures
            result_view(r) == arith_spec(ArithOp::Div, self@, rhs@),
    {
        self.arithmetic(ArithOp::Div, rhs)
    }
}

/// The column of as many rows as `ca` that all hold the number `v`, in the
/// type of `ca`.
pub open spec fn scalar_column(ca: SeriesView, v: int) -> SeriesView {
    ca.with_values(full_values(value_of_int(ca.dtype, v), ca.values.len()))
}

/// What the operation on a column and a number gives, the number on the
/// right or on the left: refused for columns that are not of integers, for
/// a number that the column's type cannot hold, and for a division by zero.
pub open spec fn scalar_spec(op: ArithOp, ca: SeriesView, v: int, number_left: bool) -> Result<
    SeriesView,
    PolarsError,
> {
    if !is_arithmetic(ca.dtype) {
        Err(PolarsError::InvalidOperation)
    } else if value_of_int(ca.dtype, v) is Null {
        Err(PolarsError::ComputeError)
    } else if number_left {
        arith_spec(op, scalar_column(ca, v), ca)
    } else {
        arith_spec(op, ca, scalar_column(ca, v))
    }
}

impl Series {
    /// The operation on each row of this column and a number.
    pub fn arithmetic_scalar(&self, op: ArithOp, v: i64, number_left: bool) -> (r: PolarsResult<
        Series,
    >)
        ensures
            result_view(r) == scalar_spec(op, self@, v as int, number_left),
    {
        if !arithmetic_type(self.dtype()) {
            return Err(PolarsError::InvalidOperation);
        }
        let cell = cell_of_int(self.dtype(), v as i128);
        if cell.is_null() {
            return Err(PolarsError::ComputeError);
        }
        let numbers = Series::full_of(self.name().as_str(), self.dtype(), &cell, self.len());
        if number_left {
            numbers.arithmetic(op, self)
        } else {
            self.arithmetic(op, &numbers)
        }
    }
}

/// Arithmetic with the number on the left.
pub trait LhsNumOps<Rhs> {
    type Output;

    fn add(self, rhs: Rhs) -> Self::Output;

    fn sub(self, rhs: Rhs) -> Self::Output;

    fn div(self, rhs: Rhs) -> Self::Output;

    fn mul(self, rhs: Rhs) -> Self::Output;
}

impl LhsNumOps<&Series> for i64 {
    type Output = PolarsResult<Series>;

    fn add(self, rhs: &Series) -> (r: PolarsResult<Series>)
        ensures
            result_view(r) == scalar_spec(ArithOp::Add, rhs@, self as int, true),
    {
        rhs.arithmetic_scalar(ArithOp::Add, self, true)
    }

    fn sub(self, rhs: &Series) -> (r: PolarsResult<Series>)
        ensures
            result_view(r) == scalar_spec(ArithOp::Sub, rhs@, self as int, true),
    {
        rhs.arithmetic_scalar(ArithOp::Sub, self, true)
    }

    fn div(self, rhs: &Series) -> (r: PolarsResult<Series>)
        ensures
            result_view(r) == scalar_spec(ArithOp::Div, rhs@, self as int, true),
    {
        rhs.arithmetic_scalar(ArithOp::Div, self, true)
    }

    fn mul(self, rhs: &Series) -> (r: PolarsResult<Series>)
        ensures
            result_view(r) == scalar_spec(ArithOp::Mul, rhs@, self as int, true),
    {
        rhs.arithmetic_scalar(ArithOp::Mul, self, true)
    }
}

/// What the operator gives is said where it is defined, not here.
impl<'a> vstd::std_specs::ops::AddSpecImpl for &'a Series {
    open spec fn obeys_add_spec() -> bool {
        false
    }

    open spec fn add_req(self, rhs: &'a Series) -> bool {
        true
    }

    open spec fn add_spec(self, rhs: &'a Series) -> PolarsResult<Series> {
        arbitrary()
    }
}

/// `&a + &b` is `a.add_to(&b)`.
impl<'a> core::ops::Add for &'a Series {
    type Output = PolarsResult<Series>;

    fn add(self, rhs: &'a Series) -> (r: PolarsResult<Series>)
        ensures
            result_view(r) == arith_spec(ArithOp::Add, self@, rhs@),
    {
        self.add_to(rhs)
    }
}

/// What the operator gives is said where it is defined, not here.
impl<'a> vstd::std_specs::ops::SubSpecImpl for &'a Series {
    open spec fn obeys_sub_spec() -> bool {
        false
    }

    open spec fn sub_req(self, rhs: &'a Series) -> bool {
        true
    }

    open spec fn sub_spec(self, rhs: &'a Series) -> PolarsResult<Series> {
        arbitrary()
    }
}

/// `&a - &b` is `a.subtract(&b)`.
impl<'a> core::ops::Sub for &'a Series {
    type Output = PolarsResult<Series>;

    fn sub(self, rhs: &'a Series) -> (r: PolarsResult<Series>)
        ensures
            result_view(r) == arith_spec(ArithOp::Sub, self@, rhs@),
    {
        self.subtract(rhs)
    }
}

/// What the operator gives is said where it is defined, not here.
impl<'a> vstd::std_specs::ops::MulSpecImpl for &'a Series {
    open spec fn obeys_mul_spec() -> bool {
        false
    }

    open spec fn mul_req(self, rhs: &'a Series) -> bool {
        true
    }

    open spec fn mul_spec(self, rhs: &'a Series) -> PolarsResult<Series> {
        arbitrary()
    }
}

/// `&a * &b` is `a.multiply(&b)`.
impl<'a> core::ops::Mul for &'a Series {
    type Output = PolarsResult<Series>;

    fn mul(self, rhs: &'a Series) -> (r: PolarsResult<Series>)
        ensures
            result_view(r) == arith_spec(ArithOp::Mul, self@, rhs@),
    {
        self.multiply(rhs)
    }
}

/// What the operator gives is said where it is defined, not here.
impl<'a> vstd::std_specs::ops::DivSpecImpl for &'a Series {
    open spec fn obeys_div_spec() -> bool {
        false
    }

    open spec fn div_req(self, rhs: &'a Series) -> bool {
        true
    }

    open spec fn div_spec(self, rhs: &'a Series) -> PolarsResult<Series> {
        arbitrary()
    }
}

/// `&a / &b` is `a.divide(&b)`.
impl<'a> core::ops::Div for &'a Series {
    type Output = PolarsResult<Series>;

    fn div(self, rhs: &'a Series) -> (r: PolarsResult<Series>)
        ensures
            result_view(r) == arith_spec(ArithOp::Div, self@, rhs@),
    {
        self.divide(rhs)
    }
}

} // verus!
