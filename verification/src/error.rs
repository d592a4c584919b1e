//! The error kinds that every fallible operation of the engine reports.

use vstd::prelude::*;

verus! {

#[derive(Debug, Clone, PartialEq, Eq)]
pub enum PolarsError {
    /// The operation is not defined for this kind of column.
    InvalidOperation,
    /// Two operands differ in length.
    ShapeMisMatch,
    /// Two operands differ in element type.
    DataTypeMisMatch,
    /// No column carries the requested name.
    NotFound,
    /// An index lies outside the column or frame.
    OutOfBounds,
    /// A column name occurs twice in one frame.
    Duplicate,
    /// An aggregation was asked for before a column was selected.
    NoSelection,
    /// The data holds nulls where none are allowed.
    HasNullValues,
    /// The data is not one run of non-null values.
    NoSlice,
    /// There is nothing to work on.
    NoData,
    /// A computed value does not fit.
    ComputeError,
}

pub type PolarsResult<T> = Result<T, PolarsError>;

} // verus!
