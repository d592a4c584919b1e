//! What most users of the engine need, under one path.

pub use crate::arithmetic::{ArithOp, LhsNumOps};
pub use crate::builders::NamedFrom;
pub use crate::datatypes::{AnyType, DataType};
pub use crate::error::{PolarsError, PolarsResult};
pub use crate::frame::DataFrame;
pub use crate::group_agg::Agg;
pub use crate::group_by::{GroupBy, IntoGroupTuples, NumericAggSync};
pub use crate::hash_join::frames::{JoinType, ZipOuterJoinColumn};
pub use crate::hash_join::rows::HashJoin;
pub use crate::ops::argsort::ChunkSort;
pub use crate::ops::fill::{
    ChunkAgg, ChunkAggSeries, ChunkExpandAtIndex, ChunkFillNone, ChunkFull, FillNoneStrategy,
};
pub use crate::ops::set::{ChunkApply, ChunkCast, ChunkCompare, ChunkSet, Comparison};
pub use crate::ops::shape::{ChunkFilter, ChunkReverse, ChunkShift, ChunkZip};
pub use crate::select::Selection;
pub use crate::series::Series;
pub use crate::take::{IntoTakeRandom, NumTakeRandomCont, Take, TakeRandom};
pub use crate::take_index::{AsTakeIndex, ChunkTake, TakeRandomUtf8};
pub use crate::unique::{ChunkUnique, Unique, ValueCounts};
