//! An in-memory columnar engine: typed nullable columns, frames of equally
//! long columns, hash joins (inner, left, outer; one key or several) and
//! group-by aggregation.

pub mod agg_context;
pub mod arithmetic;
pub mod builders;
pub mod datatypes;
pub mod decimal;
pub mod error;
pub mod fmt;
pub mod fmt_text;
pub mod frame;
pub mod group_agg;
pub mod group_by;
pub mod group_par;
pub mod hash_join;
pub mod lazy;
pub mod matrix;
pub mod ops;
pub mod prelude;
pub mod select;
pub mod series;
pub mod slice;
pub mod take;
pub mod take_index;
pub mod temporal;
pub mod time;
pub mod unique;
