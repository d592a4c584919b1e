//! Expressions over columns, and the plans that queries are turned into.

pub mod dsl;
pub mod planner;
pub mod schema;
pub mod show;
pub mod typing;
