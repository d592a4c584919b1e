//! Operations on whole columns: filling nulls, shifting, filtering,
//! reversing, sorting, zipping and the like.

pub mod argsort;
pub mod fill;
pub mod order;
pub mod set;
pub mod shape;
pub mod sort;
