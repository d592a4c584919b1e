//! Hash joins: the index pairs that a join of two key columns yields, and
//! the partitioned hash tables that produce them.

pub mod frames;
pub mod hashing;
pub mod keys;
pub mod laws;
pub mod names;
pub mod outer;
pub mod parallel;
pub mod partition;
pub mod prepare;
pub mod probe;
pub mod relation;
pub mod rows;
pub mod table;
pub mod threads;
pub mod tuples;
