//! Hashing the keys of both sides of a join with one hasher state.
//!
//! The hash of a key depends on keys that `ahash` draws anew in each
//! process, so no value is claimed for it: only that one state hashes equal
//! keys alike, which is what a table lookup relies on.

use crate::hash_join::keys::{keys_view, JoinKey};
use crate::hash_join::relation::hashes_agree;
use rayon::iter::{IntoParallelRefIterator, ParallelIterator};
use vstd::prelude::*;

verus! {

/// `ahash::RandomState::hash_one` on every key of two relations, with one
/// state, the keys handed out to `rayon`'s workers: a hash per key, in the
/// order of the keys, and equal keys get equal hashes, within each relation
/// and across them.  Nothing proves this; hashers built from one state are
/// documented to hash equal input alike.
#[verifier::external_body]
pub(crate) fn hash_relations(
    state: &ahash::RandomState,
    probe: &Vec<JoinKey>,
    build: &Vec<JoinKey>,
) -> (r: (Vec<u64>, Vec<u64>))
    ensures
        hashes_agree(keys_view(probe@), r.0@, keys_view(build@), r.1@),
        hashes_agree(keys_view(probe@), r.0@, keys_view(probe@), r.0@),
        hashes_agree(keys_view(build@), r.1@, keys_view(build@), r.1@),
{
    (
        probe.par_iter().map(|k| state.hash_one(k)).collect(),
        build.par_iter().map(|k| state.hash_one(k)).collect(),
    )
}

} // verus!
