//! Handing the pieces of a join out to `rayon`'s workers.
//!
//! Each function here maps a verified function over the pieces in parallel
//! and collects the results in the order of the pieces.  Nothing in this
//! file is proved: the contracts restate, piece by piece, what the mapped
//! function ensures.

use crate::hash_join::keys::{keys_view, JoinKey};
use crate::hash_join::prepare::build_table;
use crate::hash_join::probe::{probe_inner_partition, probe_left_partition};
use crate::hash_join::relation::{hashes_agree, probe_inner_range, probe_left_range, tables_of};
use crate::hash_join::table::{tables_view, Table};
use rayon::iter::{IntoParallelIterator, IntoParallelRefIterator, ParallelIterator};
use vstd::prelude::*;

verus! {

/// `rayon`'s parallel `map` and `collect` over the table numbers `0..n`,
/// with `build_table` as the mapped function: table `t` of the result is
/// what `build_table` returns for `t`.
#[verifier::external_body]
pub(crate) fn par_build_tables(
    state: &ahash::RandomState,
    keys: &Vec<JoinKey>,
    hashes: &Vec<u64>,
    n: usize,
) -> (tables: Vec<Table>)
    requires
        n >= 1,
        hashes_agree(keys_view(keys@), hashes@, keys_view(keys@), hashes@),
    ensures
        tables_view(tables@) == tables_of(keys_view(keys@), hashes@, n as int),
{
    (0..n).into_par_iter().map(|t| build_table(state, keys, hashes, t, n)).collect()
}

/// `rayon`'s parallel `map` and `collect` over the pieces of the probe
/// side, with `probe_inner_partition` as the mapped function: part `p` of
/// the result is what it returns for piece `p`.
#[verifier::external_body]
pub(crate) fn par_probe_inner(
    probe_keys: &Vec<JoinKey>,
    probe_hashes: &Vec<u64>,
    hash_tbls: &Vec<Table>,
    ranges: &Vec<(usize, usize)>,
    swap: bool,
) -> (parts: Vec<Vec<(usize, usize)>>)
    requires
        hash_tbls.len() >= 1,
        probe_keys.len() == probe_hashes.len(),
        forall|p: int|
            0 <= p < ranges.len() ==> (#[trigger] ranges[p]).0 <= ranges[p].1 <= probe_keys.len(),
    ensures
        parts.len() == ranges.len(),
        forall|p: int|
            0 <= p < ranges.len() ==> (#[trigger] parts[p])@ == probe_inner_range(
                keys_view(probe_keys@),
                probe_hashes@,
                tables_view(hash_tbls@),
                swap,
                ranges[p].0 as int,
                ranges[p].1 as int,
            ),
{
    ranges.par_iter().map(
        |r| probe_inner_partition(probe_keys, probe_hashes, hash_tbls, r.0, r.1, swap),
    ).collect()
}

/// `rayon`'s parallel `map` and `collect` over the pieces of the probe
/// side, with `probe_left_partition` as the mapped function: part `p` of
/// the result is what it returns for piece `p`.
#[verifier::external_body]
pub(crate) fn par_probe_left(
    probe_keys: &Vec<JoinKey>,
    probe_hashes: &Vec<u64>,
    hash_tbls: &Vec<Table>,
    ranges: &Vec<(usize, usize)>,
) -> (parts: Vec<Vec<(usize, Option<usize>)>>)
    requires
        hash_tbls.len() >= 1,
        probe_keys.len() == probe_hashes.len(),
        forall|p: int|
            0 <= p < ranges.len() ==> (#[trigger] ranges[p]).0 <= ranges[p].1 <= probe_keys.len(),
    ensures
        parts.len() == ranges.len(),
        forall|p: int|
            0 <= p < ranges.len() ==> (#[trigger] parts[p])@ == probe_left_range(
                keys_view(probe_keys@),
                probe_hashes@,
                tables_view(hash_tbls@),
                ranges[p].0 as int,
                ranges[p].1 as int,
            ),
{
    ranges.par_iter().map(
        |r| probe_left_partition(probe_keys, probe_hashes, hash_tbls, r.0, r.1),
    ).collect()
}

} // verus!
