//! The three join algorithms over the keys of two relations: hash and
//! partition, build the tables, probe, and put the parts together.

use crate::hash_join::hashing::hash_relations;
use crate::hash_join::keys::{keys_view, JoinKey};
use crate::hash_join::parallel::{par_build_tables, par_probe_inner, par_probe_left};
use crate::hash_join::partition::{lemma_split_range, split_offsets, split_range};
use crate::hash_join::relation::{
    hashes_agree, inner_range, inner_tuples, left_range, left_tuples, lemma_inner_range_split,
    lemma_left_range_split, lemma_probe_inner, lemma_probe_left, tables_of,
};
use crate::hash_join::table::{random_state, tables_view, Table};
use vstd::prelude::*;

verus! {

/// Adds a copy of every item of `part` to `out`.
pub fn append_copy<T: Copy>(out: &mut Vec<T>, part: &Vec<T>)
    ensures
        final(out)@ == old(out)@ + part@,
{
    let mut x: usize = 0;
    assert(out@ =~= old(out)@ + part@.take(0));
    while x < part.len()
        invariant
            x <= part.len(),
            out@ == old(out)@ + part@.take(x as int),
        decreases part.len() - x,
    {
        out.push(part[x]);
        assert(out@ =~= old(out)@ + part@.take(x as int + 1));
        x += 1;
    }
    assert(part@.take(x as int) =~= part@);
}

/// The `n` tables over the build side, filled in parallel: a key whose
/// hash is `h` is in table `h % n` and in no other.
pub fn prepare_hashed_relation_threaded(
    state: &ahash::RandomState,
    keys: &Vec<JoinKey>,
    hashes: &Vec<u64>,
    n: usize,
) -> (tables: Vec<Table>)
    requires
        n >= 1,
        hashes_agree(keys_view(keys@), hashes@, keys_view(keys@), hashes@),
    ensures
        tables.len() == n,
        tables_view(tables@) == tables_of(keys_view(keys@), hashes@, n as int),
{
    let tables = par_build_tables(state, keys, hashes, n);
    assert(tables_view(tables@).len() == tables.len());
    tables
}

/// The end of piece `p - 1`, which is the start of piece `p`: row 0 before
/// the first piece, the number of rows behind the last.
pub open spec fn pieces_end(len: int, n: int, p: int) -> int {
    if p <= 0 {
        0
    } else {
        split_range(len, n, p - 1).1 as int
    }
}

/// Inner join of a probe side `a` with a build side `b`: the pairs
/// (probe row, build row) with equal keys, or (build row, probe row) under
/// `swap`; probe rows in order, and for each the build rows ascending.  The
/// number of workers changes nothing in the result.
pub fn hash_join_tuples_inner_threaded(
    a: &Vec<JoinKey>,
    b: &Vec<JoinKey>,
    swap: bool,
    n_threads: usize,
) -> (r: Vec<(usize, usize)>)
    requires
        n_threads >= 1,
    ensures
        r@ == inner_tuples(keys_view(a@), keys_view(b@), swap),
{
    let ghost ka = keys_view(a@);
    let ghost kb = keys_view(b@);
    let n = n_threads;
    let state = random_state();
    let (hashes_a, hashes_b) = hash_relations(&state, a, b);
    let hash_tbls = prepare_hashed_relation_threaded(&state, b, &hashes_b, n);
    let ranges = split_offsets(a.len(), n);
    proof {
        assert forall|p: int| 0 <= p < ranges.len() implies (#[trigger] ranges[p]).0
            <= ranges[p].1 <= a.len() by {
            lemma_split_range(a.len() as int, n as int, p);
        }
    }
    let parts = par_probe_inner(a, &hashes_a, &hash_tbls, &ranges, swap);
    let mut out: Vec<(usize, usize)> = Vec::new();
    let mut p: usize = 0;
    assert(out@ =~= inner_range(ka, kb, swap, 0, 0));
    while p < n
        invariant
            n >= 1,
            p <= n,
            ka == keys_view(a@),
            kb == keys_view(b@),
            ranges.len() == n,
            parts.len() == n,
            hash_tbls.len() == n,
            hashes_agree(ka, hashes_a@, kb, hashes_b@),
            tables_view(hash_tbls@) == tables_of(kb, hashes_b@, n as int),
            forall|q: int|
                0 <= q < n ==> #[trigger] ranges[q] == split_range(a.len() as int, n as int, q),
            forall|q: int|
                0 <= q < n ==> (#[trigger] parts[q])@ == crate::hash_join::relation::probe_inner_range(
                    ka,
                    hashes_a@,
                    tables_view(hash_tbls@),
                    swap,
                    ranges[q].0 as int,
                    ranges[q].1 as int,
                ),
            out@ == inner_range(ka, kb, swap, 0, pieces_end(a.len() as int, n as int, p as int)),
        decreases n - p,
    {
        proof {
            let len = a.len() as int;
            assert(kb.len() == b.len());
            lemma_split_range(len, n as int, p as int);
            if p > 0 {
                lemma_split_range(len, n as int, p as int - 1);
            }
            let lo = ranges[p as int].0 as int;
            let hi = ranges[p as int].1 as int;
            assert(lo == pieces_end(len, n as int, p as int));
            assert(hi == pieces_end(len, n as int, p as int + 1));
            lemma_probe_inner(ka, hashes_a@, kb, hashes_b@, n as int, swap, lo, hi);
            lemma_inner_range_split(ka, kb, swap, 0, lo, hi);
        }
        append_copy(&mut out, &parts[p]);
        p += 1;
    }
    proof {
        lemma_split_range(a.len() as int, n as int, n as int - 1);
    }
    out
}

/// Left join of a probe side `a` with a build side `b`: every probe row in
/// order, paired with each build row of its key, build rows ascending, or
/// once with nothing where no build row has its key.  The number of workers
/// changes nothing in the result.
pub fn hash_join_tuples_left_threaded(a: &Vec<JoinKey>, b: &Vec<JoinKey>, n_threads: usize) -> (r:
    Vec<(usize, Option<usize>)>)
    requires
        n_threads >= 1,
    ensures
        r@ == left_tuples(keys_view(a@), keys_view(b@)),
{
    let ghost ka = keys_view(a@);
    let ghost kb = keys_view(b@);
    let n = n_threads;
    let state = random_state();
    let (hashes_a, hashes_b) = hash_relations(&state, a, b);
    let hash_tbls = prepare_hashed_relation_threaded(&state, b, &hashes_b, n);
    let ranges = split_offsets(a.len(), n);
    proof {
        assert forall|p: int| 0 <= p < ranges.len() implies (#[trigger] ranges[p]).0
            <= ranges[p].1 <= a.len() by {
            lemma_split_range(a.len() as int, n as int, p);
        }
    }
    let parts = par_probe_left(a, &hashes_a, &hash_tbls, &ranges);
    let mut out: Vec<(usize, Option<usize>)> = Vec::new();
    let mut p: usize = 0;
    assert(out@ =~= left_range(ka, kb, 0, 0));
    while p < n
        invariant
            n >= 1,
            p <= n,
            ka == keys_view(a@),
            kb == keys_view(b@),
            ranges.len() == n,
            parts.len() == n,
            hash_tbls.len() == n,
            hashes_agree(ka, hashes_a@, kb, hashes_b@),
            tables_view(hash_tbls@) == tables_of(kb, hashes_b@, n as int),
            forall|q: int|
                0 <= q < n ==> #[trigger] ranges[q] == split_range(a.len() as int, n as int, q),
            forall|q: int|
                0 <= q < n ==> (#[trigger] parts[q])@ == crate::hash_join::relation::probe_left_range(
                    ka,
                    hashes_a@,
                    tables_view(hash_tbls@),
                    ranges[q].0 as int,
                    ranges[q].1 as int,
                ),
            out@ == left_range(ka, kb, 0, pieces_end(a.len() as int, n as int, p as int)),
        decreases n - p,
    {
        proof {
            let len = a.len() as int;
            assert(kb.len() == b.len());
            lemma_split_range(len, n as int, p as int);
            if p > 0 {
                lemma_split_range(len, n as int, p as int - 1);
            }
            let lo = ranges[p as int].0 as int;
            let hi = ranges[p as int].1 as int;
            assert(lo == pieces_end(len, n as int, p as int));
            assert(hi == pieces_end(len, n as int, p as int + 1));
            lemma_probe_left(ka, hashes_a@, kb, hashes_b@, n as int, lo, hi);
            lemma_left_range_split(ka, kb, 0, lo, hi);
        }
        append_copy(&mut out, &parts[p]);
        p += 1;
    }
    proof {
        lemma_split_range(a.len() as int, n as int, n as int - 1);
    }
    out
}

} // verus!
