//! Probing the hash tables with the rows of the probe side.

use crate::hash_join::keys::{keys_view, JoinKey};
use crate::hash_join::prepare::hash_table_index;
use crate::hash_join::relation::{
    found_rows, left_rows, pair, pair_rows, probe_inner_range, probe_left_range,
};
use crate::hash_join::table::{table_get, tables_view, Table};
use vstd::prelude::*;

verus! {

/// The table that holds the keys whose hash is `h`: table `h % n` of `n`.
pub fn get_hash_tbl_threaded_join(h: u64, hash_tables: &Vec<Table>) -> (tbl: &Table)
    requires
        hash_tables.len() >= 1,
    ensures
        *tbl == hash_tables[crate::hash_join::relation::table_index(h, hash_tables.len() as int)],
{
    &hash_tables[hash_table_index(h, hash_tables.len())]
}

/// The table that holds the keys whose hash is `h`, to be changed.
pub fn get_hash_tbl_threaded_join_mut(h: u64, hash_tables: &mut Vec<Table>) -> (tbl: &mut Table)
    requires
        old(hash_tables).len() >= 1,
    ensures
        *tbl == old(hash_tables)[crate::hash_join::relation::table_index(
            h,
            old(hash_tables).len() as int,
        )],
        final(hash_tables)@ == old(hash_tables)@.update(
            crate::hash_join::relation::table_index(h, old(hash_tables).len() as int),
            *final(tbl),
        ),
{
    let t = hash_table_index(h, hash_tables.len());
    &mut hash_tables[t]
}

/// Adds the pairs of probe row `i` with each of `rows` to `results`.
fn push_pairs(results: &mut Vec<(usize, usize)>, i: usize, rows: &Vec<usize>, swap: bool)
    ensures
        final(results)@ == old(results)@ + pair_rows(i, rows@, swap),
{
    let mut x: usize = 0;
    assert(results@ =~= old(results)@ + pair_rows(i, rows@.take(0), swap));
    while x < rows.len()
        invariant
            x <= rows.len(),
            results@ == old(results)@ + pair_rows(i, rows@.take(x as int), swap),
        decreases rows.len() - x,
    {
        let j = rows[x];
        let tuple = if swap {
            (j, i)
        } else {
            (i, j)
        };
        assert(tuple == pair(i, j, swap));
        results.push(tuple);
        assert(results@ =~= old(results)@ + pair_rows(i, rows@.take(x as int + 1), swap));
        x += 1;
    }
    assert(rows@.take(x as int) =~= rows@);
}

/// Probes the tables with rows `lo..hi` of the probe side and adds what an
/// inner join yields for them to `results`: for each probe row, the table
/// that its hash selects is asked for its key, and every row found there
/// gives a pair.  A row that finds nothing gives nothing.
pub fn probe_inner(
    probe_keys: &Vec<JoinKey>,
    probe_hashes: &Vec<u64>,
    hash_tbls: &Vec<Table>,
    results: &mut Vec<(usize, usize)>,
    lo: usize,
    hi: usize,
    swap: bool,
)
    requires
        hash_tbls.len() >= 1,
        lo <= hi <= probe_keys.len(),
        probe_keys.len() == probe_hashes.len(),
    ensures
        final(results)@ == old(results)@ + probe_inner_range(
            keys_view(probe_keys@),
            probe_hashes@,
            tables_view(hash_tbls@),
            swap,
            lo as int,
            hi as int,
        ),
{
    let ghost keys = keys_view(probe_keys@);
    let ghost tables = tables_view(hash_tbls@);
    let mut i: usize = lo;
    assert(results@ =~= old(results)@ + probe_inner_range(
        keys,
        probe_hashes@,
        tables,
        swap,
        lo as int,
        lo as int,
    ));
    while i < hi
        invariant
            hash_tbls.len() >= 1,
            lo <= i <= hi <= probe_keys.len(),
            probe_keys.len() == probe_hashes.len(),
            keys == keys_view(probe_keys@),
            tables == tables_view(hash_tbls@),
            results@ == old(results)@ + probe_inner_range(
                keys,
                probe_hashes@,
                tables,
                swap,
                lo as int,
                i as int,
            ),
        decreases hi - i,
    {
        let ghost before = results@;
        let current_probe_table = get_hash_tbl_threaded_join(probe_hashes[i], hash_tbls);
        match table_get(current_probe_table, &probe_keys[i]) {
            Some(rows) => {
                push_pairs(results, i, rows, swap);
                assert(rows@ == found_rows(tables, probe_hashes@[i as int], keys[i as int]));
            },
            None => {
                assert(found_rows(tables, probe_hashes@[i as int], keys[i as int])
                    =~= Seq::<usize>::empty());
                assert(pair_rows(i, Seq::<usize>::empty(), swap) =~= Seq::empty());
            },
        }
        assert(results@ =~= old(results)@ + probe_inner_range(
            keys,
            probe_hashes@,
            tables,
            swap,
            lo as int,
            i as int + 1,
        ));
        i += 1;
    }
}

/// What an inner join yields for rows `lo..hi` of the probe side.
pub fn probe_inner_partition(
    probe_keys: &Vec<JoinKey>,
    probe_hashes: &Vec<u64>,
    hash_tbls: &Vec<Table>,
    lo: usize,
    hi: usize,
    swap: bool,
) -> (results: Vec<(usize, usize)>)
    requires
        hash_tbls.len() >= 1,
        lo <= hi <= probe_keys.len(),
        probe_keys.len() == probe_hashes.len(),
    ensures
        results@ == probe_inner_range(
            keys_view(probe_keys@),
            probe_hashes@,
            tables_view(hash_tbls@),
            swap,
            lo as int,
            hi as int,
        ),
{
    let mut results: Vec<(usize, usize)> = Vec::new();
    probe_inner(probe_keys, probe_hashes, hash_tbls, &mut results, lo, hi, swap);
    assert(results@ =~= probe_inner_range(
        keys_view(probe_keys@),
        probe_hashes@,
        tables_view(hash_tbls@),
        swap,
        lo as int,
        hi as int,
    ));
    results
}

/// Adds what a left join yields for probe row `i` that found `rows`.
fn push_left_rows(results: &mut Vec<(usize, Option<usize>)>, i: usize, rows: &Vec<usize>)
    requires
        rows.len() > 0,
    ensures
        final(results)@ == old(results)@ + left_rows(i, rows@),
{
    let mut x: usize = 0;
    let ghost all = left_rows(i, rows@);
    assert(results@ =~= old(results)@ + all.take(0));
    while x < rows.len()
        invariant
            x <= rows.len(),
            rows.len() > 0,
            all == left_rows(i, rows@),
            results@ == old(results)@ + all.take(x as int),
        decreases rows.len() - x,
    {
        results.push((i, Some(rows[x])));
        assert(results@ =~= old(results)@ + all.take(x as int + 1));
        x += 1;
    }
    assert(all.take(x as int) =~= all);
}

/// What a left join yields for rows `lo..hi` of the probe side: for each
/// probe row a pair with every row found under its key, or one pair with
/// nothing on the build side where nothing is found.
pub fn probe_left_partition(
    probe_keys: &Vec<JoinKey>,
    probe_hashes: &Vec<u64>,
    hash_tbls: &Vec<Table>,
    lo: usize,
    hi: usize,
) -> (results: Vec<(usize, Option<usize>)>)
    requires
        hash_tbls.len() >= 1,
        lo <= hi <= probe_keys.len(),
        probe_keys.len() == probe_hashes.len(),
    ensures
        results@ == probe_left_range(
            keys_view(probe_keys@),
            probe_hashes@,
            tables_view(hash_tbls@),
            lo as int,
            hi as int,
        ),
{
    let ghost keys = keys_view(probe_keys@);
    let ghost tables = tables_view(hash_tbls@);
    let mut results: Vec<(usize, Option<usize>)> = Vec::with_capacity(hi - lo);
    let mut i: usize = lo;
    while i < hi
        invariant
            hash_tbls.len() >= 1,
            lo <= i <= hi <= probe_keys.len(),
            probe_keys.len() == probe_hashes.len(),
            keys == keys_view(probe_keys@),
            tables == tables_view(hash_tbls@),
            results@ == probe_left_range(keys, probe_hashes@, tables, lo as int, i as int),
        decreases hi - i,
    {
        let current_probe_table = get_hash_tbl_threaded_join(probe_hashes[i], hash_tbls);
        let ghost found = found_rows(tables, probe_hashes@[i as int], keys[i as int]);
        let mut matched = false;
        match table_get(current_probe_table, &probe_keys[i]) {
            Some(rows) => {
                if rows.len() > 0 {
                    push_left_rows(&mut results, i, rows);
                    matched = true;
                }
                assert(rows@ == found);
            },
            None => {
                assert(found =~= Seq::<usize>::empty());
            },
        }
        if !matched {
            results.push((i, None));
            assert(left_rows(i, found) =~= seq![(i, None::<usize>)]);
        }
        assert(results@ =~= probe_left_range(keys, probe_hashes@, tables, lo as int, i as int + 1));
        i += 1;
    }
    results
}

} // verus!
