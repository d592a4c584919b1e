//! Filling the hash tables from the build side of a join.

use crate::hash_join::keys::{key_view, keys_view, JoinKey, KeyPart, KeyView};
use crate::hash_join::relation::{
    hashes_agree, lemma_table_step, rows_by_key, table_of, table_index,
};
use crate::hash_join::table::{table_insert, table_new, table_remove, table_rows, Table};
use vstd::prelude::*;

verus! {

/// A copy of a key.
pub fn clone_key(key: &JoinKey) -> (r: JoinKey)
    ensures
        key_view(r@) == key_view(key@),
{
    let mut out: JoinKey = Vec::with_capacity(key.len());
    let mut i: usize = 0;
    while i < key.len()
        invariant
            i <= key.len(),
            out.len() == i,
            forall|j: int| 0 <= j < i ==> out[j].0 == key[j].0 && out[j].1 == key[j].1 && out[j].2@
                == key[j].2@ && out[j].3@ == key[j].3@,
        decreases key.len() - i,
    {
        let part: KeyPart = (
            key[i].0,
            key[i].1,
            key[i].2.clone(),
            crate::datatypes::copy_list(&key[i].3),
        );
        out.push(part);
        i += 1;
    }
    assert(key_view(out@) =~= key_view(key@));
    out
}

/// The table that a hash selects among `n`.
pub fn hash_table_index(h: u64, n: usize) -> (t: usize)
    requires
        n >= 1,
    ensures
        t == table_index(h, n as int),
        t < n,
{
    (h % (n as u64)) as usize
}

/// Fills table `t` of `n`: walks the whole relation and stores each row
/// whose hash selects this table under the row's key, rows in ascending
/// order.
pub fn build_table(
    state: &ahash::RandomState,
    keys: &Vec<JoinKey>,
    hashes: &Vec<u64>,
    t: usize,
    n: usize,
) -> (tbl: Table)
    requires
        n >= 1,
        t < n,
        hashes_agree(keys_view(keys@), hashes@, keys_view(keys@), hashes@),
    ensures
        table_rows(tbl) == table_of(keys_view(keys@), hashes@, t as int, n as int),
{
    let ghost all = keys_view(keys@);
    let mut tbl = table_new(state);
    let mut i: usize = 0;
    assert(table_rows(tbl) =~= table_of(all.take(0), hashes@.take(0), t as int, n as int));
    while i < keys.len()
        invariant
            n >= 1,
            t < n,
            i <= keys.len(),
            all == keys_view(keys@),
            hashes_agree(all, hashes@, all, hashes@),
            table_rows(tbl) == table_of(all.take(i as int), hashes@.take(i as int), t as int, n as int),
        decreases keys.len() - i,
    {
        proof {
            lemma_table_step(all, hashes@, t as int, n as int, i as int);
        }
        if hash_table_index(hashes[i], n) == t {
            let key = clone_key(&keys[i]);
            let mut rows = match table_remove(&mut tbl, &keys[i]) {
                Some(rows) => rows,
                None => Vec::new(),
            };
            rows.push(i);
            table_insert(&mut tbl, key, rows);
            assert(table_rows(tbl) =~= table_of(
                all.take(i as int),
                hashes@.take(i as int),
                t as int,
                n as int,
            ).insert(all[i as int], rows@));
        }
        i += 1;
    }
    assert(all.take(i as int) =~= all);
    assert(hashes@.take(i as int) =~= hashes@);
    tbl
}

/// The single table over a relation: each key with all rows that hold it,
/// rows in ascending order.
pub fn prepare_hashed_relation(keys: &Vec<JoinKey>) -> (tbl: Table)
    ensures
        table_rows(tbl) == rows_by_key(keys_view(keys@)),
{
    let mut hashes: Vec<u64> = Vec::with_capacity(keys.len());
    let mut i: usize = 0;
    while i < keys.len()
        invariant
            i <= keys.len(),
            hashes.len() == i,
            forall|j: int| 0 <= j < i ==> hashes[j] == 0,
        decreases keys.len() - i,
    {
        hashes.push(0);
        i += 1;
    }
    let state = crate::hash_join::table::random_state();
    let tbl = build_table(&state, keys, &hashes, 0, 1);
    proof {
        let all = keys_view(keys@);
        assert forall|k: KeyView| all.contains(k) implies table_of(
            all,
            hashes@,
            0,
            1,
        ).contains_key(k) by {
            let j = choose|j: int| 0 <= j < all.len() && all[j] == k;
            assert(all[j] == k && table_index(hashes@[j], 1) == 0);
        }
        assert(table_rows(tbl) =~= rows_by_key(all));
    }
    tbl
}

} // verus!
