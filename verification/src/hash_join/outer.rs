//! The outer join: one worker probes and takes what it finds out of the
//! tables, so that what is left in them at the end are the build rows that
//! nothing asked for.

use crate::hash_join::hashing::hash_relations;
use crate::hash_join::keys::{key_view, keys_view, JoinKey, KeyView};
use crate::hash_join::prepare::hash_table_index;
use crate::hash_join::probe::get_hash_tbl_threaded_join_mut;
use crate::hash_join::relation::{
    finds_key, grouped_by_key, hashes_agree, is_outer_join, is_unmatched_tail, key_at,
    left_in_table, lemma_concat_distinct, lemma_outer_step, lemma_rows_with_key, outer_head,
    outer_rows, remaining, rows_with_key, table_index, table_of, tables_of, unmatched_tuples,
};
use crate::hash_join::table::{
    lists_all_of, random_state, table_drain, table_remove, table_rows, tables_view, Table,
};
use crate::hash_join::tuples::{append_copy, prepare_hashed_relation_threaded};
use vstd::prelude::*;

verus! {

/// Adds the pairs of probe row `i` with each of the build rows `rows`.
fn push_matches(
    results: &mut Vec<(Option<usize>, Option<usize>)>,
    i: usize,
    rows: &Vec<usize>,
    swap: bool,
)
    ensures
        final(results)@ == old(results)@ + outer_rows(i, rows@, true, swap),
{
    let ghost all = outer_rows(i, rows@, true, swap);
    let mut x: usize = 0;
    assert(results@ =~= old(results)@ + all.take(0));
    while x < rows.len()
        invariant
            x <= rows.len(),
            all == outer_rows(i, rows@, true, swap),
            results@ == old(results)@ + all.take(x as int),
        decreases rows.len() - x,
    {
        let tuple = if swap {
            (Some(rows[x]), Some(i))
        } else {
            (Some(i), Some(rows[x]))
        };
        results.push(tuple);
        assert(results@ =~= old(results)@ + all.take(x as int + 1));
        x += 1;
    }
    assert(all.take(x as int) =~= all);
}

/// Adds one pair for each of the build rows `rows`, with nothing on the
/// probe side.
fn push_unmatched(results: &mut Vec<(Option<usize>, Option<usize>)>, rows: &Vec<usize>, swap: bool)
    ensures
        final(results)@ == old(results)@ + unmatched_tuples(rows@, swap),
{
    let ghost all = unmatched_tuples(rows@, swap);
    let mut x: usize = 0;
    assert(results@ =~= old(results)@ + all.take(0));
    while x < rows.len()
        invariant
            x <= rows.len(),
            all == unmatched_tuples(rows@, swap),
            results@ == old(results)@ + all.take(x as int),
        decreases rows.len() - x,
    {
        let tuple = if swap {
            (Some(rows[x]), None)
        } else {
            (None, Some(rows[x]))
        };
        results.push(tuple);
        assert(results@ =~= old(results)@ + all.take(x as int + 1));
        x += 1;
    }
    assert(all.take(x as int) =~= all);
}

/// Rows that are grouped by key stay so when the rows of a key that is not
/// among them are put behind them.
pub proof fn lemma_grouped_concat(
    before: Seq<usize>,
    found: Seq<usize>,
    build: Seq<KeyView>,
    k: KeyView,
)
    requires
        grouped_by_key(before, build),
        build.len() <= usize::MAX,
        found == rows_with_key(build, k),
        forall|x: int| 0 <= x < before.len() ==> #[trigger] key_at(build, before, x) != k,
    ensures
        grouped_by_key(before + found, build),
{
    let joined = before + found;
    lemma_rows_with_key(build, k);
    assert forall|x: int| 0 <= x < joined.len() implies if x < before.len() {
        #[trigger] key_at(build, joined, x) == key_at(build, before, x) && joined[x] == before[x]
    } else {
        key_at(build, joined, x) == k && joined[x] == found[x - before.len()]
    } by {
        if x >= before.len() {
            assert(found.contains(found[x - before.len()]));
        }
    }
    assert forall|x: int, y: int|
        0 <= x < y < joined.len() && #[trigger] key_at(build, joined, x) == #[trigger] key_at(
            build,
            joined,
            y,
        ) implies joined[x] < joined[y] by {
        if y < before.len() {
            assert(key_at(build, before, x) == key_at(build, before, y));
        } else if x >= before.len() {
            assert(found[x - before.len()] < found[y - before.len()]);
        } else {
            assert(key_at(build, before, x) != k);
        }
    }
    assert forall|x: int, z: int, y: int|
        0 <= x < z < y < joined.len() && #[trigger] key_at(build, joined, x) == #[trigger] key_at(
            build,
            joined,
            y,
        ) implies #[trigger] key_at(build, joined, z) == key_at(build, joined, x) by {
        if y < before.len() {
            assert(key_at(build, before, x) == key_at(build, before, y));
            assert(key_at(build, before, z) == key_at(build, before, x));
        } else if x < before.len() {
            assert(key_at(build, before, x) != k);
        }
    }
}

/// Whether one of the first `x` entries has the key `k`.
pub open spec fn listed_before(entries: Seq<(JoinKey, Vec<usize>)>, x: int, k: KeyView) -> bool {
    exists|y: int| 0 <= y < x && key_view((#[trigger] entries[y]).0@) == k
}

/// Empties table `t` after the probe and hands back the build rows that
/// were left in it: those whose hash selects `t` and whose key no probe row
/// holds, each once.
fn drain_rows(
    tbl: &mut Table,
    Ghost(probe): Ghost<Seq<KeyView>>,
    Ghost(build): Ghost<Seq<KeyView>>,
    Ghost(build_hashes): Ghost<Seq<u64>>,
    Ghost(t): Ghost<int>,
    Ghost(n): Ghost<int>,
) -> (rows: Vec<usize>)
    requires
        n >= 1,
        build.len() <= usize::MAX,
        hashes_agree(build, build_hashes, build, build_hashes),
        table_rows(*old(tbl)) == remaining(table_of(build, build_hashes, t, n), probe),
    ensures
        rows@.no_duplicates(),
        forall|j: usize| rows@.contains(j) <==> left_in_table(probe, build, build_hashes, t, n, j),
        grouped_by_key(rows@, build),
{
    let ghost left = remaining(table_of(build, build_hashes, t, n), probe);
    let entries = table_drain(tbl);
    let mut rows: Vec<usize> = Vec::new();
    let mut x: usize = 0;
    while x < entries.len()
        invariant
            n >= 1,
            x <= entries.len(),
            build.len() <= usize::MAX,
            hashes_agree(build, build_hashes, build, build_hashes),
            left == remaining(table_of(build, build_hashes, t, n), probe),
            lists_all_of(entries@, left),
            rows@.no_duplicates(),
            forall|j: usize|
                rows@.contains(j) <==> (j < build.len() && listed_before(
                    entries@,
                    x as int,
                    build[j as int],
                )),
            grouped_by_key(rows@, build),
        decreases entries.len() - x,
    {
        let ghost before = rows@;
        let ghost k = key_view(entries[x as int].0@);
        let ghost found = entries[x as int].1@;
        proof {
            lemma_rows_with_key(build, k);
            assert(left.contains_key(k) && left[k] == found);
            assert(found == rows_with_key(build, k));
            assert(found.no_duplicates());
            assert forall|j: usize| before.contains(j) implies !found.contains(j) by {
                if found.contains(j) {
                    let y = choose|y: int|
                        0 <= y < x && key_view((#[trigger] entries@[y]).0@) == build[j as int];
                    assert(key_view(entries@[y].0@) != key_view(entries@[x as int].0@));
                }
            }
            lemma_concat_distinct(before, found);
        }
        append_copy(&mut rows, &entries[x].1);
        proof {
            lemma_grouped_concat(before, found, build, k);
            assert forall|j: usize| rows@.contains(j) <==> (j < build.len() && listed_before(
                entries@,
                x as int + 1,
                build[j as int],
            )) by {
                if j < build.len() && listed_before(entries@, x as int + 1, build[j as int]) {
                    let y = choose|y: int|
                        0 <= y < x + 1 && key_view((#[trigger] entries@[y]).0@) == build[j as int];
                    if y < x {
                        assert(listed_before(entries@, x as int, build[j as int]));
                    }
                }
                if before.contains(j) {
                    let y = choose|y: int|
                        0 <= y < x && key_view((#[trigger] entries@[y]).0@) == build[j as int];
                    assert(0 <= y < x + 1);
                }
                if found.contains(j) {
                    assert(key_view(entries@[x as int].0@) == build[j as int]);
                }
            }
        }
        x += 1;
    }
    proof {
        assert forall|j: usize| rows@.contains(j) <==> left_in_table(
            probe,
            build,
            build_hashes,
            t,
            n,
            j,
        ) by {
            if rows@.contains(j) {
                let y = choose|y: int|
                    0 <= y < x && key_view((#[trigger] entries@[y]).0@) == build[j as int];
                let k = build[j as int];
                assert(left.contains_key(k));
                let j2 = choose|j2: int|
                    0 <= j2 < build.len() && #[trigger] build[j2] == k && table_index(
                        build_hashes[j2],
                        n,
                    ) == t;
                assert(build_hashes[j2] == build_hashes[j as int]);
            }
            if left_in_table(probe, build, build_hashes, t, n, j) {
                let k = build[j as int];
                assert(build[j as int] == k && table_index(build_hashes[j as int], n) == t);
                assert(table_of(build, build_hashes, t, n).contains_key(k));
                assert(left.contains_key(k));
                let y = choose|y: int|
                    0 <= y < entries@.len() && key_view((#[trigger] entries@[y]).0@) == k;
                assert(listed_before(entries@, x as int, k));
            }
        }
    }
    rows
}

/// Probes the tables with every row of the probe side, in order, then
/// empties them.  A probe row that finds its key takes the key out of its
/// table and gives a pair with each build row stored under it; one that
/// finds nothing gives a pair with nothing on the build side.  What is left
/// in the tables at the end gives one pair per build row, with nothing on
/// the probe side.
pub fn probe_outer(
    probe_keys: &Vec<JoinKey>,
    probe_hashes: &Vec<u64>,
    hash_tbls: &mut Vec<Table>,
    results: &mut Vec<(Option<usize>, Option<usize>)>,
    swap: bool,
    Ghost(build): Ghost<Seq<KeyView>>,
    Ghost(build_hashes): Ghost<Seq<u64>>,
)
    requires
        old(hash_tbls).len() >= 1,
        old(results).len() == 0,
        build.len() <= usize::MAX,
        hashes_agree(keys_view(probe_keys@), probe_hashes@, build, build_hashes),
        hashes_agree(build, build_hashes, build, build_hashes),
        tables_view(old(hash_tbls)@) == tables_of(build, build_hashes, old(hash_tbls).len() as int),
    ensures
        is_outer_join(final(results)@, keys_view(probe_keys@), build, swap),
{
    let ghost probe = keys_view(probe_keys@);
    let n = hash_tbls.len();
    let mut i: usize = 0;
    proof {
        assert forall|q: int| 0 <= q < n implies table_rows(#[trigger] hash_tbls[q]) == remaining(
            table_of(build, build_hashes, q, n as int),
            probe.take(0),
        ) by {
            assert(tables_view(hash_tbls@)[q] == table_rows(hash_tbls[q]));
            assert(table_rows(hash_tbls[q]) =~= remaining(
                table_of(build, build_hashes, q, n as int),
                probe.take(0),
            ));
        }
        assert(results@ =~= outer_head(probe, build, swap, 0));
    }
    while i < probe_keys.len()
        invariant
            n >= 1,
            hash_tbls.len() == n,
            i <= probe_keys.len(),
            probe == keys_view(probe_keys@),
            build.len() <= usize::MAX,
            hashes_agree(probe, probe_hashes@, build, build_hashes),
            forall|q: int|
                0 <= q < n ==> table_rows(#[trigger] hash_tbls[q]) == remaining(
                    table_of(build, build_hashes, q, n as int),
                    probe.take(i as int),
                ),
            results@ == outer_head(probe, build, swap, i as int),
        decreases probe_keys.len() - i,
    {
        let ghost tables_before = hash_tbls@;
        let t = hash_table_index(probe_hashes[i], n);
        proof {
            lemma_outer_step(probe, probe_hashes@, build, build_hashes, n as int, i as int);
            assert(remaining(
                table_of(build, build_hashes, t as int, n as int),
                probe.take(i as int + 1),
            ) == remaining(
                table_of(build, build_hashes, t as int, n as int),
                probe.take(i as int),
            ).remove(probe[i as int]));
        }
        let current_probe_table = get_hash_tbl_threaded_join_mut(probe_hashes[i], hash_tbls);
        let found = table_remove(current_probe_table, &probe_keys[i]);
        match found {
            Some(rows) => {
                assert(finds_key(probe, build, i as int));
                assert(rows@ == rows_with_key(build, probe[i as int]));
                push_matches(results, i, &rows, swap);
            },
            None => {
                assert(!finds_key(probe, build, i as int));
                let tuple = if swap {
                    (None, Some(i))
                } else {
                    (Some(i), None)
                };
                results.push(tuple);
                assert(results@ =~= outer_head(probe, build, swap, i as int) + outer_rows(
                    i,
                    rows_with_key(build, probe[i as int]),
                    false,
                    swap,
                ));
            },
        }
        proof {
            assert forall|q: int| 0 <= q < n implies table_rows(#[trigger] hash_tbls[q])
                == remaining(
                table_of(build, build_hashes, q, n as int),
                probe.take(i as int + 1),
            ) by {
                if q != t {
                    assert(hash_tbls[q] == tables_before[q]);
                }
            }
        }
        i += 1;
    }
    assert(probe.take(i as int) =~= probe);
    let ghost head = results@;
    let ghost mut drained: Seq<usize> = Seq::empty();
    let mut t: usize = 0;
    assert(results@ =~= head + unmatched_tuples(drained, swap));
    while t < n
        invariant
            n >= 1,
            hash_tbls.len() == n,
            t <= n,
            build.len() <= usize::MAX,
            hashes_agree(build, build_hashes, build, build_hashes),
            forall|q: int|
                t <= q < n ==> table_rows(#[trigger] hash_tbls[q]) == remaining(
                    table_of(build, build_hashes, q, n as int),
                    probe,
                ),
            drained.no_duplicates(),
            forall|j: usize|
                drained.contains(j) <==> (j < build.len() && !probe.contains(build[j as int])
                    && table_index(build_hashes[j as int], n as int) < t),
            grouped_by_key(drained, build),
            results@ == head + unmatched_tuples(drained, swap),
        decreases n - t,
    {
        let ghost tables_before = hash_tbls@;
        let rows = drain_rows(
            &mut hash_tbls[t],
            Ghost(probe),
            Ghost(build),
            Ghost(build_hashes),
            Ghost(t as int),
            Ghost(n as int),
        );
        proof {
            assert forall|j: usize| drained.contains(j) implies !rows@.contains(j) by {}
            lemma_concat_distinct(drained, rows@);
        }
        push_unmatched(results, &rows, swap);
        proof {
            assert(results@ =~= head + unmatched_tuples(drained + rows@, swap));
            let ghost joined = drained + rows@;
            assert(grouped_by_key(joined, build)) by {
                assert forall|x: int| 0 <= x < joined.len() implies (if x < drained.len() {
                    joined[x] == drained[x] && #[trigger] key_at(build, joined, x) == key_at(
                        build,
                        drained,
                        x,
                    ) && table_index(build_hashes[joined[x] as int], n as int) < t
                } else {
                    joined[x] == rows@[x - drained.len()] && key_at(build, joined, x) == key_at(
                        build,
                        rows@,
                        x - drained.len(),
                    ) && table_index(build_hashes[joined[x] as int], n as int) == t
                }) && joined[x] < build.len() by {
                    if x < drained.len() {
                        assert(drained.contains(drained[x]));
                    } else {
                        assert(rows@.contains(rows@[x - drained.len()]));
                    }
                }
                assert forall|x: int, y: int|
                    0 <= x < y < joined.len() && #[trigger] key_at(build, joined, x)
                        == #[trigger] key_at(build, joined, y) implies joined[x] < joined[y] by {
                    // rows of one key have one hash, and so lie in one table
                    assert(build_hashes[joined[x] as int] == build_hashes[joined[y] as int]);
                    if y < drained.len() {
                        assert(key_at(build, drained, x) == key_at(build, drained, y));
                    } else if x >= drained.len() {
                        assert(key_at(build, rows@, x - drained.len()) == key_at(
                            build,
                            rows@,
                            y - drained.len(),
                        ));
                    }
                }
                assert forall|x: int, z: int, y: int|
                    0 <= x < z < y < joined.len() && #[trigger] key_at(build, joined, x)
                        == #[trigger] key_at(build, joined, y) implies #[trigger] key_at(
                    build,
                    joined,
                    z,
                ) == key_at(build, joined, x) by {
                    assert(build_hashes[joined[x] as int] == build_hashes[joined[y] as int]);
                    if y < drained.len() {
                        assert(key_at(build, drained, x) == key_at(build, drained, y));
                        assert(key_at(build, drained, z) == key_at(build, drained, x));
                    } else if x >= drained.len() {
                        assert(key_at(build, rows@, x - drained.len()) == key_at(
                            build,
                            rows@,
                            y - drained.len(),
                        ));
                        assert(key_at(build, rows@, z - drained.len()) == key_at(
                            build,
                            rows@,
                            x - drained.len(),
                        ));
                    }
                }
            }
            assert forall|j: usize| joined.contains(j) <==> (j < build.len() && !probe.contains(
                build[j as int],
            ) && table_index(build_hashes[j as int], n as int) < t + 1) by {
                assert(joined.contains(j) <==> (drained.contains(j) || rows@.contains(j)));
                assert(rows@.contains(j) <==> left_in_table(
                    probe,
                    build,
                    build_hashes,
                    t as int,
                    n as int,
                    j,
                ));
            }
            drained = joined;
            assert forall|q: int| t + 1 <= q < n implies table_rows(#[trigger] hash_tbls[q])
                == remaining(table_of(build, build_hashes, q, n as int), probe) by {
                assert(hash_tbls[q] == tables_before[q]);
            }
        }
        t += 1;
    }
    proof {
        assert forall|j: usize| drained.contains(j) <==> (j < build.len() && !probe.contains(
            build[j as int],
        )) by {
            if j < build.len() {
                assert(0 <= table_index(build_hashes[j as int], n as int) < n);
            }
        }
        assert(results@.take(head.len() as int) =~= head);
        assert(results@.skip(head.len() as int) =~= unmatched_tuples(drained, swap));
        assert(is_unmatched_tail(results@.skip(head.len() as int), drained, probe, build, swap));
    }
}

/// Outer join of a probe side `a` with a build side `b`.  The tables are
/// filled in parallel; the probe is done by one worker, since it takes keys
/// out of the tables as it goes.
pub fn hash_join_tuples_outer(a: &Vec<JoinKey>, b: &Vec<JoinKey>, swap: bool, n_threads: usize) -> (r:
    Vec<(Option<usize>, Option<usize>)>)
    requires
        n_threads >= 1,
    ensures
        is_outer_join(r@, keys_view(a@), keys_view(b@), swap),
{
    let mut results: Vec<(Option<usize>, Option<usize>)> = Vec::new();
    let state = random_state();
    let (hashes_a, hashes_b) = hash_relations(&state, a, b);
    let mut hash_tbls = prepare_hashed_relation_threaded(&state, b, &hashes_b, n_threads);
    assert(keys_view(b@).len() == b.len());
    probe_outer(
        a,
        &hashes_a,
        &mut hash_tbls,
        &mut results,
        swap,
        Ghost(keys_view(b@)),
        Ghost(hashes_b@),
    );
    results
}

} // verus!
