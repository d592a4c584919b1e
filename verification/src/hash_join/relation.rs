//! What a join is, stated over plain sequences of keys.
//!
//! A relation is the sequence of its rows' keys.  The probe side is walked
//! in row order; the build side is found through hash tables.

use vstd::prelude::*;

verus! {

/// The rows of `keys` that hold `k`, in ascending order.
pub open spec fn rows_with_key<K>(keys: Seq<K>, k: K) -> Seq<usize>
    decreases keys.len(),
{
    if keys.len() == 0 {
        Seq::empty()
    } else {
        let rest = rows_with_key(keys.drop_last(), k);
        if keys.last() == k {
            rest.push((keys.len() - 1) as usize)
        } else {
            rest
        }
    }
}

/// Whether `rows` is strictly ascending.
pub open spec fn ascending(rows: Seq<usize>) -> bool {
    forall|x: int, y: int| 0 <= x < y < rows.len() ==> rows[x] < rows[y]
}

/// `rows_with_key` holds exactly the rows whose key is `k`, each once and in
/// ascending order.
pub proof fn lemma_rows_with_key<K>(keys: Seq<K>, k: K)
    requires
        keys.len() <= usize::MAX,
    ensures
        forall|j: usize|
            rows_with_key(keys, k).contains(j) <==> (j < keys.len() && keys[j as int] == k),
        forall|x: int|
            0 <= x < rows_with_key(keys, k).len() ==> (#[trigger] rows_with_key(keys, k)[x])
                < keys.len(),
        ascending(rows_with_key(keys, k)),
        rows_with_key(keys, k).len() <= keys.len(),
    decreases keys.len(),
{
    if keys.len() > 0 {
        let rest = rows_with_key(keys.drop_last(), k);
        lemma_rows_with_key(keys.drop_last(), k);
        let last = (keys.len() - 1) as usize;
        let rows = rows_with_key(keys, k);
        let init = keys.drop_last();
        assert forall|j: usize| rows.contains(j) implies (j < keys.len() && keys[j as int] == k) by {
            let x = choose|x: int| 0 <= x < rows.len() && rows[x] == j;
            if x < rest.len() {
                assert(rest[x] == j);
                assert(rest.contains(j));
                assert(init[j as int] == k);
            }
        }
        assert forall|j: usize| (j < keys.len() && keys[j as int] == k) implies rows.contains(j) by {
            if j == last {
                assert(rows[rest.len() as int] == j);
            } else {
                assert(init[j as int] == k);
                assert(rest.contains(j));
                let x = choose|x: int| 0 <= x < rest.len() && rest[x] == j;
                assert(rows[x] == j);
            }
        }
    }
}

/// A key that no row holds has no rows, and the other way round.
pub proof fn lemma_rows_empty<K>(keys: Seq<K>, k: K)
    requires
        keys.len() <= usize::MAX,
    ensures
        rows_with_key(keys, k).len() == 0 <==> !keys.contains(k),
{
    lemma_rows_with_key(keys, k);
    let rows = rows_with_key(keys, k);
    if rows.len() > 0 {
        assert(rows.contains(rows[0]));
        assert(keys[rows[0] as int] == k);
    }
    if keys.contains(k) {
        let j = choose|j: int| 0 <= j < keys.len() && keys[j] == k;
        assert(rows.contains(j as usize));
    }
}

/// Appending a row to the relation appends it to the rows of its key and
/// leaves the rows of every other key as they were.
pub proof fn lemma_rows_push<K>(keys: Seq<K>, key: K, k: K)
    ensures
        rows_with_key(keys.push(key), k) == if key == k {
            rows_with_key(keys, k).push(keys.len() as usize)
        } else {
            rows_with_key(keys, k)
        },
{
    assert(keys.push(key).drop_last() =~= keys);
}

/// The pair that probe row `i` and build row `j` yield: probe first, or
/// build first under `swap`.
pub open spec fn pair(i: usize, j: usize, swap: bool) -> (usize, usize) {
    if swap {
        (j, i)
    } else {
        (i, j)
    }
}

/// The pairs of probe row `i` with each of `rows`.
pub open spec fn pair_rows(i: usize, rows: Seq<usize>, swap: bool) -> Seq<(usize, usize)> {
    Seq::new(rows.len(), |x: int| pair(i, rows[x], swap))
}

/// The inner join of probe rows `lo..hi`: for each probe row in order, a
/// pair with every build row of the same key, build rows ascending.
pub open spec fn inner_range<K>(probe: Seq<K>, build: Seq<K>, swap: bool, lo: int, hi: int) -> Seq<
    (usize, usize),
>
    decreases hi - lo,
{
    if hi <= lo {
        Seq::empty()
    } else {
        inner_range(probe, build, swap, lo, hi - 1) + pair_rows(
            (hi - 1) as usize,
            rows_with_key(build, probe[hi - 1]),
            swap,
        )
    }
}

/// The inner join of all probe rows with the build side.
pub open spec fn inner_tuples<K>(probe: Seq<K>, build: Seq<K>, swap: bool) -> Seq<(usize, usize)> {
    inner_range(probe, build, swap, 0, probe.len() as int)
}

/// Joining `lo..mid` and then `mid..hi` is joining `lo..hi`.
pub proof fn lemma_inner_range_split<K>(
    probe: Seq<K>,
    build: Seq<K>,
    swap: bool,
    lo: int,
    mid: int,
    hi: int,
)
    requires
        lo <= mid <= hi,
    ensures
        inner_range(probe, build, swap, lo, mid) + inner_range(probe, build, swap, mid, hi)
            == inner_range(probe, build, swap, lo, hi),
    decreases hi - mid,
{
    if hi == mid {
        assert(inner_range(probe, build, swap, lo, mid) + Seq::<(usize, usize)>::empty()
            =~= inner_range(probe, build, swap, lo, mid));
    } else {
        lemma_inner_range_split(probe, build, swap, lo, mid, hi - 1);
        let step = pair_rows((hi - 1) as usize, rows_with_key(build, probe[hi - 1]), swap);
        assert(inner_range(probe, build, swap, lo, mid) + (inner_range(
            probe,
            build,
            swap,
            mid,
            hi - 1,
        ) + step) =~= (inner_range(probe, build, swap, lo, mid) + inner_range(
            probe,
            build,
            swap,
            mid,
            hi - 1,
        )) + step);
    }
}

/// What one probe row yields in a left join: a pair with every build row of
/// its key, or one pair with nothing where no build row has it.
pub open spec fn left_rows(i: usize, rows: Seq<usize>) -> Seq<(usize, Option<usize>)> {
    if rows.len() == 0 {
        seq![(i, None)]
    } else {
        Seq::new(rows.len(), |x: int| (i, Some(rows[x])))
    }
}

/// The left join of probe rows `lo..hi`.
pub open spec fn left_range<K>(probe: Seq<K>, build: Seq<K>, lo: int, hi: int) -> Seq<
    (usize, Option<usize>),
>
    decreases hi - lo,
{
    if hi <= lo {
        Seq::empty()
    } else {
        left_range(probe, build, lo, hi - 1) + left_rows(
            (hi - 1) as usize,
            rows_with_key(build, probe[hi - 1]),
        )
    }
}

/// The left join of all probe rows with the build side.
pub open spec fn left_tuples<K>(probe: Seq<K>, build: Seq<K>) -> Seq<(usize, Option<usize>)> {
    left_range(probe, build, 0, probe.len() as int)
}

/// Joining `lo..mid` and then `mid..hi` is joining `lo..hi`.
pub proof fn lemma_left_range_split<K>(probe: Seq<K>, build: Seq<K>, lo: int, mid: int, hi: int)
    requires
        lo <= mid <= hi,
    ensures
        left_range(probe, build, lo, mid) + left_range(probe, build, mid, hi) == left_range(
            probe,
            build,
            lo,
            hi,
        ),
    decreases hi - mid,
{
    if hi == mid {
        assert(left_range(probe, build, lo, mid) + Seq::<(usize, Option<usize>)>::empty()
            =~= left_range(probe, build, lo, mid));
    } else {
        lemma_left_range_split(probe, build, lo, mid, hi - 1);
        let step = left_rows((hi - 1) as usize, rows_with_key(build, probe[hi - 1]));
        assert(left_range(probe, build, lo, mid) + (left_range(probe, build, mid, hi - 1) + step)
            =~= (left_range(probe, build, lo, mid) + left_range(probe, build, mid, hi - 1))
            + step);
    }
}

/// The table that a hash selects among `n`.
pub open spec fn table_index(h: u64, n: int) -> int {
    (h as int) % n
}

/// Equal keys have equal hashes, within and across the two relations.
pub open spec fn hashes_agree<K>(
    keys_a: Seq<K>,
    hashes_a: Seq<u64>,
    keys_b: Seq<K>,
    hashes_b: Seq<u64>,
) -> bool {
    &&& keys_a.len() == hashes_a.len()
    &&& keys_b.len() == hashes_b.len()
    &&& forall|i: int, j: int|
        0 <= i < keys_a.len() && 0 <= j < keys_b.len() && keys_a[i] == keys_b[j]
            ==> hashes_a[i] == hashes_b[j]
}

/// Table `t` of `n` over a relation: each key whose hash selects this table,
/// with all rows that hold the key.
pub open spec fn table_of<K>(keys: Seq<K>, hashes: Seq<u64>, t: int, n: int) -> Map<
    K,
    Seq<usize>,
> {
    Map::new(
        |k: K|
            exists|j: int|
                0 <= j < keys.len() && #[trigger] keys[j] == k && table_index(hashes[j], n) == t,
        |k: K| rows_with_key(keys, k),
    )
}

/// The `n` tables over a relation.
pub open spec fn tables_of<K>(keys: Seq<K>, hashes: Seq<u64>, n: int) -> Seq<Map<K, Seq<usize>>> {
    Seq::new(n as nat, |t: int| table_of(keys, hashes, t, n))
}

/// The rows that a probe with hash `h` and key `k` finds: those stored
/// under `k` in the table that `h` selects.
pub open spec fn found_rows<K>(tables: Seq<Map<K, Seq<usize>>>, h: u64, k: K) -> Seq<usize> {
    let t = tables[table_index(h, tables.len() as int)];
    if t.contains_key(k) {
        t[k]
    } else {
        Seq::empty()
    }
}

/// With agreeing hashes, a probe of the tables over a relation finds all
/// rows of the relation that hold the probed key.
pub proof fn lemma_found_rows<K>(
    probe: Seq<K>,
    probe_hashes: Seq<u64>,
    build: Seq<K>,
    build_hashes: Seq<u64>,
    n: int,
    i: int,
)
    requires
        n >= 1,
        build.len() <= usize::MAX,
        hashes_agree(probe, probe_hashes, build, build_hashes),
        0 <= i < probe.len(),
    ensures
        found_rows(tables_of(build, build_hashes, n), probe_hashes[i], probe[i]) == rows_with_key(
            build,
            probe[i],
        ),
{
    let k = probe[i];
    let t = table_index(probe_hashes[i], n);
    let rows = rows_with_key(build, k);
    lemma_rows_with_key(build, k);
    if !table_of(build, build_hashes, t, n).contains_key(k) {
        if rows.len() > 0 {
            let j = rows[0];
            assert(rows.contains(j));
            assert(build[j as int] == k);
            assert(build_hashes[j as int] == probe_hashes[i]);
            assert(false);
        }
        assert(rows =~= Seq::empty());
    }
}

/// One step of filling table `t`: what row `i` changes in the table over the
/// rows before it.
pub proof fn lemma_table_step<K>(keys: Seq<K>, hashes: Seq<u64>, t: int, n: int, i: int)
    requires
        n >= 1,
        keys.len() <= usize::MAX,
        hashes_agree(keys, hashes, keys, hashes),
        0 <= i < keys.len(),
    ensures
        table_index(hashes[i], n) == t ==> table_of(keys.take(i + 1), hashes.take(i + 1), t, n)
            == table_of(keys.take(i), hashes.take(i), t, n).insert(
            keys[i],
            rows_with_key(keys.take(i), keys[i]).push(i as usize),
        ),
        table_index(hashes[i], n) == t && !table_of(
            keys.take(i),
            hashes.take(i),
            t,
            n,
        ).contains_key(keys[i]) ==> rows_with_key(keys.take(i), keys[i]) == Seq::<usize>::empty(),
        table_index(hashes[i], n) != t ==> table_of(keys.take(i + 1), hashes.take(i + 1), t, n)
            == table_of(keys.take(i), hashes.take(i), t, n),
{
    let before = keys.take(i);
    let after = keys.take(i + 1);
    let hb = hashes.take(i);
    let ha = hashes.take(i + 1);
    let old_table = table_of(before, hb, t, n);
    let new_table = table_of(after, ha, t, n);
    assert(after =~= before.push(keys[i]));
    assert forall|k: K| rows_with_key(after, k) == if keys[i] == k {
        rows_with_key(before, k).push(i as usize)
    } else {
        rows_with_key(before, k)
    } by {
        lemma_rows_push(before, keys[i], k);
    }
    // a key of the old table is held by an earlier row whose hash selects `t`
    assert forall|k: K| old_table.contains_key(k) implies new_table.contains_key(k) by {
        let j = choose|j: int|
            0 <= j < before.len() && #[trigger] before[j] == k && table_index(hb[j], n) == t;
        assert(after[j] == k && ha[j] == hb[j]);
    }
    if table_index(hashes[i], n) == t {
        let rows = rows_with_key(before, keys[i]).push(i as usize);
        assert(after[i] == keys[i] && ha[i] == hashes[i]);
        assert(new_table.contains_key(keys[i]));
        assert forall|k: K| new_table.contains_key(k) implies k == keys[i]
            || old_table.contains_key(k) by {
            let j = choose|j: int|
                0 <= j < after.len() && #[trigger] after[j] == k && table_index(ha[j], n) == t;
            if j < i {
                assert(before[j] == k && hb[j] == ha[j]);
            }
        }
        assert(new_table =~= old_table.insert(keys[i], rows));
        if !old_table.contains_key(keys[i]) {
            lemma_rows_empty(before, keys[i]);
            if before.contains(keys[i]) {
                let j = choose|j: int| 0 <= j < before.len() && before[j] == keys[i];
                assert(keys[j] == keys[i]);
                assert(hashes[j] == hashes[i]);
                assert(hb[j] == hashes[j]);
                assert(false);
            }
            assert(rows_with_key(before, keys[i]) =~= Seq::<usize>::empty());
        }
    } else {
        assert forall|k: K| new_table.contains_key(k) implies old_table.contains_key(k) by {
            let j = choose|j: int|
                0 <= j < after.len() && #[trigger] after[j] == k && table_index(ha[j], n) == t;
            assert(ha[j] == hashes[j]);
            assert(j < i);
            assert(before[j] == k && hb[j] == ha[j]);
        }
        assert forall|k: K| old_table.contains_key(k) implies k != keys[i] by {
            let j = choose|j: int|
                0 <= j < before.len() && #[trigger] before[j] == k && table_index(hb[j], n) == t;
            if k == keys[i] {
                assert(keys[j] == keys[i]);
                assert(hashes[j] == hashes[i]);
                assert(hb[j] == hashes[j]);
            }
        }
        assert(new_table =~= old_table);
    }
}

/// The single table over a relation: every key that a row holds, with
/// all rows that hold it.
pub open spec fn rows_by_key<K>(keys: Seq<K>) -> Map<K, Seq<usize>> {
    Map::new(|k: K| keys.contains(k), |k: K| rows_with_key(keys, k))
}

/// What probing rows `lo..hi` against a set of tables yields in an inner
/// join, whatever the hashes are: for each probe row in order, a pair with
/// every row that its table stores under its key.
pub open spec fn probe_inner_range<K>(
    keys: Seq<K>,
    hashes: Seq<u64>,
    tables: Seq<Map<K, Seq<usize>>>,
    swap: bool,
    lo: int,
    hi: int,
) -> Seq<(usize, usize)>
    decreases hi - lo,
{
    if hi <= lo {
        Seq::empty()
    } else {
        probe_inner_range(keys, hashes, tables, swap, lo, hi - 1) + pair_rows(
            (hi - 1) as usize,
            found_rows(tables, hashes[hi - 1], keys[hi - 1]),
            swap,
        )
    }
}

/// What probing rows `lo..hi` against a set of tables yields in a left
/// join, whatever the hashes are.
pub open spec fn probe_left_range<K>(
    keys: Seq<K>,
    hashes: Seq<u64>,
    tables: Seq<Map<K, Seq<usize>>>,
    lo: int,
    hi: int,
) -> Seq<(usize, Option<usize>)>
    decreases hi - lo,
{
    if hi <= lo {
        Seq::empty()
    } else {
        probe_left_range(keys, hashes, tables, lo, hi - 1) + left_rows(
            (hi - 1) as usize,
            found_rows(tables, hashes[hi - 1], keys[hi - 1]),
        )
    }
}

/// With agreeing hashes, probing the tables over the build side is the
/// inner join with the build side.
pub proof fn lemma_probe_inner<K>(
    probe: Seq<K>,
    probe_hashes: Seq<u64>,
    build: Seq<K>,
    build_hashes: Seq<u64>,
    n: int,
    swap: bool,
    lo: int,
    hi: int,
)
    requires
        n >= 1,
        build.len() <= usize::MAX,
        hashes_agree(probe, probe_hashes, build, build_hashes),
        0 <= lo,
        hi <= probe.len(),
    ensures
        probe_inner_range(probe, probe_hashes, tables_of(build, build_hashes, n), swap, lo, hi)
            == inner_range(probe, build, swap, lo, hi),
    decreases hi - lo,
{
    if hi > lo {
        lemma_probe_inner(probe, probe_hashes, build, build_hashes, n, swap, lo, hi - 1);
        lemma_found_rows(probe, probe_hashes, build, build_hashes, n, hi - 1);
    }
}

/// With agreeing hashes, probing the tables over the build side is the
/// left join with the build side.
pub proof fn lemma_probe_left<K>(
    probe: Seq<K>,
    probe_hashes: Seq<u64>,
    build: Seq<K>,
    build_hashes: Seq<u64>,
    n: int,
    lo: int,
    hi: int,
)
    requires
        n >= 1,
        build.len() <= usize::MAX,
        hashes_agree(probe, probe_hashes, build, build_hashes),
        0 <= lo,
        hi <= probe.len(),
    ensures
        probe_left_range(probe, probe_hashes, tables_of(build, build_hashes, n), lo, hi)
            == left_range(probe, build, lo, hi),
    decreases hi - lo,
{
    if hi > lo {
        lemma_probe_left(probe, probe_hashes, build, build_hashes, n, lo, hi - 1);
        lemma_found_rows(probe, probe_hashes, build, build_hashes, n, hi - 1);
    }
}

/// The pair of an outer join: the probe side's row first, or the build
/// side's first under `swap`.
pub open spec fn outer_pair(probe: Option<usize>, build: Option<usize>, swap: bool) -> (
    Option<usize>,
    Option<usize>,
) {
    if swap {
        (build, probe)
    } else {
        (probe, build)
    }
}

/// Whether probe row `i` finds its key in an outer join: a build row holds
/// the key, and no earlier probe row has taken it out of the tables.
pub open spec fn finds_key<K>(probe: Seq<K>, build: Seq<K>, i: int) -> bool {
    build.contains(probe[i]) && !probe.take(i).contains(probe[i])
}

/// What one probe row yields in an outer join: where it finds its key, a
/// pair with every build row of the key; else one pair with nothing on the
/// build side.
pub open spec fn outer_rows(i: usize, rows: Seq<usize>, found: bool, swap: bool) -> Seq<
    (Option<usize>, Option<usize>),
> {
    if found {
        Seq::new(rows.len(), |x: int| outer_pair(Some(i), Some(rows[x]), swap))
    } else {
        seq![outer_pair(Some(i), None, swap)]
    }
}

/// The probed part of an outer join: what probe rows `0..hi` yield, in
/// order.
pub open spec fn outer_head<K>(probe: Seq<K>, build: Seq<K>, swap: bool, hi: int) -> Seq<
    (Option<usize>, Option<usize>),
>
    decreases hi,
{
    if hi <= 0 {
        Seq::empty()
    } else {
        outer_head(probe, build, swap, hi - 1) + outer_rows(
            (hi - 1) as usize,
            rows_with_key(build, probe[hi - 1]),
            finds_key(probe, build, hi - 1),
            swap,
        )
    }
}

/// The pairs for build rows that no probe row asked for.
pub open spec fn unmatched_tuples(rows: Seq<usize>, swap: bool) -> Seq<
    (Option<usize>, Option<usize>),
> {
    Seq::new(rows.len(), |x: int| outer_pair(None, Some(rows[x]), swap))
}

/// The key of the build row that stands at place `x` of `rows`.
pub open spec fn key_at<K>(build: Seq<K>, rows: Seq<usize>, x: int) -> K {
    build[rows[x] as int]
}

/// Whether rows of one key stand together in `rows`, in ascending order.
pub open spec fn grouped_by_key<K>(rows: Seq<usize>, build: Seq<K>) -> bool {
    &&& forall|x: int, y: int|
        0 <= x < y < rows.len() && #[trigger] key_at(build, rows, x) == #[trigger] key_at(
            build,
            rows,
            y,
        ) ==> rows[x] < rows[y]
    &&& forall|x: int, z: int, y: int|
        0 <= x < z < y < rows.len() && #[trigger] key_at(build, rows, x) == #[trigger] key_at(
            build,
            rows,
            y,
        ) ==> #[trigger] key_at(build, rows, z) == key_at(build, rows, x)
}

/// Whether `tail` is the drained part of an outer join: one pair for each
/// row of `rows`, which are the build rows whose key no probe row holds,
/// each once; the rows of one key stand together and ascending, the keys in
/// some order.
pub open spec fn is_unmatched_tail<K>(
    tail: Seq<(Option<usize>, Option<usize>)>,
    rows: Seq<usize>,
    probe: Seq<K>,
    build: Seq<K>,
    swap: bool,
) -> bool {
    &&& tail == unmatched_tuples(rows, swap)
    &&& rows.no_duplicates()
    &&& forall|j: usize|
        rows.contains(j) <==> (j < build.len() && !probe.contains(build[j as int]))
    &&& grouped_by_key(rows, build)
}

/// Whether `r` is an outer join of `probe` with `build`: first what the
/// probe rows yield, in order, then the build rows that were never asked
/// for, in an order that the tables decide.
pub open spec fn is_outer_join<K>(
    r: Seq<(Option<usize>, Option<usize>)>,
    probe: Seq<K>,
    build: Seq<K>,
    swap: bool,
) -> bool {
    let head = outer_head(probe, build, swap, probe.len() as int);
    &&& r.len() >= head.len()
    &&& r.take(head.len() as int) == head
    &&& exists|rows: Seq<usize>|
        is_unmatched_tail(r.skip(head.len() as int), rows, probe, build, swap)
}

/// What is left of a table once the keys of `probed` are taken out.
pub open spec fn remaining<K>(table: Map<K, Seq<usize>>, probed: Seq<K>) -> Map<K, Seq<usize>> {
    Map::new(|k: K| table.contains_key(k) && !probed.contains(k), |k: K| table[k])
}

/// One step of the outer probe: what probe row `i` finds in what is left of
/// its table, and what is left of every table after its key is taken out.
pub proof fn lemma_outer_step<K>(
    probe: Seq<K>,
    probe_hashes: Seq<u64>,
    build: Seq<K>,
    build_hashes: Seq<u64>,
    n: int,
    i: int,
)
    requires
        n >= 1,
        build.len() <= usize::MAX,
        hashes_agree(probe, probe_hashes, build, build_hashes),
        0 <= i < probe.len(),
    ensures
        remaining(
            table_of(build, build_hashes, table_index(probe_hashes[i], n), n),
            probe.take(i),
        ).contains_key(probe[i]) == finds_key(probe, build, i),
        table_of(build, build_hashes, table_index(probe_hashes[i], n), n).contains_key(probe[i])
            ==> table_of(build, build_hashes, table_index(probe_hashes[i], n), n)[probe[i]]
            == rows_with_key(build, probe[i]),
        forall|q: int|
            0 <= q < n ==> #[trigger] remaining(
                table_of(build, build_hashes, q, n),
                probe.take(i + 1),
            ) == if q == table_index(probe_hashes[i], n) {
                remaining(table_of(build, build_hashes, q, n), probe.take(i)).remove(probe[i])
            } else {
                remaining(table_of(build, build_hashes, q, n), probe.take(i))
            },
{
    let k = probe[i];
    let t = table_index(probe_hashes[i], n);
    let before = probe.take(i);
    let after = probe.take(i + 1);
    assert(after =~= before.push(k));
    assert forall|x: K| after.contains(x) <==> (before.contains(x) || x == k) by {
        if after.contains(x) {
            let y = choose|y: int| 0 <= y < after.len() && after[y] == x;
            if y < i {
                assert(before[y] == x);
            }
        }
        if before.contains(x) {
            let y = choose|y: int| 0 <= y < before.len() && before[y] == x;
            assert(after[y] == x);
        }
        if x == k {
            assert(after[i] == x);
        }
    }
    if build.contains(k) {
        let j = choose|j: int| 0 <= j < build.len() && build[j] == k;
        assert(build_hashes[j] == probe_hashes[i]);
        assert(build[j] == k && table_index(build_hashes[j], n) == t);
        assert(table_of(build, build_hashes, t, n).contains_key(k));
    }
    assert forall|q: int| 0 <= q < n implies #[trigger] remaining(
        table_of(build, build_hashes, q, n),
        after,
    ) == if q == t {
        remaining(table_of(build, build_hashes, q, n), before).remove(k)
    } else {
        remaining(table_of(build, build_hashes, q, n), before)
    } by {
        let table = table_of(build, build_hashes, q, n);
        if q == t {
            assert(remaining(table, after) =~= remaining(table, before).remove(k));
        } else {
            if table.contains_key(k) {
                let j = choose|j: int|
                    0 <= j < build.len() && #[trigger] build[j] == k && table_index(
                        build_hashes[j],
                        n,
                    ) == q;
                assert(build_hashes[j] == probe_hashes[i]);
                assert(false);
            }
            assert(remaining(table, after) =~= remaining(table, before));
        }
    }
}

/// Whether build row `j` is left in table `t` after the whole probe side
/// has been probed: its hash selects `t` and no probe row holds its key.
pub open spec fn left_in_table<K>(
    probe: Seq<K>,
    build: Seq<K>,
    build_hashes: Seq<u64>,
    t: int,
    n: int,
    j: usize,
) -> bool {
    j < build.len() && !probe.contains(build[j as int]) && table_index(build_hashes[j as int], n)
        == t
}

/// Two sequences without repetitions, with nothing in common, give one
/// without repetitions that holds what either holds.
pub proof fn lemma_concat_distinct<T>(a: Seq<T>, b: Seq<T>)
    requires
        a.no_duplicates(),
        b.no_duplicates(),
        forall|j: T| a.contains(j) ==> !b.contains(j),
    ensures
        (a + b).no_duplicates(),
        forall|j: T| (a + b).contains(j) <==> (a.contains(j) || b.contains(j)),
{
    let c = a + b;
    assert forall|x: int, y: int| 0 <= x < c.len() && 0 <= y < c.len() && x != y implies c[x]
        != c[y] by {
        if x < a.len() && y >= a.len() {
            assert(a.contains(a[x]));
            assert(b.contains(b[y - a.len()]));
        }
        if y < a.len() && x >= a.len() {
            assert(a.contains(a[y]));
            assert(b.contains(b[x - a.len()]));
        }
    }
    lemma_concat_contains(a, b);
}

/// A concatenation holds what either part holds.
pub proof fn lemma_concat_contains<T>(a: Seq<T>, b: Seq<T>)
    ensures
        forall|j: T| (a + b).contains(j) <==> (a.contains(j) || b.contains(j)),
{
    let c = a + b;
    assert forall|j: T| c.contains(j) <==> (a.contains(j) || b.contains(j)) by {
        if c.contains(j) {
            let x = choose|x: int| 0 <= x < c.len() && c[x] == j;
            if x < a.len() {
                assert(a[x] == j);
            } else {
                assert(b[x - a.len()] == j);
            }
        }
        if a.contains(j) {
            let x = choose|x: int| 0 <= x < a.len() && a[x] == j;
            assert(c[x] == j);
        }
        if b.contains(j) {
            let x = choose|x: int| 0 <= x < b.len() && b[x] == j;
            assert(c[x + a.len()] == j);
        }
    }
}

/// Whether `mapped` is `keys` with `f` applied to each, and `f` tells any
/// two keys apart.
pub open spec fn maps_apart<A, B>(keys: Seq<A>, mapped: Seq<B>, f: spec_fn(A) -> B) -> bool {
    &&& mapped.len() == keys.len()
    &&& forall|i: int| 0 <= i < keys.len() ==> #[trigger] mapped[i] == f(keys[i])
    &&& forall|x: A, y: A| #[trigger] f(x) == #[trigger] f(y) ==> x == y
}

/// Keys that are told apart by their images have the same rows as their
/// images.
pub proof fn lemma_rows_mapped<A, B>(keys: Seq<A>, mapped: Seq<B>, f: spec_fn(A) -> B, k: A)
    requires
        maps_apart(keys, mapped, f),
    ensures
        rows_with_key(mapped, f(k)) == rows_with_key(keys, k),
        mapped.contains(f(k)) <==> keys.contains(k),
    decreases keys.len(),
{
    if keys.len() > 0 {
        assert(maps_apart(keys.drop_last(), mapped.drop_last(), f)) by {
            assert forall|i: int| 0 <= i < keys.drop_last().len() implies #[trigger] mapped.drop_last()[i]
                == f(keys.drop_last()[i]) by {
                assert(mapped[i] == f(keys[i]));
            }
        }
        lemma_rows_mapped(keys.drop_last(), mapped.drop_last(), f, k);
        assert(mapped.last() == f(keys.last()));
    }
    if mapped.contains(f(k)) {
        let i = choose|i: int| 0 <= i < mapped.len() && mapped[i] == f(k);
        assert(mapped[i] == f(keys[i]));
        assert(keys[i] == k);
    }
    if keys.contains(k) {
        let i = choose|i: int| 0 <= i < keys.len() && keys[i] == k;
        assert(mapped[i] == f(keys[i]));
    }
}

/// An inner join of the images is the inner join of the keys.
pub proof fn lemma_inner_mapped<A, B>(
    probe: Seq<A>,
    build: Seq<A>,
    mapped_probe: Seq<B>,
    mapped_build: Seq<B>,
    f: spec_fn(A) -> B,
    swap: bool,
    lo: int,
    hi: int,
)
    requires
        maps_apart(probe, mapped_probe, f),
        maps_apart(build, mapped_build, f),
        0 <= lo,
        hi <= probe.len(),
    ensures
        inner_range(mapped_probe, mapped_build, swap, lo, hi) == inner_range(
            probe,
            build,
            swap,
            lo,
            hi,
        ),
    decreases hi - lo,
{
    if hi > lo {
        lemma_inner_mapped(probe, build, mapped_probe, mapped_build, f, swap, lo, hi - 1);
        lemma_rows_mapped(build, mapped_build, f, probe[hi - 1]);
        assert(mapped_probe[hi - 1] == f(probe[hi - 1]));
    }
}

/// A left join of the images is the left join of the keys.
pub proof fn lemma_left_mapped<A, B>(
    probe: Seq<A>,
    build: Seq<A>,
    mapped_probe: Seq<B>,
    mapped_build: Seq<B>,
    f: spec_fn(A) -> B,
    lo: int,
    hi: int,
)
    requires
        maps_apart(probe, mapped_probe, f),
        maps_apart(build, mapped_build, f),
        0 <= lo,
        hi <= probe.len(),
    ensures
        left_range(mapped_probe, mapped_build, lo, hi) == left_range(probe, build, lo, hi),
    decreases hi - lo,
{
    if hi > lo {
        lemma_left_mapped(probe, build, mapped_probe, mapped_build, f, lo, hi - 1);
        lemma_rows_mapped(build, mapped_build, f, probe[hi - 1]);
        assert(mapped_probe[hi - 1] == f(probe[hi - 1]));
    }
}

/// The probed part of an outer join of the images is that of the keys.
pub proof fn lemma_outer_head_mapped<A, B>(
    probe: Seq<A>,
    build: Seq<A>,
    mapped_probe: Seq<B>,
    mapped_build: Seq<B>,
    f: spec_fn(A) -> B,
    swap: bool,
    hi: int,
)
    requires
        maps_apart(probe, mapped_probe, f),
        maps_apart(build, mapped_build, f),
        hi <= probe.len(),
    ensures
        outer_head(mapped_probe, mapped_build, swap, hi) == outer_head(probe, build, swap, hi),
    decreases hi,
{
    if hi > 0 {
        let i = hi - 1;
        lemma_outer_head_mapped(probe, build, mapped_probe, mapped_build, f, swap, i);
        lemma_rows_mapped(build, mapped_build, f, probe[i]);
        assert(mapped_probe[i] == f(probe[i]));
        assert(maps_apart(probe.take(i), mapped_probe.take(i), f)) by {
            assert forall|x: int| 0 <= x < i implies #[trigger] mapped_probe.take(i)[x] == f(
                probe.take(i)[x],
            ) by {
                assert(mapped_probe[x] == f(probe[x]));
            }
        }
        lemma_rows_mapped(probe.take(i), mapped_probe.take(i), f, probe[i]);
    }
}

/// An outer join of the images is an outer join of the keys.
pub proof fn lemma_outer_mapped<A, B>(
    r: Seq<(Option<usize>, Option<usize>)>,
    probe: Seq<A>,
    build: Seq<A>,
    mapped_probe: Seq<B>,
    mapped_build: Seq<B>,
    f: spec_fn(A) -> B,
    swap: bool,
)
    requires
        maps_apart(probe, mapped_probe, f),
        maps_apart(build, mapped_build, f),
        is_outer_join(r, mapped_probe, mapped_build, swap),
    ensures
        is_outer_join(r, probe, build, swap),
{
    lemma_outer_head_mapped(
        probe,
        build,
        mapped_probe,
        mapped_build,
        f,
        swap,
        probe.len() as int,
    );
    let head = outer_head(probe, build, swap, probe.len() as int);
    let tail = r.skip(head.len() as int);
    let rows = choose|rows: Seq<usize>|
        is_unmatched_tail(tail, rows, mapped_probe, mapped_build, swap);
    assert forall|j: usize| rows.contains(j) <==> (j < build.len() && !probe.contains(
        build[j as int],
    )) by {
        if j < build.len() {
            lemma_rows_mapped(probe, mapped_probe, f, build[j as int]);
            assert(mapped_build[j as int] == f(build[j as int]));
        }
    }
    assert forall|x: int| 0 <= x < rows.len() implies #[trigger] key_at(mapped_build, rows, x)
        == f(key_at(build, rows, x)) by {
        assert(rows.contains(rows[x]));
        assert(mapped_build[rows[x] as int] == f(build[rows[x] as int]));
    }
    assert(grouped_by_key(rows, build)) by {
        assert forall|x: int, y: int|
            0 <= x < y < rows.len() && #[trigger] key_at(build, rows, x) == #[trigger] key_at(
                build,
                rows,
                y,
            ) implies rows[x] < rows[y] by {
            assert(key_at(mapped_build, rows, x) == key_at(mapped_build, rows, y));
        }
        assert forall|x: int, z: int, y: int|
            0 <= x < z < y < rows.len() && #[trigger] key_at(build, rows, x) == #[trigger] key_at(
                build,
                rows,
                y,
            ) implies #[trigger] key_at(build, rows, z) == key_at(build, rows, x) by {
            assert(key_at(mapped_build, rows, x) == key_at(mapped_build, rows, y));
            assert(key_at(mapped_build, rows, z) == key_at(mapped_build, rows, x));
        }
    }
    assert(is_unmatched_tail(tail, rows, probe, build, swap));
}

} // verus!
