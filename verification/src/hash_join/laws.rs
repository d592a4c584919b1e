//! What holds of every join, proved from the definitions in `relation`.

use crate::hash_join::relation::{
    finds_key, inner_range, inner_tuples, is_outer_join, is_unmatched_tail, left_range, left_rows,
    left_tuples, lemma_concat_distinct, lemma_rows_empty, lemma_rows_with_key, outer_head,
    outer_pair, outer_rows, pair, pair_rows, rows_with_key,
};
use vstd::prelude::*;

verus! {

/// The pairs of a row of `left` and a row of `right` that hold the same key.
pub open spec fn matching_pairs<K>(left: Seq<K>, right: Seq<K>) -> Set<(usize, usize)> {
    Set::new(
        |p: (usize, usize)|
            p.0 < left.len() && p.1 < right.len() && left[p.0 as int] == right[p.1 as int],
    )
}

/// Whether the pair `t` joins a probe row in `lo..hi` with a build row of
/// the same key.
pub open spec fn joins_in_range<K>(
    probe: Seq<K>,
    build: Seq<K>,
    swap: bool,
    lo: int,
    hi: int,
    t: (usize, usize),
) -> bool {
    let i = if swap {
        t.1
    } else {
        t.0
    };
    let j = if swap {
        t.0
    } else {
        t.1
    };
    lo <= i < hi && j < build.len() && probe[i as int] == build[j as int]
}

/// The inner join of probe rows `lo..hi` holds each matching pair once and
/// nothing else.
pub proof fn lemma_inner_range_contents<K>(
    probe: Seq<K>,
    build: Seq<K>,
    swap: bool,
    lo: int,
    hi: int,
)
    requires
        0 <= lo,
        hi <= probe.len() <= usize::MAX,
        build.len() <= usize::MAX,
    ensures
        inner_range(probe, build, swap, lo, hi).no_duplicates(),
        forall|t: (usize, usize)|
            inner_range(probe, build, swap, lo, hi).contains(t) <==> joins_in_range(
                probe,
                build,
                swap,
                lo,
                hi,
                t,
            ),
    decreases hi - lo,
{
    if hi > lo {
        let i = (hi - 1) as usize;
        let prev = inner_range(probe, build, swap, lo, hi - 1);
        let rows = rows_with_key(build, probe[hi - 1]);
        let step = pair_rows(i, rows, swap);
        lemma_inner_range_contents(probe, build, swap, lo, hi - 1);
        lemma_rows_with_key(build, probe[hi - 1]);
        assert forall|t: (usize, usize)| step.contains(t) <==> (joins_in_range(
            probe,
            build,
            swap,
            lo,
            hi,
            t,
        ) && !joins_in_range(probe, build, swap, lo, hi - 1, t)) by {
            if step.contains(t) {
                let x = choose|x: int| 0 <= x < step.len() && step[x] == t;
                assert(t == pair(i, rows[x], swap));
                assert(rows.contains(rows[x]));
            }
            if joins_in_range(probe, build, swap, lo, hi, t) && !joins_in_range(
                probe,
                build,
                swap,
                lo,
                hi - 1,
                t,
            ) {
                let j = if swap {
                    t.0
                } else {
                    t.1
                };
                assert(rows.contains(j));
                let x = choose|x: int| 0 <= x < rows.len() && rows[x] == j;
                assert(step[x] == t);
            }
        }
        assert forall|x: int, y: int| 0 <= x < step.len() && 0 <= y < step.len() && x != y implies step[x]
            != step[y] by {
            if x < y {
                assert(rows[x] < rows[y]);
            } else {
                assert(rows[y] < rows[x]);
            }
        }
        lemma_concat_distinct(prev, step);
        let r = inner_range(probe, build, swap, lo, hi);
        assert(r == prev + step);
        assert forall|t: (usize, usize)| r.contains(t) <==> joins_in_range(
            probe,
            build,
            swap,
            lo,
            hi,
            t,
        ) by {
            assert(r.contains(t) <==> (prev.contains(t) || step.contains(t)));
            assert(prev.contains(t) <==> joins_in_range(probe, build, swap, lo, hi - 1, t));
        }
    } else {
        let r = inner_range(probe, build, swap, lo, hi);
        assert(r.len() == 0);
    }
}

/// The number of rows of an inner join is the number of pairs of a probe
/// row and a build row with the same key; the join holds each such pair
/// once.
pub proof fn inner_join_cardinality<K>(probe: Seq<K>, build: Seq<K>, swap: bool)
    requires
        probe.len() <= usize::MAX,
        build.len() <= usize::MAX,
    ensures
        inner_tuples(probe, build, swap).no_duplicates(),
        inner_tuples(probe, build, swap).to_set() == if swap {
            matching_pairs(build, probe)
        } else {
            matching_pairs(probe, build)
        },
        inner_tuples(probe, build, swap).len() == if swap {
            matching_pairs(build, probe).len()
        } else {
            matching_pairs(probe, build).len()
        },
{
    let r = inner_tuples(probe, build, swap);
    let pairs = if swap {
        matching_pairs(build, probe)
    } else {
        matching_pairs(probe, build)
    };
    lemma_inner_range_contents(probe, build, swap, 0, probe.len() as int);
    assert(r == inner_range(probe, build, swap, 0, probe.len() as int));
    assert forall|t: (usize, usize)| r.to_set().contains(t) <==> pairs.contains(t) by {
        assert(r.to_set().contains(t) <==> r.contains(t));
        assert(r.contains(t) <==> joins_in_range(probe, build, swap, 0, probe.len() as int, t));
    }
    assert(r.to_set() =~= pairs);
    r.unique_seq_to_set();
}

/// The inner join of a left relation with a right one, as pairs (left row,
/// right row): the shorter relation is the build side, the left one where
/// they are equally long.
pub open spec fn inner_join<K>(left: Seq<K>, right: Seq<K>) -> Seq<(usize, usize)> {
    if left.len() > right.len() {
        inner_tuples(left, right, false)
    } else {
        inner_tuples(right, left, true)
    }
}

/// Joining `a` with `b` and `b` with `a` gives the same pairs, each turned
/// round, and as many of them: which side is built and which is probed
/// changes the order of the rows at most.
pub proof fn inner_join_symmetry<K>(a: Seq<K>, b: Seq<K>)
    requires
        a.len() <= usize::MAX,
        b.len() <= usize::MAX,
    ensures
        inner_join(a, b).len() == inner_join(b, a).len(),
        inner_join(a, b).no_duplicates(),
        inner_join(b, a).no_duplicates(),
        forall|i: usize, j: usize| inner_join(a, b).contains((i, j)) <==> inner_join(b, a).contains((j, i)),
{
    inner_join_pairs(a, b);
    inner_join_pairs(b, a);
    let ab = matching_pairs(a, b);
    let ba = matching_pairs(b, a);
    assert forall|i: usize, j: usize| inner_join(a, b).contains((i, j)) <==> inner_join(
        b,
        a,
    ).contains((j, i)) by {
        assert(inner_join(a, b).to_set().contains((i, j)) <==> inner_join(a, b).contains((i, j)));
        assert(inner_join(b, a).to_set().contains((j, i)) <==> inner_join(b, a).contains((j, i)));
        assert(ab.contains((i, j)) <==> ba.contains((j, i)));
    }
    // the two sets of pairs are images of one another under turning a pair round
    let turn = |p: (usize, usize)| (p.1, p.0);
    assert(vstd::relations::injective_on(turn, ab));
    vstd::seq_lib::seq_to_set_is_finite(inner_join(a, b));
    assert(ab.map(turn) =~= ba) by {
        assert forall|q: (usize, usize)| ab.map(turn).contains(q) <==> ba.contains(q) by {
            if ba.contains(q) {
                assert(ab.contains((q.1, q.0)));
                assert(turn((q.1, q.0)) == q);
            }
        }
    }
    inner_join(a, b).unique_seq_to_set();
    inner_join(b, a).unique_seq_to_set();
    vstd::set_lib::lemma_map_size(ab, ba, turn);
}

/// The inner join of `left` with `right` holds each pair of rows with the
/// same key once, and nothing else.
pub proof fn inner_join_pairs<K>(left: Seq<K>, right: Seq<K>)
    requires
        left.len() <= usize::MAX,
        right.len() <= usize::MAX,
    ensures
        inner_join(left, right).no_duplicates(),
        inner_join(left, right).to_set() == matching_pairs(left, right),
        inner_join(left, right).len() == matching_pairs(left, right).len(),
{
    if left.len() > right.len() {
        inner_join_cardinality(left, right, false);
    } else {
        inner_join_cardinality(right, left, true);
    }
}

/// Whether the pair `t` is what a left join yields for a probe row in
/// `lo..hi`: the row with a build row of its key, or with nothing where no
/// build row has its key.
pub open spec fn left_joins_in_range<K>(
    probe: Seq<K>,
    build: Seq<K>,
    lo: int,
    hi: int,
    t: (usize, Option<usize>),
) -> bool {
    lo <= t.0 < hi && match t.1 {
        Some(j) => j < build.len() && build[j as int] == probe[t.0 as int],
        None => !build.contains(probe[t.0 as int]),
    }
}

/// The left join of probe rows `lo..hi` holds each pair that it should once
/// and nothing else.
pub proof fn lemma_left_range_contents<K>(probe: Seq<K>, build: Seq<K>, lo: int, hi: int)
    requires
        0 <= lo,
        hi <= probe.len() <= usize::MAX,
        build.len() <= usize::MAX,
    ensures
        left_range(probe, build, lo, hi).no_duplicates(),
        forall|t: (usize, Option<usize>)|
            left_range(probe, build, lo, hi).contains(t) <==> left_joins_in_range(
                probe,
                build,
                lo,
                hi,
                t,
            ),
    decreases hi - lo,
{
    let r = left_range(probe, build, lo, hi);
    if hi > lo {
        let i = (hi - 1) as usize;
        let prev = left_range(probe, build, lo, hi - 1);
        let rows = rows_with_key(build, probe[hi - 1]);
        let step = left_rows(i, rows);
        lemma_left_range_contents(probe, build, lo, hi - 1);
        lemma_rows_with_key(build, probe[hi - 1]);
        lemma_rows_empty(build, probe[hi - 1]);
        assert forall|t: (usize, Option<usize>)| step.contains(t) <==> (left_joins_in_range(
            probe,
            build,
            lo,
            hi,
            t,
        ) && t.0 == i) by {
            if step.contains(t) {
                let x = choose|x: int| 0 <= x < step.len() && step[x] == t;
                if rows.len() > 0 {
                    assert(t == (i, Some(rows[x])));
                    assert(rows.contains(rows[x]));
                }
            }
            if left_joins_in_range(probe, build, lo, hi, t) && t.0 == i {
                match t.1 {
                    Some(j) => {
                        assert(rows.contains(j));
                        let x = choose|x: int| 0 <= x < rows.len() && rows[x] == j;
                        assert(step[x] == t);
                    },
                    None => {
                        assert(step[0] == t);
                    },
                }
            }
        }
        assert forall|x: int, y: int| 0 <= x < step.len() && 0 <= y < step.len() && x != y implies step[x]
            != step[y] by {
            if x < y {
                assert(rows[x] < rows[y]);
            } else {
                assert(rows[y] < rows[x]);
            }
        }
        assert forall|t: (usize, Option<usize>)| prev.contains(t) implies !step.contains(t) by {
            assert(prev.contains(t) <==> left_joins_in_range(probe, build, lo, hi - 1, t));
            assert(step.contains(t) ==> t.0 == i);
        }
        lemma_concat_distinct(prev, step);
        assert(r == prev + step);
        assert forall|t: (usize, Option<usize>)| r.contains(t) <==> left_joins_in_range(
            probe,
            build,
            lo,
            hi,
            t,
        ) by {
            assert(r.contains(t) <==> (prev.contains(t) || step.contains(t)));
            assert(prev.contains(t) <==> left_joins_in_range(probe, build, lo, hi - 1, t));
        }
    } else {
        assert(r.len() == 0);
    }
}

/// Whether probe row `i` is in one of the pairs of a left join.
pub open spec fn has_probe_row(r: Seq<(usize, Option<usize>)>, i: usize) -> bool {
    exists|x: int| 0 <= x < r.len() && (#[trigger] r[x]).0 == i
}

/// Every row of the probe side is in a left join at least once: with each
/// build row of its key, or, where there is none, once with nothing on the
/// build side.  Nothing else is in it, and nothing twice.
pub proof fn left_join_totality<K>(probe: Seq<K>, build: Seq<K>)
    requires
        probe.len() <= usize::MAX,
        build.len() <= usize::MAX,
    ensures
        forall|i: usize| i < probe.len() ==> #[trigger] has_probe_row(left_tuples(probe, build), i),
        forall|i: usize|
            i < probe.len() ==> (left_tuples(probe, build).contains((i, None))
                <==> !build.contains(probe[i as int])),
        forall|i: usize, j: usize|
            left_tuples(probe, build).contains((i, Some(j))) <==> (i < probe.len() && j
                < build.len() && build[j as int] == probe[i as int]),
        left_tuples(probe, build).no_duplicates(),
{
    let r = left_tuples(probe, build);
    lemma_left_range_contents(probe, build, 0, probe.len() as int);
    assert(r == left_range(probe, build, 0, probe.len() as int));
    assert forall|i: usize| i < probe.len() implies #[trigger] has_probe_row(r, i) by {
        if build.contains(probe[i as int]) {
            let j = choose|j: int| 0 <= j < build.len() && build[j] == probe[i as int];
            let t = (i, Some(j as usize));
            assert(left_joins_in_range(probe, build, 0, probe.len() as int, t));
            assert(r.contains(t));
            let x = choose|x: int| 0 <= x < r.len() && r[x] == t;
            assert(r[x].0 == i);
        } else {
            let t = (i, None::<usize>);
            assert(left_joins_in_range(probe, build, 0, probe.len() as int, t));
            assert(r.contains(t));
            let x = choose|x: int| 0 <= x < r.len() && r[x] == t;
            assert(r[x].0 == i);
        }
    }
    assert forall|i: usize| i < probe.len() implies (r.contains((i, None)) <==> !build.contains(
        probe[i as int],
    )) by {
        assert(r.contains((i, None)) <==> left_joins_in_range(
            probe,
            build,
            0,
            probe.len() as int,
            (i, None),
        ));
    }
    assert forall|i: usize, j: usize| r.contains((i, Some(j))) <==> (i < probe.len() && j
        < build.len() && build[j as int] == probe[i as int]) by {
        assert(r.contains((i, Some(j))) <==> left_joins_in_range(
            probe,
            build,
            0,
            probe.len() as int,
            (i, Some(j)),
        ));
    }
}

/// The probe side's row of a pair of an outer join.
pub open spec fn probe_side(t: (Option<usize>, Option<usize>), swap: bool) -> Option<usize> {
    if swap {
        t.1
    } else {
        t.0
    }
}

/// The build side's row of a pair of an outer join.
pub open spec fn build_side(t: (Option<usize>, Option<usize>), swap: bool) -> Option<usize> {
    if swap {
        t.0
    } else {
        t.1
    }
}

/// Whether `t` is what one of the probe rows `0..hi` yields in an outer
/// join.
pub open spec fn probed_tuple<K>(
    probe: Seq<K>,
    build: Seq<K>,
    swap: bool,
    hi: int,
    t: (Option<usize>, Option<usize>),
) -> bool {
    match probe_side(t, swap) {
        Some(i) => i < hi && match build_side(t, swap) {
            Some(j) => finds_key(probe, build, i as int) && j < build.len() && build[j as int]
                == probe[i as int],
            None => !finds_key(probe, build, i as int),
        },
        None => false,
    }
}

/// The probed part of an outer join holds what the probe rows yield, each
/// pair once.
pub proof fn lemma_outer_head_contents<K>(probe: Seq<K>, build: Seq<K>, swap: bool, hi: int)
    requires
        0 <= hi <= probe.len() <= usize::MAX,
        build.len() <= usize::MAX,
    ensures
        outer_head(probe, build, swap, hi).no_duplicates(),
        forall|t: (Option<usize>, Option<usize>)|
            outer_head(probe, build, swap, hi).contains(t) <==> probed_tuple(
                probe,
                build,
                swap,
                hi,
                t,
            ),
    decreases hi,
{
    let r = outer_head(probe, build, swap, hi);
    if hi > 0 {
        let i = (hi - 1) as usize;
        let prev = outer_head(probe, build, swap, hi - 1);
        let rows = rows_with_key(build, probe[hi - 1]);
        let found = finds_key(probe, build, hi - 1);
        let step = outer_rows(i, rows, found, swap);
        lemma_outer_head_contents(probe, build, swap, hi - 1);
        lemma_rows_with_key(build, probe[hi - 1]);
        assert forall|t: (Option<usize>, Option<usize>)| step.contains(t) <==> (probed_tuple(
            probe,
            build,
            swap,
            hi,
            t,
        ) && probe_side(t, swap) == Some(i)) by {
            if step.contains(t) {
                let x = choose|x: int| 0 <= x < step.len() && step[x] == t;
                if found {
                    assert(t == outer_pair(Some(i), Some(rows[x]), swap));
                    assert(rows.contains(rows[x]));
                }
            }
            if probed_tuple(probe, build, swap, hi, t) && probe_side(t, swap) == Some(i) {
                match build_side(t, swap) {
                    Some(j) => {
                        assert(rows.contains(j));
                        let x = choose|x: int| 0 <= x < rows.len() && rows[x] == j;
                        assert(step[x] == t);
                    },
                    None => {
                        assert(step[0] == t);
                    },
                }
            }
        }
        assert forall|x: int, y: int| 0 <= x < step.len() && 0 <= y < step.len() && x != y implies step[x]
            != step[y] by {
            if x < y {
                assert(rows[x] < rows[y]);
            } else {
                assert(rows[y] < rows[x]);
            }
        }
        assert forall|t: (Option<usize>, Option<usize>)| prev.contains(t) implies !step.contains(
            t,
        ) by {
            assert(prev.contains(t) <==> probed_tuple(probe, build, swap, hi - 1, t));
            assert(step.contains(t) ==> probe_side(t, swap) == Some(i));
        }
        lemma_concat_distinct(prev, step);
        assert(r == prev + step);
        assert forall|t: (Option<usize>, Option<usize>)| r.contains(t) <==> probed_tuple(
            probe,
            build,
            swap,
            hi,
            t,
        ) by {
            assert(r.contains(t) <==> (prev.contains(t) || step.contains(t)));
            assert(prev.contains(t) <==> probed_tuple(probe, build, swap, hi - 1, t));
        }
    } else {
        assert(r.len() == 0);
    }
}

/// Whether `t` is a pair for a build row whose key no probe row holds.
pub open spec fn drained_tuple<K>(
    probe: Seq<K>,
    build: Seq<K>,
    swap: bool,
    t: (Option<usize>, Option<usize>),
) -> bool {
    probe_side(t, swap) is None && match build_side(t, swap) {
        Some(j) => j < build.len() && !probe.contains(build[j as int]),
        None => false,
    }
}

/// What an outer join holds: the probed part and the drained part have
/// nothing in common, and together they are the whole.
pub proof fn lemma_outer_contents<K>(
    r: Seq<(Option<usize>, Option<usize>)>,
    probe: Seq<K>,
    build: Seq<K>,
    swap: bool,
)
    requires
        probe.len() <= usize::MAX,
        build.len() <= usize::MAX,
        is_outer_join(r, probe, build, swap),
    ensures
        r.no_duplicates(),
        forall|t: (Option<usize>, Option<usize>)|
            r.contains(t) <==> (probed_tuple(probe, build, swap, probe.len() as int, t)
                || drained_tuple(probe, build, swap, t)),
{
    let head = outer_head(probe, build, swap, probe.len() as int);
    let tail = r.skip(head.len() as int);
    let rows = choose|rows: Seq<usize>| is_unmatched_tail(tail, rows, probe, build, swap);
    lemma_outer_head_contents(probe, build, swap, probe.len() as int);
    assert(r =~= head + tail);
    assert forall|t: (Option<usize>, Option<usize>)| tail.contains(t) <==> drained_tuple(
        probe,
        build,
        swap,
        t,
    ) by {
        if tail.contains(t) {
            let x = choose|x: int| 0 <= x < tail.len() && tail[x] == t;
            assert(t == outer_pair(None, Some(rows[x]), swap));
            assert(rows.contains(rows[x]));
        }
        if drained_tuple(probe, build, swap, t) {
            let j = build_side(t, swap)->0;
            assert(rows.contains(j));
            let x = choose|x: int| 0 <= x < rows.len() && rows[x] == j;
            assert(tail[x] == t);
        }
    }
    assert forall|x: int, y: int| 0 <= x < tail.len() && 0 <= y < tail.len() && x != y implies tail[x]
        != tail[y] by {
        assert(rows[x] != rows[y]);
    }
    assert forall|t: (Option<usize>, Option<usize>)| head.contains(t) implies !tail.contains(
        t,
    ) by {
        assert(head.contains(t) <==> probed_tuple(probe, build, swap, probe.len() as int, t));
        assert(tail.contains(t) <==> drained_tuple(probe, build, swap, t));
    }
    lemma_concat_distinct(head, tail);
    assert forall|t: (Option<usize>, Option<usize>)| r.contains(t) <==> (probed_tuple(
        probe,
        build,
        swap,
        probe.len() as int,
        t,
    ) || drained_tuple(probe, build, swap, t)) by {
        assert(r.contains(t) <==> (head.contains(t) || tail.contains(t)));
        assert(head.contains(t) <==> probed_tuple(probe, build, swap, probe.len() as int, t));
        assert(tail.contains(t) <==> drained_tuple(probe, build, swap, t));
    }
}

/// Whether probe row `i` is in one of the pairs of an outer join.
pub open spec fn holds_probe_row(r: Seq<(Option<usize>, Option<usize>)>, swap: bool, i: usize) -> bool {
    exists|x: int| 0 <= x < r.len() && probe_side(#[trigger] r[x], swap) == Some(i)
}

/// Whether build row `j` is in one of the pairs of an outer join.
pub open spec fn holds_build_row(r: Seq<(Option<usize>, Option<usize>)>, swap: bool, j: usize) -> bool {
    exists|x: int| 0 <= x < r.len() && build_side(#[trigger] r[x], swap) == Some(j)
}

/// In an outer join every row of the probe side and every row of the build
/// side is in at least one pair.
pub proof fn outer_join_totality<K>(
    r: Seq<(Option<usize>, Option<usize>)>,
    probe: Seq<K>,
    build: Seq<K>,
    swap: bool,
)
    requires
        probe.len() <= usize::MAX,
        build.len() <= usize::MAX,
        is_outer_join(r, probe, build, swap),
    ensures
        forall|i: usize| i < probe.len() ==> #[trigger] holds_probe_row(r, swap, i),
        forall|j: usize| j < build.len() ==> #[trigger] holds_build_row(r, swap, j),
{
    lemma_outer_contents(r, probe, build, swap);
    let len = probe.len() as int;
    assert forall|i: usize| i < probe.len() implies #[trigger] holds_probe_row(r, swap, i) by {
        let t = if finds_key(probe, build, i as int) {
            let j = choose|j: int| 0 <= j < build.len() && build[j] == probe[i as int];
            outer_pair(Some(i), Some(j as usize), swap)
        } else {
            outer_pair(Some(i), None, swap)
        };
        assert(probed_tuple(probe, build, swap, len, t));
        assert(r.contains(t));
        let x = choose|x: int| 0 <= x < r.len() && r[x] == t;
        assert(probe_side(r[x], swap) == Some(i));
    }
    assert forall|j: usize| j < build.len() implies #[trigger] holds_build_row(r, swap, j) by {
        let k = build[j as int];
        let t = if probe.contains(k) {
            // the first probe row with this key finds it
            lemma_rows_with_key(probe, k);
            lemma_rows_empty(probe, k);
            let first = rows_with_key(probe, k)[0];
            assert(rows_with_key(probe, k).contains(first));
            assert(!probe.take(first as int).contains(k)) by {
                if probe.take(first as int).contains(k) {
                    let y = choose|y: int|
                        0 <= y < probe.take(first as int).len() && probe.take(first as int)[y]
                            == k;
                    assert(probe[y] == k);
                    assert(rows_with_key(probe, k).contains(y as usize));
                    let z = choose|z: int|
                        0 <= z < rows_with_key(probe, k).len() && rows_with_key(probe, k)[z]
                            == y as usize;
                    if z > 0 {
                        assert(rows_with_key(probe, k)[0] < rows_with_key(probe, k)[z]);
                    }
                }
            }
            assert(finds_key(probe, build, first as int));
            outer_pair(Some(first), Some(j), swap)
        } else {
            outer_pair(None, Some(j), swap)
        };
        assert(probed_tuple(probe, build, swap, len, t) || drained_tuple(probe, build, swap, t));
        assert(r.contains(t));
        let x = choose|x: int| 0 <= x < r.len() && r[x] == t;
        assert(build_side(r[x], swap) == Some(j));
    }
}

/// Whether `t` belongs to the full outer join of the two relations: two
/// rows with the same key, or a row of one side whose key the other side
/// does not hold, with nothing beside it.
pub open spec fn outer_tuple<K>(
    probe: Seq<K>,
    build: Seq<K>,
    swap: bool,
    t: (Option<usize>, Option<usize>),
) -> bool {
    match (probe_side(t, swap), build_side(t, swap)) {
        (Some(i), Some(j)) => i < probe.len() && j < build.len() && probe[i as int]
            == build[j as int],
        (Some(i), None) => i < probe.len() && !build.contains(probe[i as int]),
        (None, Some(j)) => j < build.len() && !probe.contains(build[j as int]),
        (None, None) => false,
    }
}

/// No key that the build side holds is held by two rows of the probe side.
pub open spec fn matched_keys_probed_once<K>(probe: Seq<K>, build: Seq<K>) -> bool {
    forall|x: int, y: int|
        0 <= x < y < probe.len() && probe[x] == probe[y] ==> !build.contains(probe[x])
}

/// Where no key of the build side is held by two probe rows, an outer join
/// holds exactly: each pair of rows with the same key, once; each probe row
/// without a match, once, with nothing on the build side; each build row
/// without a match, once, with nothing on the probe side.
pub proof fn outer_join_exactness<K>(
    r: Seq<(Option<usize>, Option<usize>)>,
    probe: Seq<K>,
    build: Seq<K>,
    swap: bool,
)
    requires
        probe.len() <= usize::MAX,
        build.len() <= usize::MAX,
        is_outer_join(r, probe, build, swap),
        matched_keys_probed_once(probe, build),
    ensures
        r.no_duplicates(),
        forall|t: (Option<usize>, Option<usize>)|
            r.contains(t) <==> outer_tuple(probe, build, swap, t),
{
    lemma_outer_contents(r, probe, build, swap);
    let len = probe.len() as int;
    assert forall|i: int| 0 <= i < len implies (finds_key(probe, build, i) <==> build.contains(
        probe[i],
    )) by {
        if build.contains(probe[i]) && probe.take(i).contains(probe[i]) {
            let y = choose|y: int| 0 <= y < probe.take(i).len() && probe.take(i)[y] == probe[i];
            assert(probe[y] == probe[i]);
        }
    }
    assert forall|t: (Option<usize>, Option<usize>)| r.contains(t) <==> outer_tuple(
        probe,
        build,
        swap,
        t,
    ) by {
        assert(r.contains(t) <==> (probed_tuple(probe, build, swap, len, t) || drained_tuple(
            probe,
            build,
            swap,
            t,
        )));
        match (probe_side(t, swap), build_side(t, swap)) {
            (Some(i), Some(j)) => {
                if i < len && j < build.len() && probe[i as int] == build[j as int] {
                    assert(build.contains(probe[i as int]));
                }
            },
            _ => {},
        }
    }
}

/// Two outer joins of the same relations, whatever the number of workers
/// and the order in which the tables were emptied, hold the same pairs and
/// equally many; they differ at most in the order of the build rows that
/// nothing asked for.
pub proof fn outer_join_determinism<K>(
    r1: Seq<(Option<usize>, Option<usize>)>,
    r2: Seq<(Option<usize>, Option<usize>)>,
    probe: Seq<K>,
    build: Seq<K>,
    swap: bool,
)
    requires
        probe.len() <= usize::MAX,
        build.len() <= usize::MAX,
        is_outer_join(r1, probe, build, swap),
        is_outer_join(r2, probe, build, swap),
    ensures
        r1.to_set() == r2.to_set(),
        r1.len() == r2.len(),
        r1.take(outer_head(probe, build, swap, probe.len() as int).len() as int) == r2.take(
            outer_head(probe, build, swap, probe.len() as int).len() as int,
        ),
{
    lemma_outer_contents(r1, probe, build, swap);
    lemma_outer_contents(r2, probe, build, swap);
    assert forall|t: (Option<usize>, Option<usize>)| r1.to_set().contains(t)
        <==> r2.to_set().contains(t) by {
        assert(r1.to_set().contains(t) <==> r1.contains(t));
        assert(r2.to_set().contains(t) <==> r2.contains(t));
    }
    assert(r1.to_set() =~= r2.to_set());
    r1.unique_seq_to_set();
    r2.unique_seq_to_set();
}

/// Every pair of an inner join names a row of the left and a row of the
/// right relation.
pub proof fn lemma_inner_join_bounds<K>(left: Seq<K>, right: Seq<K>)
    requires
        left.len() <= usize::MAX,
        right.len() <= usize::MAX,
    ensures
        forall|x: int|
            0 <= x < inner_join(left, right).len() ==> (#[trigger] inner_join(left, right)[x]).0
                < left.len() && inner_join(left, right)[x].1 < right.len(),
{
    inner_join_pairs(left, right);
    let r = inner_join(left, right);
    assert forall|x: int| 0 <= x < r.len() implies (#[trigger] r[x]).0 < left.len() && r[x].1
        < right.len() by {
        assert(r.to_set().contains(r[x]));
    }
}

/// Every pair of a left join names a row of the probe side and, where it
/// names one of the build side, a row of it.
pub proof fn lemma_left_join_bounds<K>(probe: Seq<K>, build: Seq<K>)
    requires
        probe.len() <= usize::MAX,
        build.len() <= usize::MAX,
    ensures
        forall|x: int|
            0 <= x < left_tuples(probe, build).len() ==> (#[trigger] left_tuples(probe, build)[x]).0
                < probe.len() && match left_tuples(probe, build)[x].1 {
                Some(j) => j < build.len(),
                None => true,
            },
{
    let r = left_tuples(probe, build);
    lemma_left_range_contents(probe, build, 0, probe.len() as int);
    assert forall|x: int| 0 <= x < r.len() implies (#[trigger] r[x]).0 < probe.len() && match r[x].1 {
        Some(j) => j < build.len(),
        None => true,
    } by {
        assert(r.contains(r[x]));
        assert(left_joins_in_range(probe, build, 0, probe.len() as int, r[x]));
    }
}

/// Every pair of an outer join names rows that are there.
pub proof fn lemma_outer_join_bounds<K>(
    r: Seq<(Option<usize>, Option<usize>)>,
    probe: Seq<K>,
    build: Seq<K>,
    swap: bool,
)
    requires
        probe.len() <= usize::MAX,
        build.len() <= usize::MAX,
        is_outer_join(r, probe, build, swap),
    ensures
        forall|x: int|
            0 <= x < r.len() ==> match probe_side(#[trigger] r[x], swap) {
                Some(i) => i < probe.len(),
                None => true,
            } && match build_side(r[x], swap) {
                Some(j) => j < build.len(),
                None => true,
            },
{
    lemma_outer_contents(r, probe, build, swap);
    assert forall|x: int| 0 <= x < r.len() implies match probe_side(#[trigger] r[x], swap) {
        Some(i) => i < probe.len(),
        None => true,
    } && match build_side(r[x], swap) {
        Some(j) => j < build.len(),
        None => true,
    } by {
        assert(r.contains(r[x]));
        assert(probed_tuple(probe, build, swap, probe.len() as int, r[x]) || drained_tuple(
            probe,
            build,
            swap,
            r[x],
        ));
    }
}

/// A left join has a pair for every probe row; where it has no more pairs
/// than probe rows, pair `x` is that of probe row `x`.
pub proof fn lemma_left_join_one_each<K>(probe: Seq<K>, build: Seq<K>, hi: int)
    requires
        0 <= hi <= probe.len() <= usize::MAX,
    ensures
        left_range(probe, build, 0, hi).len() >= hi,
        left_range(probe, build, 0, hi).len() == hi ==> forall|x: int|
            0 <= x < hi ==> (#[trigger] left_range(probe, build, 0, hi)[x]).0 == x,
    decreases hi,
{
    if hi > 0 {
        lemma_left_join_one_each(probe, build, hi - 1);
        let prev = left_range(probe, build, 0, hi - 1);
        let step = left_rows((hi - 1) as usize, rows_with_key(build, probe[hi - 1]));
        let r = left_range(probe, build, 0, hi);
        assert(r == prev + step);
        assert(step.len() >= 1);
        if r.len() == hi {
            assert(prev.len() == hi - 1 && step.len() == 1);
            assert forall|x: int| 0 <= x < hi implies (#[trigger] r[x]).0 == x by {
                if x < hi - 1 {
                    assert(r[x] == prev[x]);
                } else {
                    assert(r[x] == step[0]);
                }
            }
        }
    }
}

} // verus!
