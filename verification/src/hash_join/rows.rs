//! Joins over the rows of key columns: which side is built and which is
//! probed, and the index pairs of the three kinds of join.

use crate::datatypes::Value;
use crate::frame::{columns_view, equal_heights, frame_height};
use crate::hash_join::keys::{
    cell_key, column_keys, key_view, keys_view, lemma_row_key_injective, row_key, row_keys,
    single_rows, JoinKey,
};
use crate::hash_join::laws::inner_join;
use crate::hash_join::outer::hash_join_tuples_outer;
use crate::hash_join::relation::{
    is_outer_join, left_tuples, lemma_inner_mapped, lemma_left_mapped, lemma_outer_mapped,
    maps_apart,
};
use crate::hash_join::tuples::{hash_join_tuples_inner_threaded, hash_join_tuples_left_threaded};
use crate::series::{Series, SeriesView};
use vstd::prelude::*;

verus! {

/// The rows of a set of key columns: row `r` holds the value of each column
/// in row `r`.
pub open spec fn key_rows(cols: Seq<SeriesView>) -> Seq<Seq<Value>> {
    Seq::new(frame_height(cols), |r: int| Seq::new(cols.len(), |c: int| cols[c].values[r]))
}

/// Whether `r` is an outer join of a left relation with a right one, as
/// pairs (left row, right row): the shorter relation is the build side, the
/// left one where they are equally long.
pub open spec fn is_outer_join_of<K>(
    r: Seq<(Option<usize>, Option<usize>)>,
    left: Seq<K>,
    right: Seq<K>,
) -> bool {
    if left.len() > right.len() {
        is_outer_join(r, left, right, false)
    } else {
        is_outer_join(r, right, left, true)
    }
}

/// Chooses the sides of a join: the longer relation is probed and the
/// shorter one is built into the tables; where they are equally long the
/// left one is built.  Returns the probe side, the build side, and whether
/// the pairs that a probe yields have to be turned round to read (left,
/// right), which is so when the right relation is the one probed.
pub fn det_hash_prone_order<'a, T>(left: &'a Vec<T>, right: &'a Vec<T>) -> (r: (
    &'a Vec<T>,
    &'a Vec<T>,
    bool,
))
    ensures
        r == if left.len() > right.len() {
            (left, right, false)
        } else {
            (right, left, true)
        },
{
    if left.len() > right.len() {
        (left, right, false)
    } else {
        (right, left, true)
    }
}

/// The number of workers to join with: at least one.
pub fn worker_count(n_threads: usize) -> (n: usize)
    ensures
        n >= 1,
        n_threads >= 1 ==> n == n_threads,
{
    if n_threads == 0 {
        1
    } else {
        n_threads
    }
}

/// The keys of the rows of a set of key columns of one height.
pub fn frame_keys(columns: &Vec<Series>) -> (r: Vec<JoinKey>)
    requires
        equal_heights(columns_view(columns@)),
    ensures
        keys_view(r@) == row_keys(key_rows(columns_view(columns@))),
{
    let ghost cols = columns_view(columns@);
    let height = if columns.len() == 0 {
        0
    } else {
        columns[0].len()
    };
    let mut keys: Vec<JoinKey> = Vec::with_capacity(height);
    let mut r: usize = 0;
    while r < height
        invariant
            r <= height,
            height == frame_height(cols),
            cols == columns_view(columns@),
            equal_heights(cols),
            keys.len() == r,
            forall|q: int| 0 <= q < r ==> key_view(#[trigger] keys[q]@) == row_key(key_rows(cols)[q]),
        decreases height - r,
    {
        let mut key: JoinKey = Vec::with_capacity(columns.len());
        let mut c: usize = 0;
        while c < columns.len()
            invariant
                c <= columns.len(),
                r < height,
                height == frame_height(cols),
                cols == columns_view(columns@),
                equal_heights(cols),
                key.len() == c,
                forall|d: int|
                    0 <= d < c ==> crate::hash_join::keys::part_view(#[trigger] key[d])
                        == crate::hash_join::keys::key_part(cols[d].values[r as int]),
            decreases columns.len() - c,
        {
            assert(cols[c as int].values.len() == cols[0].values.len());
            key.push(cell_key(columns[c].value(r)));
            c += 1;
        }
        assert(key_view(key@) =~= row_key(key_rows(cols)[r as int]));
        keys.push(key);
        r += 1;
    }
    assert(keys_view(keys@) =~= row_keys(key_rows(cols)));
    keys
}

/// The keys of rows are their images under a map that tells rows apart.
pub proof fn lemma_row_keys_apart(rows: Seq<Seq<Value>>)
    ensures
        maps_apart(rows, row_keys(rows), |row: Seq<Value>| row_key(row)),
{
    assert forall|x: Seq<Value>, y: Seq<Value>| row_key(x) == row_key(y) implies x == y by {
        lemma_row_key_injective(x, y);
    }
}

/// Inner join of two sets of key columns: the pairs (left row, right row)
/// whose rows hold the same values, the rows of the probed side in order
/// and for each of them the matching rows of the built side ascending.
pub fn inner_join_multiple_keys(left: &Vec<Series>, right: &Vec<Series>, n_threads: usize) -> (r:
    Vec<(usize, usize)>)
    requires
        equal_heights(columns_view(left@)),
        equal_heights(columns_view(right@)),
    ensures
        r@ == inner_join(key_rows(columns_view(left@)), key_rows(columns_view(right@))),
{
    let left_keys = frame_keys(left);
    let right_keys = frame_keys(right);
    let (a, b, swap) = det_hash_prone_order(&left_keys, &right_keys);
    let r = hash_join_tuples_inner_threaded(a, b, swap, worker_count(n_threads));
    proof {
        let lrows = key_rows(columns_view(left@));
        let rrows = key_rows(columns_view(right@));
        let f = |row: Seq<Value>| row_key(row);
        lemma_row_keys_apart(lrows);
        lemma_row_keys_apart(rrows);
        if swap {
            lemma_inner_mapped(
                rrows,
                lrows,
                row_keys(rrows),
                row_keys(lrows),
                f,
                swap,
                0,
                rrows.len() as int,
            );
        } else {
            lemma_inner_mapped(
                lrows,
                rrows,
                row_keys(lrows),
                row_keys(rrows),
                f,
                swap,
                0,
                lrows.len() as int,
            );
        }
    }
    r
}

/// Left join of two sets of key columns: every left row in order, with
/// each right row that holds the same values, or with nothing.
pub fn left_join_multiple_keys(left: &Vec<Series>, right: &Vec<Series>, n_threads: usize) -> (r:
    Vec<(usize, Option<usize>)>)
    requires
        equal_heights(columns_view(left@)),
        equal_heights(columns_view(right@)),
    ensures
        r@ == left_tuples(key_rows(columns_view(left@)), key_rows(columns_view(right@))),
{
    let left_keys = frame_keys(left);
    let right_keys = frame_keys(right);
    let r = hash_join_tuples_left_threaded(&left_keys, &right_keys, worker_count(n_threads));
    proof {
        let lrows = key_rows(columns_view(left@));
        let rrows = key_rows(columns_view(right@));
        let f = |row: Seq<Value>| row_key(row);
        lemma_row_keys_apart(lrows);
        lemma_row_keys_apart(rrows);
        lemma_left_mapped(lrows, rrows, row_keys(lrows), row_keys(rrows), f, 0, lrows.len() as int);
    }
    r
}

/// Outer join of two sets of key columns: what the rows of the probed side
/// find, then the rows of the built side that nothing asked for.
pub fn outer_join_multiple_keys(left: &Vec<Series>, right: &Vec<Series>, n_threads: usize) -> (r:
    Vec<(Option<usize>, Option<usize>)>)
    requires
        equal_heights(columns_view(left@)),
        equal_heights(columns_view(right@)),
    ensures
        is_outer_join_of(r@, key_rows(columns_view(left@)), key_rows(columns_view(right@))),
{
    let left_keys = frame_keys(left);
    let right_keys = frame_keys(right);
    let (a, b, swap) = det_hash_prone_order(&left_keys, &right_keys);
    let r = hash_join_tuples_outer(a, b, swap, worker_count(n_threads));
    proof {
        let lrows = key_rows(columns_view(left@));
        let rrows = key_rows(columns_view(right@));
        let f = |row: Seq<Value>| row_key(row);
        lemma_row_keys_apart(lrows);
        lemma_row_keys_apart(rrows);
        if swap {
            lemma_outer_mapped(r@, rrows, lrows, row_keys(rrows), row_keys(lrows), f, swap);
        } else {
            lemma_outer_mapped(r@, lrows, rrows, row_keys(lrows), row_keys(rrows), f, swap);
        }
    }
    r
}

/// Joining two key columns to index pairs.
pub trait HashJoin: Sized {
    /// The rows of the key column, one value each.
    spec fn join_rows(&self) -> Seq<Seq<Value>>;

    /// The pairs (row of this column, row of the other) with equal values.
    fn hash_join_inner(&self, other: &Self, n_threads: usize) -> (r: Vec<(usize, usize)>)
        ensures
            r@ == inner_join(self.join_rows(), other.join_rows()),
    ;

    /// Every row of this column with each row of the other that holds the
    /// same value, or with nothing.
    fn hash_join_left(&self, other: &Self, n_threads: usize) -> (r: Vec<(usize, Option<usize>)>)
        ensures
            r@ == left_tuples(self.join_rows(), other.join_rows()),
    ;

    /// The rows of both columns, paired where the values are the same.
    fn hash_join_outer(&self, other: &Self, n_threads: usize) -> (r: Vec<
        (Option<usize>, Option<usize>),
    >)
        ensures
            is_outer_join_of(r@, self.join_rows(), other.join_rows()),
    ;
}

impl HashJoin for Series {
    open spec fn join_rows(&self) -> Seq<Seq<Value>> {
        single_rows(self@.values)
    }

    fn hash_join_inner(&self, other: &Series, n_threads: usize) -> (r: Vec<(usize, usize)>) {
        let left_keys = column_keys(self);
        let right_keys = column_keys(other);
        let (a, b, swap) = det_hash_prone_order(&left_keys, &right_keys);
        let r = hash_join_tuples_inner_threaded(a, b, swap, worker_count(n_threads));
        proof {
            let lrows = single_rows(self@.values);
            let rrows = single_rows(other@.values);
            let f = |row: Seq<Value>| row_key(row);
            lemma_row_keys_apart(lrows);
            lemma_row_keys_apart(rrows);
            if swap {
                lemma_inner_mapped(
                    rrows,
                    lrows,
                    row_keys(rrows),
                    row_keys(lrows),
                    f,
                    swap,
                    0,
                    rrows.len() as int,
                );
            } else {
                lemma_inner_mapped(
                    lrows,
                    rrows,
                    row_keys(lrows),
                    row_keys(rrows),
                    f,
                    swap,
                    0,
                    lrows.len() as int,
                );
            }
        }
        r
    }

    fn hash_join_left(&self, other: &Series, n_threads: usize) -> (r: Vec<(usize, Option<usize>)>) {
        let left_keys = column_keys(self);
        let right_keys = column_keys(other);
        let r = hash_join_tuples_left_threaded(&left_keys, &right_keys, worker_count(n_threads));
        proof {
            let lrows = single_rows(self@.values);
            let rrows = single_rows(other@.values);
            let f = |row: Seq<Value>| row_key(row);
            lemma_row_keys_apart(lrows);
            lemma_row_keys_apart(rrows);
            lemma_left_mapped(
                lrows,
                rrows,
                row_keys(lrows),
                row_keys(rrows),
                f,
                0,
                lrows.len() as int,
            );
        }
        r
    }

    fn hash_join_outer(&self, other: &Series, n_threads: usize) -> (r: Vec<
        (Option<usize>, Option<usize>),
    >) {
        let left_keys = column_keys(self);
        let right_keys = column_keys(other);
        let (a, b, swap) = det_hash_prone_order(&left_keys, &right_keys);
        let r = hash_join_tuples_outer(a, b, swap, worker_count(n_threads));
        proof {
            let lrows = single_rows(self@.values);
            let rrows = single_rows(other@.values);
            let f = |row: Seq<Value>| row_key(row);
            lemma_row_keys_apart(lrows);
            lemma_row_keys_apart(rrows);
            if swap {
                lemma_outer_mapped(r@, rrows, lrows, row_keys(rrows), row_keys(lrows), f, swap);
            } else {
                lemma_outer_mapped(r@, lrows, rrows, row_keys(lrows), row_keys(rrows), f, swap);
            }
        }
        r
    }
}

} // verus!
