//! The distinct values of a column.

use crate::datatypes::{values_view, AnyType, Value};
use crate::hash_join::keys::{
    cell_key, column_keys, key_view, keys_view, row_key, row_keys, single_rows, JoinKey, KeyView,
};
use crate::hash_join::prepare::clone_key;
use crate::hash_join::relation::{lemma_rows_mapped, maps_apart};
use crate::hash_join::rows::lemma_row_keys_apart;
use crate::group_by::{groupby, groups_view, is_grouping, IntoGroupTuples};
use crate::series::Series;
use crate::take::{all_in_bounds, gather, take_values, Take};
use vstd::prelude::*;

verus! {

#[verifier::external_type_specification]
#[verifier::external_body]
pub struct ExFnvHasher(fnv::FnvHasher);

#[verifier::external_type_specification]
#[verifier::external_body]
#[verifier::reject_recursive_types(H)]
pub struct ExBuildHasherDefault<H>(std::hash::BuildHasherDefault<H>);

/// A set of keys, hashed with the Fowler-Noll-Vo function.
pub type KeySet = std::collections::HashSet<JoinKey, fnv::FnvBuildHasher>;

/// The keys that a set holds.
pub uninterp spec fn set_keys(s: KeySet) -> Set<KeyView>;

/// The set that holds nothing.
pub open spec fn no_keys() -> Set<KeyView> {
    Set::empty()
}

/// `HashSet::with_capacity_and_hasher`, with the default state of `fnv`'s
/// hasher: a set that holds nothing.  Not proved.
#[verifier::external_body]
pub(crate) fn key_set_new(capacity: usize) -> (s: KeySet)
    ensures
        set_keys(s) == no_keys(),
{
    std::collections::HashSet::with_capacity_and_hasher(capacity, fnv::FnvBuildHasher::default())
}

/// `HashSet::insert`: afterwards the set holds the key; the result says
/// whether it did not hold it before.  Not proved.
#[verifier::external_body]
pub(crate) fn key_set_insert(s: &mut KeySet, key: JoinKey) -> (fresh: bool)
    ensures
        set_keys(*final(s)) == set_keys(*old(s)).insert(key_view(key@)),
        fresh == !set_keys(*old(s)).contains(key_view(key@)),
{
    s.insert(key)
}

/// The set of the keys of a relation.  Room is made for `capacity` keys
/// at the outset, but for no more than the relation has rows.
pub fn fill_set(keys: &Vec<JoinKey>, capacity: usize) -> (set: KeySet)
    ensures
        set_keys(set) == keys_view(keys@).to_set(),
{
    let ghost all = keys_view(keys@);
    let room = if capacity <= keys.len() {
        capacity
    } else {
        keys.len()
    };
    let mut set = key_set_new(room);
    let mut i: usize = 0;
    assert(set_keys(set) =~= all.take(0).to_set());
    while i < keys.len()
        invariant
            i <= keys.len(),
            all == keys_view(keys@),
            set_keys(set) == all.take(i as int).to_set(),
        decreases keys.len() - i,
    {
        let _ = key_set_insert(&mut set, clone_key(&keys[i]));
        proof {
            lemma_take_set(all, i as int);
        }
        i += 1;
    }
    assert(all.take(i as int) =~= all);
    set
}

/// The set of the first `i + 1` items is that of the first `i` with item
/// `i` put in.
pub proof fn lemma_take_set<K>(keys: Seq<K>, i: int)
    requires
        0 <= i < keys.len(),
    ensures
        keys.take(i + 1).to_set() == keys.take(i).to_set().insert(keys[i]),
        keys.take(i).to_set().contains(keys[i]) <==> keys.take(i).contains(keys[i]),
{
    let a = keys.take(i + 1);
    let b = keys.take(i);
    assert forall|k: K| a.to_set().contains(k) <==> b.to_set().insert(keys[i]).contains(k) by {
        if a.contains(k) {
            let x = choose|x: int| 0 <= x < a.len() && a[x] == k;
            if x < i {
                assert(b[x] == k);
            }
        }
        if b.contains(k) {
            let x = choose|x: int| 0 <= x < b.len() && b[x] == k;
            assert(a[x] == k);
        }
        if k == keys[i] {
            assert(a[i] == k);
        }
    }
    assert(a.to_set() =~= b.to_set().insert(keys[i]));
}

/// The rows that hold a key which no row before them holds, ascending.
pub open spec fn first_occurrences<K>(keys: Seq<K>) -> Seq<usize>
    decreases keys.len(),
{
    if keys.len() == 0 {
        Seq::empty()
    } else {
        let rest = first_occurrences(keys.drop_last());
        if keys.drop_last().contains(keys.last()) {
            rest
        } else {
            rest.push((keys.len() - 1) as usize)
        }
    }
}

/// The first occurrences are rows of the relation; every key of the
/// relation is the key of exactly one of them.
pub proof fn lemma_first_occurrences<K>(keys: Seq<K>)
    requires
        keys.len() <= usize::MAX,
    ensures
        all_in_bounds(first_occurrences(keys), keys.len()),
        forall|i: usize|
            first_occurrences(keys).contains(i) <==> (i < keys.len() && !keys.take(
                i as int,
            ).contains(keys[i as int])),
    decreases keys.len(),
{
    let r = first_occurrences(keys);
    if keys.len() > 0 {
        let init = keys.drop_last();
        let rest = first_occurrences(init);
        let last = (keys.len() - 1) as usize;
        lemma_first_occurrences(init);
        assert(keys.take(last as int) =~= init);
        assert forall|i: usize| r.contains(i) <==> (i < keys.len() && !keys.take(
            i as int,
        ).contains(keys[i as int])) by {
            if i < last {
                assert(init.take(i as int) =~= keys.take(i as int));
                assert(init[i as int] == keys[i as int]);
            }
            if r.contains(i) {
                let x = choose|x: int| 0 <= x < r.len() && r[x] == i;
                if x < rest.len() {
                    assert(rest[x] == i);
                    assert(rest.contains(i));
                }
            }
            if i < keys.len() && !keys.take(i as int).contains(keys[i as int]) {
                if i < last {
                    assert(rest.contains(i));
                    let x = choose|x: int| 0 <= x < rest.len() && rest[x] == i;
                    assert(r[x] == i);
                } else {
                    assert(r[rest.len() as int] == i);
                }
            }
        }
        assert forall|x: int| 0 <= x < r.len() implies (#[trigger] r[x]) < keys.len() by {
            assert(r.contains(r[x]));
        }
    }
}

/// The first occurrences of the images of keys that are told apart by
/// their images are the first occurrences of the keys.
pub proof fn lemma_first_occurrences_mapped<A, B>(keys: Seq<A>, mapped: Seq<B>, f: spec_fn(A) -> B)
    requires
        maps_apart(keys, mapped, f),
    ensures
        first_occurrences(mapped) == first_occurrences(keys),
    decreases keys.len(),
{
    if keys.len() > 0 {
        assert(maps_apart(keys.drop_last(), mapped.drop_last(), f)) by {
            assert forall|i: int| 0 <= i < keys.drop_last().len() implies #[trigger] mapped.drop_last()[i]
                == f(keys.drop_last()[i]) by {
                assert(mapped[i] == f(keys[i]));
            }
        }
        lemma_first_occurrences_mapped(keys.drop_last(), mapped.drop_last(), f);
        lemma_rows_mapped(keys.drop_last(), mapped.drop_last(), f, keys.last());
        assert(mapped.last() == f(keys.last()));
    }
}

/// The distinct values of a column.
pub trait ChunkUnique: Sized {
    /// The rows of the column, one key each.
    spec fn unique_keys(&self) -> Seq<Seq<Value>>;

    /// The distinct values, in the order in which they first occur.
    fn unique(&self) -> Self;

    /// The first row of each distinct value, ascending.
    fn arg_unique(&self) -> (r: Vec<usize>)
        ensures
            r@ == first_occurrences(self.unique_keys()),
    ;

    /// The number of distinct values.
    fn n_unique(&self) -> (n: usize)
        ensures
            n == first_occurrences(self.unique_keys()).len(),
    ;
}

/// The distinct values of a column.
pub trait Unique: Sized {
    /// The distinct values, in the order in which they first occur.
    fn unique(&self) -> Self;
}

/// The first row of each key of a relation, ascending.
pub fn first_rows_of(keys: &Vec<JoinKey>) -> (r: Vec<usize>)
    ensures
        r@ == first_occurrences(keys_view(keys@)),
{
    let ghost all = keys_view(keys@);
    let mut set = key_set_new(keys.len());
    let mut out: Vec<usize> = Vec::new();
    let mut i: usize = 0;
    assert(set_keys(set) =~= all.take(0).to_set());
    while i < keys.len()
        invariant
            i <= keys.len(),
            all == keys_view(keys@),
            set_keys(set) == all.take(i as int).to_set(),
            out@ == first_occurrences(all.take(i as int)),
        decreases keys.len() - i,
    {
        proof {
            lemma_take_set(all, i as int);
            assert(all.take(i as int + 1).drop_last() =~= all.take(i as int));
        }
        if key_set_insert(&mut set, clone_key(&keys[i])) {
            out.push(i);
        }
        i += 1;
    }
    assert(all.take(i as int) =~= all);
    out
}

impl ChunkUnique for Series {
    open spec fn unique_keys(&self) -> Seq<Seq<Value>> {
        single_rows(self@.values)
    }

    fn unique(&self) -> (r: Series)
        ensures
            r@ == self@.with_values(
                take_values(self@.values, first_occurrences(single_rows(self@.values))),
            ),
    {
        let rows = self.arg_unique();
        let n = self.len();
        proof {
            assert(single_rows(self@.values).len() == n);
            lemma_first_occurrences(single_rows(self@.values));
        }
        self.take_unchecked(&rows, Some(rows.len()))
    }

    fn arg_unique(&self) -> (r: Vec<usize>) {
        let keys = column_keys(self);
        let r = first_rows_of(&keys);
        proof {
            let rows = single_rows(self@.values);
            lemma_row_keys_apart(rows);
            lemma_first_occurrences_mapped(rows, row_keys(rows), |row: Seq<Value>| row_key(row));
        }
        r
    }

    fn n_unique(&self) -> (n: usize) {
        self.arg_unique().len()
    }
}

impl Unique for Vec<AnyType> {
    fn unique(&self) -> (r: Vec<AnyType>)
        ensures
            values_view(r@) == take_values(
                values_view(self@),
                first_occurrences(single_rows(values_view(self@))),
            ),
    {
        let mut keys: Vec<JoinKey> = Vec::with_capacity(self.len());
        let mut i: usize = 0;
        while i < self.len()
            invariant
                i <= self.len(),
                keys.len() == i,
                forall|r: int|
                    0 <= r < i ==> key_view(#[trigger] keys[r]@) == row_key(seq![self[r]@]),
            decreases self.len() - i,
        {
            let mut key: JoinKey = Vec::with_capacity(1);
            key.push(cell_key(&self[i]));
            assert(key_view(key@) =~= row_key(seq![self[i as int]@]));
            keys.push(key);
            i += 1;
        }
        let ghost rows = single_rows(values_view(self@));
        assert(keys_view(keys@) =~= row_keys(rows));
        let firsts = first_rows_of(&keys);
        proof {
            lemma_row_keys_apart(rows);
            lemma_first_occurrences_mapped(rows, row_keys(rows), |row: Seq<Value>| row_key(row));
            lemma_first_occurrences(rows);
        }
        gather(self, &firsts, Some(firsts.len()))
    }
}

/// Whether `counts` lists the values of a column with the number of rows
/// that hold them: each value that the column holds once, in some order.
pub open spec fn is_value_counts(counts: Seq<(Value, usize)>, values: Seq<Value>) -> bool {
    exists|groups: Seq<(usize, Seq<usize>)>|
        is_grouping(groups, single_rows(values)) && counts == Seq::new(
            groups.len(),
            |g: int| (values[groups[g].0 as int], groups[g].1.len() as usize),
        )
}

/// Counting how often each value occurs.
pub trait ValueCounts {
    /// The rows of the column.
    spec fn counted(&self) -> Seq<Value>;

    /// Each value of the column with the number of rows that hold it, in
    /// an order that is not defined.
    fn value_counts(&self) -> (r: Vec<(AnyType, usize)>)
        ensures
            is_value_counts(Seq::new(r@.len(), |x: int| (r@[x].0@, r@[x].1)), self.counted()),
    ;
}

/// For each key of a relation, the first row that holds it and the number
/// of rows that hold it, in an order that is not defined.
pub fn fill_set_value_count(keys: &Vec<JoinKey>) -> (r: Vec<(usize, usize)>)
    ensures
        exists|groups: Seq<(usize, Seq<usize>)>|
            is_grouping(groups, keys_view(keys@)) && r@ == Seq::new(
                groups.len(),
                |g: int| (groups[g].0, groups[g].1.len() as usize),
            ),
{
    let groups = groupby(keys);
    let mut out: Vec<(usize, usize)> = Vec::with_capacity(groups.len());
    let mut g: usize = 0;
    while g < groups.len()
        invariant
            g <= groups.len(),
            out.len() == g,
            forall|h: int| 0 <= h < g ==> out[h] == (groups[h].0, groups[h].1.len()),
        decreases groups.len() - g,
    {
        out.push((groups[g].0, groups[g].1.len()));
        g += 1;
    }
    proof {
        let gv = groups_view(groups@);
        assert(out@ =~= Seq::new(gv.len(), |g: int| (gv[g].0, gv[g].1.len() as usize)));
    }
    out
}

impl ValueCounts for Series {
    open spec fn counted(&self) -> Seq<Value> {
        self@.values
    }

    fn value_counts(&self) -> (r: Vec<(AnyType, usize)>) {
        let groups = self.group_tuples();
        let n = self.len();
        let mut out: Vec<(AnyType, usize)> = Vec::with_capacity(groups.len());
        let mut g: usize = 0;
        while g < groups.len()
            invariant
                g <= groups.len(),
                out.len() == g,
                n == self@.values.len(),
                is_grouping(groups_view(groups@), single_rows(self@.values)),
                forall|h: int|
                    0 <= h < g ==> (#[trigger] out[h]).0@ == self@.values[groups[h].0 as int]
                        && out[h].1 == groups[h].1.len(),
            decreases groups.len() - g,
        {
            assert(groups_view(groups@)[g as int].0 < single_rows(self@.values).len());
            out.push((self.value(groups[g].0).duplicate(), groups[g].1.len()));
            g += 1;
        }
        proof {
            let gv = groups_view(groups@);
            assert(Seq::new(out@.len(), |x: int| (out@[x].0@, out@[x].1)) =~= Seq::new(
                gv.len(),
                |g: int| (self@.values[gv[g].0 as int], gv[g].1.len() as usize),
            ));
        }
        out
    }
}

} // verus!
