//! The set of the names of a frame's columns.
//!
//! The set is std's hash set with `ahash`'s hasher.  Nothing in this file
//! is proved: each function states what the set's documentation promises.

use vstd::prelude::*;

verus! {

/// A set of names, hashed with `ahash`.
pub type NameSet = std::collections::HashSet<String, ahash::RandomState>;

/// The names that a set holds.
pub uninterp spec fn set_names(s: NameSet) -> Set<Seq<char>>;

/// The set that holds no name.
pub open spec fn no_names() -> Set<Seq<char>> {
    Set::empty()
}

/// `HashSet::with_capacity_and_hasher`: a set that holds nothing.  Not
/// proved.
#[verifier::external_body]
pub(crate) fn name_set_new(capacity: usize, state: ahash::RandomState) -> (s: NameSet)
    ensures
        set_names(s) == no_names(),
{
    std::collections::HashSet::with_capacity_and_hasher(capacity, state)
}

/// `HashSet::insert`: afterwards the set holds the name; the result says
/// whether it did not hold it before.  Not proved.
#[verifier::external_body]
pub(crate) fn name_set_insert(s: &mut NameSet, name: String) -> (fresh: bool)
    ensures
        set_names(*final(s)) == set_names(*old(s)).insert(name@),
        fresh == !set_names(*old(s)).contains(name@),
{
    s.insert(name)
}

/// `HashSet::contains`: whether the set holds the name.  Not proved.
#[verifier::external_body]
pub(crate) fn name_set_contains(s: &NameSet, name: &str) -> (held: bool)
    ensures
        held == set_names(*s).contains(name@),
{
    s.contains(name)
}

} // verus!
