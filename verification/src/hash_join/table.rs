//! The hash table of a join: from a key to the rows that hold it.
//!
//! The table itself is `hashbrown`'s map.  Nothing in this file is proved:
//! each function states what the map's documentation promises.

use crate::hash_join::keys::{key_view, JoinKey, KeyView};
use vstd::prelude::*;

verus! {

#[verifier::external_type_specification]
#[verifier::external_body]
pub struct ExRandomState(ahash::RandomState);

/// A map from keys to rows, kept in a `hashbrown::HashMap`.
#[verifier::external_body]
pub struct Table {
    rows: hashbrown::HashMap<JoinKey, Vec<usize>, ahash::RandomState>,
}

/// What a table holds: for each key in it, the rows stored under the key.
pub uninterp spec fn table_rows(t: Table) -> Map<KeyView, Seq<usize>>;

/// The table that holds nothing.
pub open spec fn no_rows() -> Map<KeyView, Seq<usize>> {
    Map::empty()
}

/// What a sequence of tables holds.
pub open spec fn tables_view(tables: Seq<Table>) -> Seq<Map<KeyView, Seq<usize>>> {
    Seq::new(tables.len(), |t: int| table_rows(tables[t]))
}

/// Whether `entries` lists what `rows` holds: every entry is a key of
/// `rows` with its rows, no key is listed twice, and no key is left out.
pub open spec fn lists_all_of(
    entries: Seq<(JoinKey, Vec<usize>)>,
    rows: Map<KeyView, Seq<usize>>,
) -> bool {
    &&& forall|x: int|
        0 <= x < entries.len() ==> rows.contains_key(key_view((#[trigger] entries[x]).0@))
            && rows[key_view(entries[x].0@)] == entries[x].1@
    &&& forall|x: int, y: int|
        0 <= x < y < entries.len() ==> key_view((#[trigger] entries[x]).0@) != key_view(
            (#[trigger] entries[y]).0@,
        )
    &&& forall|k: KeyView| #[trigger]
        rows.contains_key(k) ==> exists|x: int|
            0 <= x < entries.len() && key_view((#[trigger] entries[x]).0@) == k
}

/// `ahash::RandomState::new`: a hasher state with keys of its own.  Nothing
/// is claimed of it.
#[verifier::external_body]
pub(crate) fn random_state() -> ahash::RandomState {
    ahash::RandomState::new()
}

/// `hashbrown::HashMap::with_hasher`: a table that holds nothing.
#[verifier::external_body]
pub(crate) fn table_new(state: &ahash::RandomState) -> (t: Table)
    ensures
        table_rows(t) == no_rows(),
{
    Table { rows: hashbrown::HashMap::with_hasher(state.clone()) }
}

/// `hashbrown::HashMap::get`: the rows stored under a key, if the table has
/// the key.
#[verifier::external_body]
pub(crate) fn table_get<'a>(t: &'a Table, key: &JoinKey) -> (r: Option<&'a Vec<usize>>)
    ensures
        match r {
            Some(rows) => table_rows(*t).contains_key(key_view(key@)) && rows@ == table_rows(
                *t,
            )[key_view(key@)],
            None => !table_rows(*t).contains_key(key_view(key@)),
        },
{
    t.rows.get(key)
}

/// `hashbrown::HashMap::insert`: afterwards the key stands for the given
/// rows, whatever it stood for before; the other keys are untouched.
#[verifier::external_body]
pub(crate) fn table_insert(t: &mut Table, key: JoinKey, rows: Vec<usize>)
    ensures
        table_rows(*final(t)) == table_rows(*old(t)).insert(key_view(key@), rows@),
{
    t.rows.insert(key, rows);
}

/// `hashbrown::HashMap::remove`: takes a key out and hands back the rows it
/// stood for, if the table had it; the other keys are untouched.
#[verifier::external_body]
pub(crate) fn table_remove(t: &mut Table, key: &JoinKey) -> (r: Option<Vec<usize>>)
    ensures
        table_rows(*final(t)) == table_rows(*old(t)).remove(key_view(key@)),
        match r {
            Some(rows) => table_rows(*old(t)).contains_key(key_view(key@)) && rows@ == table_rows(
                *old(t),
            )[key_view(key@)],
            None => !table_rows(*old(t)).contains_key(key_view(key@)),
        },
{
    t.rows.remove(key)
}

/// `hashbrown::HashMap::drain`: empties the table and hands back each key
/// with its rows, once, in an order that is not defined.
#[verifier::external_body]
pub(crate) fn table_drain(t: &mut Table) -> (r: Vec<(JoinKey, Vec<usize>)>)
    ensures
        table_rows(*final(t)) == no_rows(),
        lists_all_of(r@, table_rows(*old(t))),
{
    t.rows.drain().collect()
}

} // verus!
