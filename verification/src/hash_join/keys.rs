//! Join keys: what a row is hashed and compared by.
//!
//! A key has one part per key column.  A part is a tag for the kind of
//! value, a number, a text and a list; two cells give the same part exactly
//! when they hold the same value, so null matches only null and floats
//! match by their bits.

use crate::datatypes::{copy_list, unit_index, unit_rank, values_view, AnyType, Value};
use crate::series::Series;
use vstd::prelude::*;

verus! {

pub type KeyPart = (u8, u64, String, Vec<i64>);

pub type JoinKey = Vec<KeyPart>;

pub type PartView = (u8, u64, Seq<char>, Seq<i64>);

pub type KeyView = Seq<PartView>;

pub open spec fn part_view(p: KeyPart) -> PartView {
    (p.0, p.1, p.2@, p.3@)
}

pub open spec fn key_view(k: Seq<KeyPart>) -> KeyView {
    Seq::new(k.len(), |i: int| part_view(k[i]))
}

pub open spec fn keys_view(keys: Seq<JoinKey>) -> Seq<KeyView> {
    Seq::new(keys.len(), |i: int| key_view(keys[i]@))
}

/// The key part of a value.
pub open spec fn key_part(v: Value) -> PartView {
    match v {
        Value::Null => (0u8, 0u64, Seq::empty(), Seq::empty()),
        Value::Boolean(b) => (1u8, if b { 1u64 } else { 0u64 }, Seq::empty(), Seq::empty()),
        Value::UInt32(x) => (2u8, x as u64, Seq::empty(), Seq::empty()),
        Value::Int32(x) => (3u8, (x + 0x8000_0000) as u64, Seq::empty(), Seq::empty()),
        Value::Int64(x) => (4u8, (x + 0x8000_0000_0000_0000) as u64, Seq::empty(), Seq::empty()),
        Value::Float64(bits) => (5u8, bits, Seq::empty(), Seq::empty()),
        Value::Utf8(s) => (6u8, 0u64, s, Seq::empty()),
        Value::Date32(x) => (7u8, (x + 0x8000_0000) as u64, Seq::empty(), Seq::empty()),
        Value::Date64(x) => (8u8, (x + 0x8000_0000_0000_0000) as u64, Seq::empty(), Seq::empty()),
        Value::Time64Nanosecond(x) => (
            9u8,
            (x + 0x8000_0000_0000_0000) as u64,
            Seq::empty(),
            Seq::empty(),
        ),
        Value::List(l) => (10u8, 0u64, Seq::empty(), l),
        Value::Float32(bits) => (11u8, bits as u64, Seq::empty(), Seq::empty()),
        Value::Duration(x, u) => (
            (12 + unit_rank(u)) as u8,
            (x + 0x8000_0000_0000_0000) as u64,
            Seq::empty(),
            Seq::empty(),
        ),
        Value::TimeStamp(x, u) => (
            (16 + unit_rank(u)) as u8,
            (x + 0x8000_0000_0000_0000) as u64,
            Seq::empty(),
            Seq::empty(),
        ),
        Value::IntervalDayTime(x) => (
            20u8,
            (x + 0x8000_0000_0000_0000) as u64,
            Seq::empty(),
            Seq::empty(),
        ),
        Value::IntervalYearMonth(x) => (21u8, (x + 0x8000_0000) as u64, Seq::empty(), Seq::empty()),
    }
}

/// Two values have the same key part exactly when they are the same value.
pub proof fn lemma_key_part_injective(a: Value, b: Value)
    ensures
        key_part(a) == key_part(b) <==> a == b,
{
}

/// The key of a row: the key parts of its values.
pub open spec fn row_key(row: Seq<Value>) -> KeyView {
    Seq::new(row.len(), |i: int| key_part(row[i]))
}

/// Two rows have the same key exactly when they hold the same values.
pub proof fn lemma_row_key_injective(a: Seq<Value>, b: Seq<Value>)
    ensures
        row_key(a) == row_key(b) <==> a == b,
{
    if row_key(a) == row_key(b) {
        assert(a.len() == row_key(a).len());
        assert(b.len() == row_key(b).len());
        assert forall|i: int| 0 <= i < a.len() implies a[i] == b[i] by {
            assert(row_key(a)[i] == key_part(a[i]));
            assert(row_key(b)[i] == key_part(b[i]));
            lemma_key_part_injective(a[i], b[i]);
        }
        assert(a =~= b);
    }
}

/// The rows of a single column: one value each.
pub open spec fn single_rows(values: Seq<Value>) -> Seq<Seq<Value>> {
    Seq::new(values.len(), |r: int| seq![values[r]])
}

/// The keys of a sequence of rows.
pub open spec fn row_keys(rows: Seq<Seq<Value>>) -> Seq<KeyView> {
    Seq::new(rows.len(), |r: int| row_key(rows[r]))
}

/// The key part of a cell.
pub fn cell_key(cell: &AnyType) -> (r: KeyPart)
    ensures
        part_view(r) == key_part(cell@),
{
    match cell {
        AnyType::Null => (0u8, 0u64, String::new(), Vec::new()),
        AnyType::Boolean(b) => (1u8, if *b { 1u64 } else { 0u64 }, String::new(), Vec::new()),
        AnyType::UInt32(x) => (2u8, *x as u64, String::new(), Vec::new()),
        AnyType::Int32(x) => (3u8, (*x as i64 + 0x8000_0000) as u64, String::new(), Vec::new()),
        AnyType::Int64(x) => (
            4u8,
            (*x as i128 + 0x8000_0000_0000_0000) as u64,
            String::new(),
            Vec::new(),
        ),
        AnyType::Float64(bits) => (5u8, *bits, String::new(), Vec::new()),
        AnyType::Utf8(s) => (6u8, 0u64, s.clone(), Vec::new()),
        AnyType::Date32(x) => (7u8, (*x as i64 + 0x8000_0000) as u64, String::new(), Vec::new()),
        AnyType::Date64(x) => (
            8u8,
            (*x as i128 + 0x8000_0000_0000_0000) as u64,
            String::new(),
            Vec::new(),
        ),
        AnyType::Time64Nanosecond(x) => (
            9u8,
            (*x as i128 + 0x8000_0000_0000_0000) as u64,
            String::new(),
            Vec::new(),
        ),
        AnyType::List(l) => (10u8, 0u64, String::new(), copy_list(l)),
        AnyType::Float32(bits) => (11u8, *bits as u64, String::new(), Vec::new()),
        AnyType::Duration(x, u) => (
            12 + unit_index(*u),
            (*x as i128 + 0x8000_0000_0000_0000) as u64,
            String::new(),
            Vec::new(),
        ),
        AnyType::TimeStamp(x, u) => (
            16 + unit_index(*u),
            (*x as i128 + 0x8000_0000_0000_0000) as u64,
            String::new(),
            Vec::new(),
        ),
        AnyType::IntervalDayTime(x) => (
            20u8,
            (*x as i128 + 0x8000_0000_0000_0000) as u64,
            String::new(),
            Vec::new(),
        ),
        AnyType::IntervalYearMonth(x) => (
            21u8,
            (*x as i64 + 0x8000_0000) as u64,
            String::new(),
            Vec::new(),
        ),
    }
}

/// The keys of the rows of a single key column.
pub fn column_keys(column: &Series) -> (r: Vec<JoinKey>)
    ensures
        keys_view(r@) == row_keys(single_rows(column@.values)),
{
    let values = column.values();
    let mut keys: Vec<JoinKey> = Vec::with_capacity(values.len());
    let mut i: usize = 0;
    while i < values.len()
        invariant
            i <= values.len(),
            keys.len() == i,
            values_view(values@) == column@.values,
            forall|r: int| 0 <= r < i ==> key_view(#[trigger] keys[r]@) == row_key(seq![values[r]@]),
        decreases values.len() - i,
    {
        let mut key: JoinKey = Vec::with_capacity(1);
        key.push(cell_key(&values[i]));
        assert(key_view(key@) =~= row_key(seq![values[i as int]@]));
        keys.push(key);
        i += 1;
    }
    assert(keys_view(keys@) =~= row_keys(single_rows(column@.values)));
    keys
}

} // verus!
