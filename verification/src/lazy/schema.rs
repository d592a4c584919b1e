//! The types and names of the columns that an expression is evaluated
//! over.

use crate::error::{PolarsError, PolarsResult};
use vstd::prelude::*;

verus! {

/// The type of a column or of a literal in a query.
#[derive(Clone, Copy, Debug, PartialEq, Eq, Structural)]
pub enum ArrowDataType {
    Null,
    Boolean,
    Int8,
    Int16,
    Int32,
    Int64,
    UInt8,
    UInt16,
    UInt32,
    UInt64,
    Float32,
    Float64,
    Utf8,
}

/// A named, typed column of a schema.
#[derive(Debug)]
pub struct Field {
    pub name: String,
    pub data_type: ArrowDataType,
    pub nullable: bool,
}

/// The model of a field.
pub struct FieldModel {
    pub name: Seq<char>,
    pub data_type: ArrowDataType,
    pub nullable: bool,
}

impl View for Field {
    type V = FieldModel;

    open spec fn view(&self) -> FieldModel {
        FieldModel { name: self.name@, data_type: self.data_type, nullable: self.nullable }
    }
}

/// The columns of the input of a query, in order.
#[derive(Debug)]
pub struct Schema {
    pub fields: Vec<Field>,
}

/// The models of the fields of a schema.
pub open spec fn fields_view(fields: Seq<Field>) -> Seq<FieldModel> {
    Seq::new(fields.len(), |i: int| fields[i]@)
}

impl View for Schema {
    type V = Seq<FieldModel>;

    open spec fn view(&self) -> Seq<FieldModel> {
        fields_view(self.fields@)
    }
}

/// The first field of the given name, if there is one.
pub open spec fn field_index(fields: Seq<FieldModel>, name: Seq<char>) -> Option<int>
    decreases fields.len(),
{
    if fields.len() == 0 {
        None
    } else {
        match field_index(fields.drop_last(), name) {
            Some(i) => Some(i),
            None => if fields.last().name == name {
                Some(fields.len() - 1)
            } else {
                None
            },
        }
    }
}

/// `field_index` finds the first field of that name, and none where there
/// is none.
pub proof fn lemma_field_index(fields: Seq<FieldModel>, name: Seq<char>)
    ensures
        match field_index(fields, name) {
            Some(i) => 0 <= i < fields.len() && fields[i].name == name && forall|j: int|
                0 <= j < i ==> (#[trigger] fields[j]).name != name,
            None => forall|j: int| 0 <= j < fields.len() ==> (#[trigger] fields[j]).name != name,
        },
    decreases fields.len(),
{
    if fields.len() > 0 {
        lemma_field_index(fields.drop_last(), name);
        match field_index(fields.drop_last(), name) {
            Some(i) => {
                assert(fields.drop_last()[i] == fields[i]);
                assert forall|j: int| 0 <= j < i implies (#[trigger] fields[j]).name != name by {
                    assert(fields.drop_last()[j] == fields[j]);
                }
            },
            None => {
                assert forall|j: int| 0 <= j < fields.len() - 1 implies (
                #[trigger] fields[j]).name != name by {
                    assert(fields.drop_last()[j] == fields[j]);
                }
            },
        }
    }
}

impl Field {
    pub fn new(name: &str, data_type: ArrowDataType, nullable: bool) -> (r: Field)
        ensures
            r@ == (FieldModel { name: name@, data_type, nullable }),
    {
        Field { name: name.to_owned(), data_type, nullable }
    }

    /// A copy of the field.
    pub fn duplicate(&self) -> (r: Field)
        ensures
            r@ == self@,
    {
        Field { name: self.name.clone(), data_type: self.data_type, nullable: self.nullable }
    }
}

impl Schema {
    /// The first field of the given name; `NotFound` where there is none.
    pub fn field_with_name(&self, name: &str) -> (r: PolarsResult<&Field>)
        ensures
            match r {
                Ok(f) => field_index(self@, name@) is Some && f@ == self@[field_index(
                    self@,
                    name@,
                )->0],
                Err(e) => field_index(self@, name@) is None && e == PolarsError::NotFound,
            },
    {
        let owned = name.to_owned();
        let mut i: usize = 0;
        while i < self.fields.len()
            invariant
                i <= self.fields.len(),
                owned@ == name@,
                forall|j: int| 0 <= j < i ==> (#[trigger] self@[j]).name != name@,
            decreases self.fields.len() - i,
        {
            if self.fields[i].name == owned {
                proof {
                    lemma_field_index(self@, name@);
                    assert(self@[i as int].name == name@);
                }
                return Ok(&self.fields[i]);
            }
            i += 1;
        }
        proof {
            lemma_field_index(self@, name@);
        }
        Err(PolarsError::NotFound)
    }
}

/// The place of a numeric type among the numeric types, by how much it
/// holds; none for the types that are not numeric.
pub open spec fn numeric_rank(t: ArrowDataType) -> Option<int> {
    match t {
        ArrowDataType::UInt8 => Some(1),
        ArrowDataType::Int8 => Some(2),
        ArrowDataType::UInt16 => Some(3),
        ArrowDataType::Int16 => Some(4),
        ArrowDataType::UInt32 => Some(5),
        ArrowDataType::Int32 => Some(6),
        ArrowDataType::UInt64 => Some(7),
        ArrowDataType::Int64 => Some(8),
        ArrowDataType::Float32 => Some(9),
        ArrowDataType::Float64 => Some(10),
        _ => None,
    }
}

/// The type that an operation on values of two types gives: the type
/// itself where both are the same; of two numeric types the one that ranks
/// higher; else none.
pub open spec fn supertype(l: ArrowDataType, r: ArrowDataType) -> Option<ArrowDataType> {
    if l == r {
        Some(l)
    } else {
        match (numeric_rank(l), numeric_rank(r)) {
            (Some(a), Some(b)) => if a < b {
                Some(r)
            } else {
                Some(l)
            },
            _ => None,
        }
    }
}

fn rank(t: ArrowDataType) -> (r: Option<u8>)
    ensures
        match r {
            Some(v) => numeric_rank(t) == Some(v as int),
            None => numeric_rank(t) is None,
        },
{
    match t {
        ArrowDataType::UInt8 => Some(1),
        ArrowDataType::Int8 => Some(2),
        ArrowDataType::UInt16 => Some(3),
        ArrowDataType::Int16 => Some(4),
        ArrowDataType::UInt32 => Some(5),
        ArrowDataType::Int32 => Some(6),
        ArrowDataType::UInt64 => Some(7),
        ArrowDataType::Int64 => Some(8),
        ArrowDataType::Float32 => Some(9),
        ArrowDataType::Float64 => Some(10),
        _ => None,
    }
}

/// The type that an operation on values of two types gives;
/// `DataTypeMisMatch` where there is none.
pub fn get_supertype(l: ArrowDataType, r: ArrowDataType) -> (t: PolarsResult<ArrowDataType>)
    ensures
        match t {
            Ok(d) => supertype(l, r) == Some(d),
            Err(e) => supertype(l, r) is None && e == PolarsError::DataTypeMisMatch,
        },
{
    if l == r {
        return Ok(l);
    }
    match (rank(l), rank(r)) {
        (Some(a), Some(b)) => if a < b {
            Ok(r)
        } else {
            Ok(l)
        },
        _ => Err(PolarsError::DataTypeMisMatch),
    }
}

} // verus!
