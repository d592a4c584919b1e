//! Columns from plain values.

use crate::datatypes::{values_view, AnyType, DataType, Value};
use crate::series::{Series, SeriesView};
use vstd::prelude::*;

verus! {

/// Something that a column can be made from.
pub trait NamedFrom<T>: Sized {
    /// A column of the given name that holds the values, in order.
    fn new_from(name: &str, values: T) -> (r: Self);
}

impl NamedFrom<&Vec<i32>> for Series {
    fn new_from(name: &str, values: &Vec<i32>) -> (r: Series)
        ensures
            r@ == (SeriesView {
                name: name@,
                dtype: DataType::Int32,
                values: Seq::new(values@.len(), |i: int| Value::Int32(values@[i])),
            }),
    {
        let mut cells: Vec<AnyType> = Vec::with_capacity(values.len());
        let mut i: usize = 0;
        while i < values.len()
            invariant
                i <= values.len(),
                cells.len() == i,
                forall|j: int| 0 <= j < i ==> (#[trigger] cells[j])@ == Value::Int32(values[j]),
            decreases values.len() - i,
        {
            cells.push(AnyType::Int32(values[i]));
            i += 1;
        }
        assert(values_view(cells@) =~= Seq::new(values@.len(), |i: int| Value::Int32(values@[i])));
        Series::from_fitting(name.to_owned(), DataType::Int32, cells)
    }
}

impl NamedFrom<&Vec<Option<i32>>> for Series {
    fn new_from(name: &str, values: &Vec<Option<i32>>) -> (r: Series)
        ensures
            r@ == (SeriesView {
                name: name@,
                dtype: DataType::Int32,
                values: Seq::new(
                    values@.len(),
                    |i: int|
                        match values@[i] {
                            Some(v) => Value::Int32(v),
                            None => Value::Null,
                        },
                ),
            }),
    {
        let mut cells: Vec<AnyType> = Vec::with_capacity(values.len());
        let mut i: usize = 0;
        while i < values.len()
            invariant
                i <= values.len(),
                cells.len() == i,
                forall|j: int|
                    0 <= j < i ==> (#[trigger] cells[j])@ == match values[j] {
                        Some(v) => Value::Int32(v),
                        None => Value::Null,
                    },
            decreases values.len() - i,
        {
            let cell = match values[i] {
                Some(v) => AnyType::Int32(v),
                None => AnyType::Null,
            };
            cells.push(cell);
            i += 1;
        }
        assert(values_view(cells@) =~= Seq::new(
            values@.len(),
            |i: int|
                match values@[i] {
                    Some(v) => Value::Int32(v),
                    None => Value::Null,
                },
        ));
        Series::from_fitting(name.to_owned(), DataType::Int32, cells)
    }
}

impl NamedFrom<&Vec<i64>> for Series {
    fn new_from(name: &str, values: &Vec<i64>) -> (r: Series)
        ensures
            r@ == (SeriesView {
                name: name@,
                dtype: DataType::Int64,
                values: Seq::new(values@.len(), |i: int| Value::Int64(values@[i])),
            }),
    {
        let mut cells: Vec<AnyType> = Vec::with_capacity(values.len());
        let mut i: usize = 0;
        while i < values.len()
            invariant
                i <= values.len(),
                cells.len() == i,
                forall|j: int| 0 <= j < i ==> (#[trigger] cells[j])@ == Value::Int64(values[j]),
            decreases values.len() - i,
        {
            cells.push(AnyType::Int64(values[i]));
            i += 1;
        }
        assert(values_view(cells@) =~= Seq::new(values@.len(), |i: int| Value::Int64(values@[i])));
        Series::from_fitting(name.to_owned(), DataType::Int64, cells)
    }
}

impl NamedFrom<&Vec<u32>> for Series {
    fn new_from(name: &str, values: &Vec<u32>) -> (r: Series)
        ensures
            r@ == (SeriesView {
                name: name@,
                dtype: DataType::UInt32,
                values: Seq::new(values@.len(), |i: int| Value::UInt32(values@[i])),
            }),
    {
        let mut cells: Vec<AnyType> = Vec::with_capacity(values.len());
        let mut i: usize = 0;
        while i < values.len()
            invariant
                i <= values.len(),
                cells.len() == i,
                forall|j: int| 0 <= j < i ==> (#[trigger] cells[j])@ == Value::UInt32(values[j]),
            decreases values.len() - i,
        {
            cells.push(AnyType::UInt32(values[i]));
            i += 1;
        }
        assert(values_view(cells@) =~= Seq::new(values@.len(), |i: int| Value::UInt32(values@[i])));
        Series::from_fitting(name.to_owned(), DataType::UInt32, cells)
    }
}

impl NamedFrom<&Vec<bool>> for Series {
    fn new_from(name: &str, values: &Vec<bool>) -> (r: Series)
        ensures
            r@ == (SeriesView {
                name: name@,
                dtype: DataType::Boolean,
                values: Seq::new(values@.len(), |i: int| Value::Boolean(values@[i])),
            }),
    {
        let mut cells: Vec<AnyType> = Vec::with_capacity(values.len());
        let mut i: usize = 0;
        while i < values.len()
            invariant
                i <= values.len(),
                cells.len() == i,
                forall|j: int| 0 <= j < i ==> (#[trigger] cells[j])@ == Value::Boolean(values[j]),
            decreases values.len() - i,
        {
            cells.push(AnyType::Boolean(values[i]));
            i += 1;
        }
        assert(values_view(cells@) =~= Seq::new(
            values@.len(),
            |i: int| Value::Boolean(values@[i]),
        ));
        Series::from_fitting(name.to_owned(), DataType::Boolean, cells)
    }
}

impl NamedFrom<&Vec<&str>> for Series {
    fn new_from(name: &str, values: &Vec<&str>) -> (r: Series)
        ensures
            r@ == (SeriesView {
                name: name@,
                dtype: DataType::Utf8,
                values: Seq::new(values@.len(), |i: int| Value::Utf8(values@[i]@)),
            }),
    {
        let mut cells: Vec<AnyType> = Vec::with_capacity(values.len());
        let mut i: usize = 0;
        while i < values.len()
            invariant
                i <= values.len(),
                cells.len() == i,
                forall|j: int| 0 <= j < i ==> (#[trigger] cells[j])@ == Value::Utf8(values[j]@),
            decreases values.len() - i,
        {
            cells.push(AnyType::Utf8(values[i].to_owned()));
            i += 1;
        }
        assert(values_view(cells@) =~= Seq::new(
            values@.len(),
            |i: int| Value::Utf8(values@[i]@),
        ));
        Series::from_fitting(name.to_owned(), DataType::Utf8, cells)
    }
}

} // verus!
