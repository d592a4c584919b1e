//! What can serve as the indices of a gather, and access to the rows of a
//! text column.

use crate::datatypes::{values_view, AnyType, Value};
use crate::error::PolarsResult;
use crate::series::Series;
use crate::take::{all_in_bounds, all_opt_in_bounds, Take};
use vstd::prelude::*;

verus! {

/// The row that a cell of an index column stands for: the number of an
/// unsigned cell, nothing for any other cell.
pub open spec fn index_of(v: Value) -> Option<usize> {
    match v {
        Value::UInt32(x) => Some(x as usize),
        _ => None,
    }
}

/// The rows that the cells of an index column stand for.
pub open spec fn opt_indices(values: Seq<Value>) -> Seq<Option<usize>> {
    Seq::new(values.len(), |i: int| index_of(values[i]))
}

/// The rows that are given, in order.
pub open spec fn given(indices: Seq<Option<usize>>) -> Seq<usize>
    decreases indices.len(),
{
    if indices.len() == 0 {
        Seq::empty()
    } else {
        let rest = given(indices.drop_last());
        match indices.last() {
            Some(i) => rest.push(i),
            None => rest,
        }
    }
}

/// Something that lists rows to gather.
pub trait AsTakeIndex {
    /// The rows, with nothing where none is given.
    spec fn listed(&self) -> Seq<Option<usize>>;

    /// The rows that are given, in order.
    fn as_take_iter(&self) -> (r: Vec<usize>)
        ensures
            r@ == given(self.listed()),
    ;

    /// The rows, with nothing where none is given.
    fn as_opt_take_iter(&self) -> (r: Vec<Option<usize>>)
        ensures
            r@ == self.listed(),
    ;

    /// The number of entries, given or not.
    fn take_index_len(&self) -> (n: usize)
        ensures
            n == self.listed().len(),
    ;
}

/// The rows of an index, with nothing where none is given.
pub fn collect_given(indices: &Vec<Option<usize>>) -> (r: Vec<usize>)
    ensures
        r@ == given(indices@),
{
    let mut out: Vec<usize> = Vec::new();
    let mut i: usize = 0;
    assert(indices@.take(0) =~= Seq::<Option<usize>>::empty());
    while i < indices.len()
        invariant
            i <= indices.len(),
            out@ == given(indices@.take(i as int)),
        decreases indices.len() - i,
    {
        assert(indices@.take(i as int + 1).drop_last() =~= indices@.take(i as int));
        match indices[i] {
            Some(row) => {
                out.push(row);
            },
            None => {},
        }
        i += 1;
    }
    assert(indices@.take(i as int) =~= indices@);
    out
}

impl AsTakeIndex for Vec<usize> {
    open spec fn listed(&self) -> Seq<Option<usize>> {
        Seq::new(self@.len(), |i: int| Some(self@[i]))
    }

    fn as_take_iter(&self) -> (r: Vec<usize>) {
        collect_given(&self.as_opt_take_iter())
    }

    fn as_opt_take_iter(&self) -> (r: Vec<Option<usize>>) {
        let mut out: Vec<Option<usize>> = Vec::with_capacity(self.len());
        let mut i: usize = 0;
        while i < self.len()
            invariant
                i <= self.len(),
                out.len() == i,
                forall|j: int| 0 <= j < i ==> out[j] == Some(self[j]),
            decreases self.len() - i,
        {
            out.push(Some(self[i]));
            i += 1;
        }
        assert(out@ =~= self.listed());
        out
    }

    fn take_index_len(&self) -> (n: usize) {
        self.len()
    }
}

impl AsTakeIndex for Vec<u32> {
    open spec fn listed(&self) -> Seq<Option<usize>> {
        Seq::new(self@.len(), |i: int| Some(self@[i] as usize))
    }

    fn as_take_iter(&self) -> (r: Vec<usize>) {
        collect_given(&self.as_opt_take_iter())
    }

    fn as_opt_take_iter(&self) -> (r: Vec<Option<usize>>) {
        let mut out: Vec<Option<usize>> = Vec::with_capacity(self.len());
        let mut i: usize = 0;
        while i < self.len()
            invariant
                i <= self.len(),
                out.len() == i,
                forall|j: int| 0 <= j < i ==> out[j] == Some(self[j] as usize),
            decreases self.len() - i,
        {
            out.push(Some(self[i] as usize));
            i += 1;
        }
        assert(out@ =~= self.listed());
        out
    }

    fn take_index_len(&self) -> (n: usize) {
        self.len()
    }
}

impl AsTakeIndex for Series {
    /// An unsigned cell gives its number; a null, or a cell of another
    /// kind, gives nothing.
    open spec fn listed(&self) -> Seq<Option<usize>> {
        opt_indices(self@.values)
    }

    fn as_take_iter(&self) -> (r: Vec<usize>) {
        collect_given(&self.as_opt_take_iter())
    }

    fn as_opt_take_iter(&self) -> (r: Vec<Option<usize>>) {
        let values = self.values();
        let mut out: Vec<Option<usize>> = Vec::with_capacity(values.len());
        let mut i: usize = 0;
        while i < values.len()
            invariant
                i <= values.len(),
                out.len() == i,
                values_view(values@) == self@.values,
                forall|j: int| 0 <= j < i ==> out[j] == index_of(self@.values[j]),
            decreases values.len() - i,
        {
            let row = match &values[i] {
                AnyType::UInt32(x) => Some(*x as usize),
                _ => None,
            };
            out.push(row);
            i += 1;
        }
        assert(out@ =~= self.listed());
        out
    }

    fn take_index_len(&self) -> (n: usize) {
        self.len()
    }
}

/// Access to the rows of a column of text.
pub trait TakeRandomUtf8: Sized {
    type Item;

    /// Whether row `index` holds a text.
    spec fn holds_text(self, index: usize) -> bool;

    /// The text of a row; nothing for a null, for a row that is not there,
    /// and for a cell that is no text.
    fn get(self, index: usize) -> Option<Self::Item>;

    /// The text of a row that holds one.
    fn get_unchecked(self, index: usize) -> Self::Item
        requires
            self.holds_text(index),
    ;
}

impl<'a> TakeRandomUtf8 for &'a Series {
    type Item = &'a str;

    open spec fn holds_text(self, index: usize) -> bool {
        index < self@.values.len() && self@.values[index as int] is Utf8
    }

    fn get(self, index: usize) -> (r: Option<&'a str>)
        ensures
            match r {
                Some(s) => self.holds_text(index) && self@.values[index as int] == Value::Utf8(
                    s@,
                ),
                None => !self.holds_text(index),
            },
    {
        if index < self.len() {
            match self.value(index) {
                AnyType::Utf8(s) => Some(s.as_str()),
                _ => None,
            }
        } else {
            None
        }
    }

    fn get_unchecked(self, index: usize) -> (r: &'a str)
        ensures
            self@.values[index as int] == Value::Utf8(r@),
    {
        match self.value(index) {
            AnyType::Utf8(s) => s.as_str(),
            _ => "",
        }
    }
}

/// Gathering by index.
pub trait ChunkTake: Sized {
    /// The number of rows.
    spec fn take_height(&self) -> nat;

    /// The rows at `indices`; refused when an index is out of bounds.
    fn take(&self, indices: &Vec<usize>, capacity: Option<usize>) -> PolarsResult<Self>;

    /// The rows at `indices`, which are known to be in bounds.
    fn take_unchecked(&self, indices: &Vec<usize>, capacity: Option<usize>) -> Self
        requires
            all_in_bounds(indices@, self.take_height()),
    ;

    /// The rows at `indices`, null where no index is given; refused when an
    /// index is out of bounds.
    fn take_opt(&self, indices: &Vec<Option<usize>>, capacity: Option<usize>) -> PolarsResult<Self>;

    /// The rows at `indices`, which are known to be in bounds, null where no
    /// index is given.
    fn take_opt_unchecked(&self, indices: &Vec<Option<usize>>, capacity: Option<usize>) -> Self
        requires
            all_opt_in_bounds(indices@, self.take_height()),
    ;
}

} // verus!
