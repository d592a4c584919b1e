//! Gathering: a new column from the rows of another, picked by index.

use crate::datatypes::{all_fit, values_view, AnyType, DataType, Value};
use crate::error::{PolarsError, PolarsResult};
use crate::series::Series;
use vstd::prelude::*;

verus! {

/// Every index is below `len`.
pub open spec fn all_in_bounds(indices: Seq<usize>, len: nat) -> bool {
    forall|i: int| 0 <= i < indices.len() ==> (#[trigger] indices[i]) < len
}

/// Every index that is given is below `len`.
pub open spec fn all_opt_in_bounds(indices: Seq<Option<usize>>, len: nat) -> bool {
    forall|i: int|
        0 <= i < indices.len() ==> match #[trigger] indices[i] {
            Some(j) => j < len,
            None => true,
        }
}

/// The values at the given rows, in the order of the indices.
pub open spec fn take_values(values: Seq<Value>, indices: Seq<usize>) -> Seq<Value> {
    Seq::new(indices.len(), |i: int| values[indices[i] as int])
}

/// The values at the given rows, null where no row is given.
pub open spec fn take_opt_values(values: Seq<Value>, indices: Seq<Option<usize>>) -> Seq<Value> {
    Seq::new(
        indices.len(),
        |i: int|
            match indices[i] {
                Some(j) => values[j as int],
                None => Value::Null,
            },
    )
}

/// Access to single rows of a column.
pub trait TakeRandom {
    type Item;

    /// The number of rows.
    spec fn rows(&self) -> nat;

    /// The value of a row; `None` for a null and for a row that is not
    /// there.
    fn get(&self, index: usize) -> Option<Self::Item>;

    /// The cell of a row that is there, null or not.
    fn get_unchecked(&self, index: usize) -> Self::Item
        requires
            index < self.rows(),
    ;
}

/// Gives the type through which the rows of a column are accessed.
pub trait IntoTakeRandom<'a> {
    type Item;

    type IntoTR;

    fn take_rand(&self) -> Self::IntoTR;
}

/// Gathering by index.
pub trait Take: Sized {
    /// The number of rows.
    spec fn height(&self) -> nat;

    /// The rows at `indices`; refused when an index is out of bounds.
    fn take(&self, indices: &Vec<usize>, capacity: Option<usize>) -> PolarsResult<Self>;

    /// The rows at `indices`, which are known to be in bounds.
    fn take_unchecked(&self, indices: &Vec<usize>, capacity: Option<usize>) -> Self
        requires
            all_in_bounds(indices@, self.height()),
    ;

    /// The rows at `indices`, null where no index is given; refused when an
    /// index is out of bounds.
    fn take_opt(&self, indices: &Vec<Option<usize>>, capacity: Option<usize>) -> PolarsResult<Self>;

    /// The rows at `indices`, which are known to be in bounds, null where no
    /// index is given.
    fn take_opt_unchecked(&self, indices: &Vec<Option<usize>>, capacity: Option<usize>) -> Self
        requires
            all_opt_in_bounds(indices@, self.height()),
    ;
}

/// Whether every index is below `len`.
pub fn check_bounds(indices: &Vec<usize>, len: usize) -> (r: bool)
    ensures
        r == all_in_bounds(indices@, len as nat),
{
    let mut i: usize = 0;
    while i < indices.len()
        invariant
            i <= indices.len(),
            forall|j: int| 0 <= j < i ==> (#[trigger] indices[j]) < len,
        decreases indices.len() - i,
    {
        if indices[i] >= len {
            return false;
        }
        i += 1;
    }
    true
}

/// Whether every index that is given is below `len`.
pub fn check_opt_bounds(indices: &Vec<Option<usize>>, len: usize) -> (r: bool)
    ensures
        r == all_opt_in_bounds(indices@, len as nat),
{
    let mut i: usize = 0;
    while i < indices.len()
        invariant
            i <= indices.len(),
            forall|j: int|
                0 <= j < i ==> match #[trigger] indices[j] {
                    Some(k) => k < len,
                    None => true,
                },
        decreases indices.len() - i,
    {
        match indices[i] {
            Some(k) => {
                if k >= len {
                    return false;
                }
            },
            None => {},
        }
        i += 1;
    }
    true
}

/// Copies of the cells at `indices`.
pub fn gather(values: &Vec<AnyType>, indices: &Vec<usize>, capacity: Option<usize>) -> (r: Vec<
    AnyType,
>)
    requires
        all_in_bounds(indices@, values.len() as nat),
    ensures
        values_view(r@) == take_values(values_view(values@), indices@),
{
    let capacity = match capacity {
        Some(c) => c,
        None => indices.len(),
    };
    let mut out: Vec<AnyType> = Vec::with_capacity(capacity);
    let mut i: usize = 0;
    while i < indices.len()
        invariant
            i <= indices.len(),
            out.len() == i,
            all_in_bounds(indices@, values.len() as nat),
            forall|j: int| 0 <= j < i ==> out[j]@ == values[indices[j] as int]@,
        decreases indices.len() - i,
    {
        out.push(values[indices[i]].duplicate());
        i += 1;
    }
    assert(values_view(out@) =~= take_values(values_view(values@), indices@));
    out
}

/// Copies of the cells at `indices`, null where no index is given.
pub fn gather_opt(values: &Vec<AnyType>, indices: &Vec<Option<usize>>, capacity: Option<usize>) -> (r:
    Vec<AnyType>)
    requires
        all_opt_in_bounds(indices@, values.len() as nat),
    ensures
        values_view(r@) == take_opt_values(values_view(values@), indices@),
{
    let capacity = match capacity {
        Some(c) => c,
        None => indices.len(),
    };
    let mut out: Vec<AnyType> = Vec::with_capacity(capacity);
    let mut i: usize = 0;
    while i < indices.len()
        invariant
            i <= indices.len(),
            out.len() == i,
            all_opt_in_bounds(indices@, values.len() as nat),
            forall|j: int|
                0 <= j < i ==> (#[trigger] out[j])@ == match indices[j] {
                    Some(k) => values[k as int]@,
                    None => Value::Null,
                },
        decreases indices.len() - i,
    {
        let cell = match indices[i] {
            Some(k) => values[k].duplicate(),
            None => AnyType::Null,
        };
        out.push(cell);
        i += 1;
    }
    assert(values_view(out@) =~= take_opt_values(values_view(values@), indices@));
    out
}

/// Gathered cells fit the column they are taken from.
pub proof fn lemma_take_fits(values: Seq<Value>, indices: Seq<usize>, dtype: DataType)
    requires
        all_fit(values, dtype),
        all_in_bounds(indices, values.len()),
    ensures
        all_fit(take_values(values, indices), dtype),
{
    assert forall|i: int| 0 <= i < indices.len() implies (#[trigger] take_values(
        values,
        indices,
    )[i]).fits(dtype) by {
        assert(values[indices[i] as int].fits(dtype));
    }
}

/// Gathered cells, with nulls where no index was given, fit the column
/// they are taken from.
pub proof fn lemma_take_opt_fits(values: Seq<Value>, indices: Seq<Option<usize>>, dtype: DataType)
    requires
        all_fit(values, dtype),
        all_opt_in_bounds(indices, values.len()),
    ensures
        all_fit(take_opt_values(values, indices), dtype),
{
    assert forall|i: int| 0 <= i < indices.len() implies (#[trigger] take_opt_values(
        values,
        indices,
    )[i]).fits(dtype) by {
        match indices[i] {
            Some(j) => {
                assert(values[j as int].fits(dtype));
            },
            None => {},
        }
    }
}

impl TakeRandom for Series {
    type Item = AnyType;

    open spec fn rows(&self) -> nat {
        self@.values.len()
    }

    fn get(&self, index: usize) -> (r: Option<AnyType>)
        ensures
            match r {
                Some(v) => index < self@.values.len() && v@ == self@.values[index as int] && !(
                v@ is Null) && v@.fits(self@.dtype),
                None => index >= self@.values.len() || self@.values[index as int] is Null,
            },
    {
        if index < self.len() {
            let cell = self.value(index);
            if cell.is_null() {
                None
            } else {
                Some(cell.duplicate())
            }
        } else {
            None
        }
    }

    fn get_unchecked(&self, index: usize) -> (r: AnyType)
        ensures
            r@ == self@.values[index as int],
    {
        self.value(index).duplicate()
    }
}

impl<'a> IntoTakeRandom<'a> for &'a Series {
    type Item = AnyType;

    type IntoTR = &'a Series;

    fn take_rand(&self) -> (r: &'a Series)
        ensures
            r@ == self@,
    {
        *self
    }
}

impl Take for Series {
    open spec fn height(&self) -> nat {
        self@.values.len()
    }

    fn take(&self, indices: &Vec<usize>, capacity: Option<usize>) -> (r: PolarsResult<Series>)
        ensures
            match r {
                Ok(s) => all_in_bounds(indices@, self@.values.len()) && s@ == self@.with_values(
                    take_values(self@.values, indices@),
                ),
                Err(e) => !all_in_bounds(indices@, self@.values.len()) && e
                    == PolarsError::OutOfBounds,
            },
    {
        if check_bounds(indices, self.len()) {
            Ok(self.take_unchecked(indices, capacity))
        } else {
            Err(PolarsError::OutOfBounds)
        }
    }

    fn take_unchecked(&self, indices: &Vec<usize>, capacity: Option<usize>) -> (r: Series)
        ensures
            r@ == self@.with_values(take_values(self@.values, indices@)),
    {
        let values = gather(self.values(), indices, capacity);
        proof {
            lemma_take_fits(self@.values, indices@, self@.dtype);
        }
        Series::from_fitting(self.name().clone(), self.dtype(), values)
    }

    fn take_opt(&self, indices: &Vec<Option<usize>>, capacity: Option<usize>) -> (r: PolarsResult<
        Series,
    >)
        ensures
            match r {
                Ok(s) => all_opt_in_bounds(indices@, self@.values.len()) && s@
                    == self@.with_values(take_opt_values(self@.values, indices@)),
                Err(e) => !all_opt_in_bounds(indices@, self@.values.len()) && e
                    == PolarsError::OutOfBounds,
            },
    {
        if check_opt_bounds(indices, self.len()) {
            Ok(self.take_opt_unchecked(indices, capacity))
        } else {
            Err(PolarsError::OutOfBounds)
        }
    }

    fn take_opt_unchecked(&self, indices: &Vec<Option<usize>>, capacity: Option<usize>) -> (r:
        Series)
        ensures
            r@ == self@.with_values(take_opt_values(self@.values, indices@)),
    {
        let values = gather_opt(self.values(), indices, capacity);
        proof {
            lemma_take_opt_fits(self@.values, indices@, self@.dtype);
        }
        Series::from_fitting(self.name().clone(), self.dtype(), values)
    }
}

/// Random access to a run of values without nulls.
pub struct NumTakeRandomCont<'a, T> {
    pub slice: &'a [T],
}

impl<'a, T: Copy> TakeRandom for NumTakeRandomCont<'a, T> {
    type Item = T;

    open spec fn rows(&self) -> nat {
        self.slice@.len()
    }

    fn get(&self, index: usize) -> (r: Option<T>)
        ensures
            r == if index < self.slice@.len() {
                Some(self.slice@[index as int])
            } else {
                None
            },
    {
        if index < self.slice.len() {
            Some(self.slice[index])
        } else {
            None
        }
    }

    fn get_unchecked(&self, index: usize) -> (r: T)
        ensures
            r == self.slice@[index as int],
    {
        self.slice[index]
    }
}

} // verus!
