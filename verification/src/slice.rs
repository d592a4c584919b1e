//! Slices of columns and of groups: a run of rows, counted from the front
//! or from the back.

use crate::datatypes::{all_fit, values_view, AnyType};
use crate::series::Series;
use vstd::prelude::*;

verus! {

/// The run of rows that a slice of `length` rows at `offset` takes of
/// `array_len` rows, as its first row and its number of rows.  An offset
/// below zero counts from the back.  A run that would reach beyond the
/// rows is cut off, and one that starts behind them is empty.
pub open spec fn slice_span(offset: int, length: int, array_len: int) -> (int, int) {
    if offset < 0 {
        if -offset <= array_len {
            (array_len + offset, if length <= -offset { length } else { -offset })
        } else {
            (0, if length <= array_len { length } else { array_len })
        }
    } else if offset <= array_len {
        (offset, if length <= array_len - offset { length } else { array_len - offset })
    } else {
        (array_len, 0)
    }
}

/// The run of rows that a slice takes.
pub fn slice_offsets(offset: i64, length: usize, array_len: usize) -> (r: (usize, usize))
    ensures
        (r.0 as int, r.1 as int) == slice_span(offset as int, length as int, array_len as int),
        r.0 + r.1 <= array_len,
{
    if offset < 0 {
        let back: u64 = (-(offset as i128)) as u64;
        if back <= array_len as u64 {
            let back = back as usize;
            (array_len - back, if length <= back { length } else { back })
        } else {
            (0, if length <= array_len { length } else { array_len })
        }
    } else {
        let front = offset as u64;
        if front <= array_len as u64 {
            let front = front as usize;
            (front, if length <= array_len - front { length } else { array_len - front })
        } else {
            (array_len, 0)
        }
    }
}

/// The rows of a slice.
pub open spec fn sliced<T>(rows: Seq<T>, offset: int, length: int) -> Seq<T> {
    rows.subrange(
        slice_span(offset, length, rows.len() as int).0,
        slice_span(offset, length, rows.len() as int).0 + slice_span(
            offset,
            length,
            rows.len() as int,
        ).1,
    )
}

/// The groups, each cut down to a slice of its rows; the first row of a
/// group stays what it was.
pub open spec fn sliced_groups(groups: Seq<(usize, Seq<usize>)>, offset: int, length: int) -> Seq<
    (usize, Seq<usize>),
> {
    Seq::new(groups.len(), |g: int| (groups[g].0, sliced(groups[g].1, offset, length)))
}

impl Series {
    /// The rows of a slice of the column.
    pub fn slice(&self, offset: i64, length: usize) -> (r: Series)
        ensures
            r@ == self@.with_values(sliced(self@.values, offset as int, length as int)),
    {
        let values = self.values();
        let (start, len) = slice_offsets(offset, length, values.len());
        let mut out: Vec<AnyType> = Vec::with_capacity(len);
        let mut i: usize = 0;
        while i < len
            invariant
                i <= len,
                start + len <= values.len(),
                out.len() == i,
                values_view(values@) == self@.values,
                all_fit(self@.values, self@.dtype),
                forall|j: int|
                    0 <= j < i ==> (#[trigger] out[j])@ == self@.values[start + j] && out[j]@.fits(
                        self@.dtype,
                    ),
            decreases len - i,
        {
            assert(self@.values[start + i].fits(self@.dtype));
            out.push(values[start + i].duplicate());
            i += 1;
        }
        assert(values_view(out@) =~= sliced(self@.values, offset as int, length as int));
        Series::from_fitting(self.name().clone(), self.dtype(), out)
    }
}

/// An expression that takes a slice of what its input gives.
pub struct SliceExpr {
    pub offset: i64,
    pub len: usize,
}

impl SliceExpr {
    /// The slice of a column that the input has given.
    pub fn evaluate(&self, series: &Series) -> (r: Series)
        ensures
            r@ == series@.with_values(sliced(series@.values, self.offset as int, self.len as int)),
    {
        series.slice(self.offset, self.len)
    }

    /// The groups that the input has given, each cut down to its slice.
    pub fn evaluate_on_groups(&self, groups: &Vec<(usize, Vec<usize>)>) -> (r: Vec<
        (usize, Vec<usize>),
    >)
        ensures
            crate::group_by::groups_view(r@) == sliced_groups(
                crate::group_by::groups_view(groups@),
                self.offset as int,
                self.len as int,
            ),
    {
        let mut out: Vec<(usize, Vec<usize>)> = Vec::with_capacity(groups.len());
        let mut g: usize = 0;
        while g < groups.len()
            invariant
                g <= groups.len(),
                out.len() == g,
                forall|h: int|
                    0 <= h < g ==> (#[trigger] out[h]).0 == groups[h].0 && out[h].1@ == sliced(
                        groups[h].1@,
                        self.offset as int,
                        self.len as int,
                    ),
            decreases groups.len() - g,
        {
            let idx = &groups[g].1;
            let (offset, len) = slice_offsets(self.offset, self.len, idx.len());
            let mut rows: Vec<usize> = Vec::with_capacity(len);
            let mut i: usize = 0;
            while i < len
                invariant
                    i <= len,
                    offset + len <= idx.len(),
                    rows.len() == i,
                    forall|j: int| 0 <= j < i ==> rows[j] == idx[offset + j],
                decreases len - i,
            {
                rows.push(idx[offset + i]);
                i += 1;
            }
            assert(rows@ =~= sliced(idx@, self.offset as int, self.len as int));
            out.push((groups[g].0, rows));
            g += 1;
        }
        assert(crate::group_by::groups_view(out@) =~= sliced_groups(
            crate::group_by::groups_view(groups@),
            self.offset as int,
            self.len as int,
        ));
        out
    }
}

} // verus!
