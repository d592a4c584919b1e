//! What an expression has given for the groups of a frame, and the walk
//! over it group by group.

use crate::datatypes::{values_view, AnyType, DataType, Value};
use crate::error::{PolarsError, PolarsResult};
use crate::group_by::groups_view;
use crate::series::{Series, SeriesView};
use crate::slice::sliced;
use crate::take::{all_in_bounds, take_values, Take};
use vstd::prelude::*;

verus! {

/// What an expression has given for the groups.
pub enum AggState {
    /// One value that stands for every group.
    Literal(Series),
    /// One row per group.
    AggregatedFlat(Series),
    /// One list per group.
    AggregatedList(Series),
    /// The rows of the frame, not yet brought into groups.
    NotAggregated(Series),
}

/// What an expression has given, with the groups that it is for.
pub struct AggregationContext {
    pub state: AggState,
    pub groups: Vec<(usize, Vec<usize>)>,
}

/// The name of the columns that the walk hands out: that of the column
/// walked over, or none.
pub open spec fn kept_name(name: Seq<char>, keep_names: bool) -> Seq<char> {
    if keep_names {
        name
    } else {
        Seq::empty()
    }
}

/// A list as a column of 64-bit integers.
pub open spec fn list_column(name: Seq<char>, l: Seq<i64>) -> SeriesView {
    SeriesView {
        name,
        dtype: DataType::Int64,
        values: Seq::new(l.len(), |i: int| Value::Int64(l[i])),
    }
}

/// What the walk hands out for item `g`.
pub open spec fn group_item(
    state: AggState,
    groups: Seq<(usize, Seq<usize>)>,
    keep_names: bool,
    g: int,
) -> Option<SeriesView> {
    match state {
        AggState::Literal(s) => Some(s@.renamed(kept_name(s@.name, keep_names))),
        AggState::AggregatedFlat(s) => Some(
            (SeriesView {
                name: kept_name(s@.name, keep_names),
                dtype: s@.dtype,
                values: sliced(s@.values, g, 1),
            }),
        ),
        AggState::AggregatedList(s) => match s@.values[g] {
            Value::List(l) => Some(list_column(kept_name(s@.name, keep_names), l)),
            _ => None,
        },
        AggState::NotAggregated(s) => Some(
            (SeriesView {
                name: kept_name(s@.name, keep_names),
                dtype: s@.dtype,
                values: take_values(s@.values, groups[g].1),
            }),
        ),
    }
}

/// How many items the walk hands out: one per list for a column of lists,
/// else one per group.
pub open spec fn item_count(state: AggState, groups: Seq<(usize, Seq<usize>)>) -> nat {
    match state {
        AggState::AggregatedList(s) => s@.values.len(),
        _ => groups.len(),
    }
}

/// Whether the rows of every group are rows of the column.
pub open spec fn groups_in_bounds(groups: Seq<(usize, Seq<usize>)>, len: nat) -> bool {
    forall|g: int| 0 <= g < groups.len() ==> all_in_bounds((#[trigger] groups[g]).1, len)
}

/// The model of one item that the walk hands out.
pub open spec fn item_view(item: Option<Series>) -> Option<SeriesView> {
    match item {
        Some(s) => Some(s@),
        None => None,
    }
}

/// The models of what the walk has handed out.
pub open spec fn items_view(items: Seq<Option<Series>>) -> Seq<Option<SeriesView>> {
    Seq::new(items.len(), |i: int| item_view(items[i]))
}

/// A list as a column of 64-bit integers.
pub fn series_of_list(name: &str, l: &Vec<i64>) -> (r: Series)
    ensures
        r@ == list_column(name@, l@),
{
    let mut cells: Vec<AnyType> = Vec::with_capacity(l.len());
    let mut i: usize = 0;
    while i < l.len()
        invariant
            i <= l.len(),
            cells.len() == i,
            forall|j: int| 0 <= j < i ==> (#[trigger] cells[j])@ == Value::Int64(l[j]),
        decreases l.len() - i,
    {
        cells.push(AnyType::Int64(l[i]));
        i += 1;
    }
    assert(values_view(cells@) =~= Seq::new(l@.len(), |i: int| Value::Int64(l@[i])));
    Series::from_fitting(name.to_owned(), DataType::Int64, cells)
}

impl AggregationContext {
    /// The column that the expression has given.
    pub fn series(&self) -> (r: &Series)
        ensures
            match self.state {
                AggState::Literal(s) => *r == s,
                AggState::AggregatedFlat(s) => *r == s,
                AggState::AggregatedList(s) => *r == s,
                AggState::NotAggregated(s) => *r == s,
            },
    {
        match &self.state {
            AggState::Literal(s) => s,
            AggState::AggregatedFlat(s) => s,
            AggState::AggregatedList(s) => s,
            AggState::NotAggregated(s) => s,
        }
    }

    /// One column per group, in the order of the groups: for a literal the
    /// literal, for a flat column the row of the group, for a column of
    /// lists the list of the group, nothing where it is null, and for rows
    /// that are not yet grouped the rows of the group.  `OutOfBounds` where
    /// rows are not yet grouped and a group names a row that is not there.
    pub fn iter_groups(&self, keep_names: bool) -> (r: PolarsResult<Vec<Option<Series>>>)
        ensures
            match r {
                Ok(items) => items.len() == item_count(self.state, groups_view(self.groups@))
                    && forall|g: int|
                    0 <= g < items.len() ==> #[trigger] items_view(items@)[g] == group_item(
                        self.state,
                        groups_view(self.groups@),
                        keep_names,
                        g,
                    ),
                Err(e) => e == PolarsError::OutOfBounds && match self.state {
                    AggState::NotAggregated(s) => !groups_in_bounds(
                        groups_view(self.groups@),
                        s@.values.len(),
                    ),
                    _ => false,
                },
            },
    {
        let s = self.series();
        let name = if keep_names {
            s.name().clone()
        } else {
            String::new()
        };
        assert(name@ =~= kept_name(s@.name, keep_names));
        let ghost gv = groups_view(self.groups@);
        let count = match &self.state {
            AggState::AggregatedList(l) => l.len(),
            _ => self.groups.len(),
        };
        let mut items: Vec<Option<Series>> = Vec::with_capacity(count);
        let mut g: usize = 0;
        while g < count
            invariant
                g <= count,
                count == item_count(self.state, gv),
                gv == groups_view(self.groups@),
                name@ == kept_name(s@.name, keep_names),
                match self.state {
                    AggState::Literal(x) => *s == x,
                    AggState::AggregatedFlat(x) => *s == x,
                    AggState::AggregatedList(x) => *s == x,
                    AggState::NotAggregated(x) => *s == x,
                },
                items.len() == g,
                forall|h: int|
                    0 <= h < g ==> #[trigger] items_view(items@)[h] == group_item(
                        self.state,
                        gv,
                        keep_names,
                        h,
                    ),
                self.state is NotAggregated ==> forall|h: int|
                    0 <= h < g ==> all_in_bounds((#[trigger] gv[h]).1, s@.values.len()),
            decreases count - g,
        {
            let ghost before = items_view(items@);
            let item = match &self.state {
                AggState::Literal(_) => {
                    let mut copy = s.duplicate();
                    copy.rename(name.as_str());
                    Some(copy)
                },
                AggState::AggregatedFlat(_) => {
                    let mut cells: Vec<AnyType> = Vec::with_capacity(1);
                    if g < s.len() {
                        cells.push(s.value(g).duplicate());
                    }
                    assert(values_view(cells@) =~= sliced(s@.values, g as int, 1));
                    let _ = s.values();
                    Some(Series::from_fitting(name.clone(), s.dtype(), cells))
                },
                AggState::AggregatedList(_) => {
                    match s.value(g) {
                        AnyType::List(l) => Some(series_of_list(name.as_str(), l)),
                        _ => None,
                    }
                },
                AggState::NotAggregated(_) => {
                    assert(gv[g as int].1 == self.groups[g as int].1@);
                    match s.take(&self.groups[g].1, None) {
                        Ok(mut rows) => {
                            rows.rename(name.as_str());
                            Some(rows)
                        },
                        Err(e) => {
                            return Err(e);
                        },
                    }
                },
            };
            assert(item_view(item) == group_item(self.state, gv, keep_names, g as int));
            items.push(item);
            assert forall|h: int| 0 <= h < g + 1 implies #[trigger] items_view(items@)[h]
                == group_item(self.state, gv, keep_names, h) by {
                if h < g {
                    assert(items_view(items@)[h] == before[h]);
                }
            }
            g += 1;
        }
        Ok(items)
    }
}

} // verus!
