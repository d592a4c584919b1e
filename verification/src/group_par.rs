//! Handing the groups of an aggregation out to `rayon`'s workers.
//!
//! Nothing in this file is proved: the contract restates, group by group,
//! what the mapped function ensures.

use crate::datatypes::{values_view, AnyType};
use crate::group_agg::{agg_group, fold_group, mean_group, mean_parts, Agg};
use crate::take::all_in_bounds;
use rayon::iter::{IntoParallelRefIterator, ParallelIterator};
use vstd::prelude::*;

verus! {

/// `rayon`'s parallel `map` and `collect` over the groups, with `agg_group`
/// as the mapped function: cell `g` of the result is what `agg_group`
/// returns for the rows of group `g`.
#[verifier::external_body]
pub(crate) fn par_agg(
    values: &Vec<AnyType>,
    groups: &Vec<(usize, Vec<usize>)>,
    kind: Agg,
    in_place: bool,
) -> (out: Vec<AnyType>)
    requires
        forall|g: int|
            0 <= g < groups.len() ==> all_in_bounds((#[trigger] groups[g]).1@, values.len() as nat),
    ensures
        out.len() == groups.len(),
        forall|g: int|
            0 <= g < groups.len() ==> (#[trigger] out[g])@ == fold_group(
                values_view(values@),
                groups[g].1@,
                kind,
            ),
{
    groups.par_iter().map(|g| agg_group(values, &g.1, kind, in_place)).collect()
}

/// `rayon`'s parallel `map` and `collect` over the groups, with
/// `mean_group` as the mapped function: item `g` of the result is what
/// `mean_group` returns for the rows of group `g`.
#[verifier::external_body]
pub(crate) fn par_mean(values: &Vec<AnyType>, groups: &Vec<(usize, Vec<usize>)>) -> (out: Vec<
    Option<(i128, usize)>,
>)
    requires
        forall|g: int|
            0 <= g < groups.len() ==> all_in_bounds((#[trigger] groups[g]).1@, values.len() as nat),
    ensures
        out.len() == groups.len(),
        forall|g: int|
            0 <= g < groups.len() ==> #[trigger] out[g] == mean_parts(
                values_view(values@),
                groups[g].1@,
            ),
{
    groups.par_iter().map(|g| mean_group(values, &g.1)).collect()
}

} // verus!
