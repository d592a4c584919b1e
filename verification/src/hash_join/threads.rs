//! How many workers a join uses.

use vstd::prelude::*;

verus! {

/// `num_cpus::get`: the number of processors that this process may use,
/// which its documentation promises to be at least one.  The number itself
/// depends on the machine.
#[verifier::external_body]
pub(crate) fn available_cpus() -> (n: usize)
    ensures
        n >= 1,
{
    num_cpus::get()
}

/// The number of workers for a join, given what the machine has: the
/// processors that can be had, but no more than the limit, if one is set.
pub fn limit_threads(cpus: usize, max_threads: Option<usize>) -> (n: usize)
    ensures
        n == match max_threads {
            Some(max) => if max < cpus {
                max
            } else {
                cpus
            },
            None => cpus,
        },
{
    match max_threads {
        Some(max) => if max < cpus {
            max
        } else {
            cpus
        },
        None => cpus,
    }
}

/// The number of workers for a join: the processors that can be had, but
/// no more than the limit, if one is set.
pub fn n_join_threads(max_threads: Option<usize>) -> (n: usize)
    ensures
        match max_threads {
            Some(max) => n <= max && (max >= 1 ==> n >= 1),
            None => n >= 1,
        },
{
    limit_threads(available_cpus(), max_threads)
}

} // verus!
