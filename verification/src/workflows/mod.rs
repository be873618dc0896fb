//! The summaries of the workflow runs of many repositories.

pub mod summary;

use vstd::prelude::*;
use crate::order::not_after;
use crate::sort::sort_by_rank;
use summary::timestamp_order;

pub use crate::output::Workflows;
pub use summary::Summary;

verus! {

/// Ranks summaries as `Summary::cmp_by_timestamp` orders them: those with
/// runs first, the latest first, then those without runs by name. The
/// summaries stay the same.
pub fn sort_summaries(summaries: &mut Vec<Summary>)
    ensures
        final(summaries)@.to_multiset() == old(summaries)@.to_multiset(),
        forall|i: int, j: int|
            0 <= i < j < final(summaries)@.len() ==> not_after(
                timestamp_order(final(summaries)@[i], final(summaries)@[j]),
            ),
{
    sort_by_rank(summaries);
}

} // verus!
