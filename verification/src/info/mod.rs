//! Metadata of many repositories.

pub mod types;

use vstd::prelude::*;
use crate::order::not_after;
use crate::sort::sort_by_rank;
use types::output_order;

pub use types::Output;

verus! {

/// Ranks records as `types::cmp` orders them: the latest push first, then
/// by user. The records stay the same.
pub fn sort_outputs(outputs: &mut Vec<Output>)
    ensures
        final(outputs)@.to_multiset() == old(outputs)@.to_multiset(),
        forall|i: int, j: int|
            0 <= i < j < final(outputs)@.len() ==> not_after(
                output_order(final(outputs)@[i], final(outputs)@[j]),
            ),
{
    sort_by_rank(outputs);
}

} // verus!
