//! The score that the diamonds are worth.

use vstd::prelude::*;

verus! {

/// What one diamond is worth.
pub const POINTS_PER_DIAMOND: usize = 5;

/// The score for `diamond_count` diamonds.
pub open spec fn spec_calculate_score(diamond_count: usize) -> int {
    diamond_count * POINTS_PER_DIAMOND
}

/// The score for `diamond_count` diamonds.
pub fn calculate_score(diamond_count: usize) -> (score: usize)
    requires
        diamond_count * POINTS_PER_DIAMOND <= usize::MAX,
    ensures
        score == spec_calculate_score(diamond_count),
{
    diamond_count * POINTS_PER_DIAMOND
}

} // verus!
