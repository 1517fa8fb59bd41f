//! The axes of the descriptor histograms.

use crate::adapters::min_max;
use vstd::prelude::*;

verus! {

/// `low` and `high` are the least and the greatest of `values`; both are
/// zero where there are none.
pub open spec fn is_value_range(values: Seq<i64>, low: i64, high: i64) -> bool {
    if values.len() == 0 {
        low == 0 && high == 0
    } else {
        &&& values.contains(low)
        &&& values.contains(high)
        &&& forall|i: int| 0 <= i < values.len() ==> low <= #[trigger] values[i] <= high
    }
}

/// The least even number that is not below `n`, and zero where there is none
/// in range.
pub open spec fn spec_even_ceiling(n: u64) -> u64 {
    if n % 2 == 0 {
        n
    } else if n < u64::MAX {
        (n + 1) as u64
    } else {
        0
    }
}

/// The ends of the value axis of a histogram of counted descriptors: the
/// least and the greatest value, and zero for both where there is no value.
pub fn value_range(values: &Vec<i64>) -> (ends: (i64, i64))
    ensures
        is_value_range(values@, ends.0, ends.1),
{
    match min_max(values) {
        Some(ends) => ends,
        None => (0, 0),
    }
}

/// The top of the share axis of a histogram: the greatest share, rounded up
/// to a whole per cent before it comes here, raised to the next even number.
pub fn share_axis_top(greatest_share: u64) -> (top: u64)
    ensures
        top == spec_even_ceiling(greatest_share),
{
    if greatest_share % 2 == 0 {
        greatest_share
    } else if greatest_share < u64::MAX {
        greatest_share + 1
    } else {
        0
    }
}

} // verus!
