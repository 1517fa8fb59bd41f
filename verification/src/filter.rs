//! Descriptor range filters.

use std::ops::Bound;
use vstd::prelude::*;

verus! {

#[verifier::external_type_specification]
#[verifier::reject_recursive_types(T)]
pub struct ExBound<T>(Bound<T>);

/// Marker of the store's type for ranges of single-precision numbers.
#[derive(Clone, Copy, Debug, PartialEq, Eq, Structural)]
pub struct Realrange;

impl Default for Realrange {
    fn default() -> (r: Realrange)
        ensures
            r == Realrange,
    {
        Realrange
    }
}

/// The closed range from the first to the second of `limits`.
pub fn i32_filter_to_range(limits: (i32, i32)) -> (range: (Bound<i32>, Bound<i32>))
    ensures
        range.0 == Bound::Included(limits.0),
        range.1 == Bound::Included(limits.1),
{
    (Bound::Included(limits.0), Bound::Included(limits.1))
}

/// The range that a filter on a counted descriptor asks for: its own limits,
/// or every value where no filter is set.
pub fn counted_filter_range(filter: Option<(i32, i32)>) -> (range: (Bound<i32>, Bound<i32>))
    ensures
        filter matches Some(limits) ==> range.0 == Bound::Included(limits.0) && range.1
            == Bound::Included(limits.1),
        filter.is_none() ==> range.0 == Bound::Included(i32::MIN) && range.1 == Bound::Included(
            i32::MAX,
        ),
{
    match filter {
        Some(limits) => i32_filter_to_range(limits),
        None => i32_filter_to_range((i32::MIN, i32::MAX)),
    }
}

/// Whether a counted descriptor passes a filter: it lies within the limits,
/// ends included; every value passes where no filter is set.
pub fn passes_counted_filter(filter: Option<(i32, i32)>, value: i32) -> (passes: bool)
    ensures
        passes == match filter {
            Some(limits) => limits.0 <= value <= limits.1,
            None => true,
        },
{
    match filter {
        Some(limits) => limits.0 <= value && value <= limits.1,
        None => true,
    }
}

/// The filters on the counted descriptors of a product; a filter that is not
/// set lets every value pass.
#[derive(Clone, Copy, Debug)]
pub struct CountedDescFilter {
    /// Limits on the number of hydrogen-bond acceptors.
    pub hba: Option<(i32, i32)>,
    /// Limits on the number of hydrogen-bond donors.
    pub hbd: Option<(i32, i32)>,
}

impl CountedDescFilter {
    /// Whether a product with these counts passes every filter that is set.
    pub open spec fn spec_passes(self, hba: i32, hbd: i32) -> bool {
        &&& self.hba matches Some(limits) ==> limits.0 <= hba <= limits.1
        &&& self.hbd matches Some(limits) ==> limits.0 <= hbd <= limits.1
    }

    /// Whether a product with these counts passes every filter that is set.
    #[verifier::when_used_as_spec(spec_passes)]
    pub fn passes(self, hba: i32, hbd: i32) -> (passes: bool)
        ensures
            passes == self.spec_passes(hba, hbd),
    {
        passes_counted_filter(self.hba, hba) && passes_counted_filter(self.hbd, hbd)
    }
}

} // verus!
