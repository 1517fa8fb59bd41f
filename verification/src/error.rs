//! Why an item was left out of a run.

use vstd::prelude::*;

verus! {

/// The outcomes that drop one item (a building block, a fragment and reaction
/// pair, a candidate product) without ending the run, and the failure of the
/// store, which ends it.
#[derive(Clone, Copy, Debug, PartialEq, Eq, Structural)]
pub enum SkipReason {
    /// A structure could not be read.
    ParseFailure,
    /// A structure matched no reactant slot, or a transform gave no result.
    NoSubstructureMatch,
    /// A building block matched more than one slot of a reaction.
    AmbiguousSlotMatch,
    /// A result set did not hold exactly one product.
    ReactionEmptyResult,
    /// The result sets held structurally different products.
    ReactionNonDeterministic,
    /// No product could be sanitized.
    SanitizeFailure,
    /// A descriptor does not fit the range of its stored type.
    DescriptorOutOfRange,
    /// The store refused a write.
    PersistenceFailure,
}

impl SkipReason {
    /// Whether the reason ends the whole run rather than dropping one item.
    pub open spec fn spec_is_fatal(self) -> bool {
        self == SkipReason::PersistenceFailure
    }

    /// Whether the reason ends the whole run rather than dropping one item.
    #[verifier::when_used_as_spec(spec_is_fatal)]
    pub fn is_fatal(self) -> (fatal: bool)
        ensures
            fatal == self.spec_is_fatal(),
    {
        self == SkipReason::PersistenceFailure
    }
}

} // verus!
