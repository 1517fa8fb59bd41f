//! Yield statistics of a run: one counter per reaction, and their total.

use vstd::prelude::*;

verus! {

/// What one reaction yielded.
#[derive(Clone, Copy, Debug)]
pub struct ReactionCounter {
    /// Building blocks whose reaction with the fragment was accepted.
    pub reacted_building_blocks: usize,
    /// Accepted products before deduplication.
    pub raw_products: usize,
    /// Products that repeat an earlier one.
    pub dup_products: usize,
    /// Products set aside as undesired.
    pub undesired_products: usize,
    /// Distinct products that were kept.
    pub final_products: usize,
}

/// The counter of one reaction, with the reaction's identity.
#[derive(Clone, Debug, Default)]
pub struct ReactionResult {
    pub id: i64,
    pub name: String,
    pub counter: ReactionCounter,
}

/// The counters of all reactions of one run.
#[derive(Clone, Debug, Default)]
pub struct ExperimentGenProductsResult {
    pub reactions: Vec<ReactionResult>,
}

/// The sum of each field over the counters of `results`, without bounds.
pub struct Totals {
    pub reacted: int,
    pub raw: int,
    pub dup: int,
    pub undesired: int,
    pub kept: int,
}

impl Totals {
    /// Whether every sum fits a counter field.
    pub open spec fn fits(self) -> bool {
        &&& self.reacted <= usize::MAX
        &&& self.raw <= usize::MAX
        &&& self.dup <= usize::MAX
        &&& self.undesired <= usize::MAX
        &&& self.kept <= usize::MAX
    }

    /// Field by field, the sum of `self` and the fields of `c`.
    pub open spec fn plus(self, c: ReactionCounter) -> Totals {
        Totals {
            reacted: self.reacted + c.reacted_building_blocks,
            raw: self.raw + c.raw_products,
            dup: self.dup + c.dup_products,
            undesired: self.undesired + c.undesired_products,
            kept: self.kept + c.final_products,
        }
    }

    /// Whether `c` holds exactly these sums.
    pub open spec fn held_by(self, c: ReactionCounter) -> bool {
        &&& c.reacted_building_blocks == self.reacted
        &&& c.raw_products == self.raw
        &&& c.dup_products == self.dup
        &&& c.undesired_products == self.undesired
        &&& c.final_products == self.kept
    }
}

/// The totals over the counters of `results`.
pub open spec fn spec_totals(results: Seq<ReactionResult>) -> Totals
    decreases results.len(),
{
    if results.len() == 0 {
        Totals { reacted: 0, raw: 0, dup: 0, undesired: 0, kept: 0 }
    } else {
        spec_totals(results.drop_last()).plus(results.last().counter)
    }
}

/// Where every counter balances, so does the total: raw products are the
/// duplicates plus the kept ones.
pub proof fn lemma_totals_balanced(results: Seq<ReactionResult>)
    requires
        forall|i: int| 0 <= i < results.len() ==> (#[trigger] results[i]).counter.balanced(),
    ensures
        spec_totals(results).raw == spec_totals(results).dup + spec_totals(results).kept,
    decreases results.len(),
{
    if results.len() > 0 {
        let head = results.drop_last();
        assert forall|i: int| 0 <= i < head.len() implies (#[trigger] head[i]).counter.balanced() by {
            assert(head[i] == results[i]);
        }
        lemma_totals_balanced(head);
        assert(results.last() == results[results.len() - 1]);
    }
}

impl ReactionCounter {
    /// Duplicate accounting: every raw product is either a duplicate or kept.
    pub open spec fn balanced(self) -> bool {
        self.raw_products == self.dup_products + self.final_products
    }

    /// The counter after a group of `dup_count` equal products was kept.
    pub open spec fn with_group(self, dup_count: usize) -> ReactionCounter {
        ReactionCounter {
            reacted_building_blocks: self.reacted_building_blocks,
            raw_products: (self.raw_products + dup_count) as usize,
            dup_products: (self.dup_products + dup_count - 1) as usize,
            undesired_products: self.undesired_products,
            final_products: (self.final_products + 1) as usize,
        }
    }

    /// Whether a group of `dup_count` products can be added without loss.
    pub open spec fn takes_group(self, dup_count: usize) -> bool {
        &&& dup_count >= 1
        &&& self.raw_products + dup_count <= usize::MAX
        &&& self.dup_products + dup_count - 1 <= usize::MAX
        &&& self.final_products + 1 <= usize::MAX
    }

    /// A counter with every field at zero.
    pub fn new() -> (c: ReactionCounter)
        ensures
            c.reacted_building_blocks == 0,
            c.raw_products == 0,
            c.dup_products == 0,
            c.undesired_products == 0,
            c.final_products == 0,
            c.balanced(),
    {
        ReactionCounter {
            reacted_building_blocks: 0,
            raw_products: 0,
            dup_products: 0,
            undesired_products: 0,
            final_products: 0,
        }
    }

    /// Counts one more building block as reacted. Returns whether it was
    /// counted; the counter is left as it was where the field is full.
    pub fn record_reacted(&mut self) -> (counted: bool)
        ensures
            counted == (old(self).reacted_building_blocks < usize::MAX),
            counted ==> *final(self) == (ReactionCounter {
                reacted_building_blocks: (old(self).reacted_building_blocks + 1) as usize,
                ..*old(self)
            }),
            !counted ==> *final(self) == *old(self),
    {
        if self.reacted_building_blocks < usize::MAX {
            self.reacted_building_blocks = self.reacted_building_blocks + 1;
            true
        } else {
            false
        }
    }

    /// Counts one kept group of `dup_count` equal products: `dup_count` raw
    /// products, of which all but one are duplicates and one is final.
    /// Returns whether it was counted; the counter is left as it was where
    /// `dup_count` is zero or a field would pass its limit.
    pub fn record_group(&mut self, dup_count: usize) -> (counted: bool)
        ensures
            counted == old(self).takes_group(dup_count),
            counted ==> *final(self) == old(self).with_group(dup_count),
            !counted ==> *final(self) == *old(self),
            counted && old(self).balanced() ==> final(self).balanced(),
    {
        if dup_count == 0 || self.raw_products > usize::MAX - dup_count || self.dup_products
            > usize::MAX - (dup_count - 1) || self.final_products == usize::MAX {
            return false;
        }
        self.raw_products = self.raw_products + dup_count;
        self.dup_products = self.dup_products + (dup_count - 1);
        self.final_products = self.final_products + 1;
        true
    }

    /// The field-wise sum of two counters, where every sum fits.
    pub fn merge(&self, other: &ReactionCounter) -> (sum: Option<ReactionCounter>)
        ensures
            sum.is_some() <==> {
                &&& self.reacted_building_blocks + other.reacted_building_blocks <= usize::MAX
                &&& self.raw_products + other.raw_products <= usize::MAX
                &&& self.dup_products + other.dup_products <= usize::MAX
                &&& self.undesired_products + other.undesired_products <= usize::MAX
                &&& self.final_products + other.final_products <= usize::MAX
            },
            sum matches Some(s) ==> {
                &&& s.reacted_building_blocks == self.reacted_building_blocks
                    + other.reacted_building_blocks
                &&& s.raw_products == self.raw_products + other.raw_products
                &&& s.dup_products == self.dup_products + other.dup_products
                &&& s.undesired_products == self.undesired_products + other.undesired_products
                &&& s.final_products == self.final_products + other.final_products
            },
            sum matches Some(s) ==> (self.balanced() && other.balanced() ==> s.balanced()),
    {
        let reacted = self.reacted_building_blocks.checked_add(other.reacted_building_blocks);
        let raw = self.raw_products.checked_add(other.raw_products);
        let dup = self.dup_products.checked_add(other.dup_products);
        let undesired = self.undesired_products.checked_add(other.undesired_products);
        let kept = self.final_products.checked_add(other.final_products);
        match (reacted, raw, dup, undesired, kept) {
            (Some(reacted), Some(raw), Some(dup), Some(undesired), Some(kept)) => Some(
                ReactionCounter {
                    reacted_building_blocks: reacted,
                    raw_products: raw,
                    dup_products: dup,
                    undesired_products: undesired,
                    final_products: kept,
                },
            ),
            _ => None,
        }
    }
}

impl Default for ReactionCounter {
    fn default() -> (c: ReactionCounter)
        ensures
            c.reacted_building_blocks == 0,
            c.raw_products == 0,
            c.dup_products == 0,
            c.undesired_products == 0,
            c.final_products == 0,
    {
        ReactionCounter::new()
    }
}

impl ExperimentGenProductsResult {
    /// The total over all reactions of the run: the field-wise sum of their
    /// counters, and a counter of zeros where there is no reaction. Nothing
    /// where a sum does not fit a counter field.
    pub fn overall(&self) -> (total: Option<ReactionCounter>)
        ensures
            total.is_some() <==> spec_totals(self.reactions@).fits(),
            total matches Some(t) ==> spec_totals(self.reactions@).held_by(t),
    {
        let mut total = ReactionCounter::new();
        let n = self.reactions.len();
        let mut i: usize = 0;
        while i < n
            invariant
                n == self.reactions@.len(),
                0 <= i <= n,
                spec_totals(self.reactions@.take(i as int)).held_by(total),
            decreases n - i,
        {
            let ghost upto = self.reactions@.take(i + 1);
            assert(upto.drop_last() == self.reactions@.take(i as int));
            assert(upto.last() == self.reactions@[i as int]);
            match total.merge(&self.reactions[i].counter) {
                Some(next) => {
                    total = next;
                },
                None => {
                    proof {
                        lemma_totals_grow(self.reactions@, i + 1);
                    }
                    return None;
                },
            }
            i = i + 1;
        }
        assert(self.reactions@.take(n as int) == self.reactions@);
        Some(total)
    }
}

/// The totals over a prefix never exceed the totals over the whole.
pub proof fn lemma_totals_grow(results: Seq<ReactionResult>, n: int)
    requires
        0 <= n <= results.len(),
    ensures
        spec_totals(results.take(n)).reacted <= spec_totals(results).reacted,
        spec_totals(results.take(n)).raw <= spec_totals(results).raw,
        spec_totals(results.take(n)).dup <= spec_totals(results).dup,
        spec_totals(results.take(n)).undesired <= spec_totals(results).undesired,
        spec_totals(results.take(n)).kept <= spec_totals(results).kept,
    decreases results.len() - n,
{
    if n == results.len() {
        assert(results.take(n) == results);
    } else {
        let head = results.drop_last();
        assert(head.take(n) == results.take(n));
        lemma_totals_grow(head, n);
    }
}

} // verus!
