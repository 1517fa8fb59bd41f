//! Compatibility matching: which reactant slot of which reaction a building
//! block may fill.

use crate::adapters::exactly_one;
use crate::error::SkipReason;
use crate::select::{is_selection, lemma_selection_step};
use vstd::prelude::*;

verus! {

/// A building block bound to one reactant slot of one reaction.
#[derive(Clone, Copy, Debug, PartialEq, Eq, Structural)]
pub struct BuildingBlockReactantBinding {
    pub block: i64,
    pub reaction: i64,
    pub slot: usize,
}

/// What the structural tests of one building block showed: for each reaction,
/// in the order of the reaction set, whether the block matched each slot.
#[derive(Debug)]
pub struct BlockProbe {
    pub block: i64,
    pub slots: Vec<Vec<bool>>,
}

/// `slot` is the one slot that matched.
pub open spec fn is_only_match(matches: Seq<bool>, slot: int) -> bool {
    &&& 0 <= slot < matches.len()
    &&& matches[slot]
    &&& forall|j: int| 0 <= j < matches.len() && matches[j] ==> j == slot
}

/// No slot matched.
pub open spec fn no_match(matches: Seq<bool>) -> bool {
    forall|j: int| 0 <= j < matches.len() ==> !matches[j]
}

/// More than one slot matched.
pub open spec fn several_match(matches: Seq<bool>) -> bool {
    exists|i: int, j: int| 0 <= i < j < matches.len() && matches[i] && matches[j]
}

/// The one slot that matched, where there is exactly one.
pub open spec fn spec_only_match(matches: Seq<bool>) -> Option<int> {
    if exists|s: int| is_only_match(matches, s) {
        Some(choose|s: int| is_only_match(matches, s))
    } else {
        None
    }
}

/// What the tests of slot list `r` showed, and nothing where none were made.
pub open spec fn probe_at(slots: Seq<Vec<bool>>, r: int) -> Seq<bool> {
    if 0 <= r < slots.len() {
        slots[r]@
    } else {
        Seq::empty()
    }
}

/// The bindings of one building block to the first `n` reactions: for each
/// reaction with exactly one matching slot, in order, the binding to that
/// slot.
pub open spec fn spec_block_bindings(
    block: i64,
    reactions: Seq<i64>,
    slots: Seq<Vec<bool>>,
    n: int,
) -> Seq<BuildingBlockReactantBinding>
    decreases n,
{
    if n <= 0 {
        Seq::empty()
    } else {
        let before = spec_block_bindings(block, reactions, slots, n - 1);
        match spec_only_match(probe_at(slots, n - 1)) {
            Some(s) => before.push(
                BuildingBlockReactantBinding { block, reaction: reactions[n - 1], slot: s as usize },
            ),
            None => before,
        }
    }
}

/// The bindings of the first `n` building blocks of an inventory, block by
/// block.
pub open spec fn spec_inventory_bindings(
    reactions: Seq<i64>,
    inventory: Seq<BlockProbe>,
    n: int,
) -> Seq<BuildingBlockReactantBinding>
    decreases n,
{
    if n <= 0 {
        Seq::empty()
    } else {
        spec_inventory_bindings(reactions, inventory, n - 1) + spec_block_bindings(
            inventory[n - 1].block,
            reactions,
            inventory[n - 1].slots@,
            reactions.len() as int,
        )
    }
}

/// The slots that matched, in rising order.
pub fn matching_slots(matches: &Vec<bool>) -> (slots: Vec<usize>)
    ensures
        is_selection(slots@, matches@.len() as int, matches@),
{
    let mut slots: Vec<usize> = Vec::new();
    let n = matches.len();
    let mut i: usize = 0;
    while i < n
        invariant
            n == matches@.len(),
            0 <= i <= n,
            is_selection(slots@, i as int, matches@),
        decreases n - i,
    {
        proof {
            lemma_selection_step(slots@, i as int, matches@);
        }
        if matches[i] {
            slots.push(i);
        }
        i = i + 1;
    }
    slots
}

/// The slot a building block fills in one reaction: the one slot that
/// matched. Where none matched the block is left out for want of a match;
/// where several did it is left out as ambiguous, for either slot.
pub fn select_slot(matches: &Vec<bool>) -> (slot: Result<usize, SkipReason>)
    ensures
        slot matches Ok(s) ==> is_only_match(matches@, s as int),
        slot matches Err(e) ==> (e == SkipReason::NoSubstructureMatch && no_match(matches@)) || (e
            == SkipReason::AmbiguousSlotMatch && several_match(matches@)),
        slot.is_ok() <==> spec_only_match(matches@).is_some(),
        slot matches Ok(s) ==> spec_only_match(matches@) == Some(s as int),
{
    let slots = matching_slots(matches);
    let count = slots.len();
    assert(matches@.len() <= usize::MAX) by {
        assert(matches@.len() == matches.len());
    }
    let ghost picked = slots@;
    let only = exactly_one(slots);
    match only {
        Some(s) => {
            proof {
                assert(picked[0] == s);
                assert forall|j: int| 0 <= j < matches@.len() && matches@[j] implies j == s by {
                    assert(picked.contains(j as usize));
                }
                assert(is_only_match(matches@, s as int));
                lemma_only_match_unique(matches@, s as int);
            }
            Ok(s)
        },
        None => {
            if count == 0 {
                proof {
                    assert forall|j: int| 0 <= j < matches@.len() implies !matches@[j] by {
                        if matches@[j] {
                            assert(picked.contains(j as usize));
                        }
                    }
                    assert forall|s: int| !is_only_match(matches@, s) by {}
                }
                Err(SkipReason::NoSubstructureMatch)
            } else {
                proof {
                    assert(picked[0] < picked[1]);
                    assert(matches@[picked[0] as int] && matches@[picked[1] as int]);
                    assert forall|s: int| !is_only_match(matches@, s) by {
                        if is_only_match(matches@, s) {
                            assert(picked[0] == s && picked[1] == s);
                        }
                    }
                }
                Err(SkipReason::AmbiguousSlotMatch)
            }
        },
    }
}

/// Where one slot is the only match, it is the one `spec_only_match` names.
pub proof fn lemma_only_match_unique(matches: Seq<bool>, slot: int)
    requires
        is_only_match(matches, slot),
    ensures
        spec_only_match(matches) == Some(slot),
{
    let chosen = choose|s: int| is_only_match(matches, s);
    assert(is_only_match(matches, chosen));
}

/// The bindings of one building block: for each reaction of the set, in
/// order, a binding where exactly one of its slots matched, and none where no
/// slot or several slots did. Reactions for which `slots` holds no tests
/// count as without a match.
pub fn block_bindings(block: i64, reactions: &Vec<i64>, slots: &Vec<Vec<bool>>) -> (bindings: Vec<
    BuildingBlockReactantBinding,
>)
    ensures
        bindings@ == spec_block_bindings(block, reactions@, slots@, reactions@.len() as int),
{
    let mut bindings: Vec<BuildingBlockReactantBinding> = Vec::new();
    let n = reactions.len();
    let mut r: usize = 0;
    while r < n
        invariant
            n == reactions@.len(),
            0 <= r <= n,
            bindings@ == spec_block_bindings(block, reactions@, slots@, r as int),
        decreases n - r,
    {
        if r < slots.len() {
            match select_slot(&slots[r]) {
                Ok(s) => {
                    bindings.push(
                        BuildingBlockReactantBinding { block, reaction: reactions[r], slot: s },
                    );
                },
                Err(_) => {},
            }
        } else {
            assert forall|s: int| !is_only_match(probe_at(slots@, r as int), s) by {}
        }
        r = r + 1;
    }
    bindings
}

/// The bindings of a whole inventory against a reaction set, block by block
/// and, within a block, reaction by reaction.
pub fn inventory_bindings(reactions: &Vec<i64>, inventory: &Vec<BlockProbe>) -> (bindings: Vec<
    BuildingBlockReactantBinding,
>)
    ensures
        bindings@ == spec_inventory_bindings(reactions@, inventory@, inventory@.len() as int),
{
    let mut bindings: Vec<BuildingBlockReactantBinding> = Vec::new();
    let n = inventory.len();
    let mut b: usize = 0;
    while b < n
        invariant
            n == inventory@.len(),
            0 <= b <= n,
            bindings@ == spec_inventory_bindings(reactions@, inventory@, b as int),
        decreases n - b,
    {
        let mut found = block_bindings(inventory[b].block, reactions, &inventory[b].slots);
        bindings.append(&mut found);
        b = b + 1;
    }
    bindings
}

/// `binding` binds `block` to one of the first `n` reactions, at the one slot
/// of that reaction that matched.
pub open spec fn is_single_match(
    binding: BuildingBlockReactantBinding,
    block: i64,
    reactions: Seq<i64>,
    slots: Seq<Vec<bool>>,
    n: int,
) -> bool {
    &&& binding.block == block
    &&& exists|r: int|
        0 <= r < n && #[trigger] is_only_match(probe_at(slots, r), binding.slot as int)
            && binding.reaction == reactions[r]
}

/// A binding is recorded exactly for single matches. For every reaction of
/// the set: where exactly one slot matched the block, the bindings hold the
/// binding to that slot; and every binding that is held names a reaction of
/// the set of which exactly that slot matched. So a reaction of which no
/// slot, or more than one, matched adds nothing.
pub proof fn lemma_bindings_iff_single_match(
    block: i64,
    reactions: Seq<i64>,
    slots: Seq<Vec<bool>>,
    n: int,
)
    requires
        0 <= n <= reactions.len(),
    ensures
        forall|r: int, s: int|
            0 <= r < n && #[trigger] is_only_match(probe_at(slots, r), s) ==> spec_block_bindings(
                block,
                reactions,
                slots,
                n,
            ).contains(BuildingBlockReactantBinding { block, reaction: reactions[r], slot: s as usize }),
        forall|k: int|
            0 <= k < spec_block_bindings(block, reactions, slots, n).len() ==> is_single_match(
                #[trigger] spec_block_bindings(block, reactions, slots, n)[k],
                block,
                reactions,
                slots,
                n,
            ),
    decreases n,
{
    if n > 0 {
        lemma_bindings_iff_single_match(block, reactions, slots, n - 1);
        let before = spec_block_bindings(block, reactions, slots, n - 1);
        let all = spec_block_bindings(block, reactions, slots, n);
        let last = probe_at(slots, n - 1);
        assert forall|r: int, s: int| 0 <= r < n && #[trigger] is_only_match(
            probe_at(slots, r),
            s,
        ) implies all.contains(
            BuildingBlockReactantBinding { block, reaction: reactions[r], slot: s as usize },
        ) by {
            let wanted = BuildingBlockReactantBinding {
                block,
                reaction: reactions[r],
                slot: s as usize,
            };
            if r < n - 1 {
                assert(before.contains(wanted));
                let k = choose|k: int| 0 <= k < before.len() && before[k] == wanted;
                assert(all[k] == wanted);
            } else {
                lemma_only_match_unique(last, s);
                assert(all[all.len() - 1] == wanted);
            }
        }
        assert forall|k: int| 0 <= k < all.len() implies is_single_match(
            #[trigger] all[k],
            block,
            reactions,
            slots,
            n,
        ) by {
            if k < before.len() {
                assert(is_single_match(before[k], block, reactions, slots, n - 1));
                let r = choose|r: int|
                    0 <= r < n - 1 && #[trigger] is_only_match(
                        probe_at(slots, r),
                        before[k].slot as int,
                    ) && before[k].reaction == reactions[r];
                assert(all[k] == before[k]);
                assert(is_only_match(probe_at(slots, r), all[k].slot as int));
            } else {
                let s = spec_only_match(last)->0;
                assert(is_only_match(last, s));
                assert(slots[n - 1]@.len() == slots[n - 1].len());
                assert(is_only_match(probe_at(slots, n - 1), all[k].slot as int));
            }
        }
    }
}

} // verus!
