use chemodots::error::SkipReason;
use chemodots::matching::{
    block_bindings, inventory_bindings, matching_slots, select_slot, BlockProbe,
    BuildingBlockReactantBinding,
};

#[test]
fn single_match_selects_its_slot() {
    assert_eq!(select_slot(&vec![false, true, false]), Ok(1));
    assert_eq!(select_slot(&vec![true]), Ok(0));
    assert_eq!(select_slot(&vec![false, false, true]), Ok(2));
}

#[test]
fn no_match_is_skipped() {
    assert_eq!(select_slot(&vec![false, false]), Err(SkipReason::NoSubstructureMatch));
    assert_eq!(select_slot(&vec![]), Err(SkipReason::NoSubstructureMatch));
}

#[test]
fn several_matches_are_ambiguous() {
    assert_eq!(select_slot(&vec![true, true]), Err(SkipReason::AmbiguousSlotMatch));
    assert_eq!(select_slot(&vec![true, false, true]), Err(SkipReason::AmbiguousSlotMatch));
    assert_eq!(select_slot(&vec![true, true, true]), Err(SkipReason::AmbiguousSlotMatch));
}

#[test]
fn matching_slots_in_rising_order() {
    assert_eq!(matching_slots(&vec![true, false, true, true]), vec![0, 2, 3]);
    assert_eq!(matching_slots(&vec![false]), Vec::<usize>::new());
}

#[test]
fn block_matching_both_slots_gets_no_binding() {
    let reactions = vec![7];
    let bindings = block_bindings(42, &reactions, &vec![vec![true, true]]);
    assert_eq!(bindings, Vec::<BuildingBlockReactantBinding>::new());
}

#[test]
fn block_bindings_one_per_reaction_with_a_single_match() {
    let reactions = vec![10, 20, 30, 40];
    let slots = vec![vec![false, true], vec![true, true], vec![false, false], vec![true, false]];
    let bindings = block_bindings(5, &reactions, &slots);
    assert_eq!(
        bindings,
        vec![
            BuildingBlockReactantBinding { block: 5, reaction: 10, slot: 1 },
            BuildingBlockReactantBinding { block: 5, reaction: 40, slot: 0 },
        ]
    );
}

#[test]
fn reactions_without_tests_count_as_unmatched() {
    let reactions = vec![10, 20];
    let bindings = block_bindings(5, &reactions, &vec![vec![true]]);
    assert_eq!(bindings, vec![BuildingBlockReactantBinding { block: 5, reaction: 10, slot: 0 }]);
}

#[test]
fn inventory_bindings_block_by_block() {
    let reactions = vec![1, 2];
    let inventory = vec![
        BlockProbe { block: 100, slots: vec![vec![true, false], vec![true, true]] },
        BlockProbe { block: 200, slots: vec![vec![false, false], vec![false, true]] },
        BlockProbe { block: 300, slots: vec![vec![false, true], vec![true, false]] },
    ];
    let bindings = inventory_bindings(&reactions, &inventory);
    assert_eq!(
        bindings,
        vec![
            BuildingBlockReactantBinding { block: 100, reaction: 1, slot: 0 },
            BuildingBlockReactantBinding { block: 200, reaction: 2, slot: 1 },
            BuildingBlockReactantBinding { block: 300, reaction: 1, slot: 1 },
            BuildingBlockReactantBinding { block: 300, reaction: 2, slot: 0 },
        ]
    );
}

#[test]
fn empty_inventory_has_no_bindings() {
    assert_eq!(inventory_bindings(&vec![1, 2], &vec![]), Vec::<BuildingBlockReactantBinding>::new());
    let inventory = vec![BlockProbe { block: 1, slots: vec![] }];
    assert_eq!(inventory_bindings(&vec![], &inventory), Vec::<BuildingBlockReactantBinding>::new());
}
