use chemodots::binding::{
    bind_fragment, bind_slot, compatible_candidates, covers_annotated, is_compatible, is_reacting,
    mapped_atoms, protected_atoms, AtomPair,
};
use chemodots::matching::BuildingBlockReactantBinding;

fn pairs(targets: &[i32]) -> Vec<AtomPair> {
    targets.iter().enumerate().map(|(q, t)| AtomPair { query: q as i32, target: *t }).collect()
}

#[test]
fn embedding_covers_an_annotated_atom() {
    assert!(covers_annotated(&pairs(&[4, 5, 6]), &vec![6]));
    assert!(!covers_annotated(&pairs(&[4, 5, 6]), &vec![7, 0]));
    assert!(!covers_annotated(&pairs(&[]), &vec![1]));
    assert!(!covers_annotated(&pairs(&[1]), &vec![]));
}

#[test]
fn the_query_side_of_a_pair_does_not_count() {
    let embedding = vec![AtomPair { query: 3, target: 9 }];
    assert!(!covers_annotated(&embedding, &vec![3]));
    assert!(covers_annotated(&embedding, &vec![9]));
}

#[test]
fn mapped_atoms_are_the_fragment_atoms_in_pair_order() {
    assert_eq!(mapped_atoms(&pairs(&[8, 2, 5])), vec![8, 2, 5]);
    assert_eq!(mapped_atoms(&pairs(&[])), Vec::<i32>::new());
}

#[test]
fn first_covering_embedding_decides() {
    let embeddings = vec![pairs(&[0, 1]), pairs(&[2, 3]), pairs(&[3, 4])];
    assert_eq!(bind_slot(&embeddings, &vec![3]), Some(vec![2, 3]));
    assert_eq!(bind_slot(&embeddings, &vec![4]), Some(vec![3, 4]));
    assert_eq!(bind_slot(&embeddings, &vec![9]), None);
    assert_eq!(bind_slot(&vec![], &vec![3]), None);
}

#[test]
fn fragment_binds_to_each_slot_that_covers() {
    let slots = vec![
        vec![pairs(&[0, 1])],
        vec![],
        vec![pairs(&[5, 6]), pairs(&[1, 2])],
    ];
    let bindings = bind_fragment(11, 22, &slots, &vec![1]);
    assert_eq!(bindings.len(), 2);
    assert_eq!((bindings[0].frag, bindings[0].reaction, bindings[0].slot), (11, 22, 0));
    assert_eq!(bindings[0].atoms, vec![0, 1]);
    assert_eq!((bindings[1].frag, bindings[1].reaction, bindings[1].slot), (11, 22, 2));
    assert_eq!(bindings[1].atoms, vec![1, 2]);
    assert!(is_compatible(&slots, &vec![1]));
}

#[test]
fn fragment_without_covering_embedding_is_not_bound() {
    let slots = vec![vec![pairs(&[0, 1])], vec![pairs(&[2])]];
    assert!(bind_fragment(1, 2, &slots, &vec![7]).is_empty());
    assert!(!is_compatible(&slots, &vec![7]));
    assert!(bind_fragment(1, 2, &vec![], &vec![7]).is_empty());
    assert!(!is_compatible(&vec![], &vec![7]));
}

#[test]
fn compatible_when_a_later_embedding_covers() {
    let slots = vec![vec![], vec![pairs(&[0]), pairs(&[4])]];
    assert!(is_compatible(&slots, &vec![4]));
}

#[test]
fn atoms_outside_the_reacting_set_are_protected() {
    let reacting = vec![Some(1), None, Some(3)];
    assert_eq!(protected_atoms(5, &reacting), vec![0, 2, 4]);
    assert_eq!(protected_atoms(0, &reacting), Vec::<usize>::new());
    assert_eq!(protected_atoms(3, &vec![]), vec![0, 1, 2]);
    assert_eq!(protected_atoms(2, &vec![Some(0), Some(1)]), Vec::<usize>::new());
}

#[test]
fn negative_entries_react_with_no_atom() {
    assert_eq!(protected_atoms(2, &vec![Some(-1)]), vec![0, 1]);
    assert!(!is_reacting(&vec![Some(-1)], usize::MAX));
    assert!(!is_reacting(&vec![Some(0)], (i32::MAX as usize) + 1));
    assert!(is_reacting(&vec![None, Some(7)], 7));
}

#[test]
fn candidates_are_of_the_reaction_and_of_another_slot() {
    let bindings = vec![
        BuildingBlockReactantBinding { block: 1, reaction: 5, slot: 0 },
        BuildingBlockReactantBinding { block: 2, reaction: 5, slot: 1 },
        BuildingBlockReactantBinding { block: 3, reaction: 6, slot: 1 },
        BuildingBlockReactantBinding { block: 4, reaction: 5, slot: 1 },
    ];
    assert_eq!(compatible_candidates(&bindings, 5, 0), vec![1, 3]);
    assert_eq!(compatible_candidates(&bindings, 5, 1), vec![0]);
    assert_eq!(compatible_candidates(&bindings, 7, 0), Vec::<usize>::new());
}
