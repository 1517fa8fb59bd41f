use chemodots::counter::{ExperimentGenProductsResult, ReactionCounter, ReactionResult};

fn counter(reacted: usize, raw: usize, dup: usize, undesired: usize, kept: usize) -> ReactionCounter {
    ReactionCounter {
        reacted_building_blocks: reacted,
        raw_products: raw,
        dup_products: dup,
        undesired_products: undesired,
        final_products: kept,
    }
}

fn fields(c: &ReactionCounter) -> (usize, usize, usize, usize, usize) {
    (c.reacted_building_blocks, c.raw_products, c.dup_products, c.undesired_products, c.final_products)
}

#[test]
fn new_counter_is_zero() {
    assert_eq!(fields(&ReactionCounter::new()), (0, 0, 0, 0, 0));
    assert_eq!(fields(&ReactionCounter::default()), (0, 0, 0, 0, 0));
}

#[test]
fn a_group_counts_raw_duplicate_and_final() {
    let mut c = ReactionCounter::new();
    assert!(c.record_group(3));
    assert_eq!(fields(&c), (0, 3, 2, 0, 1));
    assert!(c.record_group(1));
    assert_eq!(fields(&c), (0, 4, 2, 0, 2));
    assert_eq!(c.raw_products, c.dup_products + c.final_products);
}

#[test]
fn an_empty_group_is_not_counted() {
    let mut c = counter(1, 4, 2, 0, 2);
    assert!(!c.record_group(0));
    assert_eq!(fields(&c), (1, 4, 2, 0, 2));
}

#[test]
fn a_full_counter_is_left_as_it_was() {
    let mut c = counter(0, usize::MAX - 1, 0, 0, usize::MAX - 1);
    assert!(!c.record_group(2));
    assert_eq!(fields(&c), (0, usize::MAX - 1, 0, 0, usize::MAX - 1));
    assert!(c.record_group(1));
    assert_eq!(fields(&c), (0, usize::MAX, 0, 0, usize::MAX));
    assert!(!c.record_group(1));
    let mut r = counter(usize::MAX, 0, 0, 0, 0);
    assert!(!r.record_reacted());
    assert_eq!(fields(&r), (usize::MAX, 0, 0, 0, 0));
}

#[test]
fn reacted_blocks_are_counted_one_by_one() {
    let mut c = ReactionCounter::new();
    assert!(c.record_reacted());
    assert!(c.record_reacted());
    assert_eq!(fields(&c), (2, 0, 0, 0, 0));
}

#[test]
fn merge_adds_field_by_field() {
    let sum = counter(1, 5, 2, 7, 3).merge(&counter(10, 20, 15, 1, 5)).unwrap();
    assert_eq!(fields(&sum), (11, 25, 17, 8, 8));
}

#[test]
fn merge_that_does_not_fit_gives_nothing() {
    assert!(counter(usize::MAX, 0, 0, 0, 0).merge(&counter(1, 0, 0, 0, 0)).is_none());
    assert!(counter(0, 0, 0, usize::MAX, 0).merge(&counter(0, 0, 0, 1, 0)).is_none());
    assert!(counter(0, 0, 0, 0, 1).merge(&counter(0, 0, 0, 0, usize::MAX)).is_none());
}

#[test]
fn overall_is_the_sum_over_reactions() {
    let result = ExperimentGenProductsResult {
        reactions: vec![
            ReactionResult { id: 1, name: "a".to_string(), counter: counter(3, 3, 1, 0, 2) },
            ReactionResult { id: 2, name: "b".to_string(), counter: counter(10, 8, 4, 0, 4) },
            ReactionResult { id: 3, name: "c".to_string(), counter: counter(0, 0, 0, 0, 0) },
        ],
    };
    let total = result.overall().unwrap();
    assert_eq!(fields(&total), (13, 11, 5, 0, 6));
    assert_eq!(total.raw_products, total.dup_products + total.final_products);
}

#[test]
fn overall_of_no_reaction_is_zero() {
    let result = ExperimentGenProductsResult { reactions: vec![] };
    assert_eq!(fields(&result.overall().unwrap()), (0, 0, 0, 0, 0));
}

#[test]
fn overall_that_does_not_fit_gives_nothing() {
    let result = ExperimentGenProductsResult {
        reactions: vec![
            ReactionResult { id: 1, name: "a".to_string(), counter: counter(usize::MAX, 0, 0, 0, 0) },
            ReactionResult { id: 2, name: "b".to_string(), counter: counter(1, 0, 0, 0, 0) },
        ],
    };
    assert!(result.overall().is_none());
}

#[test]
fn results_start_empty_and_can_be_copied() {
    let empty = ExperimentGenProductsResult::default();
    assert!(empty.reactions.is_empty());
    let blank = ReactionResult::default();
    assert_eq!(blank.id, 0);
    assert_eq!(blank.name, "");
    assert_eq!(fields(&blank.counter), (0, 0, 0, 0, 0));
    let result = ExperimentGenProductsResult {
        reactions: vec![ReactionResult { id: 4, name: "r".to_string(), counter: counter(1, 2, 1, 0, 1) }],
    };
    let copy = result.clone();
    assert_eq!(copy.reactions.len(), 1);
    assert_eq!(copy.reactions[0].id, 4);
    assert_eq!(copy.reactions[0].name, "r");
    assert_eq!(fields(&copy.reactions[0].counter), (1, 2, 1, 0, 1));
    assert_eq!(fields(&copy.overall().unwrap()), fields(&result.overall().unwrap()));
}
