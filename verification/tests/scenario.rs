use chemodots::aggregate::{Deduplicated, Descriptors, Prepared};
use chemodots::batch::{origin_links, plan_batches};
use chemodots::binding::{bind_fragment, compatible_candidates, is_compatible, protected_atoms, AtomPair};
use chemodots::counter::{ExperimentGenProductsResult, ReactionResult};
use chemodots::dedup::RawProduct;
use chemodots::error::SkipReason;
use chemodots::executor::{execute_pair, PairContext, ResultSet};
use chemodots::matching::{inventory_bindings, BlockProbe};

fn prepared() -> Option<Prepared> {
    Some(Prepared {
        pickle: vec![0xde, 0xad],
        descriptors: Descriptors { fsp3: 0, hba: 1, hbd: 1, clogp: 0, mw: 0, tpsa: 0 },
    })
}

#[test]
fn one_fragment_three_blocks_two_products() {
    // The fragment has one annotated atom, which slot 0 of the reaction covers.
    let annotated = vec![2];
    let slots = vec![
        vec![vec![AtomPair { query: 0, target: 1 }, AtomPair { query: 1, target: 2 }]],
        vec![],
    ];
    assert!(is_compatible(&slots, &annotated));
    let frag_bindings = bind_fragment(1, 9, &slots, &annotated);
    assert_eq!(frag_bindings.len(), 1);
    assert_eq!(frag_bindings[0].slot, 0);
    assert_eq!(frag_bindings[0].atoms, vec![1, 2]);
    let reacting: Vec<Option<i32>> = frag_bindings[0].atoms.iter().map(|a| Some(*a)).collect();
    assert_eq!(protected_atoms(4, &reacting), vec![0, 3]);

    // Three building blocks match slot 1 only; a fourth matches both slots.
    let inventory = vec![
        BlockProbe { block: 100, slots: vec![vec![false, true]] },
        BlockProbe { block: 101, slots: vec![vec![false, true]] },
        BlockProbe { block: 102, slots: vec![vec![false, true]] },
        BlockProbe { block: 103, slots: vec![vec![true, true]] },
    ];
    let bindings = inventory_bindings(&vec![9], &inventory);
    assert_eq!(bindings.len(), 3);
    assert!(bindings.iter().all(|b| b.block != 103));
    let candidates = compatible_candidates(&bindings, 9, frag_bindings[0].slot);
    assert_eq!(candidates, vec![0, 1, 2]);

    // Two of them react to the same product, the third to another one.
    let products = ["c1ccccc1N", "c1ccccc1O", "c1ccccc1N"];
    let mut raws: Vec<RawProduct> = Vec::new();
    for (c, product) in candidates.iter().zip(products.iter()) {
        let pair = PairContext {
            frag_binding: 1,
            block_binding: bindings[*c].block,
            name: format!("bb-{}", bindings[*c].block),
            fullname: format!("exp_r9_bb-{}", bindings[*c].block),
        };
        let (accepted, raw) = execute_pair(&vec![ResultSet::Product(product.to_string())], &pair).unwrap();
        assert_eq!(accepted, 0);
        raws.push(raw);
    }

    let dedup = Deduplicated::new(raws);
    let given: Vec<Option<Prepared>> = dedup.groups().iter().map(|_| prepared()).collect();
    let (mut records, counter) = dedup.finish(given).unwrap();
    records.sort_by(|a, b| a.smiles.cmp(&b.smiles));

    assert_eq!(records.len(), 2);
    assert_eq!(records[0].smiles, "c1ccccc1N");
    assert_eq!(records[0].dup_count, 2);
    assert_eq!(records[0].block_binding, 100);
    assert_eq!(records[1].smiles, "c1ccccc1O");
    assert_eq!(records[1].dup_count, 1);
    assert_eq!(records[1].block_binding, 101);
    assert_eq!(counter.reacted_building_blocks, 3);
    assert_eq!(counter.raw_products, 3);
    assert_eq!(counter.dup_products, 1);
    assert_eq!(counter.final_products, 2);

    // Both products go out in one write, followed by their origin links.
    let batches = plan_batches(records.len(), 65535, 12).unwrap();
    assert_eq!(batches.len(), 1);
    let links = origin_links(&records[batches[0].start..batches[0].end], &[7000, 7001]);
    assert_eq!(links.len(), 2);
    assert_eq!((links[0].block_binding, links[0].product), (100, 7000));
    assert_eq!((links[1].block_binding, links[1].product), (101, 7001));

    let result = ExperimentGenProductsResult {
        reactions: vec![ReactionResult { id: 9, name: "r9".to_string(), counter }],
    };
    let overall = result.overall().unwrap();
    assert_eq!(overall.raw_products, overall.dup_products + overall.final_products);
    assert_eq!(overall.final_products, 2);
}

#[test]
fn a_pair_with_two_products_in_its_one_result_set_counts_for_nothing() {
    let pair = PairContext { frag_binding: 1, block_binding: 5, name: "b".to_string(), fullname: "f".to_string() };
    let outcome = execute_pair(&vec![ResultSet::NotSingle], &pair);
    assert!(matches!(outcome, Err(SkipReason::ReactionEmptyResult)));
    let dedup = Deduplicated::new(Vec::new());
    let (records, counter) = dedup.finish(Vec::new()).unwrap();
    assert!(records.is_empty());
    assert_eq!(counter.reacted_building_blocks, 0);
    assert_eq!(counter.raw_products, 0);
    assert_eq!(counter.dup_products, 0);
    assert_eq!(counter.final_products, 0);
    assert_eq!(counter.undesired_products, 0);
}

#[test]
fn a_block_matching_both_slots_is_bound_to_neither() {
    let inventory = vec![BlockProbe { block: 7, slots: vec![vec![true, true]] }];
    assert!(inventory_bindings(&vec![3], &inventory).is_empty());
}
