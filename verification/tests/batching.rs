use chemodots::aggregate::ProductRecord;
use chemodots::batch::{
    batch_size, insert_chunk_size, origin_links, partition, plan_batches, plan_inserts,
    product_batch_size, Batch, OriginLink, MAX_PARAMS,
};

fn record(block_binding: i64) -> ProductRecord {
    ProductRecord {
        frag_binding: 1,
        block_binding,
        name: String::new(),
        fullname: String::new(),
        smiles: String::new(),
        pickle: vec![],
        dup_count: 1,
        fsp3: 0,
        hba: 0,
        hbd: 0,
        clogp: 0,
        mw: 0,
        tpsa: 0,
    }
}

#[test]
fn batch_size_for_thirteen_fields() {
    assert_eq!(MAX_PARAMS, 65535);
    assert_eq!(batch_size(65535, 13), 5041);
}

#[test]
fn batch_size_rounds_down() {
    assert_eq!(batch_size(10, 3), 3);
    assert_eq!(batch_size(9, 3), 3);
    assert_eq!(batch_size(2, 3), 0);
    assert_eq!(batch_size(65535, 1), 65535);
    assert_eq!(batch_size(65535, 12), 5461);
}

#[test]
fn products_and_their_links_share_the_smaller_batch_size() {
    assert_eq!(product_batch_size(12, 2), Some(5461));
    assert_eq!(product_batch_size(2, 13), Some(5041));
    assert_eq!(product_batch_size(0, 2), None);
    assert_eq!(product_batch_size(12, 0), None);
}

#[test]
fn chunk_size_is_the_share_of_a_worker() {
    assert_eq!(insert_chunk_size(10, 4, 65535, 3), Some(3));
    assert_eq!(insert_chunk_size(8, 4, 65535, 3), Some(2));
    assert_eq!(insert_chunk_size(5, 4, 65535, 3), Some(2));
    assert_eq!(insert_chunk_size(usize::MAX, 1, usize::MAX, 1), Some(usize::MAX));
}

#[test]
fn chunk_size_is_capped_by_one_write() {
    assert_eq!(insert_chunk_size(1_000_000, 8, 65535, 3), Some(21845));
    assert_eq!(insert_chunk_size(1_000_000, 8, 65535, 2), Some(32767));
}

#[test]
fn chunk_size_for_nothing_to_write_is_one() {
    assert_eq!(insert_chunk_size(0, 4, 65535, 3), Some(1));
    assert_eq!(insert_chunk_size(0, 1, 1, 1), Some(1));
}

#[test]
fn chunk_size_without_worker_or_field() {
    assert_eq!(insert_chunk_size(10, 0, 65535, 3), None);
    assert_eq!(insert_chunk_size(10, 4, 65535, 0), None);
    assert_eq!(insert_chunk_size(0, 0, 65535, 3), None);
}

#[test]
fn chunk_size_where_no_record_fits_a_write() {
    assert_eq!(insert_chunk_size(10, 4, 5, 6), None);
    assert_eq!(insert_chunk_size(10, 4, 6, 6), Some(1));
}

#[test]
fn nothing_to_write_plans_no_write() {
    let size = insert_chunk_size(0, 8, 65535, 3).unwrap();
    assert_eq!(partition(0, size), Some(vec![]));
    assert_eq!(plan_batches(0, 65535, 13), Some(vec![]));
    assert_eq!(plan_batches(0, 5, 6), Some(vec![]));
    assert_eq!(plan_batches(0, 5, 0), Some(vec![]));
}

#[test]
fn partition_cuts_full_batches_and_a_rest() {
    assert_eq!(
        partition(10, 3),
        Some(vec![
            Batch { start: 0, end: 3 },
            Batch { start: 3, end: 6 },
            Batch { start: 6, end: 9 },
            Batch { start: 9, end: 10 },
        ])
    );
    assert_eq!(partition(6, 3), Some(vec![Batch { start: 0, end: 3 }, Batch { start: 3, end: 6 }]));
    assert_eq!(partition(2, 5), Some(vec![Batch { start: 0, end: 2 }]));
}

#[test]
fn partition_of_nothing_is_empty() {
    assert_eq!(partition(0, 3), Some(vec![]));
}

#[test]
fn partition_of_records_by_zero_gives_nothing() {
    assert_eq!(partition(5, 0), None);
    assert_eq!(partition(1, 0), None);
}

#[test]
fn partition_of_nothing_by_zero_is_empty() {
    assert_eq!(partition(0, 0), Some(vec![]));
}

#[test]
fn partition_near_the_limit_of_the_machine() {
    let batches = partition(usize::MAX, usize::MAX - 1).unwrap();
    assert_eq!(
        batches,
        vec![Batch { start: 0, end: usize::MAX - 1 }, Batch { start: usize::MAX - 1, end: usize::MAX }]
    );
}

#[test]
fn no_batch_exceeds_the_batch_size() {
    let batches = plan_batches(12000, 65535, 13).unwrap();
    assert_eq!(batches.len(), 3);
    assert_eq!(batches[0], Batch { start: 0, end: 5041 });
    assert_eq!(batches[1], Batch { start: 5041, end: 10082 });
    assert_eq!(batches[2], Batch { start: 10082, end: 12000 });
    for b in &batches {
        assert!(b.end - b.start <= 5041);
        assert!((b.end - b.start) * 13 <= 65535);
    }
}

#[test]
fn no_plan_where_no_record_fits() {
    assert_eq!(plan_batches(10, 5, 6), None);
    assert_eq!(plan_batches(10, 5, 0), None);
    assert_eq!(plan_batches(3, 5, 5), Some(vec![
        Batch { start: 0, end: 1 },
        Batch { start: 1, end: 2 },
        Batch { start: 2, end: 3 },
    ]));
}

#[test]
fn links_pair_products_with_their_stored_identities() {
    let chunk = vec![record(70), record(71), record(72)];
    assert_eq!(
        origin_links(&chunk, &[500, 501, 502]),
        vec![
            OriginLink { block_binding: 70, product: 500 },
            OriginLink { block_binding: 71, product: 501 },
            OriginLink { block_binding: 72, product: 502 },
        ]
    );
}

#[test]
fn links_reach_as_far_as_both_lists() {
    let chunk = vec![record(70), record(71), record(72)];
    assert_eq!(origin_links(&chunk, &[500]), vec![OriginLink { block_binding: 70, product: 500 }]);
    assert_eq!(origin_links(&chunk[..1], &[500, 501]), vec![OriginLink { block_binding: 70, product: 500 }]);
    assert_eq!(origin_links(&chunk, &[]), vec![]);
    assert_eq!(origin_links(&[], &[1]), vec![]);
}

#[test]
fn inserts_are_spread_over_the_workers() {
    assert_eq!(
        plan_inserts(10, 4, 65535, 3),
        Some(vec![
            Batch { start: 0, end: 3 },
            Batch { start: 3, end: 6 },
            Batch { start: 6, end: 9 },
            Batch { start: 9, end: 10 },
        ])
    );
    let capped = plan_inserts(50000, 1, 65535, 3).unwrap();
    assert_eq!(capped.len(), 3);
    assert_eq!(capped[0], Batch { start: 0, end: 21845 });
    assert_eq!(capped[2], Batch { start: 43690, end: 50000 });
}

#[test]
fn no_records_no_inserts() {
    assert_eq!(plan_inserts(0, 8, 65535, 3), Some(vec![]));
    assert_eq!(plan_inserts(0, 0, 65535, 3), Some(vec![]));
    assert_eq!(plan_inserts(0, 8, 5, 6), Some(vec![]));
    assert_eq!(plan_inserts(0, 8, 5, 0), Some(vec![]));
}

#[test]
fn no_inserts_planned_for_records_that_cannot_be_written() {
    assert_eq!(plan_inserts(3, 0, 65535, 3), None);
    assert_eq!(plan_inserts(3, 8, 5, 6), None);
    assert_eq!(plan_inserts(3, 8, 5, 0), None);
}
