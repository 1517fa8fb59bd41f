use chemodots::aggregate::{make_record, Deduplicated, Descriptors, Prepared};
use chemodots::dedup::{group_by_canonical, group_positions, RawProduct};
use chemodots::error::SkipReason;
use chemodots::executor::{execute_pair, PairContext, ResultSet};

fn raw(canonical: &str, block_binding: i64) -> RawProduct {
    RawProduct {
        canonical: canonical.to_string(),
        frag_binding: 1,
        block_binding,
        name: format!("bb{}", block_binding),
        fullname: format!("exp_r_bb{}", block_binding),
    }
}

fn descriptors() -> Descriptors {
    Descriptors { fsp3: 0x3f000000, hba: 2, hbd: 1, clogp: 0x40000000, mw: 0x43000000, tpsa: 0x41a00000 }
}

fn prepared() -> Option<Prepared> {
    Some(Prepared { pickle: vec![1, 2, 3], descriptors: descriptors() })
}

#[test]
fn groups_count_their_members_and_name_the_first() {
    let raws = vec![raw("A", 10), raw("B", 11), raw("A", 12), raw("A", 13), raw("C", 14), raw("B", 15)];
    let mut groups = group_by_canonical(&raws);
    groups.sort_by(|x, y| x.canonical.cmp(&y.canonical));
    assert_eq!(groups.len(), 3);
    assert_eq!((groups[0].canonical.as_str(), groups[0].representative, groups[0].dup_count), ("A", 0, 3));
    assert_eq!((groups[1].canonical.as_str(), groups[1].representative, groups[1].dup_count), ("B", 1, 2));
    assert_eq!((groups[2].canonical.as_str(), groups[2].representative, groups[2].dup_count), ("C", 4, 1));
}

#[test]
fn nothing_to_group() {
    assert!(group_by_canonical(&vec![]).is_empty());
    assert!(group_positions(&vec![]).is_empty());
}

#[test]
fn positions_of_each_key_in_rising_order() {
    let keys: Vec<String> = ["x", "y", "x", "z", "y", "x"].iter().map(|s| s.to_string()).collect();
    let mut groups = group_positions(&keys);
    groups.sort_by(|a, b| a.key.cmp(&b.key));
    assert_eq!(groups.len(), 3);
    assert_eq!(groups[0].positions, vec![0, 2, 5]);
    assert_eq!(groups[1].positions, vec![1, 4]);
    assert_eq!(groups[2].positions, vec![3]);
}

#[test]
fn grouping_again_gives_the_same_groups() {
    let raws = vec![raw("A", 1), raw("B", 2), raw("A", 3)];
    let mut first = group_by_canonical(&raws);
    let mut second = group_by_canonical(&raws);
    first.sort_by(|x, y| x.canonical.cmp(&y.canonical));
    second.sort_by(|x, y| x.canonical.cmp(&y.canonical));
    assert_eq!(first.len(), second.len());
    for (a, b) in first.iter().zip(second.iter()) {
        assert_eq!(a.canonical, b.canonical);
        assert_eq!(a.representative, b.representative);
        assert_eq!(a.dup_count, b.dup_count);
    }
}

#[test]
fn another_order_keeps_strings_and_counts() {
    let one = vec![raw("A", 1), raw("B", 2), raw("A", 3)];
    let other = vec![raw("A", 3), raw("A", 1), raw("B", 2)];
    let mut first = group_by_canonical(&one);
    let mut second = group_by_canonical(&other);
    first.sort_by(|x, y| x.canonical.cmp(&y.canonical));
    second.sort_by(|x, y| x.canonical.cmp(&y.canonical));
    assert_eq!(first.len(), 2);
    assert_eq!(second.len(), 2);
    assert_eq!((first[0].canonical.as_str(), first[0].dup_count), ("A", 2));
    assert_eq!((second[0].canonical.as_str(), second[0].dup_count), ("A", 2));
    assert_eq!((first[1].canonical.as_str(), first[1].dup_count), ("B", 1));
    assert_eq!((second[1].canonical.as_str(), second[1].dup_count), ("B", 1));
    assert_eq!(one[first[0].representative].block_binding, 1);
    assert_eq!(other[second[0].representative].block_binding, 3);
}

#[test]
fn three_blocks_two_products() {
    let context = |block_binding: i64| PairContext {
        frag_binding: 1,
        block_binding,
        name: format!("bb{}", block_binding),
        fullname: format!("exp_r_bb{}", block_binding),
    };
    let outcomes = vec![
        execute_pair(&vec![ResultSet::Product("CCOC".to_string())], &context(21)),
        execute_pair(&vec![ResultSet::Product("CCON".to_string())], &context(22)),
        execute_pair(&vec![ResultSet::Product("CCOC".to_string())], &context(23)),
    ];
    let raws: Vec<RawProduct> = outcomes.into_iter().map(|o| o.unwrap().1).collect();
    let dedup = Deduplicated::new(raws);
    let given: Vec<Option<Prepared>> = dedup.groups().iter().map(|_| prepared()).collect();
    let (mut records, counter) = dedup.finish(given).unwrap();
    records.sort_by(|a, b| a.smiles.cmp(&b.smiles));
    assert_eq!(records.len(), 2);
    assert_eq!((records[0].smiles.as_str(), records[0].dup_count, records[0].block_binding), ("CCOC", 2, 21));
    assert_eq!((records[1].smiles.as_str(), records[1].dup_count, records[1].block_binding), ("CCON", 1, 22));
    assert_eq!(counter.reacted_building_blocks, 3);
    assert_eq!(counter.raw_products, 3);
    assert_eq!(counter.dup_products, 1);
    assert_eq!(counter.final_products, 2);
    assert_eq!(counter.undesired_products, 0);
    assert_eq!(counter.raw_products, counter.dup_products + counter.final_products);
}

#[test]
fn rejected_pair_adds_nothing() {
    let context = PairContext { frag_binding: 1, block_binding: 2, name: "n".to_string(), fullname: "f".to_string() };
    let outcome = execute_pair(&vec![ResultSet::NotSingle], &context);
    let raws: Vec<RawProduct> = outcome.into_iter().map(|o| o.1).collect();
    assert!(raws.is_empty());
    let dedup = Deduplicated::new(raws);
    assert!(dedup.groups().is_empty());
    let (records, counter) = dedup.finish(vec![]).unwrap();
    assert!(records.is_empty());
    assert_eq!(
        (counter.reacted_building_blocks, counter.raw_products, counter.dup_products, counter.final_products),
        (0, 0, 0, 0)
    );
}

#[test]
fn record_carries_representative_and_descriptors() {
    let r = make_record(&raw("CCO", 77), 4, vec![9, 8], &descriptors()).unwrap();
    assert_eq!(r.frag_binding, 1);
    assert_eq!(r.block_binding, 77);
    assert_eq!(r.name, "bb77");
    assert_eq!(r.fullname, "exp_r_bb77");
    assert_eq!(r.smiles, "CCO");
    assert_eq!(r.pickle, vec![9, 8]);
    assert_eq!(r.dup_count, 4);
    assert_eq!((r.fsp3, r.hba, r.hbd, r.clogp, r.mw, r.tpsa), (0x3f000000, 2, 1, 0x40000000, 0x43000000, 0x41a00000));
}

#[test]
fn descriptor_beyond_its_field_is_out_of_range() {
    let mut d = descriptors();
    d.hba = i32::MAX as i64 + 1;
    assert!(matches!(make_record(&raw("C", 1), 1, vec![], &d), Err(SkipReason::DescriptorOutOfRange)));
    let mut d = descriptors();
    d.hbd = i32::MIN as i64 - 1;
    assert!(matches!(make_record(&raw("C", 1), 1, vec![], &d), Err(SkipReason::DescriptorOutOfRange)));
    let mut d = descriptors();
    d.hba = i32::MAX as i64;
    d.hbd = i32::MIN as i64;
    let r = make_record(&raw("C", 1), 1, vec![], &d).unwrap();
    assert_eq!((r.hba, r.hbd), (i32::MAX, i32::MIN));
}

#[test]
fn dropped_groups_are_not_counted() {
    let raws = vec![raw("A", 1), raw("A", 2), raw("B", 3), raw("C", 4)];
    let dedup = Deduplicated::new(raws);
    let given: Vec<Option<Prepared>> = dedup
        .groups()
        .iter()
        .map(|g| match g.canonical.as_str() {
            "A" => prepared(),
            "B" => None,
            _ => {
                let mut d = descriptors();
                d.hba = 1 << 40;
                Some(Prepared { pickle: vec![], descriptors: d })
            }
        })
        .collect();
    let (records, counter) = dedup.finish(given).unwrap();
    assert_eq!(records.len(), 1);
    assert_eq!(records[0].smiles, "A");
    assert_eq!(records[0].dup_count, 2);
    assert_eq!(records[0].block_binding, 1);
    assert_eq!(records[0].pickle, vec![1, 2, 3]);
    assert_eq!(counter.reacted_building_blocks, 4);
    assert_eq!(counter.raw_products, 2);
    assert_eq!(counter.dup_products, 1);
    assert_eq!(counter.final_products, 1);
}

#[test]
fn finish_wants_one_entry_for_each_group() {
    let dedup = Deduplicated::new(vec![raw("A", 1), raw("B", 2)]);
    assert!(dedup.finish(vec![prepared()]).is_none());
    let dedup = Deduplicated::new(vec![raw("A", 1)]);
    assert!(dedup.finish(vec![]).is_none());
    assert_eq!(dedup.raw().len(), 1);
}
