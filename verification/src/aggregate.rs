//! From the deduplicated raw products of one reaction to the records that are
//! stored and the counter that reports them.

use crate::counter::ReactionCounter;
use crate::dedup::{group_by_canonical, is_grouping, keys, occurrences, ProductGroup, RawProduct};
use crate::error::SkipReason;
use vstd::prelude::*;

verus! {

/// The descriptor set of one structure. The four real-valued descriptors are
/// carried as the bit patterns of their single-precision values.
#[derive(Clone, Copy, Debug)]
pub struct Descriptors {
    /// Fraction of sp3 carbons, as bits.
    pub fsp3: u32,
    /// Number of hydrogen-bond acceptors.
    pub hba: i64,
    /// Number of hydrogen-bond donors.
    pub hbd: i64,
    /// Computed logP, as bits.
    pub clogp: u32,
    /// Exact molecular weight, as bits.
    pub mw: u32,
    /// Topological polar surface area, as bits.
    pub tpsa: u32,
}

/// What was computed for the representative of one group: its storable
/// encoding and its descriptors.
#[derive(Debug)]
pub struct Prepared {
    pub pickle: Vec<u8>,
    pub descriptors: Descriptors,
}

/// One product as it is stored.
#[derive(Debug)]
pub struct ProductRecord {
    pub frag_binding: i64,
    pub block_binding: i64,
    pub name: String,
    pub fullname: String,
    pub smiles: String,
    pub pickle: Vec<u8>,
    pub dup_count: usize,
    pub fsp3: u32,
    pub hba: i32,
    pub hbd: i32,
    pub clogp: u32,
    pub mw: u32,
    pub tpsa: u32,
}

/// The value of a `ProductRecord`.
pub struct ProductRecordView {
    pub frag_binding: i64,
    pub block_binding: i64,
    pub name: Seq<char>,
    pub fullname: Seq<char>,
    pub smiles: Seq<char>,
    pub pickle: Seq<u8>,
    pub dup_count: usize,
    pub fsp3: u32,
    pub hba: i32,
    pub hbd: i32,
    pub clogp: u32,
    pub mw: u32,
    pub tpsa: u32,
}

impl View for ProductRecord {
    type V = ProductRecordView;

    open spec fn view(&self) -> ProductRecordView {
        ProductRecordView {
            frag_binding: self.frag_binding,
            block_binding: self.block_binding,
            name: self.name@,
            fullname: self.fullname@,
            smiles: self.smiles@,
            pickle: self.pickle@,
            dup_count: self.dup_count,
            fsp3: self.fsp3,
            hba: self.hba,
            hbd: self.hbd,
            clogp: self.clogp,
            mw: self.mw,
            tpsa: self.tpsa,
        }
    }
}

/// The values of a sequence of records.
pub open spec fn record_views(records: Seq<ProductRecord>) -> Seq<ProductRecordView> {
    records.map_values(|r: ProductRecord| r@)
}

/// Whether both counted descriptors fit the 32-bit fields they are stored in.
pub open spec fn fits_stored(d: Descriptors) -> bool {
    i32::MIN <= d.hba <= i32::MAX && i32::MIN <= d.hbd <= i32::MAX
}

/// The record of a group: identity and provenance from its representative,
/// the count of the group, and what was prepared for it.
pub open spec fn spec_record(
    raw: RawProduct,
    dup_count: usize,
    pickle: Seq<u8>,
    d: Descriptors,
) -> ProductRecordView {
    ProductRecordView {
        frag_binding: raw.frag_binding,
        block_binding: raw.block_binding,
        name: raw.name@,
        fullname: raw.fullname@,
        smiles: raw.canonical@,
        pickle,
        dup_count,
        fsp3: d.fsp3,
        hba: d.hba as i32,
        hbd: d.hbd as i32,
        clogp: d.clogp,
        mw: d.mw,
        tpsa: d.tpsa,
    }
}

/// Whether a group is kept: something was prepared for it and its
/// descriptors fit.
pub open spec fn keeps(p: Option<Prepared>) -> bool {
    p matches Some(x) && fits_stored(x.descriptors)
}

/// The records of the kept groups, in the order of the groups.
pub open spec fn spec_records(
    raw: Seq<RawProduct>,
    groups: Seq<ProductGroup>,
    prepared: Seq<Option<Prepared>>,
) -> Seq<ProductRecordView>
    decreases groups.len(),
{
    if groups.len() == 0 || prepared.len() != groups.len() {
        Seq::empty()
    } else {
        let before = spec_records(raw, groups.drop_last(), prepared.drop_last());
        if keeps(prepared.last()) {
            before.push(
                spec_record(
                    raw[groups.last().representative as int],
                    groups.last().dup_count,
                    prepared.last()->0.pickle@,
                    prepared.last()->0.descriptors,
                ),
            )
        } else {
            before
        }
    }
}

/// The sum of the duplicate counts of `records`.
pub open spec fn spec_raw_total(records: Seq<ProductRecordView>) -> int
    decreases records.len(),
{
    if records.len() == 0 {
        0
    } else {
        spec_raw_total(records.drop_last()) + records.last().dup_count
    }
}

/// The sum of the duplicate counts of `groups`.
pub open spec fn spec_group_total(groups: Seq<ProductGroup>) -> int
    decreases groups.len(),
{
    if groups.len() == 0 {
        0
    } else {
        spec_group_total(groups.drop_last()) + groups.last().dup_count
    }
}

/// `keys` without the occurrences of `key`.
pub open spec fn without(keys: Seq<Seq<char>>, key: Seq<char>) -> Seq<Seq<char>>
    decreases keys.len(),
{
    if keys.len() == 0 {
        keys
    } else if keys.last() == key {
        without(keys.drop_last(), key)
    } else {
        without(keys.drop_last(), key).push(keys.last())
    }
}

proof fn lemma_without(keys: Seq<Seq<char>>, key: Seq<char>)
    ensures
        without(keys, key).len() + occurrences(keys, key) == keys.len(),
        forall|other: Seq<char>|
            other != key ==> #[trigger] occurrences(without(keys, key), other) == occurrences(
                keys,
                other,
            ),
    decreases keys.len(),
{
    broadcast use vstd::seq_lib::group_to_multiset_ensures;

    if keys.len() == 0 {
        assert(!keys.contains(key));
    } else {
        let head = keys.drop_last();
        lemma_without(head, key);
        assert(keys =~= head.push(keys.last()));
        assert(keys.to_multiset() =~= head.to_multiset().insert(keys.last()));
        if keys.last() != key {
            assert(without(keys, key).to_multiset() =~= without(head, key).to_multiset().insert(
                keys.last(),
            ));
        }
        assert forall|other: Seq<char>| other != key implies #[trigger] occurrences(
            without(keys, key),
            other,
        ) == occurrences(keys, other) by {
            assert(occurrences(without(head, key), other) == occurrences(head, other));
        }
    }
}

/// Groups of different keys that each count the occurrences of their key
/// count, together, no more than there are keys.
proof fn lemma_group_total_bounded(keys: Seq<Seq<char>>, groups: Seq<ProductGroup>)
    requires
        forall|g: int|
            0 <= g < groups.len() ==> (#[trigger] groups[g]).dup_count == occurrences(
                keys,
                groups[g].canonical@,
            ),
        forall|g: int, h: int|
            0 <= g < h < groups.len() ==> (#[trigger] groups[g]).canonical@ != (
            #[trigger] groups[h]).canonical@,
    ensures
        0 <= spec_group_total(groups) <= keys.len(),
    decreases groups.len(),
{
    if groups.len() > 0 {
        let head = groups.drop_last();
        let key = groups.last().canonical@;
        let rest = without(keys, key);
        lemma_without(keys, key);
        assert forall|g: int| 0 <= g < head.len() implies (#[trigger] head[g]).dup_count
            == occurrences(rest, head[g].canonical@) by {
            assert(head[g] == groups[g]);
            assert(groups[g].canonical@ != groups[groups.len() - 1].canonical@);
        }
        assert forall|g: int, h: int| 0 <= g < h < head.len() implies (#[trigger] head[g]).canonical@
            != (#[trigger] head[h]).canonical@ by {
            assert(head[g] == groups[g] && head[h] == groups[h]);
        }
        lemma_group_total_bounded(rest, head);
        assert(groups.last() == groups[groups.len() - 1]);
    }
}

proof fn lemma_group_total_grows(groups: Seq<ProductGroup>, n: int)
    requires
        0 <= n <= groups.len(),
    ensures
        0 <= spec_group_total(groups.take(n)) <= spec_group_total(groups),
    decreases groups.len() - n,
{
    if n == groups.len() {
        assert(groups.take(n) == groups);
        lemma_group_total_nonnegative(groups);
    } else {
        let head = groups.drop_last();
        assert(head.take(n) == groups.take(n));
        lemma_group_total_grows(head, n);
    }
}

proof fn lemma_group_total_nonnegative(groups: Seq<ProductGroup>)
    ensures
        0 <= spec_group_total(groups),
    decreases groups.len(),
{
    if groups.len() > 0 {
        lemma_group_total_nonnegative(groups.drop_last());
    }
}

/// The record of one group, or `DescriptorOutOfRange` where a counted
/// descriptor does not fit its stored field.
pub fn make_record(raw: &RawProduct, dup_count: usize, pickle: Vec<u8>, d: &Descriptors) -> (made:
    Result<ProductRecord, SkipReason>)
    ensures
        made.is_ok() <==> fits_stored(*d),
        made matches Ok(r) ==> r@ == spec_record(*raw, dup_count, pickle@, *d),
        made matches Err(e) ==> e == SkipReason::DescriptorOutOfRange,
{
    if d.hba < -2147483648 || d.hba > 2147483647 || d.hbd < -2147483648 || d.hbd > 2147483647 {
        return Err(SkipReason::DescriptorOutOfRange);
    }
    Ok(
        ProductRecord {
            frag_binding: raw.frag_binding,
            block_binding: raw.block_binding,
            name: raw.name.clone(),
            fullname: raw.fullname.clone(),
            smiles: raw.canonical.clone(),
            pickle,
            dup_count,
            fsp3: d.fsp3,
            hba: d.hba as i32,
            hbd: d.hbd as i32,
            clogp: d.clogp,
            mw: d.mw,
            tpsa: d.tpsa,
        },
    )
}

/// The raw products of one reaction together with their groups.
pub struct Deduplicated {
    raw: Vec<RawProduct>,
    groups: Vec<ProductGroup>,
}

impl Deduplicated {
    #[verifier::type_invariant]
    spec fn grouped(self) -> bool {
        is_grouping(keys(self.raw@), self.groups@)
    }

    /// The raw products that were deduplicated, in the order they came in.
    pub closed spec fn raw_view(self) -> Seq<RawProduct> {
        self.raw@
    }

    /// The groups, in the order in which they are reported.
    pub closed spec fn groups_view(self) -> Seq<ProductGroup> {
        self.groups@
    }

    /// Deduplicates the raw products of one reaction.
    pub fn new(raw: Vec<RawProduct>) -> (d: Deduplicated)
        ensures
            d.raw_view() == raw@,
            is_grouping(keys(raw@), d.groups_view()),
    {
        let groups = group_by_canonical(&raw);
        Deduplicated { raw, groups }
    }

    /// The raw products.
    pub fn raw(&self) -> (raw: &Vec<RawProduct>)
        ensures
            raw@ == self.raw_view(),
    {
        &self.raw
    }

    /// The groups: one for each distinct canonical string.
    pub fn groups(&self) -> (groups: &Vec<ProductGroup>)
        ensures
            groups@ == self.groups_view(),
            is_grouping(keys(self.raw_view()), groups@),
    {
        proof {
            use_type_invariant(self);
        }
        &self.groups
    }

    /// The records and the counter of the reaction, from what was prepared
    /// for each group; `prepared` holds, in the order of the groups, nothing
    /// for a group whose representative could not be encoded. A group is kept
    /// where something was prepared and its descriptors fit; it then yields
    /// one record and counts its members as raw products, all but one of them
    /// as duplicates, and one final product. Every raw product stands for one
    /// reacted building block. Nothing is returned where `prepared` does not
    /// hold one entry for each group.
    pub fn finish(&self, prepared: Vec<Option<Prepared>>) -> (done: Option<
        (Vec<ProductRecord>, ReactionCounter),
    >)
        ensures
            done.is_some() <==> prepared@.len() == self.groups_view().len(),
            done matches Some((records, counter)) ==> {
                &&& record_views(records@) == spec_records(
                    self.raw_view(),
                    self.groups_view(),
                    prepared@,
                )
                &&& counter.reacted_building_blocks == self.raw_view().len()
                &&& counter.raw_products == spec_raw_total(record_views(records@))
                &&& counter.final_products == records@.len()
                &&& counter.dup_products == counter.raw_products - counter.final_products
                &&& counter.undesired_products == 0
                &&& counter.balanced()
                &&& counter.raw_products <= counter.reacted_building_blocks
            },
    {
        proof {
            use_type_invariant(self);
        }
        let m = self.groups.len();
        if prepared.len() != m {
            return None;
        }
        let mut counter = ReactionCounter::new();
        counter.reacted_building_blocks = self.raw.len();
        let mut records: Vec<ProductRecord> = Vec::new();
        let ghost all = prepared@;
        proof {
            lemma_group_total_bounded(keys(self.raw@), self.groups@);
            assert(self.groups@.take(0) =~= Seq::<ProductGroup>::empty());
        }
        let mut g: usize = 0;
        for item in it: prepared
            invariant
                it.seq() == all,
                all.len() == m,
                m == self.groups@.len(),
                g == it.index(),
                is_grouping(keys(self.raw@), self.groups@),
                spec_group_total(self.groups@) <= self.raw@.len(),
                record_views(records@) == spec_records(
                    self.raw@,
                    self.groups@.take(g as int),
                    all.take(g as int),
                ),
                counter.reacted_building_blocks == self.raw@.len(),
                counter.raw_products == spec_raw_total(record_views(records@)),
                counter.raw_products <= spec_group_total(self.groups@.take(g as int)),
                counter.final_products == records@.len(),
                records@.len() <= g,
                counter.final_products <= counter.raw_products,
                counter.dup_products == counter.raw_products - counter.final_products,
                counter.undesired_products == 0,
        {
            let group = &self.groups[g];
            let ghost before = record_views(records@);
            proof {
                let upto = self.groups@.take(g + 1);
                assert(upto.drop_last() == self.groups@.take(g as int));
                assert(upto.last() == self.groups@[g as int]);
                assert(all.take(g + 1).drop_last() == all.take(g as int));
                assert(all.take(g + 1).last() == item);
                lemma_group_total_grows(self.groups@, g + 1);
                assert(group.dup_count >= 1) by {
                    broadcast use vstd::seq_lib::group_to_multiset_ensures;

                    assert(keys(self.raw@)[group.representative as int] == group.canonical@);
                    assert(keys(self.raw@).contains(group.canonical@));
                }
            }
            match item {
                Some(p) => {
                    let ghost pickle = p.pickle@;
                    match make_record(
                        &self.raw[group.representative],
                        group.dup_count,
                        p.pickle,
                        &p.descriptors,
                    ) {
                        Ok(record) => {
                            let counted = counter.record_group(group.dup_count);
                            assert(counted);
                            records.push(record);
                            proof {
                                assert(record_views(records@) =~= before.push(record@));
                                assert(record_views(records@).drop_last() == before);
                            }
                        },
                        Err(_) => {},
                    }
                },
                None => {},
            }
            g = g + 1;
        }
        proof {
            assert(self.groups@.take(m as int) == self.groups@);
            assert(all.take(m as int) == all);
        }
        Some((records, counter))
    }
}

} // verus!
