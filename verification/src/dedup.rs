//! Deduplication of raw products by canonical structural string.

use crate::adapters::{group_pairs, has_entry, is_group_map, values_of, views};
use crate::select::is_selection;
use vstd::prelude::*;

verus! {

/// One accepted reaction result, as a pair executor emitted it.
#[derive(Debug)]
pub struct RawProduct {
    /// Canonical structural string of the product: its identity.
    pub canonical: String,
    /// The fragment binding that took part.
    pub frag_binding: i64,
    /// The building-block binding that took part.
    pub block_binding: i64,
    /// Name of the building block.
    pub name: String,
    /// Name of the building block, qualified by experiment and reaction.
    pub fullname: String,
}

/// The raw products that share one canonical string.
#[derive(Debug)]
pub struct ProductGroup {
    /// The canonical string that the members share.
    pub canonical: String,
    /// Position, among the raw products, of the member that stands for the
    /// group: the first one that was emitted.
    pub representative: usize,
    /// Number of members.
    pub dup_count: usize,
}

/// The canonical strings of the raw products, in order.
pub open spec fn keys(raw: Seq<RawProduct>) -> Seq<Seq<char>> {
    raw.map_values(|r: RawProduct| r.canonical@)
}

/// How often `key` occurs among `keys`.
pub open spec fn occurrences(keys: Seq<Seq<char>>, key: Seq<char>) -> nat {
    keys.to_multiset().count(key)
}

/// `i` is the first position of `key` among `keys`.
pub open spec fn is_first_occurrence(keys: Seq<Seq<char>>, key: Seq<char>, i: int) -> bool {
    &&& 0 <= i < keys.len()
    &&& keys[i] == key
    &&& forall|j: int| 0 <= j < i ==> keys[j] != key
}

/// One of `groups` stands for `key`.
pub open spec fn has_group(groups: Seq<ProductGroup>, key: Seq<char>) -> bool {
    exists|g: int| 0 <= g < groups.len() && (#[trigger] groups[g]).canonical@ == key
}

/// `groups` is the deduplication of `keys`: one group for each distinct key,
/// represented by the key's first position and counting its occurrences.
pub open spec fn is_grouping(keys: Seq<Seq<char>>, groups: Seq<ProductGroup>) -> bool {
    &&& forall|g: int|
        0 <= g < groups.len() ==> is_first_occurrence(
            keys,
            (#[trigger] groups[g]).canonical@,
            groups[g].representative as int,
        ) && groups[g].dup_count == occurrences(keys, groups[g].canonical@)
    &&& forall|g: int, h: int|
        0 <= g < h < groups.len() ==> (#[trigger] groups[g]).canonical@ != (
        #[trigger] groups[h]).canonical@
    &&& forall|i: int| 0 <= i < keys.len() ==> has_group(groups, #[trigger] keys[i])
}

/// The canonical strings of the groups, in order.
pub open spec fn group_keys(groups: Seq<ProductGroup>) -> Seq<Seq<char>> {
    groups.map_values(|g: ProductGroup| g.canonical@)
}

/// `pairs` holds each key of `keys` with its position.
pub open spec fn is_indexed(keys: Seq<Seq<char>>, pairs: Seq<(String, usize)>) -> bool {
    &&& pairs.len() == keys.len()
    &&& forall|i: int| 0 <= i < pairs.len() ==> (#[trigger] pairs[i]).0@ == keys[i] && pairs[i].1 == i
}

/// The positions that come with a key in indexed pairs are exactly the
/// positions of that key, in rising order.
proof fn lemma_positions_of_key(keys: Seq<Seq<char>>, pairs: Seq<(String, usize)>, key: Seq<char>)
    requires
        is_indexed(keys, pairs),
    ensures
        values_of(pairs, key).len() == occurrences(keys, key),
        forall|k: int|
            0 <= k < values_of(pairs, key).len() ==> 0 <= (#[trigger] values_of(pairs, key)[k])
                < keys.len() && keys[values_of(pairs, key)[k] as int] == key,
        forall|k: int, l: int|
            0 <= k < l < values_of(pairs, key).len() ==> values_of(pairs, key)[k] < values_of(
                pairs,
                key,
            )[l],
        forall|i: int|
            0 <= i < keys.len() && keys[i] == key ==> values_of(pairs, key).contains(i as usize),
    decreases pairs.len(),
{
    broadcast use vstd::seq_lib::group_to_multiset_ensures;

    if pairs.len() == 0 {
        assert(keys.to_multiset().count(key) == 0) by {
            assert(!keys.contains(key));
        }
    } else {
        let head_keys = keys.drop_last();
        let head = pairs.drop_last();
        assert(is_indexed(head_keys, head)) by {
            assert forall|i: int| 0 <= i < head.len() implies (#[trigger] head[i]).0@
                == head_keys[i] && head[i].1 == i by {
                assert(head[i] == pairs[i]);
            }
        }
        lemma_positions_of_key(head_keys, head, key);
        let before = values_of(head, key);
        let all = values_of(pairs, key);
        let last = keys.len() - 1;
        assert(keys =~= head_keys.push(keys[last]));
        assert(pairs.last() == pairs[last]);
        if keys[last] == key {
            assert(all == before.push(last as usize));
            assert forall|i: int| 0 <= i < keys.len() && keys[i] == key implies all.contains(
                i as usize,
            ) by {
                if i < last {
                    assert(before.contains(i as usize));
                    let k = choose|k: int| 0 <= k < before.len() && before[k] == i as usize;
                    assert(all[k] == i as usize);
                } else {
                    assert(all[all.len() - 1] == i as usize);
                }
            }
        } else {
            assert(all == before);
            assert forall|i: int| 0 <= i < keys.len() && keys[i] == key implies all.contains(
                i as usize,
            ) by {
                assert(before.contains(i as usize));
            }
        }
    }
}

/// One of `groups` has the canonical string and the count of `group`, and,
/// where `same_order` holds, its representative too.
pub open spec fn has_partner(groups: Seq<ProductGroup>, group: ProductGroup, same_order: bool) -> bool {
    exists|h: int|
        0 <= h < groups.len() && (#[trigger] groups[h]).canonical@ == group.canonical@
            && groups[h].dup_count == group.dup_count && (same_order ==> groups[h].representative
            == group.representative)
}

/// A grouping has as many groups as there are distinct keys.
pub proof fn lemma_group_count(keys: Seq<Seq<char>>, groups: Seq<ProductGroup>)
    requires
        is_grouping(keys, groups),
    ensures
        groups.len() == keys.to_set().len(),
{
    let names = group_keys(groups);
    assert(names.no_duplicates()) by {
        assert forall|a: int, b: int| 0 <= a < names.len() && 0 <= b < names.len() && a != b implies names[a]
            != names[b] by {
            if a < b {
                assert(groups[a].canonical@ != groups[b].canonical@);
            } else {
                assert(groups[b].canonical@ != groups[a].canonical@);
            }
        }
    }
    assert(names.to_set() =~= keys.to_set()) by {
        assert forall|x: Seq<char>| names.to_set().contains(x) implies keys.to_set().contains(x) by {
            let g = choose|g: int| 0 <= g < names.len() && names[g] == x;
            assert(keys[groups[g].representative as int] == x);
        }
        assert forall|x: Seq<char>| keys.to_set().contains(x) implies names.to_set().contains(x) by {
            let i = choose|i: int| 0 <= i < keys.len() && keys[i] == x;
            assert(has_group(groups, keys[i]));
            let g = choose|g: int| 0 <= g < groups.len() && (#[trigger] groups[g]).canonical@ == x;
            assert(names[g] == x);
        }
    }
    names.unique_seq_to_set();
}

/// Deduplication is determined by what is deduplicated. Two groupings of raw
/// products that hold the same canonical strings equally often, in whatever
/// order, have the same number of groups, and each group of the first has a
/// partner in the second with the same canonical string and the same count.
/// Where the raw products also come in the same order, the partner has the
/// same representative: grouping the same results again changes nothing.
pub proof fn lemma_grouping_determined(
    keys1: Seq<Seq<char>>,
    keys2: Seq<Seq<char>>,
    first: Seq<ProductGroup>,
    second: Seq<ProductGroup>,
)
    requires
        is_grouping(keys1, first),
        is_grouping(keys2, second),
        keys1.to_multiset() == keys2.to_multiset(),
    ensures
        first.len() == second.len(),
        forall|g: int| 0 <= g < first.len() ==> has_partner(second, #[trigger] first[g], keys1 == keys2),
{
    broadcast use vstd::seq_lib::group_to_multiset_ensures;

    assert(keys1.to_set() =~= keys2.to_set()) by {
        assert forall|x: Seq<char>| keys1.to_set().contains(x) == keys2.to_set().contains(x) by {
            assert(keys1.contains(x) <==> keys1.to_multiset().count(x) > 0);
            assert(keys2.contains(x) <==> keys2.to_multiset().count(x) > 0);
        }
    }
    lemma_group_count(keys1, first);
    lemma_group_count(keys2, second);
    assert forall|g: int| 0 <= g < first.len() implies has_partner(
        second,
        #[trigger] first[g],
        keys1 == keys2,
    ) by {
        let key = first[g].canonical@;
        let at = first[g].representative as int;
        assert(keys1[at] == key);
        assert(keys1.contains(key));
        assert(keys2.to_multiset().count(key) > 0);
        assert(keys2.contains(key));
        let i = choose|i: int| 0 <= i < keys2.len() && keys2[i] == key;
        assert(has_group(second, keys2[i]));
        let h = choose|h: int| 0 <= h < second.len() && (#[trigger] second[h]).canonical@ == key;
        if keys1 == keys2 {
            let other = second[h].representative as int;
            if other < at {
                assert(keys1[other] != key);
            } else if at < other {
                assert(keys2[at] != key);
            }
        }
    }
}

/// The positions at which one key stands in a list of keys.
#[derive(Debug)]
pub struct KeyGroup {
    pub key: String,
    pub positions: Vec<usize>,
}

/// For each position, whether the key there is `key`.
pub open spec fn key_flags(keys: Seq<Seq<char>>, key: Seq<char>) -> Seq<bool> {
    keys.map_values(|k: Seq<char>| k == key)
}

/// One of `groups` is the group of `key`.
pub open spec fn has_key_group(groups: Seq<KeyGroup>, key: Seq<char>) -> bool {
    exists|g: int| 0 <= g < groups.len() && (#[trigger] groups[g]).key@ == key
}

/// `groups` sorts the positions of `keys` by key: one group for each
/// distinct key, holding all positions of that key in rising order.
pub open spec fn is_key_grouping(keys: Seq<Seq<char>>, groups: Seq<KeyGroup>) -> bool {
    &&& forall|g: int|
        0 <= g < groups.len() ==> is_selection(
            (#[trigger] groups[g]).positions@,
            keys.len() as int,
            key_flags(keys, groups[g].key@),
        ) && groups[g].positions@.len() > 0 && groups[g].positions@.len() == occurrences(
            keys,
            groups[g].key@,
        )
    &&& forall|g: int, h: int|
        0 <= g < h < groups.len() ==> (#[trigger] groups[g]).key@ != (#[trigger] groups[h]).key@
    &&& forall|i: int| 0 <= i < keys.len() ==> has_key_group(groups, #[trigger] keys[i])
}

/// The positions of `keys` sorted by key. The order of the groups is left
/// open; within a group the positions rise.
pub fn group_positions(keys: &Vec<String>) -> (groups: Vec<KeyGroup>)
    ensures
        is_key_grouping(views(keys@), groups@),
{
    let ghost ks = views(keys@);
    let mut pairs: Vec<(String, usize)> = Vec::new();
    let n = keys.len();
    let mut i: usize = 0;
    while i < n
        invariant
            n == keys@.len(),
            ks == views(keys@),
            0 <= i <= n,
            is_indexed(ks.take(i as int), pairs@),
        decreases n - i,
    {
        pairs.push((keys[i].clone(), i));
        i = i + 1;
    }
    assert(ks.take(n as int) == ks);
    let ghost indexed = pairs@;
    let entries = group_pairs(pairs);
    let mut groups: Vec<KeyGroup> = Vec::new();
    let m = entries.len();
    let mut g: usize = 0;
    while g < m
        invariant
            m == entries@.len(),
            0 <= g <= m,
            ks.len() == n,
            is_indexed(ks, indexed),
            is_group_map(indexed, entries@),
            groups@.len() == g,
            forall|k: int|
                0 <= k < g ==> (#[trigger] groups@[k]).key@ == entries@[k].0@ && is_selection(
                    groups@[k].positions@,
                    ks.len() as int,
                    key_flags(ks, groups@[k].key@),
                ) && groups@[k].positions@.len() > 0 && groups@[k].positions@.len() == occurrences(
                    ks,
                    groups@[k].key@,
                ),
        decreases m - g,
    {
        let entry = &entries[g];
        let mut positions: Vec<usize> = Vec::new();
        let count = entry.1.len();
        let mut k: usize = 0;
        while k < count
            invariant
                count == entry.1@.len(),
                0 <= k <= count,
                positions@ == entry.1@.take(k as int),
            decreases count - k,
        {
            positions.push(entry.1[k]);
            assert(entry.1@.take(k + 1) =~= entry.1@.take(k as int).push(entry.1@[k as int]));
            k = k + 1;
        }
        proof {
            assert(entry.1@.take(count as int) == entry.1@);
            lemma_positions_of_key(ks, indexed, entry.0@);
            let found = values_of(indexed, entry.0@);
            assert(positions@ == found);
            let flags = key_flags(ks, entry.0@);
            assert forall|i: int| 0 <= i < ks.len() && #[trigger] flags[i] implies found.contains(
                i as usize,
            ) by {
                assert(ks[i] == entry.0@);
            }
        }
        groups.push(KeyGroup { key: entry.0.clone(), positions });
        g = g + 1;
    }
    proof {
        assert forall|a: int, b: int| 0 <= a < b < groups@.len() implies (#[trigger] groups@[a]).key@
            != (#[trigger] groups@[b]).key@ by {
            assert(entries@[a].0@ != entries@[b].0@);
        }
        assert forall|i: int| 0 <= i < ks.len() implies has_key_group(groups@, #[trigger] ks[i]) by {
            assert(has_entry(entries@, indexed[i].0@));
            let a = choose|a: int|
                0 <= a < entries@.len() && (#[trigger] entries@[a]).0@ == indexed[i].0@;
            assert(groups@[a].key@ == ks[i]);
        }
    }
    groups
}

/// In a selection by key, the first position selected is the first at which
/// the key stands.
pub proof fn lemma_first_selected(keys: Seq<Seq<char>>, key: Seq<char>, positions: Seq<usize>)
    requires
        keys.len() <= usize::MAX,
        positions.len() > 0,
        is_selection(positions, keys.len() as int, key_flags(keys, key)),
    ensures
        is_first_occurrence(keys, key, positions[0] as int),
{
    let flags = key_flags(keys, key);
    assert(flags[positions[0] as int]);
    assert forall|j: int| 0 <= j < positions[0] implies keys[j] != key by {
        if keys[j] == key {
            assert(flags[j]);
            assert(positions.contains(j as usize));
            let k = choose|k: int| 0 <= k < positions.len() && positions[k] == j as usize;
            assert(k == 0 || positions[0] < positions[k]);
        }
    }
}

/// The raw products grouped by canonical string. Each group stands for one
/// distinct string, names the first raw product that carries it and counts
/// how many do. The order of the groups is left open.
pub fn group_by_canonical(raw: &Vec<RawProduct>) -> (groups: Vec<ProductGroup>)
    ensures
        is_grouping(keys(raw@), groups@),
{
    let ghost ks = keys(raw@);
    let mut names: Vec<String> = Vec::new();
    let n = raw.len();
    let mut i: usize = 0;
    while i < n
        invariant
            n == raw@.len(),
            ks == keys(raw@),
            0 <= i <= n,
            views(names@) == ks.take(i as int),
        decreases n - i,
    {
        let ghost before = views(names@);
        names.push(raw[i].canonical.clone());
        proof {
            assert(views(names@) =~= before.push(raw@[i as int].canonical@));
            assert(ks[i as int] == raw@[i as int].canonical@);
            assert(ks.take(i + 1) =~= ks.take(i as int).push(ks[i as int]));
        }
        i = i + 1;
    }
    assert(ks.take(n as int) == ks);
    let sorted = group_positions(&names);
    let mut groups: Vec<ProductGroup> = Vec::new();
    let m = sorted.len();
    let mut g: usize = 0;
    while g < m
        invariant
            m == sorted@.len(),
            0 <= g <= m,
            ks.len() == n,
            is_key_grouping(ks, sorted@),
            groups@.len() == g,
            forall|k: int|
                0 <= k < g ==> (#[trigger] groups@[k]).canonical@ == sorted@[k].key@
                    && is_first_occurrence(ks, groups@[k].canonical@, groups@[k].representative as int)
                    && groups@[k].dup_count == occurrences(ks, groups@[k].canonical@),
        decreases m - g,
    {
        let group = &sorted[g];
        proof {
            lemma_first_selected(ks, group.key@, group.positions@);
        }
        groups.push(
            ProductGroup {
                canonical: group.key.clone(),
                representative: group.positions[0],
                dup_count: group.positions.len(),
            },
        );
        g = g + 1;
    }
    proof {
        assert forall|a: int, b: int| 0 <= a < b < groups@.len() implies (#[trigger] groups@[a]).canonical@
            != (#[trigger] groups@[b]).canonical@ by {
            assert(sorted@[a].key@ != sorted@[b].key@);
        }
        assert forall|i: int| 0 <= i < ks.len() implies has_group(groups@, #[trigger] ks[i]) by {
            assert(has_key_group(sorted@, ks[i]));
            let a = choose|a: int| 0 <= a < sorted@.len() && (#[trigger] sorted@[a]).key@ == ks[i];
            assert(groups@[a].canonical@ == ks[i]);
        }
    }
    groups
}

} // verus!
