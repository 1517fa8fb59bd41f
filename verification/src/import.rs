//! Inventory refresh: from the compounds of the providers to building blocks.

use crate::adapters::{count_unique, strip_prefix, views};
use crate::batch::spec_min;
use crate::dedup::{group_positions, has_key_group, is_key_grouping, key_flags, KeyGroup};
use crate::select::is_selection;
use vstd::prelude::*;
use vstd::string::StringExecFns;

verus! {

/// Where a compound comes from.
#[derive(Clone, Copy, Debug, PartialEq, Eq, Structural)]
pub enum Provider {
    Enamine,
    Molport,
}

/// Why the compounds filed under one identifier are left out.
#[derive(Clone, Copy, Debug, PartialEq, Eq, Structural)]
pub enum IdentifierError {
    /// No structure is filed under the identifier.
    MissingSmiles,
    /// This many different structures are filed under the identifier.
    Conflicting(usize),
}

/// The first of `candidates` that is there and not empty.
pub open spec fn is_first_filled(candidates: Seq<Option<String>>, i: int) -> bool {
    &&& 0 <= i < candidates.len()
    &&& candidates[i] matches Some(s) && s@.len() > 0
    &&& forall|j: int|
        0 <= j < i ==> !((#[trigger] candidates[j]) matches Some(s) && s@.len() > 0)
}

/// None of `candidates` is there and not empty.
pub open spec fn none_filled(candidates: Seq<Option<String>>) -> bool {
    forall|j: int|
        0 <= j < candidates.len() ==> !((#[trigger] candidates[j]) matches Some(s) && s@.len() > 0)
}

/// The number of different strings among `words`.
pub open spec fn distinct(words: Seq<Seq<char>>) -> nat {
    words.to_set().len()
}

/// The identifier of a compound as its provider files it, without the
/// provider's own prefix.
pub open spec fn spec_normalize(provider: Provider, refid: Seq<char>) -> Seq<char> {
    if provider == Provider::Molport && "MolPort-"@.is_prefix_of(refid) {
        refid.skip("MolPort-"@.len() as int)
    } else {
        refid
    }
}

/// The identifier of a compound: the first of the values under which
/// providers give it that is there and not empty.
pub fn pick_refid(candidates: &Vec<Option<String>>) -> (refid: Option<String>)
    ensures
        refid matches Some(r) ==> exists|i: int|
            is_first_filled(candidates@, i) && r@ == (#[trigger] candidates@[i])->0@,
        refid.is_none() ==> none_filled(candidates@),
{
    let n = candidates.len();
    let mut i: usize = 0;
    while i < n
        invariant
            n == candidates@.len(),
            0 <= i <= n,
            forall|j: int|
                0 <= j < i ==> !((#[trigger] candidates@[j]) matches Some(s) && s@.len() > 0),
        decreases n - i,
    {
        match &candidates[i] {
            Some(s) => {
                if !s.as_str().is_empty() {
                    assert(is_first_filled(candidates@, i as int));
                    return Some(s.clone());
                }
            },
            None => {},
        }
        i = i + 1;
    }
    None
}

/// The identifier without the prefix that its provider puts before it: a
/// leading `MolPort-` is taken off the identifiers of that provider.
pub fn normalize_refid(provider: Provider, refid: String) -> (plain: String)
    ensures
        plain@ == spec_normalize(provider, refid@),
{
    match provider {
        Provider::Molport => match strip_prefix(refid.as_str(), "MolPort-") {
            Some(rest) => rest,
            None => refid,
        },
        Provider::Enamine => refid,
    }
}

/// The stored identity of a provider.
pub fn provider_id(provider: Provider, enamine: i64, molport: i64) -> (id: i64)
    ensures
        id == match provider {
            Provider::Enamine => enamine,
            Provider::Molport => molport,
        },
{
    match provider {
        Provider::Enamine => enamine,
        Provider::Molport => molport,
    }
}

/// Decides on the compounds filed under one identifier, given the canonical
/// strings of their structures: where all are the same structure, the first
/// compound stands for them; where there is none, or where they differ, the
/// identifier is left out.
pub fn resolve_identifier(smiles: &Vec<String>) -> (kept: Result<usize, IdentifierError>)
    ensures
        kept matches Ok(first) ==> first == 0 && distinct(views(smiles@)) == 1,
        kept matches Err(IdentifierError::MissingSmiles) ==> smiles@.len() == 0,
        kept matches Err(IdentifierError::Conflicting(n)) ==> n == distinct(views(smiles@)) && n
            >= 2,
{
    let ghost words = views(smiles@);
    proof {
        vstd::seq_lib::seq_to_set_is_finite(words);
        if words.len() <= 1 {
            words.unique_seq_to_set();
        } else {
            assert(words.to_set().contains(words[0]));
            if words.to_set().len() == 0 {
                words.to_set().lemma_len0_is_empty();
            }
        }
    }
    let len = smiles.len();
    let unique_count = if len <= 1 {
        len
    } else {
        count_unique(smiles)
    };
    if unique_count == 0 {
        Err(IdentifierError::MissingSmiles)
    } else if unique_count == 1 {
        Ok(0)
    } else {
        Err(IdentifierError::Conflicting(unique_count))
    }
}

/// One compound of a provider, after standardization.
#[derive(Debug)]
pub struct CompoundEntry {
    pub provider: Provider,
    pub refid: String,
    pub smiles: String,
}

/// The compounds filed under one identifier of one provider, and what was
/// decided of them.
#[derive(Debug)]
pub struct IdentifierGroup {
    /// The positions of the compounds, in rising order.
    pub positions: Vec<usize>,
    /// The position of the compound that stands for all, or why there is none.
    pub verdict: Result<usize, IdentifierError>,
}

/// Two compounds are filed by the same provider under the same identifier.
pub open spec fn same_identity(a: CompoundEntry, b: CompoundEntry) -> bool {
    a.provider == b.provider && a.refid@ == b.refid@
}

/// For each compound, whether it is filed as the compound at `p` is.
pub open spec fn identity_flags(entries: Seq<CompoundEntry>, p: int) -> Seq<bool> {
    entries.map_values(|e: CompoundEntry| same_identity(e, entries[p]))
}

/// The canonical strings of the compounds at `positions`.
pub open spec fn member_smiles(entries: Seq<CompoundEntry>, positions: Seq<usize>) -> Seq<Seq<char>> {
    positions.map_values(|p: usize| entries[p as int].smiles@)
}

/// What is decided of compounds with these canonical strings, the first of
/// which stands at `first`.
pub open spec fn spec_verdict(smiles: Seq<Seq<char>>, first: usize) -> Result<
    usize,
    IdentifierError,
> {
    if smiles.len() == 0 {
        Err(IdentifierError::MissingSmiles)
    } else if distinct(smiles) == 1 {
        Ok(first)
    } else {
        Err(IdentifierError::Conflicting(distinct(smiles) as usize))
    }
}

/// One of `groups` holds position `i`.
pub open spec fn in_some_group(groups: Seq<IdentifierGroup>, i: int) -> bool {
    exists|g: int| 0 <= g < groups.len() && (#[trigger] groups[g]).positions@.contains(i as usize)
}

/// `groups` sorts the compounds by provider and identifier: each group holds
/// all compounds filed as its first one is, with the verdict on them; no two
/// groups are filed alike; every compound is in a group.
pub open spec fn is_identifier_grouping(
    entries: Seq<CompoundEntry>,
    groups: Seq<IdentifierGroup>,
) -> bool {
    &&& forall|g: int|
        0 <= g < groups.len() ==> (#[trigger] groups[g]).positions@.len() > 0 && is_selection(
            groups[g].positions@,
            entries.len() as int,
            identity_flags(entries, groups[g].positions@[0] as int),
        ) && groups[g].verdict == spec_verdict(
            member_smiles(entries, groups[g].positions@),
            groups[g].positions@[0],
        )
    &&& forall|g: int, h: int|
        0 <= g < h < groups.len() ==> !same_identity(
            entries[(#[trigger] groups[g]).positions@[0] as int],
            entries[(#[trigger] groups[h]).positions@[0] as int],
        )
    &&& forall|i: int| 0 <= i < entries.len() ==> #[trigger] in_some_group(groups, i)
}

/// The mark of a provider in a key.
pub open spec fn provider_mark(provider: Provider) -> char {
    match provider {
        Provider::Enamine => 'E',
        Provider::Molport => 'M',
    }
}

/// The key under which a compound is sorted: the mark of its provider, then
/// its identifier.
pub open spec fn spec_identity_key(provider: Provider, refid: Seq<char>) -> Seq<char> {
    seq![provider_mark(provider)] + refid
}

/// Compounds have the same key exactly where they are filed alike.
pub proof fn lemma_identity_key_injective(a: CompoundEntry, b: CompoundEntry)
    ensures
        spec_identity_key(a.provider, a.refid@) == spec_identity_key(b.provider, b.refid@)
            <==> same_identity(a, b),
{
    let ka = spec_identity_key(a.provider, a.refid@);
    let kb = spec_identity_key(b.provider, b.refid@);
    if ka == kb {
        assert(ka[0] == kb[0]);
        assert(ka.skip(1) =~= a.refid@);
        assert(kb.skip(1) =~= b.refid@);
    }
}

/// The key under which a compound is sorted.
pub fn identity_key(provider: Provider, refid: &str) -> (key: String)
    ensures
        key@ == spec_identity_key(provider, refid@),
{
    let mark = match provider {
        Provider::Enamine => "E",
        Provider::Molport => "M",
    };
    proof {
        reveal_strlit("E");
        reveal_strlit("M");
        assert("E"@ =~= seq!['E']);
        assert("M"@ =~= seq!['M']);
    }
    let mut key = String::from_str(mark);
    key.append(refid);
    key
}

/// Every position lies within the compounds.
pub open spec fn positions_in_range(entries: Seq<CompoundEntry>, positions: Seq<usize>) -> bool {
    forall|k: int| 0 <= k < positions.len() ==> (#[trigger] positions[k]) < entries.len()
}

/// The canonical strings of the compounds at `positions`. Nothing where a
/// position lies beyond the compounds.
pub fn smiles_at(entries: &Vec<CompoundEntry>, positions: &Vec<usize>) -> (smiles: Option<
    Vec<String>,
>)
    ensures
        smiles.is_some() <==> positions_in_range(entries@, positions@),
        smiles matches Some(s) ==> views(s@) == member_smiles(entries@, positions@),
{
    let mut smiles: Vec<String> = Vec::new();
    let n = positions.len();
    let mut k: usize = 0;
    while k < n
        invariant
            n == positions@.len(),
            0 <= k <= n,
            forall|j: int| 0 <= j < k ==> (#[trigger] positions@[j]) < entries@.len(),
            views(smiles@) == member_smiles(entries@, positions@.take(k as int)),
        decreases n - k,
    {
        if positions[k] >= entries.len() {
            return None;
        }
        let ghost before = views(smiles@);
        smiles.push(entries[positions[k]].smiles.clone());
        proof {
            assert(views(smiles@) =~= before.push(entries@[positions@[k as int] as int].smiles@));
            assert(positions@.take(k + 1) =~= positions@.take(k as int).push(positions@[k as int]));
            assert(member_smiles(entries@, positions@.take(k + 1)) =~= member_smiles(
                entries@,
                positions@.take(k as int),
            ).push(entries@[positions@[k as int] as int].smiles@));
        }
        k = k + 1;
    }
    assert(positions@.take(n as int) == positions@);
    Some(smiles)
}

/// Sorts the compounds by provider and identifier and decides on each
/// identifier: where all its compounds are the same structure the first of
/// them stands for it, and where they differ it is left out. The order of the
/// groups is left open.
pub fn group_identifiers(entries: &Vec<CompoundEntry>) -> (groups: Vec<IdentifierGroup>)
    ensures
        is_identifier_grouping(entries@, groups@),
{
    let n = entries.len();
    let mut keys: Vec<String> = Vec::new();
    let mut i: usize = 0;
    while i < n
        invariant
            n == entries@.len(),
            0 <= i <= n,
            keys@.len() == i,
            forall|j: int|
                0 <= j < i ==> (#[trigger] keys@[j])@ == spec_identity_key(
                    entries@[j].provider,
                    entries@[j].refid@,
                ),
        decreases n - i,
    {
        keys.push(identity_key(entries[i].provider, entries[i].refid.as_str()));
        i = i + 1;
    }
    let ghost ks = views(keys@);
    let sorted = group_positions(&keys);
    let mut groups: Vec<IdentifierGroup> = Vec::new();
    let m = sorted.len();
    let mut g: usize = 0;
    while g < m
        invariant
            m == sorted@.len(),
            n == entries@.len(),
            ks == views(keys@),
            ks.len() == n,
            forall|j: int|
                0 <= j < n ==> (#[trigger] ks[j]) == spec_identity_key(
                    entries@[j].provider,
                    entries@[j].refid@,
                ),
            is_key_grouping(ks, sorted@),
            0 <= g <= m,
            groups@.len() == g,
            forall|k: int|
                0 <= k < g ==> (#[trigger] groups@[k]).positions@ == sorted@[k].positions@
                    && groups@[k].verdict == spec_verdict(
                    member_smiles(entries@, groups@[k].positions@),
                    groups@[k].positions@[0],
                ),
        decreases m - g,
    {
        let group = &sorted[g];
        let first = group.positions[0];
        let verdict = match smiles_at(entries, &group.positions) {
            Some(smiles) => match resolve_identifier(&smiles) {
                Ok(_) => Ok(first),
                Err(e) => Err(e),
            },
            None => Err(IdentifierError::MissingSmiles),
        };
        let mut positions: Vec<usize> = Vec::new();
        let count = group.positions.len();
        let mut k: usize = 0;
        while k < count
            invariant
                count == group.positions@.len(),
                0 <= k <= count,
                positions@ == group.positions@.take(k as int),
            decreases count - k,
        {
            positions.push(group.positions[k]);
            assert(group.positions@.take(k + 1) =~= group.positions@.take(k as int).push(
                group.positions@[k as int],
            ));
            k = k + 1;
        }
        assert(group.positions@.take(count as int) == group.positions@);
        groups.push(IdentifierGroup { positions, verdict });
        g = g + 1;
    }
    proof {
        assert forall|a: int| 0 <= a < groups@.len() implies is_selection(
            (#[trigger] groups@[a]).positions@,
            entries@.len() as int,
            identity_flags(entries@, groups@[a].positions@[0] as int),
        ) && groups@[a].positions@.len() > 0 by {
            lemma_group_is_identity(entries@, ks, sorted@[a]);
        }
        assert forall|a: int, b: int| 0 <= a < b < groups@.len() implies !same_identity(
            entries@[(#[trigger] groups@[a]).positions@[0] as int],
            entries@[(#[trigger] groups@[b]).positions@[0] as int],
        ) by {
            lemma_group_is_identity(entries@, ks, sorted@[a]);
            lemma_group_is_identity(entries@, ks, sorted@[b]);
            let pa = sorted@[a].positions@[0] as int;
            let pb = sorted@[b].positions@[0] as int;
            assert(ks[pa] == sorted@[a].key@);
            assert(ks[pb] == sorted@[b].key@);
            assert(sorted@[a].key@ != sorted@[b].key@);
            lemma_identity_key_injective(entries@[pa], entries@[pb]);
        }
        assert forall|i: int| 0 <= i < entries@.len() implies #[trigger] in_some_group(
            groups@,
            i,
        ) by {
            assert(has_key_group(sorted@, ks[i]));
            let a = choose|a: int| 0 <= a < sorted@.len() && (#[trigger] sorted@[a]).key@ == ks[i];
            assert(key_flags(ks, sorted@[a].key@)[i]);
            assert(groups@[a].positions@.contains(i as usize));
        }
    }
    groups
}

/// A compound as a provider knows it.
#[derive(Debug)]
pub struct CompoundRef {
    pub provider: Provider,
    pub refid: String,
}

/// A compound to store, with the position of the building block it is a
/// source of.
#[derive(Debug)]
pub struct CompoundRow {
    pub block: usize,
    pub provider: i64,
    pub refid: String,
}

/// The value of a `CompoundRow`.
pub struct CompoundRowView {
    pub block: usize,
    pub provider: i64,
    pub refid: Seq<char>,
}

impl View for CompoundRow {
    type V = CompoundRowView;

    open spec fn view(&self) -> CompoundRowView {
        CompoundRowView { block: self.block, provider: self.provider, refid: self.refid@ }
    }
}

/// The link from a building block to a compound that is a source of it.
#[derive(Clone, Copy, Debug, PartialEq, Eq, Structural)]
pub struct BlockOrigin {
    pub block: i64,
    pub compound: i64,
}

/// The values of a sequence of rows.
pub open spec fn row_views(rows: Seq<CompoundRow>) -> Seq<CompoundRowView> {
    rows.map_values(|r: CompoundRow| r@)
}

/// The rows of the first `k` compounds of the building block at `block`.
pub open spec fn spec_block_rows(
    block: usize,
    refs: Seq<CompoundRef>,
    enamine: i64,
    molport: i64,
    k: int,
) -> Seq<CompoundRowView>
    decreases k,
{
    if k <= 0 {
        Seq::empty()
    } else {
        spec_block_rows(block, refs, enamine, molport, k - 1).push(
            CompoundRowView {
                block,
                provider: match refs[k - 1].provider {
                    Provider::Enamine => enamine,
                    Provider::Molport => molport,
                },
                refid: refs[k - 1].refid@,
            },
        )
    }
}

/// The rows of the compounds of the first `n` building blocks: block by
/// block, and within a block in the order of its compounds.
pub open spec fn spec_compound_rows(
    refs: Seq<Vec<CompoundRef>>,
    enamine: i64,
    molport: i64,
    n: int,
) -> Seq<CompoundRowView>
    decreases n,
{
    if n <= 0 {
        Seq::empty()
    } else {
        spec_compound_rows(refs, enamine, molport, n - 1) + spec_block_rows(
            (n - 1) as usize,
            refs[n - 1]@,
            enamine,
            molport,
            refs[n - 1]@.len() as int,
        )
    }
}

/// Every one of the first `n` rows names a building block below `blocks`.
pub open spec fn rows_in_range(rows: Seq<CompoundRow>, n: int, blocks: int) -> bool {
    forall|i: int| 0 <= i < n ==> (#[trigger] rows[i]).block < blocks
}

/// The compounds to store for a run of building blocks, given the compounds
/// that each block stands for: one row for each compound, with the position
/// of its block and the stored identity of its provider.
pub fn compound_rows(refs: &[Vec<CompoundRef>], enamine: i64, molport: i64) -> (rows: Vec<
    CompoundRow,
>)
    ensures
        row_views(rows@) == spec_compound_rows(refs@, enamine, molport, refs@.len() as int),
{
    let mut rows: Vec<CompoundRow> = Vec::new();
    let n = refs.len();
    let mut b: usize = 0;
    while b < n
        invariant
            n == refs@.len(),
            0 <= b <= n,
            row_views(rows@) == spec_compound_rows(refs@, enamine, molport, b as int),
        decreases n - b,
    {
        let block = &refs[b];
        let count = block.len();
        let ghost before = row_views(rows@);
        let mut k: usize = 0;
        while k < count
            invariant
                count == block@.len(),
                0 <= k <= count,
                row_views(rows@) == before + spec_block_rows(b, block@, enamine, molport, k as int),
            decreases count - k,
        {
            let ghost sofar = row_views(rows@);
            let row = CompoundRow {
                block: b,
                provider: provider_id(block[k].provider, enamine, molport),
                refid: block[k].refid.clone(),
            };
            rows.push(row);
            proof {
                assert(row_views(rows@) =~= sofar.push(row@));
                assert(row_views(rows@) =~= before + spec_block_rows(
                    b,
                    block@,
                    enamine,
                    molport,
                    k + 1,
                ));
            }
            k = k + 1;
        }
        b = b + 1;
    }
    rows
}

/// The origin links of a run of compounds after they were stored: each row
/// paired, in order, with the identity the store gave its compound, as far
/// as both reach, and linked to the stored identity of its building block.
/// Nothing where a row names a building block that `block_ids` does not hold.
pub fn block_origin_links(block_ids: &[i64], rows: &[CompoundRow], compound_ids: &[i64]) -> (links:
    Option<Vec<BlockOrigin>>)
    ensures
        links.is_some() <==> rows_in_range(
            rows@,
            spec_min(rows@.len() as int, compound_ids@.len() as int),
            block_ids@.len() as int,
        ),
        links matches Some(l) ==> l@.len() == spec_min(
            rows@.len() as int,
            compound_ids@.len() as int,
        ) && forall|i: int|
            0 <= i < l@.len() ==> (#[trigger] l@[i]).block == block_ids@[rows@[i].block as int]
                && l@[i].compound == compound_ids@[i],
{
    let mut links: Vec<BlockOrigin> = Vec::new();
    let n = if rows.len() <= compound_ids.len() {
        rows.len()
    } else {
        compound_ids.len()
    };
    let mut i: usize = 0;
    while i < n
        invariant
            n == spec_min(rows@.len() as int, compound_ids@.len() as int),
            0 <= i <= n,
            links@.len() == i,
            rows_in_range(rows@, i as int, block_ids@.len() as int),
            forall|k: int|
                0 <= k < i ==> (#[trigger] links@[k]).block == block_ids@[rows@[k].block as int]
                    && links@[k].compound == compound_ids@[k],
        decreases n - i,
    {
        if rows[i].block >= block_ids.len() {
            return None;
        }
        links.push(BlockOrigin { block: block_ids[rows[i].block], compound: compound_ids[i] });
        i = i + 1;
    }
    Some(links)
}

/// A group of equal keys is a group of compounds that are filed alike.
proof fn lemma_group_is_identity(entries: Seq<CompoundEntry>, ks: Seq<Seq<char>>, group: KeyGroup)
    requires
        ks.len() == entries.len(),
        forall|j: int|
            0 <= j < entries.len() ==> (#[trigger] ks[j]) == spec_identity_key(
                entries[j].provider,
                entries[j].refid@,
            ),
        group.positions@.len() > 0,
        is_selection(group.positions@, ks.len() as int, key_flags(ks, group.key@)),
    ensures
        ks[group.positions@[0] as int] == group.key@,
        is_selection(
            group.positions@,
            entries.len() as int,
            identity_flags(entries, group.positions@[0] as int),
        ),
{
    let p = group.positions@[0] as int;
    assert(key_flags(ks, group.key@)[p]);
    assert(key_flags(ks, group.key@) =~= identity_flags(entries, p)) by {
        assert forall|j: int| 0 <= j < entries.len() implies key_flags(ks, group.key@)[j]
            == identity_flags(entries, p)[j] by {
            lemma_identity_key_injective(entries[j], entries[p]);
            assert(ks[j] == spec_identity_key(entries[j].provider, entries[j].refid@));
        }
    }
}

} // verus!
