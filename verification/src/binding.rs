//! Fragment binding: at which reactant slots of a reaction a scaffold
//! fragment takes part, and with which of its atoms.

use crate::adapters::contains_atom;
use crate::matching::BuildingBlockReactantBinding;
use crate::select::{is_selection, lemma_selection_step};
use vstd::prelude::*;

verus! {

/// One correspondence of a substructure embedding: an atom of the slot's
/// query structure and the atom of the fragment that it was laid on.
#[derive(Clone, Copy, Debug, PartialEq, Eq, Structural)]
pub struct AtomPair {
    pub query: i32,
    pub target: i32,
}

/// A fragment bound to one reactant slot of one reaction, with the fragment
/// atoms that the slot's query covers.
#[derive(Debug)]
pub struct FragmentReactantBinding {
    pub frag: i64,
    pub reaction: i64,
    pub slot: usize,
    pub atoms: Vec<i32>,
}

/// The fragment atoms that an embedding covers, in the order of its pairs.
pub open spec fn targets(embedding: Seq<AtomPair>) -> Seq<i32> {
    embedding.map_values(|p: AtomPair| p.target)
}

/// The embedding covers at least one annotated atom.
pub open spec fn covers(embedding: Seq<AtomPair>, annotated: Seq<i32>) -> bool {
    exists|p: int| 0 <= p < embedding.len() && annotated.contains((#[trigger] embedding[p]).target)
}

/// `e` is the first embedding that covers an annotated atom.
pub open spec fn is_first_covering(
    embeddings: Seq<Vec<AtomPair>>,
    annotated: Seq<i32>,
    e: int,
) -> bool {
    &&& 0 <= e < embeddings.len()
    &&& covers(embeddings[e]@, annotated)
    &&& forall|d: int| 0 <= d < e ==> !covers((#[trigger] embeddings[d])@, annotated)
}

/// Some embedding of the slot covers an annotated atom.
pub open spec fn slot_binds(embeddings: Seq<Vec<AtomPair>>, annotated: Seq<i32>) -> bool {
    exists|e: int| 0 <= e < embeddings.len() && covers((#[trigger] embeddings[e])@, annotated)
}

/// `atoms` are the fragment atoms of the first embedding that covers an
/// annotated atom.
pub open spec fn is_slot_mapping(
    embeddings: Seq<Vec<AtomPair>>,
    annotated: Seq<i32>,
    atoms: Seq<i32>,
) -> bool {
    exists|e: int|
        is_first_covering(embeddings, annotated, e) && atoms == targets((#[trigger] embeddings[e])@)
}

/// For each slot, whether the fragment binds to it.
pub open spec fn binding_flags(slots: Seq<Vec<Vec<AtomPair>>>, annotated: Seq<i32>) -> Seq<bool> {
    Seq::new(slots.len(), |s: int| slot_binds(slots[s]@, annotated))
}

/// The slots of a list of bindings, in order.
pub open spec fn bound_slots(bindings: Seq<FragmentReactantBinding>) -> Seq<usize> {
    bindings.map_values(|b: FragmentReactantBinding| b.slot)
}

/// `bindings` binds the fragment to exactly the slots it binds to, in rising
/// order, each with the atoms of the slot's first covering embedding.
pub open spec fn is_fragment_binding(
    frag: i64,
    reaction: i64,
    slots: Seq<Vec<Vec<AtomPair>>>,
    annotated: Seq<i32>,
    bindings: Seq<FragmentReactantBinding>,
) -> bool {
    &&& is_selection(bound_slots(bindings), slots.len() as int, binding_flags(slots, annotated))
    &&& forall|k: int|
        0 <= k < bindings.len() ==> (#[trigger] bindings[k]).frag == frag && bindings[k].reaction
            == reaction && is_slot_mapping(
            slots[bindings[k].slot as int]@,
            annotated,
            bindings[k].atoms@,
        )
}

/// For each atom of a fragment of `atom_count` atoms, whether it is to be
/// protected: it is none of the reacting atoms.
pub open spec fn protection_flags(atom_count: nat, reacting: Seq<Option<i32>>) -> Seq<bool> {
    Seq::new(atom_count, |a: int| !(a <= i32::MAX && reacting.contains(Some(a as i32))))
}

/// For each binding, whether it is a candidate for `reaction` next to a
/// fragment at `frag_slot`: it is of that reaction and of another slot.
pub open spec fn candidate_flags(
    bindings: Seq<BuildingBlockReactantBinding>,
    reaction: i64,
    frag_slot: usize,
) -> Seq<bool> {
    bindings.map_values(
        |b: BuildingBlockReactantBinding| b.reaction == reaction && b.slot != frag_slot,
    )
}

/// Whether the embedding covers an annotated atom.
pub fn covers_annotated(embedding: &Vec<AtomPair>, annotated: &Vec<i32>) -> (found: bool)
    ensures
        found == covers(embedding@, annotated@),
{
    let n = embedding.len();
    let mut p: usize = 0;
    while p < n
        invariant
            n == embedding@.len(),
            0 <= p <= n,
            forall|q: int| 0 <= q < p ==> !annotated@.contains((#[trigger] embedding@[q]).target),
        decreases n - p,
    {
        if contains_atom(annotated, embedding[p].target) {
            return true;
        }
        p = p + 1;
    }
    false
}

/// The fragment atoms that the embedding covers.
pub fn mapped_atoms(embedding: &Vec<AtomPair>) -> (atoms: Vec<i32>)
    ensures
        atoms@ == targets(embedding@),
{
    let mut atoms: Vec<i32> = Vec::new();
    let n = embedding.len();
    let mut p: usize = 0;
    while p < n
        invariant
            n == embedding@.len(),
            0 <= p <= n,
            atoms@ == targets(embedding@.take(p as int)),
        decreases n - p,
    {
        atoms.push(embedding[p].target);
        assert(targets(embedding@.take(p + 1)) =~= targets(embedding@.take(p as int)).push(
            embedding@[p as int].target,
        ));
        p = p + 1;
    }
    assert(embedding@.take(n as int) == embedding@);
    atoms
}

/// The atoms with which the fragment takes the place of a slot, given the
/// embeddings of the fragment into the slot's query: those of the first
/// embedding that covers an annotated atom. Nothing where no embedding does.
pub fn bind_slot(embeddings: &Vec<Vec<AtomPair>>, annotated: &Vec<i32>) -> (atoms: Option<Vec<i32>>)
    ensures
        atoms.is_some() <==> slot_binds(embeddings@, annotated@),
        atoms matches Some(a) ==> is_slot_mapping(embeddings@, annotated@, a@),
{
    let n = embeddings.len();
    let mut e: usize = 0;
    while e < n
        invariant
            n == embeddings@.len(),
            0 <= e <= n,
            forall|d: int| 0 <= d < e ==> !covers((#[trigger] embeddings@[d])@, annotated@),
        decreases n - e,
    {
        if covers_annotated(&embeddings[e], annotated) {
            let atoms = mapped_atoms(&embeddings[e]);
            assert(is_first_covering(embeddings@, annotated@, e as int));
            return Some(atoms);
        }
        e = e + 1;
    }
    None
}

/// The bindings of a fragment to one reaction, given for each reactant slot
/// the embeddings of the fragment into its query (none where the fragment
/// does not match the slot): one binding for each slot with an embedding
/// that covers an annotated atom, in slot order.
pub fn bind_fragment(
    frag: i64,
    reaction: i64,
    slots: &Vec<Vec<Vec<AtomPair>>>,
    annotated: &Vec<i32>,
) -> (bindings: Vec<FragmentReactantBinding>)
    ensures
        is_fragment_binding(frag, reaction, slots@, annotated@, bindings@),
        bindings@.len() > 0 <==> spec_compatible(slots@, annotated@),
{
    let mut bindings: Vec<FragmentReactantBinding> = Vec::new();
    let n = slots.len();
    let ghost flags = binding_flags(slots@, annotated@);
    let mut s: usize = 0;
    while s < n
        invariant
            n == slots@.len(),
            flags == binding_flags(slots@, annotated@),
            0 <= s <= n,
            is_selection(bound_slots(bindings@), s as int, flags),
            forall|k: int|
                0 <= k < bindings@.len() ==> (#[trigger] bindings@[k]).frag == frag
                    && bindings@[k].reaction == reaction && is_slot_mapping(
                    slots@[bindings@[k].slot as int]@,
                    annotated@,
                    bindings@[k].atoms@,
                ),
        decreases n - s,
    {
        proof {
            lemma_selection_step(bound_slots(bindings@), s as int, flags);
        }
        match bind_slot(&slots[s], annotated) {
            Some(atoms) => {
                let ghost before = bound_slots(bindings@);
                bindings.push(FragmentReactantBinding { frag, reaction, slot: s, atoms });
                assert(bound_slots(bindings@) =~= before.push(s));
            },
            None => {},
        }
        s = s + 1;
    }
    proof {
        if bindings@.len() > 0 {
            assert(bound_slots(bindings@)[0] == bindings@[0].slot);
            assert(flags[bindings@[0].slot as int]);
        }
        if spec_compatible(slots@, annotated@) {
            let w = choose|w: int| 0 <= w < slots@.len() && slot_binds((#[trigger] slots@[w])@, annotated@);
            assert(flags[w]);
            assert(bound_slots(bindings@).contains(w as usize));
        }
    }
    bindings
}

/// The fragment binds to some slot of the reaction.
pub open spec fn spec_compatible(slots: Seq<Vec<Vec<AtomPair>>>, annotated: Seq<i32>) -> bool {
    exists|s: int| 0 <= s < slots.len() && slot_binds((#[trigger] slots[s])@, annotated)
}

/// Whether a reaction is compatible with a fragment: some embedding of the
/// fragment into some reactant slot covers an annotated atom.
pub fn is_compatible(slots: &Vec<Vec<Vec<AtomPair>>>, annotated: &Vec<i32>) -> (compatible: bool)
    ensures
        compatible == spec_compatible(slots@, annotated@),
{
    let n = slots.len();
    let mut s: usize = 0;
    while s < n
        invariant
            n == slots@.len(),
            0 <= s <= n,
            forall|t: int| 0 <= t < s ==> !slot_binds((#[trigger] slots@[t])@, annotated@),
        decreases n - s,
    {
        let embeddings = &slots[s];
        let m = embeddings.len();
        let mut e: usize = 0;
        while e < m
            invariant
                m == embeddings@.len(),
                s < slots@.len(),
                embeddings@ == slots@[s as int]@,
                0 <= e <= m,
                forall|d: int| 0 <= d < e ==> !covers((#[trigger] embeddings@[d])@, annotated@),
            decreases m - e,
        {
            if covers_annotated(&embeddings[e], annotated) {
                assert(slot_binds(slots@[s as int]@, annotated@));
                return true;
            }
            e = e + 1;
        }
        s = s + 1;
    }
    false
}

/// Whether `atom` is one of the reacting atoms.
pub fn is_reacting(reacting: &Vec<Option<i32>>, atom: usize) -> (found: bool)
    ensures
        found == (atom <= i32::MAX && reacting@.contains(Some(atom as i32))),
{
    if atom > 2147483647 {
        return false;
    }
    let wanted = atom as i32;
    let n = reacting.len();
    let mut i: usize = 0;
    while i < n
        invariant
            n == reacting@.len(),
            0 <= i <= n,
            wanted == atom,
            forall|j: int| 0 <= j < i ==> reacting@[j] != Some(wanted),
        decreases n - i,
    {
        match reacting[i] {
            Some(a) => {
                if a == wanted {
                    return true;
                }
            },
            None => {},
        }
        i = i + 1;
    }
    false
}

/// The atoms of a fragment to protect before a reaction runs: of its
/// `atom_count` atoms, all that are not among the reacting atoms of its
/// binding, in rising order.
pub fn protected_atoms(atom_count: usize, reacting: &Vec<Option<i32>>) -> (atoms: Vec<usize>)
    ensures
        is_selection(atoms@, atom_count as int, protection_flags(atom_count as nat, reacting@)),
{
    let mut atoms: Vec<usize> = Vec::new();
    let ghost flags = protection_flags(atom_count as nat, reacting@);
    let mut a: usize = 0;
    while a < atom_count
        invariant
            0 <= a <= atom_count,
            flags == protection_flags(atom_count as nat, reacting@),
            is_selection(atoms@, a as int, flags),
        decreases atom_count - a,
    {
        proof {
            lemma_selection_step(atoms@, a as int, flags);
        }
        if !is_reacting(reacting, a) {
            atoms.push(a);
        }
        a = a + 1;
    }
    atoms
}

/// The building-block bindings to pair with a fragment in `reaction`: the
/// positions, in rising order, of the bindings of that reaction whose slot is
/// not the one the fragment takes.
pub fn compatible_candidates(
    bindings: &Vec<BuildingBlockReactantBinding>,
    reaction: i64,
    frag_slot: usize,
) -> (candidates: Vec<usize>)
    ensures
        is_selection(
            candidates@,
            bindings@.len() as int,
            candidate_flags(bindings@, reaction, frag_slot),
        ),
{
    let mut candidates: Vec<usize> = Vec::new();
    let ghost flags = candidate_flags(bindings@, reaction, frag_slot);
    let n = bindings.len();
    let mut i: usize = 0;
    while i < n
        invariant
            n == bindings@.len(),
            0 <= i <= n,
            flags == candidate_flags(bindings@, reaction, frag_slot),
            is_selection(candidates@, i as int, flags),
        decreases n - i,
    {
        proof {
            lemma_selection_step(candidates@, i as int, flags);
        }
        if bindings[i].reaction == reaction && bindings[i].slot != frag_slot {
            candidates.push(i);
        }
        i = i + 1;
    }
    candidates
}

} // verus!
