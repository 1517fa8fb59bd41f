//! Labels of products in drawings: names cut to a length that fits.

use crate::adapters::{grapheme_clusters, graphemes_of, views};
use crate::select::{is_selection, lemma_selection_step};
use vstd::prelude::*;
use vstd::string::StringExecFns;

verus! {

/// A name of more clusters than this is cut.
pub const LABEL_LIMIT: usize = 50;

/// The clusters that are left of a name that is cut.
pub const LABEL_KEPT: usize = 47;

/// The texts of `parts`, one after another.
pub open spec fn spec_concat(parts: Seq<Seq<char>>) -> Seq<char>
    decreases parts.len(),
{
    if parts.len() == 0 {
        Seq::empty()
    } else {
        spec_concat(parts.drop_last()) + parts.last()
    }
}

/// The label for `name`, which `clusters` cuts into clusters: the name itself
/// where it has no more than `LABEL_LIMIT` clusters, else its first
/// `LABEL_KEPT` clusters followed by three dots.
pub open spec fn spec_shorten(name: Seq<char>, clusters: Seq<Seq<char>>) -> Seq<char> {
    if clusters.len() > LABEL_LIMIT {
        spec_concat(clusters.take(LABEL_KEPT as int)) + seq!['.', '.', '.']
    } else {
        name
    }
}

/// For each product, whether it is of `reaction`.
pub open spec fn reaction_flags(reactions: Seq<i64>, reaction: i64) -> Seq<bool> {
    reactions.map_values(|r: i64| r == reaction)
}

/// The label for `name`, given the clusters that it is made of.
pub fn shorten_with(name: &str, clusters: &Vec<String>) -> (label: String)
    ensures
        label@ == spec_shorten(name@, views(clusters@)),
{
    if clusters.len() > LABEL_LIMIT {
        let mut label = String::new();
        let mut i: usize = 0;
        assert(views(clusters@).take(0) =~= Seq::<Seq<char>>::empty());
        while i < LABEL_KEPT
            invariant
                clusters@.len() > LABEL_LIMIT,
                0 <= i <= LABEL_KEPT,
                label@ == spec_concat(views(clusters@).take(i as int)),
            decreases LABEL_KEPT - i,
        {
            let ghost upto = views(clusters@).take(i + 1);
            assert(upto.drop_last() == views(clusters@).take(i as int));
            assert(upto.last() == clusters@[i as int]@);
            label.append(clusters[i].as_str());
            i = i + 1;
        }
        proof {
            reveal_strlit("...");
            assert("..."@ =~= seq!['.', '.', '.']);
        }
        label.append("...");
        label
    } else {
        String::from_str(name)
    }
}

/// The label under which a product is drawn: its name, cut to its first
/// `LABEL_KEPT` grapheme clusters and three dots where it has more than
/// `LABEL_LIMIT` of them.
pub fn shorten_label(name: &str) -> (label: String)
    ensures
        label@ == spec_shorten(name@, grapheme_clusters(name@)),
{
    let clusters = graphemes_of(name);
    shorten_with(name, &clusters)
}

/// The products of `reaction` to draw: the positions of the first `limit`
/// products of that reaction, in rising order.
pub fn reaction_subset(reactions: &Vec<i64>, reaction: i64, limit: usize) -> (picked: Vec<usize>)
    ensures
        picked@.len() <= limit,
        exists|n: int|
            0 <= n <= reactions@.len() && is_selection(
                picked@,
                n,
                reaction_flags(reactions@, reaction),
            ) && (picked@.len() == limit || n == reactions@.len()),
{
    let mut picked: Vec<usize> = Vec::new();
    let ghost flags = reaction_flags(reactions@, reaction);
    let n = reactions.len();
    let mut i: usize = 0;
    while i < n && picked.len() < limit
        invariant
            n == reactions@.len(),
            0 <= i <= n,
            flags == reaction_flags(reactions@, reaction),
            picked@.len() <= limit,
            is_selection(picked@, i as int, flags),
        decreases n - i,
    {
        proof {
            lemma_selection_step(picked@, i as int, flags);
        }
        if reactions[i] == reaction {
            picked.push(i);
        }
        i = i + 1;
    }
    picked
}

} // verus!
