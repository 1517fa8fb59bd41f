//! Contracts for the calls this library makes into other crates and into the
//! parts of the standard library that carry no specification of their own.
//! Nothing in this file is proved: each contract restates what the called
//! function documents.

use itertools::Itertools;
use itertools::MinMaxResult;
use unicode_segmentation::UnicodeSegmentation;
use vstd::prelude::*;

verus! {

/// The views of a sequence of strings.
pub open spec fn views(words: Seq<String>) -> Seq<Seq<char>> {
    words.map_values(|w: String| w@)
}

/// `words` written one after another with `sep` between each two neighbours.
pub open spec fn spec_join(words: Seq<Seq<char>>, sep: Seq<char>) -> Seq<char>
    decreases words.len(),
{
    if words.len() == 0 {
        Seq::empty()
    } else if words.len() == 1 {
        words[0]
    } else {
        spec_join(words.drop_last(), sep) + sep + words.last()
    }
}

/// The values of the pairs whose key reads `key`, in the order of the pairs.
pub open spec fn values_of(pairs: Seq<(String, usize)>, key: Seq<char>) -> Seq<usize>
    decreases pairs.len(),
{
    if pairs.len() == 0 {
        Seq::empty()
    } else if pairs.last().0@ == key {
        values_of(pairs.drop_last(), key).push(pairs.last().1)
    } else {
        values_of(pairs.drop_last(), key)
    }
}

/// One of the entries of `groups` has a key that reads `key`.
pub open spec fn has_entry(groups: Seq<(String, Vec<usize>)>, key: Seq<char>) -> bool {
    exists|g: int| 0 <= g < groups.len() && (#[trigger] groups[g]).0@ == key
}

/// `groups` holds one entry for each key that occurs in `pairs`, and with it
/// the values of that key in the order of the pairs. The order of the entries
/// is left open.
pub open spec fn is_group_map(
    pairs: Seq<(String, usize)>,
    groups: Seq<(String, Vec<usize>)>,
) -> bool {
    &&& forall|g: int|
        0 <= g < groups.len() ==> (#[trigger] groups[g]).1@ == values_of(pairs, groups[g].0@)
            && groups[g].1@.len() > 0
    &&& forall|g: int, h: int|
        0 <= g < h < groups.len() ==> (#[trigger] groups[g]).0@ != (#[trigger] groups[h]).0@
    &&& forall|i: int| 0 <= i < pairs.len() ==> has_entry(groups, (#[trigger] pairs[i]).0@)
}

/// The extended grapheme clusters of a text, in order, as the Unicode text
/// segmentation rules cut it.
pub uninterp spec fn grapheme_clusters(text: Seq<char>) -> Seq<Seq<char>>;

/// `Itertools::join` on the strings of a vector: the elements in order, each
/// written as it is, with `sep` between neighbours and nothing at either end.
#[verifier::external_body]
pub(crate) fn join_words(words: &Vec<String>, sep: &str) -> (joined: String)
    ensures
        joined@ == spec_join(views(words@), sep@),
{
    words.iter().join(sep)
}

/// `Itertools::exactly_one`: the only element where there is exactly one,
/// nothing where there are none or several.
#[verifier::external_body]
pub(crate) fn exactly_one(items: Vec<usize>) -> (only: Option<usize>)
    ensures
        items@.len() == 1 ==> only == Some(items@[0]),
        items@.len() != 1 ==> only.is_none(),
{
    items.into_iter().exactly_one().ok()
}

/// `Itertools::contains` on the elements of a vector: whether one of them
/// equals `atom`.
#[verifier::external_body]
pub(crate) fn contains_atom(atoms: &Vec<i32>, atom: i32) -> (found: bool)
    ensures
        found == atoms@.contains(atom),
{
    atoms.iter().contains(&atom)
}

/// `Itertools::into_group_map`, with the map handed back as a vector of its
/// entries: each key once, with the values that came with it, in the order in
/// which they came. The entries come in whatever order the map is walked.
#[verifier::external_body]
pub(crate) fn group_pairs(pairs: Vec<(String, usize)>) -> (groups: Vec<(String, Vec<usize>)>)
    ensures
        is_group_map(pairs@, groups@),
{
    pairs.into_iter().into_group_map().into_iter().collect()
}

/// `Itertools::unique` followed by `count`: how many different strings the
/// vector holds.
#[verifier::external_body]
pub(crate) fn count_unique(words: &Vec<String>) -> (count: usize)
    ensures
        count == views(words@).to_set().len(),
{
    words.iter().unique().count()
}

/// `Itertools::minmax` on the elements of a vector: nothing where it is empty,
/// else the least and the greatest element.
#[verifier::external_body]
pub(crate) fn min_max(values: &Vec<i64>) -> (ends: Option<(i64, i64)>)
    ensures
        ends.is_none() <==> values@.len() == 0,
        ends matches Some((low, high)) ==> values@.contains(low) && values@.contains(high)
            && forall|i: int| 0 <= i < values@.len() ==> low <= #[trigger] values@[i] <= high,
{
    match values.iter().minmax() {
        MinMaxResult::NoElements => None,
        MinMaxResult::OneElement(only) => Some((*only, *only)),
        MinMaxResult::MinMax(low, high) => Some((*low, *high)),
    }
}

/// `UnicodeSegmentation::graphemes` for extended clusters, each cluster as a
/// string of its own.
#[verifier::external_body]
pub(crate) fn graphemes_of(text: &str) -> (clusters: Vec<String>)
    ensures
        views(clusters@) == grapheme_clusters(text@),
{
    text.graphemes(true).map(String::from).collect()
}

/// `str::strip_prefix`: what follows `prefix` where `text` starts with it,
/// and nothing where it does not.
#[verifier::external_body]
pub(crate) fn strip_prefix(text: &str, prefix: &str) -> (rest: Option<String>)
    ensures
        rest.is_some() <==> prefix@.is_prefix_of(text@),
        rest matches Some(r) ==> r@ == text@.skip(prefix@.len() as int),
{
    text.strip_prefix(prefix).map(String::from)
}

/// `String::push`: the string with `c` added at its end.
#[verifier::external_body]
pub(crate) fn push_char(s: &mut String, c: char)
    ensures
        final(s)@ == old(s)@.push(c),
{
    s.push(c)
}

} // verus!
