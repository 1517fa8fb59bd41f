//! Judging what a reaction transform returned for one pair of reactants.

use crate::dedup::RawProduct;
use crate::error::SkipReason;
use vstd::prelude::*;

verus! {

/// One of the alternative result sets of a transform.
#[derive(Debug)]
pub enum ResultSet {
    /// The set holds no product, or more than one.
    NotSingle,
    /// The set holds one product, which could not be sanitized.
    Unsanitizable,
    /// The set holds one sanitized product, with this canonical string.
    Product(String),
}

/// What takes part in one pair besides the structures: the two bindings and
/// the names under which the building block is known.
#[derive(Debug)]
pub struct PairContext {
    pub frag_binding: i64,
    pub block_binding: i64,
    pub name: String,
    pub fullname: String,
}

/// Set `i` holds a product that differs from one of an earlier set.
pub open spec fn conflicts_at(sets: Seq<ResultSet>, i: int) -> bool {
    &&& sets[i] is Product
    &&& exists|k: int| 0 <= k < i && (#[trigger] sets[k]) is Product && sets[k]->0@ != sets[i]->0@
}

/// Set `i` breaks a rule: it is not a single product, or it conflicts.
pub open spec fn violates_at(sets: Seq<ResultSet>, i: int) -> bool {
    sets[i] is NotSingle || conflicts_at(sets, i)
}

/// `i` is the first set that breaks a rule.
pub open spec fn is_first_violation(sets: Seq<ResultSet>, i: int) -> bool {
    &&& 0 <= i < sets.len()
    &&& violates_at(sets, i)
    &&& forall|j: int| 0 <= j < i ==> !violates_at(sets, j)
}

/// `i` is the first set that holds a sanitized product.
pub open spec fn is_first_product(sets: Seq<ResultSet>, i: int) -> bool {
    &&& 0 <= i < sets.len()
    &&& sets[i] is Product
    &&& forall|j: int| 0 <= j < i ==> !(sets[j] is Product)
}

/// What `judge` owes for `sets`: the first set that breaks a rule decides the
/// rejection; without one, the first sanitized product is accepted; without
/// any product the pair did not react, or nothing could be sanitized.
pub open spec fn is_verdict(sets: Seq<ResultSet>, verdict: Result<usize, SkipReason>) -> bool {
    match verdict {
        Ok(i) => is_first_product(sets, i as int) && forall|j: int|
            0 <= j < sets.len() ==> !violates_at(sets, j),
        Err(SkipReason::ReactionEmptyResult) => exists|i: int|
            is_first_violation(sets, i) && (#[trigger] sets[i]) is NotSingle,
        Err(SkipReason::ReactionNonDeterministic) => exists|i: int|
            is_first_violation(sets, i) && !((#[trigger] sets[i]) is NotSingle),
        Err(SkipReason::NoSubstructureMatch) => sets.len() == 0,
        Err(SkipReason::SanitizeFailure) => sets.len() > 0 && forall|j: int|
            0 <= j < sets.len() ==> (#[trigger] sets[j]) is Unsanitizable,
        Err(_) => false,
    }
}

/// Strict judgement of the result sets of one pair. Every set must hold
/// exactly one product, and all products that sanitize must share one
/// canonical string. Returns the position of the accepted set, the first with
/// a sanitized product, or the reason for which the pair is dropped.
pub fn judge(sets: &Vec<ResultSet>) -> (verdict: Result<usize, SkipReason>)
    ensures
        is_verdict(sets@, verdict),
{
    let n = sets.len();
    let mut first: Option<usize> = None;
    let mut i: usize = 0;
    while i < n
        invariant
            n == sets@.len(),
            0 <= i <= n,
            forall|j: int| 0 <= j < i ==> !violates_at(sets@, j),
            first matches Some(f) ==> f < i && is_first_product(sets@, f as int),
            first matches Some(f) ==> forall|j: int|
                0 <= j < i && (#[trigger] sets@[j]) is Product ==> sets@[j]->0@ == sets@[f as int]->0@,
            first is None ==> forall|j: int| 0 <= j < i ==> (#[trigger] sets@[j]) is Unsanitizable,
        decreases n - i,
    {
        match &sets[i] {
            ResultSet::NotSingle => {
                assert(is_first_violation(sets@, i as int));
                return Err(SkipReason::ReactionEmptyResult);
            },
            ResultSet::Unsanitizable => {},
            ResultSet::Product(canonical) => {
                match first {
                    Some(f) => {
                        let same = match &sets[f] {
                            ResultSet::Product(found) => *found == *canonical,
                            _ => false,
                        };
                        if !same {
                            assert(conflicts_at(sets@, i as int));
                            assert(is_first_violation(sets@, i as int));
                            return Err(SkipReason::ReactionNonDeterministic);
                        }
                    },
                    None => {
                        first = Some(i);
                    },
                }
            },
        }
        i = i + 1;
    }
    match first {
        Some(f) => Ok(f),
        None => {
            if n == 0 {
                Err(SkipReason::NoSubstructureMatch)
            } else {
                Err(SkipReason::SanitizeFailure)
            }
        },
    }
}

/// Some set breaks a rule.
pub open spec fn has_violation(sets: Seq<ResultSet>) -> bool {
    exists|i: int| 0 <= i < sets.len() && #[trigger] violates_at(sets, i)
}

/// At most one verdict fits given result sets: what `judge` returns is
/// determined by them.
pub proof fn lemma_verdict_unique(
    sets: Seq<ResultSet>,
    a: Result<usize, SkipReason>,
    b: Result<usize, SkipReason>,
)
    requires
        is_verdict(sets, a),
        is_verdict(sets, b),
    ensures
        a == b,
{
    lemma_verdict_class(sets, a);
    lemma_verdict_class(sets, b);
    if has_violation(sets) {
        let i = choose|i: int| is_first_violation(sets, i) && ((#[trigger] sets[i]) is NotSingle
            <==> a == Err::<usize, SkipReason>(SkipReason::ReactionEmptyResult));
        let j = choose|j: int| is_first_violation(sets, j) && ((#[trigger] sets[j]) is NotSingle
            <==> b == Err::<usize, SkipReason>(SkipReason::ReactionEmptyResult));
        if i < j {
            assert(!violates_at(sets, i));
        } else if j < i {
            assert(!violates_at(sets, j));
        }
    } else if a is Ok {
        let i = a->Ok_0 as int;
        let j = b->Ok_0 as int;
        if i < j {
            assert(!(sets[i] is Product));
        } else if j < i {
            assert(!(sets[j] is Product));
        }
    }
}

/// A verdict says which of four cases the result sets fall under: a rule is
/// broken, a product is accepted, there is no set, or nothing sanitized.
proof fn lemma_verdict_class(sets: Seq<ResultSet>, v: Result<usize, SkipReason>)
    requires
        is_verdict(sets, v),
    ensures
        has_violation(sets) <==> (v == Err::<usize, SkipReason>(SkipReason::ReactionEmptyResult)
            || v == Err::<usize, SkipReason>(SkipReason::ReactionNonDeterministic)),
        !has_violation(sets) ==> (v is Ok <==> exists|i: int|
            0 <= i < sets.len() && (#[trigger] sets[i]) is Product),
        !has_violation(sets) && !(v is Ok) ==> (v == Err::<usize, SkipReason>(
            SkipReason::NoSubstructureMatch,
        ) <==> sets.len() == 0),
        !has_violation(sets) && !(v is Ok) && sets.len() > 0 ==> v == Err::<usize, SkipReason>(
            SkipReason::SanitizeFailure,
        ),
{
    match v {
        Ok(i) => {
            assert(sets[i as int] is Product);
        },
        Err(SkipReason::ReactionEmptyResult) => {
            let i = choose|i: int| is_first_violation(sets, i) && (#[trigger] sets[i]) is NotSingle;
            assert(violates_at(sets, i));
        },
        Err(SkipReason::ReactionNonDeterministic) => {
            let i = choose|i: int|
                is_first_violation(sets, i) && !((#[trigger] sets[i]) is NotSingle);
            assert(violates_at(sets, i));
        },
        Err(SkipReason::NoSubstructureMatch) => {},
        Err(SkipReason::SanitizeFailure) => {
            assert forall|i: int| 0 <= i < sets.len() implies !#[trigger] violates_at(sets, i) by {
                assert(sets[i] is Unsanitizable);
            }
            assert forall|i: int| 0 <= i < sets.len() implies !((#[trigger] sets[i]) is Product) by {
                assert(sets[i] is Unsanitizable);
            }
        },
        Err(_) => {},
    }
}

/// The raw product that an accepted pair emits: the canonical string of the
/// accepted set, with the bindings and names of the pair. Nothing where
/// `accepted` is no set with a sanitized product.
pub fn emit(sets: &Vec<ResultSet>, accepted: usize, pair: &PairContext) -> (raw: Option<RawProduct>)
    ensures
        raw.is_some() <==> accepted < sets@.len() && sets@[accepted as int] is Product,
        raw matches Some(r) ==> r.canonical@ == sets@[accepted as int]->0@ && r.frag_binding
            == pair.frag_binding && r.block_binding == pair.block_binding && r.name@ == pair.name@
            && r.fullname@ == pair.fullname@,
{
    if accepted >= sets.len() {
        return None;
    }
    match &sets[accepted] {
        ResultSet::Product(c) => Some(
            RawProduct {
                canonical: c.clone(),
                frag_binding: pair.frag_binding,
                block_binding: pair.block_binding,
                name: pair.name.clone(),
                fullname: pair.fullname.clone(),
            },
        ),
        _ => None,
    }
}

/// Judges one pair and, where it is accepted, emits its raw product, with
/// the position of the set whose product was accepted.
pub fn execute_pair(sets: &Vec<ResultSet>, pair: &PairContext) -> (outcome: Result<
    (usize, RawProduct),
    SkipReason,
>)
    ensures
        outcome matches Ok((accepted, raw)) ==> is_verdict(sets@, Ok(accepted)) && raw.canonical@
            == sets@[accepted as int]->0@ && raw.frag_binding == pair.frag_binding
            && raw.block_binding == pair.block_binding && raw.name@ == pair.name@ && raw.fullname@
            == pair.fullname@,
        outcome matches Err(reason) ==> is_verdict(sets@, Err(reason)),
{
    match judge(sets) {
        Ok(accepted) => {
            match emit(sets, accepted, pair) {
                Some(raw) => Ok((accepted, raw)),
                None => Err(SkipReason::SanitizeFailure),
            }
        },
        Err(reason) => Err(reason),
    }
}

} // verus!
