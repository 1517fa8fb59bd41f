//! Selections: the positions at which a list of flags is set, in rising order.

use vstd::prelude::*;

verus! {

/// `picked` lists, in rising order, exactly the positions among the first `n`
/// at which `wanted` is set.
pub open spec fn is_selection(picked: Seq<usize>, n: int, wanted: Seq<bool>) -> bool {
    &&& forall|k: int| 0 <= k < picked.len() ==> (#[trigger] picked[k]) < n && wanted[picked[k] as int]
    &&& forall|k: int, l: int| 0 <= k < l < picked.len() ==> picked[k] < picked[l]
    &&& forall|i: int| 0 <= i < n && #[trigger] wanted[i] ==> picked.contains(i as usize)
}

/// A selection grows by the next position where that is wanted, and stays as
/// it is where it is not.
pub proof fn lemma_selection_step(picked: Seq<usize>, n: int, wanted: Seq<bool>)
    requires
        0 <= n < usize::MAX,
        is_selection(picked, n, wanted),
    ensures
        wanted[n] ==> is_selection(picked.push(n as usize), n + 1, wanted),
        !wanted[n] ==> is_selection(picked, n + 1, wanted),
{
    if wanted[n] {
        let grown = picked.push(n as usize);
        assert forall|i: int| 0 <= i < n + 1 && #[trigger] wanted[i] implies grown.contains(
            i as usize,
        ) by {
            if i < n {
                let k = choose|k: int| 0 <= k < picked.len() && picked[k] == i as usize;
                assert(grown[k] == i as usize);
            } else {
                assert(grown[picked.len() as int] == i as usize);
            }
        }
    }
}

} // verus!
