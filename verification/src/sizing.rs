//! Sizes and positions on their way to the store, which counts in 32 bits.

use vstd::prelude::*;

verus! {

/// The connections to keep for `logical_cpus` processors: two for each,
/// counting no more processors than 32 bits hold.
pub open spec fn spec_pool_size(logical_cpus: nat) -> nat {
    if logical_cpus <= u32::MAX {
        2 * logical_cpus
    } else {
        2 * (u32::MAX as nat)
    }
}

/// The size of the connection pool: two connections for each logical
/// processor. Nothing where that many do not fit the pool's 32-bit size.
pub fn pool_size(logical_cpus: usize) -> (size: Option<u32>)
    ensures
        size.is_some() <==> spec_pool_size(logical_cpus as nat) <= u32::MAX,
        size matches Some(n) ==> n == spec_pool_size(logical_cpus as nat),
{
    let counted: u32 = if logical_cpus <= 4294967295 {
        logical_cpus as u32
    } else {
        4294967295
    };
    counted.checked_mul(2)
}

/// The position of a fragment as the store holds it: the position itself
/// where it fits 32 bits with sign, and -1, which no stored fragment has,
/// where it does not.
pub fn stored_index(idx: usize) -> (stored: i32)
    ensures
        idx <= i32::MAX ==> stored == idx,
        idx > i32::MAX ==> stored == -1,
{
    if idx <= 2147483647 {
        idx as i32
    } else {
        -1
    }
}

/// A slot of a reaction as the store holds it. Nothing where it does not fit
/// 32 bits with sign.
pub fn stored_slot(slot: usize) -> (stored: Option<i32>)
    ensures
        stored.is_some() <==> slot <= i32::MAX,
        stored matches Some(s) ==> s == slot,
{
    if slot <= 2147483647 {
        Some(slot as i32)
    } else {
        None
    }
}

/// A stored slot as a position in the reactant list. Nothing where it is
/// negative.
pub fn slot_position(stored: i32) -> (slot: Option<usize>)
    ensures
        slot.is_some() <==> stored >= 0,
        slot matches Some(s) ==> s == stored,
{
    if stored >= 0 {
        Some(stored as usize)
    } else {
        None
    }
}

} // verus!
