//! The wallet registry as the processors see it: an ordered pool of
//! locally held wallets, addressed by index. The keys themselves live with
//! the caller; the library works with the registry's size and with indices
//! into it.

use vstd::prelude::*;

verus! {

/// The query plan for the read-only balances listing: every wallet index,
/// in registry order. An empty registry yields an empty plan — the listing
/// is then empty, not an error.
pub fn balances_plan(wallet_count: usize) -> (r: Vec<usize>)
    ensures
        r@.len() == wallet_count,
        forall|k: int| 0 <= k < r@.len() ==> r@[k] == k,
{
    let mut plan: Vec<usize> = Vec::new();
    let mut i: usize = 0;
    while i < wallet_count
        invariant
            0 <= i <= wallet_count,
            plan@.len() == i,
            forall|k: int| 0 <= k < plan@.len() ==> plan@[k] == k,
        decreases wallet_count - i,
    {
        plan.push(i);
        i = i + 1;
    }
    plan
}

} // verus!
