//! The registry-wide laws, stated over any well-formed ledger. `Ledger::new`
//! establishes `Ledger::wf` and every operation preserves it, so these laws
//! hold of every reachable state.

use vstd::prelude::*;
use crate::ledger::{count_owned, grant_matches, has_stake, stake_index, sum_staked, Ledger};
use crate::state::{Pubkey, MAX_NFTS_PER_USER};

verus! {

/// Law: the configuration's `total_staked` equals the number of currently
/// existing lock records, and equals the sum of `total_staked` across all
/// depositor records.
pub proof fn lemma_registry_counts_locks(l: Ledger)
    requires
        l.wf(),
        l.config is Some,
    ensures
        l.config->Some_0.total_staked == l.stakes@.len(),
        l.config->Some_0.total_staked == sum_staked(l.users@),
{
}

/// Law: every depositor record keeps `total_staked` between zero and the
/// per-depositor cap.
pub proof fn lemma_depositor_cap(l: Ledger, i: int)
    requires
        l.wf(),
        0 <= i < l.users@.len(),
    ensures
        0 <= l.users@[i].total_staked <= MAX_NFTS_PER_USER,
{
}

/// Law: every depositor record's `total_staked` counts exactly the lock
/// records that depositor owns.
pub proof fn lemma_depositor_counts_own_locks(l: Ledger, i: int)
    requires
        l.wf(),
        0 <= i < l.users@.len(),
    ensures
        l.users@[i].total_staked == count_owned(l.stakes@, l.users@[i].owner),
{
}

/// Law of the custody model: while an asset is locked, exactly one
/// delegated-spending capability is outstanding for it — one unit, granted by
/// the lock's owner to the registry's authority — and the owner keeps the
/// lock record (ownership is never transferred).
pub proof fn lemma_locked_asset_has_one_capability(l: Ledger, k: int)
    requires
        l.wf(),
        0 <= k < l.stakes@.len(),
    ensures
        l.config is Some,
        grant_matches(l.grants@[k], l.stakes@[k], l.config->Some_0.authority),
        forall|j: int|
            0 <= j < l.grants@.len() && j != k ==> (#[trigger] l.grants@[j]).asset_id
                != l.stakes@[k].asset_id,
{
    assert forall|j: int|
        0 <= j < l.grants@.len() && j != k implies (#[trigger] l.grants@[j]).asset_id
        != l.stakes@[k].asset_id by {
        if j < k {
            assert(l.stakes@[j].asset_id != l.stakes@[k].asset_id);
        } else {
            assert(l.stakes@[k].asset_id != l.stakes@[j].asset_id);
        }
    }
}

/// Law: at most one lock record exists per asset, so `stake_index` names the
/// only one there is.
pub proof fn lemma_lock_record_unique(l: Ledger, asset_id: Pubkey, k: int)
    requires
        l.wf(),
        0 <= k < l.stakes@.len(),
        l.stakes@[k].asset_id == asset_id,
    ensures
        has_stake(l.stakes@, asset_id),
        stake_index(l.stakes@, asset_id) == k,
{
    let k0 = stake_index(l.stakes@, asset_id);
    assert(0 <= k0 < l.stakes@.len() && l.stakes@[k0].asset_id == asset_id);
    if k0 != k {
        if k0 < k {
            assert(l.stakes@[k0].asset_id != l.stakes@[k].asset_id);
        } else {
            assert(l.stakes@[k].asset_id != l.stakes@[k0].asset_id);
        }
    }
}

} // verus!
