//! The persisted records of the staking registry and their well-formedness.

use vstd::prelude::*;

verus! {

/// Identity of a participant, asset, or mint on the underlying ledger.
/// It stands for the ledger's opaque account key; the staking rules read
/// nothing of a key but equality.
#[derive(Clone, Copy, PartialEq, Eq, Structural, Debug)]
pub struct Pubkey {
    pub id: u64,
}

/// Per-depositor cap on concurrently locked assets.
pub const MAX_NFTS_PER_USER: u64 = 10;

/// Minimum holding period, in seconds, before a locked asset may be unlocked.
pub const MIN_STAKE_DURATION: i64 = 86400;

/// Seconds in one full day: a locked asset earns `reward_rate` credit units
/// per full day locked.
pub const SECONDS_PER_DAY: i64 = 86400;

/// The global, singleton configuration of the registry, with its aggregate
/// counter of currently locked assets.
#[derive(Clone, Copy, PartialEq, Eq, Structural, Debug)]
pub struct StakeConfig {
    /// Administrator of the registry, and the delegate that receives spending
    /// authority over every locked asset.
    pub authority: Pubkey,
    /// Denomination of the accrued reward credit.
    pub reward_mint: Pubkey,
    /// The asset collection the registry is meant for. Lock does not actually
    /// check membership against it; the gap is deliberate and preserved.
    pub collection: Pubkey,
    /// Credit units earned per full day locked.
    pub reward_rate: u64,
    /// Gate on new locks.
    pub is_paused: bool,
    /// Count of currently locked assets system-wide.
    pub total_staked: u64,
}

/// Per-depositor aggregate record.
#[derive(Clone, Copy, PartialEq, Eq, Structural, Debug)]
pub struct UserAccount {
    pub owner: Pubkey,
    /// Count of assets this depositor currently has locked; never exceeds
    /// `MAX_NFTS_PER_USER`.
    pub total_staked: u64,
    /// Accrued reward credit; monotonically non-decreasing.
    pub reward_claimed: u64,
    pub last_claim_time: i64,
}

/// Per-locked-asset record: exists exactly while the asset is locked.
#[derive(Clone, Copy, PartialEq, Eq, Structural, Debug)]
pub struct StakeAccount {
    pub owner: Pubkey,
    pub asset_id: Pubkey,
    pub stake_time: i64,
    pub last_claim_time: i64,
    /// Always true while the record exists; redundant with existence, kept so
    /// the record reads as the registry persists it.
    pub is_staked: bool,
}

/// A revocable capability over one unit of a locked asset, granted to the
/// registry's authority at lock time and revoked at unlock time. The
/// depositor keeps ownership of the asset throughout; the delegate may act
/// on the granted unit but cannot redirect it elsewhere.
#[derive(Clone, Copy, PartialEq, Eq, Structural, Debug)]
pub struct DelegateGrant {
    pub grantor: Pubkey,
    pub delegate: Pubkey,
    pub asset_id: Pubkey,
    pub units: u64,
}

impl UserAccount {
    /// Well-formedness: the per-depositor cap holds and the claim timestamp
    /// is a valid (non-negative) clock reading.
    pub open spec fn wf(self) -> bool {
        &&& self.total_staked <= MAX_NFTS_PER_USER
        &&& 0 <= self.last_claim_time
    }
}

impl StakeAccount {
    /// Well-formedness: the record marks its asset as staked, was created at a
    /// valid clock reading, and has never had its claim time moved (unlock
    /// destroys the record rather than updating it).
    pub open spec fn wf(self) -> bool {
        &&& self.is_staked
        &&& 0 <= self.stake_time
        &&& self.last_claim_time == self.stake_time
    }
}

} // verus!
