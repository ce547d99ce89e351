//! The error taxonomy of the staking registry. Every failure aborts its
//! operation with no state change and names the exact violated precondition.

use vstd::prelude::*;

verus! {

#[derive(Clone, Copy, PartialEq, Eq, Structural, Debug)]
pub enum StakingError {
    /// A lock was attempted while the registry is paused.
    StakingPaused,
    /// The depositor is already at the per-depositor cap.
    MaxStakeReached,
    /// An unlock was attempted on an asset with no active lock record.
    NotStaked,
    /// An unlock was attempted before the minimum holding period elapsed.
    MinimumStakeDurationNotMet,
    /// The caller does not own the referenced records.
    Unauthorized,
    /// The caller does not hold exactly one unit of the target asset.
    InvalidOwner,
    /// Duplicate creation of a record that already exists; surfaced by the
    /// underlying storage primitive.
    AlreadyExists,
}

} // verus!
