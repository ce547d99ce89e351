//! A verified model of an NFT staking registry: a depositor locks a unique
//! asset for a minimum holding period in exchange for accruing reward credit,
//! under a globally configurable, pausable reward rate and a per-depositor cap
//! on concurrently locked assets.
//!
//! The surrounding ledger runtime (atomic transactions, account storage, the
//! clock, and the token program that actually holds balances and delegations)
//! is the environment: it hands these operations plain values (identities,
//! timestamps, a balance) and applies the records and capability grants they
//! produce.

pub mod address;
pub mod error;
pub mod laws;
pub mod ledger;
pub mod math;
pub mod state;
