use nft_staking::error::StakingError;
use nft_staking::ledger::Ledger;
use nft_staking::state::{DelegateGrant, Pubkey};

const ADMIN: Pubkey = Pubkey { id: 1 };
const REWARD_MINT: Pubkey = Pubkey { id: 2 };
const COLLECTION: Pubkey = Pubkey { id: 3 };
const ALICE: Pubkey = Pubkey { id: 10 };
const BOB: Pubkey = Pubkey { id: 11 };
const ASSET: Pubkey = Pubkey { id: 100 };

const DAY: i64 = 86400;
const T0: i64 = 1_700_000_000;

fn fresh_ledger(reward_rate: u64) -> Ledger {
    let mut l = Ledger::new();
    assert_eq!(l.init_config(ADMIN, REWARD_MINT, COLLECTION, reward_rate), Ok(()));
    assert_eq!(l.init_user(ALICE, T0), Ok(()));
    l
}

#[test]
fn scenario_lock_full_day_unlock() {
    let mut l = fresh_ledger(100);
    assert_eq!(l.stake(ALICE, ASSET, 1, T0), Ok(()));
    assert_eq!(l.users[0].total_staked, 1);
    assert_eq!(l.config.as_ref().unwrap().total_staked, 1);

    let r = l.unstake(ALICE, ASSET, T0 + DAY);
    assert_eq!(r, Ok(100));
    assert_eq!(l.users[0].reward_claimed, 100);
    assert_eq!(l.users[0].total_staked, 0);
    assert_eq!(l.users[0].last_claim_time, T0 + DAY);
    assert_eq!(l.config.as_ref().unwrap().total_staked, 0);
    assert!(l.stakes.iter().all(|s| s.asset_id != ASSET));
    assert!(l.stakes.is_empty());
    assert!(l.grants.is_empty());
}

#[test]
fn scenario_unlock_one_second_early() {
    let mut l = fresh_ledger(100);
    assert_eq!(l.stake(ALICE, ASSET, 1, T0), Ok(()));

    let r = l.unstake(ALICE, ASSET, T0 + DAY - 1);
    assert_eq!(r, Err(StakingError::MinimumStakeDurationNotMet));
    assert_eq!(l.users[0].total_staked, 1);
    assert_eq!(l.users[0].reward_claimed, 0);
    assert_eq!(l.config.as_ref().unwrap().total_staked, 1);
    assert_eq!(l.stakes.len(), 1);
    assert_eq!(l.stakes[0].asset_id, ASSET);
    assert_eq!(l.stakes[0].stake_time, T0);
    assert!(l.stakes[0].is_staked);
    assert_eq!(l.grants.len(), 1);
}

#[test]
fn scenario_cap_of_ten_locked_assets() {
    let mut l = fresh_ledger(5);
    for n in 0..10u64 {
        let asset = Pubkey { id: 200 + n };
        assert_eq!(l.stake(ALICE, asset, 1, T0), Ok(()));
    }
    assert_eq!(l.users[0].total_staked, 10);

    let eleventh = Pubkey { id: 299 };
    assert_eq!(l.stake(ALICE, eleventh, 1, T0), Err(StakingError::MaxStakeReached));
    assert_eq!(l.users[0].total_staked, 10);
    assert_eq!(l.config.as_ref().unwrap().total_staked, 10);
    assert_eq!(l.stakes.len(), 10);
}

#[test]
fn scenario_unlock_by_other_depositor() {
    let mut l = fresh_ledger(100);
    assert_eq!(l.init_user(BOB, T0), Ok(()));
    assert_eq!(l.stake(ALICE, ASSET, 1, T0), Ok(()));

    let r = l.unstake(BOB, ASSET, T0 + 2 * DAY);
    assert_eq!(r, Err(StakingError::Unauthorized));
    assert_eq!(l.stakes.len(), 1);
    assert_eq!(l.stakes[0].owner, ALICE);
    assert_eq!(l.stakes[0].asset_id, ASSET);
    assert_eq!(l.stakes[0].stake_time, T0);
    assert_eq!(l.users[0].total_staked, 1);
    assert_eq!(l.config.as_ref().unwrap().total_staked, 1);
}

#[test]
fn scenario_paused_registry_rejects_every_lock() {
    let mut l = fresh_ledger(100);
    if let Some(c) = l.config.as_mut() {
        c.is_paused = true;
    }
    // A lock that would otherwise succeed.
    assert_eq!(l.stake(ALICE, ASSET, 1, T0), Err(StakingError::StakingPaused));
    // The pause gate fires before the holding check.
    assert_eq!(l.stake(ALICE, ASSET, 0, T0), Err(StakingError::StakingPaused));
    assert!(l.stakes.is_empty());
    assert_eq!(l.users[0].total_staked, 0);
    assert_eq!(l.config.as_ref().unwrap().total_staked, 0);
}

#[test]
fn scenario_reward_overflow_clamps_to_max() {
    let mut l = fresh_ledger(u64::MAX);
    assert_eq!(l.stake(ALICE, ASSET, 1, T0), Ok(()));
    // Two full days: 2 * u64::MAX would overflow, so the credit clamps.
    let r = l.unstake(ALICE, ASSET, T0 + 2 * DAY);
    assert_eq!(r, Ok(u64::MAX));
    assert_eq!(l.users[0].reward_claimed, u64::MAX);
}

#[test]
fn reward_counts_full_days_only() {
    let mut l = fresh_ledger(7);
    assert_eq!(l.stake(ALICE, ASSET, 1, T0), Ok(()));
    // Three and a half days locked: only full days earn credit.
    let r = l.unstake(ALICE, ASSET, T0 + 3 * DAY + DAY / 2);
    assert_eq!(r, Ok(21));
    assert_eq!(l.users[0].reward_claimed, 21);
}

#[test]
fn second_init_config_fails_already_exists() {
    let mut l = Ledger::new();
    assert_eq!(l.init_config(ADMIN, REWARD_MINT, COLLECTION, 100), Ok(()));
    let before = l.config.unwrap();

    let r = l.init_config(BOB, REWARD_MINT, COLLECTION, 999);
    assert_eq!(r, Err(StakingError::AlreadyExists));
    assert_eq!(l.config.unwrap(), before);
    assert_eq!(l.config.unwrap().authority, ADMIN);
    assert_eq!(l.config.unwrap().reward_rate, 100);
}

#[test]
fn second_init_user_fails_already_exists() {
    let mut l = Ledger::new();
    assert_eq!(l.init_config(ADMIN, REWARD_MINT, COLLECTION, 100), Ok(()));
    assert_eq!(l.init_user(ALICE, T0), Ok(()));

    let r = l.init_user(ALICE, T0 + 5);
    assert_eq!(r, Err(StakingError::AlreadyExists));
    assert_eq!(l.users.len(), 1);
    assert_eq!(l.users[0].last_claim_time, T0);
    assert_eq!(l.users[0].total_staked, 0);
    assert_eq!(l.users[0].reward_claimed, 0);
}

#[test]
fn fresh_config_and_user_fields() {
    let mut l = Ledger::new();
    assert!(l.config.is_none());
    assert_eq!(l.init_config(ADMIN, REWARD_MINT, COLLECTION, 42), Ok(()));
    let c = l.config.unwrap();
    assert_eq!(c.authority, ADMIN);
    assert_eq!(c.reward_mint, REWARD_MINT);
    assert_eq!(c.collection, COLLECTION);
    assert_eq!(c.reward_rate, 42);
    assert!(!c.is_paused);
    assert_eq!(c.total_staked, 0);

    assert_eq!(l.init_user(ALICE, T0), Ok(()));
    assert_eq!(l.users[0].owner, ALICE);
    assert_eq!(l.users[0].total_staked, 0);
    assert_eq!(l.users[0].reward_claimed, 0);
    assert_eq!(l.users[0].last_claim_time, T0);
}

#[test]
fn lock_without_holding_exactly_one_unit() {
    let mut l = fresh_ledger(100);
    assert_eq!(l.stake(ALICE, ASSET, 0, T0), Err(StakingError::InvalidOwner));
    assert_eq!(l.stake(ALICE, ASSET, 2, T0), Err(StakingError::InvalidOwner));
    assert!(l.stakes.is_empty());
    assert_eq!(l.users[0].total_staked, 0);
}

#[test]
fn lock_of_already_locked_asset_fails() {
    let mut l = fresh_ledger(100);
    assert_eq!(l.init_user(BOB, T0), Ok(()));
    assert_eq!(l.stake(ALICE, ASSET, 1, T0), Ok(()));

    assert_eq!(l.stake(ALICE, ASSET, 1, T0 + 10), Err(StakingError::AlreadyExists));
    assert_eq!(l.stake(BOB, ASSET, 1, T0 + 10), Err(StakingError::AlreadyExists));
    assert_eq!(l.stakes.len(), 1);
    assert_eq!(l.config.as_ref().unwrap().total_staked, 1);
}

#[test]
fn unlock_of_unknown_asset_fails_not_staked() {
    let mut l = fresh_ledger(100);
    let r = l.unstake(ALICE, ASSET, T0 + DAY);
    assert_eq!(r, Err(StakingError::NotStaked));
    assert_eq!(l.users[0].total_staked, 0);
}

#[test]
fn lock_grants_capability_and_unlock_revokes_it() {
    let mut l = fresh_ledger(100);
    assert_eq!(l.stake(ALICE, ASSET, 1, T0), Ok(()));
    assert_eq!(l.grants.len(), 1);
    assert_eq!(
        l.grants[0],
        DelegateGrant { grantor: ALICE, delegate: ADMIN, asset_id: ASSET, units: 1 }
    );
    // The depositor keeps ownership of the asset throughout.
    assert_eq!(l.stakes[0].owner, ALICE);

    assert_eq!(l.unstake(ALICE, ASSET, T0 + DAY), Ok(100));
    assert!(l.grants.is_empty());
}

#[test]
fn interleaved_depositors_keep_exact_counts() {
    let mut l = fresh_ledger(10);
    assert_eq!(l.init_user(BOB, T0), Ok(()));
    let a1 = Pubkey { id: 301 };
    let a2 = Pubkey { id: 302 };
    let b1 = Pubkey { id: 303 };
    assert_eq!(l.stake(ALICE, a1, 1, T0), Ok(()));
    assert_eq!(l.stake(BOB, b1, 1, T0), Ok(()));
    assert_eq!(l.stake(ALICE, a2, 1, T0 + 100), Ok(()));
    assert_eq!(l.users[0].total_staked, 2);
    assert_eq!(l.users[1].total_staked, 1);
    assert_eq!(l.config.as_ref().unwrap().total_staked, 3);

    assert_eq!(l.unstake(ALICE, a1, T0 + DAY), Ok(10));
    assert_eq!(l.users[0].total_staked, 1);
    assert_eq!(l.users[1].total_staked, 1);
    assert_eq!(l.config.as_ref().unwrap().total_staked, 2);
    assert_eq!(l.stakes.len(), 2);
    assert_eq!(l.grants.len(), 2);
    assert!(l.stakes.iter().all(|s| s.asset_id != a1));

    // The registry counter equals the number of lock records and the sum of
    // the depositors' counters.
    let total = l.config.as_ref().unwrap().total_staked;
    assert_eq!(total, l.stakes.len() as u64);
    let sum: u64 = l.users.iter().map(|u| u.total_staked).sum();
    assert_eq!(total, sum);
}

#[test]
fn second_unlock_of_same_asset_fails_not_staked() {
    let mut l = fresh_ledger(100);
    assert_eq!(l.stake(ALICE, ASSET, 1, T0), Ok(()));
    assert_eq!(l.unstake(ALICE, ASSET, T0 + DAY), Ok(100));

    let r = l.unstake(ALICE, ASSET, T0 + 2 * DAY);
    assert_eq!(r, Err(StakingError::NotStaked));
    assert_eq!(l.users[0].reward_claimed, 100);
    assert_eq!(l.users[0].total_staked, 0);
    assert_eq!(l.config.as_ref().unwrap().total_staked, 0);
}
