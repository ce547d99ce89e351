use nft_staking::address::{
    derive_config_address, derive_stake_address, derive_user_address, Address,
};
use nft_staking::math::{saturating_add_u64, saturating_mul_u64, saturating_sub_u64};
use nft_staking::state::Pubkey;

const PROGRAM: Pubkey = Pubkey { id: 7 };
const OWNER: Pubkey = Pubkey { id: 8 };
const ASSET: Pubkey = Pubkey { id: 9 };

#[test]
fn clamped_multiplication_values() {
    assert_eq!(saturating_mul_u64(3, 4), 12);
    assert_eq!(saturating_mul_u64(0, u64::MAX), 0);
    assert_eq!(saturating_mul_u64(u64::MAX, 1), u64::MAX);
    assert_eq!(saturating_mul_u64(u64::MAX, 2), u64::MAX);
    assert_eq!(saturating_mul_u64(1 << 32, 1 << 32), u64::MAX);
}

#[test]
fn clamped_addition_and_subtraction_values() {
    assert_eq!(saturating_add_u64(2, 3), 5);
    assert_eq!(saturating_add_u64(u64::MAX, 1), u64::MAX);
    assert_eq!(saturating_add_u64(u64::MAX - 1, 1), u64::MAX);
    assert_eq!(saturating_sub_u64(5, 2), 3);
    assert_eq!(saturating_sub_u64(2, 5), 0);
    assert_eq!(saturating_sub_u64(0, 1), 0);
}

#[test]
fn derived_addresses_are_deterministic_and_distinct() {
    let config = derive_config_address(PROGRAM);
    let user = derive_user_address(PROGRAM, OWNER);
    let stake = derive_stake_address(PROGRAM, ASSET);
    assert_eq!(config, derive_config_address(PROGRAM));
    assert_eq!(user, derive_user_address(PROGRAM, OWNER));
    assert_eq!(stake, derive_stake_address(PROGRAM, ASSET));

    // Different record kinds, and different keys within a kind, never share
    // an address.
    assert_ne!(config, user);
    assert_ne!(config, stake);
    assert_ne!(user, stake);
    assert_ne!(user, derive_user_address(PROGRAM, Pubkey { id: 99 }));
    assert_ne!(stake, derive_stake_address(Pubkey { id: 99 }, ASSET));
    assert_eq!(user, Address::User { program: PROGRAM, owner: OWNER });
}
