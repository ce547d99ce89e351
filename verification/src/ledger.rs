//! The staking registry as a state machine over the whole set of persisted
//! records: the singleton configuration, every depositor's aggregate record,
//! every lock record, and every outstanding delegated-spending capability.
//!
//! Each operation is one atomic transaction: a failed precondition returns
//! the violated error and leaves every record unchanged. The well-formedness
//! invariant `Ledger::wf` is established by `Ledger::new` and preserved by
//! every operation, so it holds of every reachable state; it carries the two
//! registry invariants: the configuration's `total_staked` equals both the
//! number of existing lock records and the sum of `total_staked` over all
//! depositor records, and no depositor record exceeds the per-depositor cap.

use vstd::prelude::*;
use crate::error::StakingError;
use crate::math::{sat_add_u64, sat_mul_u64, saturating_add_u64, saturating_mul_u64, saturating_sub_u64};
use crate::state::{
    DelegateGrant, Pubkey, StakeAccount, StakeConfig, UserAccount, MAX_NFTS_PER_USER,
    MIN_STAKE_DURATION, SECONDS_PER_DAY,
};

verus! {

/// Whether some depositor record with owner `owner` exists.
pub open spec fn has_user(users: Seq<UserAccount>, owner: Pubkey) -> bool {
    exists|i: int| 0 <= i < users.len() && users[i].owner == owner
}

/// Index of the depositor record with owner `owner`; unique under `Ledger::wf`.
pub open spec fn user_index(users: Seq<UserAccount>, owner: Pubkey) -> int {
    choose|i: int| 0 <= i < users.len() && users[i].owner == owner
}

/// The depositor record with owner `owner`.
pub open spec fn user_of(users: Seq<UserAccount>, owner: Pubkey) -> UserAccount {
    users[user_index(users, owner)]
}

/// Whether a lock record for `asset_id` exists.
pub open spec fn has_stake(stakes: Seq<StakeAccount>, asset_id: Pubkey) -> bool {
    exists|k: int| 0 <= k < stakes.len() && stakes[k].asset_id == asset_id
}

/// Index of the lock record for `asset_id`; unique under `Ledger::wf`.
pub open spec fn stake_index(stakes: Seq<StakeAccount>, asset_id: Pubkey) -> int {
    choose|k: int| 0 <= k < stakes.len() && stakes[k].asset_id == asset_id
}

/// The lock record for `asset_id`.
pub open spec fn stake_of(stakes: Seq<StakeAccount>, asset_id: Pubkey) -> StakeAccount {
    stakes[stake_index(stakes, asset_id)]
}

/// Number of lock records owned by `owner`.
pub open spec fn count_owned(stakes: Seq<StakeAccount>, owner: Pubkey) -> int
    decreases stakes.len(),
{
    if stakes.len() == 0 {
        0
    } else {
        count_owned(stakes.drop_last(), owner) + if stakes.last().owner == owner {
            1int
        } else {
            0int
        }
    }
}

/// Sum of `total_staked` over all depositor records.
pub open spec fn sum_staked(users: Seq<UserAccount>) -> int
    decreases users.len(),
{
    if users.len() == 0 {
        0
    } else {
        sum_staked(users.drop_last()) + users.last().total_staked
    }
}

/// Reward credit owed for an asset locked at `stake_time` and released at
/// `now` under rate `rate`: `rate` credit units per full day locked, with
/// clamped multiplication.
pub open spec fn reward_points(stake_time: i64, now: i64, rate: u64) -> u64 {
    sat_mul_u64(((now - stake_time) / (SECONDS_PER_DAY as int)) as u64, rate)
}

/// The capability created by locking `stakes[k]`: one unit of the asset,
/// granted by its owner to the registry's authority.
pub open spec fn grant_matches(g: DelegateGrant, s: StakeAccount, authority: Pubkey) -> bool {
    &&& g.grantor == s.owner
    &&& g.delegate == authority
    &&& g.asset_id == s.asset_id
    &&& g.units == 1
}

proof fn lemma_count_nonneg(stakes: Seq<StakeAccount>, owner: Pubkey)
    ensures
        0 <= count_owned(stakes, owner),
    decreases stakes.len(),
{
    if stakes.len() > 0 {
        lemma_count_nonneg(stakes.drop_last(), owner);
    }
}

proof fn lemma_count_concat(a: Seq<StakeAccount>, b: Seq<StakeAccount>, owner: Pubkey)
    ensures
        count_owned(a + b, owner) == count_owned(a, owner) + count_owned(b, owner),
    decreases b.len(),
{
    if b.len() == 0 {
        assert(a + b =~= a);
    } else {
        assert((a + b).drop_last() =~= a + b.drop_last());
        assert((a + b).last() == b.last());
        lemma_count_concat(a, b.drop_last(), owner);
    }
}

proof fn lemma_count_push(stakes: Seq<StakeAccount>, s: StakeAccount, owner: Pubkey)
    ensures
        count_owned(stakes.push(s), owner) == count_owned(stakes, owner) + if s.owner == owner {
            1int
        } else {
            0int
        },
{
    assert(stakes.push(s).drop_last() =~= stakes);
}

proof fn lemma_count_remove(stakes: Seq<StakeAccount>, k: int, owner: Pubkey)
    requires
        0 <= k < stakes.len(),
    ensures
        count_owned(stakes.remove(k), owner) == count_owned(stakes, owner) - if stakes[k].owner
            == owner {
            1int
        } else {
            0int
        },
{
    let a = stakes.subrange(0, k);
    let b = stakes.subrange(k + 1, stakes.len() as int);
    assert(stakes =~= a.push(stakes[k]) + b);
    lemma_count_concat(a.push(stakes[k]), b, owner);
    lemma_count_push(a, stakes[k], owner);
    assert(stakes.remove(k) =~= a + b);
    lemma_count_concat(a, b, owner);
}

proof fn lemma_count_at_least_one(stakes: Seq<StakeAccount>, k: int, owner: Pubkey)
    requires
        0 <= k < stakes.len(),
        stakes[k].owner == owner,
    ensures
        count_owned(stakes, owner) >= 1,
{
    lemma_count_remove(stakes, k, owner);
    lemma_count_nonneg(stakes.remove(k), owner);
}

proof fn lemma_count_absent(stakes: Seq<StakeAccount>, owner: Pubkey)
    requires
        forall|k: int| 0 <= k < stakes.len() ==> stakes[k].owner != owner,
    ensures
        count_owned(stakes, owner) == 0,
    decreases stakes.len(),
{
    if stakes.len() > 0 {
        lemma_count_absent(stakes.drop_last(), owner);
    }
}

proof fn lemma_sum_push(users: Seq<UserAccount>, u: UserAccount)
    ensures
        sum_staked(users.push(u)) == sum_staked(users) + u.total_staked,
{
    assert(users.push(u).drop_last() =~= users);
}

proof fn lemma_sum_update(users: Seq<UserAccount>, i: int, u: UserAccount)
    requires
        0 <= i < users.len(),
    ensures
        sum_staked(users.update(i, u)) == sum_staked(users) - users[i].total_staked
            + u.total_staked,
    decreases users.len(),
{
    if i == users.len() - 1 {
        assert(users.update(i, u).drop_last() =~= users.drop_last());
        assert(users.update(i, u).last() == u);
    } else {
        assert(users.update(i, u).drop_last() =~= users.drop_last().update(i, u));
        assert(users.update(i, u).last() == users.last());
        lemma_sum_update(users.drop_last(), i, u);
    }
}

/// The whole persisted state of the staking registry.
pub struct Ledger {
    /// The singleton configuration; `None` until `init_config` has run.
    pub config: Option<StakeConfig>,
    /// One aggregate record per registered depositor.
    pub users: Vec<UserAccount>,
    /// One lock record per currently locked asset.
    pub stakes: Vec<StakeAccount>,
    /// The outstanding delegated-spending capabilities, one per lock record,
    /// aligned with `stakes` index by index.
    pub grants: Vec<DelegateGrant>,
}

impl Ledger {
    /// Well-formedness of the registry: record keys are unique, every record
    /// is internally well-formed, every lock record belongs to a registered
    /// depositor, the aggregate counters agree exactly with the lock records
    /// they count, and each lock record has exactly one matching capability.
    pub open spec fn wf(self) -> bool {
        &&& forall|i: int, j: int|
            0 <= i < j < self.users@.len() ==> self.users@[i].owner != self.users@[j].owner
        &&& forall|k: int, l: int|
            0 <= k < l < self.stakes@.len() ==> self.stakes@[k].asset_id
                != self.stakes@[l].asset_id
        &&& forall|i: int| 0 <= i < self.users@.len() ==> (#[trigger] self.users@[i]).wf()
        &&& forall|k: int| 0 <= k < self.stakes@.len() ==> (#[trigger] self.stakes@[k]).wf()
        &&& forall|k: int|
            0 <= k < self.stakes@.len() ==> has_user(
                self.users@,
                (#[trigger] self.stakes@[k]).owner,
            )
        &&& forall|i: int|
            0 <= i < self.users@.len() ==> (#[trigger] self.users@[i]).total_staked
                == count_owned(self.stakes@, self.users@[i].owner)
        &&& sum_staked(self.users@) == self.stakes@.len()
        &&& self.grants@.len() == self.stakes@.len()
        &&& forall|k: int|
            0 <= k < self.stakes@.len() ==> grant_matches(
                #[trigger] self.grants@[k],
                self.stakes@[k],
                self.config->Some_0.authority,
            )
        &&& self.config matches Some(c) ==> c.total_staked == self.stakes@.len()
        &&& self.config is None ==> self.stakes@.len() == 0
    }

    /// A fresh deployment: no configuration, no depositors, no locks, no
    /// outstanding capabilities.
    pub fn new() -> (l: Ledger)
        ensures
            l.wf(),
            l.config is None,
            l.users@ == Seq::<UserAccount>::empty(),
            l.stakes@ == Seq::<StakeAccount>::empty(),
            l.grants@ == Seq::<DelegateGrant>::empty(),
    {
        Ledger { config: None, users: Vec::new(), stakes: Vec::new(), grants: Vec::new() }
    }

    /// One-time creation of the singleton configuration. The caller becomes
    /// the registry's authority; the registry starts unpaused with no locked
    /// assets. A second call always fails `AlreadyExists` and changes nothing.
    pub fn init_config(
        &mut self,
        caller: Pubkey,
        reward_mint: Pubkey,
        collection: Pubkey,
        reward_rate: u64,
    ) -> (r: Result<(), StakingError>)
        requires
            old(self).wf(),
        ensures
            final(self).wf(),
            old(self).config is Some ==> r == Err::<(), StakingError>(StakingError::AlreadyExists)
                && *final(self) == *old(self),
            old(self).config is None ==> ({
                &&& r == Ok::<(), StakingError>(())
                &&& final(self).config == Some(
                    StakeConfig {
                        authority: caller,
                        reward_mint,
                        collection,
                        reward_rate,
                        is_paused: false,
                        total_staked: 0,
                    },
                )
                &&& final(self).users@ == old(self).users@
                &&& final(self).stakes@ == old(self).stakes@
                &&& final(self).grants@ == old(self).grants@
            }),
    {
        match self.config {
            Some(_) => Err(StakingError::AlreadyExists),
            None => {
                self.config = Some(
                    StakeConfig {
                        authority: caller,
                        reward_mint,
                        collection,
                        reward_rate,
                        is_paused: false,
                        total_staked: 0,
                    },
                );
                Ok(())
            },
        }
    }

    /// One-time creation of the caller's aggregate record, with nothing
    /// locked, no accrued credit, and the clock reading `now` as its claim
    /// time. A second call for the same caller always fails `AlreadyExists`
    /// and changes nothing: repeated initialization is rejected, never
    /// silently accepted.
    pub fn init_user(&mut self, caller: Pubkey, now: i64) -> (r: Result<(), StakingError>)
        requires
            old(self).wf(),
            0 <= now,
        ensures
            final(self).wf(),
            has_user(old(self).users@, caller) ==> r == Err::<(), StakingError>(
                StakingError::AlreadyExists,
            ) && *final(self) == *old(self),
            !has_user(old(self).users@, caller) ==> ({
                &&& r == Ok::<(), StakingError>(())
                &&& final(self).users@ == old(self).users@.push(
                    UserAccount {
                        owner: caller,
                        total_staked: 0,
                        reward_claimed: 0,
                        last_claim_time: now,
                    },
                )
                &&& final(self).config == old(self).config
                &&& final(self).stakes@ == old(self).stakes@
                &&& final(self).grants@ == old(self).grants@
            }),
    {
        match self.find_user_index(caller) {
            Some(_) => Err(StakingError::AlreadyExists),
            None => {
                let u = UserAccount {
                    owner: caller,
                    total_staked: 0,
                    reward_claimed: 0,
                    last_claim_time: now,
                };
                proof {
                    lemma_count_absent(self.stakes@, caller);
                    lemma_sum_push(self.users@, u);
                }
                self.users.push(u);
                proof {
                    assert forall|k: int| 0 <= k < self.stakes@.len() implies has_user(
                        self.users@,
                        (#[trigger] self.stakes@[k]).owner,
                    ) by {
                        let o = self.stakes@[k].owner;
                        let i0 = choose|i: int|
                            0 <= i < old(self).users@.len() && old(self).users@[i].owner == o;
                        assert(self.users@[i0].owner == o);
                    }
                }
                Ok(())
            },
        }
    }

    /// Lock (stake): the caller locks one unit of `asset_id`. Preconditions
    /// are checked in order — the registry must not be paused
    /// (`StakingPaused`), the caller must be below the per-depositor cap
    /// (`MaxStakeReached`), the caller must hold exactly one unit of the
    /// asset (`InvalidOwner`), and the asset must not already be locked
    /// (`AlreadyExists`, from the storage primitive). On success, atomically:
    /// a revocable capability over the unit is granted to the registry's
    /// authority without transferring ownership, the lock record is created
    /// at clock reading `now`, and both aggregate counters grow by one. On
    /// failure nothing changes.
    ///
    /// `units_held` is the caller's balance of the asset as the surrounding
    /// ledger reports it.
    pub fn stake(&mut self, caller: Pubkey, asset_id: Pubkey, units_held: u64, now: i64) -> (r:
        Result<(), StakingError>)
        requires
            old(self).wf(),
            old(self).config is Some,
            has_user(old(self).users@, caller),
            0 <= now,
        ensures
            final(self).wf(),
            ({
                let c = old(self).config->Some_0;
                let u = user_of(old(self).users@, caller);
                &&& (c.is_paused ==> r == Err::<(), StakingError>(StakingError::StakingPaused)
                    && *final(self) == *old(self))
                &&& (!c.is_paused && u.total_staked >= MAX_NFTS_PER_USER ==> r == Err::<(),
                StakingError>(StakingError::MaxStakeReached) && *final(self) == *old(self))
                &&& (!c.is_paused && u.total_staked < MAX_NFTS_PER_USER && units_held != 1 ==> r
                    == Err::<(), StakingError>(StakingError::InvalidOwner) && *final(self) == *old(
                    self,
                ))
                &&& (!c.is_paused && u.total_staked < MAX_NFTS_PER_USER && units_held == 1
                    && has_stake(old(self).stakes@, asset_id) ==> r == Err::<(), StakingError>(
                    StakingError::AlreadyExists,
                ) && *final(self) == *old(self))
                &&& (!c.is_paused && u.total_staked < MAX_NFTS_PER_USER && units_held == 1
                    && !has_stake(old(self).stakes@, asset_id) ==> ({
                    &&& r == Ok::<(), StakingError>(())
                    &&& final(self).stakes@ == old(self).stakes@.push(
                        StakeAccount {
                            owner: caller,
                            asset_id,
                            stake_time: now,
                            last_claim_time: now,
                            is_staked: true,
                        },
                    )
                    &&& final(self).grants@ == old(self).grants@.push(
                        DelegateGrant {
                            grantor: caller,
                            delegate: c.authority,
                            asset_id,
                            units: 1,
                        },
                    )
                    &&& final(self).users@ == old(self).users@.update(
                        user_index(old(self).users@, caller),
                        UserAccount {
                            owner: caller,
                            total_staked: (u.total_staked + 1) as u64,
                            reward_claimed: u.reward_claimed,
                            last_claim_time: u.last_claim_time,
                        },
                    )
                    &&& final(self).config == Some(
                        StakeConfig {
                            authority: c.authority,
                            reward_mint: c.reward_mint,
                            collection: c.collection,
                            reward_rate: c.reward_rate,
                            is_paused: c.is_paused,
                            total_staked: (c.total_staked + 1) as u64,
                        },
                    )
                }))
            }),
    {
        let cfg = match self.config {
            Some(c) => c,
            None => {
                proof {
                    assert(false);
                }
                return Err(StakingError::StakingPaused);
            },
        };
        if cfg.is_paused {
            return Err(StakingError::StakingPaused);
        }
        let i = match self.find_user_index(caller) {
            Some(i) => i,
            None => {
                proof {
                    assert(false);
                }
                return Err(StakingError::Unauthorized);
            },
        };
        proof {
            let i0 = user_index(self.users@, caller);
            assert(0 <= i0 < self.users@.len() && self.users@[i0].owner == caller);
            if i as int != i0 {
                assert(false);
            }
        }
        let u = self.users[i];
        if u.total_staked >= MAX_NFTS_PER_USER {
            return Err(StakingError::MaxStakeReached);
        }
        if units_held != 1 {
            return Err(StakingError::InvalidOwner);
        }
        match self.find_stake_index(asset_id) {
            Some(_) => {
                return Err(StakingError::AlreadyExists);
            },
            None => {},
        }
        let s = StakeAccount {
            owner: caller,
            asset_id,
            stake_time: now,
            last_claim_time: now,
            is_staked: true,
        };
        let g = DelegateGrant { grantor: caller, delegate: cfg.authority, asset_id, units: 1 };
        let new_user = UserAccount {
            owner: caller,
            total_staked: u.total_staked + 1,
            reward_claimed: u.reward_claimed,
            last_claim_time: u.last_claim_time,
        };
        self.stakes.push(s);
        self.grants.push(g);
        self.users[i] = new_user;
        let stakes_len = self.stakes.len();
        let new_total: u64 = stakes_len as u64;
        self.config = Some(
            StakeConfig {
                authority: cfg.authority,
                reward_mint: cfg.reward_mint,
                collection: cfg.collection,
                reward_rate: cfg.reward_rate,
                is_paused: cfg.is_paused,
                total_staked: new_total,
            },
        );
        proof {
            let old_users = old(self).users@;
            let old_stakes = old(self).stakes@;
            let ui = i as int;
            assert(self.stakes@.len() == old_stakes.len() + 1);
            assert(new_total == cfg.total_staked + 1);
            lemma_sum_update(old_users, ui, new_user);
            assert forall|j: int| 0 <= j < self.users@.len() implies (#[trigger] self.users@[j]).total_staked
                == count_owned(self.stakes@, self.users@[j].owner) by {
                lemma_count_push(old_stakes, s, old_users[j].owner);
                if j == ui {
                    assert(self.users@[j] == new_user);
                } else {
                    assert(self.users@[j] == old_users[j]);
                    if j < ui {
                        assert(old_users[j].owner != old_users[ui].owner);
                    } else {
                        assert(old_users[ui].owner != old_users[j].owner);
                    }
                }
            }
            assert forall|k: int| 0 <= k < self.stakes@.len() implies has_user(
                self.users@,
                (#[trigger] self.stakes@[k]).owner,
            ) by {
                if k < old_stakes.len() {
                    let o = old_stakes[k].owner;
                    let w = choose|x: int| 0 <= x < old_users.len() && old_users[x].owner == o;
                    assert(self.users@[w].owner == o);
                } else {
                    assert(self.users@[ui].owner == caller);
                }
            }
        }
        Ok(())
    }

    /// Unlock (unstake): the caller releases a previously locked asset.
    /// Preconditions are checked in order — an active lock record must exist
    /// (`NotStaked`), the caller must own it (`Unauthorized`), and the
    /// minimum holding period must have elapsed (`MinimumStakeDurationNotMet`).
    /// On success, atomically: the reward credit for every full day locked is
    /// accrued with clamped arithmetic, the delegated capability is revoked,
    /// the lock record is destroyed, both aggregate counters shrink by one
    /// (clamped subtraction, which under the registry invariant never floors),
    /// and the caller's claim time moves to `now`. The earned credit is
    /// returned. On failure nothing changes.
    ///
    /// The surrounding ledger's clock is monotonic, so `now` is no earlier
    /// than the reading stored when the asset was locked.
    pub fn unstake(&mut self, caller: Pubkey, asset_id: Pubkey, now: i64) -> (r: Result<
        u64,
        StakingError,
    >)
        requires
            old(self).wf(),
            old(self).config is Some,
            has_user(old(self).users@, caller),
            0 <= now,
            has_stake(old(self).stakes@, asset_id) ==> stake_of(
                old(self).stakes@,
                asset_id,
            ).stake_time <= now,
        ensures
            final(self).wf(),
            !has_stake(old(self).stakes@, asset_id) ==> r == Err::<u64, StakingError>(
                StakingError::NotStaked,
            ) && *final(self) == *old(self),
            ({
                let s = stake_of(old(self).stakes@, asset_id);
                &&& (has_stake(old(self).stakes@, asset_id) && s.owner != caller ==> r == Err::<
                    u64,
                    StakingError,
                >(StakingError::Unauthorized) && *final(self) == *old(self))
                &&& (has_stake(old(self).stakes@, asset_id) && s.owner == caller && now
                    - s.stake_time < MIN_STAKE_DURATION ==> r == Err::<u64, StakingError>(
                    StakingError::MinimumStakeDurationNotMet,
                ) && *final(self) == *old(self))
                &&& (has_stake(old(self).stakes@, asset_id) && s.owner == caller && now
                    - s.stake_time >= MIN_STAKE_DURATION ==> ({
                    let k = stake_index(old(self).stakes@, asset_id);
                    let c = old(self).config->Some_0;
                    let u = user_of(old(self).users@, caller);
                    let points = reward_points(s.stake_time, now, c.reward_rate);
                    &&& r == Ok::<u64, StakingError>(points)
                    &&& final(self).stakes@ == old(self).stakes@.remove(k)
                    &&& final(self).grants@ == old(self).grants@.remove(k)
                    &&& final(self).users@ == old(self).users@.update(
                        user_index(old(self).users@, caller),
                        UserAccount {
                            owner: caller,
                            total_staked: (u.total_staked - 1) as u64,
                            reward_claimed: sat_add_u64(u.reward_claimed, points),
                            last_claim_time: now,
                        },
                    )
                    &&& final(self).config == Some(
                        StakeConfig {
                            authority: c.authority,
                            reward_mint: c.reward_mint,
                            collection: c.collection,
                            reward_rate: c.reward_rate,
                            is_paused: c.is_paused,
                            total_staked: (c.total_staked - 1) as u64,
                        },
                    )
                }))
            }),
    {
        let k = match self.find_stake_index(asset_id) {
            Some(k) => k,
            None => {
                return Err(StakingError::NotStaked);
            },
        };
        proof {
            let k0 = stake_index(self.stakes@, asset_id);
            assert(0 <= k0 < self.stakes@.len() && self.stakes@[k0].asset_id == asset_id);
            if k as int != k0 {
                assert(false);
            }
        }
        let s = self.stakes[k];
        if !s.is_staked {
            return Err(StakingError::NotStaked);
        }
        if s.owner != caller {
            return Err(StakingError::Unauthorized);
        }
        let i = match self.find_user_index(caller) {
            Some(i) => i,
            None => {
                proof {
                    assert(false);
                }
                return Err(StakingError::Unauthorized);
            },
        };
        proof {
            let i0 = user_index(self.users@, caller);
            assert(0 <= i0 < self.users@.len() && self.users@[i0].owner == caller);
            if i as int != i0 {
                assert(false);
            }
        }
        let stake_duration = now - s.stake_time;
        if stake_duration < MIN_STAKE_DURATION {
            return Err(StakingError::MinimumStakeDurationNotMet);
        }
        let days_staked: u64 = (stake_duration as u64) / 86400;
        let cfg = match self.config {
            Some(c) => c,
            None => {
                proof {
                    assert(false);
                }
                return Err(StakingError::NotStaked);
            },
        };
        let points_earned = saturating_mul_u64(days_staked, cfg.reward_rate);
        let u = self.users[i];
        proof {
            lemma_count_at_least_one(self.stakes@, k as int, caller);
        }
        let new_user = UserAccount {
            owner: u.owner,
            total_staked: saturating_sub_u64(u.total_staked, 1),
            reward_claimed: saturating_add_u64(u.reward_claimed, points_earned),
            last_claim_time: now,
        };
        self.users[i] = new_user;
        // Destroying the lock record returns its storage deposit to the
        // owner; revoking the grant restores the owner's sole authority.
        let _destroyed = self.stakes.remove(k);
        let _revoked = self.grants.remove(k);
        let new_total = saturating_sub_u64(cfg.total_staked, 1);
        self.config = Some(
            StakeConfig {
                authority: cfg.authority,
                reward_mint: cfg.reward_mint,
                collection: cfg.collection,
                reward_rate: cfg.reward_rate,
                is_paused: cfg.is_paused,
                total_staked: new_total,
            },
        );
        proof {
            let old_users = old(self).users@;
            let old_stakes = old(self).stakes@;
            let ki = k as int;
            let ui = i as int;
            assert(self.stakes@.len() == old_stakes.len() - 1);
            assert(new_total == cfg.total_staked - 1);
            lemma_sum_update(old_users, ui, new_user);
            assert forall|j: int| 0 <= j < self.users@.len() implies (#[trigger] self.users@[j]).total_staked
                == count_owned(self.stakes@, self.users@[j].owner) by {
                lemma_count_remove(old_stakes, ki, old_users[j].owner);
                if j == ui {
                    assert(self.users@[j] == new_user);
                } else {
                    assert(self.users@[j] == old_users[j]);
                    if j < ui {
                        assert(old_users[j].owner != old_users[ui].owner);
                    } else {
                        assert(old_users[ui].owner != old_users[j].owner);
                    }
                }
            }
            assert forall|x: int| 0 <= x < self.stakes@.len() implies has_user(
                self.users@,
                (#[trigger] self.stakes@[x]).owner,
            ) by {
                let o = self.stakes@[x].owner;
                assert(exists|y: int|
                    0 <= y < old_stakes.len() && old_stakes[y].owner == o) by {
                    if x < ki {
                        assert(old_stakes[x].owner == o);
                    } else {
                        assert(old_stakes[x + 1].owner == o);
                    }
                }
                let w = choose|y: int| 0 <= y < old_users.len() && old_users[y].owner == o;
                assert(self.users@[w].owner == o);
            }
        }
        Ok(points_earned)
    }

    /// Index of the depositor record owned by `owner`, if one exists.
    fn find_user_index(&self, owner: Pubkey) -> (r: Option<usize>)
        ensures
            match r {
                Some(i) => i < self.users@.len() && self.users@[i as int].owner == owner,
                None => !has_user(self.users@, owner),
            },
    {
        let mut i: usize = 0;
        while i < self.users.len()
            invariant
                i <= self.users@.len(),
                forall|j: int| 0 <= j < i ==> self.users@[j].owner != owner,
            decreases self.users@.len() - i,
        {
            if self.users[i].owner == owner {
                return Some(i);
            }
            i = i + 1;
        }
        None
    }

    /// Index of the lock record for `asset_id`, if one exists.
    fn find_stake_index(&self, asset_id: Pubkey) -> (r: Option<usize>)
        ensures
            match r {
                Some(k) => k < self.stakes@.len() && self.stakes@[k as int].asset_id == asset_id,
                None => !has_stake(self.stakes@, asset_id),
            },
    {
        let mut k: usize = 0;
        while k < self.stakes.len()
            invariant
                k <= self.stakes@.len(),
                forall|j: int| 0 <= j < k ==> self.stakes@[j].asset_id != asset_id,
            decreases self.stakes@.len() - k,
        {
            if self.stakes[k].asset_id == asset_id {
                return Some(k);
            }
            k = k + 1;
        }
        None
    }
}

} // verus!
