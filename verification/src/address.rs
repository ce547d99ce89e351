//! Deterministic derived addressing: every record's location is a pure,
//! injective function of a fixed seed tag, the program's own identity, and
//! the relevant owner or asset identity. Callers and the registry both
//! recompute this address on every access instead of trusting a stored
//! pointer or a lookup table; injectivity is what lets the registry key its
//! records by owner and asset identity directly.

use vstd::prelude::*;
use crate::state::Pubkey;

verus! {

/// A derived record address. Each variant carries the fixed seed tag of one
/// record kind; the owning program's identity and the distinguishing key are
/// the remaining seeds.
#[derive(Clone, Copy, PartialEq, Eq, Structural, Debug)]
pub enum Address {
    /// The singleton configuration record, derived from the fixed seed alone.
    Config { program: Pubkey },
    /// A depositor's aggregate record, derived from the seed and the
    /// depositor's identity.
    User { program: Pubkey, owner: Pubkey },
    /// A locked asset's record, derived from the seed and the asset's
    /// identity.
    Stake { program: Pubkey, asset_id: Pubkey },
}

/// Address of the singleton configuration record of `program`.
pub fn derive_config_address(program: Pubkey) -> (a: Address)
    ensures
        a == (Address::Config { program }),
{
    Address::Config { program }
}

/// Address of the aggregate record of depositor `owner` under `program`.
pub fn derive_user_address(program: Pubkey, owner: Pubkey) -> (a: Address)
    ensures
        a == (Address::User { program, owner }),
{
    Address::User { program, owner }
}

/// Address of the lock record of asset `asset_id` under `program`.
pub fn derive_stake_address(program: Pubkey, asset_id: Pubkey) -> (a: Address)
    ensures
        a == (Address::Stake { program, asset_id }),
{
    Address::Stake { program, asset_id }
}

/// Law: derived addressing is injective. Records of different kinds never
/// share an address, and within one kind equal addresses force equal inputs,
/// so an address confusion between two distinct records is impossible.
pub proof fn lemma_derive_address_injective(p1: Pubkey, p2: Pubkey, k1: Pubkey, k2: Pubkey)
    ensures
        (Address::Config { program: p1 }) != (Address::User { program: p2, owner: k2 }),
        (Address::Config { program: p1 }) != (Address::Stake { program: p2, asset_id: k2 }),
        (Address::User { program: p1, owner: k1 }) != (Address::Stake {
            program: p2,
            asset_id: k2,
        }),
        (Address::Config { program: p1 }) == (Address::Config { program: p2 }) ==> p1 == p2,
        (Address::User { program: p1, owner: k1 }) == (Address::User { program: p2, owner: k2 })
            ==> p1 == p2 && k1 == k2,
        (Address::Stake { program: p1, asset_id: k1 }) == (Address::Stake {
            program: p2,
            asset_id: k2,
        }) ==> p1 == p2 && k1 == k2,
{
}

} // verus!
