//! Escrow vaults and their identifiers.

use crate::identity::ShortAccountHash;
use vstd::prelude::*;

verus! {

/// Identifier of an escrow vault.
#[derive(Clone, Copy, Debug, PartialEq, Eq, Structural)]
pub struct VaultId(pub u64);

impl VaultId {
    /// The identifier that follows this one.
    pub fn next(&self) -> (r: Self)
        requires
            self.0 < u64::MAX,
        ensures
            r.0 == self.0 + 1,
    {
        Self(self.0 + 1)
    }
}

/// Tokens withdrawn from a sender and held for an intended receiver.
#[derive(Clone, Copy, Debug)]
pub struct Vault {
    /// The short hash of the receiver, the only identity that may draw.
    pub receiver_id_hash: ShortAccountHash,
    /// What remains in the vault.
    pub balance: u128,
}

} // verus!
