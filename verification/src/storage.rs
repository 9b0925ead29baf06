//! The fee for the storage a record takes.

use crate::error::FarmError;
use crate::farm::Farm;
use crate::identity::ShortAccountHash;
use crate::model::LedgerView;
use crate::rewards::lemma_registered;
use vstd::prelude::*;

verus! {

/// The bytes the balances of one record take: four numbers of 128 bits.
pub const ACCOUNT_BYTES: u128 = 64;

/// The bytes one record is charged for: its balances, its key, and the
/// overhead of keeping it.
pub const STORAGE_AMOUNT_BYTES: u128 = ACCOUNT_BYTES + 21 + 40;

/// The price of one byte of storage.
pub const STORAGE_PRICE_PER_BYTE: u128 = 10_000_000_000_000_000_000;

/// What an identity has paid for storage, and what of it can be withdrawn.
#[derive(Clone, Copy, Debug, PartialEq, Eq, Structural)]
pub struct StorageBalance {
    pub total: u128,
    pub available: u128,
}

/// The least and the most that is taken for the storage of one record.
#[derive(Clone, Copy, Debug, PartialEq, Eq, Structural)]
pub struct StorageBalanceBounds {
    pub min: u128,
    pub max: Option<u128>,
}

/// The outcome of a storage deposit: what goes back to the payer, and what
/// the identity has then paid.
#[derive(Clone, Copy, Debug, PartialEq, Eq, Structural)]
pub struct StorageDeposit {
    pub refund: u128,
    pub balance: StorageBalance,
}

/// The fee for the storage of one record.
pub open spec fn storage_fee() -> u128 {
    (STORAGE_AMOUNT_BYTES * STORAGE_PRICE_PER_BYTE) as u128
}

/// The price of one byte of storage as `near_sdk::env::storage_byte_cost`
/// gives it: that function returns the crate's constant
/// `STORAGE_PRICE_PER_BYTE`, ten to the power nineteen, and reads nothing.
#[verifier::external_body]
fn storage_byte_cost() -> (r: u128)
    ensures
        r == STORAGE_PRICE_PER_BYTE,
{
    near_sdk::env::storage_byte_cost()
}

impl LedgerView {
    /// Why a storage deposit is turned down, if it is.
    pub open spec fn storage_deposit_error(
        self,
        hash: ShortAccountHash,
        attached_deposit: u128,
    ) -> Option<FarmError> {
        if !self.has_account(hash) && attached_deposit < storage_fee() {
            Some(FarmError::StorageDepositTooLow)
        } else {
            None
        }
    }
}

impl Farm {
    /// The fee for the storage of one record: the least and the most are
    /// the same.
    pub fn storage_balance_bounds() -> (r: StorageBalanceBounds)
        ensures
            r == (StorageBalanceBounds { min: storage_fee(), max: Some(storage_fee()) }),
            storage_fee() == 1_250_000_000_000_000_000_000,
    {
        let fee: u128 = STORAGE_AMOUNT_BYTES * storage_byte_cost();
        StorageBalanceBounds { min: fee, max: Some(fee) }
    }

    /// What the identity has paid for storage: the fee if it has a record,
    /// of which nothing can be withdrawn, and `None` if it has none.
    pub fn storage_balance_of(&self, hash: &ShortAccountHash) -> (r: Option<StorageBalance>)
        ensures
            r == if self@.has_account(*hash) {
                Some(StorageBalance { total: storage_fee(), available: 0 })
            } else {
                None
            },
    {
        if self.account_exists(hash) {
            Some(StorageBalance { total: Self::storage_balance_bounds().min, available: 0 })
        } else {
            None
        }
    }

    /// A storage deposit of `attached_deposit` for the identity. For an
    /// identity that has a record nothing changes and all of the deposit goes
    /// back. For any other the deposit must cover the fee; its record is
    /// opened and what exceeds the fee goes back. On any error nothing
    /// changes.
    pub fn storage_deposit(&mut self, hash: &ShortAccountHash, attached_deposit: u128) -> (r:
        Result<StorageDeposit, FarmError>)
        requires
            old(self).wf(),
        ensures
            final(self).wf(),
            r == match old(self)@.storage_deposit_error(*hash, attached_deposit) {
                Some(e) => Err::<StorageDeposit, FarmError>(e),
                None => Ok(
                    StorageDeposit {
                        refund: if old(self)@.has_account(*hash) {
                            attached_deposit
                        } else {
                            (attached_deposit - storage_fee()) as u128
                        },
                        balance: StorageBalance { total: storage_fee(), available: 0 },
                    },
                ),
            },
            final(self)@ == if r is Ok && !old(self)@.has_account(*hash) {
                old(self)@.registered(*hash)
            } else {
                old(self)@
            },
            r is Ok ==> final(self)@.has_account(*hash),
    {
        let fee: u128 = Self::storage_balance_bounds().min;
        let balance = StorageBalance { total: fee, available: 0 };
        if self.account_exists(hash) {
            return Ok(StorageDeposit { refund: attached_deposit, balance });
        }
        if attached_deposit < fee {
            return Err(FarmError::StorageDepositTooLow);
        }
        proof {
            lemma_registered(self@, *hash);
        }
        let account = self.get_mut_account(hash);
        self.save_account(hash, &account);
        Ok(StorageDeposit { refund: attached_deposit - fee, balance })
    }
}

} // verus!
