//! Access to the account records: lookup, settlement, and upsert.

use crate::account::{Account, HumanAccount, HumanStats};
use crate::farm::Farm;
use crate::identity::ShortAccountHash;
use crate::model::{lemma_can_settle, lemma_slot};
use vstd::prelude::*;

verus! {

impl Farm {
    /// The record kept under `hash` as it stands, without settling it.
    pub fn get_internal_account(&self, hash: &ShortAccountHash) -> (r: Option<Account>)
        requires
            self@.keys_ok(),
        ensures
            r == self@.account(*hash),
    {
        match self.find_account(hash) {
            Some(i) => {
                proof {
                    lemma_slot(self@, *hash, i as int);
                }
                Some(self.account_at(i))
            },
            None => None,
        }
    }

    /// Settles `account` at the ledger's current rate.
    pub fn touch(&self, account: &mut Account)
        requires
            old(account).can_settle(self@.near_per_cucumber_numer),
        ensures
            *final(account) == old(account).settled(self@.near_per_cucumber_numer),
    {
        account.settle(self.near_per_cucumber_numer());
    }

    /// The record kept under `hash`, or a record opened now if there is
    /// none, settled at the current rate. The ledger is not changed.
    pub fn get_mut_account(&self, hash: &ShortAccountHash) -> (r: Account)
        requires
            self@.keys_ok(),
            self@.rewards_ok(),
        ensures
            r == self@.settled_account(*hash),
    {
        let mut account = match self.get_internal_account(hash) {
            Some(a) => a,
            None => Account::open_at(self.near_per_cucumber_numer()),
        };
        proof {
            lemma_can_settle(self@, *hash);
        }
        self.touch(&mut account);
        account
    }

    /// Puts `account` under `hash`, in the place of the record that was
    /// there or, if there was none, after all others.
    pub(crate) fn save_account(&mut self, hash: &ShortAccountHash, account: &Account)
        requires
            old(self)@.keys_ok(),
        ensures
            final(self)@ == old(self)@.with_account(*hash, *account),
    {
        match self.find_account(hash) {
            Some(i) => {
                proof {
                    lemma_slot(self@, *hash, i as int);
                }
                self.put_account(i, *hash, *account);
            },
            None => {
                self.push_account(*hash, *account);
            },
        }
    }

    /// Whether a record is kept under `hash`.
    pub fn account_exists(&self, hash: &ShortAccountHash) -> (r: bool)
        ensures
            r == self@.has_account(*hash),
    {
        self.find_account(hash).is_some()
    }

    /// The claimable reward of the identity, settled at the current rate;
    /// zero for an identity without a record.
    pub fn get_near_balance(&self, hash: &ShortAccountHash) -> (r: u128)
        requires
            self.wf(),
        ensures
            r == match self@.account(*hash) {
                Some(a) => a.settled(self@.near_per_cucumber_numer).near_balance,
                None => 0,
            },
    {
        match self.get_internal_account(hash) {
            Some(mut account) => {
                proof {
                    lemma_can_settle(self@, *hash);
                }
                self.touch(&mut account);
                account.near_balance
            },
            None => 0,
        }
    }

    /// The balances of the identity, settled at the current rate; `None` for
    /// an identity without a record.
    pub fn get_account(&self, hash: &ShortAccountHash) -> (r: Option<HumanAccount>)
        requires
            self.wf(),
        ensures
            r == match self@.account(*hash) {
                Some(a) => Some(a.settled(self@.near_per_cucumber_numer).human()),
                None => None,
            },
    {
        match self.get_internal_account(hash) {
            Some(mut account) => {
                proof {
                    lemma_can_settle(self@, *hash);
                }
                self.touch(&mut account);
                Some(account.to_human())
            },
            None => None,
        }
    }

    /// The stake of the identity as recorded; zero for an identity without a
    /// record.
    pub fn ft_balance_of(&self, hash: &ShortAccountHash) -> (r: u128)
        requires
            self@.keys_ok(),
        ensures
            r == match self@.account(*hash) {
                Some(a) => a.cucumber_balance,
                None => 0,
            },
    {
        match self.get_internal_account(hash) {
            Some(account) => account.cucumber_balance,
            None => 0,
        }
    }

    /// The stake of the identity as recorded; zero for an identity without a
    /// record.
    pub fn get_balance(&self, hash: &ShortAccountHash) -> (r: u128)
        requires
            self@.keys_ok(),
        ensures
            r == match self@.account(*hash) {
                Some(a) => a.cucumber_balance,
                None => 0,
            },
    {
        self.ft_balance_of(hash)
    }

    /// The stake in circulation: the sum of the stakes of all records.
    pub fn ft_total_supply(&self) -> (r: u128)
        ensures
            r == self@.total_cucumber_balance,
            self.wf() ==> r == self@.staked(),
    {
        self.total_cucumber_balance()
    }

    /// The stake in circulation: the sum of the stakes of all records.
    pub fn get_total_supply(&self) -> (r: u128)
        ensures
            r == self@.total_cucumber_balance,
            self.wf() ==> r == self@.staked(),
    {
        self.total_cucumber_balance()
    }

    /// The ledger's totals.
    pub fn get_stats(&self) -> (r: HumanStats)
        ensures
            r == (HumanStats {
                total_cucumber_balance: self@.total_cucumber_balance,
                total_near_claimed: self@.total_near_claimed,
                total_near_received: self@.total_near_received,
            }),
    {
        HumanStats {
            total_cucumber_balance: self.total_cucumber_balance(),
            total_near_claimed: self.total_near_claimed(),
            total_near_received: self.total_near_received(),
        }
    }

    /// The reward ever paid out.
    pub fn get_total_near_claimed(&self) -> (r: u128)
        ensures
            r == self@.total_near_claimed,
    {
        self.total_near_claimed()
    }

    /// The reward ever received.
    pub fn get_total_near_received(&self) -> (r: u128)
        ensures
            r == self@.total_near_received,
    {
        self.total_near_received()
    }

    /// The vault kept under `id`, if there is one.
    pub fn get_vault(&self, id: crate::vault::VaultId) -> (r: Option<crate::vault::Vault>)
        requires
            self@.keys_ok(),
        ensures
            r == self@.vault(id),
    {
        match self.find_vault(id) {
            Some(i) => {
                proof {
                    crate::model::lemma_vault_slot(self@, id, i as int);
                }
                Some(self.vault_at(i))
            },
            None => None,
        }
    }
}

} // verus!
