//! The ledger itself: its records in memory, its view as a [`LedgerView`],
//! and the small steps from which the operations are built.

use crate::account::Account;
use crate::identity::ShortAccountHash;
use crate::model::{AccountEntry, LedgerView, VaultEntry};
use crate::state::{sum_escrow, FarmState};
use crate::vault::{Vault, VaultId};
use vstd::prelude::*;

verus! {

/// The staking ledger. Its fields are private: a ledger is made by
/// [`Farm::new`] and changed by its operations only, each of which keeps
/// the invariant [`Farm::wf`].
pub struct Farm {
    accounts: Vec<AccountEntry>,
    banana_token_account_id: String,
    near_per_cucumber_numer: u128,
    total_cucumber_balance: u128,
    total_near_received: u128,
    total_near_claimed: u128,
    vaults: Vec<VaultEntry>,
    next_vault_id: VaultId,
}

impl View for Farm {
    type V = LedgerView;

    /// The state of the ledger, field by field.
    closed spec fn view(&self) -> LedgerView {
        LedgerView {
            accounts: self.accounts@,
            vaults: self.vaults@,
            banana_token_account_id: self.banana_token_account_id@,
            near_per_cucumber_numer: self.near_per_cucumber_numer,
            total_cucumber_balance: self.total_cucumber_balance,
            total_near_received: self.total_near_received,
            total_near_claimed: self.total_near_claimed,
            next_vault_id: self.next_vault_id,
        }
    }
}

impl Farm {
    /// The invariant of the ledger: that of its view.
    pub open spec fn wf(&self) -> bool {
        self@.inv()
    }

    /// An empty ledger that accepts deposits from `banana_token_account_id`.
    pub fn new(banana_token_account_id: String) -> (r: Farm)
        ensures
            r@ == LedgerView::empty(banana_token_account_id@),
            r.wf(),
    {
        let r = Farm {
            accounts: Vec::new(),
            banana_token_account_id,
            near_per_cucumber_numer: 0,
            total_cucumber_balance: 0,
            total_near_received: 0,
            total_near_claimed: 0,
            vaults: Vec::new(),
            next_vault_id: VaultId(0),
        };
        proof {
            assert(r@.accounts =~= Seq::empty());
            assert(r@.vaults =~= Seq::empty());
            crate::model::lemma_empty_inv(banana_token_account_id@);
        }
        r
    }

    /// The ledger as plain data.
    pub fn into_state(self) -> (r: FarmState)
        ensures
            r@ == self@,
    {
        FarmState {
            accounts: self.accounts,
            banana_token_account_id: self.banana_token_account_id,
            near_per_cucumber_numer: self.near_per_cucumber_numer,
            total_cucumber_balance: self.total_cucumber_balance,
            total_near_received: self.total_near_received,
            total_near_claimed: self.total_near_claimed,
            vaults: self.vaults,
            next_vault_id: self.next_vault_id,
        }
    }

    /// The ledger that `state` holds, if it holds one: if it keeps the
    /// invariant.
    pub fn from_state(state: FarmState) -> (r: Option<Farm>)
        ensures
            match r {
                Some(farm) => farm@ == state@ && farm.wf(),
                None => !state@.inv(),
            },
    {
        if !state.is_valid() {
            return None;
        }
        Some(
            Farm {
                accounts: state.accounts,
                banana_token_account_id: state.banana_token_account_id,
                near_per_cucumber_numer: state.near_per_cucumber_numer,
                total_cucumber_balance: state.total_cucumber_balance,
                total_near_received: state.total_near_received,
                total_near_claimed: state.total_near_claimed,
                vaults: state.vaults,
                next_vault_id: state.next_vault_id,
            },
        )
    }

    /// Whether `caller` is the identity from which deposits are accepted.
    pub fn is_banana_token(&self, caller: &String) -> (r: bool)
        ensures
            r == (caller@ == self@.banana_token_account_id),
    {
        *caller == self.banana_token_account_id
    }

    /// The identity from which deposits are accepted.
    pub fn banana_token_account_id(&self) -> (r: String)
        ensures
            r@ == self@.banana_token_account_id,
    {
        self.banana_token_account_id.clone()
    }

    /// The running reward per unit of stake, scaled up by the denominator.
    pub fn near_per_cucumber_numer(&self) -> (r: u128)
        ensures
            r == self@.near_per_cucumber_numer,
    {
        self.near_per_cucumber_numer
    }

    /// The stake in circulation.
    pub fn total_cucumber_balance(&self) -> (r: u128)
        ensures
            r == self@.total_cucumber_balance,
    {
        self.total_cucumber_balance
    }

    /// The reward ever received.
    pub fn total_near_received(&self) -> (r: u128)
        ensures
            r == self@.total_near_received,
    {
        self.total_near_received
    }

    /// The reward ever paid out.
    pub fn total_near_claimed(&self) -> (r: u128)
        ensures
            r == self@.total_near_claimed,
    {
        self.total_near_claimed
    }

    /// The identifier the next vault will get.
    pub fn next_vault_id(&self) -> (r: VaultId)
        ensures
            r == self@.next_vault_id,
    {
        self.next_vault_id
    }

    /// The number of account records.
    pub fn account_count(&self) -> (r: usize)
        ensures
            r == self@.accounts.len(),
    {
        self.accounts.len()
    }

    /// The number of vaults that are not yet resolved.
    pub fn vault_count(&self) -> (r: usize)
        ensures
            r == self@.vaults.len(),
    {
        self.vaults.len()
    }

    /// What the vaults hold, all of them together.
    pub fn total_in_vaults(&self) -> (r: u128)
        requires
            self.wf(),
        ensures
            r == self@.escrowed(),
    {
        proof {
            crate::model::lemma_sum_nonnegative_parts(self@);
        }
        // The invariant keeps the sum within 128 bits.
        match sum_escrow(&self.vaults) {
            Some(held) => held,
            None => 0,
        }
    }

    /// The place of the record kept under `hash`, if there is one.
    pub(crate) fn find_account(&self, hash: &ShortAccountHash) -> (r: Option<usize>)
        ensures
            r is Some == self@.has_account(*hash),
            r matches Some(i) ==> i < self@.accounts.len() && self@.accounts[i as int].hash
                == *hash,
    {
        let mut i: usize = 0;
        while i < self.accounts.len()
            invariant
                i <= self.accounts.len(),
                forall|j: int| 0 <= j < i ==> (#[trigger] self.accounts@[j]).hash != *hash,
            decreases self.accounts.len() - i,
        {
            if self.accounts[i].hash == *hash {
                assert(self@.accounts[i as int].hash == *hash);
                return Some(i);
            }
            i = i + 1;
        }
        None
    }

    /// The record at place `i`.
    pub(crate) fn account_at(&self, i: usize) -> (r: Account)
        requires
            i < self@.accounts.len(),
        ensures
            r == self@.accounts[i as int].account,
    {
        self.accounts[i].account
    }

    /// Replaces the record at place `i`.
    pub(crate) fn put_account(&mut self, i: usize, hash: ShortAccountHash, account: Account)
        requires
            i < old(self)@.accounts.len(),
        ensures
            final(self)@ == (LedgerView {
                accounts: old(self)@.accounts.update(i as int, AccountEntry { hash, account }),
                ..old(self)@
            }),
    {
        self.accounts[i] = AccountEntry { hash, account };
    }

    /// Appends a record.
    pub(crate) fn push_account(&mut self, hash: ShortAccountHash, account: Account)
        ensures
            final(self)@ == (LedgerView {
                accounts: old(self)@.accounts.push(AccountEntry { hash, account }),
                ..old(self)@
            }),
    {
        self.accounts.push(AccountEntry { hash, account });
    }

    /// The place of the vault kept under `id`, if there is one.
    pub(crate) fn find_vault(&self, id: VaultId) -> (r: Option<usize>)
        ensures
            r is Some == self@.has_vault(id),
            r matches Some(i) ==> i < self@.vaults.len() && self@.vaults[i as int].id == id,
    {
        let mut i: usize = 0;
        while i < self.vaults.len()
            invariant
                i <= self.vaults.len(),
                forall|j: int| 0 <= j < i ==> (#[trigger] self.vaults@[j]).id != id,
            decreases self.vaults.len() - i,
        {
            if self.vaults[i].id.0 == id.0 {
                assert(self@.vaults[i as int].id == id);
                return Some(i);
            }
            i = i + 1;
        }
        None
    }

    /// The vault at place `i`.
    pub(crate) fn vault_at(&self, i: usize) -> (r: Vault)
        requires
            i < self@.vaults.len(),
        ensures
            r == self@.vaults[i as int].vault,
    {
        self.vaults[i].vault
    }

    /// Replaces the vault at place `i`.
    pub(crate) fn put_vault(&mut self, i: usize, id: VaultId, vault: Vault)
        requires
            i < old(self)@.vaults.len(),
        ensures
            final(self)@ == (LedgerView {
                vaults: old(self)@.vaults.update(i as int, VaultEntry { id, vault }),
                ..old(self)@
            }),
    {
        self.vaults[i] = VaultEntry { id, vault };
    }

    /// Takes out the vault at place `i`.
    pub(crate) fn take_vault(&mut self, i: usize) -> (r: Vault)
        requires
            i < old(self)@.vaults.len(),
        ensures
            r == old(self)@.vaults[i as int].vault,
            final(self)@ == (LedgerView {
                vaults: old(self)@.vaults.remove(i as int),
                ..old(self)@
            }),
    {
        let entry = self.vaults.remove(i);
        entry.vault
    }

    /// Appends a vault under the next identifier and moves the counter on.
    pub(crate) fn push_vault(&mut self, vault: Vault) -> (id: VaultId)
        requires
            old(self)@.next_vault_id.0 < u64::MAX,
        ensures
            id == old(self)@.next_vault_id,
            final(self)@ == (LedgerView {
                vaults: old(self)@.vaults.push(VaultEntry { id, vault }),
                next_vault_id: VaultId((id.0 + 1) as u64),
                ..old(self)@
            }),
    {
        let id = self.next_vault_id;
        self.next_vault_id = id.next();
        self.vaults.push(VaultEntry { id, vault });
        id
    }

    /// Sets the reward rate and the reward received.
    pub(crate) fn set_reward(&mut self, rate: u128, received: u128)
        ensures
            final(self)@ == (LedgerView {
                near_per_cucumber_numer: rate,
                total_near_received: received,
                ..old(self)@
            }),
    {
        self.near_per_cucumber_numer = rate;
        self.total_near_received = received;
    }

    /// Sets the stake in circulation.
    pub(crate) fn set_total_cucumber_balance(&mut self, total: u128)
        ensures
            final(self)@ == (LedgerView { total_cucumber_balance: total, ..old(self)@ }),
    {
        self.total_cucumber_balance = total;
    }

    /// Sets the reward paid out.
    pub(crate) fn set_total_near_claimed(&mut self, total: u128)
        ensures
            final(self)@ == (LedgerView { total_near_claimed: total, ..old(self)@ }),
    {
        self.total_near_claimed = total;
    }
}

} // verus!
