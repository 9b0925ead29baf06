//! The escrow-then-drawdown protocol: stake is withdrawn into a vault before
//! the receiver is notified, the receiver draws from the vault, and the
//! resolution returns what is left to the sender.

use crate::error::FarmError;
use crate::farm::Farm;
use crate::identity::{Identity, ShortAccountHash};
use crate::model::{
    escrow_of, lemma_can_settle, lemma_push_vault, lemma_vault_slot, lemma_with_balance,
    lemma_with_vault, lemma_without_vault, LedgerView, VaultEntry,
};
use crate::sums::lemma_sum_bounds;
use crate::transfer::resolution_error;
use crate::vault::{Vault, VaultId};
use vstd::prelude::*;

verus! {

/// Gas for a step that only computes.
pub const GAS_BASE_COMPUTE: u64 = 5_000_000_000_000;

/// Gas for dispatching one call.
pub const GAS_FOR_PROMISE: u64 = 5_000_000_000_000;

/// Gas for chaining a step after a call.
pub const GAS_FOR_DATA_DEPENDENCY: u64 = 10_000_000_000_000;

/// The least gas a notified receiver must get: it computes a little and
/// dispatches one call.
pub const MIN_GAS_FOR_RECEIVER: u64 = GAS_FOR_PROMISE + GAS_BASE_COMPUTE;

/// Gas for the step that resolves a vault, which only computes.
pub const GAS_FOR_CALLBACK: u64 = GAS_BASE_COMPUTE;

/// Gas a vault transfer keeps for itself, besides the callback: it
/// dispatches two calls, chains them, and computes a little.
pub const GAS_FOR_REMAINING_COMPUTE: u64 = 2 * GAS_FOR_PROMISE + GAS_FOR_DATA_DEPENDENCY
    + GAS_BASE_COMPUTE;

/// Gas for registering the ledger with the token contract.
pub const GAS_FOR_ACCOUNT_REGISTRATION: u64 = GAS_BASE_COMPUTE;

/// Gas for drawing from a vault of the token contract.
pub const GAS_FOR_WITHDRAW_FROM_VAULT: u64 = GAS_BASE_COMPUTE;

/// The notification to dispatch after stake was put in a vault:
/// `receiver_id` is told that `amount` from `sender_id` waits in `vault_id`,
/// with `gas_for_receiver`, and the resolution step runs after it with
/// `gas_for_callback`.
#[derive(Clone, Debug, PartialEq, Eq)]
pub struct VaultTransfer {
    pub sender_id: String,
    pub receiver_id: String,
    pub vault_id: VaultId,
    pub amount: u128,
    pub gas_for_receiver: u64,
    pub gas_for_callback: u64,
}

/// The gas left for the receiver of a vault transfer: what came with the
/// call less what the transfer keeps, and nothing where that is more.
pub open spec fn gas_to_receiver(prepaid_gas: u64) -> u64 {
    if prepaid_gas >= GAS_FOR_REMAINING_COMPUTE + GAS_FOR_CALLBACK {
        (prepaid_gas - (GAS_FOR_REMAINING_COMPUTE + GAS_FOR_CALLBACK)) as u64
    } else {
        0
    }
}

impl LedgerView {
    /// Why a vault transfer is turned down, if it is.
    pub open spec fn vault_transfer_error(
        self,
        attached_deposit: u128,
        prepaid_gas: u64,
        sender: Identity,
        receiver: Identity,
        amount: u128,
    ) -> Option<FarmError> {
        if attached_deposit == 0 {
            Some(FarmError::DepositRequired)
        } else if gas_to_receiver(prepaid_gas) < MIN_GAS_FOR_RECEIVER {
            Some(FarmError::NotEnoughGas)
        } else {
            match self.withdrawal_error(sender, receiver, amount) {
                Some(e) => Some(e),
                None => if self.next_vault_id.0 == u64::MAX {
                    Some(FarmError::Overflow)
                } else {
                    None
                },
            }
        }
    }

    /// The ledger after `amount` went from the stake of `sender` into a new
    /// vault bound to `receiver`: the amount leaves circulation.
    pub open spec fn escrowed_for(
        self,
        sender: ShortAccountHash,
        receiver: ShortAccountHash,
        amount: u128,
    ) -> LedgerView {
        let t = self.withdrawn(sender, amount);
        let id = self.next_vault_id;
        LedgerView {
            vaults: t.vaults.push(
                VaultEntry { id, vault: Vault { receiver_id_hash: receiver, balance: amount } },
            ),
            next_vault_id: VaultId((id.0 + 1) as u64),
            total_cucumber_balance: (self.total_cucumber_balance - amount) as u128,
            ..t
        }
    }

    /// Why a draw from a vault is turned down, if it is.
    pub open spec fn vault_withdrawal_error(
        self,
        caller: ShortAccountHash,
        vault_id: VaultId,
        destination: ShortAccountHash,
        amount: u128,
    ) -> Option<FarmError> {
        match self.vault(vault_id) {
            None => Some(FarmError::VaultMissing),
            Some(v) => if v.receiver_id_hash != caller {
                Some(FarmError::NotVaultOwner)
            } else if v.balance < amount {
                Some(FarmError::InsufficientVaultBalance)
            } else if amount > 0 && !self.has_account(destination) {
                Some(FarmError::ReceiverMissing)
            } else {
                None
            },
        }
    }

    /// The ledger after `amount` went from the vault to the stake of
    /// `destination`: the amount comes back into circulation.
    pub open spec fn drawn(
        self,
        vault_id: VaultId,
        destination: ShortAccountHash,
        amount: u128,
    ) -> LedgerView {
        let v = self.vault(vault_id).unwrap();
        LedgerView {
            total_cucumber_balance: (self.total_cucumber_balance + amount) as u128,
            ..self.with_vault(
                vault_id,
                Vault { balance: (v.balance - amount) as u128, ..v },
            ).deposited(destination, amount)
        }
    }

    /// Why the resolution of a vault is turned down, if it is.
    pub open spec fn vault_resolution_error(
        self,
        current_account_id: Seq<char>,
        predecessor_account_id: Seq<char>,
        vault_id: VaultId,
        sender: ShortAccountHash,
    ) -> Option<FarmError> {
        match resolution_error(current_account_id, predecessor_account_id) {
            Some(e) => Some(e),
            None => match self.vault(vault_id) {
                None => Some(FarmError::VaultMissing),
                Some(v) => if v.balance > 0 && !self.has_account(sender) {
                    Some(FarmError::ReceiverMissing)
                } else {
                    None
                },
            },
        }
    }

    /// The ledger after the vault was taken out and what it held went back
    /// to the stake of `sender`, and so into circulation.
    pub open spec fn vault_resolved(self, vault_id: VaultId, sender: ShortAccountHash) -> LedgerView {
        let held = self.vault(vault_id).unwrap().balance;
        LedgerView {
            total_cucumber_balance: (self.total_cucumber_balance + held) as u128,
            ..self.without_vault(vault_id).deposited(sender, held)
        }
    }
}

/// Putting stake of a sender into a new vault keeps the invariant.
pub proof fn lemma_escrowed_for(
    s: LedgerView,
    sender: ShortAccountHash,
    receiver: ShortAccountHash,
    amount: u128,
)
    requires
        s.inv(),
        amount <= s.settled_account(sender).cucumber_balance,
        amount > 0,
        s.next_vault_id.0 < u64::MAX,
    ensures
        amount <= s.total_cucumber_balance,
        s.withdrawn(sender, amount).total_cucumber_balance == s.total_cucumber_balance,
        s.escrowed_for(sender, receiver, amount).inv(),
        !s.has_vault(s.next_vault_id),
        s.escrowed_for(sender, receiver, amount).vault(s.next_vault_id) == Some(
            Vault { receiver_id_hash: receiver, balance: amount },
        ),
{
    let held = s.settled_account(sender).cucumber_balance;
    let t = s.withdrawn(sender, amount);
    let v = Vault { receiver_id_hash: receiver, balance: amount };
    lemma_can_settle(s, sender);
    lemma_with_balance(s, sender, (held - amount) as u128);
    lemma_push_vault(t, v);
    lemma_push_vault(s, v);
    let u = s.escrowed_for(sender, receiver, amount);
    assert(u.vault(s.next_vault_id) == Some(v));
}

/// What a vault of a ledger that keeps the invariant holds can be added to
/// any stake, and to the stake in circulation, without leaving the range of
/// 128 bits.
pub proof fn lemma_vault_covered(s: LedgerView, vault_id: VaultId, hash: ShortAccountHash)
    requires
        s.inv(),
        s.has_vault(vault_id),
    ensures
        s.settled_account(hash).cucumber_balance + s.vault(vault_id).unwrap().balance
            <= u128::MAX,
        s.total_cucumber_balance + s.vault(vault_id).unwrap().balance <= u128::MAX,
        s.vault(vault_id).unwrap().balance <= s.escrowed(),
{
    lemma_can_settle(s, hash);
    crate::model::lemma_accounts_nonnegative(s);
    lemma_sum_bounds(s.vaults, s.vault_slot(vault_id), escrow_of());
}

/// A draw from a vault that is not turned down keeps the invariant.
pub proof fn lemma_drawn(
    s: LedgerView,
    vault_id: VaultId,
    destination: ShortAccountHash,
    amount: u128,
)
    requires
        s.inv(),
        s.has_vault(vault_id),
        amount <= s.vault(vault_id).unwrap().balance,
        amount == 0 || s.has_account(destination),
    ensures
        ({
            let v = s.vault(vault_id).unwrap();
            let t = s.with_vault(vault_id, Vault { balance: (v.balance - amount) as u128, ..v });
            &&& t.keys_ok()
            &&& t.rewards_ok()
            &&& t.has_account(destination) == s.has_account(destination)
            &&& t.settled_account(destination).cucumber_balance + amount <= u128::MAX
            &&& t.deposited(destination, amount).total_cucumber_balance
                == s.total_cucumber_balance
            &&& s.total_cucumber_balance + amount <= u128::MAX
            &&& s.drawn(vault_id, destination, amount).inv()
        }),
{
    let v = s.vault(vault_id).unwrap();
    let t = s.with_vault(vault_id, Vault { balance: (v.balance - amount) as u128, ..v });
    lemma_vault_covered(s, vault_id, destination);
    lemma_with_vault(s, vault_id, Vault { balance: (v.balance - amount) as u128, ..v });
    lemma_can_settle(t, destination);
    if amount > 0 {
        let there = t.settled_account(destination).cucumber_balance;
        lemma_with_balance(t, destination, (there + amount) as u128);
    }
}

/// The resolution of a vault that is not turned down keeps the invariant.
pub proof fn lemma_vault_resolved(s: LedgerView, vault_id: VaultId, sender: ShortAccountHash)
    requires
        s.inv(),
        s.has_vault(vault_id),
        s.vault(vault_id).unwrap().balance == 0 || s.has_account(sender),
    ensures
        ({
            let held = s.vault(vault_id).unwrap().balance;
            let t = s.without_vault(vault_id);
            &&& t.keys_ok()
            &&& t.rewards_ok()
            &&& t.has_account(sender) == s.has_account(sender)
            &&& t.settled_account(sender).cucumber_balance + held <= u128::MAX
            &&& t.deposited(sender, held).total_cucumber_balance == s.total_cucumber_balance
            &&& s.total_cucumber_balance + held <= u128::MAX
            &&& s.vault_resolved(vault_id, sender).inv()
            &&& !s.vault_resolved(vault_id, sender).has_vault(vault_id)
        }),
{
    let v = s.vault(vault_id).unwrap();
    let t = s.without_vault(vault_id);
    lemma_vault_covered(s, vault_id, sender);
    lemma_without_vault(s, vault_id);
    lemma_can_settle(t, sender);
    if v.balance > 0 {
        let there = t.settled_account(sender).cucumber_balance;
        lemma_with_balance(t, sender, (there + v.balance) as u128);
    }
}

impl Farm {
    /// The first step of the escrow protocol: `amount` leaves the stake of
    /// `sender` for a new vault bound to `receiver`, and the notification to
    /// dispatch is handed back. On any error nothing changes.
    pub fn transfer_with_vault(
        &mut self,
        attached_deposit: u128,
        prepaid_gas: u64,
        sender: &Identity,
        receiver: &Identity,
        amount: u128,
    ) -> (r: Result<VaultTransfer, FarmError>)
        requires
            old(self).wf(),
        ensures
            final(self).wf(),
            r == match old(self)@.vault_transfer_error(
                attached_deposit,
                prepaid_gas,
                *sender,
                *receiver,
                amount,
            ) {
                Some(e) => Err::<VaultTransfer, FarmError>(e),
                None => Ok(
                    VaultTransfer {
                        sender_id: sender.account_id,
                        receiver_id: receiver.account_id,
                        vault_id: old(self)@.next_vault_id,
                        amount,
                        gas_for_receiver: gas_to_receiver(prepaid_gas),
                        gas_for_callback: GAS_FOR_CALLBACK,
                    },
                ),
            },
            final(self)@ == if r is Ok {
                old(self)@.escrowed_for(sender.hash, receiver.hash, amount)
            } else {
                old(self)@
            },
            r is Ok ==> final(self)@.total_cucumber_balance == old(self)@.total_cucumber_balance
                - amount,
            amount == 0 ==> r is Err,
            sender.account_id@ == receiver.account_id@ ==> r is Err,
    {
        if attached_deposit == 0 {
            return Err(FarmError::DepositRequired);
        }
        let kept: u64 = GAS_FOR_REMAINING_COMPUTE + GAS_FOR_CALLBACK;
        let gas_for_receiver: u64 = if prepaid_gas >= kept {
            prepaid_gas - kept
        } else {
            0
        };
        if gas_for_receiver < MIN_GAS_FOR_RECEIVER {
            return Err(FarmError::NotEnoughGas);
        }
        self.check_withdrawal(sender, receiver, amount)?;
        if self.next_vault_id().0 == u64::MAX {
            return Err(FarmError::Overflow);
        }
        proof {
            lemma_escrowed_for(self@, sender.hash, receiver.hash, amount);
        }
        self.withdraw_from_sender(sender, receiver, amount)?;
        let vault_id = self.push_vault(Vault { receiver_id_hash: receiver.hash, balance: amount });
        let total: u128 = self.total_cucumber_balance();
        self.set_total_cucumber_balance(total - amount);
        Ok(
            VaultTransfer {
                sender_id: sender.account_id.clone(),
                receiver_id: receiver.account_id.clone(),
                vault_id,
                amount,
                gas_for_receiver,
                gas_for_callback: GAS_FOR_CALLBACK,
            },
        )
    }

    /// A draw by `caller` of `amount` from the vault to the stake of
    /// `destination`. Only the receiver the vault is bound to may draw, no
    /// more than the vault holds, and to a registered record. On any error
    /// nothing changes.
    pub fn withdraw_from_vault(
        &mut self,
        caller: &ShortAccountHash,
        vault_id: VaultId,
        destination: &ShortAccountHash,
        amount: u128,
    ) -> (r: Result<(), FarmError>)
        requires
            old(self).wf(),
        ensures
            final(self).wf(),
            r == match old(self)@.vault_withdrawal_error(*caller, vault_id, *destination, amount) {
                Some(e) => Err::<(), FarmError>(e),
                None => Ok(()),
            },
            final(self)@ == if r is Ok {
                old(self)@.drawn(vault_id, *destination, amount)
            } else {
                old(self)@
            },
            r is Ok ==> final(self)@.total_cucumber_balance == old(self)@.total_cucumber_balance
                + amount,
    {
        let i = match self.find_vault(vault_id) {
            Some(i) => i,
            None => {
                return Err(FarmError::VaultMissing);
            },
        };
        proof {
            lemma_vault_slot(self@, vault_id, i as int);
        }
        let mut vault = self.vault_at(i);
        if !(vault.receiver_id_hash == *caller) {
            return Err(FarmError::NotVaultOwner);
        }
        if vault.balance < amount {
            return Err(FarmError::InsufficientVaultBalance);
        }
        if amount > 0 && !self.account_exists(destination) {
            return Err(FarmError::ReceiverMissing);
        }
        proof {
            lemma_drawn(self@, vault_id, *destination, amount);
        }
        vault.balance = vault.balance - amount;
        self.put_vault(i, vault_id, vault);
        self.deposit_to_account(destination, amount)?;
        let total: u128 = self.total_cucumber_balance();
        self.set_total_cucumber_balance(total + amount);
        Ok(())
    }

    /// The last step of the escrow protocol, which only the ledger itself
    /// may invoke: the vault is taken out and what it still holds goes back
    /// to the stake of `sender`. The result is that remainder. On any error
    /// nothing changes.
    pub fn resolve_vault(
        &mut self,
        current_account_id: &String,
        predecessor_account_id: &String,
        vault_id: VaultId,
        sender: &ShortAccountHash,
    ) -> (r: Result<u128, FarmError>)
        requires
            old(self).wf(),
        ensures
            final(self).wf(),
            r == match old(self)@.vault_resolution_error(
                current_account_id@,
                predecessor_account_id@,
                vault_id,
                *sender,
            ) {
                Some(e) => Err::<u128, FarmError>(e),
                None => Ok(old(self)@.vault(vault_id).unwrap().balance),
            },
            final(self)@ == if r is Ok {
                old(self)@.vault_resolved(vault_id, *sender)
            } else {
                old(self)@
            },
            r matches Ok(held) ==> final(self)@.total_cucumber_balance == old(
                self,
            )@.total_cucumber_balance + held,
            r is Ok ==> !final(self)@.has_vault(vault_id),
    {
        if !(*current_account_id == *predecessor_account_id) {
            return Err(FarmError::NotSelf);
        }
        let i = match self.find_vault(vault_id) {
            Some(i) => i,
            None => {
                return Err(FarmError::VaultMissing);
            },
        };
        proof {
            lemma_vault_slot(self@, vault_id, i as int);
        }
        let held: u128 = self.vault_at(i).balance;
        if held > 0 && !self.account_exists(sender) {
            return Err(FarmError::ReceiverMissing);
        }
        proof {
            lemma_vault_resolved(self@, vault_id, *sender);
        }
        let vault = self.take_vault(i);
        self.deposit_to_account(sender, vault.balance)?;
        let total: u128 = self.total_cucumber_balance();
        self.set_total_cucumber_balance(total + vault.balance);
        Ok(vault.balance)
    }
}

} // verus!
