//! Moving stake between records: the synchronous transfer and the
//! push-then-reconcile protocol built on it.

use crate::error::FarmError;
use crate::farm::Farm;
use crate::identity::{Identity, ShortAccountHash};
use crate::model::{lemma_can_settle, lemma_sum_nonnegative_parts, lemma_with_balance, LedgerView};
use vstd::prelude::*;

verus! {

/// Gas kept for the step that resolves a transfer after the receiver ran.
pub const GAS_FOR_RESOLVE_TRANSFER: u64 = 5_000_000_000_000;

/// Gas a transfer with notification keeps for itself and its resolution.
pub const GAS_FOR_FT_TRANSFER_CALL: u64 = 25_000_000_000_000 + GAS_FOR_RESOLVE_TRANSFER;

/// No fee goes with the calls the ledger makes.
pub const NO_DEPOSIT: u128 = 0;

/// What was returned by the receiver that was notified of a transfer.
#[derive(Clone, Debug)]
pub enum PromiseOutcome {
    /// The call failed.
    Failed,
    /// The call returned these bytes.
    Successful(Vec<u8>),
}

/// The notification to dispatch after a transfer: `receiver_id` is told
/// that `amount` came from `sender_id`, with `gas_for_receiver`, and the
/// resolution step runs after it with `gas_for_resolve`.
#[derive(Clone, Debug, PartialEq, Eq)]
pub struct TransferCall {
    pub sender_id: String,
    pub receiver_id: String,
    pub amount: u128,
    pub gas_for_receiver: u64,
    pub gas_for_resolve: u64,
}

/// What a notified receiver declared as unused: the number that the bytes
/// it returned decode to, if they decode to one.
pub uninterp spec fn declared_unused(bytes: Seq<u8>) -> Option<u128>;

/// Decodes the bytes a receiver returned, with `serde_json::from_slice` at
/// the type `near_sdk::json_types::U128`. The decoder reads nothing but the
/// bytes, so the result is a function of them; `None` stands for every
/// failure to decode.
#[verifier::external_body]
fn decode_unused(bytes: &Vec<u8>) -> (r: Option<u128>)
    ensures
        r == declared_unused(bytes@),
{
    match near_sdk::serde_json::from_slice::<near_sdk::json_types::U128>(bytes.as_slice()) {
        Ok(v) => Some(v.0),
        Err(_) => None,
    }
}

/// The unused amount a resolution goes by: what the receiver declared, but
/// no more than was transferred, and all of it where nothing was declared.
pub open spec fn unused_amount(amount: u128, declared: Option<u128>) -> u128 {
    match declared {
        Some(u) => if u < amount {
            u
        } else {
            amount
        },
        None => amount,
    }
}

/// Why a resolution invoked by `predecessor_account_id` on the ledger of
/// `current_account_id` is turned down, if it is: only the ledger itself
/// may resolve.
pub open spec fn resolution_error(
    current_account_id: Seq<char>,
    predecessor_account_id: Seq<char>,
) -> Option<FarmError> {
    if current_account_id != predecessor_account_id {
        Some(FarmError::NotSelf)
    } else {
        None
    }
}

/// What the outcome of the notification declares as unused.
pub open spec fn outcome_declared(outcome: PromiseOutcome) -> Option<u128> {
    match outcome {
        PromiseOutcome::Successful(bytes) => declared_unused(bytes@),
        PromiseOutcome::Failed => None,
    }
}

impl LedgerView {
    /// Why the withdrawal of `amount` from `sender` for `receiver` is turned
    /// down, if it is.
    pub open spec fn withdrawal_error(
        self,
        sender: Identity,
        receiver: Identity,
        amount: u128,
    ) -> Option<FarmError> {
        if amount == 0 {
            Some(FarmError::ZeroAmount)
        } else if sender.account_id@ == receiver.account_id@ {
            Some(FarmError::SelfTransfer)
        } else if self.settled_account(sender.hash).cucumber_balance < amount {
            Some(FarmError::InsufficientBalance)
        } else {
            None
        }
    }

    /// Why the transfer of `amount` from `sender` to `receiver` is turned
    /// down, if it is.
    pub open spec fn transfer_error(
        self,
        sender: Identity,
        receiver: Identity,
        amount: u128,
    ) -> Option<FarmError> {
        match self.withdrawal_error(sender, receiver, amount) {
            Some(e) => Some(e),
            None => if self.has_account(receiver.hash) {
                None
            } else {
                Some(FarmError::ReceiverMissing)
            },
        }
    }

    /// The ledger after `amount` went from the record of `from` to that of
    /// `to`.
    pub open spec fn transferred(
        self,
        from: ShortAccountHash,
        to: ShortAccountHash,
        amount: u128,
    ) -> LedgerView {
        self.withdrawn(from, amount).deposited(to, amount)
    }

    /// What a resolution takes back from the receiver: the unused amount as
    /// far as the receiver's stake covers it.
    pub open spec fn refund_amount(self, receiver: ShortAccountHash, unused: u128) -> u128 {
        let held = self.settled_account(receiver).cucumber_balance;
        if unused == 0 {
            0
        } else if held < unused {
            held
        } else {
            unused
        }
    }

    /// The ledger after a resolution with `unused` not used by the receiver.
    pub open spec fn refunded(
        self,
        sender: ShortAccountHash,
        receiver: ShortAccountHash,
        unused: u128,
    ) -> LedgerView {
        let refund = self.refund_amount(receiver, unused);
        if refund == 0 {
            self
        } else {
            self.withdrawn(receiver, refund).credited(sender, refund)
        }
    }
}

/// Moving stake from one record to another keeps the invariant.
pub proof fn lemma_moved(s: LedgerView, from: ShortAccountHash, to: ShortAccountHash, amount: u128)
    requires
        s.inv(),
        amount <= s.settled_account(from).cucumber_balance,
        amount > 0,
    ensures
        s.withdrawn(from, amount).keys_ok(),
        s.withdrawn(from, amount).rewards_ok(),
        s.withdrawn(from, amount).has_account(to) == s.has_account(to),
        s.withdrawn(from, amount).settled_account(to).cucumber_balance + amount <= u128::MAX,
        s.withdrawn(from, amount).credited(to, amount).inv(),
        s.withdrawn(from, amount).credited(to, amount).vaults == s.vaults,
        s.withdrawn(from, amount).credited(to, amount).total_cucumber_balance
            == s.total_cucumber_balance,
{
    let held = s.settled_account(from).cucumber_balance;
    let t = s.withdrawn(from, amount);
    lemma_can_settle(s, from);
    lemma_sum_nonnegative_parts(s);
    lemma_with_balance(s, from, (held - amount) as u128);
    if !s.has_account(from) {
        assert(s.account_or_new(from).cucumber_balance == 0);
    }
    lemma_can_settle(t, to);
    lemma_sum_nonnegative_parts(t);
    let there = t.settled_account(to).cucumber_balance;
    lemma_with_balance(t, to, (there + amount) as u128);
}

impl Farm {
    /// Checks that a fee came with the call.
    pub fn assert_paid(attached_deposit: u128) -> (r: Result<(), FarmError>)
        ensures
            r == if attached_deposit > 0 {
                Ok::<(), FarmError>(())
            } else {
                Err(FarmError::DepositRequired)
            },
    {
        if attached_deposit > 0 {
            Ok(())
        } else {
            Err(FarmError::DepositRequired)
        }
    }

    /// Checks that a fee of exactly one unit came with the call.
    pub fn assert_one_yocto(attached_deposit: u128) -> (r: Result<(), FarmError>)
        ensures
            r == if attached_deposit == 1 {
                Ok::<(), FarmError>(())
            } else {
                Err(FarmError::OneYoctoRequired)
            },
    {
        if attached_deposit == 1 {
            Ok(())
        } else {
            Err(FarmError::OneYoctoRequired)
        }
    }

    /// Takes `amount` from the stake of `sender`, settled first, for a
    /// transfer to `receiver`.
    pub(crate) fn withdraw_from_sender(
        &mut self,
        sender: &Identity,
        receiver: &Identity,
        amount: u128,
    ) -> (r: Result<(), FarmError>)
        requires
            old(self)@.keys_ok(),
            old(self)@.rewards_ok(),
        ensures
            r == match old(self)@.withdrawal_error(*sender, *receiver, amount) {
                Some(e) => Err::<(), FarmError>(e),
                None => Ok(()),
            },
            final(self)@ == if r is Ok {
                old(self)@.withdrawn(sender.hash, amount)
            } else {
                old(self)@
            },
    {
        if amount == 0 {
            return Err(FarmError::ZeroAmount);
        }
        if sender.account_id == receiver.account_id {
            return Err(FarmError::SelfTransfer);
        }
        let mut account = self.get_mut_account(&sender.hash);
        if account.cucumber_balance < amount {
            return Err(FarmError::InsufficientBalance);
        }
        account.cucumber_balance = account.cucumber_balance - amount;
        self.save_account(&sender.hash, &account);
        Ok(())
    }

    /// Adds `amount` to the stake of `hash`, settled first; the record is
    /// opened if there was none.
    pub(crate) fn credit_account(&mut self, hash: &ShortAccountHash, amount: u128)
        requires
            old(self)@.keys_ok(),
            old(self)@.rewards_ok(),
            old(self)@.settled_account(*hash).cucumber_balance + amount <= u128::MAX,
        ensures
            final(self)@ == old(self)@.credited(*hash, amount),
    {
        let mut account = self.get_mut_account(hash);
        account.cucumber_balance = account.cucumber_balance + amount;
        self.save_account(hash, &account);
    }

    /// Deposits `amount` to the record of `hash`. Nothing is done for an
    /// amount of zero; a record must be there for any other.
    pub(crate) fn deposit_to_account(&mut self, hash: &ShortAccountHash, amount: u128) -> (r:
        Result<(), FarmError>)
        requires
            old(self)@.keys_ok(),
            old(self)@.rewards_ok(),
            old(self)@.settled_account(*hash).cucumber_balance + amount <= u128::MAX,
        ensures
            r == if amount > 0 && !old(self)@.has_account(*hash) {
                Err::<(), FarmError>(FarmError::ReceiverMissing)
            } else {
                Ok(())
            },
            final(self)@ == old(self)@.deposited(*hash, amount),
    {
        if amount == 0 {
            return Ok(());
        }
        if !self.account_exists(hash) {
            return Err(FarmError::ReceiverMissing);
        }
        self.credit_account(hash, amount);
        Ok(())
    }

    /// Moves `amount` of stake from `sender` to `receiver`, both settled
    /// first. The receiver must be registered; on any error nothing changes.
    pub fn transfer(&mut self, sender: &Identity, receiver: &Identity, amount: u128) -> (r: Result<
        (),
        FarmError,
    >)
        requires
            old(self).wf(),
        ensures
            final(self).wf(),
            r == match old(self)@.transfer_error(*sender, *receiver, amount) {
                Some(e) => Err::<(), FarmError>(e),
                None => Ok(()),
            },
            final(self)@ == if r is Ok {
                old(self)@.transferred(sender.hash, receiver.hash, amount)
            } else {
                old(self)@
            },
            amount == 0 ==> r is Err,
            sender.account_id@ == receiver.account_id@ ==> r is Err,
            final(self)@.vaults == old(self)@.vaults,
    {
        self.check_transfer(sender, receiver, amount)?;
        proof {
            lemma_moved(self@, sender.hash, receiver.hash, amount);
        }
        self.withdraw_from_sender(sender, receiver, amount)?;
        self.deposit_to_account(&receiver.hash, amount)
    }

    /// The transfer entry point that asks for a fee of exactly one unit.
    pub fn ft_transfer(
        &mut self,
        attached_deposit: u128,
        sender: &Identity,
        receiver: &Identity,
        amount: u128,
    ) -> (r: Result<(), FarmError>)
        requires
            old(self).wf(),
        ensures
            final(self).wf(),
            r == if attached_deposit != 1 {
                Err::<(), FarmError>(FarmError::OneYoctoRequired)
            } else {
                match old(self)@.transfer_error(*sender, *receiver, amount) {
                    Some(e) => Err(e),
                    None => Ok(()),
                }
            },
            final(self)@ == if r is Ok {
                old(self)@.transferred(sender.hash, receiver.hash, amount)
            } else {
                old(self)@
            },
            amount == 0 ==> r is Err,
            sender.account_id@ == receiver.account_id@ ==> r is Err,
    {
        if attached_deposit != 1 {
            return Err(FarmError::OneYoctoRequired);
        }
        self.transfer(sender, receiver, amount)
    }

    /// The transfer entry point that asks for any fee.
    pub fn transfer_raw(
        &mut self,
        attached_deposit: u128,
        sender: &Identity,
        receiver: &Identity,
        amount: u128,
    ) -> (r: Result<(), FarmError>)
        requires
            old(self).wf(),
        ensures
            final(self).wf(),
            r == if attached_deposit == 0 {
                Err::<(), FarmError>(FarmError::DepositRequired)
            } else {
                match old(self)@.transfer_error(*sender, *receiver, amount) {
                    Some(e) => Err(e),
                    None => Ok(()),
                }
            },
            final(self)@ == if r is Ok {
                old(self)@.transferred(sender.hash, receiver.hash, amount)
            } else {
                old(self)@
            },
            amount == 0 ==> r is Err,
            sender.account_id@ == receiver.account_id@ ==> r is Err,
    {
        if attached_deposit == 0 {
            return Err(FarmError::DepositRequired);
        }
        self.transfer(sender, receiver, amount)
    }

    /// The first step of the push-then-reconcile protocol: the stake moves
    /// to the receiver at once, and the notification to dispatch is handed
    /// back. On any error nothing changes.
    pub fn ft_transfer_call(
        &mut self,
        attached_deposit: u128,
        prepaid_gas: u64,
        sender: &Identity,
        receiver: &Identity,
        amount: u128,
    ) -> (r: Result<TransferCall, FarmError>)
        requires
            old(self).wf(),
        ensures
            final(self).wf(),
            r == if attached_deposit != 1 {
                Err::<TransferCall, FarmError>(FarmError::OneYoctoRequired)
            } else {
                match old(self)@.transfer_error(*sender, *receiver, amount) {
                    Some(e) => Err(e),
                    None => if prepaid_gas < GAS_FOR_FT_TRANSFER_CALL {
                        Err(FarmError::NotEnoughGas)
                    } else {
                        Ok(
                            TransferCall {
                                sender_id: sender.account_id,
                                receiver_id: receiver.account_id,
                                amount,
                                gas_for_receiver: (prepaid_gas - GAS_FOR_FT_TRANSFER_CALL) as u64,
                                gas_for_resolve: GAS_FOR_RESOLVE_TRANSFER,
                            },
                        )
                    },
                }
            },
            final(self)@ == if r is Ok {
                old(self)@.transferred(sender.hash, receiver.hash, amount)
            } else {
                old(self)@
            },
            amount == 0 ==> r is Err,
            sender.account_id@ == receiver.account_id@ ==> r is Err,
    {
        if attached_deposit != 1 {
            return Err(FarmError::OneYoctoRequired);
        }
        if prepaid_gas < GAS_FOR_FT_TRANSFER_CALL {
            // The transfer's own errors come first; without them the gas decides.
            return match self.check_transfer(sender, receiver, amount) {
                Err(e) => Err(e),
                Ok(()) => Err(FarmError::NotEnoughGas),
            };
        }
        match self.transfer(sender, receiver, amount) {
            Err(e) => Err(e),
            Ok(()) => Ok(
                TransferCall {
                    sender_id: sender.account_id.clone(),
                    receiver_id: receiver.account_id.clone(),
                    amount,
                    gas_for_receiver: prepaid_gas - GAS_FOR_FT_TRANSFER_CALL,
                    gas_for_resolve: GAS_FOR_RESOLVE_TRANSFER,
                },
            ),
        }
    }

    /// Whether a withdrawal would go through, without making it.
    pub fn check_withdrawal(&self, sender: &Identity, receiver: &Identity, amount: u128) -> (r:
        Result<(), FarmError>)
        requires
            self.wf(),
        ensures
            r == match self@.withdrawal_error(*sender, *receiver, amount) {
                Some(e) => Err::<(), FarmError>(e),
                None => Ok(()),
            },
    {
        if amount == 0 {
            return Err(FarmError::ZeroAmount);
        }
        if sender.account_id == receiver.account_id {
            return Err(FarmError::SelfTransfer);
        }
        let held = self.get_mut_account(&sender.hash).cucumber_balance;
        if held < amount {
            return Err(FarmError::InsufficientBalance);
        }
        Ok(())
    }

    /// Whether a transfer would go through, without making it.
    pub fn check_transfer(&self, sender: &Identity, receiver: &Identity, amount: u128) -> (r:
        Result<(), FarmError>)
        requires
            self.wf(),
        ensures
            r == match self@.transfer_error(*sender, *receiver, amount) {
                Some(e) => Err::<(), FarmError>(e),
                None => Ok(()),
            },
    {
        match self.check_withdrawal(sender, receiver, amount) {
            Err(e) => Err(e),
            Ok(()) => if self.account_exists(&receiver.hash) {
                Ok(())
            } else {
                Err(FarmError::ReceiverMissing)
            },
        }
    }
    /// The last step of the push-then-reconcile protocol, which only the
    /// ledger itself may invoke, given what the receiver declared as unused
    /// (`None` where the call failed or returned nothing readable). The
    /// unused amount, capped by what was transferred, is taken back from the
    /// receiver as far as its stake now covers it and returned to the
    /// sender. The result is the amount that stays used. Invoked by another
    /// than the ledger, it changes nothing.
    pub fn resolve_transfer(
        &mut self,
        current_account_id: &String,
        predecessor_account_id: &String,
        sender: &ShortAccountHash,
        receiver: &ShortAccountHash,
        amount: u128,
        declared: Option<u128>,
    ) -> (r: Result<u128, FarmError>)
        requires
            old(self).wf(),
        ensures
            final(self).wf(),
            r == match resolution_error(current_account_id@, predecessor_account_id@) {
                Some(e) => Err::<u128, FarmError>(e),
                None => Ok(
                    (amount - old(self)@.refund_amount(
                        *receiver,
                        unused_amount(amount, declared),
                    )) as u128,
                ),
            },
            final(self)@ == if r is Ok {
                old(self)@.refunded(*sender, *receiver, unused_amount(amount, declared))
            } else {
                old(self)@
            },
            final(self)@.vaults == old(self)@.vaults,
            final(self)@.total_cucumber_balance == old(self)@.total_cucumber_balance,
    {
        if !(*current_account_id == *predecessor_account_id) {
            return Err(FarmError::NotSelf);
        }
        let unused: u128 = match declared {
            Some(u) => if u < amount {
                u
            } else {
                amount
            },
            None => amount,
        };
        if unused > 0 {
            let mut receiver_account = self.get_mut_account(receiver);
            let held: u128 = receiver_account.cucumber_balance;
            if held > 0 {
                let refund: u128 = if held < unused {
                    held
                } else {
                    unused
                };
                proof {
                    lemma_moved(self@, *receiver, *sender, refund);
                }
                receiver_account.cucumber_balance = held - refund;
                self.save_account(receiver, &receiver_account);
                self.credit_account(sender, refund);
                return Ok(amount - refund);
            }
        }
        Ok(amount)
    }

    /// The last step of the push-then-reconcile protocol, which only the
    /// ledger itself may invoke, given the outcome of the notification:
    /// what the receiver returned is decoded, and the resolution goes by it
    /// as [`Farm::resolve_transfer`] says.
    pub fn ft_resolve_transfer(
        &mut self,
        current_account_id: &String,
        predecessor_account_id: &String,
        sender: &ShortAccountHash,
        receiver: &ShortAccountHash,
        amount: u128,
        outcome: &PromiseOutcome,
    ) -> (r: Result<u128, FarmError>)
        requires
            old(self).wf(),
        ensures
            final(self).wf(),
            r == match resolution_error(current_account_id@, predecessor_account_id@) {
                Some(e) => Err::<u128, FarmError>(e),
                None => Ok(
                    (amount - old(self)@.refund_amount(
                        *receiver,
                        unused_amount(amount, outcome_declared(*outcome)),
                    )) as u128,
                ),
            },
            final(self)@ == if r is Ok {
                old(self)@.refunded(
                    *sender,
                    *receiver,
                    unused_amount(amount, outcome_declared(*outcome)),
                )
            } else {
                old(self)@
            },
    {
        if !(*current_account_id == *predecessor_account_id) {
            return Err(FarmError::NotSelf);
        }
        let declared = match outcome {
            PromiseOutcome::Successful(bytes) => decode_unused(bytes),
            PromiseOutcome::Failed => None,
        };
        self.resolve_transfer(
            current_account_id,
            predecessor_account_id,
            sender,
            receiver,
            amount,
            declared,
        )
    }
}

} // verus!
