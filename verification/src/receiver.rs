//! Deposits announced by the token contract: the announced amount becomes
//! stake of the sender.

use crate::error::FarmError;
use crate::farm::Farm;
use crate::identity::ShortAccountHash;
use crate::model::{lemma_can_settle, lemma_sum_nonnegative_parts, lemma_with_balance, LedgerView};
use crate::vault::VaultId;
use crate::vaults::GAS_FOR_WITHDRAW_FROM_VAULT;
use vstd::prelude::*;

verus! {

/// What the message that comes with a deposit can ask for.
#[derive(Clone, Copy, Debug, PartialEq, Eq, Structural)]
pub enum OnReceiverPayload {
    /// The deposit becomes stake of the sender.
    DepositAndStake,
}

/// The draw to dispatch after a deposit that came in a vault of the token
/// contract: `amount` is drawn from `vault_id` at `token_account_id`, with
/// `gas`.
#[derive(Clone, Debug, PartialEq, Eq)]
pub struct VaultDraw {
    pub token_account_id: String,
    pub vault_id: VaultId,
    pub amount: u128,
    pub gas: u64,
}

impl LedgerView {
    /// Why a deposit announced by `predecessor` is turned down, if it is.
    /// `payload` is the message as far as it could be read. A deposit is
    /// too large where the stake in circulation, with what the vaults hold
    /// and the deposit, would leave 128 bits.
    pub open spec fn receipt_error(
        self,
        predecessor: Seq<char>,
        amount: u128,
        payload: Option<OnReceiverPayload>,
    ) -> Option<FarmError> {
        if predecessor != self.banana_token_account_id {
            Some(FarmError::NotBananaToken)
        } else if payload is None {
            Some(FarmError::MalformedPayload)
        } else if self.total_cucumber_balance + self.escrowed() + amount > u128::MAX {
            Some(FarmError::Overflow)
        } else {
            None
        }
    }

    /// The ledger after `amount` of new stake was given to `hash`.
    pub open spec fn staked_by(self, hash: ShortAccountHash, amount: u128) -> LedgerView {
        LedgerView {
            total_cucumber_balance: (self.total_cucumber_balance + amount) as u128,
            ..self.credited(hash, amount)
        }
    }
}

/// New stake that keeps the total in range, with what the vaults hold,
/// keeps the invariant.
pub proof fn lemma_staked_by(s: LedgerView, hash: ShortAccountHash, amount: u128)
    requires
        s.inv(),
        s.total_cucumber_balance + s.escrowed() + amount <= u128::MAX,
    ensures
        s.settled_account(hash).cucumber_balance + amount <= u128::MAX,
        s.staked_by(hash, amount).inv(),
        s.staked_by(hash, amount).has_account(hash),
        s.staked_by(hash, amount).vaults == s.vaults,
{
    lemma_can_settle(s, hash);
    lemma_sum_nonnegative_parts(s);
    let there = s.settled_account(hash).cucumber_balance;
    lemma_with_balance(s, hash, (there + amount) as u128);
    if !s.has_account(hash) {
        assert(s.account_or_new(hash).cucumber_balance == 0);
    }
}

impl Farm {
    /// The largest deposit that can still be taken in.
    fn room(&self) -> (r: u128)
        requires
            self.wf(),
        ensures
            r == u128::MAX - self@.total_cucumber_balance - self@.escrowed(),
    {
        proof {
            lemma_sum_nonnegative_parts(self@);
        }
        u128::MAX - self.total_cucumber_balance() - self.total_in_vaults()
    }

    /// Takes the deposit in: `amount` becomes stake of `sender`, whose record
    /// is opened if there was none.
    fn stake(&mut self, sender: &ShortAccountHash, amount: u128)
        requires
            old(self).wf(),
            old(self)@.total_cucumber_balance + old(self)@.escrowed() + amount <= u128::MAX,
        ensures
            final(self).wf(),
            final(self)@ == old(self)@.staked_by(*sender, amount),
    {
        proof {
            lemma_staked_by(self@, *sender, amount);
            lemma_sum_nonnegative_parts(self@);
        }
        self.credit_account(sender, amount);
        let total: u128 = self.total_cucumber_balance();
        self.set_total_cucumber_balance(total + amount);
    }

    /// A deposit announced by `predecessor`: accepted from the token contract
    /// only, with a message that could be read. All of it is used: the
    /// unused amount handed back is zero. On any error nothing changes.
    pub fn ft_on_transfer(
        &mut self,
        predecessor: &String,
        sender: &ShortAccountHash,
        amount: u128,
        payload: Option<OnReceiverPayload>,
    ) -> (r: Result<u128, FarmError>)
        requires
            old(self).wf(),
        ensures
            final(self).wf(),
            r == match old(self)@.receipt_error(predecessor@, amount, payload) {
                Some(e) => Err::<u128, FarmError>(e),
                None => Ok(0u128),
            },
            final(self)@ == if r is Ok {
                old(self)@.staked_by(*sender, amount)
            } else {
                old(self)@
            },
    {
        if !self.is_banana_token(predecessor) {
            return Err(FarmError::NotBananaToken);
        }
        match payload {
            None => Err(FarmError::MalformedPayload),
            Some(OnReceiverPayload::DepositAndStake) => {
                if amount > self.room() {
                    return Err(FarmError::Overflow);
                }
                self.stake(sender, amount);
                Ok(0)
            },
        }
    }

    /// A deposit announced by `predecessor` that waits in a vault of the
    /// token contract: accepted like any deposit, and the draw of the whole
    /// amount from that vault is handed back to be dispatched. On any error
    /// nothing changes.
    pub fn on_receive_with_vault(
        &mut self,
        predecessor: &String,
        sender: &ShortAccountHash,
        amount: u128,
        vault_id: VaultId,
        payload: Option<OnReceiverPayload>,
    ) -> (r: Result<VaultDraw, FarmError>)
        requires
            old(self).wf(),
        ensures
            final(self).wf(),
            r == match old(self)@.receipt_error(predecessor@, amount, payload) {
                Some(e) => Err::<VaultDraw, FarmError>(e),
                None => Ok(
                    VaultDraw {
                        token_account_id: *predecessor,
                        vault_id,
                        amount,
                        gas: GAS_FOR_WITHDRAW_FROM_VAULT,
                    },
                ),
            },
            final(self)@ == if r is Ok {
                old(self)@.staked_by(*sender, amount)
            } else {
                old(self)@
            },
    {
        if !self.is_banana_token(predecessor) {
            return Err(FarmError::NotBananaToken);
        }
        match payload {
            None => Err(FarmError::MalformedPayload),
            Some(OnReceiverPayload::DepositAndStake) => {
                if amount > self.room() {
                    return Err(FarmError::Overflow);
                }
                self.stake(sender, amount);
                Ok(
                    VaultDraw {
                        token_account_id: predecessor.clone(),
                        vault_id,
                        amount,
                        gas: GAS_FOR_WITHDRAW_FROM_VAULT,
                    },
                )
            },
        }
    }
}

} // verus!
