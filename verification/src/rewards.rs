//! The reward pool: injection into the running rate, registration, and
//! claims.

use crate::account::{Account, NEAR_PER_CUCUMBER_DENOM};
use crate::error::FarmError;
use crate::farm::Farm;
use crate::identity::{Identity, ShortAccountHash};
use crate::model::{
    lemma_can_settle, lemma_owed_when_settled, lemma_settle_owed, lemma_sum_nonnegative_parts,
    lemma_with_account, lemma_with_balance, owed_of, stake_of, LedgerView,
};
use crate::sums::lemma_sum_linear;
use crate::wide::mul_div;
use vstd::prelude::*;

verus! {

/// A payment of reward that is due to an identity.
#[derive(Clone, Debug)]
pub struct Payout {
    pub receiver_id: String,
    pub amount: u128,
}

/// By how much `amount` of reward raises the rate when `total` is staked:
/// the amount scaled up by the denominator, per unit of stake, rounded down.
pub open spec fn rate_step(amount: u128, total: u128) -> int {
    (amount * NEAR_PER_CUCUMBER_DENOM) / (total as int)
}

impl LedgerView {
    /// Why the injection of `amount` of reward is turned down, if it is.
    pub open spec fn injection_error(self, amount: u128) -> Option<FarmError> {
        if self.total_cucumber_balance == 0 {
            Some(FarmError::NoStake)
        } else if self.near_per_cucumber_numer + rate_step(amount, self.total_cucumber_balance)
            > u128::MAX || self.total_near_received + amount > u128::MAX {
            Some(FarmError::Overflow)
        } else {
            None
        }
    }

    /// The ledger after `amount` of reward was injected.
    pub open spec fn injected(self, amount: u128) -> LedgerView {
        LedgerView {
            near_per_cucumber_numer: (self.near_per_cucumber_numer + rate_step(
                amount,
                self.total_cucumber_balance,
            )) as u128,
            total_near_received: (self.total_near_received + amount) as u128,
            ..self
        }
    }

    /// The ledger after the identity was registered: its record is there and
    /// settled.
    pub open spec fn registered(self, hash: ShortAccountHash) -> LedgerView {
        self.with_account(hash, self.settled_account(hash))
    }

    /// What the identity can claim: its reward settled at the current rate.
    pub open spec fn claimable(self, hash: ShortAccountHash) -> u128 {
        self.settled_account(hash).near_balance
    }

    /// The ledger after the identity claimed its reward.
    pub open spec fn claimed(self, hash: ShortAccountHash) -> LedgerView {
        let a = self.settled_account(hash);
        let paid = Account {
            near_balance: 0,
            near_claimed: (a.near_claimed + a.near_balance) as u128,
            ..a
        };
        LedgerView {
            total_near_claimed: (self.total_near_claimed + a.near_balance) as u128,
            ..self.with_account(hash, paid)
        }
    }
}

/// An injection that is not turned down keeps the invariant.
pub proof fn lemma_injected(s: LedgerView, amount: u128)
    requires
        s.inv(),
        s.injection_error(amount) is None,
    ensures
        s.injected(amount).inv(),
        0 <= rate_step(amount, s.total_cucumber_balance),
{
    let t = s.injected(amount);
    let d = NEAR_PER_CUCUMBER_DENOM as int;
    let total = s.total_cucumber_balance as int;
    let x = amount * NEAR_PER_CUCUMBER_DENOM;
    let step = rate_step(amount, s.total_cucumber_balance);
    assert(0 <= x) by (nonlinear_arith)
        requires
            x == amount * NEAR_PER_CUCUMBER_DENOM,
    ;
    vstd::arithmetic::div_mod::lemma_fundamental_div_mod(x, total);
    vstd::arithmetic::div_mod::lemma_div_pos_is_pos(x, total);
    vstd::arithmetic::div_mod::lemma_mod_bound(x, total);
    assert(step * total <= x) by (nonlinear_arith)
        requires
            x == total * step + x % total,
            0 <= x % total,
    ;
    lemma_sum_nonnegative_parts(s);
    let staked = s.staked();
    assert(step * staked <= step * total) by (nonlinear_arith)
        requires
            0 <= step,
            staked <= total,
    ;
    let new_rate = t.near_per_cucumber_numer;
    assert forall|j: int| 0 <= j < s.accounts.len() implies owed_of(new_rate)(
        #[trigger] s.accounts[j],
    ) == owed_of(s.near_per_cucumber_numer)(s.accounts[j]) + step * stake_of()(s.accounts[j]) by {
        let a = s.accounts[j].account;
        let last = a.last_near_per_cucumber_numer as int;
        let b = a.cucumber_balance as int;
        let rate = s.near_per_cucumber_numer as int;
        assert((rate + step - last) * b == (rate - last) * b + step * b) by (nonlinear_arith);
    }
    lemma_sum_linear(
        s.accounts,
        owed_of(new_rate),
        owed_of(s.near_per_cucumber_numer),
        stake_of(),
        step,
    );
    assert(d * (s.total_near_received + amount) == d * s.total_near_received + amount * d)
        by (nonlinear_arith);
}

/// Registration keeps the invariant.
pub proof fn lemma_registered(s: LedgerView, hash: ShortAccountHash)
    requires
        s.inv(),
    ensures
        s.registered(hash).inv(),
        s.registered(hash).has_account(hash),
        s.registered(hash).vaults == s.vaults,
        s.registered(hash) == s.with_balance(hash, s.settled_account(hash).cucumber_balance),
{
    lemma_can_settle(s, hash);
    lemma_with_balance(s, hash, s.settled_account(hash).cucumber_balance);
}

/// A claim keeps the invariant, and what is paid is covered by what was
/// received.
pub proof fn lemma_claimed(s: LedgerView, hash: ShortAccountHash)
    requires
        s.inv(),
    ensures
        s.claimed(hash).inv(),
        s.claimable(hash) + s.total_near_claimed <= s.total_near_received,
        s.settled_account(hash).near_claimed + s.claimable(hash) <= u128::MAX,
        s.claimed(hash).vaults == s.vaults,
        s.claimed(hash).total_cucumber_balance == s.total_cucumber_balance,
{
    let rate = s.near_per_cucumber_numer;
    let d = NEAR_PER_CUCUMBER_DENOM as int;
    let prev = s.account_or_new(hash);
    let a = s.settled_account(hash);
    let paid = Account {
        near_balance: 0,
        near_claimed: (a.near_claimed + a.near_balance) as u128,
        ..a
    };
    lemma_can_settle(s, hash);
    lemma_settle_owed(prev, rate);
    lemma_owed_when_settled(a, rate);
    lemma_owed_when_settled(paid, rate);
    lemma_with_account(s, hash, paid);
    assert(d * (s.total_near_claimed + a.near_balance) == d * s.total_near_claimed + d
        * a.near_balance) by (nonlinear_arith);
}

impl Farm {
    /// Injects `attached_deposit` of reward: the rate rises by the reward per
    /// unit of stake. Turned down while nothing is staked, and where a
    /// counter would leave its range; the ledger is then unchanged.
    pub fn take_my_near(&mut self, attached_deposit: u128) -> (r: Result<(), FarmError>)
        requires
            old(self).wf(),
        ensures
            final(self).wf(),
            r == match old(self)@.injection_error(attached_deposit) {
                Some(e) => Err::<(), FarmError>(e),
                None => Ok(()),
            },
            final(self)@ == if r is Ok {
                old(self)@.injected(attached_deposit)
            } else {
                old(self)@
            },
            old(self)@.total_cucumber_balance == 0 ==> r is Err,
    {
        let total: u128 = self.total_cucumber_balance();
        if total == 0 {
            return Err(FarmError::NoStake);
        }
        proof {
            let x = attached_deposit * NEAR_PER_CUCUMBER_DENOM;
            assert(0 <= x) by (nonlinear_arith)
                requires
                    x == attached_deposit * NEAR_PER_CUCUMBER_DENOM,
            ;
            vstd::arithmetic::div_mod::lemma_div_pos_is_pos(x, total as int);
        }
        let step: u128 = match mul_div(attached_deposit, NEAR_PER_CUCUMBER_DENOM, total) {
            Some(step) => step,
            None => {
                return Err(FarmError::Overflow);
            },
        };
        let rate: u128 = match self.near_per_cucumber_numer().checked_add(step) {
            Some(rate) => rate,
            None => {
                return Err(FarmError::Overflow);
            },
        };
        let received: u128 = match self.total_near_received().checked_add(attached_deposit) {
            Some(received) => received,
            None => {
                return Err(FarmError::Overflow);
            },
        };
        proof {
            lemma_injected(self@, attached_deposit);
        }
        self.set_reward(rate, received);
        Ok(())
    }

    /// Registers the identity: its record is opened if there was none, and
    /// settled.
    pub fn register_account(&mut self, hash: &ShortAccountHash)
        requires
            old(self).wf(),
        ensures
            final(self).wf(),
            final(self)@ == old(self)@.registered(*hash),
            final(self)@.has_account(*hash),
    {
        proof {
            lemma_registered(self@, *hash);
        }
        let account = self.get_mut_account(hash);
        self.save_account(hash, &account);
    }

    /// Pays out the reward of `caller`: its record is settled, the settled
    /// reward moves to what was paid, and the payment that is due is handed
    /// back. Nothing is due where the reward is zero.
    pub fn claim_near(&mut self, caller: &Identity) -> (r: (u128, Option<Payout>))
        requires
            old(self).wf(),
        ensures
            final(self).wf(),
            final(self)@ == old(self)@.claimed(caller.hash),
            r.0 == old(self)@.claimable(caller.hash),
            r.0 == 0 <==> r.1 is None,
            r.1 matches Some(p) ==> p.amount == r.0 && p.receiver_id@ == caller.account_id@,
    {
        proof {
            lemma_claimed(self@, caller.hash);
        }
        let mut account = self.get_mut_account(&caller.hash);
        let amount: u128 = account.near_balance;
        account.near_balance = 0;
        account.near_claimed = account.near_claimed + amount;
        self.save_account(&caller.hash, &account);
        let total: u128 = self.total_near_claimed();
        self.set_total_near_claimed(total + amount);
        if amount > 0 {
            (amount, Some(Payout { receiver_id: caller.account_id.clone(), amount }))
        } else {
            (amount, None)
        }
    }
}

} // verus!
