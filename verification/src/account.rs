//! The per-identity balance record and the lazy settlement of its reward.

use crate::wide::mul_div;
use vstd::prelude::*;

verus! {

/// The fixed-point scale of the reward rate: one cucumber is this many units.
pub const NEAR_PER_CUCUMBER_DENOM: u128 = 1_000_000_000_000_000_000;

/// The balances the ledger keeps for one identity.
#[derive(Clone, Copy, Debug, PartialEq, Eq, Structural)]
pub struct Account {
    /// The global rate numerator as it stood when this record was last settled.
    pub last_near_per_cucumber_numer: u128,
    /// Reward settled so far and not yet claimed.
    pub near_balance: u128,
    /// The stake that earns reward.
    pub cucumber_balance: u128,
    /// Reward ever paid out to this identity.
    pub near_claimed: u128,
}

/// An account as the read-only entry points report it.
#[derive(Clone, Copy, Debug, PartialEq, Eq, Structural)]
pub struct HumanAccount {
    pub near_balance: u128,
    pub cucumber_balance: u128,
    pub near_claimed: u128,
}

/// The ledger's totals as the read-only entry points report them.
#[derive(Clone, Copy, Debug, PartialEq, Eq, Structural)]
pub struct HumanStats {
    pub total_cucumber_balance: u128,
    pub total_near_claimed: u128,
    pub total_near_received: u128,
}

impl Account {
    /// A record with no balances whose snapshot is `rate`: it has earned
    /// nothing of what was distributed before.
    pub open spec fn opened_at(rate: u128) -> Account {
        Account {
            last_near_per_cucumber_numer: rate,
            near_balance: 0,
            cucumber_balance: 0,
            near_claimed: 0,
        }
    }

    /// The reward this record has earned since its snapshot, at the global
    /// rate `rate`: the rate's growth times the stake, scaled down and
    /// rounded down.
    pub open spec fn earned(self, rate: u128) -> int {
        ((rate - self.last_near_per_cucumber_numer) * self.cucumber_balance) / (
        NEAR_PER_CUCUMBER_DENOM as int)
    }

    /// Whether the record can be settled at `rate`: its snapshot is not ahead
    /// of the rate, and the settled balance fits in 128 bits.
    pub open spec fn can_settle(self, rate: u128) -> bool {
        &&& self.last_near_per_cucumber_numer <= rate
        &&& self.near_balance + self.earned(rate) <= u128::MAX
    }

    /// The record after settlement at `rate`: what it earned is added to
    /// its reward balance and the snapshot is `rate`.
    pub open spec fn settled(self, rate: u128) -> Account {
        Account {
            last_near_per_cucumber_numer: rate,
            near_balance: (self.near_balance + self.earned(rate)) as u128,
            ..self
        }
    }

    /// The record as the read-only entry points report it.
    pub open spec fn human(self) -> HumanAccount {
        HumanAccount {
            near_balance: self.near_balance,
            cucumber_balance: self.cucumber_balance,
            near_claimed: self.near_claimed,
        }
    }

    /// A fresh record opened at `rate`.
    pub fn open_at(rate: u128) -> (r: Account)
        ensures
            r == Account::opened_at(rate),
    {
        Account {
            last_near_per_cucumber_numer: rate,
            near_balance: 0,
            cucumber_balance: 0,
            near_claimed: 0,
        }
    }

    /// Settles the record at the global rate `rate`.
    pub fn settle(&mut self, rate: u128)
        requires
            old(self).can_settle(rate),
        ensures
            *final(self) == old(self).settled(rate),
    {
        let diff: u128 = rate - self.last_near_per_cucumber_numer;
        proof {
            assert((rate - self.last_near_per_cucumber_numer) * self.cucumber_balance >= 0)
                by (nonlinear_arith)
                requires
                    rate - self.last_near_per_cucumber_numer >= 0,
                    self.cucumber_balance >= 0,
            ;
        }
        match mul_div(diff, self.cucumber_balance, NEAR_PER_CUCUMBER_DENOM) {
            Some(earned) => {
                self.near_balance = self.near_balance + earned;
            },
            None => {},
        }
        self.last_near_per_cucumber_numer = rate;
    }

    /// The record as the read-only entry points report it.
    pub fn to_human(&self) -> (r: HumanAccount)
        ensures
            r == self.human(),
    {
        HumanAccount {
            near_balance: self.near_balance,
            cucumber_balance: self.cucumber_balance,
            near_claimed: self.near_claimed,
        }
    }
}

/// Settling a record that was just settled at the same rate changes nothing.
pub proof fn lemma_settle_idempotent(account: Account, rate: u128)
    requires
        account.can_settle(rate),
    ensures
        account.settled(rate).can_settle(rate),
        account.settled(rate).earned(rate) == 0,
        account.settled(rate).settled(rate) == account.settled(rate),
{
    let once = account.settled(rate);
    assert((rate - once.last_near_per_cucumber_numer) * once.cucumber_balance == 0)
        by (nonlinear_arith)
        requires
            once.last_near_per_cucumber_numer == rate,
    ;
}

} // verus!
