//! The ledger as plain data, as it is stored between calls, and the check
//! that such data is a ledger.

use crate::account::NEAR_PER_CUCUMBER_DENOM;
use crate::model::{
    claimed_of, escrow_of, lemma_accounts_nonnegative, owed_of, stake_of, AccountEntry,
    LedgerView, VaultEntry,
};
use crate::sums::{lemma_sum_take_le, lemma_sum_take_step, sum_by};
use crate::vault::VaultId;
use crate::wide::wide_mul;
use vstd::prelude::*;

verus! {

/// Every field of a ledger, open to be written and read. Not every value of
/// this type is a ledger: see [`FarmState::is_valid`].
#[derive(Clone, Debug)]
pub struct FarmState {
    pub accounts: Vec<AccountEntry>,
    pub banana_token_account_id: String,
    pub near_per_cucumber_numer: u128,
    pub total_cucumber_balance: u128,
    pub total_near_received: u128,
    pub total_near_claimed: u128,
    pub vaults: Vec<VaultEntry>,
    pub next_vault_id: VaultId,
}

impl View for FarmState {
    type V = LedgerView;

    /// The state this data stands for, field by field.
    open spec fn view(&self) -> LedgerView {
        LedgerView {
            accounts: self.accounts@,
            vaults: self.vaults@,
            banana_token_account_id: self.banana_token_account_id@,
            near_per_cucumber_numer: self.near_per_cucumber_numer,
            total_cucumber_balance: self.total_cucumber_balance,
            total_near_received: self.total_near_received,
            total_near_claimed: self.total_near_claimed,
            next_vault_id: self.next_vault_id,
        }
    }
}

/// Whether no two of the records share a key.
fn accounts_distinct(accounts: &Vec<AccountEntry>) -> (r: bool)
    ensures
        r == forall|i: int, j: int|
            0 <= i < j < accounts@.len() ==> (#[trigger] accounts@[i]).hash != (
            #[trigger] accounts@[j]).hash,
{
    let mut j: usize = 0;
    while j < accounts.len()
        invariant
            j <= accounts.len(),
            forall|a: int, b: int|
                0 <= a < b < j ==> (#[trigger] accounts@[a]).hash != (#[trigger] accounts@[b]).hash,
        decreases accounts.len() - j,
    {
        let mut i: usize = 0;
        while i < j
            invariant
                i <= j < accounts.len(),
                forall|a: int| 0 <= a < i ==> (#[trigger] accounts@[a]).hash != accounts@[j as int].hash,
            decreases j - i,
        {
            if accounts[i].hash == accounts[j].hash {
                return false;
            }
            i = i + 1;
        }
        j = j + 1;
    }
    true
}

/// Whether no two of the vaults share an identifier and every identifier is
/// below `next`.
fn vaults_distinct_below(vaults: &Vec<VaultEntry>, next: VaultId) -> (r: bool)
    ensures
        r == ((forall|i: int, j: int|
            0 <= i < j < vaults@.len() ==> (#[trigger] vaults@[i]).id != (#[trigger] vaults@[j]).id)
            && (forall|i: int| 0 <= i < vaults@.len() ==> (#[trigger] vaults@[i]).id.0 < next.0)),
{
    let mut j: usize = 0;
    while j < vaults.len()
        invariant
            j <= vaults.len(),
            forall|a: int, b: int|
                0 <= a < b < j ==> (#[trigger] vaults@[a]).id != (#[trigger] vaults@[b]).id,
            forall|a: int| 0 <= a < j ==> (#[trigger] vaults@[a]).id.0 < next.0,
        decreases vaults.len() - j,
    {
        if vaults[j].id.0 >= next.0 {
            return false;
        }
        let mut i: usize = 0;
        while i < j
            invariant
                i <= j < vaults.len(),
                forall|a: int| 0 <= a < i ==> (#[trigger] vaults@[a]).id != vaults@[j as int].id,
            decreases j - i,
        {
            if vaults[i].id.0 == vaults[j].id.0 {
                return false;
            }
            i = i + 1;
        }
        j = j + 1;
    }
    true
}

/// Whether no snapshot is ahead of `rate`.
fn snapshots_behind(accounts: &Vec<AccountEntry>, rate: u128) -> (r: bool)
    ensures
        r == forall|i: int|
            0 <= i < accounts@.len() ==> (
            #[trigger] accounts@[i]).account.last_near_per_cucumber_numer <= rate,
{
    let mut i: usize = 0;
    while i < accounts.len()
        invariant
            i <= accounts.len(),
            forall|a: int|
                0 <= a < i ==> (#[trigger] accounts@[a]).account.last_near_per_cucumber_numer
                    <= rate,
        decreases accounts.len() - i,
    {
        if accounts[i].account.last_near_per_cucumber_numer > rate {
            return false;
        }
        i = i + 1;
    }
    true
}

/// The sum of the stakes, if it fits in 128 bits.
fn sum_stakes(accounts: &Vec<AccountEntry>) -> (r: Option<u128>)
    ensures
        match r {
            Some(x) => x == sum_by(accounts@, stake_of()),
            None => sum_by(accounts@, stake_of()) > u128::MAX,
        },
{
    let mut total: u128 = 0;
    let mut i: usize = 0;
    assert(accounts@.take(0) =~= Seq::empty());
    while i < accounts.len()
        invariant
            i <= accounts.len(),
            total == sum_by(accounts@.take(i as int), stake_of()),
        decreases accounts.len() - i,
    {
        proof {
            lemma_sum_take_step(accounts@, i as int, stake_of());
            lemma_sum_take_le(accounts@, i + 1, stake_of());
        }
        total = match total.checked_add(accounts[i].account.cucumber_balance) {
            Some(next) => next,
            None => {
                return None;
            },
        };
        i = i + 1;
    }
    assert(accounts@.take(i as int) =~= accounts@);
    Some(total)
}

/// The sum of what was paid out, if it fits in 128 bits.
fn sum_claimed(accounts: &Vec<AccountEntry>) -> (r: Option<u128>)
    ensures
        match r {
            Some(x) => x == sum_by(accounts@, claimed_of()),
            None => sum_by(accounts@, claimed_of()) > u128::MAX,
        },
{
    let mut total: u128 = 0;
    let mut i: usize = 0;
    assert(accounts@.take(0) =~= Seq::empty());
    while i < accounts.len()
        invariant
            i <= accounts.len(),
            total == sum_by(accounts@.take(i as int), claimed_of()),
        decreases accounts.len() - i,
    {
        proof {
            lemma_sum_take_step(accounts@, i as int, claimed_of());
            lemma_sum_take_le(accounts@, i + 1, claimed_of());
        }
        total = match total.checked_add(accounts[i].account.near_claimed) {
            Some(next) => next,
            None => {
                return None;
            },
        };
        i = i + 1;
    }
    assert(accounts@.take(i as int) =~= accounts@);
    Some(total)
}

/// The sum of what the vaults hold, if it fits in 128 bits.
pub(crate) fn sum_escrow(vaults: &Vec<VaultEntry>) -> (r: Option<u128>)
    ensures
        match r {
            Some(x) => x == sum_by(vaults@, escrow_of()),
            None => sum_by(vaults@, escrow_of()) > u128::MAX,
        },
{
    let mut total: u128 = 0;
    let mut i: usize = 0;
    assert(vaults@.take(0) =~= Seq::empty());
    while i < vaults.len()
        invariant
            i <= vaults.len(),
            total == sum_by(vaults@.take(i as int), escrow_of()),
        decreases vaults.len() - i,
    {
        proof {
            lemma_sum_take_step(vaults@, i as int, escrow_of());
            lemma_sum_take_le(vaults@, i + 1, escrow_of());
        }
        total = match total.checked_add(vaults[i].vault.balance) {
            Some(next) => next,
            None => {
                return None;
            },
        };
        i = i + 1;
    }
    assert(vaults@.take(i as int) =~= vaults@);
    Some(total)
}

/// Whether what is owed to the records at `rate`, with what was paid out,
/// is covered by what was received.
fn solvent(accounts: &Vec<AccountEntry>, rate: u128, claimed: u128, received: u128) -> (r: bool)
    requires
        forall|i: int|
            0 <= i < accounts@.len() ==> (
            #[trigger] accounts@[i]).account.last_near_per_cucumber_numer <= rate,
    ensures
        r == (sum_by(accounts@, owed_of(rate)) + NEAR_PER_CUCUMBER_DENOM * claimed
            <= NEAR_PER_CUCUMBER_DENOM * received),
{
    let ghost view = LedgerView {
        accounts: accounts@,
        vaults: Seq::empty(),
        banana_token_account_id: Seq::empty(),
        near_per_cucumber_numer: rate,
        total_cucumber_balance: 0,
        total_near_received: received,
        total_near_claimed: claimed,
        next_vault_id: VaultId(0),
    };
    proof {
        lemma_accounts_nonnegative(view);
        lemma_sum_take_le(accounts@, 0, owed_of(rate));
        assert(accounts@.take(0) =~= Seq::empty());
    }
    let budget = wide_mul(NEAR_PER_CUCUMBER_DENOM, received);
    let paid = wide_mul(NEAR_PER_CUCUMBER_DENOM, claimed);
    if !paid.le(&budget) {
        return false;
    }
    let mut left = budget.minus(&paid);
    let mut i: usize = 0;
    while i < accounts.len()
        invariant
            i <= accounts.len(),
            forall|j: int|
                0 <= j < accounts@.len() ==> owed_of(rate)(#[trigger] accounts@[j]) >= 0,
            forall|j: int|
                0 <= j < accounts@.len() ==> (
                #[trigger] accounts@[j]).account.last_near_per_cucumber_numer <= rate,
            left.value() == NEAR_PER_CUCUMBER_DENOM * received - NEAR_PER_CUCUMBER_DENOM * claimed
                - sum_by(accounts@.take(i as int), owed_of(rate)),
        decreases accounts.len() - i,
    {
        proof {
            lemma_sum_take_step(accounts@, i as int, owed_of(rate));
            lemma_sum_take_le(accounts@, i + 1, owed_of(rate));
        }
        let account = accounts[i].account;
        let unsettled = wide_mul(rate - account.last_near_per_cucumber_numer, account.cucumber_balance);
        if !unsettled.le(&left) {
            proof {
                assert(NEAR_PER_CUCUMBER_DENOM * account.near_balance >= 0) by (nonlinear_arith);
            }
            return false;
        }
        left = left.minus(&unsettled);
        let settled = wide_mul(NEAR_PER_CUCUMBER_DENOM, account.near_balance);
        if !settled.le(&left) {
            return false;
        }
        left = left.minus(&settled);
        i = i + 1;
    }
    assert(accounts@.take(i as int) =~= accounts@);
    true
}

impl FarmState {
    /// Whether this data is a ledger: whether it keeps the invariant.
    pub fn is_valid(&self) -> (r: bool)
        ensures
            r == self@.inv(),
    {
        if !accounts_distinct(&self.accounts) {
            return false;
        }
        if !vaults_distinct_below(&self.vaults, self.next_vault_id) {
            return false;
        }
        if !snapshots_behind(&self.accounts, self.near_per_cucumber_numer) {
            return false;
        }
        proof {
            lemma_accounts_nonnegative(self@);
            crate::model::lemma_sum_nonnegative_parts(self@);
        }
        match sum_stakes(&self.accounts) {
            Some(staked) => {
                if staked != self.total_cucumber_balance {
                    return false;
                }
            },
            None => {
                return false;
            },
        }
        match sum_escrow(&self.vaults) {
            Some(escrowed) => {
                if self.total_cucumber_balance.checked_add(escrowed).is_none() {
                    return false;
                }
            },
            None => {
                return false;
            },
        }
        match sum_claimed(&self.accounts) {
            Some(paid_out) => {
                if paid_out != self.total_near_claimed {
                    return false;
                }
            },
            None => {
                return false;
            },
        }
        solvent(
            &self.accounts,
            self.near_per_cucumber_numer,
            self.total_near_claimed,
            self.total_near_received,
        )
    }
}

} // verus!
