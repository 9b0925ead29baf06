//! The mathematical model of the ledger: its records as sequences, the sums
//! over them, and the invariant that every operation keeps.

use crate::account::{Account, NEAR_PER_CUCUMBER_DENOM};
use crate::identity::ShortAccountHash;
use crate::sums::{lemma_sum_bounds, lemma_sum_push, lemma_sum_remove, lemma_sum_update, sum_by};
use crate::vault::{Vault, VaultId};
use vstd::prelude::*;

verus! {

/// One account record: the key and the balances kept under it.
#[derive(Clone, Copy, Debug)]
pub struct AccountEntry {
    pub hash: ShortAccountHash,
    pub account: Account,
}

/// One vault record: the identifier and the vault kept under it.
#[derive(Clone, Copy, Debug)]
pub struct VaultEntry {
    pub id: VaultId,
    pub vault: Vault,
}

impl Account {
    /// What the ledger owes this record at the global rate `rate`, in units
    /// scaled up by the denominator: the reward not yet settled, before
    /// rounding, and the reward settled and not yet claimed.
    pub open spec fn owed(self, rate: u128) -> int {
        (rate - self.last_near_per_cucumber_numer) * self.cucumber_balance
            + NEAR_PER_CUCUMBER_DENOM * self.near_balance
    }
}

/// The stake of a record.
pub open spec fn stake_of() -> spec_fn(AccountEntry) -> int {
    |e: AccountEntry| e.account.cucumber_balance as int
}

/// The reward ever paid out to a record.
pub open spec fn claimed_of() -> spec_fn(AccountEntry) -> int {
    |e: AccountEntry| e.account.near_claimed as int
}

/// What is owed to a record at `rate`.
pub open spec fn owed_of(rate: u128) -> spec_fn(AccountEntry) -> int {
    |e: AccountEntry| e.account.owed(rate)
}

/// What a vault holds.
pub open spec fn escrow_of() -> spec_fn(VaultEntry) -> int {
    |e: VaultEntry| e.vault.balance as int
}

/// Whether one of `accounts` is kept under `hash`.
pub open spec fn has_record(accounts: Seq<AccountEntry>, hash: ShortAccountHash) -> bool {
    exists|i: int| 0 <= i < accounts.len() && (#[trigger] accounts[i]).hash == hash
}

/// The place among `accounts` of a record kept under `hash`.
pub open spec fn record_slot(accounts: Seq<AccountEntry>, hash: ShortAccountHash) -> int {
    choose|i: int| 0 <= i < accounts.len() && (#[trigger] accounts[i]).hash == hash
}

/// Whether one of `vaults` is kept under `id`.
pub open spec fn has_vault_record(vaults: Seq<VaultEntry>, id: VaultId) -> bool {
    exists|i: int| 0 <= i < vaults.len() && (#[trigger] vaults[i]).id == id
}

/// The place among `vaults` of a vault kept under `id`.
pub open spec fn vault_record_slot(vaults: Seq<VaultEntry>, id: VaultId) -> int {
    choose|i: int| 0 <= i < vaults.len() && (#[trigger] vaults[i]).id == id
}

/// The state of the ledger.
pub struct LedgerView {
    /// The account records, in the order in which they were opened.
    pub accounts: Seq<AccountEntry>,
    /// The vaults that are not yet resolved.
    pub vaults: Seq<VaultEntry>,
    /// The identity from which deposits are accepted.
    pub banana_token_account_id: Seq<char>,
    /// The running reward per unit of stake, scaled up by the denominator.
    pub near_per_cucumber_numer: u128,
    /// The stake in circulation.
    pub total_cucumber_balance: u128,
    /// The reward ever received.
    pub total_near_received: u128,
    /// The reward ever paid out.
    pub total_near_claimed: u128,
    /// The identifier the next vault will get.
    pub next_vault_id: VaultId,
}

impl LedgerView {
    /// The ledger before anything happened.
    pub open spec fn empty(banana_token_account_id: Seq<char>) -> LedgerView {
        LedgerView {
            accounts: Seq::empty(),
            vaults: Seq::empty(),
            banana_token_account_id,
            near_per_cucumber_numer: 0,
            total_cucumber_balance: 0,
            total_near_received: 0,
            total_near_claimed: 0,
            next_vault_id: VaultId(0),
        }
    }

    /// Whether a record is kept under `hash`.
    pub open spec fn has_account(self, hash: ShortAccountHash) -> bool {
        has_record(self.accounts, hash)
    }

    /// The place of the record kept under `hash`.
    pub open spec fn slot(self, hash: ShortAccountHash) -> int {
        record_slot(self.accounts, hash)
    }

    /// The record kept under `hash`, if there is one.
    pub open spec fn account(self, hash: ShortAccountHash) -> Option<Account> {
        if self.has_account(hash) {
            Some(self.accounts[self.slot(hash)].account)
        } else {
            None
        }
    }

    /// The record kept under `hash`, or a record opened now if there is none.
    pub open spec fn account_or_new(self, hash: ShortAccountHash) -> Account {
        match self.account(hash) {
            Some(a) => a,
            None => Account::opened_at(self.near_per_cucumber_numer),
        }
    }

    /// The record kept under `hash`, or a record opened now, settled at the
    /// current rate.
    pub open spec fn settled_account(self, hash: ShortAccountHash) -> Account {
        self.account_or_new(hash).settled(self.near_per_cucumber_numer)
    }

    /// The ledger with `account` kept under `hash`, in the place of the
    /// record that was there or, if there was none, after all others.
    pub open spec fn with_account(self, hash: ShortAccountHash, account: Account) -> LedgerView {
        let entry = AccountEntry { hash, account };
        if self.has_account(hash) {
            LedgerView { accounts: self.accounts.update(self.slot(hash), entry), ..self }
        } else {
            LedgerView { accounts: self.accounts.push(entry), ..self }
        }
    }

    /// Whether a vault is kept under `id`.
    pub open spec fn has_vault(self, id: VaultId) -> bool {
        has_vault_record(self.vaults, id)
    }

    /// The place of the vault kept under `id`.
    pub open spec fn vault_slot(self, id: VaultId) -> int {
        vault_record_slot(self.vaults, id)
    }

    /// The vault kept under `id`, if there is one.
    pub open spec fn vault(self, id: VaultId) -> Option<Vault> {
        if self.has_vault(id) {
            Some(self.vaults[self.vault_slot(id)].vault)
        } else {
            None
        }
    }

    /// The ledger with the vault under `id` replaced by `vault`.
    pub open spec fn with_vault(self, id: VaultId, vault: Vault) -> LedgerView {
        LedgerView {
            vaults: self.vaults.update(self.vault_slot(id), VaultEntry { id, vault }),
            ..self
        }
    }

    /// The ledger without the vault under `id`.
    pub open spec fn without_vault(self, id: VaultId) -> LedgerView {
        LedgerView { vaults: self.vaults.remove(self.vault_slot(id)), ..self }
    }

    /// The sum of the stakes of all records.
    pub open spec fn staked(self) -> int {
        sum_by(self.accounts, stake_of())
    }

    /// The sum of what all vaults hold.
    pub open spec fn escrowed(self) -> int {
        sum_by(self.vaults, escrow_of())
    }

    /// The sum of what was ever paid out to the records.
    pub open spec fn paid_out(self) -> int {
        sum_by(self.accounts, claimed_of())
    }

    /// The sum of what is owed to the records at the current rate.
    pub open spec fn owed(self) -> int {
        sum_by(self.accounts, owed_of(self.near_per_cucumber_numer))
    }

    /// No two records share a key, no two vaults share an identifier, and
    /// every identifier in use is below the next one to be given out.
    pub open spec fn keys_ok(self) -> bool {
        &&& forall|i: int, j: int|
            0 <= i < j < self.accounts.len() ==> (#[trigger] self.accounts[i]).hash != (
            #[trigger] self.accounts[j]).hash
        &&& forall|i: int, j: int|
            0 <= i < j < self.vaults.len() ==> (#[trigger] self.vaults[i]).id != (
            #[trigger] self.vaults[j]).id
        &&& forall|i: int|
            0 <= i < self.vaults.len() ==> (#[trigger] self.vaults[i]).id.0 < self.next_vault_id.0
    }

    /// The stake in circulation is what the records hold. What waits in a
    /// vault is no record's stake and is not in circulation.
    pub open spec fn supply_ok(self) -> bool {
        self.staked() == self.total_cucumber_balance
    }

    /// What the vaults hold can go back into circulation: with it the stake
    /// in circulation stays within 128 bits.
    pub open spec fn escrow_ok(self) -> bool {
        self.total_cucumber_balance + self.escrowed() <= u128::MAX
    }

    /// No snapshot is ahead of the rate; what is owed to the records and what
    /// was paid out does not exceed what was received; and the records'
    /// payouts add up to the total paid out.
    pub open spec fn rewards_ok(self) -> bool {
        &&& forall|i: int|
            0 <= i < self.accounts.len() ==> (
            #[trigger] self.accounts[i]).account.last_near_per_cucumber_numer
                <= self.near_per_cucumber_numer
        &&& self.owed() + NEAR_PER_CUCUMBER_DENOM * self.total_near_claimed
            <= NEAR_PER_CUCUMBER_DENOM * self.total_near_received
        &&& self.paid_out() == self.total_near_claimed
    }

    /// The invariant of the ledger.
    pub open spec fn inv(self) -> bool {
        &&& self.keys_ok()
        &&& self.supply_ok()
        &&& self.escrow_ok()
        &&& self.rewards_ok()
    }
}

/// The ledger before anything happened keeps the invariant.
pub proof fn lemma_empty_inv(banana_token_account_id: Seq<char>)
    ensures
        LedgerView::empty(banana_token_account_id).inv(),
{
    let s = LedgerView::empty(banana_token_account_id);
    assert(sum_by(s.accounts, stake_of()) == 0);
    assert(sum_by(s.accounts, claimed_of()) == 0);
    assert(sum_by(s.accounts, owed_of(s.near_per_cucumber_numer)) == 0);
    assert(sum_by(s.vaults, escrow_of()) == 0);
}

/// What is owed to a record whose snapshot is not ahead of the rate is not
/// negative.
pub proof fn lemma_owed_nonnegative(a: Account, rate: u128)
    requires
        a.last_near_per_cucumber_numer <= rate,
    ensures
        0 <= (rate - a.last_near_per_cucumber_numer) * a.cucumber_balance,
        0 <= a.owed(rate),
{
    assert(0 <= (rate - a.last_near_per_cucumber_numer) * a.cucumber_balance) by (nonlinear_arith)
        requires
            a.last_near_per_cucumber_numer <= rate,
            0 <= a.cucumber_balance,
    ;
    assert(0 <= NEAR_PER_CUCUMBER_DENOM * a.near_balance) by (nonlinear_arith)
        requires
            0 <= a.near_balance,
    ;
}

/// Settlement never raises what is owed to a record: rounding is in the
/// ledger's favour.
pub proof fn lemma_settle_owed(a: Account, rate: u128)
    requires
        a.can_settle(rate),
    ensures
        0 <= a.earned(rate),
        a.settled(rate).owed(rate) == NEAR_PER_CUCUMBER_DENOM * (a.near_balance + a.earned(rate)),
        a.settled(rate).owed(rate) <= a.owed(rate),
        a.settled(rate).cucumber_balance == a.cucumber_balance,
        a.settled(rate).near_claimed == a.near_claimed,
        a.settled(rate).last_near_per_cucumber_numer == rate,
{
    let x = (rate - a.last_near_per_cucumber_numer) * a.cucumber_balance;
    let d = NEAR_PER_CUCUMBER_DENOM as int;
    lemma_owed_nonnegative(a, rate);
    vstd::arithmetic::div_mod::lemma_fundamental_div_mod(x, d);
    vstd::arithmetic::div_mod::lemma_div_pos_is_pos(x, d);
    vstd::arithmetic::div_mod::lemma_mod_bound(x, d);
    let s = a.settled(rate);
    assert((rate - s.last_near_per_cucumber_numer) * s.cucumber_balance == 0) by (nonlinear_arith)
        requires
            s.last_near_per_cucumber_numer == rate,
    ;
    assert(d * (a.near_balance + x / d) == d * a.near_balance + d * (x / d)) by (nonlinear_arith);
}

/// What is owed to a record that is settled at the rate does not depend on
/// its stake.
pub proof fn lemma_owed_when_settled(a: Account, rate: u128)
    requires
        a.last_near_per_cucumber_numer == rate,
    ensures
        a.owed(rate) == NEAR_PER_CUCUMBER_DENOM * a.near_balance,
        a.earned(rate) == 0,
        a.can_settle(rate),
        a.settled(rate) == a,
{
    assert((rate - a.last_near_per_cucumber_numer) * a.cucumber_balance == 0) by (nonlinear_arith)
        requires
            a.last_near_per_cucumber_numer == rate,
    ;
}

/// In a ledger without two records under one key, a record found under a
/// key is the record of that key.
pub proof fn lemma_slot(s: LedgerView, hash: ShortAccountHash, i: int)
    requires
        s.keys_ok(),
        0 <= i < s.accounts.len(),
        s.accounts[i].hash == hash,
    ensures
        s.has_account(hash),
        s.slot(hash) == i,
        s.account(hash) == Some(s.accounts[i].account),
{
}

/// In a ledger without two vaults under one identifier, a vault found under
/// an identifier is the vault of that identifier.
pub proof fn lemma_vault_slot(s: LedgerView, id: VaultId, i: int)
    requires
        s.keys_ok(),
        0 <= i < s.vaults.len(),
        s.vaults[i].id == id,
    ensures
        s.has_vault(id),
        s.vault_slot(id) == i,
        s.vault(id) == Some(s.vaults[i].vault),
{
}

/// Every record of a ledger that keeps its reward invariant can be settled
/// at the current rate, and the settled reward is covered by what was
/// received and not yet paid out.
pub proof fn lemma_can_settle(s: LedgerView, hash: ShortAccountHash)
    requires
        s.rewards_ok(),
    ensures
        s.account_or_new(hash).can_settle(s.near_per_cucumber_numer),
        s.settled_account(hash).near_balance + s.total_near_claimed <= s.total_near_received,
        s.settled_account(hash).near_claimed <= s.total_near_claimed,
        s.settled_account(hash).cucumber_balance <= s.staked(),
        s.settled_account(hash).cucumber_balance == s.account_or_new(hash).cucumber_balance,
        s.settled_account(hash).last_near_per_cucumber_numer == s.near_per_cucumber_numer,
{
    let rate = s.near_per_cucumber_numer;
    let d = NEAR_PER_CUCUMBER_DENOM as int;
    let a = s.account_or_new(hash);
    lemma_accounts_nonnegative(s);
    if s.has_account(hash) {
        let i = s.slot(hash);
        lemma_sum_bounds(s.accounts, i, owed_of(rate));
        lemma_sum_bounds(s.accounts, i, claimed_of());
        lemma_sum_bounds(s.accounts, i, stake_of());
        lemma_owed_nonnegative(a, rate);
        let x = (rate - a.last_near_per_cucumber_numer) * a.cucumber_balance;
        vstd::arithmetic::div_mod::lemma_fundamental_div_mod(x, d);
        vstd::arithmetic::div_mod::lemma_div_pos_is_pos(x, d);
        vstd::arithmetic::div_mod::lemma_mod_bound(x, d);
        let e = x / d;
        // d * (near_balance + e) <= owed(a) <= d * (received - claimed)
        assert(a.near_balance + e + s.total_near_claimed <= s.total_near_received)
            by (nonlinear_arith)
            requires
                d * e <= x,
                x + d * a.near_balance + d * s.total_near_claimed <= d * s.total_near_received,
                d > 0,
        ;
        lemma_settle_owed(a, rate);
    } else {
        lemma_owed_when_settled(a, rate);
        lemma_sum_nonnegative_parts(s);
        assert(0 + s.total_near_claimed <= s.total_near_received) by (nonlinear_arith)
            requires
                0 <= s.owed(),
                s.owed() + d * s.total_near_claimed <= d * s.total_near_received,
                d > 0,
        ;
    }
}

/// In a ledger whose snapshots are not ahead of the rate, no record has a
/// negative measure.
pub proof fn lemma_accounts_nonnegative(s: LedgerView)
    requires
        forall|i: int|
            0 <= i < s.accounts.len() ==> (
            #[trigger] s.accounts[i]).account.last_near_per_cucumber_numer
                <= s.near_per_cucumber_numer,
    ensures
        forall|j: int|
            0 <= j < s.accounts.len() ==> owed_of(s.near_per_cucumber_numer)(
                #[trigger] s.accounts[j],
            ) >= 0,
        forall|j: int| 0 <= j < s.accounts.len() ==> claimed_of()(#[trigger] s.accounts[j]) >= 0,
        forall|j: int| 0 <= j < s.accounts.len() ==> stake_of()(#[trigger] s.accounts[j]) >= 0,
        forall|j: int| 0 <= j < s.vaults.len() ==> escrow_of()(#[trigger] s.vaults[j]) >= 0,
{
    assert forall|j: int| 0 <= j < s.accounts.len() implies owed_of(s.near_per_cucumber_numer)(
        #[trigger] s.accounts[j],
    ) >= 0 by {
        lemma_owed_nonnegative(s.accounts[j].account, s.near_per_cucumber_numer);
    }
}

/// In a ledger whose snapshots are not ahead of the rate, no sum is negative.
pub proof fn lemma_sum_nonnegative_parts(s: LedgerView)
    requires
        forall|i: int|
            0 <= i < s.accounts.len() ==> (
            #[trigger] s.accounts[i]).account.last_near_per_cucumber_numer
                <= s.near_per_cucumber_numer,
    ensures
        0 <= s.owed(),
        0 <= s.staked(),
        0 <= s.escrowed(),
        0 <= s.paid_out(),
{
    lemma_accounts_nonnegative(s);
    crate::sums::lemma_sum_nonnegative(s.accounts, owed_of(s.near_per_cucumber_numer));
    crate::sums::lemma_sum_nonnegative(s.accounts, stake_of());
    crate::sums::lemma_sum_nonnegative(s.accounts, claimed_of());
    crate::sums::lemma_sum_nonnegative(s.vaults, escrow_of());
}

/// What putting a record under a key does to the ledger: the record is then
/// found under the key, all other records stay, and each sum exchanges the
/// measure of the record that was there for that of the new one.
pub proof fn lemma_with_account(s: LedgerView, hash: ShortAccountHash, a: Account)
    requires
        s.keys_ok(),
    ensures
        ({
            let t = s.with_account(hash, a);
            let prev = s.account_or_new(hash);
            let rate = s.near_per_cucumber_numer;
            &&& t.keys_ok()
            &&& t.has_account(hash)
            &&& t.account(hash) == Some(a)
            &&& forall|h: ShortAccountHash|
                h != hash ==> t.has_account(h) == s.has_account(h) && #[trigger] t.account(h)
                    == s.account(h)
            &&& forall|h: ShortAccountHash| s.has_account(h) ==> #[trigger] t.has_account(h)
            &&& t.staked() == s.staked() - prev.cucumber_balance + a.cucumber_balance
            &&& t.paid_out() == s.paid_out() - prev.near_claimed + a.near_claimed
            &&& t.owed() == s.owed() - prev.owed(rate) + a.owed(rate)
            &&& t.escrowed() == s.escrowed()
            &&& (a.last_near_per_cucumber_numer <= rate && (forall|i: int|
                0 <= i < s.accounts.len() ==> (
                #[trigger] s.accounts[i]).account.last_near_per_cucumber_numer <= rate)
                ==> forall|i: int|
                0 <= i < t.accounts.len() ==> (
                #[trigger] t.accounts[i]).account.last_near_per_cucumber_numer <= rate)
        }),
{
    let t = s.with_account(hash, a);
    let entry = AccountEntry { hash, account: a };
    let rate = s.near_per_cucumber_numer;
    if s.has_account(hash) {
        let i = s.slot(hash);
        assert(t.accounts[i] == entry);
        lemma_slot(t, hash, i);
        lemma_sum_update(s.accounts, i, entry, stake_of());
        lemma_sum_update(s.accounts, i, entry, claimed_of());
        lemma_sum_update(s.accounts, i, entry, owed_of(rate));
    } else {
        let n = s.accounts.len() as int;
        assert(t.accounts[n] == entry);
        assert forall|i: int, j: int| 0 <= i < j < t.accounts.len() implies (
        #[trigger] t.accounts[i]).hash != (#[trigger] t.accounts[j]).hash by {
            if j == n {
                assert(s.accounts[i].hash != hash);
            } else {
                assert(t.accounts[i] == s.accounts[i]);
                assert(t.accounts[j] == s.accounts[j]);
            }
        }
        lemma_slot(t, hash, n);
        lemma_sum_push(s.accounts, entry, stake_of());
        lemma_sum_push(s.accounts, entry, claimed_of());
        lemma_sum_push(s.accounts, entry, owed_of(rate));
        lemma_owed_when_settled(Account::opened_at(rate), rate);
    }
    assert(t.keys_ok());
    assert forall|h: ShortAccountHash| h != hash implies t.has_account(h) == s.has_account(h)
        && #[trigger] t.account(h) == s.account(h) by {
        if s.has_account(h) {
            let j = s.slot(h);
            assert(t.accounts[j] == s.accounts[j]);
            lemma_slot(t, h, j);
        }
        if t.has_account(h) {
            let j = t.slot(h);
            assert(t.accounts[j] == s.accounts[j]);
            lemma_slot(s, h, j);
        }
    }
    assert forall|h: ShortAccountHash| s.has_account(h) implies #[trigger] t.has_account(h) by {
        if h != hash {
            assert(t.account(h) == s.account(h));
        }
    }
}

/// What replacing a vault does to the ledger's sums.
pub proof fn lemma_with_vault(s: LedgerView, id: VaultId, v: Vault)
    requires
        s.keys_ok(),
        s.has_vault(id),
    ensures
        ({
            let t = s.with_vault(id, v);
            &&& t.keys_ok()
            &&& t.vault(id) == Some(v)
            &&& t.escrowed() == s.escrowed() - s.vault(id).unwrap().balance + v.balance
            &&& forall|other: VaultId|
                other != id ==> t.has_vault(other) == s.has_vault(other) && #[trigger] t.vault(
                    other,
                ) == s.vault(other)
        }),
{
    let t = s.with_vault(id, v);
    let i = s.vault_slot(id);
    let entry = VaultEntry { id, vault: v };
    assert(t.vaults[i] == entry);
    lemma_vault_slot(t, id, i);
    lemma_sum_update(s.vaults, i, entry, escrow_of());
    assert forall|other: VaultId| other != id implies t.has_vault(other) == s.has_vault(other)
        && #[trigger] t.vault(other) == s.vault(other) by {
        if s.has_vault(other) {
            let j = s.vault_slot(other);
            assert(t.vaults[j] == s.vaults[j]);
            lemma_vault_slot(t, other, j);
        }
        if t.has_vault(other) {
            let j = t.vault_slot(other);
            assert(t.vaults[j] == s.vaults[j]);
            lemma_vault_slot(s, other, j);
        }
    }
}

/// What taking out a vault does to the ledger: it is gone, the others stay,
/// and the escrowed sum falls by what it held.
pub proof fn lemma_without_vault(s: LedgerView, id: VaultId)
    requires
        s.keys_ok(),
        s.has_vault(id),
    ensures
        ({
            let t = s.without_vault(id);
            &&& t.keys_ok()
            &&& !t.has_vault(id)
            &&& t.escrowed() == s.escrowed() - s.vault(id).unwrap().balance
            &&& forall|other: VaultId|
                other != id ==> t.has_vault(other) == s.has_vault(other) && #[trigger] t.vault(
                    other,
                ) == s.vault(other)
        }),
{
    let t = s.without_vault(id);
    let i = s.vault_slot(id);
    lemma_sum_remove(s.vaults, i, escrow_of());
    assert forall|k: int| 0 <= k < t.vaults.len() implies #[trigger] t.vaults[k] == s.vaults[if k
        < i {
        k
    } else {
        k + 1
    }] by {}
    assert forall|k: int, l: int| 0 <= k < l < t.vaults.len() implies (#[trigger] t.vaults[k]).id
        != (#[trigger] t.vaults[l]).id by {
        let k2 = if k < i {
            k
        } else {
            k + 1
        };
        let l2 = if l < i {
            l
        } else {
            l + 1
        };
        assert(t.vaults[k] == s.vaults[k2]);
        assert(t.vaults[l] == s.vaults[l2]);
    }
    assert forall|k: int| 0 <= k < t.vaults.len() implies (#[trigger] t.vaults[k]).id.0
        < t.next_vault_id.0 by {
        let k2 = if k < i {
            k
        } else {
            k + 1
        };
        assert(t.vaults[k] == s.vaults[k2]);
    }
    if t.has_vault(id) {
        let k = t.vault_slot(id);
        let k2 = if k < i {
            k
        } else {
            k + 1
        };
        assert(t.vaults[k] == s.vaults[k2]);
        assert(s.vaults[k2].id == s.vaults[i].id);
        assert(false);
    }
    assert forall|other: VaultId| other != id implies t.has_vault(other) == s.has_vault(other)
        && #[trigger] t.vault(other) == s.vault(other) by {
        if s.has_vault(other) {
            let j = s.vault_slot(other);
            let j2 = if j < i {
                j
            } else {
                j - 1
            };
            assert(t.vaults[j2] == s.vaults[j]);
            lemma_vault_slot(t, other, j2);
        }
        if t.has_vault(other) {
            let j = t.vault_slot(other);
            let j2 = if j < i {
                j
            } else {
                j + 1
            };
            assert(t.vaults[j] == s.vaults[j2]);
            lemma_vault_slot(s, other, j2);
        }
    }
}

/// What a new vault under the next identifier does to the ledger.
pub proof fn lemma_push_vault(s: LedgerView, v: Vault)
    requires
        s.keys_ok(),
        s.next_vault_id.0 < u64::MAX,
    ensures
        ({
            let id = s.next_vault_id;
            let t = LedgerView {
                vaults: s.vaults.push(VaultEntry { id, vault: v }),
                next_vault_id: VaultId((id.0 + 1) as u64),
                ..s
            };
            &&& t.keys_ok()
            &&& !s.has_vault(id)
            &&& t.vault(id) == Some(v)
            &&& t.escrowed() == s.escrowed() + v.balance
            &&& forall|other: VaultId|
                other != id ==> t.has_vault(other) == s.has_vault(other) && #[trigger] t.vault(
                    other,
                ) == s.vault(other)
        }),
{
    let id = s.next_vault_id;
    let entry = VaultEntry { id, vault: v };
    let t = LedgerView {
        vaults: s.vaults.push(entry),
        next_vault_id: VaultId((id.0 + 1) as u64),
        ..s
    };
    let n = s.vaults.len() as int;
    assert(t.vaults[n] == entry);
    assert forall|k: int, l: int| 0 <= k < l < t.vaults.len() implies (#[trigger] t.vaults[k]).id
        != (#[trigger] t.vaults[l]).id by {
        if l == n {
            assert(t.vaults[k] == s.vaults[k]);
        } else {
            assert(t.vaults[k] == s.vaults[k]);
            assert(t.vaults[l] == s.vaults[l]);
        }
    }
    assert forall|k: int| 0 <= k < t.vaults.len() implies (#[trigger] t.vaults[k]).id.0
        < t.next_vault_id.0 by {
        if k < n {
            assert(t.vaults[k] == s.vaults[k]);
        }
    }
    lemma_vault_slot(t, id, n);
    lemma_sum_push(s.vaults, entry, escrow_of());
    assert forall|other: VaultId| other != id implies t.has_vault(other) == s.has_vault(other)
        && #[trigger] t.vault(other) == s.vault(other) by {
        if s.has_vault(other) {
            let j = s.vault_slot(other);
            assert(t.vaults[j] == s.vaults[j]);
            lemma_vault_slot(t, other, j);
        }
        if t.has_vault(other) {
            let j = t.vault_slot(other);
            assert(t.vaults[j] == s.vaults[j]);
            lemma_vault_slot(s, other, j);
        }
    }
}

impl LedgerView {
    /// The ledger in which the record under `hash`, settled at the current
    /// rate, holds the stake `balance`.
    pub open spec fn with_balance(self, hash: ShortAccountHash, balance: u128) -> LedgerView {
        self.with_account(hash, Account { cucumber_balance: balance, ..self.settled_account(hash) })
    }

    /// The ledger after `amount` was taken from the stake of `hash`.
    pub open spec fn withdrawn(self, hash: ShortAccountHash, amount: u128) -> LedgerView {
        self.with_balance(
            hash,
            (self.settled_account(hash).cucumber_balance - amount) as u128,
        )
    }

    /// The ledger after `amount` was added to the stake of `hash`, whose
    /// record is opened if there was none.
    pub open spec fn credited(self, hash: ShortAccountHash, amount: u128) -> LedgerView {
        self.with_balance(
            hash,
            (self.settled_account(hash).cucumber_balance + amount) as u128,
        )
    }

    /// The ledger after `amount` was deposited to the record of `hash`:
    /// nothing happens for an amount of zero, nor without a record.
    pub open spec fn deposited(self, hash: ShortAccountHash, amount: u128) -> LedgerView {
        if amount == 0 || !self.has_account(hash) {
            self
        } else {
            self.credited(hash, amount)
        }
    }
}

/// Settling a record and setting its stake keeps the keys and the reward
/// invariant, and moves the staked sum by the change of that stake alone.
pub proof fn lemma_with_balance(s: LedgerView, hash: ShortAccountHash, balance: u128)
    requires
        s.keys_ok(),
        s.rewards_ok(),
    ensures
        ({
            let t = s.with_balance(hash, balance);
            &&& t.keys_ok()
            &&& t.rewards_ok()
            &&& t.staked() == s.staked() - s.account_or_new(hash).cucumber_balance + balance
            &&& t.escrowed() == s.escrowed()
            &&& t.has_account(hash)
            &&& forall|h: ShortAccountHash| s.has_account(h) ==> #[trigger] t.has_account(h)
            &&& t.account(hash) == Some(
                Account { cucumber_balance: balance, ..s.settled_account(hash) },
            )
            &&& t.settled_account(hash) == (Account {
                cucumber_balance: balance,
                ..s.settled_account(hash)
            })
            &&& forall|h: ShortAccountHash|
                h != hash ==> t.has_account(h) == s.has_account(h) && #[trigger] t.account(h)
                    == s.account(h)
            &&& t.vaults == s.vaults
            &&& t.near_per_cucumber_numer == s.near_per_cucumber_numer
            &&& t.total_cucumber_balance == s.total_cucumber_balance
            &&& t.total_near_received == s.total_near_received
            &&& t.total_near_claimed == s.total_near_claimed
            &&& t.next_vault_id == s.next_vault_id
            &&& t.banana_token_account_id == s.banana_token_account_id
        }),
{
    let rate = s.near_per_cucumber_numer;
    let prev = s.account_or_new(hash);
    let settled = s.settled_account(hash);
    let a = Account { cucumber_balance: balance, ..settled };
    let t = s.with_balance(hash, balance);
    lemma_can_settle(s, hash);
    lemma_settle_owed(prev, rate);
    lemma_owed_when_settled(a, rate);
    lemma_owed_when_settled(settled, rate);
    lemma_with_account(s, hash, a);
    assert(t.account_or_new(hash) == a);
}

} // verus!
