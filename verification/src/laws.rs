//! What holds of the ledger whatever is done with it: the invariant is kept
//! by every operation and so by every sequence of them, and with it the
//! supply equals what the records hold.

use crate::account::{lemma_settle_idempotent, Account};
use crate::error::FarmError;
use crate::identity::{Identity, ShortAccountHash};
use crate::model::{
    lemma_can_settle, lemma_empty_inv, lemma_owed_when_settled, lemma_push_vault,
    lemma_with_account, lemma_with_balance, lemma_with_vault, lemma_without_vault, LedgerView,
};
use crate::receiver::{lemma_staked_by, OnReceiverPayload};
use crate::rewards::{lemma_claimed, lemma_injected, lemma_registered};
use crate::transfer::{lemma_moved, resolution_error};
use crate::vault::VaultId;
use crate::vaults::{lemma_drawn, lemma_escrowed_for, lemma_vault_resolved};
use vstd::prelude::*;

verus! {

/// One operation on the ledger, with what it is given. An operation that is
/// turned down leaves the ledger as it was.
#[allow(inconsistent_fields)]
pub enum Operation {
    /// A deposit announced to the ledger.
    Deposit {
        predecessor: Seq<char>,
        sender: ShortAccountHash,
        amount: u128,
        payload: Option<OnReceiverPayload>,
    },
    /// A transfer of stake between two identities.
    Transfer { sender: Identity, receiver: Identity, amount: u128 },
    /// A claim of reward.
    Claim { caller: ShortAccountHash },
    /// The registration of an identity, by itself or by a storage deposit.
    Register { hash: ShortAccountHash },
    /// An injection of reward.
    Inject { amount: u128 },
    /// The resolution of a transfer of which `unused` was not used.
    Resolve {
        current_account_id: Seq<char>,
        predecessor_account_id: Seq<char>,
        sender: ShortAccountHash,
        receiver: ShortAccountHash,
        unused: u128,
    },
    /// A transfer of stake into a new vault.
    Escrow {
        attached_deposit: u128,
        prepaid_gas: u64,
        sender: Identity,
        receiver: Identity,
        amount: u128,
    },
    /// A draw from a vault.
    Draw { caller: ShortAccountHash, vault_id: VaultId, destination: ShortAccountHash, amount: u128 },
    /// The resolution of a vault.
    ResolveVault {
        current_account_id: Seq<char>,
        predecessor_account_id: Seq<char>,
        vault_id: VaultId,
        sender: ShortAccountHash,
    },
}

/// The ledger after one operation.
pub open spec fn step(s: LedgerView, op: Operation) -> LedgerView {
    match op {
        Operation::Deposit { predecessor, sender, amount, payload } => {
            if s.receipt_error(predecessor, amount, payload) is None {
                s.staked_by(sender, amount)
            } else {
                s
            }
        },
        Operation::Transfer { sender, receiver, amount } => {
            if s.transfer_error(sender, receiver, amount) is None {
                s.transferred(sender.hash, receiver.hash, amount)
            } else {
                s
            }
        },
        Operation::Claim { caller } => s.claimed(caller),
        Operation::Register { hash } => s.registered(hash),
        Operation::Inject { amount } => {
            if s.injection_error(amount) is None {
                s.injected(amount)
            } else {
                s
            }
        },
        Operation::Resolve {
            current_account_id,
            predecessor_account_id,
            sender,
            receiver,
            unused,
        } => {
            if resolution_error(current_account_id, predecessor_account_id) is None {
                s.refunded(sender, receiver, unused)
            } else {
                s
            }
        },
        Operation::Escrow { attached_deposit, prepaid_gas, sender, receiver, amount } => {
            if s.vault_transfer_error(attached_deposit, prepaid_gas, sender, receiver, amount)
                is None {
                s.escrowed_for(sender.hash, receiver.hash, amount)
            } else {
                s
            }
        },
        Operation::Draw { caller, vault_id, destination, amount } => {
            if s.vault_withdrawal_error(caller, vault_id, destination, amount) is None {
                s.drawn(vault_id, destination, amount)
            } else {
                s
            }
        },
        Operation::ResolveVault { current_account_id, predecessor_account_id, vault_id, sender } => {
            if s.vault_resolution_error(current_account_id, predecessor_account_id, vault_id, sender)
                is None {
                s.vault_resolved(vault_id, sender)
            } else {
                s
            }
        },
    }
}

/// The ledger after a sequence of operations, the first of them first.
pub open spec fn run(s: LedgerView, ops: Seq<Operation>) -> LedgerView
    decreases ops.len(),
{
    if ops.len() == 0 {
        s
    } else {
        step(run(s, ops.drop_last()), ops.last())
    }
}

/// Every operation keeps the invariant of the ledger.
pub proof fn lemma_step_keeps_invariant(s: LedgerView, op: Operation)
    requires
        s.inv(),
    ensures
        step(s, op).inv(),
{
    match op {
        Operation::Deposit { predecessor, sender, amount, payload } => {
            if s.receipt_error(predecessor, amount, payload) is None {
                lemma_staked_by(s, sender, amount);
            }
        },
        Operation::Transfer { sender, receiver, amount } => {
            if s.transfer_error(sender, receiver, amount) is None {
                lemma_moved(s, sender.hash, receiver.hash, amount);
            }
        },
        Operation::Claim { caller } => {
            lemma_claimed(s, caller);
        },
        Operation::Register { hash } => {
            lemma_registered(s, hash);
        },
        Operation::Inject { amount } => {
            if s.injection_error(amount) is None {
                lemma_injected(s, amount);
            }
        },
        Operation::Resolve { sender, receiver, unused, .. } => {
            let refund = s.refund_amount(receiver, unused);
            if refund > 0 {
                lemma_moved(s, receiver, sender, refund);
            }
        },
        Operation::Escrow { attached_deposit, prepaid_gas, sender, receiver, amount } => {
            if s.vault_transfer_error(attached_deposit, prepaid_gas, sender, receiver, amount)
                is None {
                lemma_escrowed_for(s, sender.hash, receiver.hash, amount);
            }
        },
        Operation::Draw { caller, vault_id, destination, amount } => {
            if s.vault_withdrawal_error(caller, vault_id, destination, amount) is None {
                lemma_drawn(s, vault_id, destination, amount);
            }
        },
        Operation::ResolveVault { current_account_id, predecessor_account_id, vault_id, sender } => {
            if s.vault_resolution_error(current_account_id, predecessor_account_id, vault_id, sender)
                is None {
                lemma_vault_resolved(s, vault_id, sender);
            }
        },
    }
}

/// No operation lowers the rate, what was received, what was paid out or the
/// next vault identifier, and none takes a record away.
pub proof fn lemma_step_is_monotone(s: LedgerView, op: Operation, hash: ShortAccountHash)
    requires
        s.inv(),
    ensures
        s.near_per_cucumber_numer <= step(s, op).near_per_cucumber_numer,
        s.total_near_received <= step(s, op).total_near_received,
        s.total_near_claimed <= step(s, op).total_near_claimed,
        s.next_vault_id.0 <= step(s, op).next_vault_id.0,
        s.has_account(hash) ==> step(s, op).has_account(hash),
{
    match op {
        Operation::Deposit { predecessor, sender, amount, payload } => {
            if s.receipt_error(predecessor, amount, payload) is None {
                lemma_staked_by(s, sender, amount);
                let there = s.settled_account(sender).cucumber_balance;
                lemma_with_balance(s, sender, (there + amount) as u128);
                if s.has_account(hash) {
                    assert(s.credited(sender, amount).has_account(hash));
                }
            }
        },
        Operation::Transfer { sender, receiver, amount } => {
            if s.transfer_error(sender, receiver, amount) is None {
                lemma_moved_keeps_records(s, sender.hash, receiver.hash, amount, hash);
                lemma_moved(s, sender.hash, receiver.hash, amount);
            }
        },
        Operation::Claim { caller } => {
            lemma_claimed(s, caller);
            let a = s.settled_account(caller);
            let paid = Account {
                near_balance: 0,
                near_claimed: (a.near_claimed + a.near_balance) as u128,
                ..a
            };
            lemma_with_account(s, caller, paid);
            if s.has_account(hash) {
                assert(s.with_account(caller, paid).has_account(hash));
            }
        },
        Operation::Register { hash: registered } => {
            lemma_registered(s, registered);
            lemma_with_balance(s, registered, s.settled_account(registered).cucumber_balance);
        },
        Operation::Inject { amount } => {
            if s.injection_error(amount) is None {
                lemma_injected(s, amount);
            }
        },
        Operation::Resolve { sender, receiver, unused, .. } => {
            let refund = s.refund_amount(receiver, unused);
            if refund > 0 {
                lemma_moved_keeps_records(s, receiver, sender, refund, hash);
            }
        },
        Operation::Escrow { attached_deposit, prepaid_gas, sender, receiver, amount } => {
            if s.vault_transfer_error(attached_deposit, prepaid_gas, sender, receiver, amount)
                is None {
                let held = s.settled_account(sender.hash).cucumber_balance;
                lemma_with_balance(s, sender.hash, (held - amount) as u128);
                if s.has_account(hash) {
                    assert(s.withdrawn(sender.hash, amount).has_account(hash));
                }
            }
        },
        Operation::Draw { caller, vault_id, destination, amount } => {
            if s.vault_withdrawal_error(caller, vault_id, destination, amount) is None {
                lemma_drawn(s, vault_id, destination, amount);
                let v = s.vault(vault_id).unwrap();
                let t = s.with_vault(
                    vault_id,
                    crate::vault::Vault { balance: (v.balance - amount) as u128, ..v },
                );
                if amount > 0 {
                    let there = t.settled_account(destination).cucumber_balance;
                    lemma_with_balance(t, destination, (there + amount) as u128);
                }
                if s.has_account(hash) {
                    assert(t.has_account(hash));
                    assert(t.deposited(destination, amount).has_account(hash));
                }
            }
        },
        Operation::ResolveVault { current_account_id, predecessor_account_id, vault_id, sender } => {
            if s.vault_resolution_error(current_account_id, predecessor_account_id, vault_id, sender)
                is None {
                lemma_vault_resolved(s, vault_id, sender);
                let v = s.vault(vault_id).unwrap();
                let t = s.without_vault(vault_id);
                if v.balance > 0 {
                    let there = t.settled_account(sender).cucumber_balance;
                    lemma_with_balance(t, sender, (there + v.balance) as u128);
                }
                if s.has_account(hash) {
                    assert(t.has_account(hash));
                    assert(t.deposited(sender, v.balance).has_account(hash));
                }
            }
        },
    }
}

/// Moving stake from one record to another takes no record away.
proof fn lemma_moved_keeps_records(
    s: LedgerView,
    from: ShortAccountHash,
    to: ShortAccountHash,
    amount: u128,
    hash: ShortAccountHash,
)
    requires
        s.inv(),
        amount <= s.settled_account(from).cucumber_balance,
        amount > 0,
    ensures
        s.has_account(hash) ==> s.withdrawn(from, amount).credited(to, amount).has_account(hash),
        s.has_account(to) ==> s.withdrawn(from, amount).deposited(to, amount)
            == s.withdrawn(from, amount).credited(to, amount),
{
    let held = s.settled_account(from).cucumber_balance;
    let t = s.withdrawn(from, amount);
    lemma_moved(s, from, to, amount);
    lemma_with_balance(s, from, (held - amount) as u128);
    let there = t.settled_account(to).cucumber_balance;
    lemma_with_balance(t, to, (there + amount) as u128);
}

/// Every sequence of operations keeps the invariant of the ledger.
pub proof fn lemma_run_keeps_invariant(s: LedgerView, ops: Seq<Operation>)
    requires
        s.inv(),
    ensures
        run(s, ops).inv(),
    decreases ops.len(),
{
    if ops.len() > 0 {
        lemma_run_keeps_invariant(s, ops.drop_last());
        lemma_step_keeps_invariant(run(s, ops.drop_last()), ops.last());
    }
}

/// A vault identifier that was given out and is no longer in use stays out
/// of use: no operation brings a resolved vault back.
pub proof fn lemma_resolved_vault_stays_gone(s: LedgerView, op: Operation, id: VaultId)
    requires
        s.inv(),
        id.0 < s.next_vault_id.0,
        !s.has_vault(id),
    ensures
        id.0 < step(s, op).next_vault_id.0,
        !step(s, op).has_vault(id),
{
    lemma_step_is_monotone(s, op, arbitrary());
    lemma_step_keeps_invariant(s, op);
    match op {
        Operation::Escrow { attached_deposit, prepaid_gas, sender, receiver, amount } => {
            if s.vault_transfer_error(attached_deposit, prepaid_gas, sender, receiver, amount)
                is None {
                let held = s.settled_account(sender.hash).cucumber_balance;
                let t = s.withdrawn(sender.hash, amount);
                lemma_with_balance(s, sender.hash, (held - amount) as u128);
                let v = crate::vault::Vault { receiver_id_hash: receiver.hash, balance: amount };
                lemma_push_vault(t, v);
                let u = s.escrowed_for(sender.hash, receiver.hash, amount);
                assert(u.vault(id) == t.vault(id));
            }
        },
        Operation::Draw { caller, vault_id, destination, amount } => {
            if s.vault_withdrawal_error(caller, vault_id, destination, amount) is None {
                let v = s.vault(vault_id).unwrap();
                let w = crate::vault::Vault { balance: (v.balance - amount) as u128, ..v };
                lemma_with_vault(s, vault_id, w);
                let t = s.with_vault(vault_id, w);
                assert(t.vault(id) == s.vault(id));
                lemma_drawn(s, vault_id, destination, amount);
                if amount > 0 {
                    let there = t.settled_account(destination).cucumber_balance;
                    lemma_with_balance(t, destination, (there + amount) as u128);
                }
            }
        },
        Operation::ResolveVault { current_account_id, predecessor_account_id, vault_id, sender } => {
            if s.vault_resolution_error(current_account_id, predecessor_account_id, vault_id, sender)
                is None {
                let v = s.vault(vault_id).unwrap();
                lemma_without_vault(s, vault_id);
                let t = s.without_vault(vault_id);
                assert(t.vault(id) == s.vault(id));
                lemma_vault_resolved(s, vault_id, sender);
                if v.balance > 0 {
                    let there = t.settled_account(sender).cucumber_balance;
                    lemma_with_balance(t, sender, (there + v.balance) as u128);
                }
            }
        },
        _ => {},
    }
}

/// The same of every sequence of operations: a vault is resolved at most
/// once, and nothing is drawn from it afterwards.
pub proof fn lemma_resolved_vault_never_returns(s: LedgerView, ops: Seq<Operation>, id: VaultId)
    requires
        s.inv(),
        id.0 < s.next_vault_id.0,
        !s.has_vault(id),
    ensures
        !run(s, ops).has_vault(id),
        id.0 < run(s, ops).next_vault_id.0,
    decreases ops.len(),
{
    if ops.len() > 0 {
        lemma_resolved_vault_never_returns(s, ops.drop_last(), id);
        lemma_run_keeps_invariant(s, ops.drop_last());
        lemma_resolved_vault_stays_gone(run(s, ops.drop_last()), ops.last(), id);
    }
}

/// After any sequence of operations, whatever they are, the stakes of the
/// records add up to the stake in circulation: what waits in a vault is in
/// neither.
pub proof fn lemma_supply_is_sum_of_stakes(s: LedgerView, ops: Seq<Operation>)
    requires
        s.inv(),
    ensures
        run(s, ops).staked() == run(s, ops).total_cucumber_balance,
{
    lemma_run_keeps_invariant(s, ops);
}

/// The same of a ledger that starts empty.
pub proof fn lemma_supply_from_empty(banana_token_account_id: Seq<char>, ops: Seq<Operation>)
    ensures
        run(LedgerView::empty(banana_token_account_id), ops).staked() == run(
            LedgerView::empty(banana_token_account_id),
            ops,
        ).total_cucumber_balance,
{
    lemma_empty_inv(banana_token_account_id);
    lemma_supply_is_sum_of_stakes(LedgerView::empty(banana_token_account_id), ops);
}

/// Stake that goes into a vault, is drawn from one or comes back from one
/// is neither made nor lost: the stake in circulation and what the vaults
/// hold add up to what they added up to before.
pub proof fn lemma_vaults_conserve_stake(s: LedgerView, op: Operation)
    requires
        s.inv(),
        op is Escrow || op is Draw || op is ResolveVault,
    ensures
        step(s, op).total_cucumber_balance + step(s, op).escrowed() == s.total_cucumber_balance
            + s.escrowed(),
{
    match op {
        Operation::Escrow { attached_deposit, prepaid_gas, sender, receiver, amount } => {
            if s.vault_transfer_error(attached_deposit, prepaid_gas, sender, receiver, amount)
                is None {
                let held = s.settled_account(sender.hash).cucumber_balance;
                let t = s.withdrawn(sender.hash, amount);
                lemma_escrowed_for(s, sender.hash, receiver.hash, amount);
                lemma_with_balance(s, sender.hash, (held - amount) as u128);
                lemma_push_vault(
                    t,
                    crate::vault::Vault { receiver_id_hash: receiver.hash, balance: amount },
                );
            }
        },
        Operation::Draw { caller, vault_id, destination, amount } => {
            if s.vault_withdrawal_error(caller, vault_id, destination, amount) is None {
                let v = s.vault(vault_id).unwrap();
                let w = crate::vault::Vault { balance: (v.balance - amount) as u128, ..v };
                let t = s.with_vault(vault_id, w);
                lemma_drawn(s, vault_id, destination, amount);
                lemma_with_vault(s, vault_id, w);
                if amount > 0 {
                    let there = t.settled_account(destination).cucumber_balance;
                    lemma_with_balance(t, destination, (there + amount) as u128);
                }
            }
        },
        Operation::ResolveVault { current_account_id, predecessor_account_id, vault_id, sender } => {
            if s.vault_resolution_error(current_account_id, predecessor_account_id, vault_id, sender)
                is None {
                let v = s.vault(vault_id).unwrap();
                let t = s.without_vault(vault_id);
                lemma_vault_resolved(s, vault_id, sender);
                lemma_without_vault(s, vault_id);
                if v.balance > 0 {
                    let there = t.settled_account(sender).cucumber_balance;
                    lemma_with_balance(t, sender, (there + v.balance) as u128);
                }
            }
        },
        _ => {},
    }
}

/// Stake that moves between two records arrives in full: the one holds
/// that much less, the other that much more, every other record holds what
/// it held, and the stake in circulation is what it was.
pub proof fn lemma_transfer_moves_stake(
    s: LedgerView,
    from: ShortAccountHash,
    to: ShortAccountHash,
    amount: u128,
    other: ShortAccountHash,
)
    requires
        s.inv(),
        s.has_account(to),
        from != to,
        other != from,
        other != to,
        0 < amount <= s.settled_account(from).cucumber_balance,
    ensures
        ({
            let t = s.transferred(from, to, amount);
            &&& t.settled_account(from).cucumber_balance == s.settled_account(
                from,
            ).cucumber_balance - amount
            &&& t.settled_account(to).cucumber_balance == s.settled_account(to).cucumber_balance
                + amount
            &&& t.account(other) == s.account(other)
            &&& t.total_cucumber_balance == s.total_cucumber_balance
        }),
{
    let held = s.settled_account(from).cucumber_balance;
    let u = s.withdrawn(from, amount);
    lemma_moved(s, from, to, amount);
    lemma_with_balance(s, from, (held - amount) as u128);
    let there = u.settled_account(to).cucumber_balance;
    lemma_with_balance(u, to, (there + amount) as u128);
    assert(u.account(to) == s.account(to));
    assert(u.account(other) == s.account(other));
}

/// What a resolution takes back is no more than was declared unused and no
/// more than the receiver holds, and it goes from the receiver to the
/// sender in full. Where the two are one record, that record holds what it
/// held. The stake in circulation is what it was.
pub proof fn lemma_refund_moves_stake(
    s: LedgerView,
    sender: ShortAccountHash,
    receiver: ShortAccountHash,
    unused: u128,
)
    requires
        s.inv(),
    ensures
        ({
            let refund = s.refund_amount(receiver, unused);
            let t = s.refunded(sender, receiver, unused);
            &&& refund <= unused
            &&& refund <= s.settled_account(receiver).cucumber_balance
            &&& t.total_cucumber_balance == s.total_cucumber_balance
            &&& sender != receiver ==> t.settled_account(receiver).cucumber_balance
                == s.settled_account(receiver).cucumber_balance - refund
            &&& sender != receiver ==> t.settled_account(sender).cucumber_balance
                == s.settled_account(sender).cucumber_balance + refund
            &&& sender == receiver ==> t.settled_account(sender).cucumber_balance
                == s.settled_account(sender).cucumber_balance
        }),
{
    let refund = s.refund_amount(receiver, unused);
    if refund > 0 {
        let held = s.settled_account(receiver).cucumber_balance;
        let u = s.withdrawn(receiver, refund);
        lemma_moved(s, receiver, sender, refund);
        lemma_with_balance(s, receiver, (held - refund) as u128);
        let there = u.settled_account(sender).cucumber_balance;
        lemma_with_balance(u, sender, (there + refund) as u128);
        if sender != receiver {
            assert(u.account(sender) == s.account(sender));
        }
    }
}

/// A resolution that another than the ledger itself invokes is turned down
/// and changes nothing, that of a transfer as that of a vault.
pub proof fn lemma_foreign_resolution_rejected(
    s: LedgerView,
    current_account_id: Seq<char>,
    predecessor_account_id: Seq<char>,
    sender: ShortAccountHash,
    receiver: ShortAccountHash,
    unused: u128,
    vault_id: VaultId,
)
    requires
        current_account_id != predecessor_account_id,
    ensures
        resolution_error(current_account_id, predecessor_account_id) == Some(FarmError::NotSelf),
        s.vault_resolution_error(current_account_id, predecessor_account_id, vault_id, sender)
            == Some(FarmError::NotSelf),
        step(
            s,
            Operation::Resolve {
                current_account_id,
                predecessor_account_id,
                sender,
                receiver,
                unused,
            },
        ) == s,
        step(
            s,
            Operation::ResolveVault { current_account_id, predecessor_account_id, vault_id, sender },
        ) == s,
{
}

/// Settling a record twice at one rate gives the reward balance that
/// settling it once gives: the second settlement earns nothing.
pub proof fn lemma_touch_idempotent(account: Account, rate: u128)
    requires
        account.can_settle(rate),
    ensures
        account.settled(rate).can_settle(rate),
        account.settled(rate).settled(rate).near_balance == account.settled(rate).near_balance,
        account.settled(rate).settled(rate) == account.settled(rate),
{
    lemma_settle_idempotent(account, rate);
}

/// Reward offered while nothing is staked is turned down and changes
/// nothing.
pub proof fn lemma_no_reward_without_stake(s: LedgerView, amount: u128)
    requires
        s.total_cucumber_balance == 0,
    ensures
        s.injection_error(amount) == Some(FarmError::NoStake),
        step(s, Operation::Inject { amount }) == s,
{
}

/// A transfer of nothing is turned down whatever the balances are, by the
/// plain transfer as by the transfer into a vault.
pub proof fn lemma_zero_transfer_rejected(
    s: LedgerView,
    sender: Identity,
    receiver: Identity,
    attached_deposit: u128,
    prepaid_gas: u64,
)
    ensures
        s.withdrawal_error(sender, receiver, 0) is Some,
        s.transfer_error(sender, receiver, 0) is Some,
        s.vault_transfer_error(attached_deposit, prepaid_gas, sender, receiver, 0) is Some,
        step(s, Operation::Transfer { sender, receiver, amount: 0 }) == s,
{
}

/// A transfer of an identity to itself is turned down, by the plain
/// transfer as by the transfer into a vault.
pub proof fn lemma_self_transfer_rejected(
    s: LedgerView,
    sender: Identity,
    receiver: Identity,
    amount: u128,
    attached_deposit: u128,
    prepaid_gas: u64,
)
    requires
        sender.account_id@ == receiver.account_id@,
    ensures
        s.withdrawal_error(sender, receiver, amount) is Some,
        s.transfer_error(sender, receiver, amount) is Some,
        s.vault_transfer_error(attached_deposit, prepaid_gas, sender, receiver, amount) is Some,
        step(s, Operation::Transfer { sender, receiver, amount }) == s,
{
}

/// An identity that registers and then claims, with no reward injected in
/// between, can claim nothing.
pub proof fn lemma_fresh_account_claims_nothing(s: LedgerView, hash: ShortAccountHash)
    requires
        s.inv(),
        !s.has_account(hash),
    ensures
        s.registered(hash).claimable(hash) == 0,
{
    let rate = s.near_per_cucumber_numer;
    lemma_registered(s, hash);
    lemma_can_settle(s, hash);
    lemma_owed_when_settled(Account::opened_at(rate), rate);
    lemma_with_balance(s, hash, s.settled_account(hash).cucumber_balance);
}

/// A record that was settled and left alone, with no reward injected in
/// between, can claim what it could claim before: a second look earns
/// nothing.
pub proof fn lemma_registered_claimable_stable(s: LedgerView, hash: ShortAccountHash)
    requires
        s.inv(),
    ensures
        s.registered(hash).claimable(hash) == s.claimable(hash),
{
    let rate = s.near_per_cucumber_numer;
    lemma_registered(s, hash);
    lemma_can_settle(s, hash);
    lemma_with_balance(s, hash, s.settled_account(hash).cucumber_balance);
    lemma_owed_when_settled(s.settled_account(hash), rate);
}

} // verus!
