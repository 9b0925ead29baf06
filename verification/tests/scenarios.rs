use berry_farm::error::FarmError;
use berry_farm::farm::Farm;
use berry_farm::identity::Identity;
use berry_farm::receiver::OnReceiverPayload;
use berry_farm::transfer::{PromiseOutcome, TransferCall};
use berry_farm::vault::{Vault, VaultId};
use berry_farm::vaults::VaultTransfer;

const UNIT: u128 = 1_000_000_000_000_000_000;
const TGAS: u64 = 1_000_000_000_000;

fn party(name: &str, tag: u8) -> Identity {
    Identity::new(name.to_string(), &[tag; 32])
}

fn farm_with(stakes: &[(&Identity, u128)]) -> Farm {
    let mut farm = Farm::new("banana.token".to_string());
    for (who, amount) in stakes {
        let unused = farm.ft_on_transfer(
            &"banana.token".to_string(),
            &who.hash,
            *amount,
            Some(OnReceiverPayload::DepositAndStake),
        );
        assert_eq!(unused, Ok(0));
    }
    farm
}

#[test]
fn single_staker_earns_the_whole_reward() {
    let x = party("x.near", 1);
    let mut farm = farm_with(&[(&x, UNIT)]);
    assert_eq!(farm.take_my_near(500), Ok(()));
    assert_eq!(farm.get_near_balance(&x.hash), 500);
    assert_eq!(farm.near_per_cucumber_numer(), 500);
    assert_eq!(farm.get_total_near_received(), 500);
    let (amount, payout) = farm.claim_near(&x);
    assert_eq!(amount, 500);
    let payout = payout.unwrap();
    assert_eq!(payout.amount, 500);
    assert_eq!(payout.receiver_id, "x.near");
    assert_eq!(farm.get_total_near_claimed(), 500);
    assert_eq!(farm.get_near_balance(&x.hash), 0);
}

#[test]
fn refund_is_bounded_by_what_the_receiver_still_holds() {
    let sender = party("sender.near", 1);
    let receiver = party("receiver.near", 2);
    let third = party("third.near", 3);
    let mut farm = farm_with(&[(&sender, 500)]);
    farm.register_account(&receiver.hash);
    farm.register_account(&third.hash);
    let call = farm.ft_transfer_call(1, 100 * TGAS, &sender, &receiver, 500);
    assert_eq!(
        call,
        Ok(TransferCall {
            sender_id: "sender.near".to_string(),
            receiver_id: "receiver.near".to_string(),
            amount: 500,
            gas_for_receiver: 70 * TGAS,
            gas_for_resolve: 5 * TGAS,
        })
    );
    assert_eq!(farm.ft_balance_of(&sender.hash), 0);
    assert_eq!(farm.ft_balance_of(&receiver.hash), 500);
    // The receiver passes 480 on before the resolution runs.
    assert_eq!(farm.ft_transfer(1, &receiver, &third, 480), Ok(()));
    assert_eq!(farm.ft_balance_of(&receiver.hash), 20);
    let ledger = String::from("farm.near");
    let used = farm.ft_resolve_transfer(
        &ledger,
        &ledger,
        &sender.hash,
        &receiver.hash,
        500,
        &PromiseOutcome::Successful(b"\"50\"".to_vec()),
    );
    assert_eq!(used, Ok(480));
    assert_eq!(farm.ft_balance_of(&sender.hash), 20);
    assert_eq!(farm.ft_balance_of(&receiver.hash), 0);
    assert_eq!(farm.ft_balance_of(&third.hash), 480);
    assert_eq!(farm.ft_total_supply(), 500);
}

#[test]
fn vault_is_drawn_down_and_the_rest_returns_to_the_sender() {
    let sender = party("sender.near", 1);
    let receiver = party("receiver.near", 2);
    let mut farm = farm_with(&[(&sender, 500)]);
    farm.register_account(&receiver.hash);
    let transfer = farm.transfer_with_vault(1, 100 * TGAS, &sender, &receiver, 500);
    assert_eq!(
        transfer,
        Ok(VaultTransfer {
            sender_id: "sender.near".to_string(),
            receiver_id: "receiver.near".to_string(),
            vault_id: VaultId(0),
            amount: 500,
            gas_for_receiver: 70 * TGAS,
            gas_for_callback: 5 * TGAS,
        })
    );
    let vault_id = transfer.unwrap().vault_id;
    assert_eq!(farm.ft_balance_of(&sender.hash), 0);
    assert_eq!(farm.ft_total_supply(), 0);
    assert_eq!(farm.get_vault(vault_id).map(|v: Vault| v.balance), Some(500));
    assert_eq!(farm.withdraw_from_vault(&receiver.hash, vault_id, &receiver.hash, 200), Ok(()));
    assert_eq!(farm.ft_total_supply(), 200);
    assert_eq!(farm.withdraw_from_vault(&receiver.hash, vault_id, &receiver.hash, 100), Ok(()));
    assert_eq!(farm.ft_balance_of(&receiver.hash), 300);
    assert_eq!(farm.ft_total_supply(), 300);
    assert_eq!(farm.get_vault(vault_id).map(|v: Vault| v.balance), Some(200));
    let me = "farm.near".to_string();
    assert_eq!(farm.resolve_vault(&me, &me, vault_id, &sender.hash), Ok(200));
    assert_eq!(farm.ft_balance_of(&sender.hash), 200);
    assert!(farm.get_vault(vault_id).is_none());
    assert_eq!(farm.vault_count(), 0);
    assert_eq!(
        farm.withdraw_from_vault(&receiver.hash, vault_id, &receiver.hash, 1),
        Err(FarmError::VaultMissing)
    );
    assert_eq!(farm.resolve_vault(&me, &me, vault_id, &sender.hash), Err(FarmError::VaultMissing));
    assert_eq!(farm.ft_total_supply(), 500);
    assert_eq!(farm.next_vault_id(), VaultId(1));
}

#[test]
fn deposit_needs_a_registered_receiver_and_zero_is_a_no_op() {
    let sender = party("sender.near", 1);
    let receiver = party("receiver.near", 2);
    let stranger = party("stranger.near", 3);
    let mut farm = farm_with(&[(&sender, 500)]);
    assert_eq!(farm.ft_transfer(1, &sender, &stranger, 10), Err(FarmError::ReceiverMissing));
    assert_eq!(farm.ft_balance_of(&sender.hash), 500);
    assert!(!farm.account_exists(&stranger.hash));
    let vault_id = farm.transfer_with_vault(1, 100 * TGAS, &sender, &receiver, 100).unwrap().vault_id;
    assert_eq!(
        farm.withdraw_from_vault(&receiver.hash, vault_id, &stranger.hash, 10),
        Err(FarmError::ReceiverMissing)
    );
    assert_eq!(farm.get_vault(vault_id).map(|v: Vault| v.balance), Some(100));
    // Nothing is deposited, so nobody needs to be there to get it.
    assert_eq!(farm.withdraw_from_vault(&receiver.hash, vault_id, &stranger.hash, 0), Ok(()));
    assert!(!farm.account_exists(&stranger.hash));
    assert_eq!(farm.get_vault(vault_id).map(|v: Vault| v.balance), Some(100));
    assert_eq!(farm.account_count(), 1);
}

#[test]
fn registering_and_claiming_at_once_pays_nothing() {
    let staker = party("staker.near", 1);
    let late = party("late.near", 2);
    let mut farm = farm_with(&[(&staker, UNIT)]);
    assert_eq!(farm.take_my_near(1_000), Ok(()));
    farm.register_account(&late.hash);
    let (amount, payout) = farm.claim_near(&late);
    assert_eq!(amount, 0);
    assert!(payout.is_none());
    assert_eq!(farm.get_total_near_claimed(), 0);
    assert_eq!(farm.get_account(&late.hash).unwrap().near_claimed, 0);
}

#[test]
fn claim_without_a_record_opens_it_and_pays_nothing() {
    let nobody = party("nobody.near", 9);
    let mut farm = Farm::new("banana.token".to_string());
    let (amount, payout) = farm.claim_near(&nobody);
    assert_eq!(amount, 0);
    assert!(payout.is_none());
    assert!(farm.account_exists(&nobody.hash));
}

#[test]
fn stakes_add_up_to_the_supply_after_a_run_of_operations() {
    let a = party("a.near", 1);
    let b = party("b.near", 2);
    let c = party("c.near", 3);
    let mut farm = farm_with(&[(&a, 7 * UNIT), (&b, 5 * UNIT)]);
    farm.register_account(&c.hash);
    assert_eq!(farm.take_my_near(1_000_000), Ok(()));
    assert_eq!(farm.ft_transfer(1, &a, &c, 3 * UNIT), Ok(()));
    assert_eq!(farm.transfer_raw(5, &b, &a, UNIT), Ok(()));
    let _ = farm.claim_near(&a);
    assert_eq!(farm.take_my_near(77), Ok(()));
    let _ = farm.claim_near(&c);
    let sum = farm.ft_balance_of(&a.hash) + farm.ft_balance_of(&b.hash) + farm.ft_balance_of(&c.hash);
    assert_eq!(sum, 12 * UNIT);
    assert_eq!(farm.ft_total_supply(), 12 * UNIT);
    assert_eq!(farm.get_total_supply(), 12 * UNIT);
    assert_eq!(farm.get_balance(&a.hash), 5 * UNIT);
    assert_eq!(farm.get_balance(&b.hash), 4 * UNIT);
    assert_eq!(farm.get_balance(&c.hash), 3 * UNIT);
}

#[test]
fn records_add_up_to_the_supply_while_a_vault_holds_stake() {
    let a = party("a.near", 1);
    let b = party("b.near", 2);
    let mut farm = farm_with(&[(&a, 100), (&b, 50)]);
    assert_eq!(farm.ft_total_supply(), 150);
    let v = farm.transfer_with_vault(1, 40 * TGAS, &a, &b, 30).unwrap().vault_id;
    // What waits in the vault is out of circulation.
    assert_eq!(farm.ft_balance_of(&a.hash), 70);
    assert_eq!(farm.ft_balance_of(&b.hash), 50);
    assert_eq!(farm.get_vault(v).unwrap().balance, 30);
    assert_eq!(farm.total_in_vaults(), 30);
    assert_eq!(farm.ft_total_supply(), 120);
    // A draw brings back what it draws.
    assert_eq!(farm.withdraw_from_vault(&b.hash, v, &b.hash, 10), Ok(()));
    assert_eq!(farm.ft_balance_of(&b.hash), 60);
    assert_eq!(farm.total_in_vaults(), 20);
    assert_eq!(farm.ft_total_supply(), 130);
    // The resolution brings back the rest.
    let me = "farm.near".to_string();
    assert_eq!(farm.resolve_vault(&me, &me, v, &a.hash), Ok(20));
    assert_eq!(farm.ft_balance_of(&a.hash), 90);
    assert_eq!(farm.total_in_vaults(), 0);
    assert_eq!(farm.ft_total_supply(), 150);
    assert_eq!(
        farm.ft_balance_of(&a.hash) + farm.ft_balance_of(&b.hash),
        farm.ft_total_supply()
    );
}

#[test]
fn reward_goes_to_the_stake_in_circulation_only() {
    let a = party("a.near", 1);
    let b = party("b.near", 2);
    let mut farm = farm_with(&[(&a, 2 * UNIT), (&b, UNIT)]);
    // Half of what `a` holds waits in a vault while the reward comes in.
    let v = farm.transfer_with_vault(1, 40 * TGAS, &a, &b, UNIT).unwrap().vault_id;
    assert_eq!(farm.ft_total_supply(), 2 * UNIT);
    assert_eq!(farm.take_my_near(10), Ok(()));
    assert_eq!(farm.near_per_cucumber_numer(), 5);
    assert_eq!(farm.get_near_balance(&a.hash), 5);
    assert_eq!(farm.get_near_balance(&b.hash), 5);
    let me = "farm.near".to_string();
    assert_eq!(farm.resolve_vault(&me, &me, v, &a.hash), Ok(UNIT));
    assert_eq!(farm.get_near_balance(&a.hash), 5);
    assert_eq!(farm.ft_total_supply(), 3 * UNIT);
}

#[test]
fn no_reward_is_taken_while_all_stake_waits_in_a_vault() {
    let a = party("a.near", 1);
    let b = party("b.near", 2);
    let mut farm = farm_with(&[(&a, 100)]);
    let v = farm.transfer_with_vault(1, 40 * TGAS, &a, &b, 100).unwrap().vault_id;
    assert_eq!(farm.ft_total_supply(), 0);
    assert_eq!(farm.take_my_near(10), Err(FarmError::NoStake));
    assert_eq!(farm.get_total_near_received(), 0);
    let me = "farm.near".to_string();
    assert_eq!(farm.resolve_vault(&me, &me, v, &a.hash), Ok(100));
    assert_eq!(farm.ft_total_supply(), 100);
    assert_eq!(farm.take_my_near(10), Ok(()));
}

#[test]
fn deposit_leaves_room_for_what_the_vaults_hold() {
    let a = party("a.near", 1);
    let b = party("b.near", 2);
    let token = "banana.token".to_string();
    let mut farm = farm_with(&[(&a, u128::MAX - 10)]);
    let v = farm.transfer_with_vault(1, 40 * TGAS, &a, &b, 5).unwrap().vault_id;
    assert_eq!(farm.ft_total_supply(), u128::MAX - 15);
    let stake = Some(OnReceiverPayload::DepositAndStake);
    assert_eq!(farm.ft_on_transfer(&token, &b.hash, 11, stake), Err(FarmError::Overflow));
    assert_eq!(farm.ft_total_supply(), u128::MAX - 15);
    assert!(!farm.account_exists(&b.hash));
    assert_eq!(farm.ft_on_transfer(&token, &b.hash, 10, stake), Ok(0));
    assert_eq!(farm.ft_total_supply(), u128::MAX - 5);
    let me = "farm.near".to_string();
    assert_eq!(farm.resolve_vault(&me, &me, v, &a.hash), Ok(5));
    assert_eq!(farm.ft_total_supply(), u128::MAX);
}

#[test]
fn reward_is_shared_in_proportion_and_rounded_down() {
    let a = party("a.near", 1);
    let b = party("b.near", 2);
    let mut farm = farm_with(&[(&a, UNIT), (&b, 2 * UNIT)]);
    // 10 * 10^18 / (3 * 10^18) = 3, rounded down
    assert_eq!(farm.take_my_near(10), Ok(()));
    assert_eq!(farm.near_per_cucumber_numer(), 3);
    assert_eq!(farm.get_near_balance(&a.hash), 3);
    assert_eq!(farm.get_near_balance(&b.hash), 6);
    assert_eq!(farm.get_total_near_received(), 10);
    let stats = farm.get_stats();
    assert_eq!(stats.total_cucumber_balance, 3 * UNIT);
    assert_eq!(stats.total_near_received, 10);
    assert_eq!(stats.total_near_claimed, 0);
}

#[test]
fn reward_arithmetic_goes_beyond_128_bits() {
    let a = party("a.near", 1);
    let stake = 1u128 << 100;
    let mut farm = farm_with(&[(&a, stake)]);
    // The product of the reward and the denominator needs more than 128 bits.
    let reward = 1u128 << 90;
    assert_eq!(farm.take_my_near(reward), Ok(()));
    let step = (reward / (1 << 40)) * UNIT / (stake / (1 << 40));
    assert_eq!(farm.near_per_cucumber_numer(), step);
    let earned = farm.get_near_balance(&a.hash);
    assert!(earned <= reward);
    assert_eq!(earned, 1237940039285380274899124224);
}

#[test]
fn settlement_is_idempotent() {
    let a = party("a.near", 1);
    let mut farm = farm_with(&[(&a, UNIT)]);
    assert_eq!(farm.take_my_near(500), Ok(()));
    let mut account = farm.get_internal_account(&a.hash).unwrap();
    assert_eq!(account.near_balance, 0);
    farm.touch(&mut account);
    assert_eq!(account.near_balance, 500);
    assert_eq!(account.last_near_per_cucumber_numer, 500);
    let once = account;
    farm.touch(&mut account);
    assert_eq!(account, once);
    assert_eq!(farm.get_mut_account(&a.hash), once);
    // Looking does not settle the record in the ledger.
    assert_eq!(farm.get_internal_account(&a.hash).unwrap().near_balance, 0);
    farm.register_account(&a.hash);
    assert_eq!(farm.get_internal_account(&a.hash).unwrap(), once);
    farm.register_account(&a.hash);
    assert_eq!(farm.get_internal_account(&a.hash).unwrap(), once);
}

#[test]
fn late_staker_earns_nothing_of_earlier_reward() {
    let early = party("early.near", 1);
    let late = party("late.near", 2);
    let mut farm = farm_with(&[(&early, UNIT)]);
    assert_eq!(farm.take_my_near(100), Ok(()));
    let unused = farm.ft_on_transfer(
        &"banana.token".to_string(),
        &late.hash,
        UNIT,
        Some(OnReceiverPayload::DepositAndStake),
    );
    assert_eq!(unused, Ok(0));
    assert_eq!(farm.get_near_balance(&late.hash), 0);
    assert_eq!(farm.take_my_near(100), Ok(()));
    assert_eq!(farm.get_near_balance(&early.hash), 150);
    assert_eq!(farm.get_near_balance(&late.hash), 50);
}
