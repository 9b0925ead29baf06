use berry_farm::farm::Farm;
use berry_farm::identity::{Identity, ShortAccountHash};
use berry_farm::receiver::OnReceiverPayload;
use berry_farm::storage::{StorageBalance, StorageBalanceBounds, StorageDeposit};
use berry_farm::error::FarmError;
use berry_farm::transfer::PromiseOutcome;

const TGAS: u64 = 1_000_000_000_000;

fn who(name: &str, tag: u8) -> Identity {
    Identity::new(name.to_string(), &[tag; 32])
}

/// A ledger in which `sender` has just pushed 500 to `receiver`.
fn after_push(sender: &Identity, receiver: &Identity) -> Farm {
    let token = "banana.token".to_string();
    let mut farm = Farm::new(token.clone());
    let r = farm.ft_on_transfer(&token, &sender.hash, 500, Some(OnReceiverPayload::DepositAndStake));
    assert_eq!(r, Ok(0));
    farm.register_account(&receiver.hash);
    assert!(farm.ft_transfer_call(1, 100 * TGAS, sender, receiver, 500).is_ok());
    farm
}

/// The identifier of the ledger itself.
fn me() -> String {
    "farm.near".to_string()
}

fn returned(text: &str) -> PromiseOutcome {
    PromiseOutcome::Successful(text.as_bytes().to_vec())
}

#[test]
fn declared_unused_amount_is_refunded() {
    let s = who("s.near", 1);
    let r = who("r.near", 2);
    let mut farm = after_push(&s, &r);
    assert_eq!(
        farm.ft_resolve_transfer(&me(), &me(), &s.hash, &r.hash, 500, &returned("\"50\"")),
        Ok(450)
    );
    assert_eq!(farm.ft_balance_of(&s.hash), 50);
    assert_eq!(farm.ft_balance_of(&r.hash), 450);
}

#[test]
fn nothing_unused_means_nothing_refunded() {
    let s = who("s.near", 1);
    let r = who("r.near", 2);
    let mut farm = after_push(&s, &r);
    assert_eq!(
        farm.ft_resolve_transfer(&me(), &me(), &s.hash, &r.hash, 500, &returned("\"0\"")),
        Ok(500)
    );
    assert_eq!(farm.ft_balance_of(&s.hash), 0);
    assert_eq!(farm.ft_balance_of(&r.hash), 500);
}

#[test]
fn declared_amount_is_capped_by_the_transfer() {
    let s = who("s.near", 1);
    let r = who("r.near", 2);
    let mut farm = after_push(&s, &r);
    assert_eq!(
        farm.ft_resolve_transfer(&me(), &me(), &s.hash, &r.hash, 500, &returned("\"9000\"")),
        Ok(0)
    );
    assert_eq!(farm.ft_balance_of(&s.hash), 500);
    assert_eq!(farm.ft_balance_of(&r.hash), 0);
}

#[test]
fn failed_call_counts_as_all_unused() {
    let s = who("s.near", 1);
    let r = who("r.near", 2);
    let mut farm = after_push(&s, &r);
    assert_eq!(
        farm.ft_resolve_transfer(&me(), &me(), &s.hash, &r.hash, 500, &PromiseOutcome::Failed),
        Ok(0)
    );
    assert_eq!(farm.ft_balance_of(&s.hash), 500);
    assert_eq!(farm.ft_balance_of(&r.hash), 0);
}

#[test]
fn unreadable_return_counts_as_all_unused() {
    let s = who("s.near", 1);
    let r = who("r.near", 2);
    for text in ["", "50", "\"fifty\"", "\"-1\"", "{\"unused\":\"50\"}", "\"50\" x", "null"] {
        let mut farm = after_push(&s, &r);
        assert_eq!(
        farm.ft_resolve_transfer(&me(), &me(), &s.hash, &r.hash, 500, &returned(text)),
        Ok(0)
    );
        assert_eq!(farm.ft_balance_of(&s.hash), 500);
    }
    let mut farm = after_push(&s, &r);
    let too_large = "\"340282366920938463463374607431768211456\"";
    assert_eq!(
        farm.ft_resolve_transfer(&me(), &me(), &s.hash, &r.hash, 500, &returned(too_large)),
        Ok(0)
    );
}

#[test]
fn readable_return_may_carry_white_space() {
    let s = who("s.near", 1);
    let r = who("r.near", 2);
    let mut farm = after_push(&s, &r);
    assert_eq!(
        farm.ft_resolve_transfer(&me(), &me(), &s.hash, &r.hash, 500, &returned(" \"120\"\n")),
        Ok(380)
    );
    assert_eq!(farm.ft_balance_of(&s.hash), 120);
}

#[test]
fn resolution_by_another_than_the_ledger_is_turned_down() {
    let s = who("s.near", 1);
    let r = who("r.near", 2);
    let mut farm = after_push(&s, &r);
    let sender_before = farm.get_internal_account(&s.hash);
    let receiver_before = farm.get_internal_account(&r.hash);
    let stranger = "r.near".to_string();
    assert_eq!(
        farm.ft_resolve_transfer(&me(), &stranger, &s.hash, &r.hash, 500, &returned("\"50\"")),
        Err(FarmError::NotSelf)
    );
    assert_eq!(
        farm.ft_resolve_transfer(&me(), &stranger, &s.hash, &r.hash, 500, &PromiseOutcome::Failed),
        Err(FarmError::NotSelf)
    );
    assert_eq!(
        farm.resolve_transfer(&me(), &stranger, &s.hash, &r.hash, 500, Some(50)),
        Err(FarmError::NotSelf)
    );
    assert_eq!(farm.ft_balance_of(&s.hash), 0);
    assert_eq!(farm.ft_balance_of(&r.hash), 500);
    assert_eq!(farm.get_internal_account(&s.hash), sender_before);
    assert_eq!(farm.get_internal_account(&r.hash), receiver_before);
    assert_eq!(farm.ft_total_supply(), 500);
    // The ledger itself still can.
    assert_eq!(
        farm.ft_resolve_transfer(&me(), &me(), &s.hash, &r.hash, 500, &returned("\"50\"")),
        Ok(450)
    );
}

#[test]
fn resolution_by_a_given_declaration() {
    let s = who("s.near", 1);
    let r = who("r.near", 2);
    let mut farm = after_push(&s, &r);
    assert_eq!(
        farm.resolve_transfer(&me(), &me(), &s.hash, &r.hash, 500, Some(0)),
        Ok(500)
    );
    assert_eq!(
        farm.resolve_transfer(&me(), &me(), &s.hash, &r.hash, 500, Some(100)),
        Ok(400)
    );
    assert_eq!(farm.ft_balance_of(&s.hash), 100);
    assert_eq!(
        farm.resolve_transfer(&me(), &me(), &s.hash, &r.hash, 500, Some(1_000)),
        Ok(100)
    );
    assert_eq!(farm.ft_balance_of(&s.hash), 500);
    assert_eq!(farm.ft_balance_of(&r.hash), 0);
    // The receiver holds nothing any more: nothing comes back.
    assert_eq!(
        farm.resolve_transfer(&me(), &me(), &s.hash, &r.hash, 500, None),
        Ok(500)
    );
    assert_eq!(farm.ft_balance_of(&s.hash), 500);
    assert_eq!(farm.ft_total_supply(), 500);
}

#[test]
fn refund_settles_both_records() {
    let s = who("s.near", 1);
    let r = who("r.near", 2);
    let unit = 1_000_000_000_000_000_000u128;
    let token = "banana.token".to_string();
    let mut farm = Farm::new(token.clone());
    let staked = farm.ft_on_transfer(&token, &s.hash, unit, Some(OnReceiverPayload::DepositAndStake));
    assert_eq!(staked, Ok(0));
    farm.register_account(&r.hash);
    assert!(farm.ft_transfer_call(1, 100 * TGAS, &s, &r, unit).is_ok());
    assert_eq!(farm.take_my_near(40), Ok(()));
    assert_eq!(
        farm.resolve_transfer(&me(), &me(), &s.hash, &r.hash, unit, Some(unit / 2)),
        Ok(unit / 2)
    );
    // The receiver held all the stake while the reward came in.
    assert_eq!(farm.get_internal_account(&r.hash).unwrap().near_balance, 40);
    assert_eq!(farm.get_internal_account(&s.hash).unwrap().near_balance, 0);
    assert_eq!(farm.get_internal_account(&s.hash).unwrap().last_near_per_cucumber_numer, 40);
}

#[test]
fn storage_fee_is_per_record() {
    // 125 bytes at 10^19 a byte
    let fee = 1_250_000_000_000_000_000_000u128;
    assert_eq!(Farm::storage_balance_bounds(), StorageBalanceBounds { min: fee, max: Some(fee) });
}

#[test]
fn storage_deposit_opens_a_record_once() {
    let fee = 1_250_000_000_000_000_000_000u128;
    let a = who("a.near", 1);
    let mut farm = Farm::new("banana.token".to_string());
    assert_eq!(farm.storage_balance_of(&a.hash), None);
    assert_eq!(farm.storage_deposit(&a.hash, fee - 1), Err(FarmError::StorageDepositTooLow));
    assert_eq!(farm.storage_deposit(&a.hash, 0), Err(FarmError::StorageDepositTooLow));
    assert!(!farm.account_exists(&a.hash));
    let paid = StorageBalance { total: fee, available: 0 };
    assert_eq!(
        farm.storage_deposit(&a.hash, fee + 750),
        Ok(StorageDeposit { refund: 750, balance: paid })
    );
    assert!(farm.account_exists(&a.hash));
    assert_eq!(farm.storage_balance_of(&a.hash), Some(paid));
    // A second deposit goes back whole, however small it is.
    assert_eq!(farm.storage_deposit(&a.hash, 5), Ok(StorageDeposit { refund: 5, balance: paid }));
    assert_eq!(farm.storage_deposit(&a.hash, 0), Ok(StorageDeposit { refund: 0, balance: paid }));
    assert_eq!(farm.account_count(), 1);
    let b = who("b.near", 2);
    assert_eq!(farm.storage_deposit(&b.hash, fee), Ok(StorageDeposit { refund: 0, balance: paid }));
    assert_eq!(farm.account_count(), 2);
    assert_eq!(farm.ft_balance_of(&b.hash), 0);
}

#[test]
fn record_opened_by_a_storage_deposit_earns_from_then_on() {
    let unit = 1_000_000_000_000_000_000u128;
    let fee = 1_250_000_000_000_000_000_000u128;
    let token = "banana.token".to_string();
    let a = who("a.near", 1);
    let b = who("b.near", 2);
    let mut farm = Farm::new(token.clone());
    assert_eq!(farm.ft_on_transfer(&token, &a.hash, unit, Some(OnReceiverPayload::DepositAndStake)), Ok(0));
    assert_eq!(farm.take_my_near(70), Ok(()));
    assert!(farm.storage_deposit(&b.hash, fee).is_ok());
    assert_eq!(farm.get_internal_account(&b.hash).unwrap().last_near_per_cucumber_numer, 70);
    assert_eq!(farm.get_near_balance(&b.hash), 0);
}

#[test]
fn short_hash_is_the_head_of_the_digest() {
    let mut digest = [0u8; 32];
    for (i, byte) in digest.iter_mut().enumerate() {
        *byte = i as u8 + 1;
    }
    let hash = ShortAccountHash::from_digest(&digest);
    assert_eq!(hash.0.len(), 20);
    assert_eq!(&hash.0[..], &digest[..20]);
    let mut other = digest;
    other[25] = 0;
    assert!(hash == ShortAccountHash::from_digest(&other));
    other[19] = 0;
    assert!(hash != ShortAccountHash::from_digest(&other));
    let id = Identity::new("a.near".to_string(), &digest);
    assert_eq!(id.account_id, "a.near");
    assert!(id.hash == hash);
}

#[test]
fn identities_with_one_hash_share_a_record() {
    // Two names whose digests agree in the first twenty bytes.
    let a = Identity::new("a.near".to_string(), &[7; 32]);
    let mut digest = [7u8; 32];
    digest[31] = 8;
    let b = Identity::new("b.near".to_string(), &digest);
    let token = "banana.token".to_string();
    let mut farm = Farm::new(token.clone());
    assert_eq!(
        farm.ft_on_transfer(&token, &a.hash, 10, Some(OnReceiverPayload::DepositAndStake)),
        Ok(0)
    );
    assert_eq!(farm.transfer(&a, &b, 4), Ok(()));
    assert_eq!(farm.ft_balance_of(&a.hash), 10);
    assert_eq!(farm.account_count(), 1);
    assert_eq!(farm.ft_total_supply(), 10);
}

#[test]
fn refund_between_one_and_the_same_record_changes_nothing() {
    let s = who("s.near", 1);
    let r = who("r.near", 2);
    let mut farm = after_push(&s, &r);
    assert_eq!(farm.resolve_transfer(&me(), &me(), &r.hash, &r.hash, 500, Some(100)), Ok(400));
    assert_eq!(farm.ft_balance_of(&r.hash), 500);
    assert_eq!(farm.ft_balance_of(&s.hash), 0);
    assert_eq!(farm.ft_total_supply(), 500);
}
