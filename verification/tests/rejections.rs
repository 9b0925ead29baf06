use berry_farm::error::{ErrorKind, FarmError};
use berry_farm::farm::Farm;
use berry_farm::identity::Identity;
use berry_farm::receiver::{OnReceiverPayload, VaultDraw};
use berry_farm::vault::VaultId;

const TGAS: u64 = 1_000_000_000_000;

fn who(name: &str, tag: u8) -> Identity {
    Identity::new(name.to_string(), &[tag; 32])
}

fn token() -> String {
    "banana.token".to_string()
}

fn funded(stakes: &[(&Identity, u128)]) -> Farm {
    let mut farm = Farm::new(token());
    for (id, amount) in stakes {
        let r = farm.ft_on_transfer(&token(), &id.hash, *amount, Some(OnReceiverPayload::DepositAndStake));
        assert_eq!(r, Ok(0));
    }
    farm
}

#[test]
fn reward_without_stake_is_rejected() {
    let mut farm = Farm::new(token());
    assert_eq!(farm.take_my_near(500), Err(FarmError::NoStake));
    assert_eq!(farm.get_total_near_received(), 0);
    assert_eq!(farm.near_per_cucumber_numer(), 0);
    // A record without stake does not change that.
    farm.register_account(&who("a.near", 1).hash);
    assert_eq!(farm.take_my_near(500), Err(FarmError::NoStake));
    assert_eq!(farm.get_total_near_received(), 0);
}

#[test]
fn transfer_of_zero_is_rejected() {
    let a = who("a.near", 1);
    let b = who("b.near", 2);
    let mut farm = funded(&[(&a, 10), (&b, 10)]);
    assert_eq!(farm.transfer(&a, &b, 0), Err(FarmError::ZeroAmount));
    assert_eq!(farm.ft_transfer(1, &a, &b, 0), Err(FarmError::ZeroAmount));
    assert_eq!(farm.transfer_raw(1, &a, &b, 0), Err(FarmError::ZeroAmount));
    assert_eq!(farm.ft_transfer_call(1, 100 * TGAS, &a, &b, 0), Err(FarmError::ZeroAmount));
    assert_eq!(farm.transfer_with_vault(1, 100 * TGAS, &a, &b, 0), Err(FarmError::ZeroAmount));
    assert_eq!(farm.check_transfer(&a, &b, 0), Err(FarmError::ZeroAmount));
    assert_eq!(farm.check_withdrawal(&a, &b, 0), Err(FarmError::ZeroAmount));
    // Also where the sender has no record at all.
    let nobody = who("nobody.near", 3);
    assert_eq!(farm.transfer(&nobody, &b, 0), Err(FarmError::ZeroAmount));
    assert_eq!(farm.ft_balance_of(&a.hash), 10);
    assert_eq!(farm.ft_balance_of(&b.hash), 10);
}

#[test]
fn transfer_to_oneself_is_rejected() {
    let a = who("a.near", 1);
    let mut farm = funded(&[(&a, 10)]);
    let same = who("a.near", 1);
    assert_eq!(farm.transfer(&a, &same, 5), Err(FarmError::SelfTransfer));
    assert_eq!(farm.ft_transfer(1, &a, &same, 5), Err(FarmError::SelfTransfer));
    assert_eq!(farm.transfer_raw(1, &a, &same, 5), Err(FarmError::SelfTransfer));
    assert_eq!(farm.ft_transfer_call(1, 100 * TGAS, &a, &same, 5), Err(FarmError::SelfTransfer));
    assert_eq!(farm.transfer_with_vault(1, 100 * TGAS, &a, &same, 5), Err(FarmError::SelfTransfer));
    assert_eq!(farm.ft_balance_of(&a.hash), 10);
    assert_eq!(farm.vault_count(), 0);
}

#[test]
fn transfer_of_more_than_is_held_is_rejected() {
    let a = who("a.near", 1);
    let b = who("b.near", 2);
    let mut farm = funded(&[(&a, 10), (&b, 0)]);
    assert_eq!(farm.transfer(&a, &b, 11), Err(FarmError::InsufficientBalance));
    assert_eq!(farm.transfer(&b, &a, 1), Err(FarmError::InsufficientBalance));
    assert_eq!(farm.transfer(&who("c.near", 3), &a, 1), Err(FarmError::InsufficientBalance));
    assert_eq!(farm.transfer_with_vault(1, 100 * TGAS, &a, &b, 11), Err(FarmError::InsufficientBalance));
    assert_eq!(farm.transfer(&a, &b, 10), Ok(()));
    assert_eq!(farm.ft_balance_of(&a.hash), 0);
    assert_eq!(farm.ft_balance_of(&b.hash), 10);
    assert_eq!(farm.account_count(), 2);
}

#[test]
fn fees_are_asked_for() {
    let a = who("a.near", 1);
    let b = who("b.near", 2);
    let mut farm = funded(&[(&a, 10), (&b, 0)]);
    assert_eq!(Farm::assert_paid(0), Err(FarmError::DepositRequired));
    assert_eq!(Farm::assert_paid(1), Ok(()));
    assert_eq!(Farm::assert_paid(7), Ok(()));
    assert_eq!(Farm::assert_one_yocto(0), Err(FarmError::OneYoctoRequired));
    assert_eq!(Farm::assert_one_yocto(2), Err(FarmError::OneYoctoRequired));
    assert_eq!(Farm::assert_one_yocto(1), Ok(()));
    assert_eq!(farm.ft_transfer(0, &a, &b, 1), Err(FarmError::OneYoctoRequired));
    assert_eq!(farm.ft_transfer(2, &a, &b, 1), Err(FarmError::OneYoctoRequired));
    assert_eq!(farm.ft_transfer_call(0, 100 * TGAS, &a, &b, 1), Err(FarmError::OneYoctoRequired));
    assert_eq!(farm.transfer_raw(0, &a, &b, 1), Err(FarmError::DepositRequired));
    assert_eq!(farm.transfer_with_vault(0, 100 * TGAS, &a, &b, 1), Err(FarmError::DepositRequired));
    assert_eq!(farm.transfer_raw(2, &a, &b, 1), Ok(()));
    assert_eq!(farm.ft_balance_of(&a.hash), 9);
}

#[test]
fn gas_must_cover_the_notification() {
    let a = who("a.near", 1);
    let b = who("b.near", 2);
    let mut farm = funded(&[(&a, 10), (&b, 0)]);
    assert_eq!(farm.ft_transfer_call(1, 30 * TGAS - 1, &a, &b, 1), Err(FarmError::NotEnoughGas));
    assert_eq!(farm.ft_balance_of(&a.hash), 10);
    // The transfer's own errors come before the gas.
    assert_eq!(farm.ft_transfer_call(1, 0, &a, &b, 0), Err(FarmError::ZeroAmount));
    assert_eq!(farm.ft_transfer_call(1, 0, &a, &b, 11), Err(FarmError::InsufficientBalance));
    let call = farm.ft_transfer_call(1, 30 * TGAS, &a, &b, 1).unwrap();
    assert_eq!(call.gas_for_receiver, 0);
    assert_eq!(call.gas_for_resolve, 5 * TGAS);
    // A vault transfer keeps 30 TGas and hands at least 10 TGas on.
    assert_eq!(farm.transfer_with_vault(1, 40 * TGAS - 1, &a, &b, 1), Err(FarmError::NotEnoughGas));
    assert_eq!(farm.transfer_with_vault(1, 0, &a, &b, 0), Err(FarmError::NotEnoughGas));
    let transfer = farm.transfer_with_vault(1, 40 * TGAS, &a, &b, 1).unwrap();
    assert_eq!(transfer.gas_for_receiver, 10 * TGAS);
    assert_eq!(transfer.gas_for_callback, 5 * TGAS);
}

#[test]
fn deposits_come_from_the_token_contract_with_a_readable_message() {
    let a = who("a.near", 1);
    let mut farm = Farm::new(token());
    let payload = Some(OnReceiverPayload::DepositAndStake);
    assert_eq!(
        farm.ft_on_transfer(&"other.token".to_string(), &a.hash, 5, payload),
        Err(FarmError::NotBananaToken)
    );
    assert_eq!(farm.ft_on_transfer(&token(), &a.hash, 5, None), Err(FarmError::MalformedPayload));
    assert_eq!(
        farm.ft_on_transfer(&"other.token".to_string(), &a.hash, 5, None),
        Err(FarmError::NotBananaToken)
    );
    assert_eq!(
        farm.on_receive_with_vault(&"other.token".to_string(), &a.hash, 5, VaultId(3), payload),
        Err(FarmError::NotBananaToken)
    );
    assert_eq!(
        farm.on_receive_with_vault(&token(), &a.hash, 5, VaultId(3), None),
        Err(FarmError::MalformedPayload)
    );
    assert!(!farm.account_exists(&a.hash));
    assert_eq!(farm.ft_total_supply(), 0);
    assert_eq!(
        farm.on_receive_with_vault(&token(), &a.hash, 5, VaultId(3), payload),
        Ok(VaultDraw {
            token_account_id: "banana.token".to_string(),
            vault_id: VaultId(3),
            amount: 5,
            gas: 5 * TGAS,
        })
    );
    assert_eq!(farm.ft_balance_of(&a.hash), 5);
    assert_eq!(farm.ft_total_supply(), 5);
    assert!(farm.is_banana_token(&token()));
    assert!(!farm.is_banana_token(&"other.token".to_string()));
    assert_eq!(farm.banana_token_account_id(), "banana.token");
}

#[test]
fn counters_do_not_leave_their_range() {
    let a = who("a.near", 1);
    let b = who("b.near", 2);
    let payload = Some(OnReceiverPayload::DepositAndStake);
    let mut farm = funded(&[(&a, u128::MAX - 1)]);
    assert_eq!(farm.ft_on_transfer(&token(), &b.hash, 2, payload), Err(FarmError::Overflow));
    assert_eq!(
        farm.on_receive_with_vault(&token(), &b.hash, 2, VaultId(0), payload),
        Err(FarmError::Overflow)
    );
    assert_eq!(farm.ft_total_supply(), u128::MAX - 1);
    assert!(!farm.account_exists(&b.hash));
    assert_eq!(farm.ft_on_transfer(&token(), &b.hash, 1, payload), Ok(0));
    assert_eq!(farm.ft_total_supply(), u128::MAX);

    // A small stake makes the step of the rate large.
    let mut small = funded(&[(&a, 1)]);
    assert_eq!(small.take_my_near(u128::MAX), Err(FarmError::Overflow));
    assert_eq!(small.near_per_cucumber_numer(), 0);
    assert_eq!(small.get_total_near_received(), 0);
    let most = u128::MAX / 1_000_000_000_000_000_000;
    assert_eq!(small.take_my_near(most), Ok(()));
    assert_eq!(small.near_per_cucumber_numer(), most * 1_000_000_000_000_000_000);
    assert_eq!(small.take_my_near(1), Err(FarmError::Overflow));
    assert_eq!(small.get_total_near_received(), most);
    assert_eq!(small.get_near_balance(&a.hash), most);
}

#[test]
fn vaults_are_guarded() {
    let a = who("a.near", 1);
    let b = who("b.near", 2);
    let c = who("c.near", 3);
    let mut farm = funded(&[(&a, 100), (&b, 0), (&c, 0)]);
    let v = farm.transfer_with_vault(1, 100 * TGAS, &a, &b, 60).unwrap().vault_id;
    assert_eq!(farm.withdraw_from_vault(&b.hash, VaultId(7), &b.hash, 1), Err(FarmError::VaultMissing));
    assert_eq!(farm.withdraw_from_vault(&c.hash, v, &c.hash, 1), Err(FarmError::NotVaultOwner));
    assert_eq!(farm.withdraw_from_vault(&a.hash, v, &a.hash, 1), Err(FarmError::NotVaultOwner));
    assert_eq!(farm.withdraw_from_vault(&b.hash, v, &b.hash, 61), Err(FarmError::InsufficientVaultBalance));
    // The receiver may send what it draws to another record.
    assert_eq!(farm.withdraw_from_vault(&b.hash, v, &c.hash, 60), Ok(()));
    assert_eq!(farm.ft_balance_of(&c.hash), 60);
    assert_eq!(farm.withdraw_from_vault(&b.hash, v, &b.hash, 1), Err(FarmError::InsufficientVaultBalance));
    let me = "farm.near".to_string();
    assert_eq!(farm.resolve_vault(&me, &"b.near".to_string(), v, &a.hash), Err(FarmError::NotSelf));
    assert_eq!(farm.resolve_vault(&me, &me, VaultId(7), &a.hash), Err(FarmError::VaultMissing));
    assert_eq!(farm.vault_count(), 1);
    assert_eq!(farm.resolve_vault(&me, &me, v, &a.hash), Ok(0));
    assert_eq!(farm.vault_count(), 0);
    assert_eq!(farm.ft_balance_of(&a.hash), 40);
}

#[test]
fn vault_remainder_needs_a_record_to_return_to() {
    let a = who("a.near", 1);
    let b = who("b.near", 2);
    let mut farm = funded(&[(&a, 100)]);
    let v = farm.transfer_with_vault(1, 100 * TGAS, &a, &b, 60).unwrap().vault_id;
    let me = "farm.near".to_string();
    let stranger = who("stranger.near", 9);
    assert_eq!(farm.resolve_vault(&me, &me, v, &stranger.hash), Err(FarmError::ReceiverMissing));
    assert_eq!(farm.vault_count(), 1);
    assert_eq!(farm.get_vault(v).unwrap().balance, 60);
    assert_eq!(farm.resolve_vault(&me, &me, v, &a.hash), Ok(60));
    assert_eq!(farm.ft_balance_of(&a.hash), 100);
}

#[test]
fn vault_identifiers_are_never_reused() {
    let a = who("a.near", 1);
    let b = who("b.near", 2);
    let mut farm = funded(&[(&a, 100)]);
    let me = "farm.near".to_string();
    let first = farm.transfer_with_vault(1, 100 * TGAS, &a, &b, 10).unwrap().vault_id;
    assert_eq!(first, VaultId(0));
    assert_eq!(farm.resolve_vault(&me, &me, first, &a.hash), Ok(10));
    let second = farm.transfer_with_vault(1, 100 * TGAS, &a, &b, 10).unwrap().vault_id;
    assert_eq!(second, VaultId(1));
    let third = farm.transfer_with_vault(1, 100 * TGAS, &a, &b, 10).unwrap().vault_id;
    assert_eq!(third, VaultId(2));
    assert_eq!(farm.get_vault(second).unwrap().receiver_id_hash, b.hash);
    assert!(farm.get_vault(first).is_none());
    assert_eq!(VaultId(41).next(), VaultId(42));
}

#[test]
fn reasons_fall_into_classes() {
    assert_eq!(FarmError::ZeroAmount.kind(), ErrorKind::Validation);
    assert_eq!(FarmError::SelfTransfer.kind(), ErrorKind::Validation);
    assert_eq!(FarmError::DepositRequired.kind(), ErrorKind::Validation);
    assert_eq!(FarmError::OneYoctoRequired.kind(), ErrorKind::Validation);
    assert_eq!(FarmError::MalformedPayload.kind(), ErrorKind::Validation);
    assert_eq!(FarmError::NotEnoughGas.kind(), ErrorKind::Validation);
    assert_eq!(FarmError::NoStake.kind(), ErrorKind::Validation);
    assert_eq!(FarmError::InsufficientBalance.kind(), ErrorKind::InsufficientBalance);
    assert_eq!(FarmError::InsufficientVaultBalance.kind(), ErrorKind::InsufficientBalance);
    assert_eq!(FarmError::NotBananaToken.kind(), ErrorKind::Authorization);
    assert_eq!(FarmError::NotVaultOwner.kind(), ErrorKind::Authorization);
    assert_eq!(FarmError::NotSelf.kind(), ErrorKind::Authorization);
    assert_eq!(FarmError::StorageDepositTooLow.kind(), ErrorKind::StorageCost);
    assert_eq!(FarmError::ReceiverMissing.kind(), ErrorKind::Missing);
    assert_eq!(FarmError::VaultMissing.kind(), ErrorKind::Missing);
    assert_eq!(FarmError::Overflow.kind(), ErrorKind::Arithmetic);
}

#[test]
fn gas_budgets_are_made_of_their_parts() {
    let tgas: u64 = 1_000_000_000_000;
    assert_eq!(berry_farm::vaults::GAS_BASE_COMPUTE, 5 * tgas);
    assert_eq!(berry_farm::vaults::GAS_FOR_PROMISE, 5 * tgas);
    assert_eq!(berry_farm::vaults::GAS_FOR_DATA_DEPENDENCY, 10 * tgas);
    assert_eq!(berry_farm::vaults::MIN_GAS_FOR_RECEIVER, 10 * tgas);
    assert_eq!(berry_farm::vaults::GAS_FOR_CALLBACK, 5 * tgas);
    assert_eq!(berry_farm::vaults::GAS_FOR_REMAINING_COMPUTE, 25 * tgas);
    assert_eq!(berry_farm::vaults::GAS_FOR_ACCOUNT_REGISTRATION, 5 * tgas);
    assert_eq!(berry_farm::vaults::GAS_FOR_WITHDRAW_FROM_VAULT, 5 * tgas);
    assert_eq!(berry_farm::transfer::GAS_FOR_RESOLVE_TRANSFER, 5 * tgas);
    assert_eq!(berry_farm::transfer::GAS_FOR_FT_TRANSFER_CALL, 30 * tgas);
    assert_eq!(berry_farm::identity::SHORT_HASH_LEN, 20);
}
