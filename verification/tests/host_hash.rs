use berry_farm::farm::Farm;
use berry_farm::identity::{Identity, ShortAccountHash};
use berry_farm::receiver::OnReceiverPayload;
use near_sdk::test_utils::VMContextBuilder;
use near_sdk::{MockedBlockchain, RuntimeFeesConfig, VMConfig};

/// Sets up the host that hashes.
fn host() {
    near_sdk::env::set_blockchain_interface(Box::new(MockedBlockchain::new(
        VMContextBuilder::new().build(),
        VMConfig::default(),
        RuntimeFeesConfig::default(),
        vec![],
        Default::default(),
        Default::default(),
        None,
    )));
}

fn party(account_id: &str) -> Identity {
    let digest = near_sdk::env::sha256(account_id.as_bytes());
    let mut buf = [0u8; 32];
    buf.copy_from_slice(&digest);
    Identity::new(account_id.to_string(), &buf)
}

#[test]
fn identity_is_keyed_by_the_head_of_its_sha256() {
    host();
    let alice = party("alice.near");
    let expected: [u8; 20] =
        [45, 213, 221, 165, 64, 118, 123, 58, 26, 163, 53, 68, 188, 186, 56, 4, 47, 77, 246, 222];
    assert!(alice.hash == ShortAccountHash(expected));
    assert_eq!(alice.account_id, "alice.near");
    let bob = party("bob.near");
    let expected: [u8; 20] =
        [36, 52, 20, 40, 85, 50, 133, 225, 14, 116, 165, 242, 111, 70, 56, 172, 83, 175, 178, 140];
    assert!(bob.hash == ShortAccountHash(expected));
    assert!(alice.hash != bob.hash);
}

#[test]
fn transfer_between_hashed_identities() {
    host();
    let alice = party("alice.near");
    let bob = party("bob.near");
    let token = "banana.token".to_string();
    let mut farm = Farm::new(token.clone());
    assert_eq!(
        farm.ft_on_transfer(&token, &alice.hash, 90, Some(OnReceiverPayload::DepositAndStake)),
        Ok(0)
    );
    farm.register_account(&bob.hash);
    assert_eq!(farm.ft_transfer(1, &alice, &bob, 30), Ok(()));
    assert_eq!(farm.ft_balance_of(&party("alice.near").hash), 60);
    assert_eq!(farm.ft_balance_of(&party("bob.near").hash), 30);
    assert_eq!(farm.ft_balance_of(&party("carol.near").hash), 0);
}
