use hikmalayer::staking::{Staker, StakerRegistry, StakeError, select_staker, staking_pool_address};
use hikmalayer::token::Token;

fn plain_staker(address: &str, stake: u64) -> Staker {
    Staker { address: address.to_string(), stake, public_key: None, private_key: None }
}

#[test]
fn test_select_staker() {
    let stakers = vec![plain_staker("Alice", 100), plain_staker("Bob", 50)];

    let winner = select_staker("seed", &stakers);
    assert!(winner.is_some());
}

#[test]
fn selection_is_deterministic_and_order_dependent() {
    let stakers = vec![plain_staker("Alice", 100), plain_staker("Bob", 50)];
    let first = select_staker("some-seed", &stakers);
    let second = select_staker("some-seed", &stakers);
    assert_eq!(first, second);

    let forward = vec![plain_staker("Alice", 1), plain_staker("Bob", 1)];
    let backward = vec![plain_staker("Bob", 1), plain_staker("Alice", 1)];
    let w1 = select_staker("tie-break", &forward).unwrap();
    let w2 = select_staker("tie-break", &backward).unwrap();
    assert_ne!(w1, w2);
}

#[test]
fn selection_returns_none_without_stake() {
    let empty: Vec<Staker> = Vec::new();
    assert!(select_staker("seed", &empty).is_none());
    let zeroed = vec![plain_staker("Alice", 0)];
    assert!(select_staker("seed", &zeroed).is_none());
}

#[test]
fn selection_frequency_tracks_stake() {
    let stakers = vec![plain_staker("Alice", 3), plain_staker("Bob", 1)];
    let mut alice = 0u32;
    for i in 0..400 {
        let seed = format!("seed-{}", i);
        match select_staker(&seed, &stakers) {
            Some(winner) => {
                if winner == "Alice" {
                    alice += 1;
                }
            }
            None => panic!("total stake is nonzero"),
        }
    }
    // Alice holds three quarters of the stake: expect roughly 300 of 400.
    assert!(alice > 250, "Alice won only {} of 400", alice);
    assert!(alice < 350, "Alice won {} of 400", alice);
}

#[test]
fn slash_takes_floored_percentage_and_compounds() {
    let mut registry = StakerRegistry {
        stakers: vec![plain_staker("A", 10)],
    };
    assert_eq!(registry.slash("A", 10), 1);
    assert_eq!(registry.stakers[0].stake, 9);
    // 10% of 9 rounds down to zero; the entry stays.
    assert_eq!(registry.slash("A", 10), 0);
    assert_eq!(registry.stakers[0].stake, 9);
    assert_eq!(registry.slash("A", 50), 4);
    assert_eq!(registry.stakers[0].stake, 5);
    assert_eq!(registry.stakers.len(), 1);
    assert_eq!(registry.slash("nobody", 50), 0);
}

#[test]
fn deposit_withdraw_conserve_pool_balance() {
    let mut token = Token::new("Metacation Token", "MCT", 1000, "alice");
    let mut registry = StakerRegistry::new();

    let r = registry.deposit(
        &mut token,
        "alice",
        60,
        Some("04aa".to_string()),
        Some("bb".to_string()),
    );
    assert!(r.is_ok());
    assert_eq!(token.balance_of("alice"), 940);
    assert_eq!(token.balance_of(staking_pool_address()), 60);
    assert_eq!(registry.stakers[0].stake, 60);

    let r = registry.deposit(&mut token, "alice", 40, None, None);
    assert!(r.is_ok());
    assert_eq!(token.balance_of(staking_pool_address()), 100);
    assert_eq!(registry.stakers[0].stake, 100);

    let r = registry.withdraw(&mut token, "alice", 30);
    assert!(r.is_ok());
    assert_eq!(token.balance_of("alice"), 930);
    assert_eq!(token.balance_of(staking_pool_address()), 70);
    assert_eq!(registry.stakers[0].stake, 70);

    let r = registry.withdraw(&mut token, "alice", 70);
    assert!(r.is_ok());
    assert_eq!(token.balance_of("alice"), 1000);
    assert_eq!(token.balance_of(staking_pool_address()), 0);
    assert!(registry.stakers.is_empty());
}

#[test]
fn deposit_and_withdraw_reject_bad_requests() {
    let mut token = Token::new("T", "T", 100, "alice");
    let mut registry = StakerRegistry::new();

    assert!(matches!(
        registry.deposit(&mut token, "alice", 0, None, None),
        Err(StakeError::ZeroAmount)
    ));
    assert!(matches!(
        registry.deposit(&mut token, "alice", 10, None, None),
        Err(StakeError::MissingKeys)
    ));
    assert!(matches!(
        registry.deposit(&mut token, "alice", 200, Some("p".to_string()), Some("k".to_string())),
        Err(StakeError::InsufficientBalance)
    ));
    assert!(matches!(
        registry.withdraw(&mut token, "alice", 5),
        Err(StakeError::NoSuchStaker)
    ));

    let r = registry.deposit(&mut token, "alice", 10, Some("p".to_string()), Some("k".to_string()));
    assert!(r.is_ok());
    assert!(matches!(
        registry.withdraw(&mut token, "alice", 0),
        Err(StakeError::ZeroAmount)
    ));
    assert!(matches!(
        registry.withdraw(&mut token, "alice", 11),
        Err(StakeError::InsufficientStake)
    ));
    assert_eq!(token.balance_of("alice"), 90);
}

#[test]
fn test_token_transfer() {
    let mut token = Token::new("TestToken", "TT", 1000, "admin");
    token.mint("user1", 100);
    assert_eq!(token.balance_of("user1"), 100);

    let success = token.transfer("user1", "user2", 50);
    assert!(success);
    assert_eq!(token.balance_of("user1"), 50);
    assert_eq!(token.balance_of("user2"), 50);
}

#[test]
fn transfer_fails_without_funds() {
    let mut token = Token::new("T", "T", 10, "a");
    assert!(!token.transfer("a", "b", 11));
    assert_eq!(token.balance_of("a"), 10);
    assert_eq!(token.balance_of("b"), 0);
}
