use betting_core::Address;
use betting_core::Label;
use betting_core::Uint256;
use betting_core::create_bet_event;
use betting_core::create_nft_mint_event;
use betting_core::create_settlement_event;
use betting_core::create_spin_reward_event;
use betting_core::create_stake_event;
use betting_core::create_unstake_event;

#[test]
fn test_create_stake_event() {
    let event = create_stake_event(
        Address::new(10),
        2500,
        Address::new(4),
        Address::new(20),
        Uint256::from_u64(77),
    );
    assert_eq!(event.user, Address::new(10));
    assert_eq!(event.amount, 2500);
    assert_eq!(event.token_address, Address::new(4));
    assert_eq!(event.staking_contract, Address::new(20));
    assert_eq!(event.timestamp, 0);
    assert_eq!(event.stake_id, Uint256::new(77, 0, 0, 0));
}

#[test]
fn test_create_unstake_event() {
    let event = create_unstake_event(
        Address::new(10),
        2500,
        Address::new(4),
        Address::new(20),
        Uint256::from_u64(77),
        125,
    );
    assert_eq!(event.user, Address::new(10));
    assert_eq!(event.amount, 2500);
    assert_eq!(event.rewards, 125);
    assert_eq!(event.timestamp, 0);
}

#[test]
fn test_create_bet_event() {
    let event = create_bet_event(
        Address::new(3),
        1000,
        Uint256::from_u64(5),
        Address::new(21),
        Label::new(1),
        200,
    );
    assert_eq!(event.bettor, Address::new(3));
    assert_eq!(event.amount, 1000);
    assert_eq!(event.bet_id, Uint256::from_u64(5));
    assert_eq!(event.betting_contract, Address::new(21));
    assert_eq!(event.timestamp, 0);
    assert_eq!(event.bet_type, Label::new(1));
    assert_eq!(event.odds, 200);
    assert!(event.metadata.is_empty());
}

#[test]
fn test_create_settlement_event() {
    let event = create_settlement_event(
        Uint256::from_u64(5),
        Address::new(3),
        1900,
        Address::new(21),
        Label::new(2),
        190,
    );
    assert_eq!(event.bet_id, Uint256::from_u64(5));
    assert_eq!(event.winner, Address::new(3));
    assert_eq!(event.payout, 1900);
    assert_eq!(event.final_odds, 190);
    assert_eq!(event.timestamp, 0);
    assert!(event.metadata.is_empty());
}

#[test]
fn test_create_spin_reward_event() {
    let event = create_spin_reward_event(
        Address::new(3),
        50,
        Address::new(4),
        Address::new(22),
        Uint256::from_u64(9),
        Label::new(3),
        5,
    );
    assert_eq!(event.user, Address::new(3));
    assert_eq!(event.reward_amount, 50);
    assert_eq!(event.token_address, Address::new(4));
    assert_eq!(event.game_contract, Address::new(22));
    assert_eq!(event.spin_id, Uint256::from_u64(9));
    assert_eq!(event.reward_type, Label::new(3));
    assert_eq!(event.multiplier, 5);
    assert_eq!(event.timestamp, 0);
    assert!(event.metadata.is_empty());
}

#[test]
fn test_create_nft_mint_event() {
    let event = create_nft_mint_event(
        Uint256::from_u64(1),
        Address::new(10),
        b"cards/alice".to_vec(),
        Address::new(23),
        Label::new(4),
        Some(250),
    );
    assert_eq!(event.token_id, Uint256::from_u64(1));
    assert_eq!(event.to, Address::new(10));
    assert_eq!(event.token_uri, b"cards/alice".to_vec());
    assert_eq!(event.nft_contract, Address::new(23));
    assert_eq!(event.mint_type, Label::new(4));
    assert_eq!(event.price, Some(250));
    assert_eq!(event.timestamp, 0);
    assert!(event.metadata.is_empty());
}
