//! Notifications the core appends to its event log.
//!
//! The log is append-only and is consumed by off-chain indexers; a successful
//! call appends exactly one event, a failed call appends none.

use vstd::prelude::*;
use crate::ids::Address;
use crate::ids::Bytes32;
use crate::ids::Label;
use crate::ids::Uint256;

verus! {

/// Receipt of a successful spin execution.
#[derive(Clone, Copy, Debug, PartialEq, Eq, Structural)]
pub struct SpinExecutedEvent {
    pub spin_id: Bytes32,
    pub executor: Address,
    pub timestamp: u64,
}

/// Receipt of a successfully placed bet.
///
/// The event carries the match identifier itself, not a placeholder label,
/// so indexers can attribute the stake without a second lookup.
#[derive(Clone, Copy, Debug, PartialEq, Eq, Structural)]
pub struct BetPlacedEvent {
    pub bettor: Address,
    pub match_id: Bytes32,
    pub amount: i128,
}

/// One entry of the contract's event log.
#[derive(Clone, Copy, Debug, PartialEq, Eq, Structural)]
pub enum ContractEvent {
    SpinExecuted(SpinExecutedEvent),
    BetPlaced(BetPlacedEvent),
}

/// One key/value pair of an event's metadata.
#[derive(Clone, Debug, PartialEq, Eq)]
pub struct MetadataEntry {
    pub key: Label,
    pub value: Vec<u8>,
}

/// Payload of a staking deposit, for the off-chain indexers.
#[derive(Clone, Copy, Debug, PartialEq, Eq, Structural)]
pub struct StakeEvent {
    pub user: Address,
    pub amount: i128,
    pub token_address: Address,
    pub staking_contract: Address,
    pub timestamp: u64,
    pub stake_id: Uint256,
}

/// Payload of a staking withdrawal, rewards included.
#[derive(Clone, Copy, Debug, PartialEq, Eq, Structural)]
pub struct UnstakeEvent {
    pub user: Address,
    pub amount: i128,
    pub token_address: Address,
    pub staking_contract: Address,
    pub timestamp: u64,
    pub stake_id: Uint256,
    pub rewards: i128,
}

/// Payload of a placed wager, in the indexer-facing shape.
#[derive(Clone, Debug, PartialEq, Eq)]
pub struct BetEvent {
    pub bettor: Address,
    pub amount: i128,
    pub bet_id: Uint256,
    pub betting_contract: Address,
    pub timestamp: u64,
    pub bet_type: Label,
    pub odds: u32,
    pub metadata: Vec<MetadataEntry>,
}

/// Payload of a settled wager.
#[derive(Clone, Debug, PartialEq, Eq)]
pub struct SettlementEvent {
    pub bet_id: Uint256,
    pub winner: Address,
    pub payout: i128,
    pub betting_contract: Address,
    pub timestamp: u64,
    pub settlement_type: Label,
    pub final_odds: u32,
    pub metadata: Vec<MetadataEntry>,
}

/// Payload of a spin reward.
#[derive(Clone, Debug, PartialEq, Eq)]
pub struct SpinRewardEvent {
    pub user: Address,
    pub reward_amount: i128,
    pub token_address: Address,
    pub game_contract: Address,
    pub timestamp: u64,
    pub spin_id: Uint256,
    pub reward_type: Label,
    pub multiplier: u32,
    pub metadata: Vec<MetadataEntry>,
}

/// Payload of a minted non-fungible token.
#[derive(Clone, Debug, PartialEq, Eq)]
pub struct NFTMintEvent {
    pub token_id: Uint256,
    pub to: Address,
    pub token_uri: Vec<u8>,
    pub nft_contract: Address,
    pub timestamp: u64,
    pub mint_type: Label,
    pub metadata: Vec<MetadataEntry>,
    pub price: Option<i128>,
}

/// Payload of a settled bet, in the compact legacy shape.
#[derive(Clone, Copy, Debug, PartialEq, Eq, Structural)]
pub struct BetSettledEvent {
    pub bet_id: Label,
    pub winner: Address,
    pub payout: i128,
}

/// Payload of a cancelled bet, in the compact legacy shape.
#[derive(Clone, Copy, Debug, PartialEq, Eq, Structural)]
pub struct BetCancelledEvent {
    pub bet_id: Label,
    pub reason: Label,
}

/// Build a staking-deposit payload; the timestamp is left at zero for the
/// emitting contract to fill in.
pub fn create_stake_event(
    user: Address,
    amount: i128,
    token_address: Address,
    staking_contract: Address,
    stake_id: Uint256,
) -> (r: StakeEvent)
    ensures
        r == (StakeEvent { user, amount, token_address, staking_contract, timestamp: 0, stake_id }),
{
    StakeEvent { user, amount, token_address, staking_contract, timestamp: 0, stake_id }
}

/// Build a staking-withdrawal payload; the timestamp is left at zero for
/// the emitting contract to fill in.
pub fn create_unstake_event(
    user: Address,
    amount: i128,
    token_address: Address,
    staking_contract: Address,
    stake_id: Uint256,
    rewards: i128,
) -> (r: UnstakeEvent)
    ensures
        r == (UnstakeEvent {
            user,
            amount,
            token_address,
            staking_contract,
            timestamp: 0,
            stake_id,
            rewards,
        }),
{
    UnstakeEvent { user, amount, token_address, staking_contract, timestamp: 0, stake_id, rewards }
}

/// Build a wager payload with empty metadata; the timestamp is left at zero
/// for the emitting contract to fill in.
pub fn create_bet_event(
    bettor: Address,
    amount: i128,
    bet_id: Uint256,
    betting_contract: Address,
    bet_type: Label,
    odds: u32,
) -> (r: BetEvent)
    ensures
        r.bettor == bettor,
        r.amount == amount,
        r.bet_id == bet_id,
        r.betting_contract == betting_contract,
        r.timestamp == 0,
        r.bet_type == bet_type,
        r.odds == odds,
        r.metadata@ == Seq::<MetadataEntry>::empty(),
{
    let metadata: Vec<MetadataEntry> = Vec::new();
    proof {
        assert(metadata@ =~= Seq::<MetadataEntry>::empty());
    }
    BetEvent { bettor, amount, bet_id, betting_contract, timestamp: 0, bet_type, odds, metadata }
}

/// Build a settlement payload with empty metadata; the timestamp is left at
/// zero for the emitting contract to fill in.
pub fn create_settlement_event(
    bet_id: Uint256,
    winner: Address,
    payout: i128,
    betting_contract: Address,
    settlement_type: Label,
    final_odds: u32,
) -> (r: SettlementEvent)
    ensures
        r.bet_id == bet_id,
        r.winner == winner,
        r.payout == payout,
        r.betting_contract == betting_contract,
        r.timestamp == 0,
        r.settlement_type == settlement_type,
        r.final_odds == final_odds,
        r.metadata@ == Seq::<MetadataEntry>::empty(),
{
    let metadata: Vec<MetadataEntry> = Vec::new();
    proof {
        assert(metadata@ =~= Seq::<MetadataEntry>::empty());
    }
    SettlementEvent {
        bet_id,
        winner,
        payout,
        betting_contract,
        timestamp: 0,
        settlement_type,
        final_odds,
        metadata,
    }
}

/// Build a spin-reward payload with empty metadata; the timestamp is left
/// at zero for the emitting contract to fill in.
pub fn create_spin_reward_event(
    user: Address,
    reward_amount: i128,
    token_address: Address,
    game_contract: Address,
    spin_id: Uint256,
    reward_type: Label,
    multiplier: u32,
) -> (r: SpinRewardEvent)
    ensures
        r.user == user,
        r.reward_amount == reward_amount,
        r.token_address == token_address,
        r.game_contract == game_contract,
        r.timestamp == 0,
        r.spin_id == spin_id,
        r.reward_type == reward_type,
        r.multiplier == multiplier,
        r.metadata@ == Seq::<MetadataEntry>::empty(),
{
    let metadata: Vec<MetadataEntry> = Vec::new();
    proof {
        assert(metadata@ =~= Seq::<MetadataEntry>::empty());
    }
    SpinRewardEvent {
        user,
        reward_amount,
        token_address,
        game_contract,
        timestamp: 0,
        spin_id,
        reward_type,
        multiplier,
        metadata,
    }
}

/// Build a card-mint payload with empty metadata; the timestamp is left at
/// zero for the emitting contract to fill in.
pub fn create_nft_mint_event(
    token_id: Uint256,
    to: Address,
    token_uri: Vec<u8>,
    nft_contract: Address,
    mint_type: Label,
    price: Option<i128>,
) -> (r: NFTMintEvent)
    ensures
        r.token_id == token_id,
        r.to == to,
        r.token_uri@ == token_uri@,
        r.nft_contract == nft_contract,
        r.timestamp == 0,
        r.mint_type == mint_type,
        r.metadata@ == Seq::<MetadataEntry>::empty(),
        r.price == price,
{
    let metadata: Vec<MetadataEntry> = Vec::new();
    proof {
        assert(metadata@ =~= Seq::<MetadataEntry>::empty());
    }
    NFTMintEvent { token_id, to, token_uri, nft_contract, timestamp: 0, mint_type, metadata, price }
}

} // verus!
