//! Settlement and escrow core for an on-chain wagering ledger.
//!
//! The library is organised as an explicit state machine: every entry point
//! of the betting contract is a function from the current contract state,
//! a host-attested call context and plain argument values to a new state and
//! a result.  The host environment (durable store, authorization capability,
//! token transfer, event sink) is consumed at the boundary: callers load the
//! state, hand in what the host attested for the current call, and commit the
//! new state only when the call returns `Ok`.

mod auth;
mod betting;
mod enums;
mod errors;
mod events;
mod ids;
mod laws;
mod player_card;
mod token;

pub use auth::AuthView;
pub use auth::CallContext;
pub use auth::SpinAuthorization;
pub use betting::Bet;
pub use betting::BettingContract;
pub use betting::BettingView;
pub use betting::SpinExecution;
pub use betting::execute_spin_spec;
pub use betting::initial_view;
pub use betting::initialize_spec;
pub use betting::place_bet_spec;
pub use betting::set_prevent_double_betting_spec;
pub use enums::BetOutcome;
pub use enums::BetStatus;
pub use errors::ContractError;
pub use errors::TransferError;
pub use events::BetCancelledEvent;
pub use events::BetEvent;
pub use events::BetPlacedEvent;
pub use events::BetSettledEvent;
pub use events::ContractEvent;
pub use events::MetadataEntry;
pub use events::NFTMintEvent;
pub use events::SettlementEvent;
pub use events::SpinExecutedEvent;
pub use events::SpinRewardEvent;
pub use events::StakeEvent;
pub use events::UnstakeEvent;
pub use events::create_bet_event;
pub use events::create_nft_mint_event;
pub use events::create_settlement_event;
pub use events::create_spin_reward_event;
pub use events::create_stake_event;
pub use events::create_unstake_event;
pub use ids::Address;
pub use ids::Bytes32;
pub use ids::Label;
pub use ids::Uint256;
pub use player_card::CardEvent;
pub use player_card::CardRegistryView;
pub use player_card::Error;
pub use player_card::Initialized;
pub use player_card::Minted;
pub use player_card::PlayerCardContract;
pub use player_card::PlayerCardToken;
pub use player_card::Transferred;
pub use player_card::card_approve_spec;
pub use player_card::card_initial_view;
pub use player_card::card_initialize_spec;
pub use player_card::card_mint_spec;
pub use player_card::card_transfer_spec;
pub use laws::lemma_double_bet_allowed;
pub use laws::lemma_double_bet_rejected;
pub use laws::lemma_escrow_moves_full_stake;
pub use laws::lemma_execute_spin_succeeds;
pub use laws::lemma_fresh_contract_has_no_history;
pub use laws::lemma_history_is_permanent;
pub use laws::lemma_nonpositive_stake_rejected;
pub use laws::lemma_only_execute_spin_records;
pub use laws::lemma_policy_change_requires_signer;
pub use laws::lemma_spin_hash_single_use;
pub use laws::lemma_spin_id_executes_once;
pub use token::Balances;
pub use token::TokenLedger;
pub use token::transfer_spec;
pub use token::zero_balances;
