//! Closed enumerations shared by the wagering components.

use vstd::prelude::*;

verus! {

/// Lifecycle of a bet: placement, lock, settlement.
#[derive(Clone, Copy, Debug, PartialEq, Eq, Structural)]
pub enum BetStatus {
    Pending,
    Active,
    Settled,
    Cancelled,
}

/// The outcome a bettor wagers on.
///
/// Bet labels are a closed enumeration rather than free-form text, so wire
/// size and comparison cost stay bounded.
#[derive(Clone, Copy, Debug, PartialEq, Eq, Structural)]
pub enum BetOutcome {
    Win,
    Lose,
    Draw,
}

} // verus!
