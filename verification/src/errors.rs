//! Error taxonomy of the settlement and escrow core.

use vstd::prelude::*;

verus! {

/// Everything a contract entry point can refuse with.
///
/// A failed call leaves every ledger exactly as it was; the variants say why
/// the call was refused.
#[derive(Clone, Copy, Debug, PartialEq, Eq, Structural)]
pub enum ContractError {
    /// Missing or invalid authorization, or an admin that is not the
    /// configured backend signer.
    Unauthorized,
    /// A stake that is not strictly positive.
    InvalidAmount,
    /// A malformed bet.
    InvalidBet,
    /// No bet recorded under the requested key.
    BetNotFound,
    /// The bet was already settled.
    BetAlreadySettled,
    /// The bettor cannot cover the stake.
    InsufficientBalance,
    /// The escrow transfer was refused by the token ledger.
    TransferFailed,
    /// The bet is not in a status that allows the operation.
    InvalidStatus,
    /// The spin id already has a recorded execution, or the spin hash was
    /// already consumed.
    SpinAlreadyExecuted,
    /// No execution recorded under the requested spin id.
    SpinNotFound,
    /// Double-betting prevention is on and the bettor already has a bet on
    /// this match.
    BetAlreadyPlaced,
    /// The contract already has a backend signer configured.
    AlreadyInitialized,
}

/// Why the token ledger refused a transfer.
#[derive(Clone, Copy, Debug, PartialEq, Eq, Structural)]
pub enum TransferError {
    /// A negative transfer amount.
    NegativeAmount,
    /// The sender's balance does not cover the amount.
    InsufficientBalance,
    /// Crediting the recipient would overflow its balance.
    BalanceOverflow,
}

} // verus!
