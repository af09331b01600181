use vstd::prelude::*;

verus! {

/// Business-rule failures, surfaced verbatim to the caller. Every failure
/// aborts the attempted transition before any state has been mutated.
#[derive(Clone, Copy, Debug, PartialEq, Eq)]
pub enum Error {
    /// A stake offered to the escrow did not match the configured bet size.
    InvalidEntranceFee,
    /// The paying account does not hold the accepted currency.
    InvalidTokenAccount,
    /// A balance or size computation would not fit its machine integer.
    ArithmeticOverflow,
    /// The storage collaborator failed to grow an append-only ledger.
    ReallocError,
    /// A price point must be a positive integer.
    InvalidPrice,
    /// Only the configured admin may append to the price ledger.
    AdminOnly,
    /// The game index references no game in the registry.
    GameNotFound,
    /// Only the host of a game may withdraw from it.
    UnauthorizedWithdrawal,
    /// Withdrawal is barred once an opponent has matched the stake.
    WithdrawalNotAllowed,
    /// The game has already reached a terminal state.
    GameAlreadyClosed,
    /// The game has no opponent yet, so there is nothing to resolve.
    GameNotStarted,
    /// The game already has an opponent.
    GameAlreadyJoined,
    /// A host cannot take the opponent's side of their own game.
    CannotJoinOwnGame,
    /// The price has already drifted past the join tolerance band.
    PriceMovedTooMuch,
    /// Neither threshold has been crossed yet, so no winner exists.
    GameNotFinished,
    /// Only the computed winner may claim the stakes.
    SignerNotWinner,
}

} // verus!
