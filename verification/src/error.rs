use vstd::prelude::*;

verus! {

/// Why a withdrawal request exceeded the withdrawable balance.
#[derive(Clone, Copy, Debug, PartialEq, Eq, Structural)]
pub enum WithdrawalBlock {
    /// The requested amount is larger than what the vesting schedule has
    /// unlocked so far.
    StillVesting,
    /// The requested amount is unlocked, but part of it is committed to
    /// active positions.
    StillStaked,
}

/// Every failure an operation on the stake-position ledger can surface.
///
/// No error is recovered silently: a failing operation returns one of these
/// and leaves the ledger exactly as it was before the call.
#[derive(Clone, Copy, Debug, PartialEq, Eq, Structural)]
pub enum StakeError {
    /// Malformed vesting parameters at schedule creation time.
    InvalidSchedule,
    /// No empty slot is available for a new position.
    LedgerFull,
    /// The index does not reference an active position.
    PositionNotFound,
    /// The split amount is zero or not strictly less than the source
    /// position's amount.
    InvalidSplitAmount,
    /// A new position would commit more than the custodied total.
    InsufficientUnstakedBalance,
    /// A withdrawal asks for more than the withdrawable balance.
    ExceedsWithdrawable(WithdrawalBlock),
    /// The external token-transfer primitive failed; the embedding layer
    /// reports it with this variant after rolling its effects back.
    TransferFailed,
}

} // verus!
