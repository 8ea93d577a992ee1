use vstd::prelude::*;

verus! {

/// Every way a vault operation can fail. A failed operation changes nothing.
#[derive(Debug, Clone, Copy, PartialEq, Eq, Structural)]
pub enum ContractError {
    /// The caller is not the admin, not whitelisted, or not the pending admin.
    Unauthorized,
    /// The reward liquidation target is not one of the pool's assets.
    InvalidRewardLiquidationTarget,
    /// The attached funds are not exactly the expected amount of the expected denom.
    UnexpectedFunds,
    /// A pending claim exists already.
    PendingClaimExists,
    /// There is no pending claim.
    NoPendingClaim,
    /// A claim with the same id exists already.
    DuplicateClaimId,
    /// No claim has the given id.
    ClaimNotFound,
    /// The claim belongs to someone else.
    ClaimNotOwned,
    /// The claim has not reached its release point.
    ClaimNotMatured,
    /// More was asked of a claim than it holds.
    ClaimAmountExceeded,
    /// The performance fee is above one.
    PerformanceFeeTooHigh,
    /// The router knows no path from a reward asset to the liquidation target.
    MissingSwapPath,
    /// There is no pending admin transfer.
    NoAdminTransfer,
    /// A lock period counted in blocks was added to a time, or the reverse.
    MismatchedDuration,
    /// Stored claims are out of id order, or an id is not below the default id.
    InvalidClaimsState,
    /// A result does not fit its integer type.
    Overflow,
    /// A subtraction would go below zero.
    Underflow,
    /// A division by zero was asked for.
    DivideByZero,
}

} // verus!
