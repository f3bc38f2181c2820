//! The ways in which an operation of the lending engine can fail.

use vstd::prelude::*;

verus! {

/// Why an operation was refused. Every refusal leaves the state as it was.
#[derive(Clone, Copy, Debug, PartialEq, Eq, Structural)]
pub enum LendingError {
    /// An intermediate or final value does not fit its representation, or a
    /// division by zero was asked for.
    MathOverflow,
    /// A subtraction would go below zero.
    MathUnderflow,
    /// The amount is zero, exceeds a configured limit, or is malformed.
    InvalidAmount,
    /// A configuration value lies outside its allowed range.
    InvalidConfig,
    /// Nothing would be left for the borrower once the fees are taken.
    BorrowTooSmall,
    /// The borrow would push the obligation past its allowed borrow value.
    BorrowTooLarge,
    /// The withdrawal rounds to nothing.
    WithdrawTooSmall,
    /// The withdrawal would leave the borrows without enough collateral.
    WithdrawTooLarge,
    /// The liquidation rounds to nothing.
    LiquidationTooSmall,
    /// The reserve does not hold enough available liquidity.
    InsufficientLiquidity,
    /// The obligation was not refreshed in the current slot.
    ObligationStale,
    /// The reserve was not refreshed in the current slot.
    ReserveStale,
    /// The price was published outside the accepted window of slots.
    StalePrice,
    /// The price source is unusable: its price is zero.
    InvalidOracleConfig,
    /// The obligation is healthy and cannot be liquidated.
    HealthyObligation,
    /// The obligation already refers to the maximum number of reserves.
    TooManyObligationReserves,
    /// The reserves handed in do not match the obligation's entries in number or order.
    InvalidAccountInput,
    /// The obligation has no deposits.
    ObligationDepositsEmpty,
    /// The obligation has no borrows.
    ObligationBorrowsEmpty,
    /// The obligation's deposits are worth nothing.
    ObligationDepositsZero,
    /// The obligation holds no collateral of the given reserve.
    InvalidObligationCollateral,
    /// The obligation holds no borrow from the given reserve.
    InvalidObligationLiquidity,
    /// The deposit entry holds no collateral, or collateral that is worth nothing.
    ObligationCollateralEmpty,
    /// The borrow entry owes nothing, or a debt that is worth nothing.
    ObligationLiquidityEmpty,
    /// The cumulative borrow rate handed in is below the one recorded.
    NegativeInterestRate,
}

/// An arithmetic outcome as a result: a missing value is a `MathOverflow`.
pub open spec fn or_overflow<T>(x: Option<T>) -> Result<T, LendingError> {
    match x {
        Some(v) => Ok(v),
        None => Err(LendingError::MathOverflow),
    }
}

/// What a mutating operation owes its caller: on success the state `after`
/// has the expected view, and on failure the operation reports the expected
/// error and `after` is `before`.
pub open spec fn transition<T: View>(
    r: Result<(), LendingError>,
    before: T,
    after: T,
    expected: Result<T::V, LendingError>,
) -> bool {
    match expected {
        Ok(next) => r is Ok && after@ == next,
        Err(e) => r == Err::<(), LendingError>(e) && after == before,
    }
}

/// As `transition`, for an operation that also returns a value.
pub open spec fn transition_with<T: View, R>(
    r: Result<R, LendingError>,
    before: T,
    after: T,
    expected: Result<(T::V, R), LendingError>,
) -> bool {
    match expected {
        Ok((next, value)) => r == Ok::<R, LendingError>(value) && after@ == next,
        Err(e) => r == Err::<R, LendingError>(e) && after == before,
    }
}

/// What an operation on a reserve and an obligation owes its caller: on
/// success the result and both states are the expected ones, and on failure
/// the expected error is reported and both states are as before.
pub open spec fn joint_transition<A: View, B: View, R>(
    r: Result<R, LendingError>,
    first_before: A,
    first_after: A,
    second_before: B,
    second_after: B,
    expected: Result<(A::V, B::V, R), LendingError>,
) -> bool {
    match expected {
        Ok((first, second, value)) => r == Ok::<R, LendingError>(value) && first_after@ == first
            && second_after@ == second,
        Err(e) => r == Err::<R, LendingError>(e) && first_after == first_before && second_after
            == second_before,
    }
}

} // verus!
