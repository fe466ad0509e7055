//! The reasons for which an operation of the bank is refused.

use vstd::prelude::*;

verus! {

/// Why an operation failed. A failed operation changes nothing.
#[derive(Clone, Copy, Debug, PartialEq, Eq, Structural)]
pub enum Error {
    /// The caller is not allowed to do this.
    BadOrigin,
    /// The interest rate given is zero.
    ZeroFDInterestRate,
    /// The compounding frequency given is zero.
    ZeroFDCompoundFrequency,
    /// The epoch length given is zero.
    ZeroFDEpoch,
    /// The penalty rate given is zero.
    ZeroFDPenalty,
    /// The parameters were never set (met when closing a deposit).
    FDInterestNotSet,
    /// The parameters were never set.
    FDParamsNotSet,
    /// No deposit is stored under this depositor and id.
    FDVaultDoesNotExist,
    /// The maturity period is shorter than an epoch or longer than allowed.
    FDMaturityPeriodOutOfRangeWhenOpening,
    /// The amount to deposit is zero.
    ZeroAmountWhenOpeningFD,
    /// What the depositor has available does not cover the amount to deposit.
    InsufficientFreeBalanceWhenOpeningFD,
    /// A deposit is already stored under the id that would be given out.
    FDAlreadyExistsWithIdWhenOpeningFD,
    /// The claimed maturity is neither 0 nor 1.
    InvalidMaturityStatus,
    /// The id of the deposit to close is zero.
    ZeroIdWhenClosingFD,
    /// What the treasury has available does not exceed the interest owed.
    InsufficientFreeBalanceForInterest,
    /// What the depositor has available does not exceed the penalty owed.
    InsufficientFreeBalanceForPenalty,
    /// The depositor has no open deposit with this id.
    FDNotExistsWithIdWhenClosingFD,
    /// The claimed maturity does not agree with the time that has passed.
    InvalidCloseFDCombination,
    /// No treasury account is set.
    TreasuryNotSet,
    /// The deposit was opened after the current block.
    ArithmeticUnderflow,
    /// A number grew beyond what its type can hold.
    ArithmeticOverflow,
    /// The amount to lock is under the smallest that can be locked.
    LockAmountIsLessThanMinLockAmount,
    /// The amount to lock is over the largest that can be locked.
    LockAmountExceedsMaxLockAmount,
    /// The amount to deposit is outside the allowed range.
    FDAmountOutOfRangeWhenOpening,
}

} // verus!
