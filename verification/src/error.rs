//! Failure kinds of the metering and billing operations.

use vstd::prelude::*;

verus! {

/// Why an operation was refused.
#[derive(Clone, Copy, Debug, PartialEq, Eq, Structural)]
pub enum MeterError {
    /// A reading was needed where none has been recorded yet.
    EmptyHistory,
    /// The reading that set the ratchet could not be located among the
    /// clients' readings; the allocation factors were left as they were.
    RatchetTimestampNotFound,
    /// A charge was asked for before a billing cycle had completed.
    PrematureCharge,
    /// The period after the latest reading cannot be dated.
    TimestampOutOfRange,
    /// The clients' latest readings add up to more than a reading can hold.
    ReadingOverflow,
    /// An allocation factor is a ratio over a peak of zero.
    UndefinedFactor,
    /// The balance after the charge cannot be represented.
    BalanceOverflow,
}

/// What an operation reports when it is refused for the reason `e`.
pub open spec fn refused(e: MeterError) -> Result<(), MeterError> {
    Err(e)
}

} // verus!
