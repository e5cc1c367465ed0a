//! Dated meter readings.

use vstd::prelude::*;

verus! {

/// Length of one metering period, in seconds.
pub const SECONDS_PER_DAY: i64 = 86_400;

/// An instant, in whole seconds since the Unix epoch (UTC).
#[derive(Clone, Copy, Debug, PartialEq, Eq, Structural)]
pub struct Timestamp {
    pub secs: i64,
}

/// One period's usage, as recorded by a meter.
#[derive(Clone, Copy, Debug, PartialEq, Eq, Structural)]
pub struct Reading {
    pub timestamp: Timestamp,
    pub value: u8,
}

} // verus!
