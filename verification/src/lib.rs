//! Demand-ratchet metering and billing: meters, rolling expense totals,
//! the master meter that aggregates its clients, and the billed account.

pub mod account;
pub mod calendar;
pub mod client;
pub mod error;
pub mod expenses;
pub mod master;
pub mod meter;
pub mod reading;
pub mod round;
pub mod simulation;
pub mod source;
pub mod step;
