//! Core of a work/break cycle scheduler: the work and break countdowns, the
//! cycle state machine with its long-break cadence, the accounting of time
//! spent off schedule, and the usage statistics with their file format.
//!
//! Every function here is a function of its arguments alone. Clock readings,
//! the current date and the bytes of the statistics file are handed in by the
//! caller, and what has to happen outside (a notification, a break screen, a
//! write to disk) is handed back as a value.
//!
//! Lengths of time are in nanoseconds unless said otherwise, and an instant
//! is a reading of a monotonic clock in nanoseconds.

pub mod break_timer;
pub mod codec;
pub mod config;
pub mod controller;
pub mod cycle;
pub mod date;
pub mod duration;
pub mod format;
pub mod ledger;
pub mod stats;
pub mod work_timer;
