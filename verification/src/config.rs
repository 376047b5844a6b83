//! The settings of the work/break cycle, as already parsed values.

use vstd::prelude::*;

verus! {

/// Nanoseconds in one second.
pub const NANOS_PER_SEC: u64 = 1_000_000_000;

/// Lengths of the phases of a cycle, in nanoseconds, and the long-break
/// cadence.
#[derive(Debug, Clone, Copy)]
pub struct PomodoroConfig {
    pub break_duration: u64,
    pub work_duration: u64,
    pub long_break_duration: u64,
    /// The time left in a work session at which the coming break is
    /// announced.
    pub notification_duration: u64,
    /// Every how many breaks the break is a long one. At least one.
    pub long_break_each: u16,
}

impl PomodoroConfig {
    /// The cadence is a positive number.
    pub open spec fn wf(self) -> bool {
        self.long_break_each >= 1
    }

    /// The length of a break of the given kind.
    pub open spec fn break_length(self, long_break: bool) -> u64 {
        if long_break {
            self.long_break_duration
        } else {
            self.break_duration
        }
    }

    /// Whether the settings can drive a cycle.
    pub fn is_valid(&self) -> (valid: bool)
        ensures
            valid == self.wf(),
    {
        self.long_break_each >= 1
    }

    /// The length of the break to show: the long one or the short one.
    pub fn break_duration_for(&self, long_break: bool) -> (duration: u64)
        ensures
            duration == self.break_length(long_break),
    {
        if long_break {
            self.long_break_duration
        } else {
            self.break_duration
        }
    }
}

/// The length in nanoseconds of `mins` minutes and `secs` seconds.
pub open spec fn mins_secs_nanos(mins: u64, secs: u64) -> int {
    (mins * 60 + secs) * NANOS_PER_SEC
}

/// The length in nanoseconds of a duration written as minutes and seconds,
/// or `None` where it does not fit in 64 bits.
pub fn duration_from_mins_secs(mins: u64, secs: u64) -> (nanos: Option<u64>)
    ensures
        nanos == if mins_secs_nanos(mins, secs) <= u64::MAX {
            Some(mins_secs_nanos(mins, secs) as u64)
        } else {
            None
        },
{
    let from_mins = match mins.checked_mul(60) {
        Some(s) => s,
        None => {
            assert(mins_secs_nanos(mins, secs) > u64::MAX) by (nonlinear_arith)
                requires
                    mins * 60 > u64::MAX,
                    secs >= 0,
            ;
            return None;
        },
    };
    let whole = match from_mins.checked_add(secs) {
        Some(s) => s,
        None => {
            assert(mins_secs_nanos(mins, secs) > u64::MAX) by (nonlinear_arith)
                requires
                    mins * 60 + secs > u64::MAX,
            ;
            return None;
        },
    };
    whole.checked_mul(NANOS_PER_SEC)
}

} // verus!
