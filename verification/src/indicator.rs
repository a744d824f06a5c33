//! The blink pattern of the status light.

use vstd::prelude::*;

verus! {

/// One blink of the status light, in milliseconds.
#[derive(Debug, Clone, Copy, PartialEq, Eq, Structural)]
pub struct Blink {
    /// How long the light is on.
    pub on_ms: u64,
    /// How long it is off afterwards.
    pub off_ms: u64,
}

/// The blink of a pattern that is on for `duty_cycle` out of every
/// `cycle_len` milliseconds.
pub fn blink(duty_cycle: u64, cycle_len: u64) -> (b: Blink)
    requires
        duty_cycle <= cycle_len,
    ensures
        b == (Blink { on_ms: duty_cycle, off_ms: (cycle_len - duty_cycle) as u64 }),
{
    Blink { on_ms: duty_cycle, off_ms: cycle_len - duty_cycle }
}

/// The next blink of a pattern that is to run for `run_time` milliseconds
/// and has run for `elapsed`: none once the time is up, after which the
/// light stays off.
pub fn next_blink(elapsed: u64, run_time: u64, duty_cycle: u64, cycle_len: u64) -> (b: Option<
    Blink,
>)
    requires
        elapsed < run_time ==> duty_cycle <= cycle_len,
    ensures
        b == if elapsed >= run_time {
            None
        } else {
            Some(Blink { on_ms: duty_cycle, off_ms: (cycle_len - duty_cycle) as u64 })
        },
{
    if elapsed >= run_time {
        None
    } else {
        Some(blink(duty_cycle, cycle_len))
    }
}

} // verus!
