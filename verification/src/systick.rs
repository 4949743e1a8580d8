//! The system timer: its count and frequency turned into microseconds.
use vstd::prelude::*;

verus! {

/// The generic system timer of the core.
pub struct SysTick;

/// The time in microseconds for timer count `cnt` at `freq` ticks per second,
/// with the ticks per microsecond rounded down.
pub open spec fn spec_time_us(cnt: u64, freq: u32) -> int {
    (cnt as int) / ((freq / 1_000_000) as int)
}

impl SysTick {
    /// The time in microseconds for the count `cnt` of a timer that ticks
    /// `freq` times a second.
    pub fn get_time_us(cnt: u64, freq: u32) -> (us: u64)
        requires
            freq >= 1_000_000,
        ensures
            us == spec_time_us(cnt, freq),
    {
        cnt / ((freq / 1_000_000) as u64)
    }

    /// Whether a wait of `us` microseconds that began at `start` is over at
    /// time `now`: only once the time is past the end.
    pub fn wait_expired(start: u64, us: u64, now: u64) -> (over: bool)
        requires
            start + us <= u64::MAX,
        ensures
            over == (now > start + us),
    {
        let end = start + us;
        now > end
    }
}

} // verus!
