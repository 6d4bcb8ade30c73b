//! Timestamps of Windows.
use vstd::prelude::*;

verus! {

/// The number of nanoseconds in a second.
pub const NANOS_PER_SEC: i64 = 1_000_000_000;

/// The clock of the system.
#[derive(Clone, Copy, PartialEq, Eq, Debug, Structural)]
pub struct Timer;

impl Timer {
    /// The timestamp in nanoseconds, given the number of ticks and how often the clock
    /// ticks in a second.
    pub fn timestamp(ticks: i64, frequency: i64) -> (nanos: u64)
        requires
            ticks >= 0,
            frequency > 0,
            ticks * NANOS_PER_SEC / frequency as int <= u64::MAX,
        ensures
            nanos == ticks * NANOS_PER_SEC / frequency as int,
    {
        assert(ticks * NANOS_PER_SEC <= i64::MAX * NANOS_PER_SEC) by (nonlinear_arith)
            requires
                0 <= ticks <= i64::MAX,
        ;
        let nanos: u128 = ticks as u128 * NANOS_PER_SEC as u128 / frequency as u128;
        nanos as u64
    }
}

/// Time does not go back where the ticks do not.
pub proof fn timestamps_follow_ticks(first: i64, second: i64, frequency: i64)
    requires
        0 <= first <= second,
        frequency > 0,
    ensures
        first * NANOS_PER_SEC / frequency as int <= second * NANOS_PER_SEC / frequency as int,
{
    vstd::arithmetic::div_mod::lemma_div_is_ordered(
        first * NANOS_PER_SEC,
        second * NANOS_PER_SEC,
        frequency as int,
    );
}

} // verus!
