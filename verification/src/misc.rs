use vstd::prelude::*;

verus! {

/// Milliseconds to wait between two operations so that at most
/// `rate_per_second` of them happen in a second.
pub open spec fn pacing_delay(rate_per_second: u64) -> int {
    1000int / (rate_per_second as int)
}

/// The pause, in milliseconds, that keeps a sender at `rate_per_second`
/// operations per second. The caller does the waiting.
pub fn ratelimit(rate_per_second: u64) -> (millis: u64)
    requires
        rate_per_second > 0,
    ensures
        millis == pacing_delay(rate_per_second),
        millis <= 1000,
{
    1000 / rate_per_second
}

} // verus!
