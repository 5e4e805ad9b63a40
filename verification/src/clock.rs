//! Differences of clock readings.

use vstd::prelude::*;

verus! {

/// The time from `from` to `now`; zero where `from` lies ahead.
pub open spec fn elapsed(from: u64, now: u64) -> int {
    if now >= from {
        now - from
    } else {
        0
    }
}

pub fn time_since(from: u64, now: u64) -> (time: u64)
    ensures
        time == elapsed(from, now),
{
    if now >= from {
        now - from
    } else {
        0
    }
}

} // verus!
