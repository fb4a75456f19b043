//! Event counters that wrap around.

use vstd::prelude::*;

verus! {

/// A counter that has counted `more` events; it wraps around.
pub open spec fn counted(counter: u64, more: nat) -> u64 {
    ((counter + more) % 0x1_0000_0000_0000_0000) as u64
}

/// Counts one event.
pub fn count(counter: u64) -> (next: u64)
    ensures
        next == counted(counter, 1),
{
    counter.wrapping_add(1)
}

} // verus!
