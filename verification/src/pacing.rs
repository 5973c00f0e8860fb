//! Frame pacing: how long to sleep at the end of a frame.
//!
//! The loop aims at a fixed rate.  Each frame's budget is the whole
//! number of time units per frame; after a frame has run, the loop
//! sleeps for exactly the unspent part of the budget, and not at all
//! when the frame met or overran it — there is no catch-up for slow
//! frames.  Both functions are unit-agnostic: the driver passes
//! milliseconds (or any finer unit) consistently.

use vstd::prelude::*;

verus! {

/// The sleep a frame owes: the unspent budget, or nothing.
pub open spec fn spec_sleep_needed(budget: u64, elapsed: u64) -> Option<u64> {
    if elapsed < budget {
        Some((budget - elapsed) as u64)
    } else {
        None
    }
}

/// The per-frame time budget for a target rate, in the unit of
/// `units_per_second` (for 1000 and 60 frames per second: 16).
pub fn frame_budget(units_per_second: u64, fps: u64) -> (r: u64)
    requires
        fps >= 1,
    ensures
        r == units_per_second as int / fps as int,
{
    units_per_second / fps
}

/// Decide the end-of-frame sleep: exactly `budget - elapsed` when the
/// frame came in under budget, none otherwise.
pub fn sleep_needed(budget: u64, elapsed: u64) -> (r: Option<u64>)
    ensures
        r == spec_sleep_needed(budget, elapsed),
{
    if elapsed < budget {
        Some(budget - elapsed)
    } else {
        None
    }
}

} // verus!
