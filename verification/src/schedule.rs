//! The draw scheduler's one decision: redraw now, or wait for the next
//! throttled frame. The outer loop (wait with timeout, drain the queue,
//! call the renderer) lives outside the library.

use vstd::prelude::*;

verus! {

/// Milliseconds between throttled frames, and the event-wait timeout.
pub const DRAW_INTERVAL_MS: u64 = 500;

/// Whether to redraw after a batch of events: immediately if any event in
/// the batch forced it, otherwise only once the throttle interval has
/// passed since the last frame.
pub fn should_draw(force_draw: bool, elapsed_ms: u64) -> (r: bool)
    ensures
        r == (force_draw || elapsed_ms >= DRAW_INTERVAL_MS),
{
    force_draw || elapsed_ms >= DRAW_INTERVAL_MS
}

} // verus!
