//! When the list is saved while it has unsaved changes: two seconds after
//! the first change, then on every half-second wait.

use vstd::prelude::*;

verus! {

/// How long after the first unsaved change the list is saved.
pub const SAVE_DELAY_MS: u64 = 2000;

/// How long to wait for a key when nothing is pending.
pub const IDLE_WAIT_MS: u64 = 500;

/// What the event loop does before waiting for a key: whether to save now,
/// and how long to wait.
#[derive(Debug, Clone, Copy, PartialEq, Eq, Structural)]
pub struct SaveStep {
    pub save_now: bool,
    pub wait_ms: u64,
}

/// The step for a list with unsaved changes (`dirty`) made `elapsed_ms`
/// milliseconds ago: once the delay has passed it is saved and the loop
/// waits the idle time; before that it waits for the rest of the delay; a
/// list with nothing unsaved just waits the idle time.
pub fn save_step(dirty: bool, elapsed_ms: u64) -> (r: SaveStep)
    ensures
        r == (if !dirty {
            SaveStep { save_now: false, wait_ms: IDLE_WAIT_MS }
        } else if elapsed_ms >= SAVE_DELAY_MS {
            SaveStep { save_now: true, wait_ms: IDLE_WAIT_MS }
        } else {
            SaveStep { save_now: false, wait_ms: (SAVE_DELAY_MS - elapsed_ms) as u64 }
        }),
{
    if !dirty {
        SaveStep { save_now: false, wait_ms: IDLE_WAIT_MS }
    } else if elapsed_ms >= SAVE_DELAY_MS {
        SaveStep { save_now: true, wait_ms: IDLE_WAIT_MS }
    } else {
        SaveStep { save_now: false, wait_ms: SAVE_DELAY_MS - elapsed_ms }
    }
}

} // verus!
