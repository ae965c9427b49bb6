//! The state of a clock that its handles can read at any time.

use std::sync::atomic::{AtomicBool, AtomicU64, Ordering};
use vstd::prelude::*;

verus! {

/// What the render side last published about a clock.
///
/// Only the clock writes `ticking` and `ticks`; any handle may read every
/// field and may mark the clock for removal. Each field is read and written
/// atomically and on its own, so a reader sees some value that was
/// published, not necessarily the latest one nor one that belongs together
/// with the other fields.
#[derive(Debug)]
pub struct ClockShared {
    ticking: AtomicBool,
    ticks: AtomicU64,
    removed: AtomicBool,
}

impl ClockShared {
    /// The state of a clock that was never started: not ticking, no ticks,
    /// not marked for removal.
    pub fn new() -> Self {
        Self {
            ticking: AtomicBool::new(false),
            ticks: AtomicU64::new(0),
            removed: AtomicBool::new(false),
        }
    }

    /// Whether the clock was ticking when it last published.
    pub fn ticking(&self) -> bool {
        self.ticking.load(Ordering::SeqCst)
    }

    /// The number of the last tick that the clock published.
    pub fn ticks(&self) -> u64 {
        self.ticks.load(Ordering::SeqCst)
    }

    /// Whether some handle asked for the clock to be removed.
    pub fn is_marked_for_removal(&self) -> bool {
        self.removed.load(Ordering::SeqCst)
    }

    /// Asks for the clock to be removed.
    pub fn mark_for_removal(&self) {
        self.removed.store(true, Ordering::SeqCst);
    }

    pub(crate) fn publish_ticking(&self, ticking: bool) {
        self.ticking.store(ticking, Ordering::SeqCst);
    }

    pub(crate) fn publish_ticks(&self, ticks: u64) {
        self.ticks.store(ticks, Ordering::SeqCst);
    }
}

} // verus!
