//! Stereo audio frames.

use crate::fixed::{add_clamped, clamp_i64, clamp_unit, fixed_mul, times, unit_part, ONE};
use vstd::prelude::*;

verus! {

/// One moment of stereo audio: a fixed-point sample for each side.
#[derive(Debug, Clone, Copy, PartialEq, Eq, Hash, Structural)]
pub struct Frame {
    pub left: i64,
    pub right: i64,
}

/// The share of the left side at the panning `panning`, where zero is hard
/// left, one is hard right, and both sides are at full level in the middle.
pub open spec fn left_share(panning: int) -> int {
    unit_part(2 * (ONE - unit_part(panning)))
}

/// The share of the right side at the panning `panning`.
pub open spec fn right_share(panning: int) -> int {
    unit_part(2 * unit_part(panning))
}

impl Frame {
    /// Silence.
    pub open spec fn silence() -> Frame {
        Frame { left: 0, right: 0 }
    }

    /// The sum of two frames, side by side, each side kept within the 64-bit
    /// signed numbers.
    pub open spec fn plus(self, other: Frame) -> Frame {
        Frame {
            left: clamp_i64(self.left + other.left) as i64,
            right: clamp_i64(self.right + other.right) as i64,
        }
    }

    /// The frame at the fixed-point gain `gain`.
    pub open spec fn scaled(self, gain: int) -> Frame {
        Frame {
            left: fixed_mul(self.left as int, gain) as i64,
            right: fixed_mul(self.right as int, gain) as i64,
        }
    }

    /// The frame at the panning `panning`.
    pub open spec fn panned(self, panning: int) -> Frame {
        Frame {
            left: fixed_mul(self.left as int, left_share(panning)) as i64,
            right: fixed_mul(self.right as int, right_share(panning)) as i64,
        }
    }

    /// Silence.
    pub fn zero() -> (frame: Frame)
        ensures
            frame == Frame::silence(),
        no_unwind
    {
        Frame { left: 0, right: 0 }
    }

    /// Adds two frames.
    pub fn add(self, other: Frame) -> (sum: Frame)
        ensures
            sum == self.plus(other),
        no_unwind
    {
        Frame {
            left: add_clamped(self.left, other.left),
            right: add_clamped(self.right, other.right),
        }
    }

    /// Applies a gain.
    pub fn scale(self, gain: i64) -> (frame: Frame)
        ensures
            frame == self.scaled(gain as int),
        no_unwind
    {
        Frame { left: times(self.left, gain), right: times(self.right, gain) }
    }

    /// Applies a panning.
    pub fn pan(self, panning: i64) -> (frame: Frame)
        ensures
            frame == self.panned(panning as int),
        no_unwind
    {
        let p: u64 = clamp_unit(panning);
        let left: u64 = if 2 * (ONE - p) > ONE {
            ONE
        } else {
            2 * (ONE - p)
        };
        let right: u64 = if 2 * p > ONE {
            ONE
        } else {
            2 * p
        };
        Frame { left: times(self.left, left as i64), right: times(self.right, right as i64) }
    }
}

} // verus!
