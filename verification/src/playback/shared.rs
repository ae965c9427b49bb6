//! The state of a playing thing that its handle can read at any time.

use super::PlaybackState;
use std::sync::atomic::{AtomicI64, AtomicU8, Ordering};
use vstd::prelude::*;

verus! {

/// The number that stands for a state in the published state.
pub open spec fn state_code(state: PlaybackState) -> u8 {
    match state {
        PlaybackState::Playing => 0,
        PlaybackState::Pausing => 1,
        PlaybackState::Paused => 2,
        PlaybackState::Stopping => 3,
        PlaybackState::Stopped => 4,
    }
}

/// The state that a number stands for. A number that stands for none reads
/// like the end of playback.
pub open spec fn state_of_code(code: u8) -> PlaybackState {
    match code {
        0 => PlaybackState::Playing,
        1 => PlaybackState::Pausing,
        2 => PlaybackState::Paused,
        3 => PlaybackState::Stopping,
        _ => PlaybackState::Stopped,
    }
}

/// Reading back the number of a state gives that state.
pub proof fn law_state_code_round_trip(state: PlaybackState)
    ensures
        state_of_code(state_code(state)) == state,
{
}

/// The number that stands for `state`.
pub fn encode_state(state: PlaybackState) -> (code: u8)
    ensures
        code == state_code(state),
{
    match state {
        PlaybackState::Playing => 0,
        PlaybackState::Pausing => 1,
        PlaybackState::Paused => 2,
        PlaybackState::Stopping => 3,
        PlaybackState::Stopped => 4,
    }
}

/// The state that `code` stands for.
pub fn decode_state(code: u8) -> (state: PlaybackState)
    ensures
        state == state_of_code(code),
{
    match code {
        0 => PlaybackState::Playing,
        1 => PlaybackState::Pausing,
        2 => PlaybackState::Paused,
        3 => PlaybackState::Stopping,
        _ => PlaybackState::Stopped,
    }
}

/// What the render side last published about a playing thing.
///
/// Only the render side writes; a handle reads. Each field is read and
/// written atomically and on its own, so a reader sees some value that was
/// published, not necessarily the latest one.
#[derive(Debug)]
pub struct PlaybackShared {
    state: AtomicU8,
    position: AtomicI64,
}

impl PlaybackShared {
    /// The published state of something that starts to play at `position`.
    pub fn new(position: i64) -> Self {
        Self {
            state: AtomicU8::new(encode_state(PlaybackState::Playing)),
            position: AtomicI64::new(position),
        }
    }

    /// The state that was last published.
    pub fn state(&self) -> PlaybackState {
        decode_state(self.state.load(Ordering::SeqCst))
    }

    /// The position that was last published, in microseconds.
    pub fn position(&self) -> i64 {
        self.position.load(Ordering::SeqCst)
    }

    pub(crate) fn publish(&self, state: PlaybackState, position: i64) {
        self.state.store(encode_state(state), Ordering::SeqCst);
        self.position.store(position, Ordering::SeqCst);
    }
}

} // verus!
