//! The state machine of something that plays: an instance of a sound or a
//! streaming sound.

mod shared;

pub use shared::{
    decode_state, encode_state, law_state_code_round_trip, state_code, state_of_code,
    PlaybackShared,
};

use crate::clock::ClockTime;
use crate::fixed::{
    add_clamped, clamp_i64, clamp_unit, scale_signed, signed_mul_div, travel, unit_part, way, ONE,
};
use crate::tween::{Easing, Tween, TweenDuration, Tweener, TweenerModel};
use crate::value::Value;
use vstd::prelude::*;

verus! {

/// Where a playing thing stands between playing and having stopped.
#[derive(Debug, Clone, Copy, PartialEq, Eq, Hash, Structural)]
pub enum PlaybackState {
    /// Audible and advancing.
    Playing,
    /// Fading out before a pause; still advancing.
    Pausing,
    /// Silent and standing still, until resumed.
    Paused,
    /// Fading out before the end; still advancing.
    Stopping,
    /// At its end, for good.
    Stopped,
}

impl PlaybackState {
    /// Whether the position advances in this state.
    pub open spec fn advances(self) -> bool {
        self is Playing || self is Pausing || self is Stopping
    }

    /// Whether a pause or a resume still means anything in this state.
    pub open spec fn can_pause(self) -> bool {
        self is Playing || self is Pausing || self is Paused
    }
}

/// The transition that takes no time.
pub open spec fn instant() -> Tween {
    Tween { duration: TweenDuration::Seconds(0), easing: Easing::Linear }
}

/// What a playing thing is.
pub struct PlaybackModel {
    pub state: PlaybackState,
    /// The fade of pausing, resuming and stopping: one when fully audible,
    /// zero when silent.
    pub fade: TweenerModel,
    pub volume: TweenerModel,
    pub playback_rate: TweenerModel,
    pub panning: TweenerModel,
    /// Whether the position runs towards the start.
    pub reverse: bool,
    /// Where in the sound it stands, in microseconds.
    pub position: int,
}

impl PlaybackModel {
    /// Something that starts to play at `position`: at full fade, or, with
    /// a fade-in, from silence towards full fade.
    pub open spec fn new(
        volume: int,
        playback_rate: int,
        panning: int,
        reverse: bool,
        position: int,
        fade_in: Option<Tween>,
    ) -> PlaybackModel {
        PlaybackModel {
            state: PlaybackState::Playing,
            fade: match fade_in {
                Some(tween) => TweenerModel::idle(0).set(ONE as int, tween),
                None => TweenerModel::idle(ONE as int),
            },
            volume: TweenerModel::idle(volume),
            playback_rate: TweenerModel::idle(playback_rate),
            panning: TweenerModel::idle(panning),
            reverse,
            position,
        }
    }

    pub open spec fn wf(self) -> bool {
        &&& self.fade.wf()
        &&& self.volume.wf()
        &&& self.playback_rate.wf()
        &&& self.panning.wf()
        &&& i64::MIN <= self.position <= i64::MAX
    }

    /// A fade that has come to rest ends the pausing or the stopping that it
    /// belonged to.
    pub open spec fn settle(self) -> PlaybackModel {
        if self.fade.motion is None {
            match self.state {
                PlaybackState::Pausing => PlaybackModel { state: PlaybackState::Paused, ..self },
                PlaybackState::Stopping => PlaybackModel { state: PlaybackState::Stopped, ..self },
                _ => self,
            }
        } else {
            self
        }
    }

    pub open spec fn set_volume(self, volume: Value) -> PlaybackModel {
        PlaybackModel { volume: self.volume.set(volume.number(), instant()), ..self }
    }

    pub open spec fn set_playback_rate(self, rate: Value) -> PlaybackModel {
        PlaybackModel { playback_rate: self.playback_rate.set(rate.number(), instant()), ..self }
    }

    pub open spec fn set_panning(self, panning: Value) -> PlaybackModel {
        PlaybackModel { panning: self.panning.set(panning.number(), instant()), ..self }
    }

    /// Fades out and pauses when the fade is over, at once if the fade takes
    /// no time. Nothing pauses what is stopping or has stopped.
    pub open spec fn pause(self, tween: Tween) -> PlaybackModel {
        if self.state.can_pause() {
            PlaybackModel {
                state: PlaybackState::Pausing,
                fade: self.fade.set(0, tween),
                ..self
            }.settle()
        } else {
            self
        }
    }

    /// Plays again and fades in. Nothing resumes what is stopping or has
    /// stopped.
    pub open spec fn resume(self, tween: Tween) -> PlaybackModel {
        if self.state.can_pause() {
            PlaybackModel {
                state: PlaybackState::Playing,
                fade: self.fade.set(ONE as int, tween),
                ..self
            }
        } else {
            self
        }
    }

    /// Fades out and stops when the fade is over, at once if the fade takes
    /// no time.
    pub open spec fn stop(self, tween: Tween) -> PlaybackModel {
        if self.state is Stopped {
            self
        } else {
            PlaybackModel {
                state: PlaybackState::Stopping,
                fade: self.fade.set(0, tween),
                ..self
            }.settle()
        }
    }

    /// Moves to `position`, in whatever state.
    pub open spec fn seek_to(self, position: int) -> PlaybackModel {
        PlaybackModel { position, ..self }
    }

    /// Moves by `amount`, in whatever state; the position stays a 64-bit
    /// number.
    pub open spec fn seek_by(self, amount: int) -> PlaybackModel {
        PlaybackModel { position: clamp_i64(self.position + amount), ..self }
    }

    /// The passage of `dt` microseconds: every transition moves, the
    /// position advances at the new playback rate unless the state stands
    /// still, and a fade that has ended ends the pausing or stopping.
    pub open spec fn update(self, dt: nat) -> PlaybackModel {
        let playback_rate = self.playback_rate.update(dt);
        PlaybackModel {
            fade: self.fade.update(dt),
            volume: self.volume.update(dt),
            playback_rate,
            panning: self.panning.update(dt),
            position: if self.state.advances() {
                clamp_i64(self.position + way(playback_rate.value, dt as int, self.reverse))
            } else {
                self.position
            },
            ..self
        }.settle()
    }

    /// A tick of a clock: the transitions that are timed by that clock move.
    pub open spec fn on_clock_tick(self, time: ClockTime) -> PlaybackModel {
        PlaybackModel {
            fade: self.fade.on_clock_tick(time),
            volume: self.volume.on_clock_tick(time),
            playback_rate: self.playback_rate.on_clock_tick(time),
            panning: self.panning.on_clock_tick(time),
            ..self
        }.settle()
    }

    /// The factor applied to the signal: the volume scaled by the fade.
    pub open spec fn gain(self) -> int {
        signed_mul_div(self.volume.value, unit_part(self.fade.value), ONE as int)
    }
}

/// The playback state machine.
#[derive(Debug, Clone, Copy)]
pub struct Playback {
    state: PlaybackState,
    fade: Tweener,
    volume: Tweener,
    playback_rate: Tweener,
    panning: Tweener,
    reverse: bool,
    position: i64,
}

impl View for Playback {
    type V = PlaybackModel;

    closed spec fn view(&self) -> PlaybackModel {
        PlaybackModel {
            state: self.state,
            fade: self.fade@,
            volume: self.volume@,
            playback_rate: self.playback_rate@,
            panning: self.panning@,
            reverse: self.reverse,
            position: self.position as int,
        }
    }
}

/// The transition that takes no time.
pub fn instant_tween() -> (tween: Tween)
    ensures
        tween == instant(),
{
    Tween { duration: TweenDuration::Seconds(0), easing: Easing::Linear }
}

impl Playback {
    /// Something that starts to play at `position`.
    pub fn new(
        volume: Value,
        playback_rate: Value,
        panning: Value,
        reverse: bool,
        position: i64,
        fade_in: Option<Tween>,
    ) -> (playback: Playback)
        ensures
            playback@ == PlaybackModel::new(
                volume.number(),
                playback_rate.number(),
                panning.number(),
                reverse,
                position as int,
                fade_in,
            ),
    {
        let fade = match fade_in {
            Some(tween) => {
                let mut fade = Tweener::new(0);
                fade.set(ONE as i64, tween);
                fade
            },
            None => Tweener::new(ONE as i64),
        };
        Playback {
            state: PlaybackState::Playing,
            fade,
            volume: Tweener::new(volume.get()),
            playback_rate: Tweener::new(playback_rate.get()),
            panning: Tweener::new(panning.get()),
            reverse,
            position,
        }
    }

    fn settle(&mut self)
        ensures
            final(self)@ == old(self)@.settle(),
    {
        if self.fade.is_idle() {
            match self.state {
                PlaybackState::Pausing => {
                    self.state = PlaybackState::Paused;
                },
                PlaybackState::Stopping => {
                    self.state = PlaybackState::Stopped;
                },
                _ => {},
            }
        }
    }

    /// The state.
    pub fn state(&self) -> (state: PlaybackState)
        ensures
            state == self@.state,
    {
        self.state
    }

    /// Whether the position runs towards the start.
    pub fn reverse(&self) -> (reverse: bool)
        ensures
            reverse == self@.reverse,
    {
        self.reverse
    }

    /// The position, in microseconds.
    pub fn position(&self) -> (position: i64)
        ensures
            position == self@.position,
    {
        self.position
    }

    /// The current volume.
    pub fn volume(&self) -> (volume: i64)
        ensures
            volume == self@.volume.value,
    {
        self.volume.value()
    }

    /// The current playback rate.
    pub fn playback_rate(&self) -> (rate: i64)
        ensures
            rate == self@.playback_rate.value,
    {
        self.playback_rate.value()
    }

    /// The current panning.
    pub fn panning(&self) -> (panning: i64)
        ensures
            panning == self@.panning.value,
    {
        self.panning.value()
    }

    /// The factor to apply to the signal: the volume scaled by the fade.
    pub fn gain(&self) -> (gain: i64)
        ensures
            gain == self@.gain(),
    {
        scale_signed(self.volume.value(), clamp_unit(self.fade.value()), ONE)
    }

    /// Sets the volume at once.
    pub fn set_volume(&mut self, volume: Value)
        ensures
            final(self)@ == old(self)@.set_volume(volume),
    {
        self.volume.set(volume.get(), instant_tween());
    }

    /// Sets the playback rate at once.
    pub fn set_playback_rate(&mut self, rate: Value)
        ensures
            final(self)@ == old(self)@.set_playback_rate(rate),
    {
        self.playback_rate.set(rate.get(), instant_tween());
    }

    /// Sets the panning at once.
    pub fn set_panning(&mut self, panning: Value)
        ensures
            final(self)@ == old(self)@.set_panning(panning),
    {
        self.panning.set(panning.get(), instant_tween());
    }

    /// Fades out with `tween`, then pauses.
    pub fn pause(&mut self, tween: Tween)
        ensures
            final(self)@ == old(self)@.pause(tween),
    {
        match self.state {
            PlaybackState::Playing | PlaybackState::Pausing | PlaybackState::Paused => {
                self.state = PlaybackState::Pausing;
                self.fade.set(0, tween);
                self.settle();
            },
            _ => {},
        }
    }

    /// Plays again and fades in with `tween`.
    pub fn resume(&mut self, tween: Tween)
        ensures
            final(self)@ == old(self)@.resume(tween),
    {
        match self.state {
            PlaybackState::Playing | PlaybackState::Pausing | PlaybackState::Paused => {
                self.state = PlaybackState::Playing;
                self.fade.set(ONE as i64, tween);
            },
            _ => {},
        }
    }

    /// Fades out with `tween`, then stops for good.
    pub fn stop(&mut self, tween: Tween)
        ensures
            final(self)@ == old(self)@.stop(tween),
    {
        match self.state {
            PlaybackState::Stopped => {},
            _ => {
                self.state = PlaybackState::Stopping;
                self.fade.set(0, tween);
                self.settle();
            },
        }
    }

    /// Moves to `position`.
    pub fn seek_to(&mut self, position: i64)
        ensures
            final(self)@ == old(self)@.seek_to(position as int),
    {
        self.position = position;
    }

    /// Moves by `amount`.
    pub fn seek_by(&mut self, amount: i64)
        ensures
            final(self)@ == old(self)@.seek_by(amount as int),
    {
        self.position = add_clamped(self.position, amount);
    }

    /// Lets `dt` microseconds pass.
    pub fn update(&mut self, dt: u64)
        ensures
            final(self)@ == old(self)@.update(dt as nat),
    {
        self.fade.update(dt);
        self.volume.update(dt);
        self.playback_rate.update(dt);
        self.panning.update(dt);
        match self.state {
            PlaybackState::Playing | PlaybackState::Pausing | PlaybackState::Stopping => {
                self.position = travel(self.position, self.playback_rate.value(), dt, self.reverse);
            },
            _ => {},
        }
        self.settle();
    }

    /// Reports a tick of a clock.
    pub fn on_clock_tick(&mut self, time: ClockTime)
        ensures
            final(self)@ == old(self)@.on_clock_tick(time),
    {
        self.fade.on_clock_tick(time);
        self.volume.on_clock_tick(time);
        self.playback_rate.on_clock_tick(time);
        self.panning.on_clock_tick(time);
        self.settle();
    }
}

/// What has stopped has stopped for good: no pause, resume or stop, no
/// passage of time and no tick of a clock brings it back.
pub proof fn law_stopped_is_for_good(p: PlaybackModel, tween: Tween, dt: nat, time: ClockTime)
    requires
        p.state is Stopped,
    ensures
        p.pause(tween) == p,
        p.resume(tween) == p,
        p.stop(tween) == p,
        p.update(dt).state is Stopped,
        p.update(dt).position == p.position,
        p.on_clock_tick(time).state is Stopped,
{
}

/// A fade that takes no time pauses, or stops, at once.
pub proof fn law_without_a_fade_at_once(p: PlaybackModel, tween: Tween)
    requires
        tween.duration.length() == 0,
    ensures
        p.state.can_pause() ==> p.pause(tween).state is Paused,
        p.stop(tween).state is Stopped,
        p.state.can_pause() ==> p.pause(tween).fade == TweenerModel::idle(0),
{
}

/// A seek moves the position and nothing else, whatever the state.
pub proof fn law_seek_moves_only_the_position(p: PlaybackModel, position: int, amount: int)
    ensures
        p.seek_to(position) == (PlaybackModel { position, ..p }),
        p.seek_by(amount) == (PlaybackModel { position: clamp_i64(p.position + amount), ..p }),
        p.seek_to(position).position == position,
{
}

/// What is paused stands still: time passes, the position stays, and so
/// does the state, until a resume or a stop.
pub proof fn law_paused_stands_still(p: PlaybackModel, dt: nat)
    requires
        p.state is Paused,
    ensures
        p.update(dt).state is Paused,
        p.update(dt).position == p.position,
{
}

/// The gain is the volume scaled by a share between nothing and all of it,
/// so it lies between zero and the volume.
pub proof fn law_gain_is_at_most_the_volume(p: PlaybackModel)
    ensures
        p.volume.value >= 0 ==> 0 <= p.gain() <= p.volume.value,
        p.volume.value <= 0 ==> p.volume.value <= p.gain() <= 0,
{
    let fade = unit_part(p.fade.value);
    if p.volume.value >= 0 {
        crate::fixed::lemma_mul_div_bounds(p.volume.value, fade, ONE as int);
    } else {
        crate::fixed::lemma_mul_div_bounds(-p.volume.value, fade, ONE as int);
    }
}

} // verus!
