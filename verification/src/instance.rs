//! Instances: single occurrences of a sound being played.

use crate::channel::{sent_after, CommandProducer, SharedProducer};
use crate::command::{Command, CommandQueueFull, InstanceCommand};
use crate::fixed::{clamp_i64, sub_clamped};
use crate::id::same_key;
use crate::playback::{
    instant, instant_tween, Playback, PlaybackModel, PlaybackShared, PlaybackState,
};
use crate::sound::SoundId;
use crate::sync::share;
use crate::track::TrackIndex;
use crate::tween::Tween;
use crate::value::Value;
use atomic_arena::Key;
use std::sync::{Arc, Mutex};
use vstd::prelude::*;

verus! {

/// A unique identifier for an instance.
#[derive(Debug, Clone, Copy, PartialEq, Eq, Hash)]
pub struct InstanceId(pub(crate) Key);

impl View for InstanceId {
    type V = Key;

    /// The arena key that the identifier stands for.
    closed spec fn view(&self) -> Key {
        self.0
    }
}

impl InstanceId {
    /// The identifier of the instance stored under `key`.
    pub fn new(key: Key) -> (id: InstanceId)
        ensures
            id@ == key,
    {
        InstanceId(key)
    }

    /// The arena key of the instance.
    pub fn key(&self) -> (key: Key)
        ensures
            key == self@,
    {
        self.0
    }

    /// Whether both identifiers name the same instance.
    pub fn is(&self, other: &InstanceId) -> (same: bool)
        ensures
            same == (*self == *other),
    {
        same_key(&self.0, &other.0)
    }
}

/// The track that an instance plays on.
#[derive(Debug, Clone, Copy, PartialEq, Eq, Hash)]
pub enum InstanceTrackIndex {
    /// The default track of the sound.
    DefaultForSound,
    /// This track.
    Custom(TrackIndex),
}

impl InstanceTrackIndex {
    /// The track, given the default track of the sound.
    pub open spec fn resolve(self, default: TrackIndex) -> TrackIndex {
        match self {
            InstanceTrackIndex::DefaultForSound => default,
            InstanceTrackIndex::Custom(track) => track,
        }
    }

    /// The track, given the default track of the sound.
    pub fn or_default(self, default: TrackIndex) -> (track: TrackIndex)
        ensures
            track == self.resolve(default),
    {
        match self {
            InstanceTrackIndex::DefaultForSound => default,
            InstanceTrackIndex::Custom(track) => track,
        }
    }
}

/// Where an instance goes back to when it reaches the end.
#[derive(Debug, Clone, Copy, PartialEq, Eq, Hash)]
pub enum InstanceLoopStart {
    /// Where the sound says, if it says so.
    Default,
    /// This position, in microseconds.
    Custom(i64),
    /// Nowhere: the instance does not loop.
    Off,
}

impl InstanceLoopStart {
    /// The loop start, given what the sound says.
    pub open spec fn resolve(self, default: Option<i64>) -> Option<i64> {
        match self {
            InstanceLoopStart::Default => default,
            InstanceLoopStart::Custom(position) => Some(position),
            InstanceLoopStart::Off => None,
        }
    }

    /// The loop start, given what the sound says.
    pub fn into_option(self, default: Option<i64>) -> (start: Option<i64>)
        ensures
            start == self.resolve(default),
    {
        match self {
            InstanceLoopStart::Default => default,
            InstanceLoopStart::Custom(position) => Some(position),
            InstanceLoopStart::Off => None,
        }
    }
}

/// How an instance of a sound is to play.
#[derive(Debug, Clone, Copy)]
pub struct InstanceSettings {
    pub id: InstanceId,
    pub volume: Value,
    pub playback_rate: Value,
    pub panning: Value,
    /// Whether to play from the end towards the start.
    pub reverse: bool,
    /// How far into the sound to start, counted from the end if `reverse`.
    pub start_position: i64,
    /// The fade-in, if any.
    pub fade_in_tween: Option<Tween>,
    pub track: InstanceTrackIndex,
    pub loop_start: InstanceLoopStart,
}

/// The settings of an instance once the defaults of its sound are filled in.
#[derive(Debug, Clone, Copy)]
pub struct InternalInstanceSettings {
    pub volume: Value,
    pub playback_rate: Value,
    pub panning: Value,
    pub reverse: bool,
    /// Where in the sound to start, in microseconds from its start.
    pub start_position: i64,
    pub fade_in_tween: Option<Tween>,
    pub track: TrackIndex,
    pub loop_start: Option<i64>,
}

impl InstanceSettings {
    /// The settings of an instance that plays the sound as it is: at full
    /// volume and normal speed, centred, forwards from the start, on the
    /// track and with the loop that the sound asks for.
    pub fn new(id: InstanceId) -> (settings: InstanceSettings)
        ensures
            settings == (InstanceSettings {
                id,
                volume: Value::Fixed(1_000_000),
                playback_rate: Value::Fixed(1_000_000),
                panning: Value::Fixed(500_000),
                reverse: false,
                start_position: 0,
                fade_in_tween: None,
                track: InstanceTrackIndex::DefaultForSound,
                loop_start: InstanceLoopStart::Default,
            }),
    {
        InstanceSettings {
            id,
            volume: Value::Fixed(1_000_000),
            playback_rate: Value::Fixed(1_000_000),
            panning: Value::Fixed(500_000),
            reverse: false,
            start_position: 0,
            fade_in_tween: None,
            track: InstanceTrackIndex::DefaultForSound,
            loop_start: InstanceLoopStart::Default,
        }
    }

    /// The settings with the defaults of the sound filled in.
    pub open spec fn resolve(
        self,
        duration: i64,
        default_loop_start: Option<i64>,
        default_track: TrackIndex,
    ) -> InternalInstanceSettings {
        InternalInstanceSettings {
            volume: self.volume,
            playback_rate: self.playback_rate,
            panning: self.panning,
            reverse: self.reverse,
            start_position: if self.reverse {
                clamp_i64(duration - self.start_position) as i64
            } else {
                self.start_position
            },
            fade_in_tween: self.fade_in_tween,
            track: self.track.resolve(default_track),
            loop_start: self.loop_start.resolve(default_loop_start),
        }
    }

    /// Fills in the defaults of a sound of length `duration`: its default
    /// track, its default loop start, and, for an instance that plays in
    /// reverse, the start position counted from the end.
    pub fn into_internal(
        self,
        duration: i64,
        default_loop_start: Option<i64>,
        default_track: TrackIndex,
    ) -> (settings: InternalInstanceSettings)
        ensures
            settings == self.resolve(duration, default_loop_start, default_track),
    {
        InternalInstanceSettings {
            volume: self.volume,
            playback_rate: self.playback_rate,
            panning: self.panning,
            reverse: self.reverse,
            start_position: if self.reverse {
                sub_clamped(duration, self.start_position)
            } else {
                self.start_position
            },
            fade_in_tween: self.fade_in_tween,
            track: self.track.or_default(default_track),
            loop_start: self.loop_start.into_option(default_loop_start),
        }
    }
}

/// How to pause instances.
#[derive(Debug, Clone, Copy)]
pub struct PauseInstanceSettings {
    /// The fade-out; none pauses at once.
    pub fade_tween: Option<Tween>,
}

/// How to resume instances.
#[derive(Debug, Clone, Copy)]
pub struct ResumeInstanceSettings {
    /// The fade-in; none resumes at full volume at once.
    pub fade_tween: Option<Tween>,
}

/// How to stop instances.
#[derive(Debug, Clone, Copy)]
pub struct StopInstanceSettings {
    /// The fade-out; none stops at once.
    pub fade_tween: Option<Tween>,
}

/// The given fade, or the one that takes no time.
pub open spec fn fade_or_instant(fade: Option<Tween>) -> Tween {
    match fade {
        Some(tween) => tween,
        None => instant(),
    }
}

fn fade_of(fade: Option<Tween>) -> (tween: Tween)
    ensures
        tween == fade_or_instant(fade),
{
    match fade {
        Some(tween) => tween,
        None => instant_tween(),
    }
}

/// What an instance is.
pub struct InstanceModel {
    pub sound: SoundId,
    /// The length of the sound, in microseconds.
    pub duration: i64,
    pub track: TrackIndex,
    pub loop_start: Option<i64>,
    pub playback: PlaybackModel,
}

/// Where an instance stands once it has run past an end of its sound at
/// `position`: with a loop start before the end of the sound it goes round
/// the loop, as often as it takes to be inside it again.
pub open spec fn looped(position: int, duration: int, loop_start: int, backwards: bool) -> int {
    let span = duration - loop_start;
    if backwards {
        duration - (loop_start - position) % span
    } else {
        loop_start + (position - duration) % span
    }
}

impl InstanceModel {
    /// A new instance plays from the start position that its settings give.
    pub open spec fn new(
        sound: SoundId,
        duration: i64,
        settings: InternalInstanceSettings,
    ) -> InstanceModel {
        InstanceModel {
            sound,
            duration,
            track: settings.track,
            loop_start: settings.loop_start,
            playback: PlaybackModel::new(
                settings.volume.number(),
                settings.playback_rate.number(),
                settings.panning.number(),
                settings.reverse,
                settings.start_position as int,
                settings.fade_in_tween,
            ),
        }
    }

    /// Whether the position runs towards the start of the sound: in reverse
    /// at a positive rate, or forwards at a negative one.
    pub open spec fn runs_backwards(self) -> bool {
        self.playback.reverse != (self.playback.playback_rate.value < 0)
    }

    /// Whether the position lies beyond the end that the instance runs
    /// towards: the end of the sound, or, backwards, the loop start or the
    /// start of the sound.
    pub open spec fn ran_out(self) -> bool {
        if self.runs_backwards() {
            match self.loop_start {
                Some(start) => self.playback.position < start,
                None => self.playback.position < 0,
            }
        } else {
            self.playback.position > self.duration
        }
    }

    /// Whether the instance has a loop to go round.
    pub open spec fn loops(self) -> bool {
        self.loop_start matches Some(start) && start < self.duration
    }

    /// What happens at the end of the sound: an instance with a loop goes
    /// round it, one without stops at once.
    pub open spec fn wrap(self) -> InstanceModel {
        if self.playback.state.advances() && self.ran_out() {
            if self.loops() {
                InstanceModel {
                    playback: self.playback.seek_to(
                        looped(
                            self.playback.position,
                            self.duration as int,
                            self.loop_start.unwrap() as int,
                            self.runs_backwards(),
                        ),
                    ),
                    ..self
                }
            } else {
                InstanceModel { playback: self.playback.stop(instant()), ..self }
            }
        } else {
            self
        }
    }

    /// The passage of `dt` microseconds.
    pub open spec fn update(self, dt: nat) -> InstanceModel {
        InstanceModel { playback: self.playback.update(dt), ..self }.wrap()
    }

    pub open spec fn pause(self, settings: PauseInstanceSettings) -> InstanceModel {
        InstanceModel {
            playback: self.playback.pause(fade_or_instant(settings.fade_tween)),
            ..self
        }
    }

    pub open spec fn resume(self, settings: ResumeInstanceSettings) -> InstanceModel {
        InstanceModel {
            playback: self.playback.resume(fade_or_instant(settings.fade_tween)),
            ..self
        }
    }

    pub open spec fn stop(self, settings: StopInstanceSettings) -> InstanceModel {
        InstanceModel {
            playback: self.playback.stop(fade_or_instant(settings.fade_tween)),
            ..self
        }
    }
}

/// A single occurrence of a sound being played.
#[derive(Debug, Clone)]
pub struct Instance {
    sound: SoundId,
    duration: i64,
    track: TrackIndex,
    loop_start: Option<i64>,
    playback: Playback,
    shared: Arc<PlaybackShared>,
}

impl View for Instance {
    type V = InstanceModel;

    closed spec fn view(&self) -> InstanceModel {
        InstanceModel {
            sound: self.sound,
            duration: self.duration,
            track: self.track,
            loop_start: self.loop_start,
            playback: self.playback@,
        }
    }
}

impl Instance {
    /// A new instance of the sound `sound`, which is `duration` microseconds
    /// long.
    pub fn new(sound: SoundId, duration: i64, settings: InternalInstanceSettings) -> (instance:
        Instance)
        ensures
            instance@ == InstanceModel::new(sound, duration, settings),
    {
        Instance {
            sound,
            duration,
            track: settings.track,
            loop_start: settings.loop_start,
            playback: Playback::new(
                settings.volume,
                settings.playback_rate,
                settings.panning,
                settings.reverse,
                settings.start_position,
                settings.fade_in_tween,
            ),
            shared: Arc::new(PlaybackShared::new(settings.start_position)),
        }
    }

    /// The state that the instance publishes into, which it owns jointly
    /// with its handle.
    pub closed spec fn cell(&self) -> Arc<PlaybackShared> {
        self.shared
    }

    /// The state that the instance publishes, for a handle to read: another
    /// pointer to the instance's own, not a copy.
    pub fn public_state(&self) -> (shared: Arc<PlaybackShared>)
        ensures
            shared == self.cell(),
    {
        share(&self.shared)
    }

    /// The sound that the instance plays.
    pub fn sound(&self) -> (sound: SoundId)
        ensures
            sound == self@.sound,
    {
        self.sound
    }

    /// The track that the instance plays on.
    pub fn track_index(&self) -> (track: TrackIndex)
        ensures
            track == self@.track,
    {
        self.track
    }

    /// The state of the instance.
    pub fn state(&self) -> (state: PlaybackState)
        ensures
            state == self@.playback.state,
    {
        self.playback.state()
    }

    /// The position of the instance, in microseconds.
    pub fn position(&self) -> (position: i64)
        ensures
            position == self@.playback.position,
    {
        self.playback.position()
    }

    /// Whether the instance has stopped and can be removed.
    pub fn finished(&self) -> (finished: bool)
        ensures
            finished == (self@.playback.state is Stopped),
    {
        match self.playback.state() {
            PlaybackState::Stopped => true,
            _ => false,
        }
    }

    /// Pauses the instance, and publishes its state.
    pub fn pause(&mut self, settings: PauseInstanceSettings)
        ensures
            final(self)@ == old(self)@.pause(settings),
            final(self).cell() == old(self).cell(),
    {
        self.playback.pause(fade_of(settings.fade_tween));
        self.shared.publish(self.playback.state(), self.playback.position());
    }

    /// Resumes the instance, and publishes its state.
    pub fn resume(&mut self, settings: ResumeInstanceSettings)
        ensures
            final(self)@ == old(self)@.resume(settings),
            final(self).cell() == old(self).cell(),
    {
        self.playback.resume(fade_of(settings.fade_tween));
        self.shared.publish(self.playback.state(), self.playback.position());
    }

    /// Stops the instance, and publishes its state.
    pub fn stop(&mut self, settings: StopInstanceSettings)
        ensures
            final(self)@ == old(self)@.stop(settings),
            final(self).cell() == old(self).cell(),
    {
        self.playback.stop(fade_of(settings.fade_tween));
        self.shared.publish(self.playback.state(), self.playback.position());
    }

    fn wrap(&mut self)
        ensures
            final(self)@ == old(self)@.wrap(),
            final(self).cell() == old(self).cell(),
    {
        let advances: bool = match self.playback.state() {
            PlaybackState::Playing | PlaybackState::Pausing | PlaybackState::Stopping => true,
            _ => false,
        };
        if !advances {
            return ;
        }
        let position: i128 = self.playback.position() as i128;
        let duration: i128 = self.duration as i128;
        let reverse: bool = self.playback.reverse() != (self.playback.playback_rate() < 0);
        let ran_out: bool = if reverse {
            match self.loop_start {
                Some(start) => position < start as i128,
                None => position < 0,
            }
        } else {
            position > duration
        };
        if !ran_out {
            return ;
        }
        match self.loop_start {
            Some(start) if start < self.duration => {
                let span: u128 = (duration - start as i128) as u128;
                let target: i128 = if reverse {
                    let over: u128 = (start as i128 - position) as u128;
                    duration - (over % span) as i128
                } else {
                    let over: u128 = (position - duration) as u128;
                    start as i128 + (over % span) as i128
                };
                self.playback.seek_to(target as i64);
            },
            _ => {
                self.playback.stop(fade_of(None));
            },
        }
    }

    /// Lets `dt` microseconds pass, and publishes the state reached.
    pub fn update(&mut self, dt: u64)
        ensures
            final(self)@ == old(self)@.update(dt as nat),
            final(self).cell() == old(self).cell(),
    {
        self.playback.update(dt);
        self.wrap();
        self.shared.publish(self.playback.state(), self.playback.position());
    }
}

/// The control side's view of an instance: it reads what the instance
/// publishes, and sends by the channel of the handle that played it.
pub struct InstanceHandle {
    id: InstanceId,
    shared: Arc<PlaybackShared>,
    command_sender: SharedProducer,
}

impl Clone for InstanceHandle {
    /// Another handle to the same instance, on the same channel.
    fn clone(&self) -> (other: InstanceHandle)
        ensures
            other.id_spec() == self.id_spec(),
            other.cell() == self.cell(),
            other.channel() == self.channel(),
            other.before() == self.before(),
            other.after() == self.after(),
    {
        InstanceHandle {
            id: self.id,
            shared: share(&self.shared),
            command_sender: self.command_sender.share(),
        }
    }
}

impl InstanceHandle {
    /// The state that the handle reads: the one that its instance publishes
    /// into.
    pub closed spec fn cell(&self) -> Arc<PlaybackShared> {
        self.shared
    }

    /// The sending end that the handle shares with the handle of its sound.
    pub closed spec fn channel(&self) -> Arc<Mutex<CommandProducer>> {
        self.command_sender.channel()
    }

    /// What the channel had sent right before the last command of this
    /// handle.
    pub closed spec fn before(&self) -> Seq<Command> {
        self.command_sender.before()
    }

    /// What the channel had sent right after the last command of this
    /// handle.
    pub closed spec fn after(&self) -> Seq<Command> {
        self.command_sender.after()
    }

    /// A handle to the instance `id`, which publishes its state in `shared`
    /// and is reached by `command_sender`.
    pub fn new(id: InstanceId, shared: Arc<PlaybackShared>, command_sender: SharedProducer) -> (handle:
        InstanceHandle)
        ensures
            handle.id_spec() == id,
            handle.cell() == shared,
            handle.channel() == command_sender.channel(),
            handle.before() == command_sender.before(),
            handle.after() == command_sender.after(),
    {
        InstanceHandle { id, shared, command_sender }
    }

    /// The identifier of the instance.
    pub closed spec fn id_spec(&self) -> InstanceId {
        self.id
    }

    /// The identifier of the instance.
    pub fn id(&self) -> (id: InstanceId)
        ensures
            id == self.id_spec(),
    {
        self.id
    }

    /// The state that the instance last published.
    pub fn state(&self) -> PlaybackState {
        self.shared.state()
    }

    /// The position that the instance last published, in microseconds.
    pub fn position(&self) -> i64 {
        self.shared.position()
    }

    /// Asks for the instance to pause.
    pub fn pause(&mut self, settings: PauseInstanceSettings) -> (sent: Result<(), CommandQueueFull>)
        ensures
            final(self).id_spec() == old(self).id_spec(),
            final(self).cell() == old(self).cell(),
            final(self).channel() == old(self).channel(),
            final(self).after() == sent_after(
                final(self).before(),
                Command::Instance(InstanceCommand::PauseInstance(old(self).id_spec(), settings)),
                sent,
            ),
    {
        self.command_sender.push(Command::from(InstanceCommand::PauseInstance(self.id, settings)))
    }

    /// Asks for the instance to resume.
    pub fn resume(&mut self, settings: ResumeInstanceSettings) -> (sent: Result<
        (),
        CommandQueueFull,
    >)
        ensures
            final(self).id_spec() == old(self).id_spec(),
            final(self).cell() == old(self).cell(),
            final(self).channel() == old(self).channel(),
            final(self).after() == sent_after(
                final(self).before(),
                Command::Instance(InstanceCommand::ResumeInstance(old(self).id_spec(), settings)),
                sent,
            ),
    {
        self.command_sender.push(Command::from(InstanceCommand::ResumeInstance(self.id, settings)))
    }

    /// Asks for the instance to stop.
    pub fn stop(&mut self, settings: StopInstanceSettings) -> (sent: Result<(), CommandQueueFull>)
        ensures
            final(self).id_spec() == old(self).id_spec(),
            final(self).cell() == old(self).cell(),
            final(self).channel() == old(self).channel(),
            final(self).after() == sent_after(
                final(self).before(),
                Command::Instance(InstanceCommand::StopInstance(old(self).id_spec(), settings)),
                sent,
            ),
    {
        self.command_sender.push(Command::from(InstanceCommand::StopInstance(self.id, settings)))
    }
}

} // verus!
