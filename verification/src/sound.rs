//! Sounds and the interface for controlling them.

use crate::channel::{sent_after, CommandProducer, SharedProducer};
use crate::command::{Command, CommandQueueFull, InstanceCommand};
use crate::id::same_key;
use crate::instance::{
    Instance, InstanceHandle, InstanceId, InstanceModel, InstanceSettings, PauseInstanceSettings,
    ResumeInstanceSettings, StopInstanceSettings,
};
use crate::playback::PlaybackShared;
use crate::track::TrackIndex;
use atomic_arena::Key;
use std::sync::{Arc, Mutex};
use vstd::prelude::*;

verus! {

/// A unique identifier for a sound.
#[derive(Debug, Clone, Copy, PartialEq, Eq, Hash)]
pub struct SoundId(pub(crate) Key);

impl View for SoundId {
    type V = Key;

    /// The arena key that the identifier stands for.
    closed spec fn view(&self) -> Key {
        self.0
    }
}

impl SoundId {
    /// The identifier of the sound stored under `key`.
    pub fn new(key: Key) -> (id: SoundId)
        ensures
            id@ == key,
    {
        SoundId(key)
    }

    /// The arena key of the sound.
    pub fn key(&self) -> (key: Key)
        ensures
            key == self@,
    {
        self.0
    }

    /// Whether both identifiers name the same sound.
    pub fn is(&self, other: &SoundId) -> (same: bool)
        ensures
            same == (*self == *other),
    {
        same_key(&self.0, &other.0)
    }
}

/// What the engine knows about a piece of audio that can be played.
#[derive(Debug, Clone, Copy)]
pub struct Sound {
    pub id: SoundId,
    /// The length, in microseconds.
    pub duration: i64,
    pub default_track: TrackIndex,
    /// The musical length, if the sound has one.
    pub semantic_duration: Option<i64>,
    pub default_loop_start: Option<i64>,
}

impl Sound {
    /// A sound of the given length, in microseconds.
    pub fn new(
        id: SoundId,
        duration: i64,
        default_track: TrackIndex,
        semantic_duration: Option<i64>,
        default_loop_start: Option<i64>,
    ) -> (sound: Sound)
        ensures
            sound == (Sound { id, duration, default_track, semantic_duration, default_loop_start }),
    {
        Sound { id, duration, default_track, semantic_duration, default_loop_start }
    }

    /// The identifier of the sound.
    pub fn id(&self) -> (id: SoundId)
        ensures
            id == self.id,
    {
        self.id
    }

    /// The length of the sound, in microseconds.
    pub fn duration(&self) -> (duration: i64)
        ensures
            duration == self.duration,
    {
        self.duration
    }

    /// The track that instances of the sound play on unless told otherwise.
    pub fn default_track(&self) -> (track: TrackIndex)
        ensures
            track == self.default_track,
    {
        self.default_track
    }

    /// The musical length of the sound, if it has one.
    pub fn semantic_duration(&self) -> (duration: Option<i64>)
        ensures
            duration == self.semantic_duration,
    {
        self.semantic_duration
    }

    /// The position that instances of the sound go back to when they reach
    /// the end, if they loop.
    pub fn default_loop_start(&self) -> (start: Option<i64>)
        ensures
            start == self.default_loop_start,
    {
        self.default_loop_start
    }
}

/// Allows you to control a sound. Its clones and the handles of its
/// instances send by the same channel; once the render side has let go of
/// the channel, every command is refused as if the queue were full.
pub struct SoundHandle {
    id: SoundId,
    duration: i64,
    default_track: TrackIndex,
    semantic_duration: Option<i64>,
    default_loop_start: Option<i64>,
    command_sender: SharedProducer,
}

impl Clone for SoundHandle {
    /// Another handle to the same sound, on the same channel.
    fn clone(&self) -> (other: SoundHandle)
        ensures
            other.sound() == self.sound(),
            other.channel() == self.channel(),
            other.before() == self.before(),
            other.after() == self.after(),
    {
        SoundHandle {
            id: self.id,
            duration: self.duration,
            default_track: self.default_track,
            semantic_duration: self.semantic_duration,
            default_loop_start: self.default_loop_start,
            command_sender: self.command_sender.share(),
        }
    }
}

/// Whether `after` is `before` followed by the command to play, under the
/// identifier `id`, an instance that is `instance` and publishes its state
/// into `cell`.
pub open spec fn sent_play(
    before: Seq<Command>,
    after: Seq<Command>,
    id: InstanceId,
    instance: InstanceModel,
    cell: Arc<PlaybackShared>,
) -> bool {
    &&& after.len() == before.len() + 1
    &&& after.drop_last() == before
    &&& after.last() matches Command::Instance(InstanceCommand::Play(sent_id, sent_instance))
    &&& sent_id == id
    &&& sent_instance@ == instance
    &&& sent_instance.cell() == cell
}

impl SoundHandle {
    /// What the handle knows about its sound.
    pub closed spec fn sound(&self) -> Sound {
        Sound {
            id: self.id,
            duration: self.duration,
            default_track: self.default_track,
            semantic_duration: self.semantic_duration,
            default_loop_start: self.default_loop_start,
        }
    }

    /// The sending end that the handle shares with its clones and with the
    /// handles of its instances.
    pub closed spec fn channel(&self) -> Arc<Mutex<CommandProducer>> {
        self.command_sender.channel()
    }

    /// What the channel had sent, by this handle, its clones and the handles
    /// of its instances together, right before the last command of this
    /// handle.
    pub closed spec fn before(&self) -> Seq<Command> {
        self.command_sender.before()
    }

    /// What the channel had sent right after the last command of this
    /// handle.
    pub closed spec fn after(&self) -> Seq<Command> {
        self.command_sender.after()
    }

    /// The instance that `play` makes from `settings`.
    pub open spec fn instance_for(&self, settings: InstanceSettings) -> InstanceModel {
        InstanceModel::new(
            self.sound().id,
            self.sound().duration,
            settings.resolve(
                self.sound().duration,
                self.sound().default_loop_start,
                self.sound().default_track,
            ),
        )
    }

    /// A handle to `sound` that sends its commands by `command_sender`.
    pub fn new(sound: &Sound, command_sender: CommandProducer) -> (handle: SoundHandle)
        ensures
            handle.sound() == *sound,
            handle.before() == command_sender.sent(),
            handle.after() == command_sender.sent(),
    {
        Self {
            id: sound.id(),
            duration: sound.duration(),
            default_track: sound.default_track(),
            semantic_duration: sound.semantic_duration(),
            default_loop_start: sound.default_loop_start(),
            command_sender: SharedProducer::new(command_sender),
        }
    }

    /// Returns the ID of the sound.
    pub fn id(&self) -> (id: SoundId)
        ensures
            id == self.sound().id,
    {
        self.id
    }

    /// Returns the duration of the sound (in microseconds).
    pub fn duration(&self) -> (duration: i64)
        ensures
            duration == self.sound().duration,
    {
        self.duration
    }

    /// Returns the default track instances of this sound will play on.
    pub fn default_track(&self) -> (track: TrackIndex)
        ensures
            track == self.sound().default_track,
    {
        self.default_track
    }

    /// Returns the "musical length" of the sound (if there is one).
    pub fn semantic_duration(&self) -> (duration: Option<i64>)
        ensures
            duration == self.sound().semantic_duration,
    {
        self.semantic_duration
    }

    /// Returns the default time (in microseconds) instances of this sound
    /// will loop back to when they reach the end.
    pub fn default_loop_start(&self) -> (start: Option<i64>)
        ensures
            start == self.sound().default_loop_start,
    {
        self.default_loop_start
    }

    /// Plays the sound: makes an instance of it from `settings` and the
    /// defaults of the sound, and sends the command to play it; the handle
    /// returned reads the state that this instance publishes and sends by
    /// the same channel. If the command is refused, because the queue is
    /// full or the render side has let go of it, nothing is sent and no
    /// handle is returned.
    pub fn play(&mut self, settings: InstanceSettings) -> (played: Result<
        InstanceHandle,
        CommandQueueFull,
    >)
        ensures
            final(self).sound() == old(self).sound(),
            final(self).channel() == old(self).channel(),
            match played {
                Ok(handle) => handle.id_spec() == settings.id && handle.channel() == old(
                    self,
                ).channel() && sent_play(
                    final(self).before(),
                    final(self).after(),
                    settings.id,
                    old(self).instance_for(settings),
                    handle.cell(),
                ),
                Err(_) => final(self).after() == final(self).before(),
            },
    {
        let id = settings.id;
        let instance = Instance::new(
            self.id,
            self.duration,
            settings.into_internal(self.duration, self.default_loop_start, self.default_track),
        );
        let handle = InstanceHandle::new(
            id,
            instance.public_state(),
            self.command_sender.share(),
        );
        match self.command_sender.push(Command::from(InstanceCommand::Play(id, instance))) {
            Ok(()) => {
                assert(self.command_sender.after().drop_last() =~= self.command_sender.before());
                Ok(handle)
            },
            Err(full) => Err(full),
        }
    }

    /// Pauses all instances of this sound.
    pub fn pause(&mut self, settings: PauseInstanceSettings) -> (sent: Result<
        (),
        CommandQueueFull,
    >)
        ensures
            final(self).sound() == old(self).sound(),
            final(self).channel() == old(self).channel(),
            final(self).after() == sent_after(
                final(self).before(),
                Command::Instance(InstanceCommand::PauseInstancesOf(old(self).sound().id, settings)),
                sent,
            ),
    {
        self.command_sender.push(
            Command::from(InstanceCommand::PauseInstancesOf(self.id, settings)),
        )
    }

    /// Resumes all instances of this sound.
    pub fn resume(&mut self, settings: ResumeInstanceSettings) -> (sent: Result<
        (),
        CommandQueueFull,
    >)
        ensures
            final(self).sound() == old(self).sound(),
            final(self).channel() == old(self).channel(),
            final(self).after() == sent_after(
                final(self).before(),
                Command::Instance(
                    InstanceCommand::ResumeInstancesOf(old(self).sound().id, settings),
                ),
                sent,
            ),
    {
        self.command_sender.push(
            Command::from(InstanceCommand::ResumeInstancesOf(self.id, settings)),
        )
    }

    /// Stops all instances of this sound.
    pub fn stop(&mut self, settings: StopInstanceSettings) -> (sent: Result<(), CommandQueueFull>)
        ensures
            final(self).sound() == old(self).sound(),
            final(self).channel() == old(self).channel(),
            final(self).after() == sent_after(
                final(self).before(),
                Command::Instance(InstanceCommand::StopInstancesOf(old(self).sound().id, settings)),
                sent,
            ),
    {
        self.command_sender.push(
            Command::from(InstanceCommand::StopInstancesOf(self.id, settings)),
        )
    }
}

} // verus!
