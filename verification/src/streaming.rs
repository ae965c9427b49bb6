//! Streaming sounds: audio that is decoded while it plays.
//!
//! A decoder fills a bounded buffer of frames; the render side empties it,
//! one frame for each moment of output, and obeys the commands of the
//! handle. A seek empties the buffer and has the decoder start over, so the
//! output is silent until the decoder has caught up.

use crate::channel::{sent_after, CommandConsumer, CommandProducer, CommandQueue};
use crate::command::{Command, CommandQueueFull};
use crate::fixed::ONE;
use crate::frame::Frame;
use crate::playback::{
    instant, instant_tween, Playback, PlaybackModel, PlaybackShared, PlaybackState,
};
use crate::sync::share;
use crate::tween::Tween;
use crate::value::Value;
use std::collections::VecDeque;
use std::sync::Arc;
use vstd::prelude::*;

verus! {

/// A source of audio that is decoded piece by piece.
///
/// Nothing is asked of an implementation but that each call returns; what a
/// streaming sound does is specified for every answer.
pub trait Decoder: Send + Sync {
    /// The number of frames in a second of the audio.
    fn sample_rate(&mut self) -> u32;

    /// The next frames of the audio, or nothing at its end.
    fn decode(&mut self) -> Option<VecDeque<Frame>>;

    /// Goes back to the start of the audio.
    fn reset(&mut self);
}

/// Allows you to control a streaming sound. Once the sound is removed, every
/// command is refused as if the queue were full.
pub struct StreamingSoundHandle {
    pub(crate) shared: Arc<PlaybackShared>,
    pub(crate) command_producer: CommandProducer,
}

impl StreamingSoundHandle {
    /// The state that the handle reads: the one that its sound publishes
    /// into.
    pub closed spec fn cell(&self) -> Arc<PlaybackShared> {
        self.shared
    }

    /// The commands that the handle has sent, oldest first.
    pub closed spec fn sent(&self) -> Seq<Command> {
        self.command_producer.sent()
    }

    /// The position that the sound last published, in microseconds.
    pub fn position(&self) -> i64 {
        self.shared.position()
    }

    /// The state that the sound last published.
    pub fn state(&self) -> PlaybackState {
        self.shared.state()
    }

    /// Asks for the volume to be set.
    pub fn set_volume(&mut self, volume: Value) -> (sent: Result<(), CommandQueueFull>)
        ensures
            final(self).cell() == old(self).cell(),
            final(self).sent() == sent_after(old(self).sent(), Command::SetVolume(volume), sent),
    {
        self.command_producer.push(Command::SetVolume(volume))
    }

    /// Asks for the playback rate to be set.
    pub fn set_playback_rate(&mut self, playback_rate: Value) -> (sent: Result<
        (),
        CommandQueueFull,
    >)
        ensures
            final(self).cell() == old(self).cell(),
            final(self).sent() == sent_after(
                old(self).sent(),
                Command::SetPlaybackRate(playback_rate),
                sent,
            ),
    {
        self.command_producer.push(Command::SetPlaybackRate(playback_rate))
    }

    /// Asks for the panning to be set.
    pub fn set_panning(&mut self, panning: Value) -> (sent: Result<(), CommandQueueFull>)
        ensures
            final(self).cell() == old(self).cell(),
            final(self).sent() == sent_after(old(self).sent(), Command::SetPanning(panning), sent),
    {
        self.command_producer.push(Command::SetPanning(panning))
    }

    /// Asks for the sound to fade out with `tween` and then pause.
    pub fn pause(&mut self, tween: Tween) -> (sent: Result<(), CommandQueueFull>)
        ensures
            final(self).cell() == old(self).cell(),
            final(self).sent() == sent_after(old(self).sent(), Command::Pause(tween), sent),
    {
        self.command_producer.push(Command::Pause(tween))
    }

    /// Asks for the sound to play again and fade in with `tween`.
    pub fn resume(&mut self, tween: Tween) -> (sent: Result<(), CommandQueueFull>)
        ensures
            final(self).cell() == old(self).cell(),
            final(self).sent() == sent_after(old(self).sent(), Command::Resume(tween), sent),
    {
        self.command_producer.push(Command::Resume(tween))
    }

    /// Asks for the sound to fade out with `tween` and then stop for good.
    pub fn stop(&mut self, tween: Tween) -> (sent: Result<(), CommandQueueFull>)
        ensures
            final(self).cell() == old(self).cell(),
            final(self).sent() == sent_after(old(self).sent(), Command::Stop(tween), sent),
    {
        self.command_producer.push(Command::Stop(tween))
    }

    /// Asks for the sound to go to `position`, in microseconds.
    pub fn seek_to(&mut self, position: i64) -> (sent: Result<(), CommandQueueFull>)
        ensures
            final(self).cell() == old(self).cell(),
            final(self).sent() == sent_after(old(self).sent(), Command::SeekTo(position), sent),
    {
        self.command_producer.push(Command::SeekTo(position))
    }

    /// Asks for the sound to go on by `amount` microseconds.
    pub fn seek_by(&mut self, amount: i64) -> (sent: Result<(), CommandQueueFull>)
        ensures
            final(self).cell() == old(self).cell(),
            final(self).sent() == sent_after(old(self).sent(), Command::SeekBy(amount), sent),
    {
        self.command_producer.push(Command::SeekBy(amount))
    }
}

/// The frame of the audio that is played at `position` microseconds, at
/// `sample_rate` frames a second. Before the start there is only the first.
pub open spec fn frame_at(position: int, sample_rate: u32) -> nat {
    if position <= 0 {
        0
    } else {
        ((position * sample_rate) / (ONE as int)) as nat
    }
}

/// What a streaming sound is.
pub struct StreamModel {
    pub playback: PlaybackModel,
    /// The number of frames in a second of the audio.
    pub sample_rate: u32,
    /// The decoded frames that wait to be played, the next one first.
    pub buffer: Seq<Frame>,
    /// The number of frames that the buffer has room for.
    pub capacity: nat,
    /// The decoded frames that found no room in the buffer yet.
    pub backlog: Seq<Frame>,
    /// The frame at which the decoder is to start over, after a seek that it
    /// has not obeyed yet.
    pub seek: Option<nat>,
    /// The number of frames that the decoder has yet to pass over to come to
    /// where the sound went.
    pub skip: nat,
    /// Whether the decoder has come to the end of the audio.
    pub exhausted: bool,
}

impl StreamModel {
    /// The buffer never holds more than its capacity.
    pub open spec fn wf(self) -> bool {
        &&& self.buffer.len() <= self.capacity
        &&& i64::MIN <= self.playback.position <= i64::MAX
    }

    /// After a seek nothing of what was decoded is of use: the buffer is
    /// empty, and the decoder has to start over and come to the frame at
    /// the new position.
    pub open spec fn sought(self) -> StreamModel {
        StreamModel {
            buffer: Seq::empty(),
            backlog: Seq::empty(),
            seek: Some(frame_at(self.playback.position, self.sample_rate)),
            skip: 0,
            exhausted: false,
            ..self
        }
    }

    /// The sound after it has obeyed a command.
    pub open spec fn on_command(self, command: Command) -> StreamModel {
        match command {
            Command::SetVolume(volume) => StreamModel {
                playback: self.playback.set_volume(volume),
                ..self
            },
            Command::SetPlaybackRate(rate) => StreamModel {
                playback: self.playback.set_playback_rate(rate),
                ..self
            },
            Command::SetPanning(panning) => StreamModel {
                playback: self.playback.set_panning(panning),
                ..self
            },
            Command::Pause(tween) => StreamModel { playback: self.playback.pause(tween), ..self },
            Command::Resume(tween) => StreamModel { playback: self.playback.resume(tween), ..self },
            Command::Stop(tween) => StreamModel { playback: self.playback.stop(tween), ..self },
            Command::SeekTo(position) => StreamModel {
                playback: self.playback.seek_to(position as int),
                ..self
            }.sought(),
            Command::SeekBy(amount) => StreamModel {
                playback: self.playback.seek_by(amount as int),
                ..self
            }.sought(),
            Command::Instance(_) => self,
            Command::Clock(_) => self,
        }
    }

    /// The sound after it has obeyed each of the commands, in order.
    pub open spec fn on_commands(self, commands: Seq<Command>) -> StreamModel
        decreases commands.len(),
    {
        if commands.len() == 0 {
            self
        } else {
            self.on_commands(commands.drop_last()).on_command(commands.last())
        }
    }

    /// Whether the sound has nothing more to play: the decoder is at the end
    /// and nothing that it decoded is left.
    pub open spec fn ran_dry(self) -> bool {
        self.exhausted && self.seek is None && self.buffer.len() == 0 && self.backlog.len() == 0
    }

    /// What the sound puts out in a moment of `dt` microseconds: the next
    /// frame of the buffer at the gain and panning that the moment ends
    /// with, if the sound advances and there is a frame; else silence.
    pub open spec fn output(self, dt: nat) -> Frame {
        if self.playback.state.advances() && self.buffer.len() > 0 {
            self.buffer[0].scaled(self.playback.update(dt).gain()).panned(
                self.playback.update(dt).panning.value,
            )
        } else {
            Frame::silence()
        }
    }

    /// The sound after a moment of `dt` microseconds: playback moves on; a
    /// sound that advances has played the next frame of the buffer, or, if
    /// it ran dry, stops at once.
    pub open spec fn step(self, dt: nat) -> StreamModel {
        let playback = self.playback.update(dt);
        if self.playback.state.advances() {
            if self.buffer.len() > 0 {
                StreamModel { playback, buffer: self.buffer.drop_first(), ..self }
            } else if self.ran_dry() {
                StreamModel { playback: playback.stop(instant()), ..self }
            } else {
                StreamModel { playback, ..self }
            }
        } else {
            StreamModel { playback, ..self }
        }
    }

    /// The number of frames of the backlog that the buffer has room for.
    pub open spec fn room(self) -> nat {
        if self.buffer.len() >= self.capacity {
            0
        } else if self.backlog.len() <= self.capacity - self.buffer.len() {
            self.backlog.len()
        } else {
            (self.capacity - self.buffer.len()) as nat
        }
    }

    /// The sound once the backlog has gone into the buffer as far as there
    /// is room.
    pub open spec fn topped_up(self) -> StreamModel {
        StreamModel {
            buffer: self.buffer + self.backlog.take(self.room() as int),
            backlog: self.backlog.skip(self.room() as int),
            ..self
        }
    }

    /// The sound once the decoder has started over after a seek: it has to
    /// pass over the frames before the one that was sought.
    pub open spec fn started_over(self) -> StreamModel {
        match self.seek {
            Some(frame) => StreamModel { seek: None, skip: frame, ..self },
            None => self,
        }
    }

    /// Whether the decoder is to decode: not before it has started over
    /// after a seek, not at the end of the audio, and not while frames that
    /// it decoded wait for room.
    pub open spec fn wants_frames(self) -> bool {
        &&& self.seek is None
        &&& !self.exhausted
        &&& self.backlog.len() == 0
        &&& self.buffer.len() < self.capacity
    }

    /// The sound once it has what the decoder gave: nothing stands for the
    /// end of the audio; of frames, those that lie before the frame that was
    /// sought are passed over, and the others go to the buffer as far as
    /// there is room, and wait in the backlog beyond that.
    pub open spec fn accept(self, batch: Option<Seq<Frame>>) -> StreamModel {
        match batch {
            None => StreamModel { exhausted: true, ..self },
            Some(frames) => {
                let passed: nat = if self.skip <= frames.len() {
                    self.skip
                } else {
                    frames.len()
                };
                StreamModel {
                    backlog: self.backlog + frames.skip(passed as int),
                    skip: (self.skip - passed) as nat,
                    ..self
                }.topped_up()
            },
        }
    }
}

/// How a streaming sound is to play.
#[derive(Debug, Clone, Copy)]
pub struct StreamingSoundSettings {
    pub volume: Value,
    pub playback_rate: Value,
    pub panning: Value,
    /// The number of commands that the handle can send between two moments
    /// of output.
    pub command_capacity: usize,
    /// The number of decoded frames that are kept ahead of the output.
    pub frame_capacity: usize,
}

impl StreamModel {
    /// A streaming sound that starts to play from the start of its audio,
    /// with nothing decoded yet.
    pub open spec fn new(sample_rate: u32, settings: StreamingSoundSettings) -> StreamModel {
        StreamModel {
            playback: PlaybackModel::new(
                settings.volume.number(),
                settings.playback_rate.number(),
                settings.panning.number(),
                false,
                0,
                None,
            ),
            sample_rate,
            buffer: Seq::empty(),
            capacity: settings.frame_capacity as nat,
            backlog: Seq::empty(),
            seek: None,
            skip: 0,
            exhausted: false,
        }
    }

    /// The sound after the decoder side has had its turn and the decoder
    /// gave `batch`, if it was asked: the decoder starts over if a seek asks
    /// for it, the backlog goes into the buffer, and only if the sound then
    /// wants frames the decoder is asked.
    pub open spec fn pumped(self, batch: Option<Seq<Frame>>) -> StreamModel {
        let ready = self.started_over().topped_up();
        if ready.wants_frames() {
            ready.accept(batch)
        } else {
            ready
        }
    }
}

/// The frames of what a decoder gave.
pub open spec fn batch_view(batch: Option<VecDeque<Frame>>) -> Option<Seq<Frame>> {
    match batch {
        Some(frames) => Some(frames@),
        None => None,
    }
}

/// The render side of a streaming sound.
pub struct StreamingSound {
    commands: CommandConsumer,
    playback: Playback,
    shared: Arc<PlaybackShared>,
    sample_rate: u32,
    buffer: VecDeque<Frame>,
    capacity: usize,
    backlog: VecDeque<Frame>,
    seek: Option<u128>,
    skip: u128,
    exhausted: bool,
}

impl View for StreamingSound {
    type V = StreamModel;

    closed spec fn view(&self) -> StreamModel {
        StreamModel {
            playback: self.playback@,
            sample_rate: self.sample_rate,
            buffer: self.buffer@,
            capacity: self.capacity as nat,
            backlog: self.backlog@,
            seek: match self.seek {
                Some(frame) => Some(frame as nat),
                None => None,
            },
            skip: self.skip as nat,
            exhausted: self.exhausted,
        }
    }
}

impl StreamingSound {
    /// The state that the sound publishes into, which it owns jointly with
    /// its handle.
    pub closed spec fn cell(&self) -> Arc<PlaybackShared> {
        self.shared
    }

    /// The commands that the sound has taken from its handle, oldest first.
    pub closed spec fn taken(&self) -> Seq<Command> {
        self.commands.taken()
    }

    /// The number of commands that the sound takes in one moment at most.
    pub closed spec fn command_limit(&self) -> nat {
        self.commands.limit()
    }

    /// The buffer holds no more than its capacity.
    pub open spec fn wf(&self) -> bool {
        self@.wf()
    }

    /// A streaming sound for audio of `sample_rate` frames a second, and the
    /// handle that controls it.
    pub fn new(sample_rate: u32, settings: StreamingSoundSettings) -> (made: (
        StreamingSound,
        StreamingSoundHandle,
    ))
        requires
            settings.command_capacity < usize::MAX,
        ensures
            made.0.wf(),
            made.0@ == StreamModel::new(sample_rate, settings),
            made.0.taken() == Seq::<Command>::empty(),
            made.0.command_limit() == settings.command_capacity,
            made.0.cell() == made.1.cell(),
            made.1.sent() == Seq::<Command>::empty(),
    {
        let (command_producer, commands) = CommandQueue::new(settings.command_capacity).split();
        let shared = Arc::new(PlaybackShared::new(0));
        let handle = StreamingSoundHandle { shared: share(&shared), command_producer };
        let sound = StreamingSound {
            commands,
            playback: Playback::new(
                settings.volume,
                settings.playback_rate,
                settings.panning,
                false,
                0,
                None,
            ),
            shared,
            sample_rate,
            buffer: VecDeque::with_capacity(settings.frame_capacity),
            capacity: settings.frame_capacity,
            backlog: VecDeque::new(),
            seek: None,
            skip: 0,
            exhausted: false,
        };
        (sound, handle)
    }

    /// A streaming sound for the audio of `decoder`, and its handle.
    pub fn for_decoder<D: Decoder>(decoder: &mut D, settings: StreamingSoundSettings) -> (made: (
        StreamingSound,
        StreamingSoundHandle,
    ))
        requires
            settings.command_capacity < usize::MAX,
        ensures
            made.0.wf(),
            made.0@ == StreamModel::new(made.0@.sample_rate, settings),
            made.0.taken() == Seq::<Command>::empty(),
            made.0.command_limit() == settings.command_capacity,
            made.0.cell() == made.1.cell(),
            made.1.sent() == Seq::<Command>::empty(),
    {
        let sample_rate: u32 = decoder.sample_rate();
        StreamingSound::new(sample_rate, settings)
    }

    /// The state of the sound.
    pub fn state(&self) -> (state: PlaybackState)
        ensures
            state == self@.playback.state,
    {
        self.playback.state()
    }

    /// The position of the sound, in microseconds.
    pub fn position(&self) -> (position: i64)
        ensures
            position == self@.playback.position,
    {
        self.playback.position()
    }

    /// The number of decoded frames that wait to be played.
    pub fn buffered(&self) -> (n: usize)
        ensures
            n == self@.buffer.len(),
    {
        self.buffer.len()
    }

    /// Whether the sound has stopped and can be removed.
    pub fn finished(&self) -> (finished: bool)
        ensures
            finished == (self@.playback.state is Stopped),
    {
        match self.playback.state() {
            PlaybackState::Stopped => true,
            _ => false,
        }
    }

    fn seek_here(&mut self)
        ensures
            final(self)@ == old(self)@.sought(),
            final(self).commands == old(self).commands,
            final(self).shared == old(self).shared,
    {
        let position: i64 = self.playback.position();
        let frame: u128 = if position <= 0 {
            0
        } else {
            assert(position * self.sample_rate <= 0x7fff_ffff_ffff_ffff * 0xffff_ffff)
                by (nonlinear_arith)
                requires
                    0 < position <= 0x7fff_ffff_ffff_ffff,
                    0 <= self.sample_rate <= 0xffff_ffff,
            ;
            (position as u128) * (self.sample_rate as u128) / (ONE as u128)
        };
        self.buffer.clear();
        self.backlog.clear();
        self.seek = Some(frame);
        self.skip = 0;
        self.exhausted = false;
    }

    /// Obeys one command.
    pub fn on_command(&mut self, command: Command)
        ensures
            final(self)@ == old(self)@.on_command(command),
            final(self).taken() == old(self).taken(),
            final(self).command_limit() == old(self).command_limit(),
            final(self).cell() == old(self).cell(),
            old(self).wf() ==> final(self).wf(),
    {
        match command {
            Command::SetVolume(volume) => {
                self.playback.set_volume(volume);
            },
            Command::SetPlaybackRate(rate) => {
                self.playback.set_playback_rate(rate);
            },
            Command::SetPanning(panning) => {
                self.playback.set_panning(panning);
            },
            Command::Pause(tween) => {
                self.playback.pause(tween);
            },
            Command::Resume(tween) => {
                self.playback.resume(tween);
            },
            Command::Stop(tween) => {
                self.playback.stop(tween);
            },
            Command::SeekTo(position) => {
                self.playback.seek_to(position);
                self.seek_here();
            },
            Command::SeekBy(amount) => {
                self.playback.seek_by(amount);
                self.seek_here();
            },
            Command::Instance(_) => {},
            Command::Clock(_) => {},
        }
    }

    fn drain(&mut self)
        ensures
            old(self).wf() ==> final(self).wf(),
            final(self).command_limit() == old(self).command_limit(),
            final(self).cell() == old(self).cell(),
            crate::channel::is_prefix(old(self).taken(), final(self).taken()),
            final(self).taken().len() - old(self).taken().len() <= old(self).command_limit(),
            final(self)@ == old(self)@.on_commands(
                final(self).taken().skip(old(self).taken().len() as int),
            ),
    {
        let limit: usize = self.commands.capacity();
        let ghost before = self@;
        let ghost start = self.commands.taken();
        let mut i: usize = 0;
        let mut open: bool = true;
        assert(start.skip(start.len() as int) =~= Seq::<Command>::empty());
        assert(start =~= start.subrange(0, start.len() as int));
        while open && i < limit
            invariant
                i <= limit,
                limit == self.commands.limit(),
                self.cell() == old(self).cell(),
                old(self).wf() ==> self.wf(),
                crate::channel::is_prefix(start, self.commands.taken()),
                self.commands.taken().len() == start.len() + i,
                self@ == before.on_commands(self.commands.taken().skip(start.len() as int)),
            decreases limit - i + if open { 1int } else { 0int },
        {
            let ghost taken = self.commands.taken();
            match self.commands.pop() {
                Some(command) => {
                    self.on_command(command);
                    i = i + 1;
                    proof {
                        let now = taken.push(command);
                        assert(now.skip(start.len() as int).drop_last() =~= taken.skip(
                            start.len() as int,
                        ));
                        assert(now.skip(start.len() as int).last() == command);
                        assert(start =~= now.subrange(0, start.len() as int));
                    }
                },
                None => {
                    open = false;
                },
            }
        }
    }

    /// Produces one moment of output, `dt` microseconds long: the sound
    /// first obeys the commands that wait, oldest first and no more than the
    /// command queue has room for, then moves on, and publishes its state.
    pub fn process(&mut self, dt: u64) -> (out: Frame)
        ensures
            old(self).wf() ==> final(self).wf(),
            final(self).command_limit() == old(self).command_limit(),
            final(self).cell() == old(self).cell(),
            crate::channel::is_prefix(old(self).taken(), final(self).taken()),
            final(self).taken().len() - old(self).taken().len() <= old(self).command_limit(),
            final(self)@ == old(self)@.on_commands(
                final(self).taken().skip(old(self).taken().len() as int),
            ).step(dt as nat),
            out == old(self)@.on_commands(
                final(self).taken().skip(old(self).taken().len() as int),
            ).output(dt as nat),
    {
        self.drain();
        let advances: bool = match self.playback.state() {
            PlaybackState::Playing | PlaybackState::Pausing | PlaybackState::Stopping => true,
            _ => false,
        };
        self.playback.update(dt);
        let mut out: Frame = Frame::zero();
        if advances {
            match self.buffer.pop_front() {
                Some(frame) => {
                    out = frame.scale(self.playback.gain()).pan(self.playback.panning());
                },
                None => {
                    if self.exhausted && self.seek.is_none() && self.backlog.len() == 0 {
                        self.playback.stop(instant_tween());
                    }
                },
            }
        }
        self.shared.publish(self.playback.state(), self.playback.position());
        out
    }

    fn top_up(&mut self)
        ensures
            old(self).wf() ==> final(self).wf(),
            final(self)@ == old(self)@.topped_up(),
            final(self).commands == old(self).commands,
            final(self).shared == old(self).shared,
    {
        let ghost before = self@;
        let ghost moved: int = 0;
        while self.buffer.len() < self.capacity && self.backlog.len() > 0
            invariant
                0 <= moved <= before.backlog.len(),
                self.buffer@ == before.buffer + before.backlog.take(moved),
                self.backlog@ == before.backlog.skip(moved),
                before.buffer.len() >= before.capacity ==> moved == 0,
                before.buffer.len() < before.capacity ==> self.buffer@.len() <= self.capacity,
                self@ == (StreamModel { buffer: self.buffer@, backlog: self.backlog@, ..before }),
                self.commands == old(self).commands,
                self.shared == old(self).shared,
            decreases self.backlog@.len(),
        {
            let frame = self.backlog.pop_front().unwrap();
            self.buffer.push_back(frame);
            proof {
                assert(before.backlog.take(moved).push(frame) =~= before.backlog.take(moved + 1));
                assert(before.backlog.skip(moved).drop_first() =~= before.backlog.skip(moved + 1));
                moved = moved + 1;
            }
        }
        proof {
            assert(moved == before.room());
        }
    }

    /// Takes in what the decoder gave.
    pub fn accept(&mut self, batch: Option<VecDeque<Frame>>)
        ensures
            old(self).wf() ==> final(self).wf(),
            final(self)@ == old(self)@.accept(batch_view(batch)),
            final(self).taken() == old(self).taken(),
            final(self).command_limit() == old(self).command_limit(),
            final(self).cell() == old(self).cell(),
    {
        match batch {
            None => {
                self.exhausted = true;
            },
            Some(frames) => {
                let ghost before = self@;
                let n: usize = frames.len();
                let mut i: usize = 0;
                while i < n
                    invariant
                        i <= n,
                        n == frames@.len(),
                        self.skip == before.skip - if before.skip <= i {
                            before.skip
                        } else {
                            i as nat
                        },
                        self.backlog@ == before.backlog + frames@.subrange(
                            if before.skip <= i {
                                before.skip as int
                            } else {
                                i as int
                            },
                            i as int,
                        ),
                        self@ == (StreamModel {
                            backlog: self.backlog@,
                            skip: self.skip as nat,
                            ..before
                        }),
                        self.commands == old(self).commands,
                self.shared == old(self).shared,
                    decreases n - i,
                {
                    if self.skip > 0 {
                        self.skip = self.skip - 1;
                        proof {
                            assert(frames@.subrange(i as int + 1, i as int + 1) =~= frames@.subrange(
                                i as int,
                                i as int,
                            ));
                        }
                    } else {
                        let frame: Frame = frames[i];
                        self.backlog.push_back(frame);
                        proof {
                            assert(frames@.subrange(before.skip as int, i as int).push(frame)
                                =~= frames@.subrange(before.skip as int, i as int + 1));
                        }
                    }
                    i = i + 1;
                }
                proof {
                    let passed: int = if before.skip <= n {
                        before.skip as int
                    } else {
                        n as int
                    };
                    assert(frames@.subrange(passed, n as int) =~= frames@.skip(passed));
                }
                self.top_up();
            },
        }
    }

    /// Gives the decoder side its turn: the decoder starts over if a seek
    /// asks for it, and is asked for frames, once, if the sound wants any.
    pub fn pump<D: Decoder>(&mut self, decoder: &mut D)
        ensures
            old(self).wf() ==> final(self).wf(),
            final(self).taken() == old(self).taken(),
            final(self).command_limit() == old(self).command_limit(),
            final(self).cell() == old(self).cell(),
            exists|batch: Option<Seq<Frame>>| final(self)@ == old(self)@.pumped(batch),
    {
        match self.seek {
            Some(frame) => {
                decoder.reset();
                self.seek = None;
                self.skip = frame;
            },
            None => {},
        }
        self.top_up();
        let wants: bool = !self.exhausted && self.backlog.len() == 0 && self.buffer.len()
            < self.capacity;
        if wants {
            let batch = decoder.decode();
            self.accept(batch);
            assert(self@ == old(self)@.pumped(batch_view(batch)));
        } else {
            assert(self@ == old(self)@.pumped(None));
        }
    }
}

/// A seek, to a position or by an amount, throws away all that was decoded:
/// until the decoder side has had its turn the sound puts out silence, and
/// the decoder is to start over at the frame of the position that the sound
/// went to.
pub proof fn law_seek_empties_the_buffer(s: StreamModel, command: Command, dt: nat)
    requires
        command is SeekTo || command is SeekBy,
    ensures
        s.on_command(command).buffer.len() == 0,
        s.on_command(command).backlog.len() == 0,
        s.on_command(command).output(dt) == Frame::silence(),
        s.on_command(command).seek == Some(
            frame_at(s.on_command(command).playback.position, s.sample_rate),
        ),
        !s.on_command(command).wants_frames(),
{
}

/// After a seek the first frame that is played is the one that the decoder,
/// having started over, gives for the position that the sound went to: of
/// the frames `frames` that it gives first, the sound passes over those
/// before that position and plays on from there.
pub proof fn law_seek_plays_from_where_the_decoder_starts_over(
    s: StreamModel,
    command: Command,
    frames: Seq<Frame>,
    dt: nat,
)
    requires
        command is SeekTo || command is SeekBy,
        s.capacity > 0,
        frame_at(s.on_command(command).playback.position, s.sample_rate) < frames.len(),
    ensures
        ({
            let target = frame_at(s.on_command(command).playback.position, s.sample_rate);
            let ready = s.on_command(command).pumped(Some(frames));
            &&& ready.buffer.len() > 0
            &&& ready.buffer[0] == frames[target as int]
            &&& ready.wf()
            &&& ready.playback.state.advances() ==> ready.step(dt).buffer == ready.buffer.drop_first()
        }),
{
    let sought = s.on_command(command);
    let target = frame_at(sought.playback.position, s.sample_rate);
    let started = sought.started_over();
    assert(started.topped_up().buffer =~= Seq::<Frame>::empty());
    assert(started.topped_up().backlog =~= Seq::<Frame>::empty());
    let ready = started.topped_up();
    assert(ready.wants_frames());
    let given = StreamModel {
        backlog: ready.backlog + frames.skip(target as int),
        skip: 0,
        ..ready
    };
    assert(ready.accept(Some(frames)) == given.topped_up());
    assert(given.backlog =~= frames.skip(target as int));
    assert(given.room() > 0);
    assert(given.topped_up().buffer[0] == frames[target as int]);
}

} // verus!
