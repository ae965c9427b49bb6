//! Commands sent from handles to the render side.

use crate::clock::ClockCommand;
use crate::instance::{
    Instance, InstanceId, PauseInstanceSettings, ResumeInstanceSettings, StopInstanceSettings,
};
use crate::sound::SoundId;
use crate::tween::Tween;
use crate::value::Value;
use vstd::prelude::*;
use vstd::std_specs::convert::FromSpecImpl;

verus! {

/// A request that concerns the instances of a sound.
#[derive(Debug, Clone)]
pub enum InstanceCommand {
    /// Start to play this instance, under this identifier.
    Play(InstanceId, Instance),
    /// Pause all instances of the sound.
    PauseInstancesOf(SoundId, PauseInstanceSettings),
    /// Resume all instances of the sound.
    ResumeInstancesOf(SoundId, ResumeInstanceSettings),
    /// Stop all instances of the sound.
    StopInstancesOf(SoundId, StopInstanceSettings),
    /// Pause the instance.
    PauseInstance(InstanceId, PauseInstanceSettings),
    /// Resume the instance.
    ResumeInstance(InstanceId, ResumeInstanceSettings),
    /// Stop the instance.
    StopInstance(InstanceId, StopInstanceSettings),
}

/// One request of a handle to the render side.
#[derive(Debug, Clone)]
pub enum Command {
    SetVolume(Value),
    SetPlaybackRate(Value),
    SetPanning(Value),
    /// Fade out with this tween, then pause.
    Pause(Tween),
    /// Play again and fade in with this tween.
    Resume(Tween),
    /// Fade out with this tween, then stop for good.
    Stop(Tween),
    /// Move to this position, in microseconds.
    SeekTo(i64),
    /// Move by this many microseconds.
    SeekBy(i64),
    /// A request that concerns the instances of a sound.
    Instance(InstanceCommand),
    /// A request to a clock.
    Clock(ClockCommand),
}

impl From<InstanceCommand> for Command {
    fn from(command: InstanceCommand) -> (wrapped: Command) {
        Command::Instance(command)
    }
}

impl From<ClockCommand> for Command {
    fn from(command: ClockCommand) -> (wrapped: Command) {
        Command::Clock(command)
    }
}

impl FromSpecImpl<ClockCommand> for Command {
    open spec fn obeys_from_spec() -> bool {
        true
    }

    open spec fn from_spec(command: ClockCommand) -> Command {
        Command::Clock(command)
    }
}

impl FromSpecImpl<InstanceCommand> for Command {
    open spec fn obeys_from_spec() -> bool {
        true
    }

    open spec fn from_spec(command: InstanceCommand) -> Command {
        Command::Instance(command)
    }
}

/// The failure of a handle whose command could not be queued.
#[derive(Debug, Clone, Copy, PartialEq, Eq, Hash)]
pub struct CommandQueueFull;

impl CommandQueueFull {
    /// The text shown for this error.
    pub fn message(&self) -> (text: String)
        ensures
            text@ == "Cannot send a command to the sound because the command queue is full"@,
    {
        String::from_str("Cannot send a command to the sound because the command queue is full")
    }
}

} // verus!
