//! The control side's view of a clock.

use super::{ClockCommand, ClockId, ClockShared, ClockSpeed};
use crate::channel::{sent_after, CommandProducer};
use crate::command::{Command, CommandQueueFull};
use crate::tween::Tween;
use std::sync::Arc;
use vstd::prelude::*;

verus! {

/// Allows you to control a clock. Once the clock is removed, every command
/// is refused as if the queue were full.
pub struct ClockHandle {
    id: ClockId,
    shared: Arc<ClockShared>,
    command_producer: CommandProducer,
}

impl ClockHandle {
    /// The identifier of the clock.
    pub closed spec fn clock(&self) -> ClockId {
        self.id
    }

    /// The state that the handle reads: the one that its clock publishes
    /// into.
    pub closed spec fn cell(&self) -> Arc<ClockShared> {
        self.shared
    }

    /// The commands that the handle has sent, oldest first.
    pub closed spec fn sent(&self) -> Seq<Command> {
        self.command_producer.sent()
    }

    /// A handle to the clock `id`, which publishes its state in `shared` and
    /// takes its commands from the other end of `command_producer`.
    pub fn new(id: ClockId, shared: Arc<ClockShared>, command_producer: CommandProducer) -> (handle:
        ClockHandle)
        ensures
            handle.clock() == id,
            handle.cell() == shared,
            handle.sent() == command_producer.sent(),
    {
        ClockHandle { id, shared, command_producer }
    }

    /// The identifier of the clock.
    pub fn id(&self) -> (id: ClockId)
        ensures
            id == self.clock(),
    {
        self.id
    }

    /// Whether the clock was ticking when it last published.
    pub fn ticking(&self) -> bool {
        self.shared.ticking()
    }

    /// The number of the last tick that the clock published.
    pub fn ticks(&self) -> u64 {
        self.shared.ticks()
    }

    /// Asks for the rate of the clock to move to `speed` with `tween`.
    pub fn set_speed(&mut self, speed: ClockSpeed, tween: Tween) -> (sent: Result<
        (),
        CommandQueueFull,
    >)
        ensures
            final(self).clock() == old(self).clock(),
            final(self).cell() == old(self).cell(),
            final(self).sent() == sent_after(
                old(self).sent(),
                Command::Clock(ClockCommand::SetSpeed(speed, tween)),
                sent,
            ),
    {
        self.command_producer.push(Command::from(ClockCommand::SetSpeed(speed, tween)))
    }

    /// Asks for the clock to start or resume.
    pub fn start(&mut self) -> (sent: Result<(), CommandQueueFull>)
        ensures
            final(self).clock() == old(self).clock(),
            final(self).cell() == old(self).cell(),
            final(self).sent() == sent_after(
                old(self).sent(),
                Command::Clock(ClockCommand::Start),
                sent,
            ),
    {
        self.command_producer.push(Command::from(ClockCommand::Start))
    }

    /// Asks for the clock to pause.
    pub fn pause(&mut self) -> (sent: Result<(), CommandQueueFull>)
        ensures
            final(self).clock() == old(self).clock(),
            final(self).cell() == old(self).cell(),
            final(self).sent() == sent_after(
                old(self).sent(),
                Command::Clock(ClockCommand::Pause),
                sent,
            ),
    {
        self.command_producer.push(Command::from(ClockCommand::Pause))
    }

    /// Asks for the clock to stop and forget its ticks.
    pub fn stop(&mut self) -> (sent: Result<(), CommandQueueFull>)
        ensures
            final(self).clock() == old(self).clock(),
            final(self).cell() == old(self).cell(),
            final(self).sent() == sent_after(
                old(self).sent(),
                Command::Clock(ClockCommand::Stop),
                sent,
            ),
    {
        self.command_producer.push(Command::from(ClockCommand::Stop))
    }

    /// Asks for the clock to be removed.
    pub fn mark_for_removal(&self) {
        self.shared.mark_for_removal();
    }
}

} // verus!
