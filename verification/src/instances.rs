//! The instances that play, on the render side.
//!
//! The handle of a sound sends instances to play and asks for all instances
//! of the sound to pause, resume or stop. The render side takes those
//! commands in, moves every instance on block by block, and lets go of the
//! instances that have stopped.

use crate::channel::{is_prefix, CommandConsumer};
use crate::command::{Command, InstanceCommand};
use crate::instance::{
    Instance, InstanceId, InstanceModel, PauseInstanceSettings, ResumeInstanceSettings,
    StopInstanceSettings,
};
use crate::sound::SoundId;
use vstd::prelude::*;

verus! {

/// An instance that plays, under its identifier.
pub struct PlayingModel {
    pub id: InstanceId,
    pub instance: InstanceModel,
}

/// The instances that a command is meant for.
#[derive(Debug, Clone, Copy)]
pub enum Target {
    /// All instances of the sound.
    AllOf(SoundId),
    /// The instance with the identifier.
    One(InstanceId),
}

impl PlayingModel {
    /// Whether the instance is one of those that `target` names.
    pub open spec fn is_meant(self, target: Target) -> bool {
        match target {
            Target::AllOf(sound) => self.instance.sound == sound,
            Target::One(id) => self.id == id,
        }
    }
}

/// The instances of `playing` that have not stopped, in their order.
pub open spec fn without_stopped(playing: Seq<PlayingModel>) -> Seq<PlayingModel>
    decreases playing.len(),
{
    if playing.len() == 0 {
        Seq::empty()
    } else if playing[0].instance.playback.state is Stopped {
        without_stopped(playing.drop_first())
    } else {
        seq![playing[0]] + without_stopped(playing.drop_first())
    }
}

/// What the instances on the render side are: those that play, in the order
/// in which they began, and the number that there is room for.
pub struct InstancesModel {
    pub playing: Seq<PlayingModel>,
    pub capacity: nat,
}

impl InstancesModel {
    /// There are never more instances than there is room for.
    pub open spec fn wf(self) -> bool {
        self.playing.len() <= self.capacity
    }

    /// The instances after `change` has been made to each instance that
    /// `target` names.
    pub open spec fn each_of(
        self,
        target: Target,
        change: spec_fn(InstanceModel) -> InstanceModel,
    ) -> InstancesModel {
        InstancesModel {
            playing: Seq::new(
                self.playing.len(),
                |k: int|
                    if self.playing[k].is_meant(target) {
                        PlayingModel {
                            instance: change(self.playing[k].instance),
                            ..self.playing[k]
                        }
                    } else {
                        self.playing[k]
                    },
            ),
            ..self
        }
    }

    /// The instances after a command of the handle of a sound. An instance
    /// that is to play when there is no room for it is dropped.
    pub open spec fn on_instance_command(self, command: InstanceCommand) -> InstancesModel {
        match command {
            InstanceCommand::Play(id, instance) => if self.playing.len() < self.capacity {
                InstancesModel {
                    playing: self.playing.push(PlayingModel { id, instance: instance@ }),
                    ..self
                }
            } else {
                self
            },
            InstanceCommand::PauseInstancesOf(sound, settings) => self.each_of(
                Target::AllOf(sound),
                |i: InstanceModel| i.pause(settings),
            ),
            InstanceCommand::PauseInstance(id, settings) => self.each_of(
                Target::One(id),
                |i: InstanceModel| i.pause(settings),
            ),
            InstanceCommand::ResumeInstancesOf(sound, settings) => self.each_of(
                Target::AllOf(sound),
                |i: InstanceModel| i.resume(settings),
            ),
            InstanceCommand::ResumeInstance(id, settings) => self.each_of(
                Target::One(id),
                |i: InstanceModel| i.resume(settings),
            ),
            InstanceCommand::StopInstancesOf(sound, settings) => self.each_of(
                Target::AllOf(sound),
                |i: InstanceModel| i.stop(settings),
            ),
            InstanceCommand::StopInstance(id, settings) => self.each_of(
                Target::One(id),
                |i: InstanceModel| i.stop(settings),
            ),
        }
    }

    /// The instances after a command; commands that are not about instances
    /// change nothing.
    pub open spec fn on_command(self, command: Command) -> InstancesModel {
        match command {
            Command::Instance(command) => self.on_instance_command(command),
            _ => self,
        }
    }

    /// The instances after each of the commands, in order.
    pub open spec fn on_commands(self, commands: Seq<Command>) -> InstancesModel
        decreases commands.len(),
    {
        if commands.len() == 0 {
            self
        } else {
            self.on_commands(commands.drop_last()).on_command(commands.last())
        }
    }

    /// The instances after `dt` microseconds: each has moved on, and those
    /// that have stopped are gone.
    pub open spec fn update(self, dt: nat) -> InstancesModel {
        InstancesModel {
            playing: without_stopped(
                Seq::new(
                    self.playing.len(),
                    |k: int|
                        PlayingModel {
                            instance: self.playing[k].instance.update(dt),
                            ..self.playing[k]
                        },
                ),
            ),
            ..self
        }
    }
}

/// Letting go of the stopped instances leaves no more instances than there
/// were, and none that has stopped.
pub proof fn lemma_without_stopped(playing: Seq<PlayingModel>)
    ensures
        without_stopped(playing).len() <= playing.len(),
        forall|k: int|
            0 <= k < without_stopped(playing).len() ==> !((
            #[trigger] without_stopped(playing)[k]).instance.playback.state is Stopped),
    decreases playing.len(),
{
    if playing.len() > 0 {
        lemma_without_stopped(playing.drop_first());
    }
}

struct Playing {
    id: InstanceId,
    instance: Instance,
}

impl View for Playing {
    type V = PlayingModel;

    closed spec fn view(&self) -> PlayingModel {
        PlayingModel { id: self.id, instance: self.instance@ }
    }
}

/// The instances that play, and the end of the command queue by which the
/// handles of their sounds reach them.
pub struct Instances {
    playing: Vec<Playing>,
    capacity: usize,
    commands: CommandConsumer,
}

impl View for Instances {
    type V = InstancesModel;

    closed spec fn view(&self) -> InstancesModel {
        InstancesModel {
            playing: Seq::new(self.playing@.len(), |k: int| self.playing@[k]@),
            capacity: self.capacity as nat,
        }
    }
}

impl Instances {
    /// The commands that were taken from the handles, oldest first.
    pub closed spec fn taken(&self) -> Seq<Command> {
        self.commands.taken()
    }

    /// The number of commands that are taken in one block at most.
    pub closed spec fn command_limit(&self) -> nat {
        self.commands.limit()
    }

    /// There are never more instances than there is room for.
    pub open spec fn wf(&self) -> bool {
        self@.wf()
    }

    /// No instances yet, room for `capacity` of them, and commands from
    /// `commands`.
    pub fn new(capacity: usize, commands: CommandConsumer) -> (instances: Instances)
        ensures
            instances.wf(),
            instances@ == (InstancesModel { playing: Seq::empty(), capacity: capacity as nat }),
            instances.taken() == commands.taken(),
            instances.command_limit() == commands.limit(),
    {
        let instances = Instances { playing: Vec::with_capacity(capacity), capacity, commands };
        assert(instances@.playing =~= Seq::<PlayingModel>::empty());
        instances
    }

    /// The number of instances that play.
    pub fn len(&self) -> (n: usize)
        ensures
            n == self@.playing.len(),
    {
        self.playing.len()
    }

    /// The place of the instance `id` among those that play, if it does.
    pub fn find(&self, id: InstanceId) -> (place: Option<usize>)
        ensures
            match place {
                Some(k) => k < self@.playing.len() && self@.playing[k as int].id == id,
                None => forall|k: int|
                    0 <= k < self@.playing.len() ==> (#[trigger] self@.playing[k]).id != id,
            },
    {
        let mut k: usize = 0;
        while k < self.playing.len()
            invariant
                k <= self.playing@.len(),
                forall|j: int| 0 <= j < k ==> (#[trigger] self@.playing[j]).id != id,
            decreases self.playing@.len() - k,
        {
            if self.playing[k].id.is(&id) {
                return Some(k);
            }
            k = k + 1;
        }
        None
    }

    /// The instance at a place among those that play.
    pub fn get(&self, place: usize) -> (instance: &Instance)
        requires
            place < self@.playing.len(),
        ensures
            instance@ == self@.playing[place as int].instance,
    {
        &self.playing[place].instance
    }

    fn meant(&self, k: usize, target: Target) -> (meant: bool)
        requires
            k < self.playing@.len(),
        ensures
            meant == self.playing@[k as int]@.is_meant(target),
    {
        match target {
            Target::AllOf(sound) => self.playing[k].instance.sound().is(&sound),
            Target::One(id) => self.playing[k].id.is(&id),
        }
    }

    fn pause_all(&mut self, target: Target, settings: PauseInstanceSettings)
        ensures
            final(self)@ == old(self)@.each_of(target, |i: InstanceModel| i.pause(settings)),
            final(self).commands == old(self).commands,
    {
        let n: usize = self.playing.len();
        let mut k: usize = 0;
        while k < n
            invariant
                k <= n,
                n == self.playing@.len(),
                n == old(self).playing@.len(),
                self.capacity == old(self).capacity,
                self.commands == old(self).commands,
                forall|j: int|
                    0 <= j < k ==> (#[trigger] self.playing@[j])@ == old(self)@.each_of(
                        target,
                        |i: InstanceModel| i.pause(settings),
                    ).playing[j],
                forall|j: int| k <= j < n ==> self.playing@[j] == old(self).playing@[j],
            decreases n - k,
        {
            if self.meant(k, target) {
                self.playing[k].instance.pause(settings);
            }
            k = k + 1;
        }
        assert(self@.playing =~= old(self)@.each_of(
            target,
            |i: InstanceModel| i.pause(settings),
        ).playing);
    }

    fn resume_all(&mut self, target: Target, settings: ResumeInstanceSettings)
        ensures
            final(self)@ == old(self)@.each_of(target, |i: InstanceModel| i.resume(settings)),
            final(self).commands == old(self).commands,
    {
        let n: usize = self.playing.len();
        let mut k: usize = 0;
        while k < n
            invariant
                k <= n,
                n == self.playing@.len(),
                n == old(self).playing@.len(),
                self.capacity == old(self).capacity,
                self.commands == old(self).commands,
                forall|j: int|
                    0 <= j < k ==> (#[trigger] self.playing@[j])@ == old(self)@.each_of(
                        target,
                        |i: InstanceModel| i.resume(settings),
                    ).playing[j],
                forall|j: int| k <= j < n ==> self.playing@[j] == old(self).playing@[j],
            decreases n - k,
        {
            if self.meant(k, target) {
                self.playing[k].instance.resume(settings);
            }
            k = k + 1;
        }
        assert(self@.playing =~= old(self)@.each_of(
            target,
            |i: InstanceModel| i.resume(settings),
        ).playing);
    }

    fn stop_all(&mut self, target: Target, settings: StopInstanceSettings)
        ensures
            final(self)@ == old(self)@.each_of(target, |i: InstanceModel| i.stop(settings)),
            final(self).commands == old(self).commands,
    {
        let n: usize = self.playing.len();
        let mut k: usize = 0;
        while k < n
            invariant
                k <= n,
                n == self.playing@.len(),
                n == old(self).playing@.len(),
                self.capacity == old(self).capacity,
                self.commands == old(self).commands,
                forall|j: int|
                    0 <= j < k ==> (#[trigger] self.playing@[j])@ == old(self)@.each_of(
                        target,
                        |i: InstanceModel| i.stop(settings),
                    ).playing[j],
                forall|j: int| k <= j < n ==> self.playing@[j] == old(self).playing@[j],
            decreases n - k,
        {
            if self.meant(k, target) {
                self.playing[k].instance.stop(settings);
            }
            k = k + 1;
        }
        assert(self@.playing =~= old(self)@.each_of(
            target,
            |i: InstanceModel| i.stop(settings),
        ).playing);
    }

    /// Obeys one command.
    pub fn on_command(&mut self, command: Command)
        ensures
            final(self)@ == old(self)@.on_command(command),
            final(self).taken() == old(self).taken(),
            final(self).command_limit() == old(self).command_limit(),
            old(self).wf() ==> final(self).wf(),
    {
        match command {
            Command::Instance(InstanceCommand::Play(id, instance)) => {
                if self.playing.len() < self.capacity {
                    let ghost before = self@;
                    let ghost model = instance@;
                    self.playing.push(Playing { id, instance });
                    assert(self@.playing =~= before.playing.push(
                        PlayingModel { id, instance: model },
                    ));
                }
            },
            Command::Instance(InstanceCommand::PauseInstancesOf(sound, settings)) => {
                self.pause_all(Target::AllOf(sound), settings);
            },
            Command::Instance(InstanceCommand::PauseInstance(id, settings)) => {
                self.pause_all(Target::One(id), settings);
            },
            Command::Instance(InstanceCommand::ResumeInstancesOf(sound, settings)) => {
                self.resume_all(Target::AllOf(sound), settings);
            },
            Command::Instance(InstanceCommand::ResumeInstance(id, settings)) => {
                self.resume_all(Target::One(id), settings);
            },
            Command::Instance(InstanceCommand::StopInstancesOf(sound, settings)) => {
                self.stop_all(Target::AllOf(sound), settings);
            },
            Command::Instance(InstanceCommand::StopInstance(id, settings)) => {
                self.stop_all(Target::One(id), settings);
            },
            _ => {},
        }
    }

    /// Lets `dt` microseconds pass for every instance, and lets go of the
    /// instances that have stopped.
    pub fn update(&mut self, dt: u64)
        ensures
            final(self)@ == old(self)@.update(dt as nat),
            final(self).taken() == old(self).taken(),
            final(self).command_limit() == old(self).command_limit(),
            old(self).wf() ==> final(self).wf(),
    {
        let n: usize = self.playing.len();
        let ghost moved = Seq::new(
            old(self)@.playing.len(),
            |k: int|
                PlayingModel {
                    instance: old(self)@.playing[k].instance.update(dt as nat),
                    ..old(self)@.playing[k]
                },
        );
        let mut k: usize = 0;
        while k < n
            invariant
                k <= n,
                n == self.playing@.len(),
                n == old(self).playing@.len(),
                n == moved.len(),
                self.capacity == old(self).capacity,
                self.commands == old(self).commands,
                moved == Seq::new(
                    old(self)@.playing.len(),
                    |k: int|
                        PlayingModel {
                            instance: old(self)@.playing[k].instance.update(dt as nat),
                            ..old(self)@.playing[k]
                        },
                ),
                forall|j: int| 0 <= j < k ==> (#[trigger] self.playing@[j])@ == moved[j],
                forall|j: int| k <= j < n ==> self.playing@[j] == old(self).playing@[j],
            decreases n - k,
        {
            self.playing[k].instance.update(dt);
            k = k + 1;
        }
        let mut i: usize = n;
        assert(moved.skip(n as int) =~= Seq::<PlayingModel>::empty());
        assert(self@.playing =~= moved.take(n as int) + without_stopped(moved.skip(n as int)));
        while i > 0
            invariant
                i <= n,
                n == moved.len(),
                self.capacity == old(self).capacity,
                self.commands == old(self).commands,
                self.playing@.len() >= i,
                self@.playing == moved.take(i as int) + without_stopped(moved.skip(i as int)),
            decreases i,
        {
            i = i - 1;
            let ghost before = self@.playing;
            let ghost rest = without_stopped(moved.skip(i as int + 1));
            proof {
                assert(before[i as int] == moved[i as int]);
                assert(moved.skip(i as int).drop_first() =~= moved.skip(i as int + 1));
                assert(moved.skip(i as int)[0] == moved[i as int]);
            }
            if self.playing[i].instance.finished() {
                self.playing.remove(i);
                proof {
                    assert(before =~= moved.take(i as int + 1) + rest);
                    assert(self@.playing =~= before.remove(i as int));
                    assert(before.remove(i as int) =~= moved.take(i as int) + rest);
                }
            } else {
                assert(self@.playing =~= moved.take(i as int) + (seq![moved[i as int]] + rest));
            }
        }
        proof {
            assert(moved.skip(0) =~= moved);
            assert(moved.take(0) + without_stopped(moved) =~= without_stopped(moved));
            lemma_without_stopped(moved);
        }
    }

    fn drain(&mut self)
        ensures
            old(self).wf() ==> final(self).wf(),
            final(self).command_limit() == old(self).command_limit(),
            is_prefix(old(self).taken(), final(self).taken()),
            final(self).taken().len() - old(self).taken().len() <= old(self).command_limit(),
            final(self)@ == old(self)@.on_commands(
                final(self).taken().skip(old(self).taken().len() as int),
            ),
    {
        let limit: usize = self.commands.capacity();
        let ghost before = self@;
        let ghost start = self.commands.taken();
        let mut i: usize = 0;
        let mut open: bool = true;
        assert(start.skip(start.len() as int) =~= Seq::<Command>::empty());
        assert(start =~= start.subrange(0, start.len() as int));
        while open && i < limit
            invariant
                i <= limit,
                limit == self.commands.limit(),
                old(self).wf() ==> self.wf(),
                is_prefix(start, self.commands.taken()),
                self.commands.taken().len() == start.len() + i,
                self@ == before.on_commands(self.commands.taken().skip(start.len() as int)),
            decreases limit - i + if open { 1int } else { 0int },
        {
            let ghost taken = self.commands.taken();
            match self.commands.pop() {
                Some(command) => {
                    self.on_command(command);
                    i = i + 1;
                    proof {
                        let now = taken.push(command);
                        assert(now.skip(start.len() as int).drop_last() =~= taken.skip(
                            start.len() as int,
                        ));
                        assert(now.skip(start.len() as int).last() == command);
                        assert(start =~= now.subrange(0, start.len() as int));
                    }
                },
                None => {
                    open = false;
                },
            }
        }
    }

    /// One block of `dt` microseconds on the render side: the commands that
    /// wait are obeyed, oldest first and no more than the command queue has
    /// room for; then every instance moves on, and those that have stopped
    /// are let go of.
    pub fn process(&mut self, dt: u64)
        ensures
            old(self).wf() ==> final(self).wf(),
            final(self).command_limit() == old(self).command_limit(),
            is_prefix(old(self).taken(), final(self).taken()),
            final(self).taken().len() - old(self).taken().len() <= old(self).command_limit(),
            final(self)@ == old(self)@.on_commands(
                final(self).taken().skip(old(self).taken().len() as int),
            ).update(dt as nat),
    {
        self.drain();
        self.update(dt);
    }
}

} // verus!
