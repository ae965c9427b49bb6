//! Precise timing for audio events.

mod handle;
mod shared;

pub use handle::ClockHandle;
pub use shared::ClockShared;

use crate::channel::{is_prefix, CommandConsumer};
use crate::command::Command;
use crate::id::same_key;
use crate::sync::share;
use crate::tween::{Tween, Tweener, TweenerModel};
use atomic_arena::Key;
use std::sync::Arc;
use vstd::prelude::*;

verus! {

/// A unique identifier for a clock.
#[derive(Debug, Clone, Copy, PartialEq, Eq, Hash)]
pub struct ClockId(pub(crate) Key);

impl View for ClockId {
    type V = Key;

    /// The arena key that the identifier stands for.
    closed spec fn view(&self) -> Key {
        self.0
    }
}

impl ClockId {
    /// The identifier of the clock stored under `key`.
    pub fn new(key: Key) -> (id: ClockId)
        ensures
            id@ == key,
    {
        ClockId(key)
    }

    /// The arena key of the clock.
    pub fn key(&self) -> (key: Key)
        ensures
            key == self@,
    {
        self.0
    }

    /// Whether both identifiers name the same clock.
    pub fn is(&self, other: &ClockId) -> (same: bool)
        ensures
            same == (*self == *other),
    {
        same_key(&self.0, &other.0)
    }
}

/// A tick of one clock: the `ticks`-th since that clock started.
#[derive(Debug, Clone, Copy, PartialEq, Eq, Hash)]
pub struct ClockTime {
    pub clock: ClockId,
    pub ticks: u64,
}

/// The rate of a clock, in fixed-point ticks per second. A rate that is not
/// positive lets the clock stand still.
#[derive(Debug, Clone, Copy, PartialEq, Eq, Hash)]
pub struct ClockSpeed(pub i64);

impl ClockSpeed {
    /// The rate in fixed-point ticks per second.
    pub fn as_ticks_per_second(&self) -> (rate: i64)
        ensures
            rate == self.0,
    {
        self.0
    }
}

/// A request of a handle to its clock.
#[derive(Debug, Clone, Copy)]
pub enum ClockCommand {
    /// Move the rate to this one, with this tween.
    SetSpeed(ClockSpeed, Tween),
    /// Start or resume.
    Start,
    /// Pause.
    Pause,
    /// Stop and forget the ticks.
    Stop,
}

/// The distance between two ticks, in the unit of the tick timer: a rate in
/// fixed-point ticks per second times a duration in microseconds.
pub const ONE_TICK: u64 = 1_000_000_000_000;

/// The number of values that a tick counter can take before it starts again
/// at zero.
pub open spec fn tick_counts() -> int {
    0x1_0000_0000_0000_0000
}

/// How many ticks fall into a block in which the clock advances by
/// `advance`, when `timer` was left until the next tick.
pub open spec fn crossings(timer: int, advance: int) -> nat {
    if advance < timer {
        0
    } else {
        ((advance - timer) / (ONE_TICK as int) + 1) as nat
    }
}

/// The tick counter after `n` more ticks. The first tick of a clock is tick 0,
/// and each one after it adds one.
pub open spec fn ticks_after(ticks: Option<u64>, n: nat) -> Option<u64> {
    if n == 0 {
        ticks
    } else {
        match ticks {
            None => Some(((n - 1) % tick_counts()) as u64),
            Some(k) => Some(((k + n) % tick_counts()) as u64),
        }
    }
}

/// One more tick adds one to the counter, which starts again at zero after
/// its largest value; the first tick of all is tick 0.
pub proof fn lemma_ticks_after_one_more(ticks: Option<u64>, n: nat)
    ensures
        ticks_after(ticks, n + 1) == Some(
            match ticks_after(ticks, n) {
                None => 0u64,
                Some(k) => if k == u64::MAX {
                    0u64
                } else {
                    (k + 1) as u64
                },
            },
        ),
{
    if n > 0 {
        let x: int = match ticks {
            None => n - 1,
            Some(k) => k + n,
        };
        let m: int = tick_counts();
        assert(x >= 0);
        assert((x + 1) % m == if x % m == m - 1 {
            0
        } else {
            x % m + 1
        }) by (nonlinear_arith)
            requires
                x >= 0,
                m == 0x1_0000_0000_0000_0000,
        ;
    }
}

/// What a clock is.
pub struct ClockModel {
    /// Whether time passes for the clock.
    pub ticking: bool,
    /// The rate, which may be in transition.
    pub speed: TweenerModel,
    /// The number of the last tick, if there was one since the clock was
    /// last stopped.
    pub ticks: Option<u64>,
    /// What is left until the next tick.
    pub tick_timer: int,
}

impl ClockModel {
    /// The timer always holds a part of one tick, and never nothing.
    pub open spec fn wf(self) -> bool {
        &&& 0 < self.tick_timer <= ONE_TICK
        &&& self.speed.wf()
    }

    /// A clock that was never started.
    pub open spec fn new(speed: ClockSpeed) -> ClockModel {
        ClockModel {
            ticking: false,
            speed: TweenerModel::idle(speed.0 as int),
            ticks: None,
            tick_timer: ONE_TICK as int,
        }
    }

    /// The rate at which the clock advances.
    pub open spec fn rate(self) -> int {
        if self.speed.value > 0 {
            self.speed.value
        } else {
            0
        }
    }

    /// How many ticks the next block of `dt` microseconds holds.
    pub open spec fn ticks_in(self, dt: nat) -> nat {
        if self.ticking {
            crossings(
                self.tick_timer,
                ClockModel { speed: self.speed.update(dt), ..self }.rate() * dt,
            )
        } else {
            0
        }
    }

    /// The clock after a block of `dt` microseconds: the rate moves first,
    /// then, if the clock is ticking, the timer runs down at the new rate and
    /// each time it runs out one tick is counted and one tick's distance is
    /// put back on it.
    pub open spec fn update(self, dt: nat) -> ClockModel {
        let speed = self.speed.update(dt);
        if !self.ticking {
            ClockModel { speed, ..self }
        } else {
            let advance = ClockModel { speed, ..self }.rate() * dt;
            let n = self.ticks_in(dt);
            ClockModel {
                speed,
                ticks: ticks_after(self.ticks, n),
                tick_timer: self.tick_timer - advance + n * ONE_TICK,
                ..self
            }
        }
    }

    /// The clock once the rate has begun to move to `speed`.
    pub open spec fn set_speed(self, speed: ClockSpeed, tween: Tween) -> ClockModel {
        ClockModel { speed: self.speed.set(speed.0 as int, tween), ..self }
    }

    /// The clock after it has obeyed a command.
    pub open spec fn on_command(self, command: ClockCommand) -> ClockModel {
        match command {
            ClockCommand::SetSpeed(speed, tween) => self.set_speed(speed, tween),
            ClockCommand::Start => self.start(),
            ClockCommand::Pause => self.pause(),
            ClockCommand::Stop => self.stop(),
        }
    }

    /// The clock after each of the commands, in order; commands that are
    /// not for a clock change nothing.
    pub open spec fn on_commands(self, commands: Seq<Command>) -> ClockModel
        decreases commands.len(),
    {
        if commands.len() == 0 {
            self
        } else {
            let before = self.on_commands(commands.drop_last());
            match commands.last() {
                Command::Clock(command) => before.on_command(command),
                _ => before,
            }
        }
    }

    /// The clock once started or resumed.
    pub open spec fn start(self) -> ClockModel {
        ClockModel { ticking: true, ..self }
    }

    /// The clock once paused: the ticks and the timer stay.
    pub open spec fn pause(self) -> ClockModel {
        ClockModel { ticking: false, ..self }
    }

    /// The clock once stopped: the ticks are forgotten and the timer is full
    /// again.
    pub open spec fn stop(self) -> ClockModel {
        ClockModel { ticking: false, ticks: None, tick_timer: ONE_TICK as int, ..self }
    }
}

enum State {
    NotStarted,
    Started { ticks: u64 },
}

/// A tick scheduler: turns the time that passes into whole ticks.
pub struct Clock {
    shared: Arc<ClockShared>,
    ticking: bool,
    speed: Tweener,
    state: State,
    tick_timer: u64,
}

impl View for Clock {
    type V = ClockModel;

    closed spec fn view(&self) -> ClockModel {
        ClockModel {
            ticking: self.ticking,
            speed: self.speed@,
            ticks: match self.state {
                State::NotStarted => None,
                State::Started { ticks } => Some(ticks),
            },
            tick_timer: self.tick_timer as int,
        }
    }
}

impl Clock {
    #[verifier::type_invariant]
    spec fn inv(self) -> bool {
        0 < self.tick_timer <= ONE_TICK
    }

    /// A clock that has not started, with the given rate.
    pub fn new(speed: ClockSpeed) -> (clock: Clock)
        ensures
            clock@ == ClockModel::new(speed),
            clock@.wf(),
    {
        Self {
            shared: Arc::new(ClockShared::new()),
            ticking: false,
            speed: Tweener::new(speed.as_ticks_per_second()),
            state: State::NotStarted,
            tick_timer: ONE_TICK,
        }
    }

    /// The state that the clock publishes into, which it owns jointly with
    /// its handles.
    pub closed spec fn cell(&self) -> Arc<ClockShared> {
        self.shared
    }

    /// The state that the clock publishes, for a handle to read: another
    /// pointer to the clock's own, not a copy.
    pub fn shared(&self) -> (shared: Arc<ClockShared>)
        ensures
            shared == self.cell(),
    {
        share(&self.shared)
    }

    /// Starts a transition of the rate.
    pub fn set_speed(&mut self, speed: ClockSpeed, tween: Tween)
        ensures
            final(self)@ == old(self)@.set_speed(speed, tween),
            final(self).cell() == old(self).cell(),
            final(self)@.wf(),
    {
        proof {
            use_type_invariant(&*self);
        }
        let mut moved: Tweener = self.speed;
        moved.set(speed.as_ticks_per_second(), tween);
        self.speed = moved;
    }

    /// Obeys one command of a handle.
    pub fn on_command(&mut self, command: ClockCommand)
        ensures
            final(self)@ == old(self)@.on_command(command),
            final(self).cell() == old(self).cell(),
    {
        match command {
            ClockCommand::SetSpeed(speed, tween) => self.set_speed(speed, tween),
            ClockCommand::Start => self.start(),
            ClockCommand::Pause => self.pause(),
            ClockCommand::Stop => self.stop(),
        }
    }

    /// Obeys the commands that wait in `commands`, oldest first and no more
    /// than the command queue has room for.
    pub fn drain(&mut self, commands: &mut CommandConsumer)
        ensures
            final(commands).limit() == old(commands).limit(),
            is_prefix(old(commands).taken(), final(commands).taken()),
            final(commands).taken().len() - old(commands).taken().len() <= old(commands).limit(),
            final(self)@ == old(self)@.on_commands(
                final(commands).taken().skip(old(commands).taken().len() as int),
            ),
            final(self).cell() == old(self).cell(),
    {
        let limit: usize = commands.capacity();
        let ghost before = self@;
        let ghost start = commands.taken();
        let mut i: usize = 0;
        let mut open: bool = true;
        assert(start.skip(start.len() as int) =~= Seq::<Command>::empty());
        assert(start =~= start.subrange(0, start.len() as int));
        while open && i < limit
            invariant
                i <= limit,
                limit == commands.limit(),
                self.cell() == old(self).cell(),
                is_prefix(start, commands.taken()),
                commands.taken().len() == start.len() + i,
                self@ == before.on_commands(commands.taken().skip(start.len() as int)),
            decreases limit - i + if open { 1int } else { 0int },
        {
            let ghost taken = commands.taken();
            match commands.pop() {
                Some(command) => {
                    match command {
                        Command::Clock(command) => self.on_command(command),
                        _ => {},
                    }
                    i = i + 1;
                    proof {
                        let now = taken.push(command);
                        assert(now.skip(start.len() as int).drop_last() =~= taken.skip(
                            start.len() as int,
                        ));
                        assert(now.skip(start.len() as int).last() == command);
                        assert(start =~= now.subrange(0, start.len() as int));
                    }
                },
                None => {
                    open = false;
                },
            }
        }
    }

    /// Starts or resumes the clock, and publishes that it is ticking.
    pub fn start(&mut self)
        ensures
            final(self)@ == old(self)@.start(),
            final(self).cell() == old(self).cell(),
    {
        proof {
            use_type_invariant(&*self);
        }
        self.ticking = true;
        self.shared.publish_ticking(true);
    }

    /// Pauses the clock, and publishes that it is not ticking.
    pub fn pause(&mut self)
        ensures
            final(self)@ == old(self)@.pause(),
            final(self).cell() == old(self).cell(),
    {
        proof {
            use_type_invariant(&*self);
        }
        self.ticking = false;
        self.shared.publish_ticking(false);
    }

    /// Stops the clock, and publishes that it is not ticking and has no
    /// ticks.
    pub fn stop(&mut self)
        ensures
            final(self)@ == old(self)@.stop(),
            final(self).cell() == old(self).cell(),
    {
        self.pause();
        proof {
            use_type_invariant(&*self);
        }
        self.state = State::NotStarted;
        self.tick_timer = ONE_TICK;
        self.shared.publish_ticks(0);
    }

    /// Lets `dt` microseconds pass. Each tick that falls into them is counted
    /// and published on its own; the number of the last one is returned. At
    /// a rate that is not positive the timer stands still: it never runs
    /// back.
    pub fn update(&mut self, dt: u64) -> (last_tick: Option<u64>)
        ensures
            final(self)@ == old(self)@.update(dt as nat),
            final(self)@.wf(),
            final(self).cell() == old(self).cell(),
            last_tick == if old(self)@.ticks_in(dt as nat) > 0 {
                final(self)@.ticks
            } else {
                None
            },
    {
        proof {
            use_type_invariant(&*self);
        }
        let mut moved: Tweener = self.speed;
        moved.update(dt);
        self.speed = moved;
        if !self.ticking {
            return None;
        }
        let value: i64 = self.speed.value();
        let rate: u64 = if value > 0 {
            value as u64
        } else {
            0
        };
        assert(rate * dt <= u64::MAX * u64::MAX) by (nonlinear_arith)
            requires
                0 <= rate <= u64::MAX,
                0 <= dt <= u64::MAX,
        ;
        let total: u128 = (rate as u128) * (dt as u128);
        let mut advance: u128 = total;
        let mut remaining: u64 = self.tick_timer;
        let mut new_tick_count: Option<u64> = None;
        let ghost n: int = 0;
        let ghost before = self@;
        while advance >= remaining as u128
            invariant
                0 < self.tick_timer <= ONE_TICK,
                self.cell() == old(self).cell(),
                0 < remaining <= ONE_TICK,
                0 <= n,
                remaining - advance == before.tick_timer - total + n * ONE_TICK,
                n == 0 || before.tick_timer - total + (n - 1) * ONE_TICK <= 0,
                self@ == (ClockModel { ticks: ticks_after(before.ticks, n as nat), ..before }),
                new_tick_count == if n > 0 {
                    self@.ticks
                } else {
                    None
                },
            decreases advance,
        {
            advance = advance - remaining as u128;
            remaining = ONE_TICK;
            let tick_count: u64 = match self.state {
                State::NotStarted => 0,
                State::Started { ticks } => ticks.wrapping_add(1),
            };
            self.state = State::Started { ticks: tick_count };
            self.shared.publish_ticks(tick_count);
            new_tick_count = Some(tick_count);
            proof {
                lemma_ticks_after_one_more(before.ticks, n as nat);
                n = n + 1;
            }
        }
        self.tick_timer = remaining - advance as u64;
        new_tick_count
    }

    /// Reports a tick of a clock to the rate, which may be in a transition
    /// timed by that clock.
    pub fn on_clock_tick(&mut self, time: ClockTime)
        ensures
            final(self)@ == (ClockModel {
                speed: old(self)@.speed.on_clock_tick(time),
                ..old(self)@
            }),
            final(self).cell() == old(self).cell(),
            final(self)@.wf(),
    {
        proof {
            use_type_invariant(&*self);
        }
        let mut moved: Tweener = self.speed;
        moved.on_clock_tick(time);
        self.speed = moved;
    }
}

impl ClockModel {
    /// The clock after one block for each of the given durations, in order.
    pub open spec fn after_updates(self, dts: Seq<nat>) -> ClockModel
        decreases dts.len(),
    {
        if dts.len() == 0 {
            self
        } else {
            self.after_updates(dts.drop_last()).update(dts.last())
        }
    }

    /// Whether the rate is steady at a positive value of which `dt`
    /// microseconds make exactly one tick: `dt` is one over the rate.
    pub open spec fn has_period(self, dt: nat) -> bool {
        &&& self.speed.motion is None
        &&& self.speed.value > 0
        &&& self.speed.value * dt == ONE_TICK
    }
}

/// Whatever time passes, the timer of a clock holds a part of one tick and
/// never nothing: an update keeps a clock well formed.
pub proof fn law_update_keeps_the_clock_well_formed(c: ClockModel, dt: nat)
    requires
        c.wf(),
    ensures
        c.update(dt).wf(),
{
    crate::tween::law_advance_adds_up(c.speed, dt, 0);
    let speed = c.speed.update(dt);
    if c.ticking {
        let rate = ClockModel { speed, ..c }.rate();
        assert(rate * dt >= 0) by (nonlinear_arith)
            requires
                rate >= 0,
                dt >= 0,
        ;
    }
}

/// A ticking clock whose rate is steady at R ticks per second counts exactly
/// one tick in every block of 1/R seconds, wherever in its period it stands;
/// the timer and the rate are after the block what they were before it.
pub proof fn law_one_tick_per_period(c: ClockModel, dt: nat)
    requires
        c.wf(),
        c.ticking,
        c.has_period(dt),
    ensures
        c.ticks_in(dt) == 1,
        c.update(dt) == (ClockModel { ticks: ticks_after(c.ticks, 1), ..c }),
        c.ticks is None ==> c.update(dt).ticks == Some(0u64),
        c.ticks matches Some(k) ==> k < u64::MAX ==> c.update(dt).ticks == Some((k + 1) as u64),
{
    lemma_ticks_after_one_more(c.ticks, 0);
}

/// After `n` blocks of one period each, a clock that had not ticked yet has
/// counted the ticks 0, 1, 2, ... up to `n - 1`, one in each block.
pub proof fn law_periodic_ticks_count_up(c: ClockModel, dt: nat, n: nat)
    requires
        c.wf(),
        c.ticking,
        c.has_period(dt),
    ensures
        c.after_updates(Seq::new(n, |i: int| dt)) == (ClockModel {
            ticks: ticks_after(c.ticks, n),
            ..c
        }),
        c.ticks is None && 0 < n <= u64::MAX ==> c.after_updates(
            Seq::new(n, |i: int| dt),
        ).ticks == Some((n - 1) as u64),
    decreases n,
{
    let dts = Seq::new(n, |i: int| dt);
    if n > 0 {
        let shorter = Seq::new((n - 1) as nat, |i: int| dt);
        assert(dts.drop_last() =~= shorter);
        law_periodic_ticks_count_up(c, dt, (n - 1) as nat);
        let before = c.after_updates(shorter);
        law_one_tick_per_period(before, dt);
        lemma_ticks_after_adds_up(c.ticks, (n - 1) as nat, 1);
    }
}

/// Counting `a` ticks and then `b` more is counting `a + b`.
pub proof fn lemma_ticks_after_adds_up(ticks: Option<u64>, a: nat, b: nat)
    ensures
        ticks_after(ticks_after(ticks, a), b) == ticks_after(ticks, a + b),
{
    if a > 0 && b > 0 {
        let x: int = match ticks {
            None => a - 1,
            Some(k) => k + a,
        };
        let m: int = tick_counts();
        assert((x % m + b) % m == (x + b) % m) by (nonlinear_arith)
            requires
                x >= 0,
                b > 0,
                m == 0x1_0000_0000_0000_0000,
        ;
    }
}

/// A block that lasts no time changes nothing and holds no tick.
pub proof fn law_no_time_no_tick(c: ClockModel)
    requires
        c.wf(),
    ensures
        c.ticks_in(0) == 0,
        c.update(0) == c,
{
    crate::tween::law_advance_adds_up(c.speed, 0, 0);
    assert(c.speed.update(0) == c.speed);
}

/// Stopping forgets the ticks: a clock that is stopped and started again
/// stands where a new clock stands once started, and its next tick is tick 0.
pub proof fn law_stop_then_start_counts_from_zero(c: ClockModel, dt: nat)
    requires
        c.wf(),
    ensures
        c.stop().start().ticks is None,
        c.stop().start().tick_timer == ONE_TICK,
        c.stop().start().ticking,
        c.stop().start().ticks_in(dt) == 1 ==> c.stop().start().update(dt).ticks == Some(0u64),
{
}

/// A paused clock stands still: whatever blocks pass, it counts no tick, and
/// its ticks and its timer stay what they were when it was paused.
pub proof fn law_paused_clock_stands_still(c: ClockModel, dts: Seq<nat>)
    ensures
        !c.pause().after_updates(dts).ticking,
        c.pause().after_updates(dts).ticks == c.ticks,
        c.pause().after_updates(dts).tick_timer == c.tick_timer,
        dts.len() > 0 ==> c.pause().after_updates(dts.drop_last()).ticks_in(dts.last()) == 0,
    decreases dts.len(),
{
    if dts.len() > 0 {
        law_paused_clock_stands_still(c, dts.drop_last());
    }
}

/// Starting a paused clock goes on where it was paused: the ticks are not
/// reset, and the next tick comes when it would have come.
pub proof fn law_start_after_pause_continues(c: ClockModel, dts: Seq<nat>)
    ensures
        c.pause().after_updates(dts).start().ticking,
        c.pause().after_updates(dts).start().ticks == c.ticks,
        c.pause().after_updates(dts).start().tick_timer == c.tick_timer,
{
    law_paused_clock_stands_still(c, dts);
}

} // verus!
