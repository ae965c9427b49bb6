//! Timed interpolation of a single parameter.

use crate::clock::{ClockId, ClockTime};
use crate::fixed::{
    lemma_mul_div_bounds, lemma_mul_div_monotonic, mul_div, scale, unit_part, ONE,
};
use vstd::prelude::*;

verus! {

/// The curve that maps the elapsed fraction of a tween to the fraction of the
/// way travelled.
#[derive(Debug, Clone, Copy, PartialEq, Eq, Hash)]
pub enum Easing {
    /// Constant speed.
    Linear,
    /// Slow start: the fraction raised to a power.
    InPowi(u8),
    /// Slow end: the mirror image of `InPowi`.
    OutPowi(u8),
    /// Slow start and end: `InPowi` up to the middle, `OutPowi` after it.
    InOutPowi(u8),
}

/// `x` to the `n`-th power, both as fixed-point fractions, rounded down after
/// each multiplication.
pub open spec fn pow_fixed(x: int, n: nat) -> int
    decreases n,
{
    if n == 0 {
        ONE as int
    } else {
        mul_div(pow_fixed(x, (n - 1) as nat), x, ONE as int)
    }
}

/// The fraction of the way travelled once the fraction `x` of the time has
/// elapsed.
pub open spec fn ease(easing: Easing, x: int) -> int {
    match easing {
        Easing::Linear => x,
        Easing::InPowi(n) => pow_fixed(x, n as nat),
        Easing::OutPowi(n) => ONE - pow_fixed(ONE - x, n as nat),
        Easing::InOutPowi(n) => if 2 * x < ONE {
            pow_fixed(2 * x, n as nat) / 2
        } else {
            ONE - pow_fixed(2 * (ONE - x), n as nat) / 2
        },
    }
}

/// A power of a fraction is a fraction.
pub proof fn lemma_pow_fixed_range(x: int, n: nat)
    requires
        0 <= x <= ONE,
    ensures
        0 <= pow_fixed(x, n) <= ONE,
    decreases n,
{
    if n > 0 {
        lemma_pow_fixed_range(x, (n - 1) as nat);
        lemma_mul_div_bounds(pow_fixed(x, (n - 1) as nat), x, ONE as int);
    }
}

/// Every easing curve maps fractions to fractions.
pub proof fn lemma_ease_range(easing: Easing, x: int)
    requires
        0 <= x <= ONE,
    ensures
        0 <= ease(easing, x) <= ONE,
{
    match easing {
        Easing::Linear => {},
        Easing::InPowi(n) => {
            lemma_pow_fixed_range(x, n as nat);
        },
        Easing::OutPowi(n) => {
            lemma_pow_fixed_range(ONE - x, n as nat);
        },
        Easing::InOutPowi(n) => {
            if 2 * x < ONE {
                lemma_pow_fixed_range(2 * x, n as nat);
            } else {
                lemma_pow_fixed_range(2 * (ONE - x), n as nat);
            }
        },
    }
}

fn pow(x: u64, n: u8) -> (r: u64)
    requires
        x <= ONE,
    ensures
        r == pow_fixed(x as int, n as nat),
        r <= ONE,
    no_unwind
{
    let mut acc: u64 = ONE;
    let mut i: u8 = 0;
    while i < n
        invariant
            i <= n,
            x <= ONE,
            acc == pow_fixed(x as int, i as nat),
            acc <= ONE,
        decreases n - i,
    {
        acc = scale(acc, x, ONE);
        i = i + 1;
    }
    acc
}

impl Easing {
    /// Applies the curve to the elapsed fraction `x`; all beyond one counts
    /// as one.
    pub fn apply(&self, x: u64) -> (r: u64)
        ensures
            r == ease(*self, unit_part(x as int)),
            r <= ONE,
        no_unwind
    {
        let x: u64 = if x > ONE {
            ONE
        } else {
            x
        };
        match self {
            Easing::Linear => x,
            Easing::InPowi(n) => pow(x, *n),
            Easing::OutPowi(n) => ONE - pow(ONE - x, *n),
            Easing::InOutPowi(n) => {
                if x < ONE - x {
                    pow(2 * x, *n) / 2
                } else {
                    ONE - pow(2 * (ONE - x), *n) / 2
                }
            },
        }
    }
}

/// How long a tween lasts.
#[derive(Debug, Clone, Copy, PartialEq, Eq, Hash)]
pub enum TweenDuration {
    /// Wall-clock time, in fixed-point seconds.
    Seconds(u64),
    /// A number of ticks of the given clock.
    Ticks(ClockId, u64),
}

impl TweenDuration {
    /// The length in its own unit: microseconds or ticks.
    pub open spec fn length(self) -> nat {
        match self {
            TweenDuration::Seconds(d) => d as nat,
            TweenDuration::Ticks(_, n) => n as nat,
        }
    }

    /// Whether progress is counted in ticks of `clock`.
    pub open spec fn follows(self, clock: ClockId) -> bool {
        self matches TweenDuration::Ticks(c, _) && c == clock
    }

    /// The length in its own unit: microseconds or ticks.
    pub fn len(&self) -> (n: u64)
        ensures
            n == self.length(),
        no_unwind
    {
        match self {
            TweenDuration::Seconds(d) => *d,
            TweenDuration::Ticks(_, n) => *n,
        }
    }
}

/// A timed transition towards a target value.
#[derive(Debug, Clone, Copy, PartialEq, Eq, Hash)]
pub struct Tween {
    pub duration: TweenDuration,
    pub easing: Easing,
}

/// The point between `start` and `target` that lies the fraction `amount` of
/// the way from `start`.
pub open spec fn lerp(start: int, target: int, amount: int) -> int {
    if start <= target {
        start + mul_div(target - start, amount, ONE as int)
    } else {
        start - mul_div(start - target, amount, ONE as int)
    }
}

/// A transition in flight.
pub struct Motion {
    pub start: int,
    pub target: int,
    pub elapsed: nat,
    pub tween: Tween,
}

impl Motion {
    /// The elapsed fraction of the transition.
    pub open spec fn progress(self) -> int {
        mul_div(ONE as int, self.elapsed as int, self.tween.duration.length() as int)
    }

    /// The value reached so far.
    pub open spec fn position(self) -> int {
        lerp(self.start, self.target, ease(self.tween.easing, self.progress()))
    }

    /// A transition has a positive length and has not reached its end.
    pub open spec fn wf(self) -> bool {
        self.elapsed < self.tween.duration.length()
    }
}

/// What a tweener is: its current value and the transition in flight, if any.
pub struct TweenerModel {
    pub value: int,
    pub motion: Option<Motion>,
}

impl TweenerModel {
    /// A tweener at rest at `value`.
    pub open spec fn idle(value: int) -> TweenerModel {
        TweenerModel { value, motion: None }
    }

    /// The current value is the one the transition in flight has reached.
    pub open spec fn wf(self) -> bool {
        self.motion matches Some(m) ==> m.wf() && self.value == m.position()
    }

    /// A new transition replaces whatever was in flight and starts from the
    /// current value; one of length zero jumps to the target.
    pub open spec fn set(self, target: int, tween: Tween) -> TweenerModel {
        if tween.duration.length() == 0 {
            TweenerModel::idle(target)
        } else {
            let m = Motion { start: self.value, target, elapsed: 0, tween };
            TweenerModel { value: m.position(), motion: Some(m) }
        }
    }

    /// Progress by `n` units: the transition ends at its target once its
    /// whole length has elapsed.
    pub open spec fn advance(self, n: nat) -> TweenerModel {
        match self.motion {
            None => self,
            Some(m) => if m.elapsed + n >= m.tween.duration.length() {
                TweenerModel::idle(m.target)
            } else {
                let m2 = Motion { elapsed: m.elapsed + n, ..m };
                TweenerModel { value: m2.position(), motion: Some(m2) }
            },
        }
    }

    /// The passage of `dt` microseconds: only transitions timed in seconds
    /// move.
    pub open spec fn update(self, dt: nat) -> TweenerModel {
        match self.motion {
            Some(m) if m.tween.duration is Seconds => self.advance(dt),
            _ => self,
        }
    }

    /// A tick of a clock: only transitions timed in ticks of that clock move,
    /// by one tick.
    pub open spec fn on_clock_tick(self, time: ClockTime) -> TweenerModel {
        match self.motion {
            Some(m) if m.tween.duration.follows(time.clock) => self.advance(1),
            _ => self,
        }
    }
}

fn lerp_between(start: i64, target: i64, amount: u64) -> (r: i64)
    requires
        amount <= ONE,
    ensures
        r == lerp(start as int, target as int, amount as int),
    no_unwind
{
    if start <= target {
        let span: u64 = (target as i128 - start as i128) as u64;
        let step: u64 = scale(span, amount, ONE);
        (start as i128 + step as i128) as i64
    } else {
        let span: u64 = (start as i128 - target as i128) as u64;
        let step: u64 = scale(span, amount, ONE);
        (start as i128 - step as i128) as i64
    }
}

#[derive(Debug, Clone, Copy)]
struct Flight {
    start: i64,
    target: i64,
    elapsed: u64,
    tween: Tween,
}

impl View for Flight {
    type V = Motion;

    closed spec fn view(&self) -> Motion {
        Motion {
            start: self.start as int,
            target: self.target as int,
            elapsed: self.elapsed as nat,
            tween: self.tween,
        }
    }
}

impl Flight {
    fn position(&self) -> (r: i64)
        requires
            self@.wf(),
        ensures
            r == self@.position(),
        no_unwind
    {
        let fraction: u64 = scale(ONE, self.elapsed, self.tween.duration.len());
        lerp_between(self.start, self.target, self.tween.easing.apply(fraction))
    }
}

/// Holds the current value of a parameter and at most one transition in
/// flight.
#[derive(Debug, Clone, Copy)]
pub struct Tweener {
    value: i64,
    flight: Option<Flight>,
}

impl View for Tweener {
    type V = TweenerModel;

    closed spec fn view(&self) -> TweenerModel {
        TweenerModel {
            value: self.value as int,
            motion: match self.flight {
                Some(f) => Some(f@),
                None => None,
            },
        }
    }
}

impl Tweener {
    #[verifier::type_invariant]
    spec fn inv(self) -> bool {
        self@.wf()
    }

    /// A tweener at rest at `value`.
    pub fn new(value: i64) -> (tweener: Tweener)
        ensures
            tweener@ == TweenerModel::idle(value as int),
    {
        Tweener { value, flight: None }
    }

    /// The current value.
    pub fn value(&self) -> (value: i64)
        ensures
            value == self@.value,
            self@.wf(),
        no_unwind
    {
        proof {
            use_type_invariant(self);
        }
        self.value
    }

    /// Whether no transition is in flight.
    pub fn is_idle(&self) -> (idle: bool)
        ensures
            idle == (self@.motion is None),
    {
        self.flight.is_none()
    }

    /// Starts a transition from the current value towards `target`,
    /// replacing the one in flight, if any.
    pub fn set(&mut self, target: i64, tween: Tween)
        ensures
            final(self)@ == old(self)@.set(target as int, tween),
            final(self)@.wf(),
    {
        if tween.duration.len() == 0 {
            *self = Tweener { value: target, flight: None };
        } else {
            let flight = Flight { start: self.value, target, elapsed: 0, tween };
            *self = Tweener { value: flight.position(), flight: Some(flight) };
        }
    }

    fn advance(&mut self, n: u64) -> (finished: bool)
        requires
            old(self)@.motion is Some,
        ensures
            final(self)@ == old(self)@.advance(n as nat),
            finished == (final(self)@.motion is None),
        no_unwind
    {
        proof {
            use_type_invariant(&*self);
        }
        let flight: Flight = match self.flight {
            Some(flight) => flight,
            None => {
                return true;
            },
        };
        let length: u64 = flight.tween.duration.len();
        if n >= length - flight.elapsed {
            *self = Tweener { value: flight.target, flight: None };
            true
        } else {
            let moved = Flight { elapsed: flight.elapsed + n, ..flight };
            *self = Tweener { value: moved.position(), flight: Some(moved) };
            false
        }
    }

    /// Lets `dt` microseconds pass. Returns whether the transition in flight
    /// came to its end.
    pub fn update(&mut self, dt: u64) -> (finished: bool)
        ensures
            final(self)@ == old(self)@.update(dt as nat),
            finished == (old(self)@.motion is Some && final(self)@.motion is None),
            final(self)@.wf(),
        no_unwind
    {
        proof {
            use_type_invariant(&*self);
        }
        match self.flight {
            Some(flight) => match flight.tween.duration {
                TweenDuration::Seconds(_) => self.advance(dt),
                TweenDuration::Ticks(_, _) => false,
            },
            None => false,
        }
    }

    /// Reports a tick of a clock. Returns whether the transition in flight
    /// came to its end.
    pub fn on_clock_tick(&mut self, time: ClockTime) -> (finished: bool)
        ensures
            final(self)@ == old(self)@.on_clock_tick(time),
            finished == (old(self)@.motion is Some && final(self)@.motion is None),
            final(self)@.wf(),
    {
        proof {
            use_type_invariant(&*self);
        }
        match self.flight {
            Some(flight) => match flight.tween.duration {
                TweenDuration::Seconds(_) => false,
                TweenDuration::Ticks(clock, _) => {
                    if clock.is(&time.clock) {
                        self.advance(1)
                    } else {
                        false
                    }
                },
            },
            None => false,
        }
    }
}

/// Powers grow with their base.
pub proof fn lemma_pow_fixed_monotonic(x1: int, x2: int, n: nat)
    requires
        0 <= x1 <= x2 <= ONE,
    ensures
        pow_fixed(x1, n) <= pow_fixed(x2, n),
    decreases n,
{
    if n > 0 {
        let a1 = pow_fixed(x1, (n - 1) as nat);
        let a2 = pow_fixed(x2, (n - 1) as nat);
        lemma_pow_fixed_monotonic(x1, x2, (n - 1) as nat);
        lemma_pow_fixed_range(x1, (n - 1) as nat);
        assert((a1 * x1) / (ONE as int) <= (a2 * x2) / (ONE as int)) by (nonlinear_arith)
            requires
                0 <= a1 <= a2,
                0 <= x1 <= x2,
        ;
    }
}

impl Easing {
    /// Whether the curve is a power with exponent zero, which is flat.
    pub open spec fn is_flat(self) -> bool {
        match self {
            Easing::Linear => false,
            Easing::InPowi(n) => n == 0,
            Easing::OutPowi(n) => n == 0,
            Easing::InOutPowi(n) => n == 0,
        }
    }
}

/// The powers of zero and of one: zero to a positive power is zero, and one
/// to any power is one.
pub proof fn lemma_pow_fixed_ends(n: nat)
    ensures
        n > 0 ==> pow_fixed(0, n) == 0,
        pow_fixed(ONE as int, n) == ONE,
    decreases n,
{
    if n > 0 {
        lemma_pow_fixed_ends((n - 1) as nat);
        lemma_pow_fixed_range(0, (n - 1) as nat);
        lemma_mul_div_bounds(pow_fixed(0, (n - 1) as nat), 0, ONE as int);
        lemma_mul_div_bounds(ONE as int, ONE as int, ONE as int);
    }
}

/// Every easing curve that is not flat starts at zero and ends at one.
pub proof fn law_easing_starts_at_zero_and_ends_at_one(easing: Easing)
    requires
        !easing.is_flat(),
    ensures
        ease(easing, 0) == 0,
        ease(easing, ONE as int) == ONE,
{
    match easing {
        Easing::Linear => {},
        Easing::InPowi(n) => {
            lemma_pow_fixed_ends(n as nat);
        },
        Easing::OutPowi(n) => {
            lemma_pow_fixed_ends(n as nat);
        },
        Easing::InOutPowi(n) => {
            lemma_pow_fixed_ends(n as nat);
        },
    }
}

/// No easing curve ever goes backwards.
pub proof fn lemma_ease_monotonic(easing: Easing, x1: int, x2: int)
    requires
        0 <= x1 <= x2 <= ONE,
    ensures
        ease(easing, x1) <= ease(easing, x2),
{
    match easing {
        Easing::Linear => {},
        Easing::InPowi(n) => {
            lemma_pow_fixed_monotonic(x1, x2, n as nat);
        },
        Easing::OutPowi(n) => {
            lemma_pow_fixed_monotonic(ONE - x2, ONE - x1, n as nat);
        },
        Easing::InOutPowi(n) => {
            if 2 * x2 < ONE {
                lemma_pow_fixed_monotonic(2 * x1, 2 * x2, n as nat);
            } else if 2 * x1 < ONE {
                lemma_pow_fixed_range(2 * x1, n as nat);
                lemma_pow_fixed_range(2 * (ONE - x2), n as nat);
            } else {
                lemma_pow_fixed_monotonic(2 * (ONE - x2), 2 * (ONE - x1), n as nat);
            }
        },
    }
}

/// While a transition is in flight its value only ever moves from the start
/// towards the target, whatever the easing: a later moment is never further
/// from the target than an earlier one, and never beyond it.
pub proof fn law_transition_is_monotonic(m: Motion, later: nat)
    requires
        m.elapsed <= later < m.tween.duration.length(),
    ensures
        ({
            let n = Motion { elapsed: later, ..m };
            &&& m.start <= m.target ==> m.start <= m.position() <= n.position() <= m.target
            &&& m.start >= m.target ==> m.start >= m.position() >= n.position() >= m.target
        }),
{
    let n = Motion { elapsed: later, ..m };
    let length = m.tween.duration.length() as int;
    lemma_mul_div_monotonic(ONE as int, m.elapsed as int, later as int, length);
    lemma_mul_div_monotonic(ONE as int, later as int, length, length);
    lemma_mul_div_bounds(ONE as int, later as int, length);
    lemma_mul_div_bounds(ONE as int, m.elapsed as int, length);
    let p1 = m.progress();
    let p2 = n.progress();
    assert(0 <= p1 <= p2 <= ONE);
    lemma_ease_monotonic(m.tween.easing, p1, p2);
    lemma_ease_range(m.tween.easing, p1);
    lemma_ease_range(m.tween.easing, p2);
    let e1 = ease(m.tween.easing, p1);
    let e2 = ease(m.tween.easing, p2);
    if m.start <= m.target {
        lemma_mul_div_monotonic(m.target - m.start, e1, e2, ONE as int);
        lemma_mul_div_bounds(m.target - m.start, e1, ONE as int);
        lemma_mul_div_bounds(m.target - m.start, e2, ONE as int);
    } else {
        lemma_mul_div_monotonic(m.start - m.target, e1, e2, ONE as int);
        lemma_mul_div_bounds(m.start - m.target, e1, ONE as int);
        lemma_mul_div_bounds(m.start - m.target, e2, ONE as int);
    }
}

/// A transition that starts now starts at the tweener's current value, for
/// every easing that starts at zero, as linear easing and every power with
/// a positive exponent do. If a transition was in flight, what was left of
/// it is gone.
pub proof fn law_set_restarts_from_current_value(t: TweenerModel, target: int, tween: Tween)
    requires
        tween.duration.length() > 0,
        ease(tween.easing, 0) == 0,
    ensures
        t.set(target, tween).value == t.value,
        t.set(target, tween).motion == Some(
            Motion { start: t.value, target, elapsed: 0, tween },
        ),
        t.set(target, tween).wf(),
{
    let length = tween.duration.length() as int;
    lemma_mul_div_bounds(ONE as int, 0, length);
    if t.value <= target {
        lemma_mul_div_bounds(target - t.value, 0, ONE as int);
    } else {
        lemma_mul_div_bounds(t.value - target, 0, ONE as int);
    }
}

/// Once the whole duration has elapsed, in one step or in several, the value
/// is the target and the tweener is at rest.
pub proof fn law_transition_ends_at_target(t: TweenerModel, n: nat)
    requires
        t.motion is Some,
        t.motion.unwrap().elapsed + n >= t.motion.unwrap().tween.duration.length(),
    ensures
        t.advance(n) == TweenerModel::idle(t.motion.unwrap().target),
{
}

/// Progress adds up: two steps are one step of their sum.
pub proof fn law_advance_adds_up(t: TweenerModel, a: nat, b: nat)
    requires
        t.wf(),
    ensures
        t.advance(a).advance(b) == t.advance(a + b),
        t.advance(a).wf(),
{
}

/// Between two moments of a transition the value moves towards the target
/// and never past it.
pub proof fn law_advance_moves_towards_target(t: TweenerModel, n: nat)
    requires
        t.wf(),
        t.motion is Some,
    ensures
        ({
            let m = t.motion.unwrap();
            &&& m.start <= m.target ==> t.value <= t.advance(n).value <= m.target
            &&& m.start >= m.target ==> t.value >= t.advance(n).value >= m.target
        }),
{
    let m = t.motion.unwrap();
    law_transition_is_monotonic(m, m.elapsed);
    if m.elapsed + n < m.tween.duration.length() {
        law_transition_is_monotonic(m, m.elapsed + n);
    }
}

} // verus!
