use atomic_arena::Arena;
use kira::clock::{ClockId, ClockTime};
use kira::tween::{Easing, Tween, TweenDuration, Tweener};

fn linear(duration: u64) -> Tween {
    Tween { duration: TweenDuration::Seconds(duration), easing: Easing::Linear }
}

#[test]
fn a_linear_tween_goes_from_zero_to_one() {
    let mut tweener = Tweener::new(0);
    assert!(tweener.is_idle());
    tweener.set(1_000_000, linear(2_000_000));
    assert_eq!(tweener.value(), 0);
    assert!(!tweener.is_idle());
    let mut last = 0;
    for step in 1..8 {
        assert!(!tweener.update(250_000));
        let value = tweener.value();
        assert_eq!(value, step * 125_000);
        assert!(value >= last);
        last = value;
    }
    assert!(tweener.update(250_000));
    assert_eq!(tweener.value(), 1_000_000);
    assert!(tweener.is_idle());
    assert!(!tweener.update(250_000));
    assert_eq!(tweener.value(), 1_000_000);
}

#[test]
fn a_tween_never_overshoots() {
    let mut tweener = Tweener::new(0);
    tweener.set(1_000_000, linear(1_000_000));
    assert!(tweener.update(u64::MAX));
    assert_eq!(tweener.value(), 1_000_000);
}

#[test]
fn a_tween_of_no_length_jumps() {
    let mut tweener = Tweener::new(250_000);
    tweener.set(-3_000_000, linear(0));
    assert!(tweener.is_idle());
    assert_eq!(tweener.value(), -3_000_000);
    tweener.set(5, Tween { duration: TweenDuration::Seconds(0), easing: Easing::InPowi(3) });
    assert_eq!(tweener.value(), 5);
}

#[test]
fn set_in_mid_tween_restarts_from_the_current_value() {
    let mut tweener = Tweener::new(0);
    tweener.set(1_000_000, linear(1_000_000));
    tweener.update(500_000);
    assert_eq!(tweener.value(), 500_000);
    tweener.set(0, linear(500_000));
    assert_eq!(tweener.value(), 500_000);
    assert!(!tweener.update(250_000));
    assert_eq!(tweener.value(), 250_000);
    assert!(tweener.update(250_000));
    assert_eq!(tweener.value(), 0);
}

#[test]
fn a_tween_downwards_rounds_towards_its_start() {
    let mut tweener = Tweener::new(10);
    tweener.set(0, linear(3));
    tweener.update(1);
    // A third of the way: 10 - floor(10 / 3).
    assert_eq!(tweener.value(), 7);
    tweener.update(1);
    assert_eq!(tweener.value(), 4);
    tweener.update(1);
    assert_eq!(tweener.value(), 0);
}

#[test]
fn easing_curves_at_chosen_points() {
    assert_eq!(Easing::Linear.apply(300_000), 300_000);
    assert_eq!(Easing::InPowi(2).apply(500_000), 250_000);
    assert_eq!(Easing::InPowi(3).apply(500_000), 125_000);
    assert_eq!(Easing::OutPowi(2).apply(500_000), 750_000);
    assert_eq!(Easing::InOutPowi(2).apply(250_000), 125_000);
    assert_eq!(Easing::InOutPowi(2).apply(500_000), 500_000);
    assert_eq!(Easing::InOutPowi(2).apply(750_000), 875_000);
    assert_eq!(Easing::InPowi(0).apply(0), 1_000_000);
    for easing in [Easing::Linear, Easing::InPowi(2), Easing::OutPowi(3), Easing::InOutPowi(2)] {
        assert_eq!(easing.apply(0), 0);
        assert_eq!(easing.apply(1_000_000), 1_000_000);
    }
}

#[test]
fn every_easing_curve_is_monotonic() {
    for easing in [Easing::Linear, Easing::InPowi(2), Easing::OutPowi(3), Easing::InOutPowi(5)] {
        let mut last = 0;
        for step in 0..=100 {
            let value = easing.apply(step * 10_000);
            assert!(value >= last);
            assert!(value <= 1_000_000);
            last = value;
        }
    }
}

#[test]
fn an_eased_tween_at_its_middle() {
    let mut tweener = Tweener::new(1_000_000);
    tweener.set(
        3_000_000,
        Tween { duration: TweenDuration::Seconds(1_000), easing: Easing::InPowi(2) },
    );
    tweener.update(500);
    assert_eq!(tweener.value(), 1_500_000);
}

#[test]
fn a_tween_timed_in_ticks_moves_only_with_its_clock() {
    let mut arena = Arena::<u8>::new(4);
    let clock = ClockId::new(arena.insert(0).unwrap());
    let other = ClockId::new(arena.insert(0).unwrap());
    let mut tweener = Tweener::new(0);
    tweener.set(
        1_000_000,
        Tween { duration: TweenDuration::Ticks(clock, 4), easing: Easing::Linear },
    );
    assert!(!tweener.update(10_000_000));
    assert_eq!(tweener.value(), 0);
    assert!(!tweener.on_clock_tick(ClockTime { clock: other, ticks: 0 }));
    assert_eq!(tweener.value(), 0);
    assert!(!tweener.on_clock_tick(ClockTime { clock, ticks: 0 }));
    assert_eq!(tweener.value(), 250_000);
    assert!(!tweener.on_clock_tick(ClockTime { clock, ticks: 1 }));
    assert!(!tweener.on_clock_tick(ClockTime { clock, ticks: 2 }));
    assert_eq!(tweener.value(), 750_000);
    assert!(tweener.on_clock_tick(ClockTime { clock, ticks: 3 }));
    assert_eq!(tweener.value(), 1_000_000);
    assert!(tweener.is_idle());
}

#[test]
fn a_tween_timed_in_seconds_ignores_ticks() {
    let mut arena = Arena::<u8>::new(1);
    let clock = ClockId::new(arena.insert(0).unwrap());
    let mut tweener = Tweener::new(0);
    tweener.set(100, linear(10));
    assert!(!tweener.on_clock_tick(ClockTime { clock, ticks: 0 }));
    assert_eq!(tweener.value(), 0);
    assert_eq!(TweenDuration::Seconds(10).len(), 10);
    assert_eq!(TweenDuration::Ticks(clock, 7).len(), 7);
}
