use atomic_arena::Arena;
use kira::channel::CommandQueue;
use kira::clock::{Clock, ClockHandle, ClockId, ClockSpeed, ClockTime};
use kira::command::{Command, CommandQueueFull};
use kira::tween::{Easing, Tween, TweenDuration};

fn two_ticks_per_second() -> Clock {
    Clock::new(ClockSpeed(2_000_000))
}

#[test]
fn a_new_clock_is_stopped() {
    let mut clock = two_ticks_per_second();
    let shared = clock.shared();
    assert!(!shared.ticking());
    assert_eq!(shared.ticks(), 0);
    assert!(!shared.is_marked_for_removal());
    assert_eq!(clock.update(500_000), None);
    assert_eq!(clock.update(10_000_000), None);
    assert_eq!(shared.ticks(), 0);
}

#[test]
fn a_started_clock_ticks_once_per_period() {
    let mut clock = two_ticks_per_second();
    clock.start();
    assert_eq!(clock.update(500_000), Some(0));
    assert_eq!(clock.update(500_000), Some(1));
    assert_eq!(clock.update(500_000), Some(2));
    assert_eq!(clock.shared().ticks(), 2);
    assert!(clock.shared().ticking());
}

#[test]
fn the_first_tick_does_not_come_at_the_start() {
    let mut clock = two_ticks_per_second();
    clock.start();
    assert_eq!(clock.update(250_000), None);
    assert_eq!(clock.update(250_000), Some(0));
    assert_eq!(clock.update(250_000), None);
    assert_eq!(clock.update(250_000), Some(1));
}

#[test]
fn no_time_no_tick() {
    let mut clock = two_ticks_per_second();
    clock.start();
    assert_eq!(clock.update(0), None);
    assert_eq!(clock.update(499_999), None);
    assert_eq!(clock.update(0), None);
    assert_eq!(clock.update(1), Some(0));
    assert_eq!(clock.update(0), None);
}

#[test]
fn several_ticks_in_one_block_are_all_counted() {
    let mut clock = two_ticks_per_second();
    clock.start();
    assert_eq!(clock.update(1_500_000), Some(2));
    assert_eq!(clock.shared().ticks(), 2);
    assert_eq!(clock.update(1_000_000), Some(4));
    assert_eq!(clock.update(250_000), None);
    assert_eq!(clock.update(250_000), Some(5));
}

#[test]
fn pause_freezes_the_ticks_and_start_continues() {
    let mut clock = two_ticks_per_second();
    let shared = clock.shared();
    clock.start();
    assert_eq!(clock.update(500_000), Some(0));
    assert_eq!(clock.update(500_000), Some(1));
    assert_eq!(clock.update(250_000), None);
    clock.pause();
    assert!(!shared.ticking());
    for _ in 0..10 {
        assert_eq!(clock.update(500_000), None);
        assert_eq!(shared.ticks(), 1);
        assert!(!shared.ticking());
    }
    clock.start();
    assert!(shared.ticking());
    assert_eq!(clock.update(250_000), Some(2));
    assert_eq!(shared.ticks(), 2);
}

#[test]
fn stop_then_start_counts_from_zero() {
    let mut clock = two_ticks_per_second();
    let shared = clock.shared();
    clock.start();
    assert_eq!(clock.update(500_000), Some(0));
    assert_eq!(clock.update(500_000), Some(1));
    assert_eq!(clock.update(400_000), None);
    clock.stop();
    assert!(!shared.ticking());
    assert_eq!(shared.ticks(), 0);
    assert_eq!(clock.update(500_000), None);
    clock.start();
    assert_eq!(clock.update(499_999), None);
    assert_eq!(clock.update(1), Some(0));
    assert_eq!(clock.update(500_000), Some(1));
}

#[test]
fn a_speed_that_is_not_positive_lets_the_clock_stand() {
    let mut clock = Clock::new(ClockSpeed(0));
    clock.start();
    assert_eq!(clock.update(10_000_000), None);
    let mut backwards = Clock::new(ClockSpeed(-5_000_000));
    backwards.start();
    assert_eq!(backwards.update(10_000_000), None);
    assert_eq!(ClockSpeed(-5_000_000).as_ticks_per_second(), -5_000_000);
}

#[test]
fn the_speed_moves_before_the_timer_runs() {
    let mut clock = Clock::new(ClockSpeed(1_000_000));
    clock.start();
    clock.set_speed(
        ClockSpeed(3_000_000),
        Tween { duration: TweenDuration::Seconds(1_000_000), easing: Easing::Linear },
    );
    // Half a second on, the speed is 2 ticks per second, and half a second
    // at that speed is one tick.
    assert_eq!(clock.update(500_000), Some(0));
    // The speed ends at 3 ticks per second: half a second is a tick and a
    // half.
    assert_eq!(clock.update(500_000), Some(1));
    assert_eq!(clock.update(500_000), Some(3));
}

#[test]
fn a_speed_timed_in_ticks_follows_its_clock() {
    let mut arena = Arena::<u8>::new(4);
    let metronome = ClockId::new(arena.insert(0).unwrap());
    let other = ClockId::new(arena.insert(0).unwrap());
    let mut clock = Clock::new(ClockSpeed(1_000_000));
    clock.start();
    clock.set_speed(
        ClockSpeed(2_000_000),
        Tween { duration: TweenDuration::Ticks(metronome, 2), easing: Easing::Linear },
    );
    // Time alone does not move the speed.
    assert_eq!(clock.update(500_000), None);
    clock.on_clock_tick(ClockTime { clock: other, ticks: 0 });
    assert_eq!(clock.update(500_000), Some(0));
    clock.on_clock_tick(ClockTime { clock: metronome, ticks: 0 });
    clock.on_clock_tick(ClockTime { clock: metronome, ticks: 1 });
    // Now the speed is 2 ticks per second.
    assert_eq!(clock.update(500_000), Some(1));
}

#[test]
fn clock_ids_are_told_apart_by_their_keys() {
    let mut arena = Arena::<u8>::new(2);
    let first = arena.insert(1).unwrap();
    let second = arena.insert(2).unwrap();
    let a = ClockId::new(first);
    let b = ClockId::new(second);
    assert!(a.is(&ClockId::new(first)));
    assert!(!a.is(&b));
    assert_eq!(a.key(), first);
    assert_eq!(a, ClockId::new(first));
    assert_ne!(a, b);
    // The key of a removed clock never names the clock that takes its slot.
    arena.remove(first);
    let third = arena.insert(3).unwrap();
    assert!(!ClockId::new(third).is(&a));
}

#[test]
fn a_clock_can_be_marked_for_removal_through_any_handle() {
    let clock = two_ticks_per_second();
    let one = clock.shared();
    let other = clock.shared();
    assert!(!other.is_marked_for_removal());
    one.mark_for_removal();
    assert!(other.is_marked_for_removal());
    assert!(clock.shared().is_marked_for_removal());
}

#[test]
fn a_clock_obeys_the_commands_of_its_handle() {
    let mut arena = Arena::<u8>::new(1);
    let id = ClockId::new(arena.insert(0).unwrap());
    let mut clock = two_ticks_per_second();
    let (producer, mut consumer) = CommandQueue::new(3).split();
    let mut handle = ClockHandle::new(id, clock.shared(), producer);
    assert_eq!(handle.id(), id);
    assert!(!handle.ticking());
    assert_eq!(handle.start(), Ok(()));
    assert_eq!(
        handle.set_speed(
            ClockSpeed(4_000_000),
            Tween { duration: TweenDuration::Seconds(0), easing: Easing::Linear }
        ),
        Ok(())
    );
    assert_eq!(handle.pause(), Ok(()));
    assert_eq!(handle.stop(), Err(CommandQueueFull));
    let mut obey = |clock: &mut Clock| match consumer.pop() {
        Some(Command::Clock(command)) => clock.on_command(command),
        _ => panic!("a command to the clock was sent"),
    };
    obey(&mut clock);
    assert!(handle.ticking());
    obey(&mut clock);
    assert_eq!(clock.update(250_000), Some(0));
    assert_eq!(clock.update(250_000), Some(1));
    assert_eq!(handle.ticks(), 1);
    obey(&mut clock);
    assert!(!handle.ticking());
    assert_eq!(clock.update(250_000), None);
    assert_eq!(handle.stop(), Ok(()));
    obey(&mut clock);
    assert_eq!(handle.ticks(), 0);
    handle.mark_for_removal();
    assert!(clock.shared().is_marked_for_removal());
}
