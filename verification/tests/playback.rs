use kira::fixed::{add_clamped, clamp_unit, scale, scale_signed, sub_clamped, times, travel, ONE};
use kira::frame::Frame;
use kira::playback::{decode_state, encode_state, Playback, PlaybackShared, PlaybackState};
use kira::tween::{Easing, Tween, TweenDuration};
use kira::value::Value;

fn linear(duration: u64) -> Tween {
    Tween { duration: TweenDuration::Seconds(duration), easing: Easing::Linear }
}

fn playing() -> Playback {
    Playback::new(Value::Fixed(500_000), Value::Fixed(2_000_000), Value::Fixed(500_000), false, 0, None)
}

#[test]
fn fixed_point_arithmetic_rounds_towards_zero() {
    assert_eq!(ONE, 1_000_000);
    assert_eq!(scale(10, 1, 3), 3);
    assert_eq!(scale(u64::MAX, 7, 7), u64::MAX);
    assert_eq!(scale(u64::MAX, 0, 7), 0);
    assert_eq!(scale_signed(-10, 1, 3), -3);
    assert_eq!(scale_signed(10, 2, 3), 6);
    assert_eq!(scale_signed(i64::MIN, 5, 5), i64::MIN);
    assert_eq!(times(1_500_000, 500_000), 750_000);
    assert_eq!(times(-1_500_000, 500_000), -750_000);
    assert_eq!(times(-3, 500_000), -1);
    assert_eq!(times(3, -500_000), -1);
    assert_eq!(times(i64::MAX, 2_000_000), i64::MAX);
    assert_eq!(times(i64::MIN, 2_000_000), i64::MIN);
    assert_eq!(times(i64::MIN, i64::MIN), i64::MAX);
    assert_eq!(add_clamped(i64::MAX, 1), i64::MAX);
    assert_eq!(add_clamped(i64::MIN, -1), i64::MIN);
    assert_eq!(add_clamped(-5, 7), 2);
    assert_eq!(sub_clamped(i64::MIN, 1), i64::MIN);
    assert_eq!(sub_clamped(0, i64::MIN), i64::MAX);
    assert_eq!(sub_clamped(7, 5), 2);
    assert_eq!(clamp_unit(-1), 0);
    assert_eq!(clamp_unit(250_000), 250_000);
    assert_eq!(clamp_unit(i64::MAX), 1_000_000);
}

#[test]
fn travel_is_rate_times_time() {
    assert_eq!(travel(0, 1_000_000, 250_000, false), 250_000);
    assert_eq!(travel(100, 2_000_000, 250_000, false), 500_100);
    assert_eq!(travel(100, 2_000_000, 250_000, true), -499_900);
    assert_eq!(travel(100, -2_000_000, 250_000, false), -499_900);
    assert_eq!(travel(100, -2_000_000, 250_000, true), 500_100);
    assert_eq!(travel(0, 333_333, 10, false), 3);
    assert_eq!(travel(0, -333_333, 10, false), -3);
    assert_eq!(travel(i64::MAX, i64::MAX, u64::MAX, false), i64::MAX);
    assert_eq!(travel(i64::MIN, i64::MIN, u64::MAX, false), i64::MIN);
    assert_eq!(travel(7, i64::MIN, 0, true), 7);
}

#[test]
fn frames_add_scale_and_pan() {
    let frame = Frame { left: 100, right: -200 };
    assert_eq!(Frame::zero(), Frame { left: 0, right: 0 });
    assert_eq!(frame.add(Frame { left: 1, right: 2 }), Frame { left: 101, right: -198 });
    assert_eq!(
        Frame { left: i64::MAX, right: i64::MIN }.add(Frame { left: 1, right: -1 }),
        Frame { left: i64::MAX, right: i64::MIN }
    );
    assert_eq!(frame.scale(500_000), Frame { left: 50, right: -100 });
    assert_eq!(frame.scale(-1_000_000), Frame { left: -100, right: 200 });
    assert_eq!(frame.pan(500_000), frame);
    assert_eq!(frame.pan(0), Frame { left: 100, right: 0 });
    assert_eq!(frame.pan(-5), Frame { left: 100, right: 0 });
    assert_eq!(frame.pan(1_000_000), Frame { left: 0, right: -200 });
    assert_eq!(frame.pan(9_000_000), Frame { left: 0, right: -200 });
    assert_eq!(frame.pan(250_000), Frame { left: 100, right: -100 });
    assert_eq!(frame.pan(750_000), Frame { left: 50, right: -200 });
}

#[test]
fn playback_advances_at_its_rate() {
    let mut playback = playing();
    assert_eq!(playback.state(), PlaybackState::Playing);
    assert_eq!(playback.volume(), 500_000);
    assert_eq!(playback.playback_rate(), 2_000_000);
    assert_eq!(playback.panning(), 500_000);
    assert_eq!(playback.gain(), 500_000);
    assert!(!playback.reverse());
    playback.update(250_000);
    assert_eq!(playback.position(), 500_000);
    playback.set_playback_rate(Value::Fixed(-1_000_000));
    playback.update(100_000);
    assert_eq!(playback.position(), 400_000);
    playback.seek_to(-7);
    assert_eq!(playback.position(), -7);
    playback.seek_by(10);
    assert_eq!(playback.position(), 3);
    playback.seek_by(i64::MAX);
    assert_eq!(playback.position(), i64::MAX);
    playback.set_volume(Value::Fixed(3));
    playback.set_panning(Value::Fixed(4));
    assert_eq!(playback.volume(), 3);
    assert_eq!(playback.panning(), 4);
}

#[test]
fn a_fade_in_starts_from_silence() {
    let mut playback = Playback::new(
        Value::Fixed(500_000),
        Value::Fixed(1_000_000),
        Value::Fixed(500_000),
        false,
        0,
        Some(linear(1_000_000)),
    );
    assert_eq!(playback.gain(), 0);
    playback.update(500_000);
    assert_eq!(playback.gain(), 250_000);
    playback.update(500_000);
    assert_eq!(playback.gain(), 500_000);
    assert_eq!(playback.state(), PlaybackState::Playing);
}

#[test]
fn pausing_fades_out_and_stands_still_when_paused() {
    let mut playback = playing();
    playback.pause(linear(100_000));
    assert_eq!(playback.state(), PlaybackState::Pausing);
    playback.update(50_000);
    assert_eq!(playback.state(), PlaybackState::Pausing);
    assert_eq!(playback.gain(), 250_000);
    assert_eq!(playback.position(), 100_000);
    playback.update(50_000);
    assert_eq!(playback.state(), PlaybackState::Paused);
    assert_eq!(playback.gain(), 0);
    assert_eq!(playback.position(), 200_000);
    playback.update(1_000_000);
    assert_eq!(playback.position(), 200_000);
    playback.seek_to(5);
    assert_eq!(playback.position(), 5);
    playback.resume(linear(0));
    assert_eq!(playback.state(), PlaybackState::Playing);
    assert_eq!(playback.gain(), 500_000);
    playback.pause(linear(0));
    assert_eq!(playback.state(), PlaybackState::Paused);
}

#[test]
fn stopped_is_for_good() {
    let mut playback = playing();
    playback.stop(linear(10));
    assert_eq!(playback.state(), PlaybackState::Stopping);
    playback.pause(linear(0));
    playback.resume(linear(0));
    assert_eq!(playback.state(), PlaybackState::Stopping);
    playback.update(10);
    assert_eq!(playback.state(), PlaybackState::Stopped);
    playback.resume(linear(0));
    playback.pause(linear(0));
    playback.stop(linear(5));
    playback.update(1_000);
    assert_eq!(playback.state(), PlaybackState::Stopped);
    assert_eq!(playback.position(), 20);
}

#[test]
fn states_are_published_by_number() {
    let states = [
        PlaybackState::Playing,
        PlaybackState::Pausing,
        PlaybackState::Paused,
        PlaybackState::Stopping,
        PlaybackState::Stopped,
    ];
    for (number, state) in states.iter().enumerate() {
        assert_eq!(encode_state(*state) as usize, number);
        assert_eq!(decode_state(encode_state(*state)), *state);
    }
    assert_eq!(decode_state(200), PlaybackState::Stopped);
    let shared = PlaybackShared::new(-12);
    assert_eq!(shared.state(), PlaybackState::Playing);
    assert_eq!(shared.position(), -12);
}
