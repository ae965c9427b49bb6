use kira::frame::Frame;
use kira::playback::PlaybackState;
use kira::streaming::{Decoder, StreamingSound, StreamingSoundHandle, StreamingSoundSettings};
use kira::tween::{Easing, Tween, TweenDuration};
use kira::value::Value;
use std::collections::VecDeque;

/// Gives frames whose left side is their number, four at a time.
struct Counter {
    next: i64,
    end: i64,
    resets: usize,
}

impl Counter {
    fn new(end: i64) -> Self {
        Counter { next: 0, end, resets: 0 }
    }
}

impl Decoder for Counter {
    fn sample_rate(&mut self) -> u32 {
        1_000
    }

    fn decode(&mut self) -> Option<VecDeque<Frame>> {
        if self.next >= self.end {
            return None;
        }
        let mut frames = VecDeque::new();
        while frames.len() < 4 && self.next < self.end {
            frames.push_back(Frame { left: self.next, right: -self.next });
            self.next += 1;
        }
        Some(frames)
    }

    fn reset(&mut self) {
        self.next = 0;
        self.resets += 1;
    }
}

fn settings() -> StreamingSoundSettings {
    StreamingSoundSettings {
        volume: Value::Fixed(1_000_000),
        playback_rate: Value::Fixed(1_000_000),
        panning: Value::Fixed(500_000),
        command_capacity: 4,
        frame_capacity: 8,
    }
}

fn start(decoder: &mut Counter) -> (StreamingSound, StreamingSoundHandle) {
    StreamingSound::for_decoder(decoder, settings())
}

const MOMENT: u64 = 1_000;

fn instant() -> Tween {
    Tween { duration: TweenDuration::Seconds(0), easing: Easing::Linear }
}

#[test]
fn frames_are_played_in_the_order_they_are_decoded() {
    let mut decoder = Counter::new(1_000);
    let (mut sound, _handle) = start(&mut decoder);
    assert_eq!(sound.process(MOMENT), Frame { left: 0, right: 0 });
    assert_eq!(sound.buffered(), 0);
    sound.pump(&mut decoder);
    assert_eq!(sound.buffered(), 4);
    sound.pump(&mut decoder);
    assert_eq!(sound.buffered(), 8);
    sound.pump(&mut decoder);
    assert_eq!(sound.buffered(), 8);
    for n in 0..8 {
        assert_eq!(sound.process(MOMENT), Frame { left: n, right: -n });
    }
    assert_eq!(sound.process(MOMENT), Frame { left: 0, right: 0 });
    sound.pump(&mut decoder);
    assert_eq!(sound.process(MOMENT), Frame { left: 8, right: -8 });
    assert_eq!(sound.state(), PlaybackState::Playing);
}

#[test]
fn the_buffer_never_holds_more_than_its_capacity() {
    let mut decoder = Counter::new(1_000);
    let (mut sound, _handle) = StreamingSound::new(
        1_000,
        StreamingSoundSettings { frame_capacity: 6, ..settings() },
    );
    sound.pump(&mut decoder);
    sound.pump(&mut decoder);
    assert_eq!(sound.buffered(), 6);
    sound.pump(&mut decoder);
    assert_eq!(sound.buffered(), 6);
    for n in 0..6 {
        assert_eq!(sound.process(MOMENT).left, n);
    }
    // What found no room was kept, not lost.
    sound.pump(&mut decoder);
    assert_eq!(sound.process(MOMENT).left, 6);
    assert_eq!(sound.process(MOMENT).left, 7);
    assert_eq!(sound.process(MOMENT).left, 8);
}

#[test]
fn a_seek_plays_from_where_the_decoder_starts_over() {
    let mut decoder = Counter::new(1_000);
    let (mut sound, mut handle) = start(&mut decoder);
    sound.pump(&mut decoder);
    sound.pump(&mut decoder);
    assert_eq!(sound.process(MOMENT).left, 0);
    assert_eq!(sound.process(MOMENT).left, 1);
    assert_eq!(handle.seek_to(20_000), Ok(()));
    // The frames that were decoded ahead are gone: silence, until the
    // decoder has caught up.
    assert_eq!(sound.process(MOMENT), Frame { left: 0, right: 0 });
    assert_eq!(sound.buffered(), 0);
    assert_eq!(decoder.resets, 0);
    let mut turns = 0;
    while sound.buffered() == 0 {
        sound.pump(&mut decoder);
        turns += 1;
        assert!(turns < 100);
    }
    assert_eq!(decoder.resets, 1);
    assert_eq!(sound.process(MOMENT), Frame { left: 20, right: -20 });
    assert_eq!(sound.process(MOMENT), Frame { left: 21, right: -21 });
}

#[test]
fn a_seek_by_an_amount_counts_from_the_position() {
    let mut decoder = Counter::new(1_000);
    let (mut sound, mut handle) = start(&mut decoder);
    sound.pump(&mut decoder);
    for _ in 0..3 {
        sound.process(MOMENT);
    }
    assert_eq!(sound.position(), 3_000);
    assert_eq!(handle.position(), 3_000);
    assert_eq!(handle.seek_by(7_500), Ok(()));
    sound.process(MOMENT);
    // 3000 + 7500 microseconds is in the tenth frame; then the moment passed.
    assert_eq!(sound.position(), 11_500);
    for _ in 0..10 {
        sound.pump(&mut decoder);
    }
    assert_eq!(sound.process(MOMENT).left, 10);
    assert_eq!(handle.seek_by(-1_000_000), Ok(()));
    sound.process(MOMENT);
    for _ in 0..10 {
        sound.pump(&mut decoder);
    }
    // Before the start there is only the first frame.
    assert_eq!(sound.process(MOMENT).left, 0);
    assert_eq!(decoder.resets, 2);
}

#[test]
fn a_seek_in_the_middle_of_a_batch_passes_over_its_first_frames() {
    let mut decoder = Counter::new(1_000);
    let (mut sound, mut handle) = start(&mut decoder);
    assert_eq!(handle.seek_to(6_000), Ok(()));
    sound.process(MOMENT);
    sound.pump(&mut decoder);
    assert_eq!(sound.buffered(), 0);
    sound.pump(&mut decoder);
    assert_eq!(sound.buffered(), 2);
    assert_eq!(sound.process(MOMENT).left, 6);
    assert_eq!(sound.process(MOMENT).left, 7);
}

#[test]
fn the_end_of_the_audio_stops_the_sound() {
    let mut decoder = Counter::new(6);
    let (mut sound, handle) = start(&mut decoder);
    for _ in 0..4 {
        sound.pump(&mut decoder);
    }
    for n in 0..6 {
        assert_eq!(sound.process(MOMENT).left, n);
        assert_eq!(sound.state(), PlaybackState::Playing);
    }
    assert!(!sound.finished());
    assert_eq!(sound.process(MOMENT), Frame { left: 0, right: 0 });
    assert_eq!(sound.state(), PlaybackState::Stopped);
    assert!(sound.finished());
    assert_eq!(handle.state(), PlaybackState::Stopped);
}

#[test]
fn commands_are_obeyed_before_the_moment_they_arrive_in() {
    let mut decoder = Counter::new(1_000);
    let (mut sound, mut handle) = start(&mut decoder);
    sound.pump(&mut decoder);
    sound.pump(&mut decoder);
    // The frame 0 is silent at any volume; play it first.
    sound.process(MOMENT);
    assert_eq!(handle.set_volume(Value::Fixed(500_000)), Ok(()));
    assert_eq!(handle.set_panning(Value::Fixed(0)), Ok(()));
    assert_eq!(sound.process(MOMENT), Frame { left: 0, right: 0 });
    assert_eq!(handle.set_panning(Value::Fixed(1_000_000)), Ok(()));
    assert_eq!(sound.process(MOMENT), Frame { left: 0, right: -1 });
    assert_eq!(handle.set_panning(Value::Fixed(500_000)), Ok(()));
    assert_eq!(handle.set_volume(Value::Fixed(2_000_000)), Ok(()));
    assert_eq!(sound.process(MOMENT), Frame { left: 6, right: -6 });
}

#[test]
fn pause_resume_and_stop() {
    let mut decoder = Counter::new(1_000);
    let (mut sound, mut handle) = start(&mut decoder);
    sound.pump(&mut decoder);
    sound.pump(&mut decoder);
    assert_eq!(sound.process(MOMENT).left, 0);
    assert_eq!(handle.pause(instant()), Ok(()));
    assert_eq!(sound.process(MOMENT), Frame { left: 0, right: 0 });
    assert_eq!(sound.state(), PlaybackState::Paused);
    assert_eq!(handle.state(), PlaybackState::Paused);
    let position = sound.position();
    for _ in 0..5 {
        assert_eq!(sound.process(MOMENT), Frame { left: 0, right: 0 });
    }
    assert_eq!(sound.position(), position);
    assert_eq!(sound.buffered(), 7);
    assert_eq!(handle.resume(instant()), Ok(()));
    assert_eq!(sound.process(MOMENT).left, 1);
    assert_eq!(sound.state(), PlaybackState::Playing);
    let fade = Tween { duration: TweenDuration::Seconds(2_000), easing: Easing::Linear };
    assert_eq!(handle.stop(fade), Ok(()));
    // Half faded after the first moment, silent and stopped after the second.
    assert_eq!(sound.process(MOMENT), Frame { left: 1, right: -1 });
    assert_eq!(sound.state(), PlaybackState::Stopping);
    assert_eq!(sound.process(MOMENT), Frame { left: 0, right: 0 });
    assert_eq!(sound.state(), PlaybackState::Stopped);
    assert_eq!(handle.resume(instant()), Ok(()));
    assert_eq!(sound.process(MOMENT), Frame { left: 0, right: 0 });
    assert_eq!(sound.state(), PlaybackState::Stopped);
}

#[test]
fn the_handle_is_told_when_the_queue_is_full() {
    let mut decoder = Counter::new(1_000);
    let (mut sound, mut handle) = start(&mut decoder);
    for n in 0..4 {
        assert_eq!(handle.set_playback_rate(Value::Fixed(n)), Ok(()));
    }
    assert!(handle.seek_to(5).is_err());
    assert!(handle.set_volume(Value::Fixed(1)).is_err());
    assert!(handle.pause(instant()).is_err());
    sound.process(MOMENT);
    assert_eq!(handle.seek_to(5), Ok(()));
}

#[test]
fn a_sound_that_was_removed_takes_no_more_commands() {
    let mut decoder = Counter::new(1_000);
    let (sound, mut handle) = start(&mut decoder);
    assert_eq!(handle.set_volume(Value::Fixed(1)), Ok(()));
    drop(sound);
    // Three of four places are free, but the sound is gone.
    assert!(handle.stop(instant()).is_err());
    assert!(handle.seek_to(5).is_err());
    assert!(handle.set_volume(Value::Fixed(2)).is_err());
}
