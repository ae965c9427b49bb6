use atomic_arena::Arena;
use kira::channel::{CommandQueue, SharedProducer};
use kira::command::{Command, CommandQueueFull, InstanceCommand};
use kira::instance::{
    Instance, InstanceHandle, InstanceId, InstanceLoopStart, InstanceSettings, InstanceTrackIndex,
    PauseInstanceSettings, ResumeInstanceSettings, StopInstanceSettings,
};
use kira::playback::PlaybackState;
use kira::sound::{Sound, SoundHandle, SoundId};
use kira::track::{SubTrackId, TrackIndex};
use kira::tween::{Easing, Tween, TweenDuration};
use kira::value::Value;

fn ids() -> (SoundId, InstanceId, InstanceId) {
    let mut arena = Arena::<u8>::new(8);
    (
        SoundId::new(arena.insert(0).unwrap()),
        InstanceId::new(arena.insert(0).unwrap()),
        InstanceId::new(arena.insert(0).unwrap()),
    )
}

fn ten_seconds(id: SoundId) -> Sound {
    Sound::new(id, 10_000_000, TrackIndex::Sub(SubTrackId(2)), Some(8_000_000), Some(1_000_000))
}

fn fade(duration: u64) -> Option<Tween> {
    Some(Tween { duration: TweenDuration::Seconds(duration), easing: Easing::Linear })
}

#[test]
fn a_handle_knows_its_sound() {
    let (id, _, _) = ids();
    let sound = ten_seconds(id);
    let (producer, _consumer) = CommandQueue::new(4).split();
    let handle = SoundHandle::new(&sound, producer);
    assert_eq!(handle.id(), id);
    assert!(handle.id().is(&sound.id()));
    assert_eq!(handle.duration(), 10_000_000);
    assert_eq!(handle.default_track(), TrackIndex::Sub(SubTrackId(2)));
    assert_eq!(handle.semantic_duration(), Some(8_000_000));
    assert_eq!(handle.default_loop_start(), Some(1_000_000));
    assert_eq!(sound.duration(), 10_000_000);
    assert_eq!(sound.default_track(), TrackIndex::Sub(SubTrackId(2)));
    assert_eq!(sound.semantic_duration(), Some(8_000_000));
    assert_eq!(sound.default_loop_start(), Some(1_000_000));
}

#[test]
fn play_sends_an_instance_with_the_defaults_of_the_sound() {
    let (id, first, _) = ids();
    let sound = ten_seconds(id);
    let (producer, mut consumer) = CommandQueue::new(4).split();
    let mut handle = SoundHandle::new(&sound, producer);
    let instance_handle = handle.play(InstanceSettings::new(first)).unwrap();
    assert_eq!(instance_handle.id(), first);
    assert_eq!(instance_handle.state(), PlaybackState::Playing);
    assert_eq!(instance_handle.position(), 0);
    match consumer.pop() {
        Some(Command::Instance(InstanceCommand::Play(sent_id, mut instance))) => {
            assert_eq!(sent_id, first);
            assert_eq!(instance.sound(), id);
            assert_eq!(instance.track_index(), TrackIndex::Sub(SubTrackId(2)));
            assert_eq!(instance.position(), 0);
            assert_eq!(instance.state(), PlaybackState::Playing);
            // What the instance publishes, the handle reads.
            instance.update(250_000);
            assert_eq!(instance_handle.position(), 250_000);
        }
        _ => panic!("the command to play was sent"),
    }
    assert!(consumer.pop().is_none());
}

#[test]
fn play_in_reverse_starts_from_the_end() {
    let (id, first, _) = ids();
    let sound = ten_seconds(id);
    let (producer, mut consumer) = CommandQueue::new(4).split();
    let mut handle = SoundHandle::new(&sound, producer);
    let settings = InstanceSettings {
        reverse: true,
        start_position: 2_000_000,
        track: InstanceTrackIndex::Custom(TrackIndex::Main),
        loop_start: InstanceLoopStart::Off,
        ..InstanceSettings::new(first)
    };
    let instance_handle = handle.play(settings).unwrap();
    assert_eq!(instance_handle.position(), 8_000_000);
    match consumer.pop() {
        Some(Command::Instance(InstanceCommand::Play(_, mut instance))) => {
            assert_eq!(instance.track_index(), TrackIndex::Main);
            assert_eq!(instance.position(), 8_000_000);
            instance.update(3_000_000);
            assert_eq!(instance.position(), 5_000_000);
            instance.update(5_000_000);
            assert_eq!(instance.position(), 0);
            assert_eq!(instance.state(), PlaybackState::Playing);
            instance.update(1);
            assert!(instance.finished());
        }
        _ => panic!("the command to play was sent"),
    }
}

#[test]
fn play_fails_when_the_queue_is_full() {
    let (id, first, second) = ids();
    let sound = ten_seconds(id);
    let (producer, mut consumer) = CommandQueue::new(1).split();
    let mut handle = SoundHandle::new(&sound, producer);
    assert!(handle.play(InstanceSettings::new(first)).is_ok());
    assert!(matches!(handle.play(InstanceSettings::new(second)), Err(CommandQueueFull)));
    assert_eq!(handle.pause(PauseInstanceSettings { fade_tween: None }), Err(CommandQueueFull));
    assert!(matches!(consumer.pop(), Some(Command::Instance(InstanceCommand::Play(_, _)))));
    assert!(consumer.pop().is_none());
    assert!(handle.play(InstanceSettings::new(second)).is_ok());
}

#[test]
fn pause_resume_and_stop_name_the_sound() {
    let (id, _, _) = ids();
    let sound = ten_seconds(id);
    let (producer, mut consumer) = CommandQueue::new(4).split();
    let mut handle = SoundHandle::new(&sound, producer);
    assert_eq!(handle.pause(PauseInstanceSettings { fade_tween: fade(10) }), Ok(()));
    assert_eq!(handle.resume(ResumeInstanceSettings { fade_tween: fade(20) }), Ok(()));
    assert_eq!(handle.stop(StopInstanceSettings { fade_tween: None }), Ok(()));
    match consumer.pop() {
        Some(Command::Instance(InstanceCommand::PauseInstancesOf(of, settings))) => {
            assert_eq!(of, id);
            assert_eq!(settings.fade_tween, fade(10));
        }
        _ => panic!("the pause was sent first"),
    }
    match consumer.pop() {
        Some(Command::Instance(InstanceCommand::ResumeInstancesOf(of, settings))) => {
            assert_eq!(of, id);
            assert_eq!(settings.fade_tween, fade(20));
        }
        _ => panic!("the resume was sent second"),
    }
    match consumer.pop() {
        Some(Command::Instance(InstanceCommand::StopInstancesOf(of, settings))) => {
            assert_eq!(of, id);
            assert_eq!(settings.fade_tween, None);
        }
        _ => panic!("the stop was sent third"),
    }
}

#[test]
fn settings_are_filled_in_from_the_sound() {
    let (_, first, _) = ids();
    let settings = InstanceSettings::new(first);
    assert_eq!(settings.volume, Value::Fixed(1_000_000));
    assert_eq!(settings.playback_rate, Value::Fixed(1_000_000));
    assert_eq!(settings.panning, Value::Fixed(500_000));
    let internal = settings.into_internal(4_000_000, Some(500_000), TrackIndex::Main);
    assert_eq!(internal.start_position, 0);
    assert_eq!(internal.loop_start, Some(500_000));
    assert_eq!(internal.track, TrackIndex::Main);
    let custom = InstanceSettings {
        reverse: true,
        start_position: i64::MIN,
        loop_start: InstanceLoopStart::Custom(9),
        track: InstanceTrackIndex::Custom(TrackIndex::Sub(SubTrackId(1))),
        ..settings
    };
    let internal = custom.into_internal(4_000_000, Some(500_000), TrackIndex::Main);
    assert_eq!(internal.start_position, i64::MAX);
    assert_eq!(internal.loop_start, Some(9));
    assert_eq!(internal.track, TrackIndex::Sub(SubTrackId(1)));
    assert_eq!(InstanceLoopStart::Off.into_option(Some(1)), None);
    assert_eq!(InstanceLoopStart::Default.into_option(None), None);
    assert_eq!(InstanceTrackIndex::DefaultForSound.or_default(TrackIndex::Main), TrackIndex::Main);
}

fn instance(loop_start: InstanceLoopStart, reverse: bool, start: i64) -> (Instance, InstanceHandle) {
    let (sound, id, _) = ids();
    let settings = InstanceSettings { loop_start, reverse, start_position: start, ..InstanceSettings::new(id) };
    let instance = Instance::new(sound, 1_000_000, settings.into_internal(1_000_000, None, TrackIndex::Main));
    let (producer, _) = CommandQueue::new(1).split();
    let handle = InstanceHandle::new(id, instance.public_state(), SharedProducer::new(producer));
    (instance, handle)
}

#[test]
fn an_instance_without_a_loop_stops_at_the_end() {
    let (mut instance, handle) = instance(InstanceLoopStart::Default, false, 0);
    instance.update(900_000);
    assert_eq!(instance.position(), 900_000);
    instance.update(100_000);
    assert_eq!(instance.position(), 1_000_000);
    assert!(!instance.finished());
    instance.update(1);
    assert!(instance.finished());
    assert_eq!(handle.state(), PlaybackState::Stopped);
    instance.update(1_000);
    assert_eq!(instance.position(), 1_000_001);
    instance.resume(ResumeInstanceSettings { fade_tween: None });
    assert!(instance.finished());
}

#[test]
fn an_instance_with_a_loop_goes_round() {
    let (mut instance, handle) = instance(InstanceLoopStart::Custom(250_000), false, 0);
    instance.update(900_000);
    instance.update(200_000);
    // 100000 past the end, into a loop of 750000 that starts at 250000.
    assert_eq!(instance.position(), 350_000);
    assert_eq!(handle.position(), 350_000);
    assert_eq!(instance.state(), PlaybackState::Playing);
    instance.update(2_000_000);
    // 1350000 past the end: once round and 600000.
    assert_eq!(instance.position(), 850_000);
    let (mut backwards, _) = self::instance(InstanceLoopStart::Custom(250_000), true, 0);
    assert_eq!(backwards.position(), 1_000_000);
    backwards.update(800_000);
    // 50000 before the loop start: that far from the end.
    assert_eq!(backwards.position(), 950_000);
}

#[test]
fn an_instance_fades_out_before_it_pauses() {
    let (mut instance, handle) = instance(InstanceLoopStart::Default, false, 0);
    instance.pause(PauseInstanceSettings { fade_tween: fade(100_000) });
    assert_eq!(instance.state(), PlaybackState::Pausing);
    assert_eq!(handle.state(), PlaybackState::Pausing);
    instance.update(50_000);
    assert_eq!(instance.state(), PlaybackState::Pausing);
    instance.update(50_000);
    assert_eq!(instance.state(), PlaybackState::Paused);
    assert_eq!(instance.position(), 100_000);
    instance.update(500_000);
    assert_eq!(instance.position(), 100_000);
    instance.resume(ResumeInstanceSettings { fade_tween: fade(100_000) });
    assert_eq!(instance.state(), PlaybackState::Playing);
    instance.update(10_000);
    assert_eq!(instance.position(), 110_000);
    instance.stop(StopInstanceSettings { fade_tween: fade(10_000) });
    assert_eq!(instance.state(), PlaybackState::Stopping);
    instance.pause(PauseInstanceSettings { fade_tween: None });
    assert_eq!(instance.state(), PlaybackState::Stopping);
    instance.update(10_000);
    assert!(instance.finished());
}

#[test]
fn an_instance_at_a_negative_rate_runs_towards_the_start() {
    let (sound, id, _) = ids();
    let settings = InstanceSettings {
        playback_rate: Value::Fixed(-1_000_000),
        start_position: 300_000,
        ..InstanceSettings::new(id)
    };
    let mut instance =
        Instance::new(sound, 1_000_000, settings.into_internal(1_000_000, None, TrackIndex::Main));
    instance.update(300_000);
    assert_eq!(instance.position(), 0);
    assert!(!instance.finished());
    instance.update(1);
    assert!(instance.finished());
    let looping = InstanceSettings { loop_start: InstanceLoopStart::Custom(250_000), ..settings };
    let mut instance =
        Instance::new(sound, 1_000_000, looping.into_internal(1_000_000, None, TrackIndex::Main));
    instance.update(100_000);
    // 50000 before the loop start: that far from the end.
    assert_eq!(instance.position(), 950_000);
}

#[test]
fn a_handle_and_its_clone_send_by_one_channel() {
    let (id, first, second) = ids();
    let sound = ten_seconds(id);
    let (producer, mut consumer) = CommandQueue::new(3).split();
    let mut handle = SoundHandle::new(&sound, producer);
    let mut clone = handle.clone();
    assert_eq!(clone.id(), id);
    assert_eq!(clone.duration(), 10_000_000);
    assert!(handle.play(InstanceSettings::new(first)).is_ok());
    assert_eq!(clone.pause(PauseInstanceSettings { fade_tween: None }), Ok(()));
    assert!(handle.play(InstanceSettings::new(second)).is_ok());
    // The queue is full for both.
    assert_eq!(clone.stop(StopInstanceSettings { fade_tween: None }), Err(CommandQueueFull));
    assert!(handle.clone().play(InstanceSettings::new(second)).is_err());
    assert!(matches!(consumer.pop(), Some(Command::Instance(InstanceCommand::Play(_, _)))));
    assert!(matches!(
        consumer.pop(),
        Some(Command::Instance(InstanceCommand::PauseInstancesOf(_, _)))
    ));
    assert!(matches!(consumer.pop(), Some(Command::Instance(InstanceCommand::Play(_, _)))));
    assert!(consumer.pop().is_none());
    drop(consumer);
    assert!(clone.resume(ResumeInstanceSettings { fade_tween: None }).is_err());
}

#[test]
fn the_handle_of_an_instance_sends_behind_the_play() {
    let (id, first, _) = ids();
    let sound = ten_seconds(id);
    let (producer, mut consumer) = CommandQueue::new(4).split();
    let mut handle = SoundHandle::new(&sound, producer);
    let mut instance_handle = handle.play(InstanceSettings::new(first)).unwrap();
    assert_eq!(instance_handle.pause(PauseInstanceSettings { fade_tween: fade(5) }), Ok(()));
    assert_eq!(instance_handle.clone().stop(StopInstanceSettings { fade_tween: None }), Ok(()));
    assert_eq!(instance_handle.resume(ResumeInstanceSettings { fade_tween: None }), Ok(()));
    assert!(matches!(consumer.pop(), Some(Command::Instance(InstanceCommand::Play(_, _)))));
    match consumer.pop() {
        Some(Command::Instance(InstanceCommand::PauseInstance(of, settings))) => {
            assert_eq!(of, first);
            assert_eq!(settings.fade_tween, fade(5));
        }
        _ => panic!("the pause was sent behind the play"),
    }
    match consumer.pop() {
        Some(Command::Instance(InstanceCommand::StopInstance(of, _))) => assert_eq!(of, first),
        _ => panic!("the stop was sent behind the pause"),
    }
    match consumer.pop() {
        Some(Command::Instance(InstanceCommand::ResumeInstance(of, _))) => assert_eq!(of, first),
        _ => panic!("the resume was sent last"),
    }
}
