use kira::frame::Frame;
use kira::mixer::{Mixer, RouteError};
use kira::track::{SubTrackId, TrackIndex, TrackRoutes, TrackSettings};
use kira::value::Value;

const HALF: Value = Value::Fixed(500_000);
const FULL: Value = Value::Fixed(1_000_000);

fn silence() -> Frame {
    Frame { left: 0, right: 0 }
}

/// A mixer with a track B that feeds the main track, and a track A that
/// feeds B at half volume and the main track at full volume.
fn diamond() -> (Mixer, SubTrackId, SubTrackId) {
    let mut mixer = Mixer::new();
    let b = mixer.add_sub_track(TrackSettings::new()).unwrap();
    let a = mixer
        .add_sub_track(
            TrackSettings::new().routes(TrackRoutes::new().with_route(TrackIndex::Sub(b), HALF)),
        )
        .unwrap();
    (mixer, a, b)
}

#[test]
fn both_ways_into_the_main_track_count_once_each() {
    let (mut mixer, a, b) = diamond();
    assert_eq!(b, SubTrackId(0));
    assert_eq!(a, SubTrackId(1));
    assert_eq!(mixer.len(), 3);
    assert_eq!(mixer.order(), &vec![2, 1, 0]);
    let signals = vec![silence(), silence(), Frame { left: 100, right: 200 }];
    // A gives 100 to the main track and 50 to B, which hands them on.
    assert_eq!(mixer.mix(&signals), Frame { left: 150, right: 300 });
    let signals = vec![
        Frame { left: 1, right: 1 },
        Frame { left: 10, right: 20 },
        Frame { left: 100, right: 200 },
    ];
    assert_eq!(mixer.mix(&signals), Frame { left: 161, right: 321 });
}

#[test]
fn a_route_that_would_close_a_cycle_is_refused() {
    let (mut mixer, a, b) = diamond();
    let signals = vec![silence(), silence(), Frame { left: 100, right: 200 }];
    let before = mixer.mix(&signals);
    assert_eq!(
        mixer.add_route(TrackIndex::Main, TrackIndex::Sub(a), FULL),
        Err(RouteError::Cycle)
    );
    assert_eq!(
        mixer.add_route(TrackIndex::Sub(b), TrackIndex::Sub(a), FULL),
        Err(RouteError::Cycle)
    );
    assert_eq!(
        mixer.add_route(TrackIndex::Sub(a), TrackIndex::Sub(a), FULL),
        Err(RouteError::Cycle)
    );
    assert_eq!(
        mixer.add_route(TrackIndex::Main, TrackIndex::Main, FULL),
        Err(RouteError::Cycle)
    );
    // Nothing has changed.
    assert_eq!(mixer.len(), 3);
    assert_eq!(mixer.mix(&signals), before);
    assert_eq!(mixer.mix(&signals), Frame { left: 150, right: 300 });
}

#[test]
fn a_route_that_closes_no_cycle_is_accepted_whatever_the_order_of_the_tracks() {
    let mut mixer = Mixer::new();
    let x = mixer.add_sub_track(TrackSettings::new().routes(TrackRoutes::none())).unwrap();
    let y = mixer.add_sub_track(TrackSettings::new().routes(TrackRoutes::none())).unwrap();
    assert_eq!(mixer.order(), &vec![2, 1, 0]);
    // From the older track to the younger one.
    assert_eq!(mixer.add_route(TrackIndex::Sub(x), TrackIndex::Sub(y), HALF), Ok(()));
    assert_eq!(mixer.order(), &vec![1, 0, 2]);
    assert_eq!(mixer.add_route(TrackIndex::Sub(y), TrackIndex::Main, FULL), Ok(()));
    assert_eq!(mixer.order(), &vec![1, 2, 0]);
    let signals = vec![silence(), Frame { left: 100, right: 200 }, Frame { left: 1, right: 2 }];
    assert_eq!(mixer.mix(&signals), Frame { left: 51, right: 102 });
    // The way back would go round.
    assert_eq!(
        mixer.add_route(TrackIndex::Sub(y), TrackIndex::Sub(x), FULL),
        Err(RouteError::Cycle)
    );
    assert_eq!(
        mixer.add_route(TrackIndex::Main, TrackIndex::Sub(x), FULL),
        Err(RouteError::Cycle)
    );
    assert_eq!(mixer.order(), &vec![1, 2, 0]);
    assert_eq!(mixer.mix(&signals), Frame { left: 51, right: 102 });
    // The main track may feed a track that does not feed it.
    let aside = mixer.add_sub_track(TrackSettings::new().routes(TrackRoutes::none())).unwrap();
    assert_eq!(mixer.add_route(TrackIndex::Main, TrackIndex::Sub(aside), FULL), Ok(()));
    assert_eq!(mixer.mix(&signals), Frame { left: 51, right: 102 });
    assert_eq!(
        mixer.add_route(TrackIndex::Sub(aside), TrackIndex::Sub(x), FULL),
        Err(RouteError::Cycle)
    );
}

#[test]
fn a_route_to_a_track_that_is_not_there_is_refused() {
    let (mut mixer, a, _) = diamond();
    assert_eq!(
        mixer.add_route(TrackIndex::Sub(a), TrackIndex::Sub(SubTrackId(7)), FULL),
        Err(RouteError::NoSuchTrack)
    );
    assert_eq!(
        mixer.add_route(TrackIndex::Sub(SubTrackId(usize::MAX)), TrackIndex::Main, FULL),
        Err(RouteError::NoSuchTrack)
    );
    let lost = TrackSettings::new()
        .routes(TrackRoutes::none().with_route(TrackIndex::Sub(SubTrackId(2)), FULL));
    assert_eq!(mixer.add_sub_track(lost), Err(RouteError::NoSuchTrack));
    assert_eq!(mixer.len(), 3);
    assert_eq!(mixer.place(TrackIndex::Main), Some(0));
    assert_eq!(mixer.place(TrackIndex::Sub(a)), Some(2));
    assert_eq!(mixer.place(TrackIndex::Sub(SubTrackId(2))), None);
}

#[test]
fn a_route_can_be_added_and_replaced() {
    let mut mixer = Mixer::new();
    let b = mixer.add_sub_track(TrackSettings::new().routes(TrackRoutes::none())).unwrap();
    let a = mixer.add_sub_track(TrackSettings::new().routes(TrackRoutes::none())).unwrap();
    let signals = vec![silence(), silence(), Frame { left: 100, right: 200 }];
    assert_eq!(mixer.mix(&signals), silence());
    assert_eq!(mixer.add_route(TrackIndex::Sub(a), TrackIndex::Sub(b), FULL), Ok(()));
    assert_eq!(mixer.mix(&signals), silence());
    assert_eq!(mixer.add_route(TrackIndex::Sub(b), TrackIndex::Main, HALF), Ok(()));
    assert_eq!(mixer.mix(&signals), Frame { left: 50, right: 100 });
    assert_eq!(mixer.add_route(TrackIndex::Sub(b), TrackIndex::Main, FULL), Ok(()));
    assert_eq!(mixer.mix(&signals), Frame { left: 100, right: 200 });
    assert_eq!(mixer.add_route(TrackIndex::Sub(a), TrackIndex::Main, FULL), Ok(()));
    assert_eq!(mixer.mix(&signals), Frame { left: 200, right: 400 });
}

#[test]
fn the_volume_and_panning_of_a_track_shape_what_it_hands_on() {
    let mut mixer = Mixer::new();
    let quiet_left = TrackSettings::new().volume(HALF).panning(Value::Fixed(250_000));
    mixer.add_sub_track(quiet_left).unwrap();
    let signals = vec![silence(), Frame { left: 100, right: 200 }];
    // Half the volume; left at full share, right at half share.
    assert_eq!(mixer.process(&signals, 1_000), Frame { left: 50, right: 50 });
    // A track that is given no signal is silent.
    assert_eq!(mixer.process(&vec![], 1_000), silence());
    assert_eq!(mixer.process(&vec![Frame { left: 3, right: 4 }], 1_000), Frame { left: 3, right: 4 });
}

#[test]
fn track_settings_start_from_the_defaults() {
    let settings = TrackSettings::new();
    assert_eq!(settings.volume, FULL);
    assert_eq!(settings.panning, HALF);
    assert_eq!(settings.routes.len(), 1);
    assert_eq!(settings.routes.get(TrackIndex::Main), Some(FULL));
    assert_eq!(settings.routes.get(TrackIndex::Sub(SubTrackId(0))), None);
    let settings = TrackSettings::default().volume(Value::from(42)).panning(Value::Fixed(7));
    assert_eq!(settings.volume, Value::Fixed(42));
    assert_eq!(settings.volume.get(), 42);
    assert_eq!(settings.panning, Value::Fixed(7));
    assert_eq!(settings.routes.get(TrackIndex::Main), Some(FULL));
    let settings = settings.routes(TrackRoutes::none());
    assert_eq!(settings.routes.len(), 0);
    assert_eq!(settings.volume, Value::Fixed(42));
}

#[test]
fn routes_hold_one_volume_for_each_track() {
    let b = TrackIndex::Sub(SubTrackId(3));
    let routes = TrackRoutes::new().with_route(b, HALF).with_route(TrackIndex::Main, HALF);
    assert_eq!(routes.len(), 2);
    assert_eq!(routes.get(TrackIndex::Main), Some(HALF));
    assert_eq!(routes.get(b), Some(HALF));
    let routes = routes.with_route(b, FULL);
    assert_eq!(routes.len(), 2);
    assert_eq!(routes.get(b), Some(FULL));
    let routes = routes.without_route(TrackIndex::Main);
    assert_eq!(routes.len(), 1);
    assert_eq!(routes.get(TrackIndex::Main), None);
    assert_eq!(routes.get(b), Some(FULL));
    let routes = routes.without_route(TrackIndex::Main).without_route(b);
    assert_eq!(routes.len(), 0);
    assert_eq!(routes.list().len(), 0);
}
