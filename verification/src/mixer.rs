//! The mixer: tracks that feed one another along routes, down to the main
//! track.
//!
//! The routes never form a cycle: a route that would close one is refused.
//! So the tracks can be put in an order in which each track comes after all
//! tracks that feed it, and a block is mixed in one pass along that order.

use crate::frame::Frame;
use crate::track::{
    leads_to, lemma_routes_map_push, place_of, routes_map, targets_differ, Route, SubTrackId,
    TrackIndex, TrackRoutes, TrackSettings,
};
use crate::tween::{Tweener, TweenerModel};
use crate::value::Value;
use vstd::prelude::*;

verus! {

/// The number of a track: zero for the main track, then the sub-tracks in
/// the order in which they were added.
pub open spec fn rank(track: TrackIndex) -> nat {
    match track {
        TrackIndex::Main => 0,
        TrackIndex::Sub(id) => (id.0 + 1) as nat,
    }
}

/// The track with a number.
pub open spec fn track_at(rank: nat) -> TrackIndex {
    if rank == 0 {
        TrackIndex::Main
    } else {
        TrackIndex::Sub(SubTrackId((rank - 1) as usize))
    }
}

/// Why a track or a route was refused.
#[derive(Debug, Clone, Copy, PartialEq, Eq, Hash, Structural)]
pub enum RouteError {
    /// The mixer has no such track.
    NoSuchTrack,
    /// The route would close a cycle: its start can already be reached from
    /// its end.
    Cycle,
}

/// What a track is.
pub struct TrackModel {
    pub volume: TweenerModel,
    pub panning: TweenerModel,
    pub routes: Map<TrackIndex, Value>,
}

/// What a mixer is: its tracks by their numbers, and the order in which
/// they are mixed.
pub struct MixerModel {
    pub tracks: Seq<TrackModel>,
    /// The numbers of the tracks, each once, every track after all tracks
    /// that feed it.
    pub order: Seq<usize>,
}

/// The signal of the track with the number `rank`; a track that is given
/// none is silent.
pub open spec fn signal_at(signals: Seq<Frame>, rank: nat) -> Frame {
    if rank < signals.len() {
        signals[rank as int]
    } else {
        Frame::silence()
    }
}

/// The members of `order` that `pick` picks, in their order.
pub open spec fn picked(order: Seq<usize>, pick: spec_fn(usize) -> bool) -> Seq<usize>
    decreases order.len(),
{
    if order.len() == 0 {
        Seq::empty()
    } else if pick(order.last()) {
        picked(order.drop_last(), pick).push(order.last())
    } else {
        picked(order.drop_last(), pick)
    }
}

impl MixerModel {
    /// Whether the track with the number `from` has a route to the track
    /// with the number `to`.
    pub open spec fn feeds(self, from: nat, to: nat) -> bool {
        from < self.tracks.len() && self.tracks[from as int].routes.contains_key(track_at(to))
    }

    /// There is a main track, every route leads to a track that there is,
    /// and the order holds every track once, after all tracks that feed it.
    pub open spec fn wf(self) -> bool {
        &&& 1 <= self.tracks.len() <= usize::MAX
        &&& self.order.len() == self.tracks.len()
        &&& forall|i: int| 0 <= i < self.order.len() ==> (#[trigger] self.order[i]) < self.tracks.len()
        &&& forall|r: usize| r < self.tracks.len() ==> #[trigger] self.order.contains(r)
        &&& forall|i: int, j: int|
            0 <= i < j < self.order.len() ==> (#[trigger] self.order[i]) != (
            #[trigger] self.order[j])
        &&& forall|r: int, target: TrackIndex|
            0 <= r < self.tracks.len() && (#[trigger] self.tracks[r].routes.contains_key(target))
                ==> rank(target) < self.tracks.len()
        &&& forall|i: int, j: int|
            0 <= i < self.order.len() && 0 <= j < self.order.len() && self.feeds(
                (#[trigger] self.order[i]) as nat,
                (#[trigger] self.order[j]) as nat,
            ) ==> i < j
    }

    /// Whether the mixer has the track.
    pub open spec fn has(self, track: TrackIndex) -> bool {
        rank(track) < self.tracks.len()
    }

    /// Whether `path` follows routes of the mixer from track to track.
    pub open spec fn is_path(self, path: Seq<nat>) -> bool {
        &&& path.len() >= 1
        &&& forall|i: int| 0 <= i < path.len() ==> (#[trigger] path[i]) < self.tracks.len()
        &&& forall|i: int|
            0 <= i < path.len() - 1 ==> self.feeds(#[trigger] path[i], path[i + 1])
    }

    /// Whether routes lead from the track `from` to the track `to`, in no
    /// step or in some.
    pub open spec fn reaches(self, from: nat, to: nat) -> bool {
        exists|path: Seq<nat>| #[trigger]
            self.is_path(path) && path.first() == from && path.last() == to
    }

    /// The place of the track `r` in the order.
    pub open spec fn turn(self, r: nat) -> int {
        self.order.index_of(r as usize)
    }

    /// What the track at the place `p` of the order hands on in a block: its
    /// own signal and what has reached it, at its volume and panning.
    pub open spec fn out_at(self, signals: Seq<Frame>, p: nat) -> Frame
        decreases p, 1nat,
    {
        if p >= self.order.len() || self.order[p as int] >= self.tracks.len() {
            Frame::silence()
        } else {
            let r = self.order[p as int] as nat;
            signal_at(signals, r).plus(self.input_at(signals, r, p)).scaled(
                self.tracks[r as int].volume.value,
            ).panned(self.tracks[r as int].panning.value)
        }
    }

    /// What reaches the track `r` in a block from the tracks at the first
    /// `k` places of the order: from each of them that feeds it, what it
    /// hands on at the volume of the route, each once.
    pub open spec fn input_at(self, signals: Seq<Frame>, r: nat, k: nat) -> Frame
        decreases k, 0nat,
    {
        if k == 0 || k > self.order.len() {
            Frame::silence()
        } else {
            let rest = self.input_at(signals, r, (k - 1) as nat);
            let from = self.order[k - 1] as nat;
            if self.feeds(from, r) {
                rest.plus(
                    self.out_at(signals, (k - 1) as nat).scaled(
                        self.tracks[from as int].routes[track_at(r)].number(),
                    ),
                )
            } else {
                rest
            }
        }
    }

    /// The output of the mixer in a block: what the main track hands on.
    pub open spec fn mix(self, signals: Seq<Frame>) -> Frame {
        self.out_at(signals, self.turn(0) as nat)
    }

    /// The mixer after `dt` microseconds: the volume and the panning of
    /// every track have moved on.
    pub open spec fn update(self, dt: nat) -> MixerModel {
        MixerModel {
            tracks: Seq::new(
                self.tracks.len(),
                |r: int|
                    TrackModel {
                        volume: self.tracks[r].volume.update(dt),
                        panning: self.tracks[r].panning.update(dt),
                        routes: self.tracks[r].routes,
                    },
            ),
            ..self
        }
    }

    /// The mixer with one more track, which is mixed before all others,
    /// since nothing feeds it yet.
    pub open spec fn with_track(self, track: TrackModel) -> MixerModel {
        MixerModel {
            tracks: self.tracks.push(track),
            order: seq![self.tracks.len() as usize] + self.order,
        }
    }

    /// The tracks that can be reached from the track `to`.
    pub open spec fn downstream(self, to: nat) -> spec_fn(usize) -> bool {
        |r: usize| self.reaches(to, r as nat)
    }

    /// The tracks that cannot be reached from the track `to`.
    pub open spec fn apart(self, to: nat) -> spec_fn(usize) -> bool {
        |r: usize| !self.reaches(to, r as nat)
    }

    /// The mixer with a route from the track `from` to the track `to`: the
    /// tracks that can be reached from `to` now come after all others, and
    /// so after `from`; otherwise the order is what it was.
    pub open spec fn with_route(self, from: nat, to: nat, volume: Value) -> MixerModel {
        MixerModel {
            tracks: self.tracks.update(
                from as int,
                TrackModel {
                    routes: self.tracks[from as int].routes.insert(track_at(to), volume),
                    ..self.tracks[from as int]
                },
            ),
            order: picked(self.order, self.apart(to)) + picked(self.order, self.downstream(to)),
        }
    }

    /// Whether a route from `from` to `to` is accepted, and, if not, why
    /// not.
    pub open spec fn verdict(self, from: TrackIndex, to: TrackIndex) -> Result<(), RouteError> {
        if !self.has(from) || !self.has(to) {
            Err(RouteError::NoSuchTrack)
        } else if self.reaches(rank(to), rank(from)) {
            Err(RouteError::Cycle)
        } else {
            Ok(())
        }
    }
}

/// The number of a track names the track.
pub proof fn lemma_track_at_rank(track: TrackIndex)
    requires
        rank(track) <= usize::MAX,
    ensures
        track_at(rank(track)) == track,
{
}

/// Every track has its place in the order, and no other track has it.
pub proof fn lemma_turn(mixer: MixerModel, r: nat)
    requires
        mixer.wf(),
        r < mixer.tracks.len(),
    ensures
        0 <= mixer.turn(r) < mixer.order.len(),
        mixer.order[mixer.turn(r)] == r,
        forall|i: int| 0 <= i < mixer.order.len() && mixer.order[i] == r ==> i == mixer.turn(r),
{
    assert(mixer.order.contains(r as usize));
    let i = mixer.order.index_of(r as usize);
    assert(0 <= i < mixer.order.len() && mixer.order[i] == r as usize);
}

/// Along a path every track comes later in the order than the one before.
pub proof fn lemma_paths_follow_the_order(mixer: MixerModel, path: Seq<nat>)
    requires
        mixer.wf(),
        mixer.is_path(path),
    ensures
        mixer.turn(path.first()) <= mixer.turn(path.last()),
        path.len() >= 2 ==> mixer.turn(path.first()) < mixer.turn(path.last()),
    decreases path.len(),
{
    if path.len() >= 2 {
        let n = path.len() as int;
        let shorter = path.drop_last();
        assert(mixer.is_path(shorter)) by {
            assert forall|i: int| 0 <= i < shorter.len() - 1 implies mixer.feeds(
                #[trigger] shorter[i],
                shorter[i + 1],
            ) by {
                assert(mixer.feeds(path[i], path[i + 1]));
            }
        }
        lemma_paths_follow_the_order(mixer, shorter);
        assert(mixer.feeds(path[n - 2], path[n - 2 + 1]));
        lemma_turn(mixer, path[n - 2]);
        lemma_turn(mixer, path[n - 1]);
        let i = mixer.turn(path[n - 2]);
        let j = mixer.turn(path[n - 1]);
        assert(mixer.feeds(mixer.order[i] as nat, mixer.order[j] as nat));
    }
}

/// A way goes on along a route: what is reached from a track, and feeds
/// another, reaches that one too.
pub proof fn lemma_reach_step(mixer: MixerModel, from: nat, by: nat, to: nat)
    requires
        mixer.reaches(from, by),
        mixer.feeds(by, to),
        to < mixer.tracks.len(),
    ensures
        mixer.reaches(from, to),
{
    let path = choose|path: Seq<nat>| #[trigger]
        mixer.is_path(path) && path.first() == from && path.last() == by;
    let longer = path.push(to);
    assert(mixer.is_path(longer)) by {
        assert forall|i: int| 0 <= i < longer.len() - 1 implies mixer.feeds(
            #[trigger] longer[i],
            longer[i + 1],
        ) by {
            if i < path.len() - 1 {
                assert(mixer.feeds(path[i], path[i + 1]));
            }
        }
    }
    assert(longer.first() == from && longer.last() == to);
}

/// Every track reaches itself, in no step.
pub proof fn lemma_reach_self(mixer: MixerModel, r: nat)
    requires
        r < mixer.tracks.len(),
    ensures
        mixer.reaches(r, r),
{
    let path = seq![r];
    assert(mixer.is_path(path) && path.first() == r && path.last() == r);
}

/// A set of tracks that holds a track, and with each track all that it
/// feeds, holds all that the track reaches.
pub proof fn lemma_closed_holds_all(mixer: MixerModel, marked: Seq<bool>, path: Seq<nat>)
    requires
        mixer.is_path(path),
        marked.len() == mixer.tracks.len(),
        marked[path.first() as int],
        forall|u: int, v: int|
            0 <= u < marked.len() && 0 <= v < marked.len() && marked[u] && #[trigger] mixer.feeds(
                u as nat,
                v as nat,
            ) ==> marked[v],
    ensures
        marked[path.last() as int],
    decreases path.len(),
{
    if path.len() >= 2 {
        let n = path.len() as int;
        let shorter = path.drop_last();
        assert(mixer.is_path(shorter)) by {
            assert forall|i: int| 0 <= i < shorter.len() - 1 implies mixer.feeds(
                #[trigger] shorter[i],
                shorter[i + 1],
            ) by {
                assert(mixer.feeds(path[i], path[i + 1]));
            }
        }
        assert(shorter.first() == path.first());
        lemma_closed_holds_all(mixer, marked, shorter);
        assert(mixer.feeds(path[n - 2], path[n - 2 + 1]));
        let u: int = path[n - 2] as int;
        let v: int = path[n - 1] as int;
        assert(shorter.last() == path[n - 2]);
        assert(marked[u]);
        assert(mixer.feeds(u as nat, v as nat));
    }
}

/// Two choices that agree on the members of an order pick the same of them.
pub proof fn lemma_picked_agrees(
    order: Seq<usize>,
    one: spec_fn(usize) -> bool,
    other: spec_fn(usize) -> bool,
)
    requires
        forall|i: int| 0 <= i < order.len() ==> one(#[trigger] order[i]) == other(order[i]),
    ensures
        picked(order, one) == picked(order, other),
    decreases order.len(),
{
    if order.len() > 0 {
        let fewer = order.drop_last();
        assert forall|i: int| 0 <= i < fewer.len() implies one(#[trigger] fewer[i]) == other(
            fewer[i],
        ) by {
            assert(fewer[i] == order[i]);
        }
        lemma_picked_agrees(fewer, one, other);
        assert(order.last() == order[order.len() - 1]);
    }
}

/// The tracks that are marked in `marked`.
pub open spec fn those_marked(marked: Seq<bool>) -> spec_fn(usize) -> bool {
    |r: usize| r < marked.len() && marked[r as int]
}

/// The tracks that are not marked in `marked`.
pub open spec fn those_unmarked(marked: Seq<bool>) -> spec_fn(usize) -> bool {
    |r: usize| !(r < marked.len() && marked[r as int])
}

/// What is picked and what is not make up the whole.
pub proof fn lemma_picked_parts(
    order: Seq<usize>,
    pick: spec_fn(usize) -> bool,
    rest: spec_fn(usize) -> bool,
)
    requires
        forall|r: usize| #[trigger] rest(r) == !pick(r),
    ensures
        picked(order, pick).len() + picked(order, rest).len() == order.len(),
    decreases order.len(),
{
    if order.len() > 0 {
        lemma_picked_parts(order.drop_last(), pick, rest);
    }
}

/// The routes of a mixer form no cycle: whoever follows one route or more
/// from a track never arrives at the track where the way began.
pub proof fn law_routes_form_no_cycle(mixer: MixerModel, path: Seq<nat>)
    requires
        mixer.wf(),
        mixer.is_path(path),
        path.len() >= 2,
    ensures
        path.last() != path.first(),
{
    lemma_paths_follow_the_order(mixer, path);
}

/// A route is refused exactly if it would close a cycle or names a track
/// that the mixer does not have: when its end does not reach its start, it is
/// accepted, and when it does, whoever followed the route and then the way
/// back would have gone round.
pub proof fn law_a_route_is_refused_only_for_a_cycle(
    mixer: MixerModel,
    from: TrackIndex,
    to: TrackIndex,
)
    requires
        mixer.wf(),
        mixer.has(from),
        mixer.has(to),
    ensures
        mixer.verdict(from, to) is Ok <==> !mixer.reaches(rank(to), rank(from)),
        from == to ==> mixer.verdict(from, to) == Err::<(), RouteError>(RouteError::Cycle),
{
    if from == to {
        let path = seq![rank(from)];
        assert(mixer.is_path(path) && path.first() == rank(to) && path.last() == rank(from));
    }
}

/// What has reached a track that held `held` once a track with the routes
/// `routes` has handed on `out`.
pub open spec fn fed(held: Frame, out: Frame, routes: Map<TrackIndex, Value>, track: TrackIndex) -> Frame {
    if routes.contains_key(track) {
        held.plus(out.scaled(routes[track].number()))
    } else {
        held
    }
}

/// The tracks and the routes between them, as the mixer keeps them.
struct Tracks {
    volumes: Vec<Tweener>,
    pannings: Vec<Tweener>,
    routes: Vec<TrackRoutes>,
    /// The numbers of the tracks in the order in which they are mixed.
    order: Vec<usize>,
    /// For each track its place in the order.
    turn: Vec<usize>,
    /// What has reached each track in the block that is being mixed; kept
    /// between blocks so that mixing allocates nothing.
    inputs: Vec<Frame>,
}

impl View for Tracks {
    type V = MixerModel;

    closed spec fn view(&self) -> MixerModel {
        MixerModel {
            tracks: Seq::new(
                self.volumes@.len(),
                |r: int|
                    TrackModel {
                        volume: self.volumes@[r]@,
                        panning: self.pannings@[r]@,
                        routes: self.routes@[r]@,
                    },
            ),
            order: self.order@,
        }
    }
}

impl Tracks {
    /// The mixer holds what it needs for each track, knows the place of each
    /// track in the order, and is what a mixer has to be.
    closed spec fn wf(&self) -> bool {
        &&& self.volumes@.len() == self.pannings@.len()
        &&& self.volumes@.len() == self.routes@.len()
        &&& self.volumes@.len() == self.inputs@.len()
        &&& self.volumes@.len() == self.order@.len()
        &&& self.volumes@.len() == self.turn@.len()
        &&& forall|r: int|
            0 <= r < self.turn@.len() ==> (#[trigger] self.turn@[r]) < self.order@.len()
                && self.order@[self.turn@[r] as int] == r
        &&& forall|i: int|
            0 <= i < self.order@.len() ==> (#[trigger] self.order@[i]) < self.turn@.len()
                && self.turn@[self.order@[i] as int] == i
        &&& self@.wf()
    }

    /// A mixer with a main track at full volume, in the middle, and no other
    /// track.
    fn new() -> (mixer: Tracks)
        ensures
            mixer.wf(),
            mixer@ == (MixerModel {
                tracks: seq![
                    TrackModel {
                        volume: TweenerModel::idle(1_000_000),
                        panning: TweenerModel::idle(500_000),
                        routes: Map::<TrackIndex, Value>::empty(),
                    },
                ],
                order: seq![0usize],
            }),
    {
        let mut volumes: Vec<Tweener> = Vec::new();
        let mut pannings: Vec<Tweener> = Vec::new();
        let mut routes: Vec<TrackRoutes> = Vec::new();
        let mut order: Vec<usize> = Vec::new();
        let mut turn: Vec<usize> = Vec::new();
        let mut inputs: Vec<Frame> = Vec::new();
        volumes.push(Tweener::new(1_000_000));
        pannings.push(Tweener::new(500_000));
        routes.push(TrackRoutes::none());
        order.push(0);
        turn.push(0);
        inputs.push(Frame::zero());
        let mixer = Tracks { volumes, pannings, routes, order, turn, inputs };
        proof {
            assert(mixer@.tracks =~= seq![
                TrackModel {
                    volume: TweenerModel::idle(1_000_000),
                    panning: TweenerModel::idle(500_000),
                    routes: Map::<TrackIndex, Value>::empty(),
                },
            ]);
            assert(mixer@.order =~= seq![0usize]);
            assert forall|r: usize| r < mixer@.tracks.len() implies #[trigger] mixer@.order.contains(
                r,
            ) by {
                assert(mixer@.order[0] == r);
            }
        }
        mixer
    }

    /// The number of tracks, the main track among them.
    fn len(&self) -> (n: usize)
        requires
            self.wf(),
        ensures
            n == self@.tracks.len(),
            n >= 1,
    {
        self.volumes.len()
    }

    /// The number of `track`, if the mixer has it.
    fn place(&self, track: TrackIndex) -> (place: Option<usize>)
        requires
            self.wf(),
        ensures
            match place {
                Some(r) => r == rank(track) && self@.has(track),
                None => !self@.has(track),
            },
    {
        match track {
            TrackIndex::Main => Some(0),
            TrackIndex::Sub(id) => {
                if id.0 < self.volumes.len() - 1 {
                    Some(id.0 + 1)
                } else {
                    None
                }
            },
        }
    }

    /// The numbers of the tracks in the order in which they are mixed.
    fn order(&self) -> (order: &Vec<usize>)
        ensures
            order@ == self@.order,
    {
        &self.order
    }

    /// Adds a sub-track with the given settings. It is refused, and the
    /// mixer stays what it was, if one of its routes leads to a track that
    /// the mixer does not have.
    fn add_sub_track(&mut self, settings: TrackSettings) -> (added: Result<
        SubTrackId,
        RouteError,
    >)
        requires
            old(self).wf(),
        ensures
            final(self).wf(),
            added is Ok <==> forall|target: TrackIndex| #[trigger]
                settings.routes@.contains_key(target) ==> old(self)@.has(target),
            match added {
                Ok(id) => {
                    &&& rank(TrackIndex::Sub(id)) == old(self)@.tracks.len()
                    &&& final(self)@ == old(self)@.with_track(
                        TrackModel {
                            volume: TweenerModel::idle(settings.volume.number()),
                            panning: TweenerModel::idle(settings.panning.number()),
                            routes: settings.routes@,
                        },
                    )
                },
                Err(error) => error == RouteError::NoSuchTrack && final(self)@ == old(self)@,
            },
    {
        let n: usize = self.volumes.len();
        let list = settings.routes.list();
        let mut j: usize = 0;
        while j < list.len()
            invariant
                j <= list@.len(),
                self.wf(),
                *self == *old(self),
                n == self@.tracks.len(),
                n == self.volumes@.len(),
                routes_map(list@) == settings.routes@,
                forall|k: int| 0 <= k < j ==> self@.has((#[trigger] list@[k]).target),
            decreases list@.len() - j,
        {
            if self.place(list[j].target).is_none() {
                proof {
                    let target = list@[j as int].target;
                    assert(leads_to(list@, target));
                    assert(routes_map(list@).dom().contains(target));
                    assert(settings.routes@.contains_key(target));
                }
                return Err(RouteError::NoSuchTrack);
            }
            j = j + 1;
        }
        proof {
            assert forall|target: TrackIndex| #[trigger]
                settings.routes@.contains_key(target) implies self@.has(target) by {
                let k = place_of(list@, target);
                assert(list@[k].target == target);
            }
        }
        let ghost before = self@;
        let ghost old_turn = self.turn@;
        let ghost old_order = self.order@;
        assert(before.wf());
        self.volumes.push(Tweener::new(settings.volume.get()));
        self.pannings.push(Tweener::new(settings.panning.get()));
        self.routes.push(settings.routes);
        self.inputs.push(Frame::zero());
        let total: usize = self.volumes.len();
        assert(total == n + 1);
        self.order.insert(0, n);
        let ghost grown = *self;
        let mut r: usize = 0;
        while r < n
            invariant
                r <= n,
                n + 1 <= usize::MAX,
                self.volumes == grown.volumes,
                self.pannings == grown.pannings,
                self.routes == grown.routes,
                self.inputs == grown.inputs,
                self.order == grown.order,
                self.turn@.len() == n,
                old_turn.len() == n,
                forall|k: int| 0 <= k < n ==> (#[trigger] old_turn[k]) < n,
                forall|k: int| 0 <= k < r ==> (#[trigger] self.turn@[k]) == old_turn[k] + 1,
                forall|k: int| r <= k < n ==> (#[trigger] self.turn@[k]) == old_turn[k],
            decreases n - r,
        {
            let moved: usize = self.turn[r] + 1;
            self.turn.set(r, moved);
            r = r + 1;
        }
        self.turn.push(0);
        proof {
            let track = TrackModel {
                volume: TweenerModel::idle(settings.volume.number()),
                panning: TweenerModel::idle(settings.panning.number()),
                routes: settings.routes@,
            };
            assert(self@.tracks =~= before.tracks.push(track));
            assert(self.order@ =~= seq![n] + old_order);
            let now = self@;
            assert forall|r: usize| r < now.tracks.len() implies #[trigger] now.order.contains(
                r,
            ) by {
                assert(now.order[self.turn@[r as int] as int] == r);
            }
            assert forall|i: int, j: int|
                0 <= i < now.order.len() && 0 <= j < now.order.len() && now.feeds(
                    (#[trigger] now.order[i]) as nat,
                    (#[trigger] now.order[j]) as nat,
                ) implies i < j by {
                if i == 0 {
                    if j == 0 {
                        assert(settings.routes@.contains_key(track_at(n as nat)));
                        assert(before.has(track_at(n as nat)));
                    }
                } else {
                    let u = old_order[i - 1];
                    assert(before.tracks[u as int].routes.contains_key(
                        track_at(now.order[j] as nat),
                    ));
                    if j == 0 {
                        assert(rank(track_at(n as nat)) < n);
                    } else {
                        assert(before.feeds(old_order[i - 1] as nat, old_order[j - 1] as nat));
                    }
                }
            }
            assert forall|r: int, target: TrackIndex|
                0 <= r < now.tracks.len() && (#[trigger] now.tracks[r].routes.contains_key(
                    target,
                )) implies rank(target) < now.tracks.len() by {
                if r < n {
                    assert(before.tracks[r].routes.contains_key(target));
                } else {
                    assert(settings.routes@.contains_key(target));
                }
            }
        }
        Ok(SubTrackId(n - 1))
    }
    fn number_of(&self, track: TrackIndex) -> (r: usize)
        requires
            self.wf(),
            self@.has(track),
        ensures
            r == rank(track),
        no_unwind
    {
        match track {
            TrackIndex::Main => 0,
            TrackIndex::Sub(id) => id.0 + 1,
        }
    }

    /// Marks the tracks that the track `start` reaches.
    fn reached_from(&self, start: usize) -> (marked: Vec<bool>)
        requires
            self.wf(),
            start < self@.tracks.len(),
        ensures
            marked@.len() == self@.tracks.len(),
            forall|x: int|
                0 <= x < marked@.len() ==> (#[trigger] marked@[x] <==> self@.reaches(
                    start as nat,
                    x as nat,
                )),
    {
        let n: usize = self.volumes.len();
        let mut marked: Vec<bool> = Vec::new();
        let mut i: usize = 0;
        while i < n
            invariant
                i <= n,
                marked@.len() == i,
                forall|k: int| 0 <= k < i ==> !marked@[k],
            decreases n - i,
        {
            marked.push(false);
            i = i + 1;
        }
        marked.set(start, true);
        proof {
            lemma_reach_self(self@, start as nat);
        }
        let mut p: usize = 0;
        while p < n
            invariant
                p <= n,
                self.wf(),
                n == self@.tracks.len(),
                start < n,
                marked@.len() == n,
                marked@[start as int],
                forall|x: int|
                    0 <= x < n && #[trigger] marked@[x] ==> self@.reaches(start as nat, x as nat),
                forall|i: int, v: int|
                    0 <= i < p && 0 <= v < n && marked@[self.order@[i] as int] && #[trigger] self@.feeds(
                        self.order@[i] as nat,
                        v as nat,
                    ) ==> marked@[v],
            decreases n - p,
        {
            let u: usize = self.order[p];
            if marked[u] {
                let m: usize = self.routes[u].list().len();
                let ghost before = marked@;
                proof {
                    let list = self.routes@[u as int].list_spec();
                    assert forall|k: int| 0 <= k < list.len() implies rank(
                        (#[trigger] list[k]).target,
                    ) < n by {
                        assert(leads_to(list, list[k].target));
                        assert(routes_map(list).dom().contains(list[k].target));
                        assert(self@.tracks[u as int].routes.contains_key(list[k].target));
                    }
                }
                let mut j: usize = 0;
                while j < m
                    invariant
                        j <= m,
                        p < n,
                        forall|k: int|
                            0 <= k < m ==> rank(
                                (#[trigger] self.routes@[u as int].list_spec()[k]).target,
                            ) < n,
                        u == self.order@[p as int],
                        u < n,
                        self.wf(),
                        n == self@.tracks.len(),
                        start < n,
                        m == self.routes@[u as int].list_spec().len(),
                        marked@.len() == n,
                        before.len() == n,
                        marked@[start as int],
                        marked@[u as int],
                        forall|x: int|
                            0 <= x < n && #[trigger] marked@[x] ==> self@.reaches(
                                start as nat,
                                x as nat,
                            ),
                        forall|i: int| 0 <= i <= p ==> marked@[self.order@[i] as int] == before[(
                        #[trigger] self.order@[i]) as int],
                        forall|x: int| 0 <= x < n && before[x] ==> #[trigger] marked@[x],
                        forall|k: int|
                            0 <= k < j ==> marked@[rank(
                                (#[trigger] self.routes@[u as int].list_spec()[k]).target,
                            ) as int],
                    decreases m - j,
                {
                    let route: Route = self.routes[u].list()[j];
                    proof {
                        let list = self.routes@[u as int].list_spec();
                        assert(leads_to(list, route.target)) by {
                            assert(list[j as int].target == route.target);
                        }
                        assert(routes_map(list).dom().contains(route.target));
                        assert(self@.tracks[u as int].routes.contains_key(route.target));
                        assert(rank(route.target) < n);
                        lemma_track_at_rank(route.target);
                        assert(self@.feeds(u as nat, rank(route.target)));
                        lemma_reach_step(self@, start as nat, u as nat, rank(route.target));
                        let t = rank(route.target) as int;
                        let q = self.turn@[t] as int;
                        assert(self.order@[q] == t);
                        assert(self@.feeds(self.order@[p as int] as nat, self.order@[q] as nat));
                        assert(p < q);
                    }
                    let target: usize = self.number_of(route.target);
                    marked.set(target, true);
                    j = j + 1;
                }
                proof {
                    let list = self.routes@[u as int].list_spec();
                    assert forall|v: int|
                        0 <= v < n && #[trigger] self@.feeds(u as nat, v as nat) implies marked@[v] by {
                        let track = track_at(v as nat);
                        assert(routes_map(list).dom().contains(track));
                        let k = place_of(list, track);
                        assert(list[k].target == track);
                        assert(rank(list[k].target) == v);
                    }
                }
            }
            p = p + 1;
        }
        proof {
            assert forall|u: int, v: int|
                0 <= u < n && 0 <= v < n && marked@[u] && #[trigger] self@.feeds(
                    u as nat,
                    v as nat,
                ) implies marked@[v] by {
                let i = self.turn@[u] as int;
                assert(self.order@[i] == u);
            }
            assert forall|x: int| 0 <= x < n && self@.reaches(
                start as nat,
                x as nat,
            ) implies #[trigger] marked@[x] by {
                let path = choose|path: Seq<nat>| #[trigger]
                    self@.is_path(path) && path.first() == start as nat && path.last() == x as nat;
                lemma_closed_holds_all(self@, marked@, path);
            }
        }
        marked
    }

    /// Puts the tracks that are not marked before those that are, each
    /// group in the order in which it was. Returns the new order, and for
    /// each track its place in it.
    fn regrouped(&self, marked: &Vec<bool>) -> (made: (Vec<usize>, Vec<usize>))
        requires
            self.wf(),
            marked@.len() == self@.tracks.len(),
        ensures
            made.0@ == picked(self.order@, those_unmarked(marked@)) + picked(
                self.order@,
                those_marked(marked@),
            ),
            made.0@.len() == self@.tracks.len(),
            made.1@.len() == self@.tracks.len(),
            forall|i: int|
                0 <= i < made.0@.len() ==> (#[trigger] made.0@[i]) < made.1@.len()
                    && made.1@[made.0@[i] as int] == i,
            forall|r: int|
                0 <= r < made.1@.len() ==> (#[trigger] made.1@[r]) < made.0@.len()
                    && made.0@[made.1@[r] as int] == r,
            forall|i: int, j: int|
                0 <= i < j < made.0@.len() ==> {
                    ||| !marked@[(#[trigger] made.0@[i]) as int] && marked@[(
                    #[trigger] made.0@[j]) as int]
                    ||| marked@[made.0@[i] as int] == marked@[made.0@[j] as int]
                        && self.turn@[made.0@[i] as int] < self.turn@[made.0@[j] as int]
                },
    {
        let n: usize = self.volumes.len();
        let mut order: Vec<usize> = Vec::new();
        let mut turn: Vec<usize> = Vec::new();
        let mut i: usize = 0;
        while i < n
            invariant
                i <= n,
                turn@.len() == i,
            decreases n - i,
        {
            turn.push(0);
            i = i + 1;
        }
        let mut p: usize = 0;
        assert(self.order@.take(0) =~= Seq::<usize>::empty());
        while p < n
            invariant
                p <= n,
                self.wf(),
                n == self@.tracks.len(),
                marked@.len() == n,
                turn@.len() == n,
                order@ == picked(self.order@.take(p as int), those_unmarked(marked@)),
                order@.len() <= p,
                forall|i: int|
                    0 <= i < order@.len() ==> (#[trigger] order@[i]) < n && turn@[order@[i] as int]
                        == i && !marked@[order@[i] as int] && self.turn@[order@[i] as int] < p,
                forall|r: int|
                    0 <= r < n && !marked@[r] && self.turn@[r] < p ==> (#[trigger] turn@[r])
                        < order@.len() && order@[turn@[r] as int] == r,
                forall|i: int, j: int|
                    0 <= i < j < order@.len() ==> self.turn@[(#[trigger] order@[i]) as int]
                        < self.turn@[(#[trigger] order@[j]) as int],
            decreases n - p,
        {
            let r: usize = self.order[p];
            proof {
                assert(self.order@.take(p as int + 1).drop_last() =~= self.order@.take(p as int));
                assert(self.order@.take(p as int + 1).last() == r);
                assert(self.turn@[r as int] == p);
            }
            if !marked[r] {
                turn.set(r, order.len());
                order.push(r);
            }
            p = p + 1;
        }
        let ghost first = order@;
        assert(self.order@.take(n as int) =~= self.order@);
        assert(self.order@.take(0) =~= Seq::<usize>::empty());
        assert(first + Seq::<usize>::empty() =~= first);
        p = 0;
        while p < n
            invariant
                p <= n,
                self.wf(),
                n == self@.tracks.len(),
                marked@.len() == n,
                turn@.len() == n,
                first == picked(self.order@, those_unmarked(marked@)),
                first.len() <= order@.len(),
                order@ == first + picked(self.order@.take(p as int), those_marked(marked@)),
                order@.len() <= first.len() + p,
                forall|i: int|
                    0 <= i < order@.len() ==> (#[trigger] order@[i]) < n && turn@[order@[i] as int]
                        == i,
                forall|i: int| 0 <= i < first.len() ==> !marked@[(#[trigger] order@[i]) as int],
                forall|i: int|
                    first.len() <= i < order@.len() ==> marked@[(#[trigger] order@[i]) as int]
                        && self.turn@[order@[i] as int] < p,
                forall|r: int|
                    0 <= r < n && (!marked@[r] || self.turn@[r] < p) ==> (#[trigger] turn@[r])
                        < order@.len() && order@[turn@[r] as int] == r,
                forall|i: int, j: int|
                    0 <= i < j < first.len() ==> self.turn@[(#[trigger] order@[i]) as int]
                        < self.turn@[(#[trigger] order@[j]) as int],
                forall|i: int, j: int|
                    first.len() <= i < j < order@.len() ==> self.turn@[(
                    #[trigger] order@[i]) as int] < self.turn@[(#[trigger] order@[j]) as int],
            decreases n - p,
        {
            let r: usize = self.order[p];
            proof {
                assert(self.order@.take(p as int + 1).drop_last() =~= self.order@.take(p as int));
                assert(self.order@.take(p as int + 1).last() == r);
                assert(self.turn@[r as int] == p);
            }
            if marked[r] {
                let ghost so_far = picked(self.order@.take(p as int), those_marked(marked@));
                turn.set(r, order.len());
                order.push(r);
                assert(order@ =~= first + so_far.push(r));
            }
            p = p + 1;
        }
        proof {
            assert(self.order@.take(n as int) =~= self.order@);
            assert forall|r: usize| #[trigger]
                those_marked(marked@)(r) == !those_unmarked(marked@)(r) by {}
            lemma_picked_parts(self.order@, those_unmarked(marked@), those_marked(marked@));
        }
        (order, turn)
    }

    /// Adds a route from `from` to `to` at `volume`, in place of the route
    /// between the two that there was, if any. It is refused, and the mixer
    /// stays what it was, if the mixer lacks one of the tracks, or if the
    /// route would close a cycle.
    fn add_route(&mut self, from: TrackIndex, to: TrackIndex, volume: Value) -> (added: Result<
        (),
        RouteError,
    >)
        requires
            old(self).wf(),
        ensures
            final(self).wf(),
            added == old(self)@.verdict(from, to),
            match added {
                Ok(()) => final(self)@ == old(self)@.with_route(rank(from), rank(to), volume),
                Err(_) => final(self)@ == old(self)@,
            },
    {
        let source: usize = match self.place(from) {
            Some(r) => r,
            None => {
                return Err(RouteError::NoSuchTrack);
            },
        };
        let target: usize = match self.place(to) {
            Some(r) => r,
            None => {
                return Err(RouteError::NoSuchTrack);
            },
        };
        let marked = self.reached_from(target);
        if marked[source] {
            return Err(RouteError::Cycle);
        }
        let (order, turn) = self.regrouped(&marked);
        let ghost before = self@;
        let ghost old_turn = self.turn@;
        let ghost n = before.tracks.len() as int;
        proof {
            assert(before.wf());
            lemma_track_at_rank(to);
            lemma_reach_self(before, target as nat);
            assert forall|i: int| 0 <= i < before.order.len() implies those_unmarked(marked@)(
                #[trigger] before.order[i],
            ) == before.apart(target as nat)(before.order[i]) by {}
            assert forall|i: int| 0 <= i < before.order.len() implies those_marked(marked@)(
                #[trigger] before.order[i],
            ) == before.downstream(target as nat)(before.order[i]) by {}
            lemma_picked_agrees(
                before.order,
                those_unmarked(marked@),
                before.apart(target as nat),
            );
            lemma_picked_agrees(
                before.order,
                those_marked(marked@),
                before.downstream(target as nat),
            );
        }
        let routes = self.routes.remove(source);
        self.routes.insert(source, routes.with_route(to, volume));
        self.order = order;
        self.turn = turn;
        proof {
            let now = self@;
            let track = TrackModel {
                routes: before.tracks[source as int].routes.insert(to, volume),
                ..before.tracks[source as int]
            };
            assert(now.tracks =~= before.tracks.update(source as int, track));
            assert(now == before.with_route(rank(from), rank(to), volume));
            assert forall|r: usize| r < now.tracks.len() implies #[trigger] now.order.contains(
                r,
            ) by {
                assert(now.order[self.turn@[r as int] as int] == r);
            }
            assert forall|i: int, j: int| 0 <= i < j < now.order.len() implies (
            #[trigger] now.order[i]) != (#[trigger] now.order[j]) by {
                assert(self.turn@[now.order[i] as int] == i);
                assert(self.turn@[now.order[j] as int] == j);
            }
            assert forall|r: int, t: TrackIndex|
                0 <= r < now.tracks.len() && (#[trigger] now.tracks[r].routes.contains_key(
                    t,
                )) implies rank(t) < now.tracks.len() by {
                if !(r == source && t == to) {
                    assert(before.tracks[r].routes.contains_key(t));
                }
            }
            assert forall|i: int, j: int|
                0 <= i < now.order.len() && 0 <= j < now.order.len() && now.feeds(
                    (#[trigger] now.order[i]) as nat,
                    (#[trigger] now.order[j]) as nat,
                ) implies i < j by {
                let u = now.order[i] as int;
                let v = now.order[j] as int;
                assert(self.turn@[u] == i && self.turn@[v] == j);
                let is_new = u == source && track_at(v as nat) == to;
                if is_new {
                    assert(rank(track_at(v as nat)) == v);
                    assert(v == target);
                    assert(marked@[v] && !marked@[u]);
                } else {
                    assert(before.tracks[u].routes.contains_key(track_at(v as nat)));
                    assert(before.feeds(u as nat, v as nat));
                    let a = old_turn[u] as int;
                    let b = old_turn[v] as int;
                    assert(before.order[a] == u && before.order[b] == v);
                    assert(before.feeds(before.order[a] as nat, before.order[b] as nat));
                    assert(a < b);
                    if marked@[u] {
                        lemma_reach_step(before, target as nat, u as nat, v as nat);
                        assert(marked@[v]);
                    }
                }
                if j < i {
                    assert({
                        ||| !marked@[now.order[j] as int] && marked@[now.order[i] as int]
                        ||| marked@[now.order[j] as int] == marked@[now.order[i] as int]
                            && old_turn[now.order[j] as int] < old_turn[now.order[i] as int]
                    });
                }
            }
        }
        Ok(())
    }

    fn advance(&mut self, dt: u64)
        requires
            old(self).wf(),
        ensures
            final(self).wf(),
            final(self)@ == old(self)@.update(dt as nat),
        no_unwind
    {
        let n: usize = self.volumes.len();
        let mut i: usize = 0;
        while i < n
            invariant
                i <= n,
                n == self.volumes@.len(),
                n == self.pannings@.len(),
                self.routes@ == old(self).routes@,
                self.inputs@ == old(self).inputs@,
                self.order@ == old(self).order@,
                self.turn@ == old(self).turn@,
                old(self).wf(),
                n == old(self).volumes@.len(),
                forall|k: int|
                    0 <= k < i ==> (#[trigger] self.volumes@[k])@ == old(self).volumes@[k]@.update(
                        dt as nat,
                    ),
                forall|k: int|
                    0 <= k < i ==> (#[trigger] self.pannings@[k])@ == old(self).pannings@[k]@.update(
                        dt as nat,
                    ),
                forall|k: int| i <= k < n ==> self.volumes@[k] == old(self).volumes@[k],
                forall|k: int| i <= k < n ==> self.pannings@[k] == old(self).pannings@[k],
            decreases n - i,
        {
            let mut volume: Tweener = self.volumes[i];
            volume.update(dt);
            self.volumes[i] = volume;
            let mut panning: Tweener = self.pannings[i];
            panning.update(dt);
            self.pannings[i] = panning;
            i = i + 1;
        }
        proof {
            let now = self@;
            let before = old(self)@;
            assert(now.tracks =~= before.update(dt as nat).tracks);
            assert forall|r: usize| r < now.tracks.len() implies #[trigger] now.order.contains(
                r,
            ) by {
                assert(before.order.contains(r));
            }
            assert forall|i: int, j: int|
                0 <= i < now.order.len() && 0 <= j < now.order.len() && now.feeds(
                    (#[trigger] now.order[i]) as nat,
                    (#[trigger] now.order[j]) as nat,
                ) implies i < j by {
                assert(before.feeds(before.order[i] as nat, before.order[j] as nat));
            }
            assert forall|r: int, t: TrackIndex|
                0 <= r < now.tracks.len() && (#[trigger] now.tracks[r].routes.contains_key(
                    t,
                )) implies rank(t) < now.tracks.len() by {
                assert(before.tracks[r].routes.contains_key(t));
            }
        }
    }

    /// The output of the mixer for one block, in which each track has the
    /// signal that `signals` holds under its number, or none.
    fn mix(&mut self, signals: &Vec<Frame>) -> (out: Frame)
        requires
            old(self).wf(),
        ensures
            final(self).wf(),
            final(self)@ == old(self)@,
            out == old(self)@.mix(signals@),
        no_unwind
    {
        let n: usize = self.volumes.len();
        let mut i: usize = 0;
        while i < n
            invariant
                i <= n,
                n == self.inputs@.len(),
                self.wf(),
                self@ == old(self)@,
                forall|k: int| 0 <= k < i ==> self.inputs@[k] == Frame::silence(),
            decreases n - i,
        {
            self.inputs[i] = Frame::zero();
            i = i + 1;
        }
        let mut p: usize = 0;
        while p < n
            invariant
                p <= n,
                n == self@.tracks.len(),
                self.inputs@.len() == n,
                self.wf(),
                self@ == old(self)@,
                forall|r: int|
                    0 <= r < n && self.turn@[r] >= p ==> #[trigger] self.inputs@[r]
                        == self@.input_at(signals@, r as nat, p as nat),
                forall|i: int| 0 <= i < p ==> #[trigger] self.order@[i] != 0,
            decreases n - p,
        {
            let u: usize = self.order[p];
            assert(self.turn@[u as int] == p);
            let out: Frame = self.hand_on(p, signals, self.inputs[u]);
            if u == 0 {
                proof {
                    lemma_turn(self@, 0);
                }
                return out;
            }
            let ghost before = self.inputs@;
            let m: usize = self.routes[u].list().len();
            let mut j: usize = 0;
            while j < m
                invariant
                    j <= m,
                    m == self.routes@[u as int].list_spec().len(),
                    routes_map(self.routes@[u as int].list_spec()) == self@.tracks[u as int].routes,
                    p < n,
                    u < n,
                    n == self@.tracks.len(),
                    self.inputs@.len() == n,
                    before.len() == n,
                    self.wf(),
                    self@ == old(self)@,
                    forall|r: int|
                        0 <= r < n ==> #[trigger] self.inputs@[r] == fed(
                            before[r],
                            out,
                            routes_map(self.routes@[u as int].list_spec().take(j as int)),
                            track_at(r as nat),
                        ),
                decreases m - j,
            {
                let route: Route = self.routes[u].list()[j];
                proof {
                    let list = self.routes@[u as int].list_spec();
                    assert(list.take(j as int + 1) =~= list.take(j as int).push(route));
                    assert(targets_differ(list.take(j as int + 1))) by {
                        let more = list.take(j as int + 1);
                        assert forall|a: int, b: int| 0 <= a < b < more.len() implies (
                        #[trigger] more[a]).target != (#[trigger] more[b]).target by {
                            assert(list[a].target != list[b].target);
                        }
                    }
                    lemma_routes_map_push(list.take(j as int), route);
                    assert(leads_to(list, route.target)) by {
                        assert(list[j as int].target == route.target);
                    }
                    assert(routes_map(list).dom().contains(route.target));
                    assert(self@.tracks[u as int].routes.contains_key(route.target));
                    assert(rank(route.target) < n);
                    lemma_track_at_rank(route.target);
                }
                let target: usize = self.number_of(route.target);
                let held: Frame = self.inputs[target];
                self.inputs[target] = held.add(out.scale(route.volume.get()));
                j = j + 1;
            }
            proof {
                let list = self.routes@[u as int].list_spec();
                assert(list.take(list.len() as int) =~= list);
                assert forall|r: int| 0 <= r < n && self.turn@[r] >= p + 1 implies #[trigger] self.inputs@[r]
                    == self@.input_at(signals@, r as nat, (p + 1) as nat) by {
                    assert(before[r] == self@.input_at(signals@, r as nat, p as nat));
                }
            }
            p = p + 1;
        }
        proof {
            let q = self.turn@[0] as int;
            assert(self.order@[q] == 0);
        }
        Frame::zero()
    }

    fn hand_on(&self, p: usize, signals: &Vec<Frame>, input: Frame) -> (out: Frame)
        requires
            self.wf(),
            p < self@.order.len(),
            input == self@.input_at(signals@, self@.order[p as int] as nat, p as nat),
        ensures
            out == self@.out_at(signals@, p as nat),
        no_unwind
    {
        let r: usize = self.order[p];
        let signal: Frame = if r < signals.len() {
            signals[r]
        } else {
            Frame::zero()
        };
        signal.add(input).scale(self.volumes[r].value()).pan(self.pannings[r].value())
    }
}

/// The tracks of the engine and the routes between them.
pub struct Mixer {
    tracks: Tracks,
}

impl View for Mixer {
    type V = MixerModel;

    closed spec fn view(&self) -> MixerModel {
        self.tracks@
    }
}

impl Mixer {
    #[verifier::type_invariant]
    spec fn inv(self) -> bool {
        self.tracks.wf()
    }

    /// A mixer with a main track at full volume, in the middle, and no other
    /// track.
    pub fn new() -> (mixer: Mixer)
        ensures
            mixer@.wf(),
            mixer@ == (MixerModel {
                tracks: seq![
                    TrackModel {
                        volume: TweenerModel::idle(1_000_000),
                        panning: TweenerModel::idle(500_000),
                        routes: Map::<TrackIndex, Value>::empty(),
                    },
                ],
                order: seq![0usize],
            }),
    {
        Mixer { tracks: Tracks::new() }
    }

    /// The number of tracks, the main track among them.
    pub fn len(&self) -> (n: usize)
        ensures
            n == self@.tracks.len(),
            n >= 1,
            self@.wf(),
    {
        proof {
            use_type_invariant(self);
        }
        self.tracks.len()
    }

    /// The number of `track`, if the mixer has it.
    pub fn place(&self, track: TrackIndex) -> (place: Option<usize>)
        ensures
            match place {
                Some(r) => r == rank(track) && self@.has(track),
                None => !self@.has(track),
            },
    {
        proof {
            use_type_invariant(self);
        }
        self.tracks.place(track)
    }

    /// The numbers of the tracks in the order in which they are mixed.
    pub fn order(&self) -> (order: &Vec<usize>)
        ensures
            order@ == self@.order,
    {
        self.tracks.order()
    }

    /// Adds a sub-track with the given settings. It is refused, and the
    /// mixer stays what it was, if one of its routes leads to a track that
    /// the mixer does not have.
    pub fn add_sub_track(&mut self, settings: TrackSettings) -> (added: Result<
        SubTrackId,
        RouteError,
    >)
        ensures
            final(self)@.wf(),
            added is Ok <==> forall|target: TrackIndex| #[trigger]
                settings.routes@.contains_key(target) ==> old(self)@.has(target),
            match added {
                Ok(id) => {
                    &&& rank(TrackIndex::Sub(id)) == old(self)@.tracks.len()
                    &&& final(self)@ == old(self)@.with_track(
                        TrackModel {
                            volume: TweenerModel::idle(settings.volume.number()),
                            panning: TweenerModel::idle(settings.panning.number()),
                            routes: settings.routes@,
                        },
                    )
                },
                Err(error) => error == RouteError::NoSuchTrack && final(self)@ == old(self)@,
            },
    {
        proof {
            use_type_invariant(&*self);
        }
        let mut tracks = Tracks::new();
        core::mem::swap(&mut self.tracks, &mut tracks);
        let added = tracks.add_sub_track(settings);
        self.tracks = tracks;
        added
    }

    /// Adds a route from `from` to `to` at `volume`, in place of the route
    /// between the two that there was, if any. It is refused, and the mixer
    /// stays what it was, if the mixer lacks one of the tracks, or if the
    /// route would close a cycle.
    pub fn add_route(&mut self, from: TrackIndex, to: TrackIndex, volume: Value) -> (added: Result<
        (),
        RouteError,
    >)
        ensures
            final(self)@.wf(),
            added == old(self)@.verdict(from, to),
            match added {
                Ok(()) => final(self)@ == old(self)@.with_route(rank(from), rank(to), volume),
                Err(_) => final(self)@ == old(self)@,
            },
    {
        proof {
            use_type_invariant(&*self);
        }
        let mut tracks = Tracks::new();
        core::mem::swap(&mut self.tracks, &mut tracks);
        let added = tracks.add_route(from, to, volume);
        self.tracks = tracks;
        added
    }

    /// The output of the mixer for one block, in which each track has the
    /// signal that `signals` holds under its number, or none.
    pub fn mix(&mut self, signals: &Vec<Frame>) -> (out: Frame)
        ensures
            final(self)@.wf(),
            final(self)@ == old(self)@,
            out == old(self)@.mix(signals@),
    {
        proof {
            use_type_invariant(&*self);
        }
        self.tracks.mix(signals)
    }

    /// Lets `dt` microseconds pass and mixes one block.
    pub fn process(&mut self, signals: &Vec<Frame>, dt: u64) -> (out: Frame)
        ensures
            final(self)@ == old(self)@.update(dt as nat),
            out == final(self)@.mix(signals@),
    {
        proof {
            use_type_invariant(&*self);
        }
        self.tracks.advance(dt);
        self.tracks.mix(signals)
    }

}

} // verus!
