//! Mixer tracks and the routes between them.

use crate::value::Value;
use vstd::prelude::*;

verus! {

/// The identifier of a sub-track: its place in the order in which the
/// sub-tracks were added to the mixer.
#[derive(Debug, Clone, Copy, PartialEq, Eq, Hash, Structural)]
pub struct SubTrackId(pub usize);

/// A track of the mixer.
#[derive(Debug, Clone, Copy, PartialEq, Eq, Hash, Structural)]
pub enum TrackIndex {
    /// The main track, whose output is the output of the mixer.
    Main,
    /// A sub-track.
    Sub(SubTrackId),
}

/// One route: a share of a track's output that goes into another track.
#[derive(Debug, Clone, Copy, PartialEq, Eq, Hash)]
pub struct Route {
    pub target: TrackIndex,
    pub volume: Value,
}

/// Whether some route of `routes` leads to `target`.
pub open spec fn leads_to(routes: Seq<Route>, target: TrackIndex) -> bool {
    exists|j: int| 0 <= j < routes.len() && (#[trigger] routes[j]).target == target
}

/// The place of a route of `routes` that leads to `target`.
pub open spec fn place_of(routes: Seq<Route>, target: TrackIndex) -> int {
    choose|j: int| 0 <= j < routes.len() && (#[trigger] routes[j]).target == target
}

/// No two routes lead to the same track.
pub open spec fn targets_differ(routes: Seq<Route>) -> bool {
    forall|i: int, j: int|
        0 <= i < j < routes.len() ==> (#[trigger] routes[i]).target != (#[trigger] routes[j]).target
}

/// The routes as a map from the track that a route leads to, to its volume.
pub open spec fn routes_map(routes: Seq<Route>) -> Map<TrackIndex, Value> {
    Map::new(
        |target: TrackIndex| leads_to(routes, target),
        |target: TrackIndex| routes[place_of(routes, target)].volume,
    )
}

/// The routes of a track: for each track that it feeds, the volume at which
/// it does so.
#[derive(Debug)]
pub struct TrackRoutes {
    routes: Vec<Route>,
}

impl View for TrackRoutes {
    type V = Map<TrackIndex, Value>;

    closed spec fn view(&self) -> Map<TrackIndex, Value> {
        routes_map(self.routes@)
    }
}

impl TrackRoutes {
    #[verifier::type_invariant]
    spec fn inv(self) -> bool {
        targets_differ(self.routes@)
    }

    /// The routes of a track that feeds the main track at full volume, and
    /// no other.
    pub fn new() -> (routes: TrackRoutes)
        ensures
            routes@ == Map::<TrackIndex, Value>::empty().insert(
                TrackIndex::Main,
                Value::Fixed(1_000_000),
            ),
    {
        let mut routes: Vec<Route> = Vec::new();
        routes.push(Route { target: TrackIndex::Main, volume: Value::Fixed(1_000_000) });
        assert(routes@[0].target == TrackIndex::Main);
        assert(routes_map(routes@) =~= Map::<TrackIndex, Value>::empty().insert(
            TrackIndex::Main,
            Value::Fixed(1_000_000),
        ));
        TrackRoutes { routes }
    }

    /// No routes at all.
    pub fn none() -> (routes: TrackRoutes)
        ensures
            routes@ == Map::<TrackIndex, Value>::empty(),
    {
        let routes: Vec<Route> = Vec::new();
        assert(routes_map(routes@) =~= Map::<TrackIndex, Value>::empty());
        TrackRoutes { routes }
    }

    fn find(&self, target: TrackIndex) -> (place: Option<usize>)
        ensures
            match place {
                Some(j) => j < self.routes@.len() && self.routes@[j as int].target == target,
                None => !leads_to(self.routes@, target),
            },
    {
        let mut j: usize = 0;
        while j < self.routes.len()
            invariant
                j <= self.routes@.len(),
                forall|k: int| 0 <= k < j ==> (#[trigger] self.routes@[k]).target != target,
            decreases self.routes@.len() - j,
        {
            if self.routes[j].target == target {
                return Some(j);
            }
            j = j + 1;
        }
        None
    }

    /// The volume of the route to `target`, if there is one.
    pub fn get(&self, target: TrackIndex) -> (volume: Option<Value>)
        ensures
            volume == if self@.contains_key(target) {
                Some(self@[target])
            } else {
                None
            },
    {
        proof {
            use_type_invariant(self);
        }
        match self.find(target) {
            Some(j) => {
                assert(leads_to(self.routes@, target));
                Some(self.routes[j].volume)
            },
            None => None,
        }
    }

    /// The routes, one for each track that they lead to.
    pub closed spec fn list_spec(&self) -> Seq<Route> {
        self.routes@
    }

    /// The routes, one for each track that they lead to.
    pub fn list(&self) -> (routes: &Vec<Route>)
        ensures
            routes@ == self.list_spec(),
            targets_differ(routes@),
            routes_map(routes@) == self@,
        no_unwind
    {
        proof {
            use_type_invariant(self);
        }
        &self.routes
    }

    /// The number of routes.
    pub fn len(&self) -> (n: usize)
        ensures
            n == self@.len(),
            self@.dom().finite(),
    {
        proof {
            use_type_invariant(self);
            lemma_routes_map_len(self.routes@);
        }
        self.routes.len()
    }

    /// Adds a route to `target` at `volume`, in place of the route to
    /// `target` that there was, if any.
    pub fn with_route(self, target: TrackIndex, volume: Value) -> (routes: TrackRoutes)
        ensures
            routes@ == self@.insert(target, volume),
    {
        proof {
            use_type_invariant(&self);
        }
        let ghost before = self.routes@;
        let place = self.find(target);
        let mut routes = self.routes;
        match place {
            Some(j) => {
                routes.set(j, Route { target, volume });
            },
            None => {
                routes.push(Route { target, volume });
            },
        }
        proof {
            let after = routes@;
            assert forall|t: TrackIndex| leads_to(after, t) <==> (t == target || leads_to(
                before,
                t,
            )) by {
                if leads_to(after, t) {
                    let k = place_of(after, t);
                    if t != target {
                        assert(before[k].target == t);
                    }
                }
                if leads_to(before, t) {
                    let k = place_of(before, t);
                    assert(after[k].target == t);
                }
                if t == target {
                    match place {
                        Some(j) => {
                            assert(after[j as int].target == t);
                        },
                        None => {
                            assert(after[after.len() - 1].target == t);
                        },
                    }
                }
            }
            assert(targets_differ(after));
            assert forall|t: TrackIndex| leads_to(after, t) implies #[trigger] routes_map(after)[t]
                == self@.insert(target, volume)[t] by {
                let k = place_of(after, t);
                if t != target {
                    assert(before[k].target == t);
                    let k0 = place_of(before, t);
                    assert(k0 == k);
                }
            }
            assert(routes_map(after) =~= self@.insert(target, volume));
        }
        TrackRoutes { routes }
    }

    /// Removes the route to `target`, if there is one.
    pub fn without_route(self, target: TrackIndex) -> (routes: TrackRoutes)
        ensures
            routes@ == self@.remove(target),
    {
        proof {
            use_type_invariant(&self);
        }
        let ghost before = self.routes@;
        let place = self.find(target);
        let mut routes = self.routes;
        match place {
            Some(j) => {
                routes.remove(j);
                proof {
                    let after = routes@;
                    assert forall|t: TrackIndex| leads_to(after, t) <==> (t != target && leads_to(
                        before,
                        t,
                    )) by {
                        if leads_to(after, t) {
                            let k = place_of(after, t);
                            if k < j {
                                assert(before[k].target == t);
                            } else {
                                assert(before[k + 1].target == t);
                            }
                        }
                        if t != target && leads_to(before, t) {
                            let k = place_of(before, t);
                            if k < j {
                                assert(after[k].target == t);
                            } else {
                                assert(after[k - 1].target == t);
                            }
                        }
                    }
                    assert(targets_differ(after)) by {
                        assert forall|a: int, b: int| 0 <= a < b < after.len() implies (
                        #[trigger] after[a]).target != (#[trigger] after[b]).target by {
                            let a0 = if a < j { a } else { a + 1 };
                            let b0 = if b < j { b } else { b + 1 };
                            assert(before[a0].target != before[b0].target);
                        }
                    }
                    assert forall|t: TrackIndex| leads_to(after, t) implies #[trigger] routes_map(
                        after,
                    )[t] == self@.remove(target)[t] by {
                        let k = place_of(after, t);
                        let k0 = if k < j { k } else { k + 1 };
                        assert(before[k0].target == t);
                        assert(place_of(before, t) == k0);
                    }
                    assert(routes_map(after) =~= self@.remove(target));
                }
            },
            None => {
                proof {
                    assert(routes_map(before) =~= self@.remove(target));
                }
            },
        }
        TrackRoutes { routes }
    }
}

/// A further route to a track that no route leads to yet adds that track,
/// with the volume of the route, to the map, and changes nothing else.
pub proof fn lemma_routes_map_push(routes: Seq<Route>, route: Route)
    requires
        targets_differ(routes.push(route)),
    ensures
        !leads_to(routes, route.target),
        targets_differ(routes),
        routes_map(routes.push(route)) == routes_map(routes).insert(route.target, route.volume),
{
    let more = routes.push(route);
    assert(!leads_to(routes, route.target)) by {
        if leads_to(routes, route.target) {
            let k = place_of(routes, route.target);
            assert(more[k].target == more[more.len() - 1].target);
        }
    }
    assert(targets_differ(routes)) by {
        assert forall|a: int, b: int| 0 <= a < b < routes.len() implies (#[trigger] routes[a]).target
            != (#[trigger] routes[b]).target by {
            assert(more[a].target != more[b].target);
        }
    }
    assert forall|t: TrackIndex| leads_to(more, t) <==> (t == route.target || leads_to(
        routes,
        t,
    )) by {
        if leads_to(more, t) {
            let k = place_of(more, t);
            if k < routes.len() {
                assert(routes[k].target == t);
            }
        }
        if leads_to(routes, t) {
            let k = place_of(routes, t);
            assert(more[k].target == t);
        }
        if t == route.target {
            assert(more[more.len() - 1].target == t);
        }
    }
    assert forall|t: TrackIndex| leads_to(more, t) implies #[trigger] routes_map(more)[t]
        == routes_map(routes).insert(route.target, route.volume)[t] by {
        let k = place_of(more, t);
        if t != route.target {
            assert(routes[k].target == t);
            let k0 = place_of(routes, t);
            assert(more[k0].target == more[k].target);
        }
    }
    assert(routes_map(more) =~= routes_map(routes).insert(route.target, route.volume));
}

/// There are as many routes as tracks that they lead to.
pub proof fn lemma_routes_map_len(routes: Seq<Route>)
    requires
        targets_differ(routes),
    ensures
        routes_map(routes).dom().finite(),
        routes_map(routes).len() == routes.len(),
    decreases routes.len(),
{
    if routes.len() == 0 {
        assert(routes_map(routes).dom() =~= Set::<TrackIndex>::empty());
    } else {
        let fewer = routes.drop_last();
        let last = routes.last();
        lemma_routes_map_len(fewer);
        assert(!leads_to(fewer, last.target)) by {
            if leads_to(fewer, last.target) {
                let k = place_of(fewer, last.target);
                assert(routes[k].target == routes[routes.len() - 1].target);
            }
        }
        assert forall|t: TrackIndex| leads_to(routes, t) <==> (t == last.target || leads_to(
            fewer,
            t,
        )) by {
            if leads_to(routes, t) {
                let k = place_of(routes, t);
                if k < fewer.len() {
                    assert(fewer[k].target == t);
                }
            }
            if leads_to(fewer, t) {
                let k = place_of(fewer, t);
                assert(routes[k].target == t);
            }
            if t == last.target {
                assert(routes[routes.len() - 1].target == t);
            }
        }
        assert(routes_map(routes).dom() =~= routes_map(fewer).dom().insert(last.target));
    }
}

/// The settings that a track is made with.
#[derive(Debug)]
pub struct TrackSettings {
    pub volume: Value,
    pub panning: Value,
    pub routes: TrackRoutes,
}

impl TrackSettings {
    /// The settings of a track at full volume, in the middle, that feeds the
    /// main track.
    pub fn new() -> (settings: TrackSettings)
        ensures
            settings.volume == Value::Fixed(1_000_000),
            settings.panning == Value::Fixed(500_000),
            settings.routes@ == Map::<TrackIndex, Value>::empty().insert(
                TrackIndex::Main,
                Value::Fixed(1_000_000),
            ),
    {
        Self {
            volume: Value::Fixed(1_000_000),
            panning: Value::Fixed(500_000),
            routes: TrackRoutes::new(),
        }
    }

    /// The same settings with this volume.
    pub fn volume(self, volume: Value) -> (settings: TrackSettings)
        ensures
            settings == (TrackSettings { volume, ..self }),
    {
        Self { volume, ..self }
    }

    /// The same settings with this panning.
    pub fn panning(self, panning: Value) -> (settings: TrackSettings)
        ensures
            settings == (TrackSettings { panning, ..self }),
    {
        Self { panning, ..self }
    }

    /// The same settings with these routes.
    pub fn routes(self, routes: TrackRoutes) -> (settings: TrackSettings)
        ensures
            settings == (TrackSettings { routes, ..self }),
    {
        Self { routes, ..self }
    }
}

impl Default for TrackSettings {
    fn default() -> (settings: TrackSettings)
        ensures
            settings.volume == Value::Fixed(1_000_000),
            settings.panning == Value::Fixed(500_000),
            settings.routes@ == Map::<TrackIndex, Value>::empty().insert(
                TrackIndex::Main,
                Value::Fixed(1_000_000),
            ),
    {
        Self::new()
    }
}

} // verus!
