use vstd::prelude::*;

use crate::ids::{JunctionId, StationID, TopologyError, TrackID, TrainId};
use crate::minivec::Minivec;
use crate::random::random_below;
use std::collections::VecDeque;

verus! {

/// How many tracks may enter, and how many may leave, one junction.
pub const JUNCTION_CAPACITY: usize = 2;

/// What a junction is: a point `P`, its tangent once one is fixed, and the
/// tracks that enter and leave it.
pub struct JunctionModel<P> {
    pub position: P,
    pub direction: Option<P>,
    pub entrances: Seq<TrackID>,
    pub exits: Seq<TrackID>,
}

/// What a track is: its two end junctions, the trains queued on it, and its shape.
pub struct TrackModel<S> {
    pub source: JunctionId,
    pub destination: JunctionId,
    pub trains: Seq<TrainId>,
    pub shape: S,
}

/// What a train is: the track it runs on and how far along it it is.
pub struct TrainModel<X> {
    pub track: TrackID,
    pub distance: X,
}

/// The whole network; each entity's identifier is its index in its list.
pub struct NetworkModel<P, S, X> {
    pub junctions: Seq<JunctionModel<P>>,
    pub tracks: Seq<TrackModel<S>>,
    pub trains: Seq<TrainModel<X>>,
    pub stations: Seq<TrackID>,
}

impl<P, S, X> NetworkModel<P, S, X> {
    pub open spec fn has_junction(&self, j: JunctionId) -> bool {
        j.0 < self.junctions.len()
    }

    pub open spec fn has_track(&self, t: TrackID) -> bool {
        t.0 < self.tracks.len()
    }

    pub open spec fn has_train(&self, t: TrainId) -> bool {
        t.0 < self.trains.len()
    }

    /// Every reference points into its list, and each junction lists exactly
    /// the tracks that end and start there, at most two of each.
    pub open spec fn wf(&self) -> bool {
        &&& forall|t: int|
            #![trigger self.tracks[t]]
            0 <= t < self.tracks.len() ==> {
                &&& self.has_junction(self.tracks[t].source)
                &&& self.has_junction(self.tracks[t].destination)
                &&& self.junctions[self.tracks[t].source.0 as int].exits.contains(TrackID(t as usize))
                &&& self.junctions[self.tracks[t].destination.0 as int].entrances.contains(
                    TrackID(t as usize),
                )
                &&& forall|k: int|
                    0 <= k < self.tracks[t].trains.len() ==> self.has_train(
                        #[trigger] self.tracks[t].trains[k],
                    )
            }
        &&& forall|j: int|
            #![trigger self.junctions[j]]
            0 <= j < self.junctions.len() ==> {
                &&& self.junctions[j].entrances.len() <= JUNCTION_CAPACITY
                &&& self.junctions[j].exits.len() <= JUNCTION_CAPACITY
                &&& forall|k: int|
                    #![trigger self.junctions[j].exits[k]]
                    0 <= k < self.junctions[j].exits.len() ==> self.has_track(
                        self.junctions[j].exits[k],
                    ) && self.tracks[self.junctions[j].exits[k].0 as int].source.0 == j
                &&& forall|k: int|
                    #![trigger self.junctions[j].entrances[k]]
                    0 <= k < self.junctions[j].entrances.len() ==> self.has_track(
                        self.junctions[j].entrances[k],
                    ) && self.tracks[self.junctions[j].entrances[k].0 as int].destination.0 == j
            }
        &&& forall|i: int|
            0 <= i < self.trains.len() ==> self.has_track(#[trigger] self.trains[i].track)
        &&& forall|s: int| 0 <= s < self.stations.len() ==> self.has_track(#[trigger] self.stations[s])
    }

    /// The junction at the far end of the track that `train` runs on.
    pub open spec fn next_junction(&self, train: TrainId) -> JunctionModel<P> {
        self.junctions[self.tracks[self.trains[train.0 as int].track.0 as int].destination.0 as int]
    }

    /// The network after `train` has moved on to the start of track `next`
    /// and joined its queue; the train's distance is left as it was.
    pub open spec fn with_train_moved(self, train: TrainId, next: TrackID) -> Self {
        NetworkModel {
            tracks: self.tracks.update(
                next.0 as int,
                TrackModel {
                    trains: self.tracks[next.0 as int].trains.push(train),
                    ..self.tracks[next.0 as int]
                },
            ),
            trains: self.trains.update(
                train.0 as int,
                TrainModel { track: next, distance: self.trains[train.0 as int].distance },
            ),
            ..self
        }
    }

    /// The network after `train` has moved `distance` along its track.
    pub open spec fn with_train_distance(self, train: TrainId, distance: X) -> Self {
        NetworkModel {
            trains: self.trains.update(
                train.0 as int,
                TrainModel { track: self.trains[train.0 as int].track, distance },
            ),
            ..self
        }
    }

    /// The network after `junction` is given `direction` unless it has one.
    pub open spec fn with_direction_if_absent(self, junction: JunctionId, direction: P) -> Self {
        let old_junction = self.junctions[junction.0 as int];
        NetworkModel {
            junctions: self.junctions.update(
                junction.0 as int,
                JunctionModel {
                    direction: match old_junction.direction {
                        Some(d) => Some(d),
                        None => Some(direction),
                    },
                    ..old_junction
                },
            ),
            ..self
        }
    }

    /// What a renderer is given of track `t`.
    pub open spec fn track_info(&self, t: int) -> TrackInfo<P, S> {
        TrackInfo {
            source: self.junctions[self.tracks[t].source.0 as int].position,
            destination: self.junctions[self.tracks[t].destination.0 as int].position,
            shape: self.tracks[t].shape,
        }
    }

    /// Where each train is: its track and its distance along it.
    pub open spec fn placements(&self) -> Seq<(TrackID, X)> {
        self.trains.map_values(|t: TrainModel<X>| (t.track, t.distance))
    }

    /// `from` has an exit to spare and `to` an entrance.
    pub open spec fn has_room(&self, from: JunctionId, to: JunctionId) -> bool {
        &&& self.junctions[from.0 as int].exits.len() < JUNCTION_CAPACITY
        &&& self.junctions[to.0 as int].entrances.len() < JUNCTION_CAPACITY
    }

    /// The network after a track `from -> to` with `shape` is attached.
    pub open spec fn with_segment(self, from: JunctionId, to: JunctionId, shape: S) -> Self {
        let t = TrackID(self.tracks.len() as usize);
        NetworkModel {
            junctions: Seq::new(
                self.junctions.len(),
                |j: int|
                    JunctionModel {
                        position: self.junctions[j].position,
                        direction: self.junctions[j].direction,
                        entrances: if j == to.0 {
                            self.junctions[j].entrances.push(t)
                        } else {
                            self.junctions[j].entrances
                        },
                        exits: if j == from.0 {
                            self.junctions[j].exits.push(t)
                        } else {
                            self.junctions[j].exits
                        },
                    },
            ),
            tracks: self.tracks.push(
                TrackModel { source: from, destination: to, trains: Seq::empty(), shape },
            ),
            trains: self.trains,
            stations: self.stations,
        }
    }
}

/// The `i`-th junction along a chain of `n` pieces from `source` to
/// `destination` whose inner junctions are numbered from `first_cut` on.
pub open spec fn chain_node(
    source: JunctionId,
    destination: JunctionId,
    first_cut: nat,
    n: nat,
    i: nat,
) -> JunctionId {
    if i == 0 {
        source
    } else if i == n {
        destination
    } else {
        JunctionId((first_cut + i - 1) as usize)
    }
}

/// Piece `i` of a chain of `n` pieces, freshly attached.
pub open spec fn chain_track<S>(
    source: JunctionId,
    destination: JunctionId,
    first_cut: nat,
    n: nat,
    i: nat,
    shape: S,
) -> TrackModel<S> {
    TrackModel {
        source: chain_node(source, destination, first_cut, n, i),
        destination: chain_node(source, destination, first_cut, n, i + 1),
        trains: Seq::empty(),
        shape,
    }
}

/// The inner junction made at cut `c` of a chain whose tracks are numbered from
/// `first_track` on, once the first `done` pieces are attached.
pub open spec fn chain_cut_junction<P>(
    cuts: Seq<(P, P)>,
    first_track: nat,
    c: int,
    done: nat,
) -> JunctionModel<P> {
    JunctionModel {
        position: cuts[c].0,
        direction: Some(cuts[c].1),
        entrances: if c < done {
            seq![TrackID((first_track + c) as usize)]
        } else {
            Seq::empty()
        },
        exits: if c + 1 < done {
            seq![TrackID((first_track + c + 1) as usize)]
        } else {
            Seq::empty()
        },
    }
}

/// A junction that existed before a chain of `n` pieces was attached, once the
/// first `done` of them are.
pub open spec fn chain_old_junction<P>(
    j: JunctionModel<P>,
    index: int,
    source: JunctionId,
    destination: JunctionId,
    first_track: nat,
    n: nat,
    done: nat,
) -> JunctionModel<P> {
    JunctionModel {
        position: j.position,
        direction: j.direction,
        entrances: if index == destination.0 && done == n && n > 0 {
            j.entrances.push(TrackID((first_track + n - 1) as usize))
        } else {
            j.entrances
        },
        exits: if index == source.0 && done > 0 {
            j.exits.push(TrackID(first_track as usize))
        } else {
            j.exits
        },
    }
}

/// Queueing an existing train at the back of one track, while no train is
/// removed, leaves every queued train an existing one.
proof fn lemma_queue_push_keeps_trains<P, S, X>(
    m0: NetworkModel<P, S, X>,
    m1: NetworkModel<P, S, X>,
    track: TrackID,
    train: TrainId,
)
    requires
        m0.wf(),
        m0.has_track(track),
        m1.has_train(train),
        m1.trains.len() >= m0.trains.len(),
        m1.tracks == m0.tracks.update(
            track.0 as int,
            TrackModel { trains: m0.tracks[track.0 as int].trains.push(train), ..m0.tracks[track.0 as int] },
        ),
    ensures
        forall|t: int|
            0 <= t < m1.tracks.len() ==> forall|k: int|
                0 <= k < #[trigger] m1.tracks[t].trains.len() ==> m1.has_train(
                    m1.tracks[t].trains[k],
                ),
{
    assert forall|t: int| 0 <= t < m1.tracks.len() implies forall|k: int|
        0 <= k < #[trigger] m1.tracks[t].trains.len() ==> m1.has_train(m1.tracks[t].trains[k]) by {
        assert forall|k: int| 0 <= k < m1.tracks[t].trains.len() implies m1.has_train(
            #[trigger] m1.tracks[t].trains[k],
        ) by {
            if t != track.0 || k < m0.tracks[t].trains.len() {
                assert(m0.has_train(m0.tracks[t].trains[k]));
            }
        }
    }
}

/// What the invariant of a `Network` tells of its model: the model is
/// consistent (`NetworkModel::wf`).
pub proof fn lemma_wf_model<P: Copy, S: Copy, X: Copy>(network: &Network<P, S, X>)
    requires
        network.wf(),
    ensures
        network@.wf(),
{
}

/// A point of the network where tracks meet.
#[derive(Clone, Copy)]
pub struct Junction<P: Copy> {
    id: JunctionId,
    position: P,
    entrances: Minivec<JUNCTION_CAPACITY, TrackID>,
    exits: Minivec<JUNCTION_CAPACITY, TrackID>,
    direction: Option<P>,
}

/// A directed piece of rail between two junctions.
pub struct Track<S> {
    id: TrackID,
    source: JunctionId,
    destination: JunctionId,
    trains: VecDeque<TrainId>,
    shape: S,
}

/// What a renderer needs of a track: where it starts and ends, and its shape.
#[derive(Clone, Copy)]
pub struct TrackInfo<P, S> {
    pub source: P,
    pub destination: P,
    pub shape: S,
}

/// A train and where on the network it is.
#[derive(Clone, Copy)]
pub struct Train<X> {
    id: TrainId,
    track: TrackID,
    distance: X,
}

/// A docking track, recorded apart from the rest.
#[derive(Clone, Copy)]
struct Station {
    track: TrackID,
}

/// A rail network: junctions at points `P`, tracks of shape `S`, and trains
/// whose progress along a track is measured in `X`.
pub struct Network<P: Copy, S: Copy, X: Copy> {
    tracks: Vec<Track<S>>,
    junctions: Vec<Junction<P>>,
    trains: Vec<Train<X>>,
    stations: Vec<Station>,
}

impl<P: Copy> Junction<P> {
    closed spec fn model(self) -> JunctionModel<P> {
        JunctionModel {
            position: self.position,
            direction: self.direction,
            entrances: self.entrances.view(),
            exits: self.exits.view(),
        }
    }
}

impl<S> Track<S> {
    closed spec fn model(&self) -> TrackModel<S> {
        TrackModel {
            source: self.source,
            destination: self.destination,
            trains: self.trains@,
            shape: self.shape,
        }
    }
}

impl<X> Train<X> {
    closed spec fn model(self) -> TrainModel<X> {
        TrainModel { track: self.track, distance: self.distance }
    }
}

impl<P: Copy, S: Copy, X: Copy> Network<P, S, X> {
    pub closed spec fn view(&self) -> NetworkModel<P, S, X> {
        NetworkModel {
            junctions: self.junctions@.map_values(|j: Junction<P>| j.model()),
            tracks: self.tracks@.map_values(|t: Track<S>| t.model()),
            trains: self.trains@.map_values(|t: Train<X>| t.model()),
            stations: self.stations@.map_values(|s: Station| s.track),
        }
    }

    /// The stored identifiers agree with the positions, the bounded lists are
    /// well formed, and the model is consistent.
    pub closed spec fn wf(&self) -> bool {
        &&& forall|j: int|
            0 <= j < self.junctions.len() ==> (#[trigger] self.junctions[j]).id.0 == j
                && self.junctions[j].entrances.wf() && self.junctions[j].exits.wf()
        &&& forall|t: int| 0 <= t < self.tracks.len() ==> (#[trigger] self.tracks[t]).id.0 == t
        &&& forall|t: int| 0 <= t < self.trains.len() ==> (#[trigger] self.trains[t]).id.0 == t
        &&& self.view().wf()
    }

    /// An empty network.
    pub fn new() -> (r: Self)
        ensures
            r.wf(),
            r.view().junctions.len() == 0,
            r.view().tracks.len() == 0,
            r.view().trains.len() == 0,
            r.view().stations.len() == 0,
    {
        let r = Network { tracks: Vec::new(), junctions: Vec::new(), trains: Vec::new(), stations: Vec::new() };
        r
    }

    fn push_junction(&mut self, position: P, direction: Option<P>) -> (r: JunctionId)
        requires
            old(self).wf(),
        ensures
            final(self).wf(),
            r.0 == old(self)@.junctions.len(),
            final(self)@ == (NetworkModel {
                junctions: old(self)@.junctions.push(
                    JunctionModel { position, direction, entrances: Seq::empty(), exits: Seq::empty() },
                ),
                ..old(self)@
            }),
    {
        let junction_id = JunctionId(self.junctions.len());
        let ghost m0 = self@;
        self.junctions.push(
            Junction {
                id: junction_id,
                position,
                entrances: Minivec::new(),
                exits: Minivec::new(),
                direction,
            },
        );
        let ghost j = JunctionModel { position, direction, entrances: Seq::<TrackID>::empty(), exits: Seq::<TrackID>::empty() };
        assert(self@.junctions =~= m0.junctions.push(j));
        assert(self@ =~= NetworkModel { junctions: m0.junctions.push(j), ..m0 });
        junction_id
    }

    /// Adds a junction at `position` whose direction is not yet fixed.
    pub fn add_junction(&mut self, position: P) -> (r: JunctionId)
        requires
            old(self).wf(),
        ensures
            final(self).wf(),
            r.0 == old(self)@.junctions.len(),
            final(self)@ == (NetworkModel {
                junctions: old(self)@.junctions.push(
                    JunctionModel { position, direction: None, entrances: Seq::empty(), exits: Seq::empty() },
                ),
                ..old(self)@
            }),
    {
        self.push_junction(position, None)
    }

    /// Fixes the direction of `junction` to `direction` unless it already has one.
    pub fn set_direction_if_absent(&mut self, junction: JunctionId, direction: P)
        requires
            old(self).wf(),
            old(self)@.has_junction(junction),
        ensures
            final(self).wf(),
            final(self)@ == old(self)@.with_direction_if_absent(junction, direction),
    {
        let ghost m0 = self@;
        if self.junctions[junction.0].direction.is_none() {
            self.junctions[junction.0].direction = Some(direction);
        }
        assert(self@.junctions =~= m0.with_direction_if_absent(junction, direction).junctions);
        assert(self@.tracks =~= m0.tracks);
        assert(self@.trains =~= m0.trains);
        assert(self@.stations =~= m0.stations);
    }

    /// Whether a track `source -> destination` can be attached: it cannot when
    /// `source` already has its two exits or `destination` its two entrances.
    pub fn check_room(&self, source: JunctionId, destination: JunctionId) -> (r: Result<
        (),
        TopologyError,
    >)
        requires
            self.wf(),
            self@.has_junction(source),
            self@.has_junction(destination),
        ensures
            self@.junctions[source.0 as int].exits.len() >= JUNCTION_CAPACITY ==> r == Err::<
                (),
                TopologyError,
            >(TopologyError::ExitsFull(source)),
            self@.junctions[source.0 as int].exits.len() < JUNCTION_CAPACITY
                && self@.junctions[destination.0 as int].entrances.len() >= JUNCTION_CAPACITY
                ==> r == Err::<(), TopologyError>(TopologyError::EntrancesFull(destination)),
            r is Ok <==> self@.has_room(source, destination),
    {
        if self.junctions[source.0].exits.len() >= JUNCTION_CAPACITY {
            return Err(TopologyError::ExitsFull(source));
        }
        if self.junctions[destination.0].entrances.len() >= JUNCTION_CAPACITY {
            return Err(TopologyError::EntrancesFull(destination));
        }
        Ok(())
    }

    /// Attaches a track `source -> destination` of the given shape. A junction
    /// takes at most two exits and two entrances; attaching past that is a
    /// broken construction, so the caller checks first (`check_room`).
    pub fn add_track_segment(&mut self, source: JunctionId, destination: JunctionId, shape: S) -> (r:
        TrackID)
        requires
            old(self).wf(),
            old(self)@.has_junction(source),
            old(self)@.has_junction(destination),
            old(self)@.has_room(source, destination),
        ensures
            final(self).wf(),
            r == TrackID(old(self)@.tracks.len() as usize),
            final(self)@ == old(self)@.with_segment(source, destination, shape),
    {
        let track_id = TrackID(self.tracks.len());
        let ghost m0 = self@;
        let ghost m1 = m0.with_segment(source, destination, shape);
        let _ = self.junctions[source.0].exits.push(track_id);
        let _ = self.junctions[destination.0].entrances.push(track_id);
        self.tracks.push(
            Track { id: track_id, source, destination, trains: VecDeque::new(), shape },
        );
        assert(self@.junctions =~= m1.junctions);
        assert(self@.tracks =~= m1.tracks);
        assert(self@.trains =~= m1.trains);
        assert(self@.stations =~= m1.stations);
        assert(self@ == m1);
        assert forall|t: int| #![trigger m1.tracks[t]] 0 <= t < m1.tracks.len() implies {
            &&& m1.junctions[m1.tracks[t].source.0 as int].exits.contains(TrackID(t as usize))
            &&& m1.junctions[m1.tracks[t].destination.0 as int].entrances.contains(
                TrackID(t as usize),
            )
        } by {
            let id = TrackID(t as usize);
            if t < m0.tracks.len() {
                let from = m0.tracks[t].source.0 as int;
                let to = m0.tracks[t].destination.0 as int;
                assert(m0.tracks[t] == m1.tracks[t]);
                let k = choose|k: int|
                    0 <= k < m0.junctions[from].exits.len() && m0.junctions[from].exits[k] == id;
                assert(m1.junctions[from].exits[k] == id);
                let e = choose|e: int|
                    0 <= e < m0.junctions[to].entrances.len() && m0.junctions[to].entrances[e] == id;
                assert(m1.junctions[to].entrances[e] == id);
            } else {
                let last_exit = m0.junctions[source.0 as int].exits.len() as int;
                assert(m1.junctions[source.0 as int].exits[last_exit] == id);
                let last_entrance = m0.junctions[destination.0 as int].entrances.len() as int;
                assert(m1.junctions[destination.0 as int].entrances[last_entrance] == id);
            }
        }
        track_id
    }

    /// Attaches a track `source -> destination` made of the consecutive
    /// `pieces`. Each of `cuts` is the position and direction of a new junction
    /// between two pieces. Returns the first piece. As for `add_track_segment`,
    /// `source` must have an exit to spare and `destination` an entrance.
    pub fn add_track(
        &mut self,
        source: JunctionId,
        destination: JunctionId,
        cuts: &Vec<(P, P)>,
        pieces: &Vec<S>,
    ) -> (r: TrackID)
        requires
            old(self).wf(),
            old(self)@.has_junction(source),
            old(self)@.has_junction(destination),
            old(self)@.has_room(source, destination),
            pieces.len() == cuts.len() + 1,
        ensures
            final(self).wf(),
            ({
                let m0 = old(self)@;
                let m1 = final(self)@;
                let j0 = m0.junctions.len();
                let t0 = m0.tracks.len();
                let n = pieces@.len();
                &&& r == TrackID(t0 as usize)
                &&& m1.trains == m0.trains
                &&& m1.stations == m0.stations
                &&& m1.junctions.len() == j0 + cuts@.len()
                &&& m1.tracks.len() == t0 + n
                &&& forall|t: int| 0 <= t < t0 ==> #[trigger] m1.tracks[t] == m0.tracks[t]
                &&& forall|i: int|
                    0 <= i < n ==> #[trigger] m1.tracks[t0 + i] == chain_track(
                        source,
                        destination,
                        j0,
                        n,
                        i as nat,
                        pieces@[i],
                    )
                &&& forall|j: int|
                    0 <= j < j0 ==> #[trigger] m1.junctions[j] == chain_old_junction(
                        m0.junctions[j],
                        j,
                        source,
                        destination,
                        t0,
                        n,
                        n,
                    )
                &&& forall|c: int|
                    0 <= c < cuts@.len() ==> #[trigger] m1.junctions[j0 + c] == chain_cut_junction(
                        cuts@,
                        t0,
                        c,
                        n,
                    )
            }),
    {
        let ghost m0 = self@;
        let j0 = self.junctions.len();
        let t0 = self.tracks.len();
        let n = pieces.len();
        let mut c: usize = 0;
        while c < cuts.len()
            invariant
                self.wf(),
                self.junctions.len() == self@.junctions.len(),
                0 <= c <= cuts.len(),
                pieces.len() == cuts.len() + 1,
                n == pieces.len(),
                j0 == m0.junctions.len(),
                t0 == m0.tracks.len(),
                self@.tracks == m0.tracks,
                self@.trains == m0.trains,
                self@.stations == m0.stations,
                self@.junctions.len() == j0 + c,
                forall|j: int| 0 <= j < j0 ==> #[trigger] self@.junctions[j] == m0.junctions[j],
                forall|k: int|
                    0 <= k < c ==> #[trigger] self@.junctions[j0 + k] == chain_cut_junction(
                        cuts@,
                        t0 as nat,
                        k,
                        0,
                    ),
            decreases cuts.len() - c,
        {
            let (position, direction) = cuts[c];
            self.push_junction(position, Some(direction));
            c = c + 1;
        }
        let total = self.junctions.len();
        let mut seg: usize = 0;
        while seg < n
            invariant
                self.wf(),
                total == j0 + cuts.len(),
                0 <= seg <= n,
                pieces.len() == cuts.len() + 1,
                n == pieces.len(),
                j0 == m0.junctions.len(),
                t0 == m0.tracks.len(),
                m0.has_junction(source),
                m0.has_junction(destination),
                m0.junctions[source.0 as int].exits.len() < JUNCTION_CAPACITY,
                m0.junctions[destination.0 as int].entrances.len() < JUNCTION_CAPACITY,
                self@.trains == m0.trains,
                self@.stations == m0.stations,
                self@.junctions.len() == j0 + cuts.len(),
                self@.tracks.len() == t0 + seg,
                forall|t: int| 0 <= t < t0 ==> #[trigger] self@.tracks[t] == m0.tracks[t],
                forall|i: int|
                    0 <= i < seg ==> #[trigger] self@.tracks[t0 + i] == chain_track(
                        source,
                        destination,
                        j0 as nat,
                        n as nat,
                        i as nat,
                        pieces@[i],
                    ),
                forall|j: int|
                    0 <= j < j0 ==> #[trigger] self@.junctions[j] == chain_old_junction(
                        m0.junctions[j],
                        j,
                        source,
                        destination,
                        t0 as nat,
                        n as nat,
                        seg as nat,
                    ),
                forall|k: int|
                    0 <= k < cuts.len() ==> #[trigger] self@.junctions[j0 + k] == chain_cut_junction(
                        cuts@,
                        t0 as nat,
                        k,
                        seg as nat,
                    ),
            decreases n - seg,
        {
            let from = if seg == 0 {
                source
            } else {
                JunctionId(j0 + (seg - 1))
            };
            let to = if seg == n - 1 {
                destination
            } else {
                JunctionId(j0 + seg)
            };
            assert(from == chain_node(source, destination, j0 as nat, n as nat, seg as nat));
            assert(to == chain_node(source, destination, j0 as nat, n as nat, (seg + 1) as nat));
            let ghost before = self@;
            proof {
                if seg > 0 {
                    assert(before.junctions[j0 + (seg - 1)] == chain_cut_junction(
                        cuts@,
                        t0 as nat,
                        seg - 1,
                        seg as nat,
                    ));
                } else {
                    assert(before.junctions[source.0 as int] == chain_old_junction(
                        m0.junctions[source.0 as int],
                        source.0 as int,
                        source,
                        destination,
                        t0 as nat,
                        n as nat,
                        seg as nat,
                    ));
                }
                if seg < n - 1 {
                    assert(before.junctions[j0 + seg] == chain_cut_junction(
                        cuts@,
                        t0 as nat,
                        seg as int,
                        seg as nat,
                    ));
                } else {
                    assert(before.junctions[destination.0 as int] == chain_old_junction(
                        m0.junctions[destination.0 as int],
                        destination.0 as int,
                        source,
                        destination,
                        t0 as nat,
                        n as nat,
                        seg as nat,
                    ));
                }
            }
            self.add_track_segment(from, to, pieces[seg]);
            let ghost after = self@;
            assert forall|j: int| 0 <= j < j0 implies #[trigger] after.junctions[j]
                == chain_old_junction(
                m0.junctions[j],
                j,
                source,
                destination,
                t0 as nat,
                n as nat,
                (seg + 1) as nat,
            ) by {
                assert(before.junctions[j] == chain_old_junction(
                    m0.junctions[j],
                    j,
                    source,
                    destination,
                    t0 as nat,
                    n as nat,
                    seg as nat,
                ));
            }
            assert forall|k: int| 0 <= k < cuts.len() implies #[trigger] after.junctions[j0 + k]
                == chain_cut_junction(cuts@, t0 as nat, k, (seg + 1) as nat) by {
                assert(before.junctions[j0 + k] == chain_cut_junction(
                    cuts@,
                    t0 as nat,
                    k,
                    seg as nat,
                ));
                assert(seq![TrackID((t0 + k) as usize)] =~= Seq::<TrackID>::empty().push(
                    TrackID((t0 + k) as usize),
                ));
                assert(seq![TrackID((t0 + k + 1) as usize)] =~= Seq::<TrackID>::empty().push(
                    TrackID((t0 + k + 1) as usize),
                ));
            }
            seg = seg + 1;
        }
        TrackID(t0)
    }

    /// Puts a new train at `distance` along `track`, at the back of its queue.
    pub fn add_train(&mut self, track: TrackID, distance: X) -> (r: TrainId)
        requires
            old(self).wf(),
            old(self)@.has_track(track),
        ensures
            final(self).wf(),
            r.0 == old(self)@.trains.len(),
            final(self)@ == (NetworkModel {
                trains: old(self)@.trains.push(TrainModel { track, distance }),
                tracks: old(self)@.tracks.update(
                    track.0 as int,
                    TrackModel {
                        trains: old(self)@.tracks[track.0 as int].trains.push(r),
                        ..old(self)@.tracks[track.0 as int]
                    },
                ),
                ..old(self)@
            }),
    {
        let ghost m0 = self@;
        let train_id = TrainId(self.trains.len());
        self.trains.push(Train { id: train_id, track, distance });
        self.tracks[track.0].trains.push_back(train_id);
        let ghost m1 = NetworkModel {
            trains: m0.trains.push(TrainModel { track, distance }),
            tracks: m0.tracks.update(
                track.0 as int,
                TrackModel { trains: m0.tracks[track.0 as int].trains.push(train_id), ..m0.tracks[track.0 as int] },
            ),
            ..m0
        };
        assert(self@.trains =~= m1.trains);
        assert(self@.tracks =~= m1.tracks);
        assert(self@.junctions =~= m1.junctions);
        assert(self@.stations =~= m1.stations);
        proof {
            lemma_queue_push_keeps_trains(m0, m1, track, train_id);
        }
        train_id
    }

    /// Moves `train` onto exit number `choice` of the junction its track ends
    /// at, and puts it at the back of that track's queue.
    pub fn move_train_to_exit(&mut self, train: TrainId, choice: usize) -> (r: TrackID)
        requires
            old(self).wf(),
            old(self)@.has_train(train),
            choice < old(self)@.next_junction(train).exits.len(),
        ensures
            final(self).wf(),
            r == old(self)@.next_junction(train).exits[choice as int],
            final(self)@ == old(self)@.with_train_moved(train, r),
    {
        let ghost m0 = self@;
        let current = self.trains[train.0].track;
        let junction = self.tracks[current.0].destination;
        proof {
            assert(m0.has_track(m0.trains[train.0 as int].track));
            assert(m0.has_junction(m0.tracks[current.0 as int].destination));
            assert(m0.junctions[junction.0 as int].exits[choice as int] == m0.next_junction(train).exits[choice as int]);
        }
        let next = self.junctions[junction.0].exits.index(choice);
        self.tracks[next.0].trains.push_back(train);
        self.trains[train.0].track = next;
        let ghost m1 = m0.with_train_moved(train, next);
        assert(self@.trains =~= m1.trains);
        assert(self@.tracks =~= m1.tracks);
        assert(self@.junctions =~= m1.junctions);
        assert(self@.stations =~= m1.stations);
        proof {
            lemma_queue_push_keeps_trains(m0, m1, next, train);
        }
        next
    }

    /// Moves `train` onto an exit, drawn at random, of the junction its track
    /// ends at, and puts it at the back of that track's queue.
    pub fn advance_to_next_track(&mut self, train: TrainId) -> (r: TrackID)
        requires
            old(self).wf(),
            old(self)@.has_train(train),
            old(self)@.next_junction(train).exits.len() > 0,
        ensures
            final(self).wf(),
            old(self)@.next_junction(train).exits.contains(r),
            final(self)@ == old(self)@.with_train_moved(train, r),
    {
        let ghost m0 = self@;
        let count = self.exit_count(self.trains[train.0].track);
        let choice = random_below(count);
        let r = self.move_train_to_exit(train, choice);
        assert(m0.next_junction(train).exits[choice as int] == r);
        r
    }

    /// How many tracks leave the junction that `track` ends at.
    pub fn exit_count(&self, track: TrackID) -> (r: usize)
        requires
            self.wf(),
            self@.has_track(track),
        ensures
            r == self@.junctions[self@.tracks[track.0 as int].destination.0 as int].exits.len(),
    {
        let junction = self.tracks[track.0].destination;
        proof {
            assert(self@.has_junction(self@.tracks[track.0 as int].destination));
        }
        self.junctions[junction.0].exits.len()
    }

    /// Sets how far along its track `train` is.
    pub fn set_train_distance(&mut self, train: TrainId, distance: X)
        requires
            old(self).wf(),
            old(self)@.has_train(train),
        ensures
            final(self).wf(),
            final(self)@ == old(self)@.with_train_distance(train, distance),
    {
        let ghost m0 = self@;
        self.trains[train.0].distance = distance;
        let ghost m1 = m0.with_train_distance(train, distance);
        assert(self@.trains =~= m1.trains);
        assert(self@.tracks =~= m1.tracks);
        assert(self@.junctions =~= m1.junctions);
        assert(self@.stations =~= m1.stations);
    }

    /// Every track, in order, with the positions of its end junctions.
    pub fn curves(&self) -> (r: Vec<TrackInfo<P, S>>)
        requires
            self.wf(),
        ensures
            r@.len() == self@.tracks.len(),
            forall|t: int| 0 <= t < r@.len() ==> #[trigger] r@[t] == self@.track_info(t),
    {
        let mut r: Vec<TrackInfo<P, S>> = Vec::new();
        let mut t: usize = 0;
        while t < self.tracks.len()
            invariant
                self.wf(),
                t <= self.tracks.len(),
                r@.len() == t,
                forall|i: int| 0 <= i < t ==> #[trigger] r@[i] == self@.track_info(i),
            decreases self.tracks.len() - t,
        {
            let track = &self.tracks[t];
            proof {
                assert(self@.tracks[t as int] == track.model());
                assert(self@.has_junction(self@.tracks[t as int].source));
                assert(self@.has_junction(self@.tracks[t as int].destination));
            }
            r.push(
                TrackInfo {
                    source: self.junctions[track.source.0].position,
                    destination: self.junctions[track.destination.0].position,
                    shape: track.shape,
                },
            );
            t = t + 1;
        }
        r
    }

    /// Each train's track and distance along it, in the order the trains were added.
    pub fn train_placements(&self) -> (r: Vec<(TrackID, X)>)
        requires
            self.wf(),
        ensures
            r@ == self@.placements(),
    {
        let mut r: Vec<(TrackID, X)> = Vec::new();
        let mut i: usize = 0;
        while i < self.trains.len()
            invariant
                i <= self.trains.len(),
                r@ == self@.placements().subrange(0, i as int),
            decreases self.trains.len() - i,
        {
            let train = self.trains[i];
            r.push((train.track, train.distance));
            proof {
                assert(self@.placements().subrange(0, i + 1) =~= self@.placements().subrange(
                    0,
                    i as int,
                ).push((train.track, train.distance)));
            }
            i = i + 1;
        }
        assert(self@.placements().subrange(0, i as int) =~= self@.placements());
        r
    }

    pub fn junction_count(&self) -> (r: usize)
        ensures
            r == self@.junctions.len(),
    {
        self.junctions.len()
    }

    pub fn track_count(&self) -> (r: usize)
        ensures
            r == self@.tracks.len(),
    {
        self.tracks.len()
    }

    pub fn train_count(&self) -> (r: usize)
        ensures
            r == self@.trains.len(),
    {
        self.trains.len()
    }

    pub fn junction_position(&self, junction: JunctionId) -> (r: P)
        requires
            self@.has_junction(junction),
        ensures
            r == self@.junctions[junction.0 as int].position,
    {
        self.junctions[junction.0].position
    }

    pub fn junction_direction(&self, junction: JunctionId) -> (r: Option<P>)
        requires
            self@.has_junction(junction),
        ensures
            r == self@.junctions[junction.0 as int].direction,
    {
        self.junctions[junction.0].direction
    }

    /// The number of tracks that leave `junction`.
    pub fn junction_exit_count(&self, junction: JunctionId) -> (r: usize)
        requires
            self.wf(),
            self@.has_junction(junction),
        ensures
            r == self@.junctions[junction.0 as int].exits.len(),
    {
        self.junctions[junction.0].exits.len()
    }

    /// The number of tracks that enter `junction`.
    pub fn junction_entrance_count(&self, junction: JunctionId) -> (r: usize)
        requires
            self.wf(),
            self@.has_junction(junction),
        ensures
            r == self@.junctions[junction.0 as int].entrances.len(),
    {
        self.junctions[junction.0].entrances.len()
    }

    /// Exit number `k` of `junction`.
    pub fn junction_exit(&self, junction: JunctionId, k: usize) -> (r: TrackID)
        requires
            self.wf(),
            self@.has_junction(junction),
            k < self@.junctions[junction.0 as int].exits.len(),
        ensures
            r == self@.junctions[junction.0 as int].exits[k as int],
    {
        self.junctions[junction.0].exits.index(k)
    }

    /// Entrance number `k` of `junction`.
    pub fn junction_entrance(&self, junction: JunctionId, k: usize) -> (r: TrackID)
        requires
            self.wf(),
            self@.has_junction(junction),
            k < self@.junctions[junction.0 as int].entrances.len(),
        ensures
            r == self@.junctions[junction.0 as int].entrances[k as int],
    {
        self.junctions[junction.0].entrances.index(k)
    }

    pub fn track_source(&self, track: TrackID) -> (r: JunctionId)
        requires
            self@.has_track(track),
        ensures
            r == self@.tracks[track.0 as int].source,
    {
        self.tracks[track.0].source
    }

    pub fn track_destination(&self, track: TrackID) -> (r: JunctionId)
        requires
            self@.has_track(track),
        ensures
            r == self@.tracks[track.0 as int].destination,
    {
        self.tracks[track.0].destination
    }

    pub fn track_shape(&self, track: TrackID) -> (r: S)
        requires
            self@.has_track(track),
        ensures
            r == self@.tracks[track.0 as int].shape,
    {
        self.tracks[track.0].shape
    }

    /// The trains queued on `track`, front first.
    pub fn track_trains(&self, track: TrackID) -> (r: Vec<TrainId>)
        requires
            self@.has_track(track),
        ensures
            r@ == self@.tracks[track.0 as int].trains,
    {
        let queue = &self.tracks[track.0].trains;
        let mut r: Vec<TrainId> = Vec::new();
        let mut i: usize = 0;
        while i < queue.len()
            invariant
                i <= queue@.len(),
                r@ == queue@.subrange(0, i as int),
            decreases queue@.len() - i,
        {
            r.push(queue[i]);
            assert(queue@.subrange(0, i + 1) =~= queue@.subrange(0, i as int).push(queue@[i as int]));
            i = i + 1;
        }
        assert(queue@.subrange(0, i as int) =~= queue@);
        r
    }

    pub fn train_track(&self, train: TrainId) -> (r: TrackID)
        requires
            self@.has_train(train),
        ensures
            r == self@.trains[train.0 as int].track,
    {
        self.trains[train.0].track
    }

    pub fn train_distance(&self, train: TrainId) -> (r: X)
        requires
            self@.has_train(train),
        ensures
            r == self@.trains[train.0 as int].distance,
    {
        self.trains[train.0].distance
    }

    /// Adds a docking track from a new junction at `start` to a new junction at
    /// `end`, made of `pieces` joined at `cuts` as for `add_track`, and records
    /// it as a station.
    pub fn add_station(&mut self, start: P, end: P, cuts: &Vec<(P, P)>, pieces: &Vec<S>) -> (r:
        StationID)
        requires
            old(self).wf(),
            pieces.len() == cuts.len() + 1,
        ensures
            final(self).wf(),
            ({
                let m0 = old(self)@;
                let m1 = final(self)@;
                let j0 = m0.junctions.len();
                let t0 = m0.tracks.len();
                let n = pieces@.len();
                &&& r.0 == m0.stations.len()
                &&& m1.stations == m0.stations.push(TrackID(t0 as usize))
                &&& m1.trains == m0.trains
                &&& m1.junctions.len() == j0 + 2 + cuts@.len()
                &&& forall|j: int| 0 <= j < j0 ==> #[trigger] m1.junctions[j] == m0.junctions[j]
                &&& m1.junctions[j0 as int] == JunctionModel {
                    position: start,
                    direction: None,
                    entrances: Seq::empty(),
                    exits: seq![TrackID(t0 as usize)],
                }
                &&& m1.junctions[j0 as int + 1] == JunctionModel {
                    position: end,
                    direction: None,
                    entrances: seq![TrackID((t0 + n - 1) as usize)],
                    exits: Seq::empty(),
                }
                &&& forall|c: int|
                    0 <= c < cuts@.len() ==> #[trigger] m1.junctions[j0 + 2 + c]
                        == chain_cut_junction(cuts@, t0, c, n)
                &&& m1.tracks.len() == t0 + n
                &&& forall|t: int| 0 <= t < t0 ==> #[trigger] m1.tracks[t] == m0.tracks[t]
                &&& forall|i: int|
                    0 <= i < n ==> #[trigger] m1.tracks[t0 + i] == chain_track(
                        JunctionId(j0 as usize),
                        JunctionId((j0 + 1) as usize),
                        j0 + 2,
                        n,
                        i as nat,
                        pieces@[i],
                    )
            }),
    {
        let ghost m0 = self@;
        let station_id = StationID(self.stations.len());
        let start_junction = self.add_junction(start);
        let end_junction = self.add_junction(end);
        let ghost m1 = self@;
        let first = self.add_track(start_junction, end_junction, cuts, pieces);
        let ghost m2 = self@;
        proof {
            let j0 = m0.junctions.len() as int;
            let t0 = m1.tracks.len();
            let n = pieces@.len();
            assert(m2.tracks[t0 as int + 0] == chain_track(
                start_junction,
                end_junction,
                m1.junctions.len(),
                n,
                0,
                pieces@[0],
            ));
            assert forall|j: int| 0 <= j < j0 implies #[trigger] m2.junctions[j]
                == m0.junctions[j] by {
                assert(m2.junctions[j] == chain_old_junction(
                    m1.junctions[j],
                    j,
                    start_junction,
                    end_junction,
                    t0,
                    n,
                    n,
                ));
            }
            assert(m2.junctions[j0] == chain_old_junction(
                m1.junctions[j0],
                j0,
                start_junction,
                end_junction,
                t0,
                n,
                n,
            ));
            assert(seq![TrackID(t0 as usize)] =~= Seq::<TrackID>::empty().push(TrackID(t0 as usize)));
            assert(m2.junctions[j0 + 1] == chain_old_junction(
                m1.junctions[j0 + 1],
                j0 + 1,
                start_junction,
                end_junction,
                t0,
                n,
                n,
            ));
            assert(seq![TrackID((t0 + n - 1) as usize)] =~= Seq::<TrackID>::empty().push(
                TrackID((t0 + n - 1) as usize),
            ));
            assert forall|c: int| 0 <= c < cuts@.len() implies #[trigger] m2.junctions[j0 + 2 + c]
                == chain_cut_junction(cuts@, t0, c, n) by {
                assert(m2.junctions[m1.junctions.len() + c] == chain_cut_junction(cuts@, t0, c, n));
            }
        }
        self.stations.push(Station { track: first });
        assert(self@.stations =~= m2.stations.push(first));
        assert(self@.junctions =~= m2.junctions);
        assert(self@.tracks =~= m2.tracks);
        assert(self@.trains =~= m2.trains);
        station_id
    }

    /// The junction where the track recorded for `station` starts.
    pub fn get_start_junction(&self, station: StationID) -> (r: JunctionId)
        requires
            self.wf(),
            station.0 < self@.stations.len(),
        ensures
            r == self@.tracks[self@.stations[station.0 as int].0 as int].source,
    {
        proof {
            assert(self@.has_track(self@.stations[station.0 as int]));
        }
        self.tracks[self.stations[station.0].track.0].source
    }

    /// The junction where the track recorded for `station` ends.
    pub fn get_end_junction(&self, station: StationID) -> (r: JunctionId)
        requires
            self.wf(),
            station.0 < self@.stations.len(),
        ensures
            r == self@.tracks[self@.stations[station.0 as int].0 as int].destination,
    {
        proof {
            assert(self@.has_track(self@.stations[station.0 as int]));
        }
        self.tracks[self.stations[station.0].track.0].destination
    }

    /// Records that `train` is now `distance` along its track; when it has
    /// passed the end of that track, also moves it onto an exit, drawn at
    /// random, of the junction there, and returns that exit.
    pub fn step_train(&mut self, train: TrainId, distance: X, passed_end: bool) -> (r: Option<
        TrackID,
    >)
        requires
            old(self).wf(),
            old(self)@.has_train(train),
            passed_end ==> old(self)@.next_junction(train).exits.len() > 0,
        ensures
            final(self).wf(),
            !passed_end ==> r is None && final(self)@ == old(self)@.with_train_distance(
                train,
                distance,
            ),
            passed_end ==> (r matches Some(next) && old(self)@.next_junction(train).exits.contains(
                next,
            ) && final(self)@ == old(self)@.with_train_distance(train, distance).with_train_moved(
                train,
                next,
            )),
    {
        self.set_train_distance(train, distance);
        if passed_end {
            Some(self.advance_to_next_track(train))
        } else {
            None
        }
    }
}

} // verus!
