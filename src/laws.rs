use vstd::prelude::*;

use crate::ids::{JunctionId, TrackID, TrainId};
use crate::network::{Network, NetworkModel};

verus! {

/// Reading where the trains are does not change the network, and the reading
/// is a function of the network's state alone: two readings with no change in
/// between give the same list.
pub proof fn lemma_placements_repeatable<P: Copy, S: Copy, X: Copy>(
    network: &Network<P, S, X>,
    first: Seq<(TrackID, X)>,
    second: Seq<(TrackID, X)>,
)
    requires
        first == network@.placements(),
        second == network@.placements(),
    ensures
        first == second,
{
}

/// A junction's direction is fixed by the first write: once it has been
/// given one, a later attempt to give it another leaves it as it was.
pub proof fn lemma_direction_first_write_wins<P, S, X>(
    network: NetworkModel<P, S, X>,
    junction: JunctionId,
    first: P,
    second: P,
)
    requires
        network.has_junction(junction),
    ensures
        network.with_direction_if_absent(junction, first).with_direction_if_absent(
            junction,
            second,
        ) == network.with_direction_if_absent(junction, first),
        network.with_direction_if_absent(junction, first).junctions[junction.0 as int].direction
            is Some,
{
    let once = network.with_direction_if_absent(junction, first);
    assert(once.with_direction_if_absent(junction, second).junctions =~= once.junctions);
}

/// Running the trains leaves the track geometry alone: moving a train along
/// its track, or onto another track, changes no track's end positions or
/// shape, nor how many tracks there are.
pub proof fn lemma_train_moves_keep_geometry<P, S, X>(
    network: NetworkModel<P, S, X>,
    train: TrainId,
    distance: X,
    next: TrackID,
)
    requires
        network.has_train(train),
        network.has_track(next),
    ensures
        network.with_train_distance(train, distance).tracks.len() == network.tracks.len(),
        network.with_train_moved(train, next).tracks.len() == network.tracks.len(),
        forall|t: int|
            0 <= t < network.tracks.len() ==> #[trigger] network.with_train_distance(
                train,
                distance,
            ).track_info(t) == network.track_info(t) && network.with_train_moved(
                train,
                next,
            ).track_info(t) == network.track_info(t),
{
}

} // verus!
