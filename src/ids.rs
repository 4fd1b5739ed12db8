use vstd::prelude::*;

verus! {

/// Index of a station in the network's station list.
#[derive(Debug, Copy, Clone, PartialEq, Eq, Structural)]
pub struct StationID(pub usize);

/// Index of a track in the network's track list.
#[derive(Debug, Copy, Clone, PartialEq, Eq, Structural, Default)]
pub struct TrackID(pub usize);

/// Index of a junction in the network's junction list.
#[derive(Debug, Copy, Clone, PartialEq, Eq, Structural)]
pub struct JunctionId(pub usize);

/// Index of a train in the network's train list.
#[derive(Debug, Copy, Clone, PartialEq, Eq, Structural)]
pub struct TrainId(pub usize);

/// Marker for station-related identifiers that carry no index.
#[derive(Debug, Copy, Clone, PartialEq, Eq, Structural)]
pub struct StationId;

/// Why a track could not be attached to its end junctions.
#[derive(Debug, Copy, Clone, PartialEq, Eq, Structural)]
pub enum TopologyError {
    /// The source junction already has its two exits.
    ExitsFull(JunctionId),
    /// The destination junction already has its two entrances.
    EntrancesFull(JunctionId),
}

} // verus!
