use vstd::prelude::*;

verus! {

/// How two junctions are joined, given which of them already has a fixed
/// direction.
#[derive(Debug, Copy, Clone, PartialEq, Eq, Structural)]
pub enum Connection {
    /// Neither end is constrained: a straight line.
    Straight,
    /// Only the source is constrained: an arc leaving along its direction.
    FromSource,
    /// Only the destination is constrained: an arc arriving along its direction.
    IntoDestination,
    /// Both ends are constrained: an S-shaped bend of two arcs and a line.
    Bend,
}

pub open spec fn spec_connection_kind(source_fixed: bool, destination_fixed: bool) -> Connection {
    if !source_fixed && !destination_fixed {
        Connection::Straight
    } else if source_fixed && !destination_fixed {
        Connection::FromSource
    } else if !source_fixed && destination_fixed {
        Connection::IntoDestination
    } else {
        Connection::Bend
    }
}

/// Chooses how to join a source and a destination junction from the
/// directions they already have.
pub fn connection_kind<P>(source_direction: &Option<P>, destination_direction: &Option<P>) -> (r:
    Connection)
    ensures
        r == spec_connection_kind(source_direction is Some, destination_direction is Some),
{
    match (source_direction, destination_direction) {
        (None, None) => Connection::Straight,
        (Some(_), None) => Connection::FromSource,
        (None, Some(_)) => Connection::IntoDestination,
        (Some(_), Some(_)) => Connection::Bend,
    }
}

/// The side signs of the bend circles tried in place `k`: the source circle's
/// sign first, then the destination circle's, each of -1 and 1 in turn.
pub open spec fn bend_signs(k: int) -> (i32, i32) {
    (if k < 2 { -1i32 } else { 1i32 }, if k % 2 == 0 { -1i32 } else { 1i32 })
}

/// Given which of the four sign choices give a bend that makes progress
/// towards the destination along all three of its parts, the first such
/// choice in the order of `bend_signs`, or `None` when there is none.
pub fn first_feasible_bend(feasible: &[bool; 4]) -> (r: Option<(i32, i32)>)
    ensures
        r is None <==> forall|k: int| 0 <= k < 4 ==> !feasible@[k],
        r matches Some(signs) ==> exists|k: int|
            0 <= k < 4 && feasible@[k] && signs == bend_signs(k) && forall|i: int|
                0 <= i < k ==> !feasible@[i],
{
    let mut k: usize = 0;
    while k < 4
        invariant
            0 <= k <= 4,
            forall|i: int| 0 <= i < k ==> !feasible@[i],
        decreases 4 - k,
    {
        if feasible[k] {
            let first: i32 = if k < 2 { -1 } else { 1 };
            let second: i32 = if k % 2 == 0 { -1 } else { 1 };
            assert((first, second) == bend_signs(k as int));
            return Some((first, second));
        }
        k = k + 1;
    }
    None
}

} // verus!
