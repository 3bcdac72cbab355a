//! The rule at the world's edge: an agent that leaves on one side comes back
//! on the opposite one.

use vstd::prelude::*;

verus! {

/// Where a coordinate lies relative to the world's extent along its axis.
#[derive(Clone, Copy, Debug, PartialEq, Eq, Structural)]
pub enum Side {
    /// Less than zero.
    Below,
    /// From zero to the extent, both included.
    Inside,
    /// Greater than the extent.
    Above,
}

/// The edge that a coordinate is moved to: the far edge for one below zero,
/// zero for one above the extent, none for one inside. The coordinate lands
/// on the edge itself, whatever the distance by which it left.
pub open spec fn wrapped_edge(side: Side, extent: u32) -> Option<u32> {
    match side {
        Side::Below => Some(extent),
        Side::Inside => None,
        Side::Above => Some(0u32),
    }
}

/// The side on which a whole coordinate lies.
pub open spec fn side_of(coordinate: int, extent: u32) -> Side {
    if coordinate < 0 {
        Side::Below
    } else if coordinate > extent {
        Side::Above
    } else {
        Side::Inside
    }
}

/// Says where to move a coordinate that lies on `side` of an axis of length
/// `extent`: `Some(edge)` to put it on that edge, `None` to leave it.
pub fn wrap_edge(side: Side, extent: u32) -> (edge: Option<u32>)
    ensures
        edge == wrapped_edge(side, extent),
{
    match side {
        Side::Below => Some(extent),
        Side::Inside => None,
        Side::Above => Some(0),
    }
}

/// A wrapped coordinate is inside the world, so wrapping it again leaves it
/// where it is.
pub proof fn lemma_wrap_settles(side: Side, extent: u32)
    ensures
        match wrapped_edge(side, extent) {
            Some(edge) => wrapped_edge(side_of(edge as int, extent), extent) is None,
            None => side == Side::Inside,
        },
{
}

} // verus!
