//! One update of an object that follows the circumference.
use vstd::prelude::*;
use crate::circle::CircumferencePointSet;
use crate::facing::{facing, update_facing, Orientation};
use crate::nearest::{find_nearest, nearest_point};
use crate::point::Point2D;

verus! {

/// An object with a place and a direction that it faces.
#[derive(Clone, Copy, PartialEq, Eq, Structural, Debug)]
pub struct OrientedObject {
    pub position: Point2D,
    pub orientation: Orientation,
}

/// Updates the interface, the object that is kept facing its target: finds the
/// sample nearest to it, then turns it toward `target`. The nearest sample is
/// handed to the caller and is `None` while the set is empty; the object turns
/// toward `target`, which need not be that sample, and stays where it is.
pub fn update_interface(
    interface: &mut OrientedObject,
    samples: &CircumferencePointSet,
    target: &Point2D,
) -> (nearest: Option<Point2D>)
    ensures
        nearest == nearest_point(samples@, old(interface).position),
        nearest is None <==> samples@.len() == 0,
        final(interface).position == old(interface).position,
        final(interface).orientation@ == facing(
            old(interface).position,
            old(interface).orientation@,
            *target,
        ),
        old(interface).position == *target ==> *final(interface) == *old(interface),
{
    let nearest = find_nearest(samples.points(), &interface.position);
    interface.orientation = update_facing(&interface.position, interface.orientation, target);
    nearest
}

} // verus!
