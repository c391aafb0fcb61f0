//! Orientations, and turning to face a target.
use vstd::prelude::*;
use crate::direction::{
    common_divisor,
    gcd,
    is_primitive,
    lemma_divisor_at_most,
    lemma_gcd_is,
    lemma_multiple,
    lemma_primitive_along,
    lemma_primitive_unique,
    primitive,
    reduce,
};
use crate::point::Point2D;

verus! {

/// A rotation in the plane, held as the direction into which it turns the
/// forward axis `(0, 1)`. The direction is a primitive lattice vector, so that
/// two orientations are equal exactly when they face the same way.
#[derive(Clone, Copy, PartialEq, Eq, Structural, Debug)]
pub struct Orientation {
    dx: i64,
    dy: i64,
}

impl View for Orientation {
    type V = (int, int);

    /// The direction that the forward axis is turned into.
    closed spec fn view(&self) -> (int, int) {
        (self.dx as int, self.dy as int)
    }
}

/// The direction that an object at `position` faces after it turned to
/// `target`, when it faced `orientation` before: the primitive vector from
/// `position` toward `target`, and the former direction if the two are the
/// same place and there is no such vector.
pub open spec fn facing(position: Point2D, orientation: (int, int), target: Point2D) -> (int, int) {
    if position == target {
        orientation
    } else {
        primitive(target.x - position.x, target.y - position.y)
    }
}

impl Orientation {
    /// Holds of every orientation.
    #[verifier::type_invariant]
    pub open spec fn well_formed(&self) -> bool {
        is_primitive(self@.0, self@.1)
    }

    /// The orientation of an object that was not turned: it faces along the
    /// forward axis.
    pub fn identity() -> (o: Orientation)
        ensures
            o@ == (0int, 1int),
    {
        proof {
            lemma_forward_axis_primitive();
        }
        Orientation { dx: 0, dy: 1 }
    }

    /// The direction faced, a primitive vector.
    pub fn forward(&self) -> (f: (i64, i64))
        ensures
            (f.0 as int, f.1 as int) == self@,
            is_primitive(f.0 as int, f.1 as int),
    {
        proof {
            use_type_invariant(self);
        }
        (self.dx, self.dy)
    }

    /// Orientations that face the same way are the same value.
    pub proof fn lemma_equal_views(self, other: Orientation)
        requires
            self@ == other@,
        ensures
            self == other,
    {
    }
}

/// The forward axis is a primitive vector.
pub proof fn lemma_forward_axis_primitive()
    ensures
        is_primitive(0, 1),
{
    lemma_multiple(0, 1);
    lemma_multiple(1, 1);
    assert forall|d: int| #[trigger] common_divisor(d, 0, 1) implies d <= 1 by {
        lemma_divisor_at_most(d, 1);
    }
}

/// Turns an object at `current_position` to face `target_position`. The
/// result depends on the two positions alone, unless they are the same: then
/// there is no direction to face, and the orientation stays as it is.
pub fn update_facing(
    current_position: &Point2D,
    current_orientation: Orientation,
    target_position: &Point2D,
) -> (turned: Orientation)
    ensures
        turned@ == facing(*current_position, current_orientation@, *target_position),
        *current_position == *target_position ==> turned == current_orientation,
        is_primitive(turned@.0, turned@.1),
{
    let dx: i64 = target_position.x as i64 - current_position.x as i64;
    let dy: i64 = target_position.y as i64 - current_position.y as i64;
    if dx == 0 && dy == 0 {
        proof {
            use_type_invariant(&current_orientation);
        }
        return current_orientation;
    }
    let f = reduce(dx, dy);
    Orientation { dx: f.0, dy: f.1 }
}

/// Turning is idempotent: an object that has turned to a target and turns to
/// it again, from the same place, faces as after the first turn.
pub proof fn lemma_facing_idempotent(position: Point2D, orientation: (int, int), target: Point2D)
    ensures
        facing(position, facing(position, orientation, target), target) == facing(
            position,
            orientation,
            target,
        ),
{
}

/// Without a direction there is no turn: where the target is the object's own
/// position, the orientation is kept.
pub proof fn lemma_facing_degenerate(position: Point2D, orientation: (int, int))
    ensures
        facing(position, orientation, position) == orientation,
{
}

/// Where there is a direction, the former orientation has no part in the
/// result.
pub proof fn lemma_facing_forgets(
    position: Point2D,
    first: (int, int),
    second: (int, int),
    target: Point2D,
)
    requires
        position != target,
    ensures
        facing(position, first, target) == facing(position, second, target),
{
}

/// After a turn the object faces its target: the way to the target is a
/// positive multiple of the direction faced, which is a primitive vector.
pub proof fn lemma_facing_points_at_target(
    position: Point2D,
    orientation: (int, int),
    target: Point2D,
)
    requires
        position != target,
    ensures
        ({
            let f = facing(position, orientation, target);
            let g = gcd(target.x - position.x, target.y - position.y);
            &&& is_primitive(f.0, f.1)
            &&& g > 0
            &&& target.x - position.x == g * f.0
            &&& target.y - position.y == g * f.1
        }),
{
    lemma_primitive_along(target.x - position.x, target.y - position.y);
}

/// Only the direction of the target counts, not its distance: two turns face
/// the same way if the ways to their targets are positive multiples of one
/// vector.
pub proof fn lemma_facing_same_direction(
    position: Point2D,
    orientation: (int, int),
    target: Point2D,
    other_position: Point2D,
    other_orientation: (int, int),
    other_target: Point2D,
    j: int,
    k: int,
)
    requires
        position != target,
        j > 0,
        k > 0,
        j * (target.x - position.x) == k * (other_target.x - other_position.x),
        j * (target.y - position.y) == k * (other_target.y - other_position.y),
    ensures
        facing(position, orientation, target) == facing(
            other_position,
            other_orientation,
            other_target,
        ),
{
    let dx = target.x - position.x;
    let dy = target.y - position.y;
    let ex = other_target.x - other_position.x;
    let ey = other_target.y - other_position.y;
    assert(ex != 0 || ey != 0) by (nonlinear_arith)
        requires
            dx != 0 || dy != 0,
            j > 0,
            k > 0,
            j * dx == k * ex,
            j * dy == k * ey,
    ;
    lemma_primitive_along(dx, dy);
    lemma_primitive_along(ex, ey);
    let f = primitive(dx, dy);
    let e = primitive(ex, ey);
    let g = gcd(dx, dy);
    let h = gcd(ex, ey);
    assert(j * g > 0 && k * h > 0 && (j * g) * f.0 == (k * h) * e.0 && (j * g) * f.1 == (k * h)
        * e.1) by (nonlinear_arith)
        requires
            j > 0,
            k > 0,
            g > 0,
            h > 0,
            dx == g * f.0,
            dy == g * f.1,
            ex == h * e.0,
            ey == h * e.1,
            j * dx == k * ex,
            j * dy == k * ey,
    ;
    lemma_primitive_unique(f.0, f.1, e.0, e.1, j * g, k * h);
}

/// An object that turns to a target straight ahead of the forward axis, at
/// whatever distance, faces along that axis, however it faced before.
pub proof fn lemma_facing_forward_axis(position: Point2D, orientation: (int, int), target: Point2D)
    requires
        target.x == position.x,
        target.y > position.y,
    ensures
        facing(position, orientation, target) == (0int, 1int),
{
    let d = target.y - position.y;
    lemma_multiple(0, d);
    lemma_multiple(1, d);
    assert(1 * d == d);
    assert(0 * d == 0);
    assert forall|e: int| #[trigger] common_divisor(e, 0, d) implies e <= d by {
        lemma_divisor_at_most(e, d);
    }
    lemma_gcd_is(d, 0, d);
}

} // verus!
