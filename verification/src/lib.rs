//! Geometry for an object that follows the circumference of a circle: the
//! sample points of the circle, the sample nearest to a position, and the
//! orientation of an object that turns to face a target.
//!
//! Everything is computed on an integer lattice, exactly. Positions are lattice
//! points, a direction is the shortest lattice vector along it, and cosines and
//! sines come in fixed point from a table that the caller supplies.
pub mod point;
pub mod nearest;
pub mod trig;
pub mod circle;
pub mod direction;
pub mod facing;
pub mod tracker;
pub mod cursor_helper;
