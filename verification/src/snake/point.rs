//! A point of the playing field's 2D space.

use vstd::prelude::*;

use crate::rng::rand_below;

verus! {

pub const FIELD_WIDTH: u8 = 32;

pub const FIELD_HEIGHT: u8 = 32;

/// A point in a 2D space; the y axis grows downward.
#[derive(Clone, Copy, PartialEq, Eq, Structural, PartialOrd, Ord, Debug, Hash)]
pub struct Point {
    pub x: i32,
    pub y: i32,
}

impl Point {
    /// A point with both coordinates drawn uniformly at random from the
    /// field.
    pub fn random() -> (r: Point)
        ensures
            0 <= r.x < FIELD_WIDTH as i32,
            0 <= r.y < FIELD_HEIGHT as i32,
    {
        Point {
            x: rand_below(FIELD_WIDTH as u32) as i32,
            y: rand_below(FIELD_HEIGHT as u32) as i32,
        }
    }

    /// Coordinate-wise addition.
    pub fn add(self, other: Point) -> (r: Point)
        requires
            i32::MIN <= self.x + other.x <= i32::MAX,
            i32::MIN <= self.y + other.y <= i32::MAX,
        ensures
            r.x == self.x + other.x,
            r.y == self.y + other.y,
    {
        Point { x: self.x + other.x, y: self.y + other.y }
    }
}

/// The default point is a random one: where a fresh position is needed and
/// none is known, a uniformly random field square is the sensible start.
impl Default for Point {
    fn default() -> (r: Self)
        ensures
            0 <= r.x < FIELD_WIDTH as i32,
            0 <= r.y < FIELD_HEIGHT as i32,
    {
        Point::random()
    }
}

} // verus!
