//! The four movement directions of the playing field.

use vstd::prelude::*;

use crate::snake::point::Point;

verus! {

#[derive(PartialEq, Eq, Structural, Hash, Clone, Copy, Debug)]
pub enum Direction {
    Up,
    Down,
    Left,
    Right,
}

impl Direction {
    /// The unit movement vector of the direction; the y axis grows
    /// downward, so moving up lowers y.
    pub open spec fn spec_movement_vector(self) -> Point {
        match self {
            Direction::Up => Point { x: 0i32, y: -1i32 },
            Direction::Down => Point { x: 0i32, y: 1i32 },
            Direction::Left => Point { x: -1i32, y: 0i32 },
            Direction::Right => Point { x: 1i32, y: 0i32 },
        }
    }

    pub fn movement_vector(&self) -> (r: Point)
        ensures
            r == self.spec_movement_vector(),
    {
        match self {
            Direction::Up => Point { x: 0, y: -1 },
            Direction::Down => Point { x: 0, y: 1 },
            Direction::Left => Point { x: -1, y: 0 },
            Direction::Right => Point { x: 1, y: 0 },
        }
    }
}

impl Default for Direction {
    fn default() -> (r: Self)
        ensures
            r == Direction::Up,
    {
        Direction::Up
    }
}

} // verus!
