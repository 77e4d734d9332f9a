//! One occupied square of the playing field, carried by its position.

use vstd::prelude::*;

use crate::snake::point::{Point, FIELD_HEIGHT, FIELD_WIDTH};

verus! {

#[derive(Clone)]
pub struct Cell {
    pub current: Point,
}

impl Cell {
    /// A cell at a uniformly random position of the field.
    pub fn init_random() -> (r: Cell)
        ensures
            0 <= r.current.x < FIELD_WIDTH as i32,
            0 <= r.current.y < FIELD_HEIGHT as i32,
    {
        Cell { current: Point::random() }
    }

    pub fn new(current: Point) -> (r: Cell)
        ensures
            r.current == current,
    {
        Cell { current }
    }

    /// The cell moved by the given vector.
    pub fn add(&self, point: &Point) -> (r: Cell)
        requires
            i32::MIN <= self.current.x + point.x <= i32::MAX,
            i32::MIN <= self.current.y + point.y <= i32::MAX,
        ensures
            r.current.x == self.current.x + point.x,
            r.current.y == self.current.y + point.y,
    {
        Cell::new(self.current.add(*point))
    }
}

} // verus!
