//! Positions in grid units.
use vstd::prelude::*;

verus! {

/// A position: `x` grows to the right, `y` downwards.
#[derive(Clone, Copy)]
pub struct Coord {
    x: i32,
    y: i32,
}

impl View for Coord {
    type V = (i32, i32);

    closed spec fn view(&self) -> (i32, i32) {
        (self.x, self.y)
    }
}

impl Coord {
    pub fn new(x: i32, y: i32) -> (r: Coord)
        ensures
            r@ == (x, y),
    {
        Coord { x: x, y: y }
    }

    pub fn from(p: (i32, i32)) -> (r: Coord)
        ensures
            r@ == p,
    {
        Coord { x: p.0, y: p.1 }
    }

    pub fn get_coords(&self) -> (r: (i32, i32))
        ensures
            r == self@,
    {
        (self.x, self.y)
    }
}

/// A live cell, known by its position.
pub struct Cell {
    coord: Coord,
}

impl View for Cell {
    type V = (i32, i32);

    closed spec fn view(&self) -> (i32, i32) {
        self.coord@
    }
}

impl Cell {
    pub fn new(x: i32, y: i32) -> (r: Cell)
        ensures
            r@ == (x, y),
    {
        Cell { coord: Coord::new(x, y) }
    }

    pub fn get_coords(&self) -> (r: (i32, i32))
        ensures
            r == self@,
    {
        self.coord.get_coords()
    }
}

} // verus!
