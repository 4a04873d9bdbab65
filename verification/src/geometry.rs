//! Positions and extents, measured in text cells.

use vstd::prelude::*;

verus! {

/// A position, or the offset between two positions.
#[derive(Clone, Copy, Debug, PartialEq, Eq, Structural)]
pub struct Point {
    pub x: isize,
    pub y: isize,
}

/// The room handed to an element to draw in.
#[derive(Clone, Copy, Debug, PartialEq, Eq, Structural)]
pub struct Size {
    pub x: isize,
    pub y: isize,
}

impl Point {
    /// Whether the offset that undoes this one can be represented.
    pub open spec fn invertible(self) -> bool {
        self.x > isize::MIN && self.y > isize::MIN
    }

    /// The offset that undoes this one.
    pub open spec fn opposite(self) -> Point {
        Point { x: (-self.x) as isize, y: (-self.y) as isize }
    }

    /// Returns the offset that undoes this one.
    pub fn negated(self) -> (r: Point)
        requires
            self.invertible(),
        ensures
            r == self.opposite(),
            r.x == -self.x,
            r.y == -self.y,
    {
        Point { x: -self.x, y: -self.y }
    }
}

impl Size {
    /// Whether both extents can be negated without leaving the machine range.
    pub open spec fn invertible(self) -> bool {
        self.x > isize::MIN && self.y > isize::MIN
    }
}

} // verus!
