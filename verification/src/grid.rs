//! The rectangle that robots walk on.

use vstd::prelude::*;
use crate::pos::{Point, Pos};

verus! {

/// A rectangle of the integer plane, both corners included: the mathematical
/// value of a [`Grid`].
pub struct Bounds {
    pub lower: Point,
    pub upper: Point,
}

impl Bounds {
    /// `p` lies in the rectangle, its edges included.
    pub open spec fn contains(self, p: Point) -> bool {
        &&& self.lower.x <= p.x <= self.upper.x
        &&& self.lower.y <= p.y <= self.upper.y
    }
}

/// A rectangular grid, given by its lower-left and upper-right corners.
#[derive(Debug)]
pub struct Grid {
    pub lower_left: Pos,
    pub upper_right: Pos,
}

impl View for Grid {
    type V = Bounds;

    open spec fn view(&self) -> Bounds {
        Bounds { lower: self.lower_left@, upper: self.upper_right@ }
    }
}

impl Grid {
    /// Whether `pos` is on the grid. The corners and edges are on it.
    pub fn in_bounds(&self, pos: Pos) -> (inside: bool)
        ensures
            inside == self@.contains(pos@),
    {
        let lower = self.lower_left;
        let upper = self.upper_right;

        (pos.x >= lower.x && pos.y >= lower.y) && (pos.x <= upper.x && pos.y <= upper.y)
    }
}

} // verus!
