//! Grid coordinates.

use vstd::prelude::*;
use crate::text::{chars_of, fields, number, parse_i32, split, trim, trimmed};

verus! {

/// A point of the integer plane: the mathematical value of a [`Pos`].
pub struct Point {
    pub x: int,
    pub y: int,
}

impl Point {
    /// Both coordinates can be held by a [`Pos`].
    pub open spec fn fits(self) -> bool {
        &&& i32::MIN <= self.x <= i32::MAX
        &&& i32::MIN <= self.y <= i32::MAX
    }
}

/// A position on, or just off, the grid.
#[derive(Debug, PartialEq, Eq, Hash, Clone, Copy)]
pub struct Pos {
    pub x: i32,
    pub y: i32,
}

impl View for Pos {
    type V = Point;

    open spec fn view(&self) -> Point {
        Point { x: self.x as int, y: self.y as int }
    }
}

impl Pos {
    /// The point that a text names: two whole numbers in decimal with one
    /// blank between them, with any white space around the text. What follows
    /// a second blank is not read.
    pub open spec fn of_text(s: Seq<char>) -> Option<Point> {
        let parts = fields(trimmed(s), ' ');
        if parts.len() >= 2 && number(parts[0]) is Some && number(parts[1]) is Some {
            Some(Point { x: number(parts[0])->0, y: number(parts[1])->0 })
        } else {
            None
        }
    }

    /// The position with the given coordinates.
    pub fn new(x: i32, y: i32) -> (pos: Self)
        ensures
            pos == (Pos { x, y }),
    {
        Self { x, y }
    }
}

impl core::str::FromStr for Pos {
    type Err = ();

    /// Reads a position: `x y`.
    fn from_str(s: &str) -> (read: Result<Self, ()>)
        ensures
            match read {
                Ok(pos) => Pos::of_text(s@) == Some(pos@),
                Err(_) => Pos::of_text(s@) is None,
            },
    {
        let line = trim(&chars_of(s));
        let coords = split(&line, ' ');
        if coords.len() < 2 {
            return Err(());
        }
        match parse_i32(&coords[0]) {
            Some(x) => match parse_i32(&coords[1]) {
                Some(y) => Ok(Pos::new(x, y)),
                None => Err(()),
            },
            None => Err(()),
        }
    }
}

} // verus!
