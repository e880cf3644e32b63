//! One robot and the step it takes for one command.

use vstd::prelude::*;
use vstd::string::StringExecFns;
use crate::direction::Direction;
use crate::mars::Mars;
use crate::orientation::Orientation;
use crate::pos::{Point, Pos};
use crate::text::{chars_of, decimal, fields, number, parse_i32, push_decimal, split, trim, trimmed};

verus! {

/// A robot as a mathematical value: the view of a [`Turtle`].
pub struct Robot {
    pub pos: Point,
    pub orientation: Orientation,
    pub lost: bool,
}

impl Robot {
    /// The point one unit ahead of the robot, along its heading: north is
    /// up the y axis, east is up the x axis.
    pub open spec fn ahead(self) -> Point {
        match self.orientation {
            Orientation::North => Point { x: self.pos.x, y: self.pos.y + 1 },
            Orientation::South => Point { x: self.pos.x, y: self.pos.y - 1 },
            Orientation::East => Point { x: self.pos.x + 1, y: self.pos.y },
            Orientation::West => Point { x: self.pos.x - 1, y: self.pos.y },
        }
    }

    /// The robot in writing: `x y O`, the coordinates in decimal and the
    /// heading by its letter, one blank between them.
    pub open spec fn text(self) -> Seq<char> {
        decimal(self.pos.x) + seq![' '] + decimal(self.pos.y) + seq![' ', self.orientation.letter()]
    }

    /// The line that reports the robot: its text, and ` LOST` after it where
    /// the robot is lost.
    pub open spec fn report_line(self) -> Seq<char> {
        if self.lost {
            self.text() + seq![' ', 'L', 'O', 'S', 'T']
        } else {
            self.text()
        }
    }

    /// The robot that a text names: `x y O` with exactly one blank between
    /// the three parts, and any white space around the text. It is not lost.
    pub open spec fn of_text(s: Seq<char>) -> Option<Robot> {
        let parts = fields(trimmed(s), ' ');
        if parts.len() == 3 && number(parts[0]) is Some && number(parts[1]) is Some
            && Orientation::of_text(parts[2]) is Some {
            Some(
                Robot {
                    pos: Point { x: number(parts[0])->0, y: number(parts[1])->0 },
                    orientation: Orientation::of_text(parts[2])->0,
                    lost: false,
                },
            )
        } else {
            None
        }
    }
}

/// A robot: where it stands, where it looks, and whether it fell off the
/// grid. A lost robot obeys no further command.
#[derive(Debug, Eq, PartialEq, Clone, Copy)]
pub struct Turtle {
    pub pos: Pos,
    pub orientation: Orientation,
    pub lost: bool,
}

impl View for Turtle {
    type V = Robot;

    open spec fn view(&self) -> Robot {
        Robot { pos: self.pos@, orientation: self.orientation, lost: self.lost }
    }
}

impl Turtle {
    /// A robot at `pos` that looks towards `orientation` and is not lost.
    pub fn new(pos: Pos, orientation: Orientation) -> (turtle: Self)
        ensures
            turtle == (Turtle { pos, orientation, lost: false }),
    {
        Self { pos, orientation, lost: false }
    }

    /// Whether a [`Pos`] can hold the position one unit ahead of the robot.
    pub fn can_advance(&self) -> (can: bool)
        ensures
            can == self@.ahead().fits(),
    {
        match self.orientation {
            Orientation::North => self.pos.y < i32::MAX,
            Orientation::South => self.pos.y > i32::MIN,
            Orientation::East => self.pos.x < i32::MAX,
            Orientation::West => self.pos.x > i32::MIN,
        }
    }

    /// The position one unit ahead of the robot. It must be one that a
    /// [`Pos`] can hold, which [`can_advance`](Self::can_advance) tells.
    pub fn advanced_pos(&self) -> (pos: Pos)
        requires
            self@.ahead().fits(),
        ensures
            pos@ == self@.ahead(),
    {
        match self.orientation {
            Orientation::North => Pos::new(self.pos.x, self.pos.y + 1),
            Orientation::South => Pos::new(self.pos.x, self.pos.y - 1),
            Orientation::East => Pos::new(self.pos.x + 1, self.pos.y),
            Orientation::West => Pos::new(self.pos.x - 1, self.pos.y),
        }
    }

    /// The robot in writing: `x y O`.
    pub fn to_string(&self) -> (s: String)
        ensures
            s@ == self@.text(),
    {
        let mut s = String::new();
        proof {
            reveal_strlit(" ");
        }
        push_decimal(&mut s, self.pos.x);
        s.append(" ");
        push_decimal(&mut s, self.pos.y);
        s.append(" ");
        let letter = self.orientation.to_string();
        s.append(letter.as_str());
        proof {
            assert(s@ =~= self@.text());
        }
        s
    }

    /// The line that reports the robot: `x y O`, or `x y O LOST`.
    pub fn report_line(&self) -> (line: String)
        ensures
            line@ == self@.report_line(),
    {
        let mut line = self.to_string();
        if self.lost {
            proof {
                reveal_strlit(" LOST");
            }
            line.append(" LOST");
            proof {
                assert(line@ =~= self@.report_line());
            }
        }
        line
    }

    /// Obeys one command on `mars`.
    ///
    /// A robot that is lost, or that does not stand on the grid, does
    /// nothing. A turn changes the heading only. A step ahead that stays on
    /// the grid moves the robot. One that would leave the grid is ignored
    /// where an earlier robot left a scent at the point beyond the edge;
    /// otherwise the robot steps onto that point, is lost, and leaves its
    /// scent there.
    ///
    /// The robot must end on a point that a position can hold: only a step
    /// off a grid that reaches the largest coordinate does not.
    pub fn make_move(&mut self, mars: &mut Mars, direction: Direction)
        requires
            old(mars).wf(),
            old(mars)@.can_step(old(self)@, direction),
        ensures
            final(mars).wf(),
            (final(mars)@, final(self)@) == old(mars)@.step(old(self)@, direction),
    {
        if !self.lost && mars.in_bounds(self.pos) {
            match direction {
                Direction::Left => self.orientation = self.orientation.with_direction(direction),
                Direction::Right => self.orientation = self.orientation.with_direction(direction),
                Direction::Forward => {
                    proof {
                        old(mars).lemma_wf();
                    }
                    let new_pos = self.advanced_pos();
                    if mars.in_bounds(new_pos) {
                        self.pos = new_pos;
                    } else if !mars.scent_seen(new_pos) {
                        self.pos = new_pos;
                        self.lost = true;
                        mars.add_scent(new_pos);
                    }
                },
            }
        }
    }
}

impl core::str::FromStr for Turtle {
    type Err = ();

    /// Reads a robot: `x y O`.
    fn from_str(s: &str) -> (read: Result<Self, ()>)
        ensures
            match read {
                Ok(turtle) => Robot::of_text(s@) == Some(turtle@),
                Err(_) => Robot::of_text(s@) is None,
            },
    {
        let line = trim(&chars_of(s));
        let parts = split(&line, ' ');
        if parts.len() == 3 {
            let x = match parse_i32(&parts[0]) {
                Some(x) => x,
                None => { return Err(()); },
            };
            let y = match parse_i32(&parts[1]) {
                Some(y) => y,
                None => { return Err(()); },
            };
            let o = match Orientation::from_chars(&parts[2]) {
                Some(o) => o,
                None => { return Err(()); },
            };
            Ok(Turtle::new(Pos::new(x, y), o))
        } else {
            Err(())
        }
    }
}

} // verus!
