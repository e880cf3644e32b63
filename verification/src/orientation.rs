//! Compass headings and how a command turns them.

use vstd::prelude::*;
use vstd::string::StringExecFns;
use crate::direction::Direction;
use crate::text::{chars_of, trim, trimmed};

verus! {

/// The heading of a robot.
#[derive(Debug, Eq, PartialEq, Clone, Copy)]
pub enum Orientation {
    North,
    South,
    East,
    West,
}

impl Orientation {
    /// The heading after a command: `Left` is a quarter turn counter-clockwise,
    /// `Right` a quarter turn clockwise, `Forward` keeps the heading.
    pub open spec fn turn(self, direction: Direction) -> Orientation {
        match direction {
            Direction::Left => match self {
                Orientation::North => Orientation::West,
                Orientation::West => Orientation::South,
                Orientation::South => Orientation::East,
                Orientation::East => Orientation::North,
            },
            Direction::Right => match self {
                Orientation::North => Orientation::East,
                Orientation::East => Orientation::South,
                Orientation::South => Orientation::West,
                Orientation::West => Orientation::North,
            },
            Direction::Forward => self,
        }
    }

    /// The letter a heading is written as: its initial.
    pub open spec fn letter(self) -> char {
        match self {
            Orientation::North => 'N',
            Orientation::South => 'S',
            Orientation::East => 'E',
            Orientation::West => 'W',
        }
    }

    /// The heading that a text names: one of the four letters, with any
    /// white space around it.
    pub open spec fn of_text(s: Seq<char>) -> Option<Orientation> {
        let name = trimmed(s);
        if name.len() != 1 {
            None
        } else if name[0] == 'N' {
            Some(Orientation::North)
        } else if name[0] == 'S' {
            Some(Orientation::South)
        } else if name[0] == 'E' {
            Some(Orientation::East)
        } else if name[0] == 'W' {
            Some(Orientation::West)
        } else {
            None
        }
    }

    /// The heading after obeying `direction`.
    pub fn with_direction(&self, direction: Direction) -> (turned: Self)
        ensures
            turned == self.turn(direction),
    {
        match self {
            Orientation::North => match direction {
                Direction::Left => Orientation::West,
                Direction::Right => Orientation::East,
                Direction::Forward => Orientation::North,
            },
            Orientation::South => match direction {
                Direction::Left => Orientation::East,
                Direction::Right => Orientation::West,
                Direction::Forward => Orientation::South,
            },
            Orientation::East => match direction {
                Direction::Left => Orientation::North,
                Direction::Right => Orientation::South,
                Direction::Forward => Orientation::East,
            },
            Orientation::West => match direction {
                Direction::Left => Orientation::South,
                Direction::Right => Orientation::North,
                Direction::Forward => Orientation::West,
            },
        }
    }

    /// The letter of the heading, as a text.
    pub fn to_string(&self) -> (s: String)
        ensures
            s@ == seq![self.letter()],
    {
        proof {
            reveal_strlit("N");
            reveal_strlit("S");
            reveal_strlit("E");
            reveal_strlit("W");
        }
        let abbr = match self {
            Orientation::North => "N",
            Orientation::South => "S",
            Orientation::East => "E",
            Orientation::West => "W",
        };
        assert(abbr@ =~= seq![self.letter()]);
        String::from_str(abbr)
    }

    /// Reads a heading from the characters of a text.
    pub fn from_chars(s: &Vec<char>) -> (heading: Option<Orientation>)
        ensures
            heading == Self::of_text(s@),
    {
        let name = trim(s);
        if name.len() != 1 {
            None
        } else {
            match name[0] {
                'N' => Some(Orientation::North),
                'S' => Some(Orientation::South),
                'E' => Some(Orientation::East),
                'W' => Some(Orientation::West),
                _ => None,
            }
        }
    }
}

impl core::str::FromStr for Orientation {
    type Err = ();

    /// Reads a heading: `N`, `S`, `E` or `W`, with any white space around it.
    fn from_str(s: &str) -> (read: Result<Self, ()>)
        ensures
            match read {
                Ok(heading) => Orientation::of_text(s@) == Some(heading),
                Err(_) => Orientation::of_text(s@) is None,
            },
    {
        match Orientation::from_chars(&chars_of(s)) {
            Some(heading) => Ok(heading),
            None => Err(()),
        }
    }
}

} // verus!
