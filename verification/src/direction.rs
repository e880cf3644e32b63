//! The commands a robot obeys.

use vstd::prelude::*;
use vstd::string::StringExecFns;
use crate::error::AppError;

verus! {

/// One command: a quarter turn to either side, or one step ahead.
#[derive(Debug, Copy, Clone, Eq, PartialEq)]
pub enum Direction {
    Left,
    Right,
    Forward,
}

impl Direction {
    /// The command a character stands for, if any: `L`, `R` and `F` do.
    pub open spec fn of_char(c: char) -> Option<Direction> {
        if c == 'L' {
            Some(Direction::Left)
        } else if c == 'R' {
            Some(Direction::Right)
        } else if c == 'F' {
            Some(Direction::Forward)
        } else {
            None
        }
    }

    /// The commands that a text holds, in order; every other character is
    /// passed over.
    pub open spec fn of_text(s: Seq<char>) -> Seq<Direction> {
        s.filter(|c: char| Self::of_char(c) is Some).map_values(|c: char| Self::of_char(c)->0)
    }

    /// The message of the error for a missing line of commands.
    pub open spec fn missing_line() -> Seq<char> {
        "error reading direction"@
    }

    /// Reads one command character.
    pub fn from_char(c: char) -> (d: Option<Direction>)
        ensures
            d == Self::of_char(c),
    {
        match c {
            'L' => Some(Direction::Left),
            'R' => Some(Direction::Right),
            'F' => Some(Direction::Forward),
            _ => None,
        }
    }

    /// Reads the commands of a text. Characters that stand for no command
    /// are passed over.
    pub fn from_string(s: &str) -> (directions: Vec<Direction>)
        ensures
            directions@ == Self::of_text(s@),
    {
        let mut directions: Vec<Direction> = Vec::new();
        let ghost known = |c: char| Self::of_char(c) is Some;
        let ghost command = |c: char| Self::of_char(c)->0;
        proof {
            reveal(Seq::filter);
            assert(directions@ =~= s@.take(0).filter(known).map_values(command));
        }
        for c in it: s.chars()
            invariant
                it.seq() == s@,
                known == |c: char| Self::of_char(c) is Some,
                command == |c: char| Self::of_char(c)->0,
                directions@ == it.seq().take(it.index()).filter(known).map_values(command),
        {
            let ghost seen = it.seq().take(it.index());
            let ghost more = it.seq().take(it.index() + 1);
            proof {
                reveal(Seq::filter);
                assert(more.drop_last() =~= seen);
                assert(more.last() == c);
            }
            match Direction::from_char(c) {
                Some(direction) => {
                    directions.push(direction);
                    proof {
                        assert(more.filter(known) == seen.filter(known).push(c));
                        assert(directions@ =~= more.filter(known).map_values(command));
                    }
                },
                None => {
                    proof {
                        assert(more.filter(known) == seen.filter(known));
                    }
                },
            }
        }
        proof {
            assert(s@.take(s@.len() as int) =~= s@);
        }
        directions
    }

    /// Reads the commands of one line of input. An empty line is the end of
    /// the input, and an error; any other line gives its commands, which may
    /// be none.
    pub fn from_line(line: &str) -> (read: Result<Vec<Direction>, AppError>)
        ensures
            read is Ok <==> line@.len() > 0,
            read matches Ok(directions) ==> directions@ == Self::of_text(line@),
            read matches Err(error) ==> error matches AppError::InvalidDirection(message)
                && message@ == Self::missing_line(),
    {
        if line.is_empty() {
            Err(AppError::InvalidDirection(String::from_str("error reading direction")))
        } else {
            Ok(Direction::from_string(line))
        }
    }
}

} // verus!
