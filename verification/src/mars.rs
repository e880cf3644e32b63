//! The surface: a grid, the scents left on it, and the robots that walked it.

use std::collections::HashSet;
use vstd::prelude::*;
use vstd::set_lib::lemma_map_size;
use crate::direction::Direction;
use crate::grid::Grid;
use crate::laws::{
    lemma_lost_robot_stays, lemma_robot_off_the_grid_stays, lemma_walk_ends_at_loss,
    lemma_walk_in_two, lemma_within_reach_all_along,
};
use crate::pos::{Point, Pos};
use crate::turtle::{Robot, Turtle};

verus! {

/// The surface as a mathematical value: the view of a [`Mars`]. The grid
/// reaches from the origin to `upper`, both included.
pub struct Surface {
    pub upper: Point,
    pub scents: Set<Point>,
    pub robots: Seq<Robot>,
}

impl Surface {
    /// `p` is on the grid.
    pub open spec fn in_bounds(self, p: Point) -> bool {
        &&& 0 <= p.x <= self.upper.x
        &&& 0 <= p.y <= self.upper.y
    }

    /// The surface with one more scent, at `p`.
    pub open spec fn add_scent(self, p: Point) -> Surface {
        Surface { scents: self.scents.insert(p), ..self }
    }

    /// What one command does to a robot and to the surface.
    ///
    /// A robot that is lost or off the grid ignores the command. A turn
    /// changes the heading. A step ahead moves the robot where the point
    /// ahead is on the grid, and is ignored where that point is off the grid
    /// and carries a scent. Otherwise the robot steps off the grid: it stands
    /// on the point ahead, is lost, and that point gets a scent.
    pub open spec fn step(self, robot: Robot, direction: Direction) -> (Surface, Robot) {
        if robot.lost || !self.in_bounds(robot.pos) {
            (self, robot)
        } else {
            match direction {
                Direction::Forward => {
                    let ahead = robot.ahead();
                    if self.in_bounds(ahead) {
                        (self, Robot { pos: ahead, ..robot })
                    } else if self.scents.contains(ahead) {
                        (self, robot)
                    } else {
                        (self.add_scent(ahead), Robot { pos: ahead, lost: true, ..robot })
                    }
                },
                _ => (self, Robot { orientation: robot.orientation.turn(direction), ..robot }),
            }
        }
    }

    /// The robot can obey the command and stand on a point that a position
    /// can hold.
    pub open spec fn can_step(self, robot: Robot, direction: Direction) -> bool {
        self.step(robot, direction).1.pos.fits()
    }

    /// The robot can walk `directions` and end on a point that a position
    /// can hold.
    pub open spec fn can_walk(self, robot: Robot, directions: Seq<Direction>) -> bool {
        self.walk(robot, directions).1.pos.fits()
    }

    /// What a sequence of commands does, one [`step`](Self::step) after the
    /// other.
    pub open spec fn walk(self, robot: Robot, directions: Seq<Direction>) -> (Surface, Robot)
        decreases directions.len(),
    {
        if directions.len() == 0 {
            (self, robot)
        } else {
            let (surface, walker) = self.walk(robot, directions.drop_last());
            surface.step(walker, directions.last())
        }
    }

    /// The surface after a robot was sent over it: one that starts off the
    /// grid leaves no trace; any other walks and is recorded as it ended.
    pub open spec fn run_robot(self, robot: Robot, directions: Seq<Direction>) -> Surface {
        if !self.in_bounds(robot.pos) {
            self
        } else {
            let (surface, walker) = self.walk(robot, directions);
            Surface { robots: surface.robots.push(walker), ..surface }
        }
    }
}

/// The views of a sequence of robots.
pub open spec fn robots_of(turtles: Seq<Turtle>) -> Seq<Robot> {
    turtles.map_values(|t: Turtle| t@)
}

/// The number under which the scent at `p` is kept: one for each point that
/// fits.
spec fn key(p: Point) -> int {
    p.x * 0x1_0000_0000 + (p.y + 0x8000_0000)
}

/// The point whose scent is kept under `k`.
spec fn point_of(k: i64) -> Point {
    Point { x: k as int / 0x1_0000_0000, y: k as int % 0x1_0000_0000 - 0x8000_0000 }
}

/// The points whose scents are kept under `keys`.
spec fn points_of(keys: Set<i64>) -> Set<Point> {
    Set::new(|p: Point| p.fits() && keys.contains(key(p) as i64))
}

/// Points that fit and keys are paired off one to one.
proof fn lemma_keys()
    ensures
        forall|p: Point|
            p.fits() ==> i64::MIN <= #[trigger] key(p) <= i64::MAX && point_of(key(p) as i64) == p,
        forall|k: i64| (#[trigger] point_of(k)).fits() && key(point_of(k)) == k,
{
}

/// Finitely many keys hold as many points.
proof fn lemma_points_of(keys: Set<i64>)
    requires
        keys.finite(),
    ensures
        points_of(keys).finite(),
        points_of(keys).len() == keys.len(),
{
    lemma_keys();
    let f = |k: i64| point_of(k);
    assert(keys.map(f) =~= points_of(keys)) by {
        assert forall|p: Point| points_of(keys).contains(p) implies keys.map(f).contains(p) by {
            assert(keys.contains(key(p) as i64) && f(key(p) as i64) == p);
        }
    }
    assert(vstd::relations::injective_on(f, keys)) by {
        assert forall|a: i64, b: i64| #[trigger] f(a) == #[trigger] f(b) implies a == b by {
            assert(key(point_of(a)) == a);
            assert(key(point_of(b)) == b);
        }
    }
    lemma_map_size(keys, points_of(keys), f);
}

/// The key of `pos`.
fn scent_key(pos: Pos) -> (k: i64)
    ensures
        k == key(pos@),
{
    (pos.x as i64) * 0x1_0000_0000 + ((pos.y as i64) + 0x8000_0000)
}

/// A grid from the origin to an upper-right corner, with the scents of the
/// robots that fell off it and the robots that finished their walk, in the
/// order in which they were sent.
#[derive(Debug)]
pub struct Mars {
    grid: Grid,
    turtles: Vec<Turtle>,
    scents: HashSet<i64>,
}

impl View for Mars {
    type V = Surface;

    closed spec fn view(&self) -> Surface {
        Surface {
            upper: self.grid.upper_right@,
            scents: points_of(self.scents@),
            robots: robots_of(self.turtles@),
        }
    }
}

impl Mars {
    /// The grid starts at the origin, and the scents are finitely many.
    pub closed spec fn wf(&self) -> bool {
        &&& self.grid.lower_left@ == Point { x: 0, y: 0 }
        &&& self.scents@.finite()
    }

    /// What [`wf`](Self::wf) says of the view.
    pub proof fn lemma_wf(&self)
        requires
            self.wf(),
        ensures
            self@.upper.fits(),
            self@.scents.finite(),
            forall|p: Point| self@.scents.contains(p) ==> p.fits(),
    {
        lemma_points_of(self.scents@);
    }

    /// An empty surface whose grid reaches from the origin to `pos`.
    pub fn new(pos: Pos) -> (mars: Self)
        ensures
            mars.wf(),
            mars@ == (Surface { upper: pos@, scents: Set::empty(), robots: Seq::empty() }),
    {
        let mars = Self {
            grid: Grid { lower_left: Pos::new(0, 0), upper_right: pos },
            turtles: vec![],
            scents: HashSet::new(),
        };
        proof {
            assert(mars@.scents =~= Set::<Point>::empty());
            assert(mars@.robots =~= Seq::<Robot>::empty());
        }
        mars
    }

    /// Sends `turtle` over the surface.
    ///
    /// A robot that starts off the grid is dropped: nothing changes. Any
    /// other obeys `direction` in order, until the commands end or it is
    /// lost, and is then added to the robots of this surface as it ended.
    ///
    /// The walk must end on a point that a position can hold, which
    /// [`can_walk`](Self::can_walk) tells: only a step off a grid that
    /// reaches the largest coordinate does not.
    pub fn move_turtle(&mut self, turtle: Turtle, direction: &[Direction])
        requires
            old(self).wf(),
            old(self)@.can_walk(turtle@, direction@),
        ensures
            final(self).wf(),
            final(self)@ == old(self)@.run_robot(turtle@, direction@),
            !old(self)@.in_bounds(turtle@.pos) ==> final(self)@ == old(self)@,
    {
        if !self.in_bounds(turtle.pos) {
            return ;
        }
        let ghost start = self@;
        let mut walker = turtle;
        let mut i: usize = 0;
        proof {
            assert(direction@.take(direction@.len() as int) =~= direction@);
            self.lemma_wf();
        }
        while i < direction.len()
            invariant_except_break
                i <= direction.len(),
                direction@.take(direction@.len() as int) == direction@,
                (self@, walker@) == start.walk(turtle@, direction@.take(i as int)),
            invariant
                self.wf(),
                start.upper.fits(),
                start.can_walk(turtle@, direction@),
            ensures
                (self@, walker@) == start.walk(turtle@, direction@),
            decreases direction.len() - i,
        {
            proof {
                assert(direction@.take(i + 1).drop_last() =~= direction@.take(i as int));
                lemma_within_reach_all_along(start, turtle@, direction@, i + 1);
            }
            walker.make_move(self, direction[i]);
            i += 1;
            if walker.lost {
                proof {
                    assert(direction@ =~= direction@.take(i as int) + direction@.skip(i as int));
                    lemma_walk_in_two(
                        start,
                        turtle@,
                        direction@.take(i as int),
                        direction@.skip(i as int),
                    );
                    lemma_lost_robot_stays(self@, walker@, direction@.skip(i as int));
                }
                break ;
            }
        }
        self.turtles.push(walker);
        proof {
            assert(self@.robots =~= start.walk(turtle@, direction@).0.robots.push(walker@));
        }
    }

    /// Whether `turtle` can walk `direction` on this surface and end on a
    /// point that a position can hold. Nothing changes.
    pub fn can_walk(&self, turtle: Turtle, direction: &[Direction]) -> (can: bool)
        requires
            self.wf(),
        ensures
            can == self@.can_walk(turtle@, direction@),
    {
        if turtle.lost || !self.in_bounds(turtle.pos) {
            proof {
                if turtle.lost {
                    lemma_lost_robot_stays(self@, turtle@, direction@);
                } else {
                    lemma_robot_off_the_grid_stays(self@, turtle@, direction@);
                }
            }
            return true;
        }
        let mut walker = turtle;
        let mut i: usize = 0;
        proof {
            assert(direction@.take(direction@.len() as int) =~= direction@);
            self.lemma_wf();
        }
        while i < direction.len()
            invariant
                self.wf(),
                i <= direction.len(),
                direction@.take(direction@.len() as int) == direction@,
                !walker.lost,
                self@.in_bounds(walker@.pos),
                self@.upper.fits(),
                forall|p: Point| self@.scents.contains(p) ==> p.fits(),
                (self@, walker@) == self@.walk(turtle@, direction@.take(i as int)),
            decreases direction.len() - i,
        {
            let ghost first = direction@.take(i + 1);
            let ghost rest = direction@.skip(i + 1);
            proof {
                assert(first.drop_last() =~= direction@.take(i as int));
                assert(direction@ =~= first + rest);
            }
            match direction[i] {
                Direction::Forward => {
                    if !walker.can_advance() {
                        proof {
                            lemma_walk_ends_at_loss(self@, turtle@, first, rest);
                        }
                        return false;
                    }
                    let new_pos = walker.advanced_pos();
                    if self.in_bounds(new_pos) {
                        walker.pos = new_pos;
                    } else if !self.scent_seen(new_pos) {
                        proof {
                            lemma_walk_ends_at_loss(self@, turtle@, first, rest);
                        }
                        return true;
                    }
                },
                side => {
                    walker.orientation = walker.orientation.with_direction(side);
                },
            }
            i += 1;
        }
        true
    }

    /// The lines of the report: one for each robot that walked this
    /// surface, in the order in which they were sent.
    pub fn report(&self) -> (lines: Vec<String>)
        ensures
            lines@.len() == self@.robots.len(),
            forall|i: int|
                0 <= i < lines@.len() ==> (#[trigger] lines@[i])@ == self@.robots[i].report_line(),
    {
        let mut lines: Vec<String> = Vec::new();
        let mut i: usize = 0;
        while i < self.turtles.len()
            invariant
                i <= self.turtles.len(),
                lines@.len() == i,
                forall|j: int|
                    0 <= j < i ==> (#[trigger] lines@[j])@ == self.turtles@[j]@.report_line(),
            decreases self.turtles.len() - i,
        {
            lines.push(self.turtles[i].report_line());
            i += 1;
        }
        lines
    }

    /// The robots that walked this surface, in the order in which they were
    /// sent, each as it ended.
    pub fn turtles(&self) -> (turtles: &Vec<Turtle>)
        ensures
            robots_of(turtles@) == self@.robots,
    {
        &self.turtles
    }

    /// The number of points beyond the grid that carry a scent.
    pub fn scent_count(&self) -> (count: usize)
        requires
            self.wf(),
        ensures
            count == self@.scents.len(),
    {
        proof {
            lemma_points_of(self.scents@);
        }
        self.scents.len()
    }

    /// Whether `pos` is on the grid.
    pub fn in_bounds(&self, pos: Pos) -> (inside: bool)
        requires
            self.wf(),
        ensures
            inside == self@.in_bounds(pos@),
    {
        self.grid.in_bounds(pos)
    }

    /// Records that a robot fell off the grid towards `pos`.
    pub fn add_scent(&mut self, pos: Pos)
        requires
            old(self).wf(),
        ensures
            final(self).wf(),
            final(self)@ == old(self)@.add_scent(pos@),
    {
        let k = scent_key(pos);
        self.scents.insert(k);
        proof {
            lemma_keys();
            assert(self@.scents =~= old(self)@.scents.insert(pos@));
        }
    }

    /// Whether a robot fell off the grid towards `pos` before.
    pub fn scent_seen(&self, pos: Pos) -> (seen: bool)
        requires
            self.wf(),
        ensures
            seen == self@.scents.contains(pos@),
    {
        let k = scent_key(pos);
        self.scents.contains(&k)
    }
}

} // verus!
