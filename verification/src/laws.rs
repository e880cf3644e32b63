//! What holds of every walk, and of every robot put in writing.

use vstd::prelude::*;
use crate::direction::Direction;
use crate::mars::Surface;
use crate::orientation::Orientation;
use crate::pos::Point;
use crate::text::{
    all_digits, decimal, digit_char, digits, digits_value, fields, has_sign, is_digit, is_space,
    number, trimmed,
};
use crate::turtle::Robot;

verus! {

/// Walking a sequence of commands is walking its first part and then, from
/// where that ended, the rest.
pub proof fn lemma_walk_in_two(
    surface: Surface,
    robot: Robot,
    first: Seq<Direction>,
    rest: Seq<Direction>,
)
    ensures
        surface.walk(robot, first + rest) == ({
            let (halfway, walker) = surface.walk(robot, first);
            halfway.walk(walker, rest)
        }),
    decreases rest.len(),
{
    if rest.len() == 0 {
        assert(first + rest =~= first);
    } else {
        assert((first + rest).drop_last() =~= first + rest.drop_last());
        lemma_walk_in_two(surface, robot, first, rest.drop_last());
    }
}

/// Once a robot is lost, no command changes it or the surface.
pub proof fn lemma_lost_robot_stays(surface: Surface, robot: Robot, directions: Seq<Direction>)
    requires
        robot.lost,
    ensures
        forall|direction: Direction| surface.step(robot, direction) == (surface, robot),
        surface.walk(robot, directions) == (surface, robot),
    decreases directions.len(),
{
    if directions.len() > 0 {
        lemma_lost_robot_stays(surface, robot, directions.drop_last());
    }
}

/// A robot that stands off the grid obeys no command, lost or not.
pub proof fn lemma_robot_off_the_grid_stays(
    surface: Surface,
    robot: Robot,
    directions: Seq<Direction>,
)
    requires
        !surface.in_bounds(robot.pos),
    ensures
        surface.walk(robot, directions) == (surface, robot),
    decreases directions.len(),
{
    if directions.len() > 0 {
        lemma_robot_off_the_grid_stays(surface, robot, directions.drop_last());
    }
}

/// What a robot is sent to do after it was lost changes nothing: the walk
/// ends as it stood when the robot was lost.
pub proof fn lemma_walk_ends_at_loss(
    surface: Surface,
    robot: Robot,
    first: Seq<Direction>,
    rest: Seq<Direction>,
)
    requires
        surface.walk(robot, first).1.lost,
    ensures
        surface.walk(robot, first + rest) == surface.walk(robot, first),
{
    lemma_walk_in_two(surface, robot, first, rest);
    let (halfway, walker) = surface.walk(robot, first);
    lemma_lost_robot_stays(halfway, walker, rest);
}

/// A quarter turn to one side and then one to the other side bring back the
/// heading, and the robot stands where it stood. The surface is as it was.
/// This holds wherever the robot stands.
pub proof fn lemma_opposite_turns_cancel(surface: Surface, robot: Robot)
    ensures
        robot.orientation.turn(Direction::Left).turn(Direction::Right) == robot.orientation,
        robot.orientation.turn(Direction::Right).turn(Direction::Left) == robot.orientation,
        surface.walk(robot, seq![Direction::Left, Direction::Right]) == (surface, robot),
        surface.walk(robot, seq![Direction::Right, Direction::Left]) == (surface, robot),
{
    lemma_walk_of_two(surface, robot, Direction::Left, Direction::Right);
    lemma_walk_of_two(surface, robot, Direction::Right, Direction::Left);
}

/// Four quarter turns to the same side bring back the heading, and the robot
/// stands where it stood.
pub proof fn lemma_four_turns_are_none(surface: Surface, robot: Robot, side: Direction)
    requires
        side != Direction::Forward,
    ensures
        robot.orientation.turn(side).turn(side).turn(side).turn(side) == robot.orientation,
        surface.walk(robot, seq![side, side, side, side]) == (surface, robot),
{
    let turns = seq![side, side, side, side];
    let two = seq![side, side];
    assert(turns =~= two + two);
    lemma_walk_in_two(surface, robot, two, two);
    lemma_walk_of_two(surface, robot, side, side);
    let (halfway, walker) = surface.walk(robot, two);
    lemma_walk_of_two(halfway, walker, side, side);
}

/// Two commands are two steps.
proof fn lemma_walk_of_two(surface: Surface, robot: Robot, first: Direction, second: Direction)
    ensures
        surface.walk(robot, seq![first, second]) == ({
            let (halfway, walker) = surface.step(robot, first);
            halfway.step(walker, second)
        }),
{
    let both = seq![first, second];
    assert(both.drop_last() =~= seq![first]);
    assert(seq![first].drop_last() =~= Seq::<Direction>::empty());
    reveal_with_fuel(Surface::walk, 3);
}

/// The point `steps` units ahead of `robot`, along its heading.
pub open spec fn far_ahead(robot: Robot, steps: int) -> Point {
    match robot.orientation {
        Orientation::North => Point { x: robot.pos.x, y: robot.pos.y + steps },
        Orientation::South => Point { x: robot.pos.x, y: robot.pos.y - steps },
        Orientation::East => Point { x: robot.pos.x + steps, y: robot.pos.y },
        Orientation::West => Point { x: robot.pos.x - steps, y: robot.pos.y },
    }
}

/// A robot that only steps ahead, and stays on the grid all the way, is not
/// lost: it ends as many units ahead of its start as it took steps, with the
/// heading it had. The surface is as it was.
pub proof fn lemma_forward_walk(surface: Surface, robot: Robot, steps: nat)
    requires
        !robot.lost,
        forall|k: int| 0 <= k <= steps ==> surface.in_bounds(#[trigger] far_ahead(robot, k)),
    ensures
        surface.walk(robot, Seq::new(steps, |i: int| Direction::Forward)) == (
            surface,
            Robot { pos: far_ahead(robot, steps as int), ..robot },
        ),
    decreases steps,
{
    let directions = Seq::new(steps, |i: int| Direction::Forward);
    assert(far_ahead(robot, 0) == robot.pos);
    if steps > 0 {
        let before = (steps - 1) as nat;
        assert(directions.drop_last() =~= Seq::new(before, |i: int| Direction::Forward));
        lemma_forward_walk(surface, robot, before);
        let walker = Robot { pos: far_ahead(robot, before as int), ..robot };
        assert(surface.in_bounds(far_ahead(robot, before as int)));
        assert(surface.in_bounds(far_ahead(robot, steps as int)));
        assert(walker.ahead() == far_ahead(robot, steps as int));
    }
}

/// A robot that steps off the grid where no scent lies is lost: it ends on
/// the point beyond the edge and leaves a scent there. A robot that later
/// stands on the same cell with the same heading, on a surface that still
/// holds this scent, ignores the step: it is not lost, and nothing changes.
pub proof fn lemma_scent_protects(
    surface: Surface,
    earlier: Robot,
    later_surface: Surface,
    later: Robot,
)
    requires
        !earlier.lost,
        surface.in_bounds(earlier.pos),
        !surface.in_bounds(earlier.ahead()),
        !surface.scents.contains(earlier.ahead()),
        !later.lost,
        later.pos == earlier.pos,
        later.orientation == earlier.orientation,
        later_surface.upper == surface.upper,
        surface.step(earlier, Direction::Forward).0.scents.subset_of(later_surface.scents),
    ensures
        surface.step(earlier, Direction::Forward) == (
            surface.add_scent(earlier.ahead()),
            Robot { pos: earlier.ahead(), lost: true, ..earlier },
        ),
        later_surface.step(later, Direction::Forward) == (later_surface, later),
{
    assert(surface.add_scent(earlier.ahead()).scents.contains(earlier.ahead()));
}

/// No command takes a scent away, moves the grid or touches the robots that
/// finished: one step.
pub proof fn lemma_step_keeps(surface: Surface, robot: Robot, direction: Direction)
    ensures
        surface.scents.subset_of(surface.step(robot, direction).0.scents),
        surface.step(robot, direction).0.upper == surface.upper,
        surface.step(robot, direction).0.robots == surface.robots,
{
}

/// No command takes a scent away, moves the grid or touches the robots that
/// finished: a whole walk.
pub proof fn lemma_walk_keeps(surface: Surface, robot: Robot, directions: Seq<Direction>)
    ensures
        surface.scents.subset_of(surface.walk(robot, directions).0.scents),
        surface.walk(robot, directions).0.upper == surface.upper,
        surface.walk(robot, directions).0.robots == surface.robots,
    decreases directions.len(),
{
    if directions.len() > 0 {
        lemma_walk_keeps(surface, robot, directions.drop_last());
        let (halfway, walker) = surface.walk(robot, directions.drop_last());
        lemma_step_keeps(halfway, walker, directions.last());
    }
}

/// On a grid whose corner a position can hold, a robot leaves the points
/// that a position can hold only by being lost.
pub proof fn lemma_beyond_reach_is_lost(
    surface: Surface,
    robot: Robot,
    directions: Seq<Direction>,
)
    requires
        surface.upper.fits(),
        robot.pos.fits(),
    ensures
        surface.walk(robot, directions).1.pos.fits() || surface.walk(robot, directions).1.lost,
    decreases directions.len(),
{
    if directions.len() > 0 {
        lemma_beyond_reach_is_lost(surface, robot, directions.drop_last());
        lemma_walk_keeps(surface, robot, directions.drop_last());
    }
}

/// A robot whose point ahead a position can hold can obey any command.
pub proof fn lemma_can_step(surface: Surface, robot: Robot, direction: Direction)
    requires
        robot.pos.fits(),
        robot.ahead().fits(),
    ensures
        surface.can_step(robot, direction),
{
}

/// On a grid that ends before the largest coordinate, every robot can walk
/// every sequence of commands.
pub proof fn lemma_can_walk(surface: Surface, robot: Robot, directions: Seq<Direction>)
    requires
        surface.upper.x < i32::MAX,
        surface.upper.y < i32::MAX,
        robot.pos.fits(),
    ensures
        surface.can_walk(robot, directions),
    decreases directions.len(),
{
    if directions.len() > 0 {
        lemma_can_walk(surface, robot, directions.drop_last());
        lemma_walk_keeps(surface, robot, directions.drop_last());
    }
}

/// A walk that ends on a point that a position can hold has stood on such
/// points all along.
pub proof fn lemma_within_reach_all_along(
    surface: Surface,
    robot: Robot,
    directions: Seq<Direction>,
    i: int,
)
    requires
        surface.upper.fits(),
        robot.pos.fits(),
        surface.walk(robot, directions).1.pos.fits(),
        0 <= i <= directions.len(),
    ensures
        surface.walk(robot, directions.take(i)).1.pos.fits(),
{
    let first = directions.take(i);
    let rest = directions.skip(i);
    assert(directions =~= first + rest);
    lemma_beyond_reach_is_lost(surface, robot, first);
    if surface.walk(robot, first).1.lost {
        lemma_walk_ends_at_loss(surface, robot, first, rest);
    }
}

/// A robot that starts off the grid leaves no trace: no entry among the
/// robots, no scent. Any other adds exactly one entry, after those that were
/// there, keeps every scent and leaves the grid as it was.
pub proof fn lemma_run_robot(surface: Surface, robot: Robot, directions: Seq<Direction>)
    ensures
        !surface.in_bounds(robot.pos) ==> surface.run_robot(robot, directions) == surface,
        surface.in_bounds(robot.pos) ==> {
            let after = surface.run_robot(robot, directions);
            &&& after.robots.len() == surface.robots.len() + 1
            &&& after.robots.drop_last() == surface.robots
            &&& after.robots.last() == surface.walk(robot, directions).1
            &&& surface.scents.subset_of(after.scents)
            &&& after.upper == surface.upper
        },
{
    if surface.in_bounds(robot.pos) {
        lemma_walk_keeps(surface, robot, directions);
        let after = surface.run_robot(robot, directions);
        assert(after.robots.drop_last() =~= surface.robots);
    }
}

/// `c` is a digit or the minus sign.
pub open spec fn is_numeral(c: char) -> bool {
    is_digit(c) || c == '-'
}

/// The digits of a number are digits, at least one, and stand for it.
proof fn lemma_digits(n: nat)
    ensures
        digits(n).len() > 0,
        all_digits(digits(n)),
        digits_value(digits(n)) == n,
    decreases n,
{
    if n < 10 {
        let s = digits(n);
        assert(is_digit(digit_char(n as int)));
        assert(s.drop_last() =~= Seq::<char>::empty());
        assert(digits_value(s) == 10 * digits_value(s.drop_last()) + (n as int));
    } else {
        lemma_digits(n / 10);
        let s = digits(n);
        assert(is_digit(digit_char(n as int % 10)));
        assert(s.drop_last() =~= digits(n / 10));
        assert(digits_value(s) == 10 * digits_value(s.drop_last()) + (n as int % 10));
    }
}

/// The decimal text of a whole number is read as that number.
pub proof fn lemma_number_of_decimal(i: int)
    requires
        i32::MIN <= i <= i32::MAX,
    ensures
        number(decimal(i)) == Some(i),
        decimal(i).len() > 0,
        forall|k: int| 0 <= k < decimal(i).len() ==> is_numeral(#[trigger] decimal(i)[k]),
{
    let s = decimal(i);
    if i < 0 {
        lemma_digits((-i) as nat);
        assert(s.drop_first() =~= digits((-i) as nat));
        assert(has_sign(s));
    } else {
        lemma_digits(i as nat);
        assert(is_digit(s[0]));
        assert(!has_sign(s));
    }
}

/// A text that holds no `sep` is one part.
proof fn lemma_fields_of_one(s: Seq<char>, sep: char)
    requires
        forall|k: int| 0 <= k < s.len() ==> s[k] != sep,
    ensures
        fields(s, sep) == seq![s],
    decreases s.len(),
{
    if s.len() > 0 {
        lemma_fields_of_one(s.drop_last(), sep);
        assert(s.drop_last().push(s.last()) =~= s);
        assert(seq![s.drop_last()].update(0, s) =~= seq![s]);
    } else {
        assert(s =~= Seq::<char>::empty());
    }
}

/// What follows the last `sep` of a text is its last part.
proof fn lemma_fields_of_more(before: Seq<char>, sep: char, last: Seq<char>)
    requires
        forall|k: int| 0 <= k < last.len() ==> last[k] != sep,
    ensures
        fields(before + seq![sep] + last, sep) == fields(before, sep).push(last),
    decreases last.len(),
{
    let s = before + seq![sep] + last;
    if last.len() == 0 {
        assert(s.drop_last() =~= before);
        assert(last =~= Seq::<char>::empty());
    } else {
        lemma_fields_of_more(before, sep, last.drop_last());
        assert(s.drop_last() =~= before + seq![sep] + last.drop_last());
        let parts = fields(before, sep).push(last.drop_last());
        assert(last.drop_last().push(last.last()) =~= last);
        assert(parts.update(parts.len() - 1, parts.last().push(last.last())) =~= fields(
            before,
            sep,
        ).push(last));
    }
}

/// The text of a heading is read as that heading.
proof fn lemma_orientation_of_letter(orientation: Orientation)
    ensures
        Orientation::of_text(seq![orientation.letter()]) == Some(orientation),
{
    let o = seq![orientation.letter()];
    assert(!is_space(o.first()));
    assert(trimmed(o) == o);
}

/// The text of a robot has no white space at its ends.
proof fn lemma_text_is_trimmed(robot: Robot)
    requires
        robot.pos.fits(),
    ensures
        trimmed(robot.text()) == robot.text(),
{
    let x = decimal(robot.pos.x);
    let s = robot.text();
    lemma_number_of_decimal(robot.pos.x);
    assert(is_numeral(x[0]));
    assert(s.first() == x[0]);
    assert(s.last() == robot.orientation.letter());
    assert(!is_space(s.first()));
    assert(!is_space(s.last()));
}

/// The text of a robot has three parts: the two coordinates and the heading.
proof fn lemma_fields_of_text(robot: Robot)
    requires
        robot.pos.fits(),
    ensures
        fields(robot.text(), ' ') == seq![
            decimal(robot.pos.x),
            decimal(robot.pos.y),
            seq![robot.orientation.letter()],
        ],
{
    let x = decimal(robot.pos.x);
    let y = decimal(robot.pos.y);
    let o = seq![robot.orientation.letter()];
    assert forall|k: int| 0 <= k < x.len() implies x[k] != ' ' by {
        lemma_number_of_decimal(robot.pos.x);
        assert(is_numeral(x[k]));
    }
    assert forall|k: int| 0 <= k < y.len() implies y[k] != ' ' by {
        lemma_number_of_decimal(robot.pos.y);
        assert(is_numeral(y[k]));
    }
    assert(o[0] != ' ');
    lemma_fields_of_one(x, ' ');
    lemma_fields_of_more(x, ' ', y);
    lemma_fields_of_more(x + seq![' '] + y, ' ', o);
    assert(robot.text() =~= (x + seq![' '] + y) + seq![' '] + o);
    assert(seq![x].push(y).push(o) =~= seq![x, y, o]);
}

/// A robot that is not lost, and whose coordinates a position can hold, is
/// read from its own text.
pub proof fn lemma_robot_of_text(robot: Robot)
    requires
        !robot.lost,
        robot.pos.fits(),
    ensures
        Robot::of_text(robot.text()) == Some(robot),
{
    lemma_text_is_trimmed(robot);
    lemma_fields_of_text(robot);
    lemma_number_of_decimal(robot.pos.x);
    lemma_number_of_decimal(robot.pos.y);
    lemma_orientation_of_letter(robot.orientation);
}

} // verus!
