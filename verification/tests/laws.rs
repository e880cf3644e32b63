use martian_robots::Direction::{Forward, Left, Right};
use martian_robots::Orientation::{East, North, South, West};
use martian_robots::{Mars, Pos, Turtle};

#[test]
fn opposite_turns_cancel_inside_the_grid() {
    for o in [North, South, East, West] {
        for x in 1..5 {
            for y in 1..3 {
                let mut mars = Mars::new(Pos::new(5, 3));
                let start = Turtle::new(Pos::new(x, y), o);
                let mut t = start;
                t.make_move(&mut mars, Left);
                t.make_move(&mut mars, Right);
                assert_eq!(t, start);
                t.make_move(&mut mars, Right);
                t.make_move(&mut mars, Left);
                assert_eq!(t, start);
                mars.move_turtle(start, &[Left, Right]);
                mars.move_turtle(start, &[Right, Left]);
                assert_eq!(mars.turtles(), &vec![start, start]);
                assert_eq!(0, mars.scent_count());
            }
        }
    }
}

#[test]
fn four_turns_to_one_side_are_none() {
    for o in [North, South, East, West] {
        for side in [Left, Right] {
            assert_eq!(
                o.with_direction(side)
                    .with_direction(side)
                    .with_direction(side)
                    .with_direction(side),
                o
            );
            assert_ne!(o.with_direction(side), o);
            assert_ne!(o.with_direction(side).with_direction(side), o);
            let mut mars = Mars::new(Pos::new(5, 3));
            let start = Turtle::new(Pos::new(2, 2), o);
            mars.move_turtle(start, &[side, side, side, side]);
            assert_eq!(mars.turtles(), &vec![start]);
        }
    }
}

#[test]
fn steps_on_the_grid_add_up() {
    let mut mars = Mars::new(Pos::new(5, 3));
    mars.move_turtle(Turtle::new(Pos::new(1, 0), East), &[Forward, Forward, Forward, Forward]);
    mars.move_turtle(Turtle::new(Pos::new(5, 3), West), &[Forward, Forward, Forward, Forward, Forward]);
    mars.move_turtle(Turtle::new(Pos::new(2, 0), North), &[Forward, Forward, Forward]);
    mars.move_turtle(Turtle::new(Pos::new(2, 3), South), &[Forward, Forward]);
    mars.move_turtle(Turtle::new(Pos::new(2, 3), South), &[]);
    assert_eq!(
        mars.turtles(),
        &vec![
            Turtle::new(Pos::new(5, 0), East),
            Turtle::new(Pos::new(0, 3), West),
            Turtle::new(Pos::new(2, 3), North),
            Turtle::new(Pos::new(2, 1), South),
            Turtle::new(Pos::new(2, 3), South),
        ]
    );
    assert_eq!(0, mars.scent_count());
}

#[test]
fn a_lost_turtle_stays_as_it_is() {
    let mut mars = Mars::new(Pos::new(5, 3));
    let lost = Turtle { pos: Pos::new(2, 2), orientation: East, lost: true };
    let mut t = lost;
    for d in [Left, Right, Forward, Forward, Left, Forward] {
        t.make_move(&mut mars, d);
        assert_eq!(t, lost);
    }
    mars.move_turtle(lost, &[Forward, Left, Forward, Right]);
    assert_eq!(mars.turtles(), &vec![lost]);
    assert_eq!(0, mars.scent_count());
}

#[test]
fn a_scent_protects_the_later_turtle_only() {
    let mut mars = Mars::new(Pos::new(5, 3));
    let mut earlier = Turtle::new(Pos::new(5, 1), East);
    earlier.make_move(&mut mars, Forward);
    assert_eq!(earlier, Turtle { pos: Pos::new(6, 1), orientation: East, lost: true });
    assert!(mars.scent_seen(Pos::new(6, 1)));

    let mut later = Turtle::new(Pos::new(5, 1), East);
    later.make_move(&mut mars, Forward);
    assert_eq!(later, Turtle::new(Pos::new(5, 1), East));
    assert_eq!(1, mars.scent_count());

    let mut elsewhere = Turtle::new(Pos::new(5, 2), East);
    elsewhere.make_move(&mut mars, Forward);
    assert!(elsewhere.lost);
    assert_eq!(2, mars.scent_count());
}

#[test]
fn a_scent_lies_at_the_point_beyond_the_edge_not_on_the_cell() {
    let mut mars = Mars::new(Pos::new(5, 3));
    mars.move_turtle(Turtle::new(Pos::new(5, 3), North), &[Forward]);
    assert_eq!(
        mars.turtles()[0],
        Turtle { pos: Pos::new(5, 4), orientation: North, lost: true }
    );
    // the same corner cell, left towards the east: another point, no scent
    mars.move_turtle(Turtle::new(Pos::new(5, 3), East), &[Forward]);
    assert_eq!(
        mars.turtles()[1],
        Turtle { pos: Pos::new(6, 3), orientation: East, lost: true }
    );
    assert!(mars.scent_seen(Pos::new(5, 4)));
    assert!(mars.scent_seen(Pos::new(6, 3)));
    mars.move_turtle(Turtle::new(Pos::new(5, 3), East), &[Forward, Left, Forward]);
    assert_eq!(mars.turtles()[2], Turtle::new(Pos::new(5, 3), North));
}

#[test]
fn a_turtle_that_starts_off_the_grid_leaves_no_trace() {
    let mut mars = Mars::new(Pos::new(5, 3));
    mars.move_turtle(Turtle::new(Pos::new(5, 3), North), &[Forward]);
    let robots = mars.turtles().clone();
    for start in [Pos::new(6, 0), Pos::new(0, 4), Pos::new(-1, 0), Pos::new(0, -1), Pos::new(10, 20)] {
        for o in [North, South, East, West] {
            mars.move_turtle(Turtle::new(start, o), &[Forward, Left, Forward, Right, Forward]);
            assert_eq!(mars.turtles(), &robots);
            assert_eq!(1, mars.scent_count());
        }
    }
}

#[test]
fn a_lost_turtle_ends_on_the_point_beyond_the_edge() {
    let mut mars = Mars::new(Pos::new(5, 3));
    mars.move_turtle(Turtle::new(Pos::new(0, 0), South), &[Forward, Left, Forward]);
    assert_eq!(
        mars.turtles(),
        &vec![Turtle { pos: Pos::new(0, -1), orientation: South, lost: true }]
    );
    assert!(mars.scent_seen(Pos::new(0, -1)));
    assert_eq!(mars.report(), vec!["0 -1 S LOST".to_string()]);
}
