use spirograph::arith::{TURN, UNIT};
use spirograph::circle::Circle;
use spirograph::error::SpiroError;
use spirograph::geom::{Origin, Point};
use spirograph::trig::{Direction, TrigTable};

fn circle_table() -> TrigTable {
    let mut dirs = Vec::with_capacity(TURN as usize);
    for i in 0..TURN {
        let angle = (i as f64) * std::f64::consts::TAU / (TURN as f64);
        let cos = (angle.cos() * UNIT as f64).round() as i64;
        let sin = (angle.sin() * UNIT as f64).round() as i64;
        dirs.push(Direction::new(cos, sin));
    }
    TrigTable::new(dirs).unwrap()
}

fn separation(a: Point, b: Point) -> f64 {
    let dx = (a.x - b.x) as f64;
    let dy = (a.y - b.y) as f64;
    (dx * dx + dy * dy).sqrt()
}

#[test]
fn circle_new_keeps_its_arguments() {
    let c = Circle::new(Point::new(3, -4), 77, 5).unwrap();
    assert_eq!(c.center, Point::new(3, -4));
    assert_eq!(c.angle, 77);
    assert_eq!(c.radius, 5);
    let tiny = Circle::new(Point::new(0, 0), -1, 1).unwrap();
    assert_eq!(tiny.radius, 1);
    assert_eq!(tiny.angle, -1);
}

#[test]
fn zero_radius_is_rejected() {
    assert_eq!(Circle::new(Point::new(0, 0), 0, 0), Err(SpiroError::InvalidGeometry));
    assert_eq!(Circle::new(Point::new(5, 5), TURN, 0), Err(SpiroError::InvalidGeometry));
}

#[test]
fn negative_radius_is_rejected() {
    assert_eq!(Circle::new(Point::new(0, 0), 0, -1), Err(SpiroError::InvalidGeometry));
    assert_eq!(Circle::new(Point::new(0, 0), 0, i64::MIN), Err(SpiroError::InvalidGeometry));
}

#[test]
fn clone_copies_the_current_state() {
    let mut c = Circle::new(Point::new(1, 2), 3, 4).unwrap();
    c.angle = 99;
    let d = c.clone();
    assert_eq!(d, c);
    assert_eq!(d.angle, 99);
}

#[test]
fn arc_length_is_angle_times_radius() {
    assert_eq!(Circle::new(Point::new(0, 0), 7, 3).unwrap().get_arc_len(), 21);
    assert_eq!(Circle::new(Point::new(0, 0), -7, 3).unwrap().get_arc_len(), -21);
    assert_eq!(Circle::new(Point::new(0, 0), 0, 3).unwrap().get_arc_len(), 0);
    let big = Circle::new(Point::new(0, 0), i64::MIN, i64::MAX).unwrap();
    assert_eq!(big.get_arc_len(), (i64::MIN as i128) * (i64::MAX as i128));
}

#[test]
fn set_angle_by_arc_divides_by_the_radius() {
    let mut c = Circle::new(Point::new(9, 9), 0, 3).unwrap();
    c.set_angle_by_arc(21);
    assert_eq!(c.angle, 7);
    assert_eq!(c.radius, 3);
    assert_eq!(c.center, Point::new(9, 9));
    c.set_angle_by_arc(-21);
    assert_eq!(c.angle, -7);
    c.set_angle_by_arc(0);
    assert_eq!(c.angle, 0);
}

#[test]
fn set_angle_by_arc_rounds_toward_zero() {
    let mut c = Circle::new(Point::new(0, 0), 0, 3).unwrap();
    c.set_angle_by_arc(7);
    assert_eq!(c.angle, 2);
    c.set_angle_by_arc(-7);
    assert_eq!(c.angle, -2);
    c.set_angle_by_arc(2);
    assert_eq!(c.angle, 0);
    c.set_angle_by_arc(-2);
    assert_eq!(c.angle, 0);
}

#[test]
fn arc_length_round_trip_restores_the_angle() {
    let cases: Vec<(i64, i64)> = vec![
        (0, 1),
        (1, 1),
        (-1, 1),
        (12_345, 678),
        (-12_345, 678),
        (TURN * 50 + 17, 300_000),
        (i64::MAX, 1),
        (i64::MIN, 1),
        (i64::MAX, i64::MAX),
        (i64::MIN, i64::MAX),
    ];
    for (angle, radius) in cases {
        let mut c = Circle::new(Point::new(0, 0), angle, radius).unwrap();
        let arc = c.get_arc_len();
        c.angle = 0;
        c.set_angle_by_arc(arc);
        assert_eq!(c.angle, angle);
    }
}

#[test]
fn offset_point_at_the_quarter_turns() {
    let table = circle_table();
    let mut c = Circle::new(Point::new(10, 20), 0, 100).unwrap();
    assert_eq!(c.get_offset_point(&table, 30), Point::new(80, 20));
    assert_eq!(c.get_offset_point(&table, 0), Point::new(110, 20));
    c.angle = TURN / 4;
    assert_eq!(c.get_offset_point(&table, 30), Point::new(10, 90));
    c.angle = TURN / 2;
    assert_eq!(c.get_offset_point(&table, 30), Point::new(-60, 20));
    c.angle = 3 * TURN / 4;
    assert_eq!(c.get_offset_point(&table, 30), Point::new(10, -50));
    c.angle = -TURN / 4;
    assert_eq!(c.get_offset_point(&table, 30), Point::new(10, -50));
    c.angle = 5 * TURN;
    assert_eq!(c.get_offset_point(&table, 30), Point::new(80, 20));
}

#[test]
fn offset_point_on_a_diagonal() {
    let table = circle_table();
    let c = Circle::new(Point::new(0, 0), TURN / 8, 1_000).unwrap();
    assert_eq!(c.get_offset_point(&table, 0), Point::new(707, 707));
    let back = Circle::new(Point::new(0, 0), 5 * TURN / 8, 1_000).unwrap();
    assert_eq!(back.get_offset_point(&table, 0), Point::new(-707, -707));
}

#[test]
fn offset_equal_to_radius_gives_the_center() {
    let table = circle_table();
    let mut c = Circle::new(Point::new(-5, 6), 0, 1_000).unwrap();
    for angle in [0, 1, 999, TURN / 3, -TURN / 7, 12 * TURN + 5] {
        c.angle = angle;
        assert_eq!(c.get_offset_point(&table, 1_000), Point::new(-5, 6));
    }
}

#[test]
fn offset_beyond_the_radius_lies_on_the_opposite_ray() {
    let table = circle_table();
    let c = Circle::new(Point::new(10, 20), 0, 100).unwrap();
    assert_eq!(c.get_offset_point(&table, 150), Point::new(-40, 20));
    assert_eq!(c.get_offset_point(&table, -50), Point::new(160, 20));
}

#[test]
fn offset_point_matches_the_table_entry() {
    let table = circle_table();
    let center = Point::new(1_000, -2_000);
    for angle in [1i64, 17, 4_242, 30_000, 65_535, -9_999] {
        let c = Circle::new(center, angle, 300_000).unwrap();
        let dir = table.direction(angle);
        let reach: i128 = 300_000 - 25_000;
        let dx = (dir.cos as i128 * reach / UNIT as i128) as i64;
        let dy = (dir.sin as i128 * reach / UNIT as i128) as i64;
        assert_eq!(c.get_offset_point(&table, 25_000), Point::new(center.x + dx, center.y + dy));
    }
}

#[test]
fn offset_point_keeps_its_distance_from_the_center() {
    let table = circle_table();
    let center = Point::new(123, -456);
    for step in 0..512i64 {
        let angle = step * 128 + step;
        for (radius, off) in [(300_000i64, 0i64), (300_000, 100_000), (1_000, 1), (50, 50), (7, 0)] {
            let c = Circle::new(center, angle, radius).unwrap();
            let p = c.get_offset_point(&table, off);
            let reach = (radius - off) as f64;
            assert!((separation(p, center) - reach).abs() <= 6.0);
        }
    }
}

#[test]
fn offset_point_at_the_edge_of_the_coordinate_range() {
    let table = circle_table();
    let c = Circle::new(Point::new(i64::MAX - 100, i64::MIN + 101), 0, 100).unwrap();
    assert!(c.check_reach(0));
    assert_eq!(c.get_offset_point(&table, 0), Point::new(i64::MAX, i64::MIN + 101));
    let down = Circle::new(Point::new(0, i64::MIN + 101), 3 * TURN / 4, 100).unwrap();
    assert_eq!(down.get_offset_point(&table, 0), Point::new(0, i64::MIN + 1));
    assert!(!c.check_reach(-1));
    assert!(c.check_reach(200));
    assert!(!c.check_reach(201));
}

#[test]
fn border_of_a_full_turn_in_quarter_steps() {
    let table = circle_table();
    let c = Circle::new(Point::new(0, 0), TURN, 500).unwrap();
    let path = c.create_path(&table, &Origin::new(1_000, 2_000), TURN / 4).unwrap();
    assert_eq!(path.segments(), 4);
    assert_eq!(path.vertex(0), Point::new(1_500, 2_000));
    assert_eq!(path.vertex(1), Point::new(1_000, 2_500));
    assert_eq!(path.vertex(2), Point::new(500, 2_000));
    assert_eq!(path.vertex(3), Point::new(1_000, 1_500));
    assert_eq!(path.vertex(4), Point::new(1_500, 2_000));
}

#[test]
fn border_places_the_center_in_the_frame_of_the_circle() {
    let table = circle_table();
    let c = Circle::new(Point::new(10, 20), TURN, 100).unwrap();
    let path = c.create_path(&table, &Origin::new(0, 0), TURN / 4).unwrap();
    assert_eq!(path.segments(), 4);
    assert_eq!(path.vertex(0), Point::new(110, 20));
    assert_eq!(path.vertex(1), Point::new(10, 120));
    assert_eq!(path.vertex(2), Point::new(-90, 20));
    assert_eq!(path.vertex(3), Point::new(10, -80));
    assert_eq!(path.vertex(4), Point::new(110, 20));
    let moved = c.create_path(&table, &Origin::new(1_000, -2_000), TURN / 4).unwrap();
    assert_eq!(moved.vertex(0), Point::new(1_110, -1_980));
    assert_eq!(moved.vertex(1), Point::new(1_010, -1_880));
}

#[test]
fn border_takes_one_step_past_a_sweep_it_does_not_divide() {
    let table = circle_table();
    let c = Circle::new(Point::new(0, 0), 10, 1_000_000).unwrap();
    let path = c.create_path(&table, &Origin::new(0, 0), 4).unwrap();
    assert_eq!(path.segments(), 3);
    let mut at = c.clone();
    for k in 0..=3i64 {
        at.angle = 4 * k;
        assert_eq!(path.vertex(k as usize), at.get_offset_point(&table, 0));
    }
    let exact = Circle::new(Point::new(0, 0), 12, 1_000_000).unwrap();
    assert_eq!(exact.create_path(&table, &Origin::new(0, 0), 4).unwrap().segments(), 3);
    let beyond = Circle::new(Point::new(0, 0), 13, 1_000_000).unwrap();
    assert_eq!(beyond.create_path(&table, &Origin::new(0, 0), 4).unwrap().segments(), 4);
}

#[test]
fn border_without_sweep_is_the_start_alone() {
    let table = circle_table();
    let origin = Origin::new(5, 5);
    for (angle, incr) in [(0i64, 10i64), (0, 0), (0, -3), (-100, 10), (-100, 0), (-100, -10)] {
        let c = Circle::new(Point::new(0, 0), angle, 40).unwrap();
        let path = c.create_path(&table, &origin, incr).unwrap();
        assert_eq!(path.segments(), 0);
        assert_eq!(path.first(), Point::new(45, 5));
    }
}

#[test]
fn border_with_a_step_that_does_not_advance_is_rejected() {
    let table = circle_table();
    let c = Circle::new(Point::new(0, 0), TURN, 40).unwrap();
    let origin = Origin::new(0, 0);
    assert_eq!(c.create_path(&table, &origin, 0).err(), Some(SpiroError::NonProgressing));
    assert_eq!(c.create_path(&table, &origin, -1).err(), Some(SpiroError::NonProgressing));
    let barely = Circle::new(Point::new(0, 0), 1, 40).unwrap();
    assert_eq!(barely.create_path(&table, &origin, 0).err(), Some(SpiroError::NonProgressing));
}

#[test]
fn border_in_a_number_of_steps() {
    let table = circle_table();
    let c = Circle::new(Point::new(0, 0), TURN, 500).unwrap();
    let origin = Origin::new(1_000, 2_000);
    let by_steps = c.create_path_steps(&table, &origin, 4).unwrap();
    let by_angle = c.create_path(&table, &origin, TURN / 4).unwrap();
    assert_eq!(by_steps, by_angle);
    // 100 steps a turn make a step of 655 ticks, which takes 101 steps to cover the turn.
    let hundred = c.create_path_steps(&table, &origin, 100).unwrap();
    assert_eq!(hundred.segments(), 101);
    assert_eq!(hundred, c.create_path(&table, &origin, 655).unwrap());
    // Half a turn of sweep holds half the steps.
    let half = Circle::new(Point::new(0, 0), TURN / 2, 500).unwrap();
    let arc = half.create_path_steps(&table, &origin, 8).unwrap();
    assert_eq!(arc.segments(), 4);
    assert_eq!(arc.last(), Point::new(500, 2_000));
}

#[test]
fn border_in_no_steps_is_rejected() {
    let table = circle_table();
    let origin = Origin::new(0, 0);
    let c = Circle::new(Point::new(0, 0), TURN, 500).unwrap();
    assert_eq!(c.create_path_steps(&table, &origin, 0).err(), Some(SpiroError::NonProgressing));
    // More steps than ticks leave a step of zero ticks.
    assert_eq!(
        c.create_path_steps(&table, &origin, 100_000).err(),
        Some(SpiroError::NonProgressing)
    );
    // A sweep without a whole step.
    let sliver = Circle::new(Point::new(0, 0), 100, 500).unwrap();
    assert_eq!(sliver.create_path_steps(&table, &origin, 4).err(), Some(SpiroError::NonProgressing));
    let none = Circle::new(Point::new(0, 0), 0, 500).unwrap();
    assert_eq!(none.create_path_steps(&table, &origin, 4).err(), Some(SpiroError::NonProgressing));
    let backward = Circle::new(Point::new(0, 0), -TURN, 500).unwrap();
    assert_eq!(
        backward.create_path_steps(&table, &origin, 4).err(),
        Some(SpiroError::NonProgressing)
    );
}

#[test]
fn full_turn_border_ends_within_one_chord_of_its_start() {
    let table = circle_table();
    let origin = Origin::new(400_000, 500_000);
    let c = Circle::new(Point::new(0, 0), TURN, 300_000).unwrap();
    for steps in [2u32, 3, 7, 100, 360, 1_000, 65_536] {
        let path = c.create_path_steps(&table, &origin, steps).unwrap();
        let chord = separation(path.vertex(0), path.vertex(1));
        let gap = separation(path.first(), path.last());
        assert!(gap <= chord + 1.5);
    }
    let hundred = c.create_path_steps(&table, &origin, 100).unwrap();
    assert_eq!(hundred.first(), Point::new(700_000, 500_000));
    assert_eq!(hundred.vertex(1), Point::new(699_408, 518_826));
    assert_eq!(hundred.last(), Point::new(699_471, 517_793));
}

#[test]
fn full_turn_border_closes_exactly_when_the_step_divides_the_turn() {
    let table = circle_table();
    let origin = Origin::new(0, 0);
    let c = Circle::new(Point::new(7, 7), TURN, 12_345).unwrap();
    for steps in [1u32, 2, 4, 64, 1_024, 65_536] {
        let path = c.create_path_steps(&table, &origin, steps).unwrap();
        assert_eq!(path.segments(), steps as usize);
        assert_eq!(path.last(), path.first());
    }
}

#[test]
fn check_border_sees_the_coordinate_and_angle_range() {
    let c = Circle::new(Point::new(10, 0), TURN, 100).unwrap();
    assert!(c.check_border(&Origin::new(i64::MAX - 110, 0), 1));
    assert!(!c.check_border(&Origin::new(i64::MAX - 109, 0), 1));
    assert!(!c.check_border(&Origin::new(0, i64::MIN), 1));
    assert!(c.check_border(&Origin::new(0, 0), i64::MAX - TURN));
    assert!(!c.check_border(&Origin::new(0, 0), i64::MAX - TURN + 1));
}

#[test]
fn angle_of_an_arc_gives_the_arc_back_up_to_one_radius() {
    for (radius, arc) in [(3i64, 7i128), (3, -7), (3, 21), (300_000, 123_456_789), (7, -1), (1, 99)] {
        let mut c = Circle::new(Point::new(0, 0), 0, radius).unwrap();
        c.set_angle_by_arc(arc);
        let back = c.get_arc_len();
        assert!((back - arc).abs() < radius as i128);
        if arc % radius as i128 == 0 {
            assert_eq!(back, arc);
        }
    }
}

#[test]
fn border_vertices_lie_on_the_circle_about_its_center() {
    let table = circle_table();
    let origin = Origin::new(400_000, 500_000);
    let c = Circle::new(Point::new(-30_000, 70_000), TURN, 300_000).unwrap();
    let middle = Point::new(370_000, 570_000);
    let path = c.create_path(&table, &origin, 655).unwrap();
    assert_eq!(path.first(), Point::new(670_000, 570_000));
    for k in 0..=path.segments() {
        assert!((separation(path.vertex(k), middle) - 300_000.0).abs() <= 6.0);
    }
    let mut at = c.clone();
    for k in [0usize, 1, 50, 101] {
        at.angle = 655 * k as i64;
        let p = at.get_offset_point(&table, 0);
        assert_eq!(path.vertex(k), Point::new(400_000 + p.x, 500_000 + p.y));
    }
}

#[test]
fn border_reaches_the_edge_of_the_coordinate_range() {
    let table = circle_table();
    let c = Circle::new(Point::new(10, 0), TURN, 100).unwrap();
    let origin = Origin::new(i64::MAX - 110, 0);
    assert!(c.check_border(&origin, TURN / 4));
    let path = c.create_path(&table, &origin, TURN / 4).unwrap();
    assert_eq!(path.first(), Point::new(i64::MAX, 0));
    assert_eq!(path.vertex(2), Point::new(i64::MAX - 200, 0));
}

#[test]
fn refused_border_asks_nothing_of_the_coordinates() {
    let table = circle_table();
    let c = Circle::new(Point::new(i64::MAX, i64::MIN), TURN, i64::MAX).unwrap();
    let origin = Origin::new(i64::MIN, i64::MAX);
    assert_eq!(c.create_path(&table, &origin, 0).err(), Some(SpiroError::NonProgressing));
    assert_eq!(c.create_path(&table, &origin, i64::MIN).err(), Some(SpiroError::NonProgressing));
    assert_eq!(c.create_path_steps(&table, &origin, 0).err(), Some(SpiroError::NonProgressing));
    assert_eq!(
        c.create_path_steps(&table, &origin, u32::MAX).err(),
        Some(SpiroError::NonProgressing)
    );
}
