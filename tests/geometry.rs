use lampy::camera::Camera;
use lampy::geometry::{Angle, Point, Rectangle};
use lampy::random::{random_range, Random};

#[test]
fn angle_to() {
    let p1 = Point { x: 10, y: 10 };
    let p2 = Point { x: 20, y: 20 };
    let angle = p1.angle_to(&p2);
    assert_eq!(angle.degrees(), 45);
}

#[test]
fn angle_to_axes_and_zero_vector() {
    let o = Point::new(0, 0);
    assert_eq!(o.angle_to(&Point::new(5, 0)).degrees(), 0);
    assert_eq!(o.angle_to(&Point::new(0, 5)).degrees(), 90);
    assert_eq!(o.angle_to(&Point::new(-5, 0)).degrees(), 180);
    assert_eq!(o.angle_to(&Point::new(0, -5)).degrees(), 270);
    assert_eq!(o.angle_to(&o).degrees(), 0);
}

#[test]
fn distance_rounds_down() {
    let o = Point::new(0, 0);
    assert_eq!(o.distance(&Point::new(3, 4)), 5);
    assert_eq!(o.distance(&Point::new(1, 1)), 1);
    assert_eq!(o.distance(&Point::new(6, 6)), 8);
}

#[test]
fn step_along_axis_uses_whole_distance() {
    let (p, rem) = Point::new(10, 10).point_from_distance_and_angle(3 * 256, Angle::zero());
    assert_eq!(p, Point::new(13, 10));
    assert_eq!(rem, 0);
}

#[test]
fn short_step_carries_remainder() {
    let (p, rem) = Point::new(10, 10).point_from_distance_and_angle(100, Angle::zero());
    assert_eq!(p, Point::new(10, 10));
    assert_eq!(rem, 100);
}

#[test]
fn diagonal_step_keeps_sub_pixel_rest() {
    // 1.5 px at 45 degrees lands one pixel over on each axis, sqrt(2) px away.
    let (p, rem) = Point::new(0, 0).point_from_distance_and_angle(384, Angle::from_degrees(45));
    assert_eq!(p, Point::new(1, 1));
    assert_eq!(rem, 384 - 362);
}

#[test]
fn angles_normalise() {
    assert_eq!(Angle::from_degrees(-90).degrees(), 270);
    assert_eq!(Angle::from_degrees(725).degrees(), 5);
    assert_eq!(Angle::from_degrees(359).turn(5).degrees(), 4);
    assert_eq!(Angle::from_degrees(2).turn(-5).degrees(), 357);
}

#[test]
fn trig_table_values() {
    assert_eq!(Angle::from_degrees(0).cosine(), 1024);
    assert_eq!(Angle::from_degrees(90).sine(), 1024);
    assert_eq!(Angle::from_degrees(180).cosine(), -1024);
    assert_eq!(Angle::from_degrees(210).sine(), -512);
}

#[test]
fn rectangle_corners() {
    let r = Rectangle::new(Point::new(16, 256), 192, 192);
    assert_eq!(r.x(), 16);
    assert_eq!(r.y(), 256);
    assert_eq!(r.bottom_right(), Point::new(207, 447));
}

#[test]
fn screen_world_round_trip() {
    let mut c = Camera::new(480, 480);
    c.set_camera_position(Point::new(37, -12));
    let p = Point::new(100, 5);
    assert_eq!(c.world_to_screen(p), Point::new(63, 17));
    assert_eq!(c.screen_to_world(c.world_to_screen(p)), p);
    assert_eq!(c.world_to_screen(c.screen_to_world(p)), p);
}

#[test]
fn camera_follow_smooths_and_clamps() {
    let mut c = Camera::new(480, 480);
    c.follow_player(Point::new(300, 300), 20);
    // Target top-left (180, 220); a fifth of the way from (0, 0).
    assert_eq!(c.position, Point::new(36, 44));
    c.follow_player(Point::new(2000, 2000), 100);
    assert_eq!(c.position, Point::new(240, 320));
    c.follow_player(Point::new(-500, -500), 100);
    assert_eq!(c.position, Point::new(0, 0));
}

#[test]
fn camera_on_small_world_stays_at_origin() {
    let mut c = Camera::new(100, 100);
    c.follow_player(Point::new(400, 400), 100);
    assert_eq!(c.position, Point::new(0, 0));
}

#[test]
fn random_range_stays_inclusive() {
    let mut rng = Random::new(7);
    for _ in 0..1000 {
        let v = random_range(&mut rng, 3, 9);
        assert!((3..=9).contains(&v));
    }
    assert_eq!(random_range(&mut rng, 5, 5), 5);
    assert_eq!(random_range(&mut rng, 9, 2), 9);
}

#[test]
fn random_generator_is_xorshift() {
    let mut rng = Random::new(1);
    assert_eq!(rng.next_u32(), 270369);
    let mut zero = Random::new(0);
    assert_ne!(zero.next_u32(), 0);
}

#[test]
fn scatter_stays_within_half_modifier() {
    let mut rng = Random::new(99);
    let p = Point::new(100, 100);
    for _ in 0..200 {
        let q = p.scatter(12, &mut rng);
        assert!((94..=106).contains(&q.x));
        assert!((94..=106).contains(&q.y));
    }
}
