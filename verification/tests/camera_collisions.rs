use ship::collision::{avoid_collision, check_collision, push_out, Body, CAMERA_RADIUS};
use ship::fixed::Fixed;
use ship::vector::Vector3;

fn n(v: i32) -> Fixed {
    Fixed::from_int(v)
}

fn v3(x: i32, y: i32, z: i32) -> Vector3 {
    Vector3::new(n(x), n(y), n(z))
}

fn raw3(x: i32, y: i32, z: i32) -> Vector3 {
    Vector3::new(Fixed::from_raw(x), Fixed::from_raw(y), Fixed::from_raw(z))
}

fn body(x: i32, y: i32, z: i32, scale: i32) -> Body {
    Body { position: v3(x, y, z), scale: n(scale) }
}

#[test]
fn radii_are_two_and_four_fifths_of_the_scale() {
    assert_eq!(Fixed::from_raw(CAMERA_RADIUS), n(2));
    // a body of scale 5 has the radius 4: a point at distance 6 touches it
    let sun = body(0, 0, 0, 5);
    assert_eq!(push_out(v3(6, 0, 0), &sun), v3(6, 0, 0));
    assert_eq!(push_out(raw3(6 * 65_536 - 1, 0, 0), &sun), v3(6, 0, 0));
    // four fifths of 0.3 are rounded down
    let ship = Body { position: v3(0, 0, 0), scale: Fixed::from_raw(19_660) };
    assert_eq!(push_out(v3(1, 0, 0), &ship), raw3(131_072 + 15_728, 0, 0));
}

#[test]
fn camera_beside_a_planet_is_pushed_to_six_units_from_it() {
    let bodies = vec![body(10, 0, 0, 5)];
    let (eye, target) = avoid_collision(v3(11, 0, 0), v3(0, 0, 100), &bodies);
    assert_eq!(eye, v3(16, 0, 0));
    assert_eq!(target, v3(0, 0, 100));
}

#[test]
fn point_next_to_the_center_is_pushed_out_along_its_direction() {
    let sun = body(0, 0, 0, 5);
    // (1, 1, 1) / 65536 goes to 6 / sqrt(3) on every axis
    assert_eq!(push_out(raw3(1, 1, 1), &sun), raw3(227_022, 227_022, 227_022));
    assert_eq!(push_out(raw3(0, 0, -1), &sun), v3(0, 0, -6));
}

#[test]
fn spheres_collide_when_nearer_than_their_radii() {
    assert!(check_collision(v3(0, 0, 0), n(1), v3(1, 0, 0), n(1)));
    assert!(check_collision(v3(0, 0, 0), n(2), v3(3, 4, 0), n(4)));
    // touching spheres do not overlap
    assert!(!check_collision(v3(0, 0, 0), n(1), v3(2, 0, 0), n(1)));
    assert!(!check_collision(v3(0, 0, 0), n(2), v3(3, 4, 0), n(3)));
    assert!(!check_collision(v3(0, 0, 0), n(1), v3(0, 0, -9), n(1)));
    // concentric spheres overlap unless both are points
    assert!(check_collision(v3(5, 5, 5), n(1), v3(5, 5, 5), n(0)));
    assert!(!check_collision(v3(5, 5, 5), n(0), v3(5, 5, 5), n(0)));
}

#[test]
fn point_inside_a_body_moves_to_where_the_spheres_touch() {
    let sun = body(0, 0, 0, 5);
    assert_eq!(push_out(v3(3, 0, 0), &sun), v3(6, 0, 0));
    assert_eq!(push_out(v3(0, -1, 0), &sun), v3(0, -6, 0));
    // (0.6, 0.8, 0) and (1/3, 2/3, 2/3) times six, rounded down
    assert_eq!(push_out(v3(3, 4, 0), &sun), raw3(235_926, 314_568, 0));
    assert_eq!(push_out(v3(1, 2, 2), &sun), raw3(131_070, 262_140, 262_140));
    assert_eq!(push_out(v3(11, 0, 0), &body(10, 0, 0, 15)), v3(24, 0, 0));
}

#[test]
fn point_outside_or_at_the_center_stays() {
    let sun = body(0, 0, 0, 5);
    assert_eq!(push_out(v3(6, 0, 0), &sun), v3(6, 0, 0));
    assert_eq!(push_out(v3(0, 0, -40), &sun), v3(0, 0, -40));
    assert_eq!(push_out(v3(0, 0, 0), &sun), v3(0, 0, 0));
    assert_eq!(push_out(v3(7, 7, 7), &body(7, 7, 7, 3)), v3(7, 7, 7));
}

#[test]
fn camera_and_target_are_moved_body_by_body() {
    let bodies = vec![body(0, 0, 0, 5), body(10, 0, 0, 15)];
    // the first body pushes the camera to (6, 0, 0), which lies in the second
    let (eye, target) = avoid_collision(v3(3, 0, 0), v3(0, 0, 50), &bodies);
    let after_first = push_out(v3(3, 0, 0), &bodies[0]);
    assert_eq!(after_first, v3(6, 0, 0));
    assert_eq!(eye, push_out(after_first, &bodies[1]));
    assert_eq!(eye, v3(-4, 0, 0));
    assert_eq!(target, v3(0, 0, 50));
}

#[test]
fn no_bodies_no_change() {
    let (eye, target) = avoid_collision(v3(1, 2, 3), v3(4, 5, 6), &Vec::new());
    assert_eq!(eye, v3(1, 2, 3));
    assert_eq!(target, v3(4, 5, 6));
}

#[test]
fn target_is_moved_like_the_camera() {
    let bodies = vec![body(0, 0, 0, 5)];
    let (eye, target) = avoid_collision(v3(0, 20, 75), v3(0, -1, 0), &bodies);
    assert_eq!(eye, v3(0, 20, 75));
    assert_eq!(target, v3(0, -6, 0));
}

#[test]
fn pushed_points_lie_where_the_spheres_touch() {
    let planet = Body { position: v3(10, -3, 7), scale: Fixed::from_raw(5 * 65_536 + 12_345) };
    let reach: i64 = (5 * 65_536 + 12_345) * 4 / 5 + 131_072;
    let inside = [
        raw3(10 * 65_536 + 1, -3 * 65_536, 7 * 65_536),
        raw3(10 * 65_536 - 1, -3 * 65_536 + 1, 7 * 65_536 + 2),
        raw3(10 * 65_536 + 7, -3 * 65_536 - 300, 7 * 65_536 + 44),
        v3(11, -3, 7),
        v3(12, 0, 5),
        v3(7, -6, 10),
        v3(10, 2, 7),
    ];
    for point in inside {
        let pushed = push_out(point, &planet);
        assert_ne!(pushed, point);
        let moved: i64 = [
            pushed.x.raw - planet.position.x.raw,
            pushed.y.raw - planet.position.y.raw,
            pushed.z.raw - planet.position.z.raw,
        ]
        .iter()
        .map(|c| *c as i64 * *c as i64)
        .sum();
        let slack = reach * reach / 4096 + 6 * reach + 3;
        assert!((moved - reach * reach).abs() <= slack);
        // and a second push leaves it or moves it by rounding only
        let again = push_out(pushed, &planet);
        assert!((again.x.raw - pushed.x.raw).abs() <= 16);
        assert!((again.y.raw - pushed.y.raw).abs() <= 16);
        assert!((again.z.raw - pushed.z.raw).abs() <= 16);
    }
}
