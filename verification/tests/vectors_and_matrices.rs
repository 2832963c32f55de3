use ship::fixed::Fixed;
use ship::matrix::{
    create_model_matrix, create_projection_matrix, create_view_matrix, create_viewport_matrix,
    multiply_matrix_vector4, new_matrix3, new_matrix4, Matrix4, Rotation,
};
use ship::vector::{Vector2, Vector3, Vector4};

fn n(v: i32) -> Fixed {
    Fixed::from_int(v)
}

fn v3(x: i32, y: i32, z: i32) -> Vector3 {
    Vector3::new(n(x), n(y), n(z))
}

fn v4(x: i32, y: i32, z: i32, w: i32) -> Vector4 {
    Vector4::new(n(x), n(y), n(z), n(w))
}

fn no_rotation() -> Rotation {
    Rotation {
        sin_x: n(0),
        cos_x: n(1),
        sin_y: n(0),
        cos_y: n(1),
        sin_z: n(0),
        cos_z: n(1),
    }
}

#[test]
fn vector_sums_and_scalings() {
    assert_eq!(v3(1, 2, 3).plus(v3(10, 20, 30)), v3(11, 22, 33));
    assert_eq!(v3(1, 2, 3).minus(v3(10, 20, 30)), v3(-9, -18, -27));
    assert_eq!(v3(1, -2, 3).scaled(n(4)), v3(4, -8, 12));
    assert_eq!(v3(1, -2, 3).scaled(Fixed::from_raw(32_768)).y.raw, -65_536);
    assert_eq!(Vector2::new(n(1), n(2)).y, n(2));
    assert_eq!(Vector3::zero(), v3(0, 0, 0));
}

#[test]
fn dot_products() {
    assert_eq!(v3(1, 2, 3).dot(v3(4, -5, 6)), n(12));
    assert_eq!(v3(1, 0, 0).dot(v3(0, 1, 0)), n(0));
    assert_eq!(v4(1, 2, 3, 4).dot(v4(5, 6, 7, 8)), n(70));
    // one rounding for the whole sum: three products of one half of a unit
    let tiny = Vector3::new(Fixed::from_raw(181), Fixed::from_raw(181), Fixed::from_raw(181));
    assert_eq!(tiny.dot(tiny).raw, 1);
}

#[test]
fn cross_products_follow_the_right_hand() {
    assert_eq!(v3(1, 0, 0).cross(v3(0, 1, 0)), v3(0, 0, 1));
    assert_eq!(v3(0, 1, 0).cross(v3(1, 0, 0)), v3(0, 0, -1));
    assert_eq!(v3(1, 2, 3).cross(v3(4, 5, 6)), v3(-3, 6, -3));
    assert_eq!(v3(2, 2, 2).cross(v3(2, 2, 2)), v3(0, 0, 0));
}

#[test]
fn lengths_and_unit_vectors() {
    assert_eq!(v3(3, 4, 0).length(), n(5));
    assert_eq!(v3(0, 0, 0).length(), n(0));
    let unit = v3(3, 4, 0).normalized();
    assert_eq!(unit.x.raw, 39_321);
    assert_eq!(unit.y.raw, 52_428);
    assert_eq!(unit.z.raw, 0);
    assert_eq!(v3(0, 0, -7).normalized(), v3(0, 0, -1));
    assert_eq!(v3(0, 0, 0).normalized(), v3(0, 0, 0));
    let smallest = Vector3::new(Fixed::from_raw(1), n(0), n(0));
    assert_eq!(smallest.normalized(), v3(1, 0, 0));
    // the shortest diagonal has the direction of every diagonal
    let short = Vector3::new(Fixed::from_raw(1), Fixed::from_raw(1), Fixed::from_raw(1));
    let unit = short.normalized();
    assert_eq!((unit.x.raw, unit.y.raw, unit.z.raw), (37_837, 37_837, 37_837));
    assert_eq!(v3(9, 9, 9).normalized(), unit);
}

#[test]
fn length_of_the_longest_vector_saturates() {
    let far = Fixed::from_raw(i32::MAX);
    assert_eq!(Vector3::new(far, far, far).length().raw, i32::MAX);
}

#[test]
fn points_and_directions() {
    assert_eq!(Vector4::point(v3(1, 2, 3)), v4(1, 2, 3, 1));
    assert_eq!(Vector4::direction(v3(1, 2, 3)), v4(1, 2, 3, 0));
    assert_eq!(v4(1, 2, 3, 4).xyz(), v3(1, 2, 3));
}

#[test]
fn matrix_times_vector() {
    let m = new_matrix4(
        n(1), n(2), n(3), n(4),
        n(5), n(6), n(7), n(8),
        n(9), n(10), n(11), n(12),
        n(13), n(14), n(15), n(16),
    );
    assert_eq!(multiply_matrix_vector4(&m, &v4(1, 0, 0, 0)), v4(1, 5, 9, 13));
    assert_eq!(multiply_matrix_vector4(&m, &v4(0, 0, 0, 1)), v4(4, 8, 12, 16));
    assert_eq!(multiply_matrix_vector4(&m, &v4(1, 1, 1, 1)), v4(10, 26, 42, 58));
    assert_eq!(multiply_matrix_vector4(&m, &v4(1, -1, 2, -2)), v4(-3, -3, -3, -3));
}

#[test]
fn identity_changes_nothing() {
    let v = Vector4::new(
        Fixed::from_raw(-7),
        Fixed::from_raw(i32::MAX),
        n(3),
        Fixed::from_raw(i32::MIN),
    );
    assert_eq!(multiply_matrix_vector4(&Matrix4::identity(), &v), v);
    let m = new_matrix3(n(1), n(2), n(3), n(4), n(5), n(6), n(7), n(8), n(9));
    assert_eq!(Matrix4::identity().product(m), m);
    assert_eq!(m.product(Matrix4::identity()), m);
}

#[test]
fn three_by_three_matrix_is_affine() {
    let m = new_matrix3(n(1), n(2), n(3), n(4), n(5), n(6), n(7), n(8), n(9));
    assert_eq!(m.r0, v4(1, 2, 3, 0));
    assert_eq!(m.r1, v4(4, 5, 6, 0));
    assert_eq!(m.r2, v4(7, 8, 9, 0));
    assert_eq!(m.r3, v4(0, 0, 0, 1));
}

#[test]
fn matrix_products_are_rows_times_columns() {
    let a = new_matrix4(
        n(1), n(2), n(0), n(0),
        n(0), n(1), n(0), n(0),
        n(0), n(0), n(1), n(3),
        n(0), n(0), n(0), n(1),
    );
    let b = new_matrix4(
        n(2), n(0), n(0), n(1),
        n(1), n(1), n(0), n(0),
        n(0), n(0), n(2), n(0),
        n(0), n(0), n(1), n(1),
    );
    let ab = a.product(b);
    assert_eq!(ab.r0, v4(4, 2, 0, 1));
    assert_eq!(ab.r1, v4(1, 1, 0, 0));
    assert_eq!(ab.r2, v4(0, 0, 5, 3));
    assert_eq!(ab.r3, v4(0, 0, 1, 1));
    let ba = b.product(a);
    assert_eq!(ba.r0, v4(2, 4, 0, 1));
}

#[test]
fn model_matrix_scales_the_translation_too() {
    let m = create_model_matrix(v3(1, 2, 3), n(2), no_rotation());
    assert_eq!(m.r0, v4(2, 0, 0, 2));
    assert_eq!(m.r1, v4(0, 2, 0, 4));
    assert_eq!(m.r2, v4(0, 0, 2, 6));
    assert_eq!(m.r3, v4(0, 0, 0, 1));
    assert_eq!(multiply_matrix_vector4(&m, &v4(1, 1, 1, 1)), v4(4, 6, 8, 1));
}

#[test]
fn model_matrix_rotates_about_x_then_y_then_z() {
    // a quarter turn about X, then a quarter turn about Z
    let rotation = Rotation {
        sin_x: n(1),
        cos_x: n(0),
        sin_y: n(0),
        cos_y: n(1),
        sin_z: n(1),
        cos_z: n(0),
    };
    let m = create_model_matrix(v3(0, 0, 0), n(1), rotation);
    // Y goes to Z about X, and Z stays about Z
    assert_eq!(multiply_matrix_vector4(&m, &v4(0, 1, 0, 1)), v4(0, 0, 1, 1));
    // X stays about X, and goes to Y about Z
    assert_eq!(multiply_matrix_vector4(&m, &v4(1, 0, 0, 1)), v4(0, 1, 0, 1));
    // Z goes to -Y about X, and -Y goes to X about Z
    assert_eq!(multiply_matrix_vector4(&m, &v4(0, 0, 1, 1)), v4(1, 0, 0, 1));
}

#[test]
fn model_matrix_rotates_about_y() {
    let rotation = Rotation {
        sin_x: n(0),
        cos_x: n(1),
        sin_y: n(1),
        cos_y: n(0),
        sin_z: n(0),
        cos_z: n(1),
    };
    let m = create_model_matrix(v3(5, 0, 0), n(1), rotation);
    assert_eq!(multiply_matrix_vector4(&m, &v4(0, 0, 1, 1)), v4(6, 0, 0, 1));
    assert_eq!(multiply_matrix_vector4(&m, &v4(1, 0, 0, 1)), v4(5, 0, -1, 1));
}

#[test]
fn view_matrix_looks_down_the_negative_z_axis() {
    let m = create_view_matrix(v3(0, 0, 5), v3(0, 0, 0), v3(0, 1, 0));
    assert_eq!(m.r0, v4(1, 0, 0, 0));
    assert_eq!(m.r1, v4(0, 1, 0, 0));
    assert_eq!(m.r2, v4(0, 0, 1, -5));
    assert_eq!(m.r3, v4(0, 0, 0, 1));
    assert_eq!(multiply_matrix_vector4(&m, &v4(0, 0, 5, 1)), v4(0, 0, 0, 1));
    assert_eq!(multiply_matrix_vector4(&m, &v4(0, 0, 0, 1)), v4(0, 0, -5, 1));
}

#[test]
fn view_matrix_from_the_side() {
    let m = create_view_matrix(v3(4, 0, 0), v3(0, 0, 0), v3(0, 1, 0));
    // forward is -X, right is -Z, up is Y
    assert_eq!(m.r0, v4(0, 0, -1, 0));
    assert_eq!(m.r1, v4(0, 1, 0, 0));
    assert_eq!(m.r2, v4(1, 0, 0, -4));
    assert_eq!(multiply_matrix_vector4(&m, &v4(0, 0, 0, 1)), v4(0, 0, -4, 1));
}

#[test]
fn projection_matrix_entries() {
    let m = create_projection_matrix(n(1), n(1), n(1), n(3));
    assert_eq!(m.r0, v4(1, 0, 0, 0));
    assert_eq!(m.r1, v4(0, 1, 0, 0));
    assert_eq!(m.r2, v4(0, 0, -2, -3));
    assert_eq!(m.r3, v4(0, 0, -1, 0));
    // the near plane goes to -1 and the far plane to 1 after the division
    let near = multiply_matrix_vector4(&m, &v4(0, 0, -1, 1));
    assert_eq!(near.z.saturating_div(near.w), n(-1));
    let far = multiply_matrix_vector4(&m, &v4(0, 0, -3, 1));
    assert_eq!(far.z.saturating_div(far.w), n(1));
}

#[test]
fn projection_matrix_with_field_of_view_and_aspect() {
    let m = create_projection_matrix(Fixed::from_raw(32_768), n(2), n(1), n(3));
    assert_eq!(m.r0, v4(1, 0, 0, 0));
    assert_eq!(m.r1, v4(0, 2, 0, 0));
}

#[test]
fn degenerate_projection_saturates() {
    let m = create_projection_matrix(n(0), n(1), n(2), n(2));
    assert_eq!(m.r1.y.raw, i32::MAX);
    assert_eq!(m.r0.x.raw, i32::MAX);
    assert_eq!(m.r2.z.raw, i32::MAX);
    assert_eq!(m.r2.w.raw, i32::MAX);
    assert_eq!(m.r3, v4(0, 0, -1, 0));
}

#[test]
fn viewport_matrix_flips_the_y_axis() {
    let m = create_viewport_matrix(n(0), n(0), n(10), n(10));
    assert_eq!(m.r0, v4(5, 0, 0, 5));
    assert_eq!(m.r1, v4(0, -5, 0, 5));
    assert_eq!(m.r2, v4(0, 0, 1, 0));
    assert_eq!(m.r3, v4(0, 0, 0, 1));
    assert_eq!(multiply_matrix_vector4(&m, &v4(-1, 1, 7, 1)), v4(0, 0, 7, 1));
    assert_eq!(multiply_matrix_vector4(&m, &v4(1, -1, 7, 1)), v4(10, 10, 7, 1));
    assert_eq!(multiply_matrix_vector4(&m, &v4(0, 0, 0, 1)), v4(5, 5, 0, 1));
}

#[test]
fn viewport_matrix_with_an_origin() {
    let m = create_viewport_matrix(n(100), n(50), n(1300), n(900));
    assert_eq!(multiply_matrix_vector4(&m, &v4(-1, 1, 0, 1)), v4(100, 50, 0, 1));
    assert_eq!(multiply_matrix_vector4(&m, &v4(1, -1, 0, 1)), v4(1400, 950, 0, 1));
}

#[test]
fn translation_and_scale_matrices_move_and_stretch_points() {
    let t = create_model_matrix(v3(3, -4, 5), n(1), no_rotation());
    for p in [v3(0, 0, 0), v3(1, 2, 3), v3(-7, 7, 100)] {
        let moved = multiply_matrix_vector4(&t, &Vector4::point(p));
        assert_eq!(moved, Vector4::point(p.plus(v3(3, -4, 5))));
    }
    let s = create_model_matrix(v3(0, 0, 0), Fixed::from_raw(98_304), no_rotation());
    for p in [v3(0, 0, 0), v3(1, 2, 3), v3(-7, 7, 100)] {
        let stretched = multiply_matrix_vector4(&s, &Vector4::point(p));
        assert_eq!(stretched, Vector4::point(p.scaled(Fixed::from_raw(98_304))));
    }
}

#[test]
fn view_matrix_takes_the_eye_to_the_origin() {
    let cases = [
        (v3(3, 4, 5), v3(1, -2, 0), v3(0, 1, 0)),
        (v3(0, 20, 75), v3(0, 0, 0), v3(0, 1, 0)),
        (v3(-700, 13, 2), v3(5, 5, 5), v3(0, 0, -1)),
        (v3(1, 1, 1), v3(1, 1, 1), v3(0, 1, 0)),
    ];
    for (eye, target, up) in cases {
        let m = create_view_matrix(eye, target, up);
        let at = multiply_matrix_vector4(&m, &Vector4::point(eye));
        assert_eq!(at.x, n(0));
        assert_eq!(at.y, n(0));
        assert!(at.z.raw == 0 || at.z.raw == -1);
        assert_eq!(at.w, n(1));
    }
}

#[test]
fn unit_vectors_have_components_up_to_one() {
    let far = Fixed::from_raw(i32::MAX);
    let near = Fixed::from_raw(i32::MIN);
    for v in [v3(3, 4, 12), Vector3::new(far, near, n(0)), Vector3::new(near, near, near)] {
        let unit = v.normalized();
        for c in [unit.x, unit.y, unit.z] {
            assert!(-65_536 <= c.raw && c.raw <= 65_536);
        }
    }
    assert_eq!(v3(3, 4, 12).normalized().length().raw, 65_534);
}

fn raw3(x: i32, y: i32, z: i32) -> Vector3 {
    Vector3::new(Fixed::from_raw(x), Fixed::from_raw(y), Fixed::from_raw(z))
}

#[test]
fn unit_vectors_have_the_length_one() {
    let mut vectors = vec![
        raw3(1, 1, 1),
        raw3(-1, 0, 0),
        raw3(2, -3, 1),
        raw3(i32::MAX, i32::MIN, 7),
        raw3(i32::MIN, i32::MIN, i32::MIN),
        v3(3, 4, 12),
        v3(-700, 13, 2),
    ];
    for a in -3..4 {
        vectors.push(raw3(a, 5 - a, a * a));
    }
    for v in vectors {
        let unit = v.normalized();
        let squares: i64 =
            [unit.x, unit.y, unit.z].iter().map(|c| c.raw as i64 * c.raw as i64).sum();
        assert!(((1i64 << 32) - squares).abs() <= 1 << 20);
    }
}
