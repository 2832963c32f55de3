use ship::fixed::Fixed;
use ship::fragment::Fragment;
use ship::light::Light;
use ship::barycentric::barycentric_coordinates;
use ship::triangle::{triangle, triangle_lit, LightingMode};
use ship::vector::Vector3;
use ship::vertex::Vertex;

fn n(v: i32) -> Fixed {
    Fixed::from_int(v)
}

fn v3(x: i32, y: i32, z: i32) -> Vector3 {
    Vector3::new(n(x), n(y), n(z))
}

/// A vertex that is already on the screen at `(x, y)` with depth `z`.
fn on_screen(x: i32, y: i32, z: i32) -> Vertex {
    let mut v = Vertex::new(n(x), n(y), n(z));
    v.transformed_normal = v3(0, 0, 1);
    v
}

fn front_light() -> Light {
    Light::new(v3(0, 0, 10))
}

fn pixels_of(fragments: &[Fragment]) -> Vec<(i32, i32)> {
    fragments.iter().map(|f| (f.screen_position.x, f.screen_position.y)).collect()
}

#[test]
fn weights_at_the_vertices() {
    let (a, b, c) = (on_screen(1, 1, 0), on_screen(7, 2, 0), on_screen(3, 9, 0));
    let at_a = barycentric_coordinates(n(1), n(1), &a, &b, &c);
    assert_eq!((at_a.w, at_a.v, at_a.u), (at_a.denominator, 0, 0));
    let at_b = barycentric_coordinates(n(7), n(2), &a, &b, &c);
    assert_eq!((at_b.w, at_b.v, at_b.u), (0, at_b.denominator, 0));
    let at_c = barycentric_coordinates(n(3), n(9), &a, &b, &c);
    assert_eq!((at_c.w, at_c.v, at_c.u), (0, 0, at_c.denominator));
    assert!(at_a.denominator > 0);
    assert!(at_a.covers() && at_b.covers() && at_c.covers());
}

#[test]
fn weights_at_the_centroid_are_thirds() {
    let (a, b, c) = (on_screen(0, 0, 0), on_screen(6, 0, 0), on_screen(0, 9, 0));
    let at = barycentric_coordinates(n(2), n(3), &a, &b, &c);
    assert_eq!(3 * at.w, at.denominator);
    assert_eq!(3 * at.v, at.denominator);
    assert_eq!(3 * at.u, at.denominator);
    // the other orientation
    let at = barycentric_coordinates(n(2), n(3), &a, &c, &b);
    assert!(at.denominator > 0);
    assert_eq!(3 * at.w, at.denominator);
    assert_eq!(3 * at.v, at.denominator);
    assert_eq!(3 * at.u, at.denominator);
}

#[test]
fn weights_are_exact_areas() {
    let (a, b, c) = (on_screen(0, 0, 0), on_screen(4, 0, 0), on_screen(0, 4, 0));
    let unit: i128 = 65_536 * 65_536;
    let at = barycentric_coordinates(n(1), n(2), &a, &b, &c);
    assert_eq!(at.denominator, 16 * unit);
    assert_eq!(at.w, 4 * unit);
    assert_eq!(at.v, 4 * unit);
    assert_eq!(at.u, 8 * unit);
    assert_eq!(at.w + at.v + at.u, at.denominator);
}

#[test]
fn weights_on_an_edge_and_outside() {
    let (a, b, c) = (on_screen(0, 0, 0), on_screen(4, 0, 0), on_screen(0, 4, 0));
    let on_edge = barycentric_coordinates(n(2), n(2), &a, &b, &c);
    assert_eq!(on_edge.w, 0);
    assert!(on_edge.covers());
    let outside = barycentric_coordinates(n(3), n(3), &a, &b, &c);
    assert!(outside.w < 0);
    assert!(!outside.covers());
    let left = barycentric_coordinates(n(-1), n(1), &a, &b, &c);
    assert!(left.v < 0);
    assert!(!left.covers());
    let below = barycentric_coordinates(n(1), n(-1), &a, &b, &c);
    assert!(below.u < 0);
    assert!(!below.covers());
    let just_outside = barycentric_coordinates(
        Fixed::from_raw(-1),
        Fixed::from_raw(65_536),
        &a,
        &b,
        &c,
    );
    assert!(!just_outside.covers());
}

#[test]
fn degenerate_triangle_has_negative_weights_everywhere() {
    let (a, b, c) = (on_screen(0, 0, 0), on_screen(2, 2, 0), on_screen(5, 5, 0));
    for (x, y) in [(0, 0), (2, 2), (1, 1), (3, 0), (-9, 40)] {
        let at = barycentric_coordinates(n(x), n(y), &a, &b, &c);
        assert_eq!((at.w, at.v, at.u, at.denominator), (-1, -1, -1, 1));
        assert!(!at.covers());
    }
}

#[test]
fn interpolation_is_linear_and_rounds_down() {
    let (a, b, c) = (on_screen(0, 0, 0), on_screen(4, 0, 0), on_screen(0, 4, 0));
    let at = barycentric_coordinates(n(1), n(2), &a, &b, &c);
    // weights 1/4, 1/4, 1/2
    assert_eq!(at.interpolate(n(8), n(4), n(2)), n(4));
    assert_eq!(at.interpolate(n(-8), n(-4), n(-2)), n(-4));
    assert_eq!(at.interpolate(Fixed::from_raw(1), n(0), n(0)).raw, 0);
    assert_eq!(at.interpolate(Fixed::from_raw(-1), n(0), n(0)).raw, -1);
    assert_eq!(at.interpolate(n(7), n(7), n(7)), n(7));
}

#[test]
fn collinear_triangle_yields_no_fragments() {
    let light = front_light();
    assert!(triangle(&on_screen(0, 0, 1), &on_screen(3, 3, 1), &on_screen(6, 6, 1), &light)
        .is_empty());
    assert!(triangle(&on_screen(2, 5, 1), &on_screen(2, 5, 1), &on_screen(2, 5, 1), &light)
        .is_empty());
    assert!(triangle(&on_screen(0, 4, 1), &on_screen(9, 4, 1), &on_screen(3, 4, 1), &light)
        .is_empty());
}

#[test]
fn small_triangle_covers_its_closed_area_row_by_row() {
    let fragments = triangle(
        &on_screen(0, 0, 3),
        &on_screen(2, 0, 3),
        &on_screen(0, 2, 3),
        &front_light(),
    );
    assert_eq!(pixels_of(&fragments), vec![(0, 0), (1, 0), (2, 0), (0, 1), (1, 1), (0, 2)]);
    for fragment in &fragments {
        assert_eq!(fragment.depth, n(3));
    }
}

#[test]
fn orientation_does_not_change_coverage() {
    let light = front_light();
    let (a, b, c) = (on_screen(1, 1, 0), on_screen(6, 2, 0), on_screen(3, 7, 0));
    let one = pixels_of(&triangle(&a, &b, &c, &light));
    let other = pixels_of(&triangle(&a, &c, &b, &light));
    assert_eq!(one, other);
    assert!(one.contains(&(1, 1)));
    assert!(one.contains(&(6, 2)));
    assert!(one.contains(&(3, 7)));
    assert!(one.contains(&(3, 3)));
    assert!(!one.contains(&(1, 7)));
    assert!(!one.contains(&(6, 7)));
}

#[test]
fn bounding_box_takes_floor_and_ceiling() {
    // vertices between pixels: the box is 0..=3 on both axes
    let mut a = on_screen(0, 0, 0);
    a.transformed_position = Vector3::new(Fixed::from_raw(32_768), Fixed::from_raw(32_768), n(0));
    let mut b = on_screen(0, 0, 0);
    b.transformed_position = Vector3::new(Fixed::from_raw(163_840), Fixed::from_raw(32_768), n(0));
    let mut c = on_screen(0, 0, 0);
    c.transformed_position = Vector3::new(Fixed::from_raw(32_768), Fixed::from_raw(163_840), n(0));
    let pixels = pixels_of(&triangle(&a, &b, &c, &front_light()));
    // the triangle (0.5, 0.5), (2.5, 0.5), (0.5, 2.5) holds the pixels with x + y <= 3
    assert_eq!(pixels, vec![(1, 1), (2, 1), (1, 2)]);
}

#[test]
fn depth_and_position_are_interpolated() {
    let mut a = on_screen(0, 0, 0);
    let mut b = on_screen(4, 0, 8);
    let mut c = on_screen(0, 4, 16);
    a.position = v3(10, 0, 0);
    b.position = v3(0, 10, 0);
    c.position = v3(0, 0, 10);
    let fragments = triangle(&a, &b, &c, &front_light());
    assert_eq!(fragments.len(), 15);
    let at = |x: i32, y: i32| -> Fragment {
        *fragments
            .iter()
            .find(|f| f.screen_position.x == x && f.screen_position.y == y)
            .unwrap()
    };
    assert_eq!(at(0, 0).depth, n(0));
    assert_eq!(at(4, 0).depth, n(8));
    assert_eq!(at(0, 4).depth, n(16));
    assert_eq!(at(2, 0).depth, n(4));
    assert_eq!(at(1, 1).depth, n(6));
    assert_eq!(at(2, 2).depth, n(12));
    assert_eq!(at(0, 0).world_position, v3(10, 0, 0));
    assert_eq!(at(4, 0).world_position, v3(0, 10, 0));
    assert_eq!(at(0, 4).world_position, v3(0, 0, 10));
    assert_eq!(at(2, 2).world_position, v3(0, 5, 5));
    assert_eq!(
        at(1, 1).world_position,
        Vector3::new(n(5), Fixed::from_raw(163_840), Fixed::from_raw(163_840))
    );
}

#[test]
fn color_is_the_base_color_times_the_light_on_the_first_normal() {
    let (mut a, mut b, c) = (on_screen(0, 0, 0), on_screen(2, 0, 0), on_screen(0, 2, 0));
    // facing the light
    let lit = triangle(&a, &b, &c, &front_light());
    for fragment in &lit {
        assert_eq!(
            fragment.color,
            Vector3::new(n(1), Fixed::from_raw(32_768), Fixed::from_raw(32_768))
        );
    }
    // facing away: no light
    a.transformed_normal = v3(0, 0, -1);
    let dark = triangle(&a, &b, &c, &front_light());
    assert_eq!(dark.len(), 6);
    for fragment in &dark {
        assert_eq!(fragment.color, v3(0, 0, 0));
    }
    // only the first vertex's normal counts
    a.transformed_normal = v3(0, 0, 1);
    b.transformed_normal = v3(0, 0, -1);
    let flat = triangle(&a, &b, &c, &front_light());
    for fragment in &flat {
        assert_eq!(fragment.color.x, n(1));
    }
}

#[test]
fn slanted_light_dims_the_color() {
    let (mut a, b, c) = (on_screen(0, 0, 0), on_screen(2, 0, 0), on_screen(0, 2, 0));
    a.transformed_normal = v3(0, 0, 1);
    // direction (0.6, 0, 0.8), rounded down
    let fragments = triangle(&a, &b, &c, &Light::new(v3(3, 0, 4)));
    for fragment in &fragments {
        assert_eq!(fragment.color.x.raw, 52_428);
        assert_eq!(fragment.color.y.raw, 26_214);
        assert_eq!(fragment.color.z.raw, 26_214);
    }
}

#[test]
fn light_at_the_origin_gives_black() {
    let fragments = triangle(
        &on_screen(0, 0, 0),
        &on_screen(2, 0, 0),
        &on_screen(0, 2, 0),
        &Light::new(v3(0, 0, 0)),
    );
    assert_eq!(fragments.len(), 6);
    for fragment in &fragments {
        assert_eq!(fragment.color, v3(0, 0, 0));
    }
}

#[test]
fn triangles_off_the_positive_quadrant_are_rasterized_too() {
    let fragments = triangle(
        &on_screen(-2, -2, 1),
        &on_screen(0, -2, 1),
        &on_screen(-2, 0, 1),
        &front_light(),
    );
    assert_eq!(
        pixels_of(&fragments),
        vec![(-2, -2), (-1, -2), (0, -2), (-2, -1), (-1, -1), (-2, 0)]
    );
}

#[test]
fn interpolated_depth_stays_between_the_vertex_depths() {
    let (a, b, c) = (on_screen(0, 0, -3), on_screen(9, 1, 40), on_screen(2, 8, 11));
    let fragments = triangle(&a, &b, &c, &front_light());
    assert!(fragments.len() > 20);
    for fragment in &fragments {
        assert!(n(-3).raw <= fragment.depth.raw && fragment.depth.raw <= n(40).raw);
    }
}

#[test]
fn each_covered_pixel_has_one_fragment() {
    let (a, b, c) = (on_screen(0, 0, 0), on_screen(9, 1, 0), on_screen(2, 8, 0));
    let pixels = pixels_of(&triangle(&a, &b, &c, &front_light()));
    let mut sorted = pixels.clone();
    sorted.sort_by_key(|p| (p.1, p.0));
    sorted.dedup();
    assert_eq!(sorted, pixels);
    for y in -1..10 {
        for x in -1..11 {
            let covered = barycentric_coordinates(n(x), n(y), &a, &b, &c).covers();
            assert_eq!(pixels.contains(&(x, y)), covered);
        }
    }
}

#[test]
fn flat_lighting_is_the_plain_rasterizer() {
    let (mut a, b, c) = (on_screen(1, 1, 2), on_screen(7, 2, 4), on_screen(3, 9, 8));
    a.transformed_normal = v3(0, 3, 4).normalized();
    let light = Light::new(v3(0, 0, 2));
    assert_eq!(
        triangle_lit(&a, &b, &c, &light, LightingMode::FlatPerTriangle),
        triangle(&a, &b, &c, &light)
    );
}

#[test]
fn smooth_lighting_interpolates_the_normals() {
    let (a, mut b, c) = (on_screen(0, 0, 0), on_screen(4, 0, 0), on_screen(0, 4, 0));
    b.transformed_normal = v3(1, 0, 0);
    let fragments = triangle_lit(&a, &b, &c, &front_light(), LightingMode::SmoothPerPixel);
    assert_eq!(fragments.len(), 15);
    let at = |x: i32, y: i32| -> Fragment {
        *fragments
            .iter()
            .find(|f| f.screen_position.x == x && f.screen_position.y == y)
            .unwrap()
    };
    let lit = Vector3::new(n(1), Fixed::from_raw(32_768), Fixed::from_raw(32_768));
    assert_eq!(at(0, 0).color, lit);
    assert_eq!(at(0, 4).color, lit);
    assert_eq!(at(0, 2).color, lit);
    assert_eq!(at(4, 0).color, v3(0, 0, 0));
    // half way the normal is (0.5, 0, 0.5), of length 0.7071
    assert_eq!(at(2, 0).color.x.raw, 46_340);
    assert_eq!(at(2, 0).color.y.raw, 23_170);
    assert_eq!(at(2, 2).color.x.raw, 46_340);
}

#[test]
fn smooth_lighting_of_a_degenerate_triangle_yields_nothing() {
    let fragments = triangle_lit(
        &on_screen(0, 0, 1),
        &on_screen(3, 3, 1),
        &on_screen(6, 6, 1),
        &front_light(),
        LightingMode::SmoothPerPixel,
    );
    assert!(fragments.is_empty());
}
