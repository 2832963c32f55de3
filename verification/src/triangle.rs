//! The rasterizer: the fragments of a triangle.
//!
//! A triangle yields one fragment for each pixel of its bounding box that
//! it covers, edges included. Depth and object-space position are
//! interpolated linearly on the screen, without a correction for
//! perspective.

use crate::barycentric::{
    barycentric, barycentric_at_pixel, covers, greatest, in_convex_hull, interpolated,
    interpolation_stays_in_range, least, outside_hull_is_not_covered, signed_area, Barycentric,
    Weights,
};
use crate::fixed::{integer_sqrt_is_unique, Fixed};
use crate::fragment::{Fragment, Pixel};
use crate::light::Light;
use crate::vector::Vector3;
use crate::vertex::Vertex;
use vstd::prelude::*;

verus! {

/// A rectangle of pixels, both bounds included.
pub struct PixelBox {
    pub min_x: int,
    pub min_y: int,
    pub max_x: int,
    pub max_y: int,
}

impl PixelBox {
    /// Number of columns.
    pub open spec fn width(self) -> int {
        self.max_x - self.min_x + 1
    }

    /// Number of rows.
    pub open spec fn height(self) -> int {
        self.max_y - self.min_y + 1
    }

    /// Column of the pixel with the given number, counting row by row.
    pub open spec fn column_of(self, n: int) -> int {
        self.min_x + n % self.width()
    }

    /// Row of the pixel with the given number, counting row by row.
    pub open spec fn row_of(self, n: int) -> int {
        self.min_y + n / self.width()
    }

    /// Whether the pixel lies in the rectangle.
    pub open spec fn contains(self, x: int, y: int) -> bool {
        self.min_x <= x <= self.max_x && self.min_y <= y <= self.max_y
    }
}

/// The pixels from the floor of the least to the ceiling of the greatest
/// coordinate of the three screen positions, on both axes.
pub open spec fn bounding_box(a: Vector3, b: Vector3, c: Vector3) -> PixelBox {
    PixelBox {
        min_x: least(a.x, b.x, c.x) / 65536,
        min_y: least(a.y, b.y, c.y) / 65536,
        max_x: (greatest(a.x, b.x, c.x) + 65535) / 65536,
        max_y: (greatest(a.y, b.y, c.y) + 65535) / 65536,
    }
}

/// How the pixels of a triangle get their normal.
#[derive(Clone, Copy, Debug, PartialEq, Eq, Structural)]
pub enum LightingMode {
    /// The normal of the first vertex lights the whole triangle.
    FlatPerTriangle,
    /// Each pixel is lit by the normal that the three vertex normals
    /// interpolate to, rescaled to unit length.
    SmoothPerPixel,
}

/// The color of every surface before it is lit: (1, 0.5, 0.5).
pub open spec fn base_color() -> Vector3 {
    Vector3 { x: Fixed { raw: 65536 }, y: Fixed { raw: 32768 }, z: Fixed { raw: 32768 } }
}

/// How much light a surface with the given normal receives: the dot
/// product of the normal and the unit direction to the light, or zero
/// where the surface faces away.
pub open spec fn light_intensity(normal: Vector3, light: Light) -> Fixed {
    let facing = normal.spec_dot(light.position.spec_normalized());
    if facing@ > 0 {
        facing
    } else {
        Fixed { raw: 0 }
    }
}

/// The base color, lit.
pub open spec fn lit_color(normal: Vector3, light: Light) -> Vector3 {
    base_color().spec_scaled(light_intensity(normal, light))
}

/// The weights of the pixel `(x, y)`.
pub open spec fn pixel_weights(x: int, y: int, v1: Vertex, v2: Vertex, v3: Vertex) -> Barycentric {
    barycentric(
        x * 65536,
        y * 65536,
        v1.transformed_position,
        v2.transformed_position,
        v3.transformed_position,
    )
}

/// The normal that lights a point with the given weights.
pub open spec fn surface_normal(
    weights: Barycentric,
    v1: Vertex,
    v2: Vertex,
    v3: Vertex,
    mode: LightingMode,
) -> Vector3 {
    match mode {
        LightingMode::FlatPerTriangle => v1.transformed_normal,
        LightingMode::SmoothPerPixel => (Vector3 {
            x: interpolated(
                weights,
                v1.transformed_normal.x,
                v2.transformed_normal.x,
                v3.transformed_normal.x,
            ),
            y: interpolated(
                weights,
                v1.transformed_normal.y,
                v2.transformed_normal.y,
                v3.transformed_normal.y,
            ),
            z: interpolated(
                weights,
                v1.transformed_normal.z,
                v2.transformed_normal.z,
                v3.transformed_normal.z,
            ),
        }).spec_normalized(),
    }
}

/// The fragment of the pixel `(x, y)`: depth and object-space position
/// are interpolated, the color is the base color lit on the surface
/// normal.
pub open spec fn fragment_at(
    x: int,
    y: int,
    v1: Vertex,
    v2: Vertex,
    v3: Vertex,
    light: Light,
    mode: LightingMode,
) -> Fragment {
    let weights = pixel_weights(x, y, v1, v2, v3);
    Fragment {
        screen_position: Pixel { x: x as i32, y: y as i32 },
        world_position: Vector3 {
            x: interpolated(weights, v1.position.x, v2.position.x, v3.position.x),
            y: interpolated(weights, v1.position.y, v2.position.y, v3.position.y),
            z: interpolated(weights, v1.position.z, v2.position.z, v3.position.z),
        },
        color: lit_color(surface_normal(weights, v1, v2, v3, mode), light),
        depth: interpolated(
            weights,
            v1.transformed_position.z,
            v2.transformed_position.z,
            v3.transformed_position.z,
        ),
    }
}

/// The bounding box of a triangle on the screen.
pub open spec fn triangle_box(v1: Vertex, v2: Vertex, v3: Vertex) -> PixelBox {
    bounding_box(v1.transformed_position, v2.transformed_position, v3.transformed_position)
}

/// The fragments of the first `n` pixels of the bounding box, counting
/// row by row: one for each pixel that the triangle covers.
pub open spec fn scanned(
    v1: Vertex,
    v2: Vertex,
    v3: Vertex,
    light: Light,
    mode: LightingMode,
    n: nat,
) -> Seq<Fragment>
    decreases n,
{
    if n == 0 {
        Seq::empty()
    } else {
        let rest = scanned(v1, v2, v3, light, mode, (n - 1) as nat);
        let x = triangle_box(v1, v2, v3).column_of(n - 1);
        let y = triangle_box(v1, v2, v3).row_of(n - 1);
        if covers(pixel_weights(x, y, v1, v2, v3)) {
            rest.push(fragment_at(x, y, v1, v2, v3, light, mode))
        } else {
            rest
        }
    }
}

/// The fragments of a triangle: one for each pixel of its bounding box
/// that it covers, row by row.
pub open spec fn triangle_fragments(
    v1: Vertex,
    v2: Vertex,
    v3: Vertex,
    light: Light,
    mode: LightingMode,
) -> Seq<Fragment> {
    let b = triangle_box(v1, v2, v3);
    scanned(v1, v2, v3, light, mode, (b.width() * b.height()) as nat)
}

fn least_of(a: Fixed, b: Fixed, c: Fixed) -> (r: Fixed)
    ensures
        r@ == least(a, b, c),
{
    a.min(b).min(c)
}

fn greatest_of(a: Fixed, b: Fixed, c: Fixed) -> (r: Fixed)
    ensures
        r@ == greatest(a, b, c),
{
    a.max(b).max(c)
}

/// A pixel's number in its box gives back its column and row.
proof fn lemma_pixel_number(b: PixelBox, x: int, y: int)
    requires
        b.contains(x, y),
    ensures
        (y - b.min_y) * b.width() + (x - b.min_x) >= 0,
        b.column_of((y - b.min_y) * b.width() + (x - b.min_x)) == x,
        b.row_of((y - b.min_y) * b.width() + (x - b.min_x)) == y,
{
    let n = (y - b.min_y) * b.width() + (x - b.min_x);
    assert((y - b.min_y) * b.width() >= 0) by (nonlinear_arith)
        requires
            y - b.min_y >= 0,
            b.width() >= 1,
    ;
    vstd::arithmetic::div_mod::lemma_fundamental_div_mod_converse(
        n,
        b.width(),
        y - b.min_y,
        x - b.min_x,
    );
}

/// Rasterizes a triangle with flat lighting: emits one fragment for each
/// pixel of the bounding box that the closed triangle covers, row by row.
pub fn triangle(v1: &Vertex, v2: &Vertex, v3: &Vertex, light: &Light) -> (fragments: Vec<Fragment>)
    ensures
        fragments@ == triangle_fragments(*v1, *v2, *v3, *light, LightingMode::FlatPerTriangle),
        signed_area(v1.transformed_position, v2.transformed_position, v3.transformed_position)
            == 0 ==> fragments@.len() == 0,
{
    triangle_lit(v1, v2, v3, light, LightingMode::FlatPerTriangle)
}

/// The color of a surface with the given normal under a light from the
/// given unit direction.
fn lit(normal: Vector3, direction: Vector3, light: &Light) -> (color: Vector3)
    requires
        direction == light.position.spec_normalized(),
    ensures
        color == lit_color(normal, *light),
{
    let intensity: Fixed = normal.dot(direction).max(Fixed::zero());
    let base: Vector3 = Vector3::new(
        Fixed::from_raw(65536),
        Fixed::from_raw(32768),
        Fixed::from_raw(32768),
    );
    base.scaled(intensity)
}

/// Rasterizes a triangle: emits one fragment for each pixel of the
/// bounding box that the closed triangle covers, row by row.
pub fn triangle_lit(
    v1: &Vertex,
    v2: &Vertex,
    v3: &Vertex,
    light: &Light,
    mode: LightingMode,
) -> (fragments: Vec<Fragment>)
    ensures
        fragments@ == triangle_fragments(*v1, *v2, *v3, *light, mode),
        signed_area(v1.transformed_position, v2.transformed_position, v3.transformed_position)
            == 0 ==> fragments@.len() == 0,
{
    let mut fragments: Vec<Fragment> = Vec::new();
    let a: Vector3 = v1.transformed_position;
    let b: Vector3 = v2.transformed_position;
    let c: Vector3 = v3.transformed_position;

    let min_x: i32 = least_of(a.x, b.x, c.x).floor();
    let min_y: i32 = least_of(a.y, b.y, c.y).floor();
    let max_x: i32 = greatest_of(a.x, b.x, c.x).ceil();
    let max_y: i32 = greatest_of(a.y, b.y, c.y).ceil();

    let direction: Vector3 = light.position.normalized();
    let flat_color: Vector3 = lit(v1.transformed_normal, direction, light);

    let ghost bounds = triangle_box(*v1, *v2, *v3);
    let ghost width = bounds.width();

    let mut y: i64 = min_y as i64;
    while y <= max_y as i64
        invariant
            bounds == triangle_box(*v1, *v2, *v3),
            width == bounds.width(),
            bounds.min_x == min_x,
            bounds.max_x == max_x,
            bounds.min_y == min_y,
            bounds.max_y == max_y,
            min_x <= max_x,
            min_y <= y <= max_y + 1,
            a == v1.transformed_position,
            b == v2.transformed_position,
            c == v3.transformed_position,
            direction == light.position.spec_normalized(),
            flat_color == lit_color(v1.transformed_normal, *light),
            (y - min_y) * width >= 0,
            fragments@ == scanned(*v1, *v2, *v3, *light, mode, ((y - min_y) * width) as nat),
        decreases max_y + 1 - y,
    {
        let mut x: i64 = min_x as i64;
        while x <= max_x as i64
            invariant
                bounds == triangle_box(*v1, *v2, *v3),
                width == bounds.width(),
                bounds.min_x == min_x,
                bounds.max_x == max_x,
                bounds.min_y == min_y,
                bounds.max_y == max_y,
                min_x <= x <= max_x + 1,
                min_y <= y <= max_y,
                a == v1.transformed_position,
                b == v2.transformed_position,
                c == v3.transformed_position,
                direction == light.position.spec_normalized(),
                flat_color == lit_color(v1.transformed_normal, *light),
                (y - min_y) * width + (x - min_x) >= 0,
                fragments@ == scanned(
                    *v1,
                    *v2,
                    *v3,
                    *light,
                    mode,
                    ((y - min_y) * width + (x - min_x)) as nat,
                ),
            decreases max_x + 1 - x,
        {
            proof {
                lemma_pixel_number(bounds, x as int, y as int);
            }
            let weights: Weights = barycentric_at_pixel(x as i32, y as i32, v1, v2, v3);
            if weights.covers() {
                let depth: Fixed = weights.interpolate(a.z, b.z, c.z);
                let world_position: Vector3 = Vector3::new(
                    weights.interpolate(v1.position.x, v2.position.x, v3.position.x),
                    weights.interpolate(v1.position.y, v2.position.y, v3.position.y),
                    weights.interpolate(v1.position.z, v2.position.z, v3.position.z),
                );
                let final_color: Vector3 = match mode {
                    LightingMode::FlatPerTriangle => flat_color,
                    LightingMode::SmoothPerPixel => {
                        let normal: Vector3 = Vector3::new(
                            weights.interpolate(
                                v1.transformed_normal.x,
                                v2.transformed_normal.x,
                                v3.transformed_normal.x,
                            ),
                            weights.interpolate(
                                v1.transformed_normal.y,
                                v2.transformed_normal.y,
                                v3.transformed_normal.y,
                            ),
                            weights.interpolate(
                                v1.transformed_normal.z,
                                v2.transformed_normal.z,
                                v3.transformed_normal.z,
                            ),
                        );
                        lit(normal.normalized(), direction, light)
                    },
                };
                fragments.push(
                    Fragment::new(x as i32, y as i32, world_position, final_color, depth),
                );
            }
            x = x + 1;
        }
        proof {
            assert((y + 1 - min_y) * width == (y - min_y) * width + width) by (nonlinear_arith);
        }
        y = y + 1;
    }
    proof {
        assert((y - min_y) * width == bounds.width() * bounds.height()) by (nonlinear_arith)
            requires
                y - min_y == bounds.height(),
                width == bounds.width(),
        ;
        if signed_area(a, b, c) == 0 {
            degenerate_triangle_has_no_fragments(*v1, *v2, *v3, *light, mode);
        }
    }
    fragments
}

/// A light at the origin has no direction and leaves every surface
/// black.
pub proof fn light_at_the_origin_is_dark(normal: Vector3, light: Light)
    requires
        light.position.x@ == 0,
        light.position.y@ == 0,
        light.position.z@ == 0,
    ensures
        lit_color(normal, light).x@ == 0,
        lit_color(normal, light).y@ == 0,
        lit_color(normal, light).z@ == 0,
{
    let direction = light.position.spec_normalized();
    assert(direction == light.position) by {
        assert(light.position.squared_length() == 0) by (nonlinear_arith)
            requires
                light.position.squared_length() == light.position.x@ * light.position.x@
                    + light.position.y@ * light.position.y@ + light.position.z@
                    * light.position.z@,
                light.position.x@ == 0,
                light.position.y@ == 0,
                light.position.z@ == 0,
        ;
        integer_sqrt_is_unique(0, 0);
    }
    assert(normal.x@ * 0 + normal.y@ * 0 + normal.z@ * 0 == 0) by (nonlinear_arith);
    assert(light_intensity(normal, light)@ == 0);
    assert((65536 * 0) / 65536 == 0 && (32768 * 0) / 65536 == 0) by (nonlinear_arith);
}

/// A triangle whose three screen positions lie on one line has no
/// fragments.
pub proof fn degenerate_triangle_has_no_fragments(
    v1: Vertex,
    v2: Vertex,
    v3: Vertex,
    light: Light,
    mode: LightingMode,
)
    requires
        signed_area(v1.transformed_position, v2.transformed_position, v3.transformed_position)
            == 0,
    ensures
        triangle_fragments(v1, v2, v3, light, mode).len() == 0,
{
    let b = triangle_box(v1, v2, v3);
    lemma_degenerate_scan(v1, v2, v3, light, mode, (b.width() * b.height()) as nat);
}

proof fn lemma_degenerate_scan(
    v1: Vertex,
    v2: Vertex,
    v3: Vertex,
    light: Light,
    mode: LightingMode,
    n: nat,
)
    requires
        signed_area(v1.transformed_position, v2.transformed_position, v3.transformed_position)
            == 0,
    ensures
        scanned(v1, v2, v3, light, mode, n).len() == 0,
    decreases n,
{
    if n > 0 {
        lemma_degenerate_scan(v1, v2, v3, light, mode, (n - 1) as nat);
    }
}

/// Every fragment of a triangle belongs to a pixel of the bounding box
/// that the triangle covers.
pub proof fn fragments_are_covered_pixels(
    v1: Vertex,
    v2: Vertex,
    v3: Vertex,
    light: Light,
    mode: LightingMode,
    i: int,
)
    requires
        0 <= i < triangle_fragments(v1, v2, v3, light, mode).len(),
    ensures
        exists|x: int, y: int|
            triangle_box(v1, v2, v3).contains(x, y) && covers(pixel_weights(x, y, v1, v2, v3))
                && triangle_fragments(v1, v2, v3, light, mode)[i] == fragment_at(
                x,
                y,
                v1,
                v2,
                v3,
                light,
                mode,
            ),
{
    let b = triangle_box(v1, v2, v3);
    lemma_box_not_empty(v1, v2, v3);
    lemma_scan_sound(v1, v2, v3, light, mode, (b.width() * b.height()) as nat, i);
}

/// Every pixel of the bounding box that the triangle covers has its
/// fragment.
pub proof fn covered_pixels_have_fragments(
    v1: Vertex,
    v2: Vertex,
    v3: Vertex,
    light: Light,
    mode: LightingMode,
    x: int,
    y: int,
)
    requires
        triangle_box(v1, v2, v3).contains(x, y),
        covers(pixel_weights(x, y, v1, v2, v3)),
    ensures
        triangle_fragments(v1, v2, v3, light, mode).contains(
            fragment_at(x, y, v1, v2, v3, light, mode),
        ),
{
    let b = triangle_box(v1, v2, v3);
    lemma_pixel_number(b, x, y);
    let n = (y - b.min_y) * b.width() + (x - b.min_x);
    assert(n + 1 <= b.width() * b.height()) by (nonlinear_arith)
        requires
            n == (y - b.min_y) * b.width() + (x - b.min_x),
            0 <= x - b.min_x < b.width(),
            0 <= y - b.min_y < b.height(),
    ;
    let at = scanned(v1, v2, v3, light, mode, (n + 1) as nat);
    assert(at.last() == fragment_at(x, y, v1, v2, v3, light, mode));
    lemma_scan_grows(v1, v2, v3, light, mode, (n + 1) as nat, (b.width() * b.height()) as nat);
    let all = triangle_fragments(v1, v2, v3, light, mode);
    assert(all[at.len() - 1] == fragment_at(x, y, v1, v2, v3, light, mode));
}

/// The fragments of a triangle whose three vertices have one depth all
/// have that depth.
pub proof fn flat_triangle_has_uniform_depth(
    v1: Vertex,
    v2: Vertex,
    v3: Vertex,
    light: Light,
    mode: LightingMode,
    i: int,
)
    requires
        v1.transformed_position.z == v2.transformed_position.z,
        v1.transformed_position.z == v3.transformed_position.z,
        0 <= i < triangle_fragments(v1, v2, v3, light, mode).len(),
    ensures
        triangle_fragments(v1, v2, v3, light, mode)[i].depth == v1.transformed_position.z,
{
    fragment_depth_is_between_vertex_depths(v1, v2, v3, light, mode, i);
}

/// The depth of every fragment lies between the least and the greatest
/// depth of the three vertices.
pub proof fn fragment_depth_is_between_vertex_depths(
    v1: Vertex,
    v2: Vertex,
    v3: Vertex,
    light: Light,
    mode: LightingMode,
    i: int,
)
    requires
        0 <= i < triangle_fragments(v1, v2, v3, light, mode).len(),
    ensures
        least(v1.transformed_position.z, v2.transformed_position.z, v3.transformed_position.z)
            <= triangle_fragments(v1, v2, v3, light, mode)[i].depth@ <= greatest(
            v1.transformed_position.z,
            v2.transformed_position.z,
            v3.transformed_position.z,
        ),
{
    fragments_are_covered_pixels(v1, v2, v3, light, mode, i);
    let (x, y) = choose|x: int, y: int|
        triangle_box(v1, v2, v3).contains(x, y) && covers(pixel_weights(x, y, v1, v2, v3))
            && triangle_fragments(v1, v2, v3, light, mode)[i] == fragment_at(
            x,
            y,
            v1,
            v2,
            v3,
            light,
            mode,
        );
    interpolation_stays_in_range(
        pixel_weights(x, y, v1, v2, v3),
        v1.transformed_position.z,
        v2.transformed_position.z,
        v3.transformed_position.z,
    );
}

/// A pixel outside the convex hull of the three screen positions has no
/// fragment.
pub proof fn pixel_outside_hull_has_no_fragment(
    v1: Vertex,
    v2: Vertex,
    v3: Vertex,
    light: Light,
    mode: LightingMode,
    pixel: Pixel,
    i: int,
)
    requires
        !in_convex_hull(
            pixel.x * 65536,
            pixel.y * 65536,
            v1.transformed_position,
            v2.transformed_position,
            v3.transformed_position,
        ),
        0 <= i < triangle_fragments(v1, v2, v3, light, mode).len(),
    ensures
        triangle_fragments(v1, v2, v3, light, mode)[i].screen_position != pixel,
{
    fragments_are_covered_pixels(v1, v2, v3, light, mode, i);
    let (x, y) = choose|x: int, y: int|
        triangle_box(v1, v2, v3).contains(x, y) && covers(pixel_weights(x, y, v1, v2, v3))
            && triangle_fragments(v1, v2, v3, light, mode)[i] == fragment_at(
            x,
            y,
            v1,
            v2,
            v3,
            light,
            mode,
        );
    outside_hull_is_not_covered(
        pixel.x * 65536,
        pixel.y * 65536,
        v1.transformed_position,
        v2.transformed_position,
        v3.transformed_position,
    );
    lemma_box_fits(v1, v2, v3);
}

/// The bounding box lies within the pixels that a fragment can name.
proof fn lemma_box_fits(v1: Vertex, v2: Vertex, v3: Vertex)
    ensures
        -32768 <= triangle_box(v1, v2, v3).min_x,
        triangle_box(v1, v2, v3).max_x <= 32768,
        -32768 <= triangle_box(v1, v2, v3).min_y,
        triangle_box(v1, v2, v3).max_y <= 32768,
{
}

proof fn lemma_box_not_empty(v1: Vertex, v2: Vertex, v3: Vertex)
    ensures
        triangle_box(v1, v2, v3).width() >= 1,
        triangle_box(v1, v2, v3).height() >= 1,
{
}

proof fn lemma_scan_sound(
    v1: Vertex,
    v2: Vertex,
    v3: Vertex,
    light: Light,
    mode: LightingMode,
    n: nat,
    i: int,
)
    requires
        n <= triangle_box(v1, v2, v3).width() * triangle_box(v1, v2, v3).height(),
        triangle_box(v1, v2, v3).width() >= 1,
        0 <= i < scanned(v1, v2, v3, light, mode, n).len(),
    ensures
        exists|x: int, y: int|
            triangle_box(v1, v2, v3).contains(x, y) && covers(pixel_weights(x, y, v1, v2, v3))
                && scanned(v1, v2, v3, light, mode, n)[i] == fragment_at(
                x,
                y,
                v1,
                v2,
                v3,
                light,
                mode,
            ),
    decreases n,
{
    let b = triangle_box(v1, v2, v3);
    let rest = scanned(v1, v2, v3, light, mode, (n - 1) as nat);
    if i < rest.len() {
        lemma_scan_sound(v1, v2, v3, light, mode, (n - 1) as nat, i);
    } else {
        let x = b.column_of(n - 1);
        let y = b.row_of(n - 1);
        let k = n - 1;
        assert(0 <= k % b.width() < b.width()) by (nonlinear_arith)
            requires
                b.width() >= 1,
                k >= 0,
        ;
        assert(0 <= k / b.width() < b.height()) by (nonlinear_arith)
            requires
                b.width() >= 1,
                0 <= k < b.width() * b.height(),
        ;
        assert(b.contains(x, y));
        assert(scanned(v1, v2, v3, light, mode, n)[i] == fragment_at(
            x,
            y,
            v1,
            v2,
            v3,
            light,
            mode,
        ));
    }
}

proof fn lemma_scan_grows(
    v1: Vertex,
    v2: Vertex,
    v3: Vertex,
    light: Light,
    mode: LightingMode,
    n: nat,
    m: nat,
)
    requires
        n <= m,
    ensures
        scanned(v1, v2, v3, light, mode, n).is_prefix_of(scanned(v1, v2, v3, light, mode, m)),
    decreases m,
{
    if n < m {
        lemma_scan_grows(v1, v2, v3, light, mode, n, (m - 1) as nat);
    }
}

} // verus!
