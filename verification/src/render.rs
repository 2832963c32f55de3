//! A draw call, stage by stage: transform the vertices, assemble and
//! rasterize the triangles, then composite the fragments.

use crate::fixed::Fixed;
use crate::fragment::{Fragment, Pixel};
use crate::framebuffer::{color_of, Color, Frame, Framebuffer};
use crate::light::Light;
use crate::matrix::Matrix4;
use crate::shaders::{fragment_shader, project, projected, transformed, vertex_shader};
use crate::triangle::{triangle_fragments, triangle_lit, LightingMode};
use crate::uniforms::Uniforms;
use crate::vector::{Vector3, Vector4};
use crate::vertex::Vertex;
use crate::writes::{
    goes_to, line_is_a_sequence_of_writes, line_writes, put_all, put_first, writes_in_a_row,
    writes_keep_the_nearest, writing_twice_changes_nothing, Write,
};
use vstd::prelude::*;

verus! {

/// Raw value of the depth of an orbit guide, the number 1000: behind
/// every body.
pub const ORBIT_DEPTH: i32 = 65_536_000;

/// Every vertex of a mesh, transformed.
pub open spec fn transformed_all(vertex_array: Seq<Vertex>, uniforms: Uniforms) -> Seq<Vertex> {
    Seq::new(vertex_array.len(), |i: int| transformed(vertex_array[i], uniforms))
}

/// The fragments of the first `n` triangles of a mesh; three vertices in
/// a row make one triangle.
pub open spec fn assembled(
    vertices: Seq<Vertex>,
    light: Light,
    mode: LightingMode,
    n: nat,
) -> Seq<Fragment>
    decreases n,
{
    if n == 0 {
        Seq::empty()
    } else {
        assembled(vertices, light, mode, (n - 1) as nat) + triangle_fragments(
            vertices[3 * (n - 1)],
            vertices[3 * (n - 1) + 1],
            vertices[3 * (n - 1) + 2],
            light,
            mode,
        )
    }
}

/// The fragments of all whole triangles of a mesh, triangle by triangle;
/// one or two vertices that are left at the end make none.
pub open spec fn mesh_fragments(
    vertices: Seq<Vertex>,
    light: Light,
    mode: LightingMode,
) -> Seq<Fragment> {
    assembled(vertices, light, mode, (vertices.len() / 3) as nat)
}

/// The fragments of a draw call, before they are shaded.
pub open spec fn draw_call_fragments(
    uniforms: Uniforms,
    vertex_array: Seq<Vertex>,
    light: Light,
    mode: LightingMode,
) -> Seq<Fragment> {
    mesh_fragments(transformed_all(vertex_array, uniforms), light, mode)
}

/// The frame after depth-tested writes of the first `n` fragments, each
/// with its own color and depth.
pub open spec fn composited_prefix(frame: Frame, fragments: Seq<Fragment>, n: nat) -> Frame
    decreases n,
{
    if n == 0 {
        frame
    } else {
        composited_prefix(frame, fragments, (n - 1) as nat).put(
            fragments[n - 1].screen_position.x as int,
            fragments[n - 1].screen_position.y as int,
            color_of(fragments[n - 1].color),
            fragments[n - 1].depth,
        )
    }
}

/// The frame after depth-tested writes of all fragments, in order.
pub open spec fn composited(frame: Frame, fragments: Seq<Fragment>) -> Frame {
    composited_prefix(frame, fragments, fragments.len())
}

/// The pixel that shows a point of world space: its screen coordinates,
/// each cut to its whole part.
pub open spec fn screen_pixel(
    point: Vector3,
    view_matrix: Matrix4,
    projection_matrix: Matrix4,
    viewport_matrix: Matrix4,
) -> Pixel {
    let screen = projected(
        Vector4::spec_point(point),
        view_matrix,
        projection_matrix,
        viewport_matrix,
    );
    Pixel { x: screen.x.whole_part() as i32, y: screen.y.whole_part() as i32 }
}

/// The frame after the first `n` segments of a closed polyline were
/// drawn at the orbit depth: segment `k` joins the pixels of point `k`
/// and of the point after it, and the last one returns to the first.
pub open spec fn polyline_drawn(frame: Frame, pixels: Seq<Pixel>, color: Color, n: nat) -> Frame
    decreases n,
{
    if n == 0 {
        frame
    } else {
        polyline_drawn(frame, pixels, color, (n - 1) as nat).put_line(
            pixels[n - 1].x as int,
            pixels[n - 1].y as int,
            pixels[(n as int) % (pixels.len() as int)].x as int,
            pixels[(n as int) % (pixels.len() as int)].y as int,
            color,
            Fixed { raw: 65_536_000 },
        )
    }
}

/// The pixels of the points of an orbit.
pub open spec fn orbit_pixels(
    ring: Seq<Vector3>,
    view_matrix: Matrix4,
    projection_matrix: Matrix4,
    viewport_matrix: Matrix4,
) -> Seq<Pixel> {
    Seq::new(
        ring.len(),
        |i: int| screen_pixel(ring[i], view_matrix, projection_matrix, viewport_matrix),
    )
}

/// The transform stage for a whole mesh.
pub fn transform_vertices(vertex_array: &Vec<Vertex>, uniforms: &Uniforms) -> (transformed_vertices:
    Vec<Vertex>)
    ensures
        transformed_vertices@ == transformed_all(vertex_array@, *uniforms),
{
    let mut transformed_vertices: Vec<Vertex> = Vec::new();
    let mut i: usize = 0;
    while i < vertex_array.len()
        invariant
            i <= vertex_array.len(),
            transformed_vertices@.len() == i,
            forall|k: int|
                0 <= k < i ==> transformed_vertices@[k] == transformed(vertex_array@[k], *uniforms),
        decreases vertex_array.len() - i,
    {
        transformed_vertices.push(vertex_shader(&vertex_array[i], uniforms));
        i = i + 1;
    }
    assert(transformed_vertices@ =~= transformed_all(vertex_array@, *uniforms));
    transformed_vertices
}

/// Primitive assembly and rasterization: groups every three vertices
/// into a triangle and collects the fragments of all of them.
pub fn rasterize_triangles(vertices: &Vec<Vertex>, light: &Light, mode: LightingMode) -> (fragments:
    Vec<Fragment>)
    ensures
        fragments@ == mesh_fragments(vertices@, *light, mode),
{
    let mut fragments: Vec<Fragment> = Vec::new();
    let count: usize = vertices.len() / 3;
    let mut t: usize = 0;
    while t < count
        invariant
            t <= count,
            count == vertices.len() / 3,
            fragments@ == assembled(vertices@, *light, mode, t as nat),
        decreases count - t,
    {
        let mut covered: Vec<Fragment> = triangle_lit(
            &vertices[3 * t],
            &vertices[3 * t + 1],
            &vertices[3 * t + 2],
            light,
            mode,
        );
        fragments.append(&mut covered);
        t = t + 1;
    }
    fragments
}

/// The first three stages of a draw call: the fragments of a mesh, each
/// with the color that the rasterizer lit it with.
pub fn draw_fragments(
    uniforms: &Uniforms,
    vertex_array: &Vec<Vertex>,
    light: &Light,
    mode: LightingMode,
) -> (fragments: Vec<Fragment>)
    ensures
        fragments@ == draw_call_fragments(*uniforms, vertex_array@, *light, mode),
{
    let transformed_vertices: Vec<Vertex> = transform_vertices(vertex_array, uniforms);
    rasterize_triangles(&transformed_vertices, light, mode)
}

/// The last stage of a draw call: writes every fragment to its pixel,
/// with its color and at its depth.
pub fn composite(framebuffer: &mut Framebuffer, fragments: &Vec<Fragment>)
    requires
        old(framebuffer).wf(),
    ensures
        final(framebuffer).wf(),
        final(framebuffer)@ == composited(old(framebuffer)@, fragments@),
{
    let mut i: usize = 0;
    while i < fragments.len()
        invariant
            i <= fragments.len(),
            framebuffer.wf(),
            framebuffer@ == composited_prefix(old(framebuffer)@, fragments@, i as nat),
        decreases fragments.len() - i,
    {
        let fragment: Fragment = fragments[i];
        framebuffer.write_pixel_with_depth(
            fragment.screen_position.x,
            fragment.screen_position.y,
            Color::from_vector(fragment.color),
            fragment.depth,
        );
        i = i + 1;
    }
}

/// A draw call with flat lighting and the default shader: transforms the
/// mesh, rasterizes its triangles and composites the fragments as they
/// were lit.
pub fn render(
    framebuffer: &mut Framebuffer,
    uniforms: &Uniforms,
    vertex_array: &Vec<Vertex>,
    light: &Light,
)
    requires
        old(framebuffer).wf(),
    ensures
        final(framebuffer).wf(),
        final(framebuffer)@ == composited(
            old(framebuffer)@,
            draw_call_fragments(*uniforms, vertex_array@, *light, LightingMode::FlatPerTriangle),
        ),
{
    let fragments: Vec<Fragment> = draw_fragments(
        uniforms,
        vertex_array,
        light,
        LightingMode::FlatPerTriangle,
    );
    let mut i: usize = 0;
    while i < fragments.len()
        invariant
            i <= fragments.len(),
            framebuffer.wf(),
            framebuffer@ == composited_prefix(old(framebuffer)@, fragments@, i as nat),
        decreases fragments.len() - i,
    {
        let fragment: Fragment = fragments[i];
        let final_color: Vector3 = fragment_shader(&fragment, uniforms);
        framebuffer.write_pixel_with_depth(
            fragment.screen_position.x,
            fragment.screen_position.y,
            Color::from_vector(final_color),
            fragment.depth,
        );
        i = i + 1;
    }
}

/// Draws an orbit as a closed polyline through the given points of world
/// space, at a depth behind every body.
pub fn draw_orbit_3d(
    framebuffer: &mut Framebuffer,
    ring: &Vec<Vector3>,
    orbit_color: Color,
    view_matrix: &Matrix4,
    projection_matrix: &Matrix4,
    viewport_matrix: &Matrix4,
)
    requires
        old(framebuffer).wf(),
    ensures
        final(framebuffer).wf(),
        final(framebuffer)@ == polyline_drawn(
            old(framebuffer)@,
            orbit_pixels(ring@, *view_matrix, *projection_matrix, *viewport_matrix),
            orbit_color,
            ring@.len(),
        ),
{
    let ghost pixels = orbit_pixels(ring@, *view_matrix, *projection_matrix, *viewport_matrix);
    let mut screen: Vec<Pixel> = Vec::new();
    let mut i: usize = 0;
    while i < ring.len()
        invariant
            i <= ring.len(),
            screen@.len() == i,
            pixels == orbit_pixels(ring@, *view_matrix, *projection_matrix, *viewport_matrix),
            forall|k: int| 0 <= k < i ==> screen@[k] == pixels[k],
        decreases ring.len() - i,
    {
        let position: Vector3 = project(
            &Vector4::point(ring[i]),
            view_matrix,
            projection_matrix,
            viewport_matrix,
        );
        screen.push(Pixel { x: position.x.truncate(), y: position.y.truncate() });
        i = i + 1;
    }
    assert(screen@ =~= pixels);
    let depth: Fixed = Fixed::from_raw(ORBIT_DEPTH);
    let mut k: usize = 0;
    while k < screen.len()
        invariant
            k <= screen.len(),
            screen@ == pixels,
            depth == (Fixed { raw: 65_536_000 }),
            framebuffer.wf(),
            framebuffer@ == polyline_drawn(old(framebuffer)@, pixels, orbit_color, k as nat),
        decreases screen.len() - k,
    {
        let next: usize = if k + 1 == screen.len() {
            0
        } else {
            k + 1
        };
        assert(next == (k + 1) % (screen@.len() as int)) by {
            if k + 1 == screen@.len() {
                vstd::arithmetic::div_mod::lemma_mod_self_0(screen@.len() as int);
            } else {
                vstd::arithmetic::div_mod::lemma_small_mod((k + 1) as nat, screen@.len());
            }
        }
        let from: Pixel = screen[k];
        let to: Pixel = screen[next];
        framebuffer.draw_line_with_depth(from.x, from.y, to.x, to.y, orbit_color, depth);
        k = k + 1;
    }
}

/// The fragments as writes: each to its pixel, with its color and at its
/// depth.
pub open spec fn fragment_writes(fragments: Seq<Fragment>) -> Seq<Write> {
    Seq::new(
        fragments.len(),
        |k: int|
            Write {
                x: fragments[k].screen_position.x as int,
                y: fragments[k].screen_position.y as int,
                color: color_of(fragments[k].color),
                depth: fragments[k].depth,
            },
    )
}

/// The writes of the first `n` segments of a closed polyline.
pub open spec fn polyline_writes(pixels: Seq<Pixel>, color: Color, n: nat) -> Seq<Write>
    decreases n,
{
    if n == 0 {
        Seq::empty()
    } else {
        polyline_writes(pixels, color, (n - 1) as nat) + line_writes(
            pixels[n - 1].x as int,
            pixels[n - 1].y as int,
            pixels[(n as int) % (pixels.len() as int)].x as int,
            pixels[(n as int) % (pixels.len() as int)].y as int,
            color,
            Fixed { raw: 65_536_000 },
        )
    }
}

/// Whether the fragment lands on the pixel with the given place in the
/// buffers.
pub open spec fn lands_on(frame: Frame, fragment: Fragment, i: int) -> bool {
    frame.in_bounds(fragment.screen_position.x as int, fragment.screen_position.y as int)
        && frame.index(fragment.screen_position.x as int, fragment.screen_position.y as int) == i
}

/// Compositing fragments is writing them one by one.
pub proof fn compositing_is_a_sequence_of_writes(frame: Frame, fragments: Seq<Fragment>)
    ensures
        composited(frame, fragments) == put_all(frame, fragment_writes(fragments)),
{
    lemma_composited_prefix_is_writes(frame, fragments, fragments.len());
}

proof fn lemma_composited_prefix_is_writes(frame: Frame, fragments: Seq<Fragment>, n: nat)
    requires
        n <= fragments.len(),
    ensures
        composited_prefix(frame, fragments, n) == put_first(
            frame,
            fragment_writes(fragments),
            n,
        ),
    decreases n,
{
    if n > 0 {
        lemma_composited_prefix_is_writes(frame, fragments, (n - 1) as nat);
    }
}

/// Drawing a closed polyline is writing the pixels of its segments.
pub proof fn orbit_is_a_sequence_of_writes(frame: Frame, pixels: Seq<Pixel>, color: Color, n: nat)
    ensures
        polyline_drawn(frame, pixels, color, n) == put_all(
            frame,
            polyline_writes(pixels, color, n),
        ),
    decreases n,
{
    if n > 0 {
        orbit_is_a_sequence_of_writes(frame, pixels, color, (n - 1) as nat);
        let before = polyline_writes(pixels, color, (n - 1) as nat);
        let (x0, y0) = (pixels[n - 1].x as int, pixels[n - 1].y as int);
        let (x1, y1) = (
            pixels[(n as int) % (pixels.len() as int)].x as int,
            pixels[(n as int) % (pixels.len() as int)].y as int,
        );
        let depth = Fixed { raw: 65_536_000 };
        line_is_a_sequence_of_writes(put_all(frame, before), x0, y0, x1, y1, color, depth);
        writes_in_a_row(frame, before, line_writes(x0, y0, x1, y1, color, depth));
    }
}

/// The depth buffer holds the nearest depth: after any fragments were
/// composited, no pixel is farther than it was or than any fragment that
/// landed on it, and it holds either what it held before or the color and
/// the depth of one of those fragments.
pub proof fn composited_pixel_is_nearest(frame: Frame, fragments: Seq<Fragment>, i: int)
    requires
        frame.wf(),
        0 <= i < frame.width * frame.height,
    ensures
        composited(frame, fragments).wf(),
        composited(frame, fragments).width == frame.width,
        composited(frame, fragments).height == frame.height,
        composited(frame, fragments).depths[i]@ <= frame.depths[i]@,
        forall|k: int|
            0 <= k < fragments.len() && lands_on(frame, #[trigger] fragments[k], i) ==> composited(
                frame,
                fragments,
            ).depths[i]@ <= fragments[k].depth@,
        (composited(frame, fragments).depths[i] == frame.depths[i] && composited(
            frame,
            fragments,
        ).colors[i] == frame.colors[i]) || (exists|k: int|
            0 <= k < fragments.len() && lands_on(frame, #[trigger] fragments[k], i) && composited(
                frame,
                fragments,
            ).depths[i] == fragments[k].depth && composited(frame, fragments).colors[i]
                == color_of(fragments[k].color)),
{
    let writes = fragment_writes(fragments);
    let after = composited(frame, fragments);
    compositing_is_a_sequence_of_writes(frame, fragments);
    writes_keep_the_nearest(frame, writes, i);
    assert forall|k: int|
        0 <= k < fragments.len() && lands_on(
            frame,
            #[trigger] fragments[k],
            i,
        ) implies after.depths[i]@ <= fragments[k].depth@ by {
        assert(goes_to(frame, writes[k], i));
    }
    if !(after.depths[i] == frame.depths[i] && after.colors[i] == frame.colors[i]) {
        let k = choose|k: int|
            0 <= k < writes.len() && goes_to(frame, #[trigger] writes[k], i) && after.depths[i]
                == writes[k].depth && after.colors[i] == writes[k].color;
        assert(0 <= k < fragments.len() && lands_on(frame, fragments[k], i) && after.depths[i]
            == fragments[k].depth && after.colors[i] == color_of(fragments[k].color));
    }
}

/// Compositing the same fragments a second time changes nothing: every
/// pixel already holds a depth that none of them is nearer than.
pub proof fn compositing_is_idempotent(frame: Frame, fragments: Seq<Fragment>)
    requires
        frame.wf(),
    ensures
        composited(composited(frame, fragments), fragments) == composited(frame, fragments),
{
    compositing_is_a_sequence_of_writes(frame, fragments);
    compositing_is_a_sequence_of_writes(composited(frame, fragments), fragments);
    writing_twice_changes_nothing(frame, fragment_writes(fragments));
}

/// Drawing the same orbit a second time changes nothing.
pub proof fn drawing_an_orbit_twice_changes_nothing(
    frame: Frame,
    pixels: Seq<Pixel>,
    color: Color,
)
    requires
        frame.wf(),
    ensures
        polyline_drawn(
            polyline_drawn(frame, pixels, color, pixels.len()),
            pixels,
            color,
            pixels.len(),
        ) == polyline_drawn(frame, pixels, color, pixels.len()),
{
    let n = pixels.len();
    orbit_is_a_sequence_of_writes(frame, pixels, color, n);
    orbit_is_a_sequence_of_writes(polyline_drawn(frame, pixels, color, n), pixels, color, n);
    writing_twice_changes_nothing(frame, polyline_writes(pixels, color, n));
}

} // verus!
