//! The transform stage and the selection of a fragment shader.

use crate::fragment::Fragment;
use crate::matrix::{identity_apply, identity_matrix, multiply_matrix_vector4, Matrix4};
use crate::uniforms::Uniforms;
use crate::vector::{unit_vector_has_unit_length, Vector3, Vector4};
use crate::vertex::Vertex;
use vstd::prelude::*;
use vstd::string::StrSliceExecFns;

verus! {

/// Clip-space coordinates divided by `w`; where `w` is zero they stay
/// undivided.
pub open spec fn perspective_divide(clip: Vector4) -> Vector3 {
    if clip.w@ != 0 {
        Vector3 { x: clip.x.over(clip.w), y: clip.y.over(clip.w), z: clip.z.over(clip.w) }
    } else {
        clip.spec_xyz()
    }
}

/// Screen coordinates of a point that is given in world space: the view
/// and projection matrices, the division by `w`, then the viewport
/// matrix.
pub open spec fn projected(
    world: Vector4,
    view_matrix: Matrix4,
    projection_matrix: Matrix4,
    viewport_matrix: Matrix4,
) -> Vector3 {
    let clip = projection_matrix.spec_apply(view_matrix.spec_apply(world));
    viewport_matrix.spec_apply(Vector4::spec_point(perspective_divide(clip))).spec_xyz()
}

/// Screen coordinates of an object-space position.
pub open spec fn screen_position(position: Vector3, uniforms: Uniforms) -> Vector3 {
    projected(
        uniforms.model_matrix.spec_apply(Vector4::spec_point(position)),
        uniforms.view_matrix,
        uniforms.projection_matrix,
        uniforms.viewport_matrix,
    )
}

/// A normal as the model matrix turns it, rescaled to unit length.
pub open spec fn world_normal(normal: Vector3, model_matrix: Matrix4) -> Vector3 {
    model_matrix.spec_apply(Vector4::spec_direction(normal)).spec_xyz().spec_normalized()
}

/// The vertex with its two derived fields filled in.
pub open spec fn transformed(vertex: Vertex, uniforms: Uniforms) -> Vertex {
    Vertex {
        position: vertex.position,
        normal: vertex.normal,
        tex_coords: vertex.tex_coords,
        color: vertex.color,
        transformed_position: screen_position(vertex.position, uniforms),
        transformed_normal: world_normal(vertex.normal, uniforms.model_matrix),
    }
}

/// Transforms a normal as a direction by the model matrix and rescales it
/// to unit length.
pub fn transform_normal(normal: &Vector3, model_matrix: &Matrix4) -> (r: Vector3)
    ensures
        r == world_normal(*normal, *model_matrix),
{
    let normal_vec4: Vector4 = Vector4::direction(*normal);
    let transformed_normal_vec4: Vector4 = multiply_matrix_vector4(model_matrix, &normal_vec4);
    transformed_normal_vec4.xyz().normalized()
}

/// Takes a point from world space to the screen.
pub fn project(
    world_position: &Vector4,
    view_matrix: &Matrix4,
    projection_matrix: &Matrix4,
    viewport_matrix: &Matrix4,
) -> (r: Vector3)
    ensures
        r == projected(*world_position, *view_matrix, *projection_matrix, *viewport_matrix),
{
    let view_position: Vector4 = multiply_matrix_vector4(view_matrix, world_position);
    let clip_position: Vector4 = multiply_matrix_vector4(projection_matrix, &view_position);
    let ndc: Vector3 = if clip_position.w.raw != 0 {
        Vector3::new(
            clip_position.x.saturating_div(clip_position.w),
            clip_position.y.saturating_div(clip_position.w),
            clip_position.z.saturating_div(clip_position.w),
        )
    } else {
        clip_position.xyz()
    };
    let ndc_vec4: Vector4 = Vector4::point(ndc);
    let screen_position: Vector4 = multiply_matrix_vector4(viewport_matrix, &ndc_vec4);
    screen_position.xyz()
}

/// The transform stage: takes a vertex from object space to the screen
/// and its normal to world space.
pub fn vertex_shader(vertex: &Vertex, uniforms: &Uniforms) -> (r: Vertex)
    ensures
        r == transformed(*vertex, *uniforms),
{
    let position_vec4: Vector4 = Vector4::point(vertex.position);
    let world_position: Vector4 = multiply_matrix_vector4(&uniforms.model_matrix, &position_vec4);
    let transformed_position: Vector3 = project(
        &world_position,
        &uniforms.view_matrix,
        &uniforms.projection_matrix,
        &uniforms.viewport_matrix,
    );
    Vertex {
        position: vertex.position,
        normal: vertex.normal,
        tex_coords: vertex.tex_coords,
        color: vertex.color,
        transformed_position,
        transformed_normal: transform_normal(&vertex.normal, &uniforms.model_matrix),
    }
}

/// The shaders that a draw call can select.
#[derive(Clone, Copy, Debug, PartialEq, Eq, Structural)]
pub enum ShaderKind {
    /// Keeps the color that the rasterizer lit the fragment with.
    Default,
    Sun,
    Mercury,
    Earth,
    Mars,
    Uranus,
}

/// The shader that a name selects; a name that is none of the five
/// bodies selects the default shader.
pub open spec fn shader_named(name: Seq<char>) -> ShaderKind {
    if name == "Sun"@ {
        ShaderKind::Sun
    } else if name == "Mercury"@ {
        ShaderKind::Mercury
    } else if name == "Earth"@ {
        ShaderKind::Earth
    } else if name == "Mars"@ {
        ShaderKind::Mars
    } else if name == "Uranus"@ {
        ShaderKind::Uranus
    } else {
        ShaderKind::Default
    }
}

/// Whether two strings hold the same characters.
pub fn same_text(a: &str, b: &str) -> (r: bool)
    ensures
        r == (a@ == b@),
{
    let n: usize = a.unicode_len();
    if n != b.unicode_len() {
        return false;
    }
    let mut i: usize = 0;
    while i < n
        invariant
            i <= n,
            n == a@.len(),
            n == b@.len(),
            forall|k: int| 0 <= k < i ==> a@[k] == b@[k],
        decreases n - i,
    {
        if a.get_char(i) != b.get_char(i) {
            return false;
        }
        i = i + 1;
    }
    assert(a@ =~= b@);
    true
}

/// Resolves the name of a body to its shader, once for a draw call.
pub fn select_shader(planet_type: &str) -> (kind: ShaderKind)
    ensures
        kind == shader_named(planet_type@),
{
    if same_text(planet_type, "Sun") {
        ShaderKind::Sun
    } else if same_text(planet_type, "Mercury") {
        ShaderKind::Mercury
    } else if same_text(planet_type, "Earth") {
        ShaderKind::Earth
    } else if same_text(planet_type, "Mars") {
        ShaderKind::Mars
    } else if same_text(planet_type, "Uranus") {
        ShaderKind::Uranus
    } else {
        ShaderKind::Default
    }
}

/// The default fragment shader: the color that the rasterizer lit the
/// fragment with.
pub fn fragment_shader(fragment: &Fragment, uniforms: &Uniforms) -> (color: Vector3)
    ensures
        color == fragment.color,
{
    fragment.color
}

/// The transformed normal of a vertex has the length one, within
/// rounding, wherever the model matrix does not take the normal to zero.
pub proof fn transformed_normal_has_unit_length(vertex: Vertex, uniforms: Uniforms)
    requires
        uniforms.model_matrix.spec_apply(
            Vector4::spec_direction(vertex.normal),
        ).spec_xyz().squared_length() != 0,
    ensures
        0x1_0000_0000 - 0x10_0000 <= transformed(
            vertex,
            uniforms,
        ).transformed_normal.squared_length() <= 0x1_0000_0000 + 0x10_0000,
{
    unit_vector_has_unit_length(
        uniforms.model_matrix.spec_apply(Vector4::spec_direction(vertex.normal)).spec_xyz(),
    );
}

/// The transformed normal depends on the upper left block of the model
/// matrix alone: not on its translation column, and not on the view, the
/// projection or the viewport.
pub proof fn transformed_normal_ignores_translation(
    vertex: Vertex,
    uniforms: Uniforms,
    other: Uniforms,
)
    requires
        uniforms.model_matrix.r0.spec_xyz() == other.model_matrix.r0.spec_xyz(),
        uniforms.model_matrix.r1.spec_xyz() == other.model_matrix.r1.spec_xyz(),
        uniforms.model_matrix.r2.spec_xyz() == other.model_matrix.r2.spec_xyz(),
    ensures
        transformed(vertex, uniforms).transformed_normal == transformed(
            vertex,
            other,
        ).transformed_normal,
{
    let d = Vector4::spec_direction(vertex.normal);
    lemma_direction_ignores_last_entry(uniforms.model_matrix.r0, other.model_matrix.r0, d);
    lemma_direction_ignores_last_entry(uniforms.model_matrix.r1, other.model_matrix.r1, d);
    lemma_direction_ignores_last_entry(uniforms.model_matrix.r2, other.model_matrix.r2, d);
}

/// Two rows with the same first three entries have the same dot product
/// with a direction.
proof fn lemma_direction_ignores_last_entry(row: Vector4, other: Vector4, d: Vector4)
    requires
        row.spec_xyz() == other.spec_xyz(),
        d.w@ == 0,
    ensures
        row.spec_dot(d) == other.spec_dot(d),
{
    assert(row.w@ * 0 == 0 && other.w@ * 0 == 0) by (nonlinear_arith);
}

/// With the identity as model, view, projection and viewport matrix, the
/// screen position of a vertex is its position.
pub proof fn identity_transform_keeps_position(vertex: Vertex, uniforms: Uniforms)
    requires
        uniforms.model_matrix == identity_matrix(),
        uniforms.view_matrix == identity_matrix(),
        uniforms.projection_matrix == identity_matrix(),
        uniforms.viewport_matrix == identity_matrix(),
    ensures
        transformed(vertex, uniforms).transformed_position == vertex.position,
{
    let p = Vector4::spec_point(vertex.position);
    identity_apply(p);
    identity_apply(identity_matrix().spec_apply(p));
    let ndc = perspective_divide(p);
    assert(ndc.x@ == p.x@);
    assert(ndc.y@ == p.y@);
    assert(ndc.z@ == p.z@);
    assert(ndc == vertex.position);
    identity_apply(Vector4::spec_point(ndc));
}

} // verus!
