//! Four-by-four matrices and the builders of the model, view, projection
//! and viewport transforms.
//!
//! A vector is a column and a matrix is applied on its left. Every entry of
//! a product is one dot product: the exact sum of four products, rounded
//! once and saturated.

use crate::fixed::{magnitude, Fixed};
use crate::vector::{unit_vector_is_bounded, Vector3, Vector4};
use vstd::prelude::*;

verus! {

/// A matrix, held as its four rows.
#[derive(Clone, Copy, Debug, PartialEq, Eq, Structural)]
pub struct Matrix4 {
    pub r0: Vector4,
    pub r1: Vector4,
    pub r2: Vector4,
    pub r3: Vector4,
}

/// The sines and cosines of the three Euler angles of a rotation.
#[derive(Clone, Copy, Debug, PartialEq, Eq, Structural)]
pub struct Rotation {
    pub sin_x: Fixed,
    pub cos_x: Fixed,
    pub sin_y: Fixed,
    pub cos_y: Fixed,
    pub sin_z: Fixed,
    pub cos_z: Fixed,
}

/// The number zero.
pub open spec fn zero() -> Fixed {
    Fixed { raw: 0 }
}

/// The number one.
pub open spec fn one() -> Fixed {
    Fixed { raw: 65536 }
}

/// The number two.
pub open spec fn two() -> Fixed {
    Fixed { raw: 131072 }
}

/// The matrix with the given entries, row by row.
pub open spec fn matrix_of(
    a: (Fixed, Fixed, Fixed, Fixed),
    b: (Fixed, Fixed, Fixed, Fixed),
    c: (Fixed, Fixed, Fixed, Fixed),
    d: (Fixed, Fixed, Fixed, Fixed),
) -> Matrix4 {
    Matrix4 {
        r0: Vector4 { x: a.0, y: a.1, z: a.2, w: a.3 },
        r1: Vector4 { x: b.0, y: b.1, z: b.2, w: b.3 },
        r2: Vector4 { x: c.0, y: c.1, z: c.2, w: c.3 },
        r3: Vector4 { x: d.0, y: d.1, z: d.2, w: d.3 },
    }
}

/// The identity matrix.
pub open spec fn identity_matrix() -> Matrix4 {
    matrix_of(
        (one(), zero(), zero(), zero()),
        (zero(), one(), zero(), zero()),
        (zero(), zero(), one(), zero()),
        (zero(), zero(), zero(), one()),
    )
}

/// Rotation about the X axis by the angle with the given sine and cosine.
pub open spec fn rotation_x_matrix(sin: Fixed, cos: Fixed) -> Matrix4 {
    matrix_of(
        (one(), zero(), zero(), zero()),
        (zero(), cos, sin.negated(), zero()),
        (zero(), sin, cos, zero()),
        (zero(), zero(), zero(), one()),
    )
}

/// Rotation about the Y axis by the angle with the given sine and cosine.
pub open spec fn rotation_y_matrix(sin: Fixed, cos: Fixed) -> Matrix4 {
    matrix_of(
        (cos, zero(), sin, zero()),
        (zero(), one(), zero(), zero()),
        (sin.negated(), zero(), cos, zero()),
        (zero(), zero(), zero(), one()),
    )
}

/// Rotation about the Z axis by the angle with the given sine and cosine.
pub open spec fn rotation_z_matrix(sin: Fixed, cos: Fixed) -> Matrix4 {
    matrix_of(
        (cos, sin.negated(), zero(), zero()),
        (sin, cos, zero(), zero()),
        (zero(), zero(), one(), zero()),
        (zero(), zero(), zero(), one()),
    )
}

/// The rotation about X, then Y, then Z: the product `Rz * Ry * Rx`.
pub open spec fn rotation_matrix(rotation: Rotation) -> Matrix4 {
    rotation_z_matrix(rotation.sin_z, rotation.cos_z).spec_product(
        rotation_y_matrix(rotation.sin_y, rotation.cos_y),
    ).spec_product(rotation_x_matrix(rotation.sin_x, rotation.cos_x))
}

/// Uniform scaling by `scale`.
pub open spec fn scale_matrix(scale: Fixed) -> Matrix4 {
    matrix_of(
        (scale, zero(), zero(), zero()),
        (zero(), scale, zero(), zero()),
        (zero(), zero(), scale, zero()),
        (zero(), zero(), zero(), one()),
    )
}

/// Translation by `t`.
pub open spec fn translation_matrix(t: Vector3) -> Matrix4 {
    matrix_of(
        (one(), zero(), zero(), t.x),
        (zero(), one(), zero(), t.y),
        (zero(), zero(), one(), t.z),
        (zero(), zero(), zero(), one()),
    )
}

/// The model matrix: `Scale * Translation * Rotation`, so a point is
/// rotated first, then translated, and the scale applies to both.
pub open spec fn model_matrix(translation: Vector3, scale: Fixed, rotation: Rotation) -> Matrix4 {
    scale_matrix(scale).spec_product(translation_matrix(translation)).spec_product(
        rotation_matrix(rotation),
    )
}

/// Direction from `eye` to `target`, of unit length.
pub open spec fn view_forward(eye: Vector3, target: Vector3) -> Vector3 {
    target.spec_minus(eye).spec_normalized()
}

/// Direction to the right of the viewer, of unit length.
pub open spec fn view_right(eye: Vector3, target: Vector3, up: Vector3) -> Vector3 {
    view_forward(eye, target).spec_cross(up).spec_normalized()
}

/// Upward direction that is orthogonal to the other two.
pub open spec fn view_up(eye: Vector3, target: Vector3, up: Vector3) -> Vector3 {
    view_right(eye, target, up).spec_cross(view_forward(eye, target))
}

/// The look-at matrix of a viewer at `eye` that looks at `target`: it maps
/// the viewer's right, up and backward directions to the X, Y and Z axes
/// and `eye` to the origin.
pub open spec fn view_matrix(eye: Vector3, target: Vector3, up: Vector3) -> Matrix4 {
    let f = view_forward(eye, target);
    let r = view_right(eye, target, up);
    let u = view_up(eye, target, up);
    matrix_of(
        (r.x, r.y, r.z, r.spec_dot(eye).negated()),
        (u.x, u.y, u.z, u.spec_dot(eye).negated()),
        (f.x.negated(), f.y.negated(), f.z.negated(), f.spec_dot(eye)),
        (zero(), zero(), zero(), one()),
    )
}

/// The perspective projection with focal length `1 / tan_half_fov`: depth
/// `-near` goes to -1 and depth `-far` to 1 after the division by `w`.
pub open spec fn projection_matrix(
    tan_half_fov: Fixed,
    aspect: Fixed,
    near: Fixed,
    far: Fixed,
) -> Matrix4 {
    let focal = one().over(tan_half_fov);
    let range = near.minus(far);
    matrix_of(
        (focal.over(aspect), zero(), zero(), zero()),
        (zero(), focal, zero(), zero()),
        (zero(), zero(), far.plus(near).over(range), two().times(far).times(near).over(range)),
        (zero(), zero(), one().negated(), zero()),
    )
}

/// The viewport matrix: it maps -1..1 to `x..x + width` and, with the Y
/// axis flipped, 1..-1 to `y..y + height`; depth stays as it is.
pub open spec fn viewport_matrix(x: Fixed, y: Fixed, width: Fixed, height: Fixed) -> Matrix4 {
    let half_width = width.over(two());
    let half_height = height.over(two());
    matrix_of(
        (half_width, zero(), zero(), x.plus(half_width)),
        (zero(), half_height.negated(), zero(), y.plus(half_height)),
        (zero(), zero(), one(), zero()),
        (zero(), zero(), zero(), one()),
    )
}

impl Matrix4 {
    /// The first column.
    pub open spec fn c0(self) -> Vector4 {
        Vector4 { x: self.r0.x, y: self.r1.x, z: self.r2.x, w: self.r3.x }
    }

    /// The second column.
    pub open spec fn c1(self) -> Vector4 {
        Vector4 { x: self.r0.y, y: self.r1.y, z: self.r2.y, w: self.r3.y }
    }

    /// The third column.
    pub open spec fn c2(self) -> Vector4 {
        Vector4 { x: self.r0.z, y: self.r1.z, z: self.r2.z, w: self.r3.z }
    }

    /// The fourth column.
    pub open spec fn c3(self) -> Vector4 {
        Vector4 { x: self.r0.w, y: self.r1.w, z: self.r2.w, w: self.r3.w }
    }

    /// The matrix applied to the column `v`.
    pub open spec fn spec_apply(self, v: Vector4) -> Vector4 {
        Vector4 {
            x: self.r0.spec_dot(v),
            y: self.r1.spec_dot(v),
            z: self.r2.spec_dot(v),
            w: self.r3.spec_dot(v),
        }
    }

    /// One row of a product: `row` times each column of `rhs`.
    pub open spec fn spec_row_times(row: Vector4, rhs: Matrix4) -> Vector4 {
        Vector4 {
            x: row.spec_dot(rhs.c0()),
            y: row.spec_dot(rhs.c1()),
            z: row.spec_dot(rhs.c2()),
            w: row.spec_dot(rhs.c3()),
        }
    }

    /// The matrix product `self * rhs`: applied to a column, it applies
    /// `rhs` first and `self` after it.
    pub open spec fn spec_product(self, rhs: Matrix4) -> Matrix4 {
        Matrix4 {
            r0: Matrix4::spec_row_times(self.r0, rhs),
            r1: Matrix4::spec_row_times(self.r1, rhs),
            r2: Matrix4::spec_row_times(self.r2, rhs),
            r3: Matrix4::spec_row_times(self.r3, rhs),
        }
    }

    /// The identity matrix.
    pub fn identity() -> (m: Matrix4)
        ensures
            m == identity_matrix(),
    {
        let o: Fixed = Fixed::zero();
        let i: Fixed = Fixed::one();
        new_matrix4(i, o, o, o, o, i, o, o, o, o, i, o, o, o, o, i)
    }

    fn row_times(row: Vector4, rhs: &Matrix4) -> (r: Vector4)
        ensures
            r == Matrix4::spec_row_times(row, *rhs),
    {
        let c0: Vector4 = Vector4::new(rhs.r0.x, rhs.r1.x, rhs.r2.x, rhs.r3.x);
        let c1: Vector4 = Vector4::new(rhs.r0.y, rhs.r1.y, rhs.r2.y, rhs.r3.y);
        let c2: Vector4 = Vector4::new(rhs.r0.z, rhs.r1.z, rhs.r2.z, rhs.r3.z);
        let c3: Vector4 = Vector4::new(rhs.r0.w, rhs.r1.w, rhs.r2.w, rhs.r3.w);
        Vector4 { x: row.dot(c0), y: row.dot(c1), z: row.dot(c2), w: row.dot(c3) }
    }

    /// The matrix product `self * rhs`.
    #[verifier::when_used_as_spec(spec_product)]
    pub fn product(self, rhs: Matrix4) -> (m: Matrix4)
        ensures
            m == self.spec_product(rhs),
    {
        Matrix4 {
            r0: Matrix4::row_times(self.r0, &rhs),
            r1: Matrix4::row_times(self.r1, &rhs),
            r2: Matrix4::row_times(self.r2, &rhs),
            r3: Matrix4::row_times(self.r3, &rhs),
        }
    }
}

/// The product of a matrix and a column vector.
pub fn multiply_matrix_vector4(matrix: &Matrix4, vector: &Vector4) -> (r: Vector4)
    ensures
        r == matrix.spec_apply(*vector),
{
    Vector4 {
        x: matrix.r0.dot(*vector),
        y: matrix.r1.dot(*vector),
        z: matrix.r2.dot(*vector),
        w: matrix.r3.dot(*vector),
    }
}

/// The matrix with the given sixteen entries, row by row.
pub fn new_matrix4(
    r0c0: Fixed,
    r0c1: Fixed,
    r0c2: Fixed,
    r0c3: Fixed,
    r1c0: Fixed,
    r1c1: Fixed,
    r1c2: Fixed,
    r1c3: Fixed,
    r2c0: Fixed,
    r2c1: Fixed,
    r2c2: Fixed,
    r2c3: Fixed,
    r3c0: Fixed,
    r3c1: Fixed,
    r3c2: Fixed,
    r3c3: Fixed,
) -> (m: Matrix4)
    ensures
        m == matrix_of(
            (r0c0, r0c1, r0c2, r0c3),
            (r1c0, r1c1, r1c2, r1c3),
            (r2c0, r2c1, r2c2, r2c3),
            (r3c0, r3c1, r3c2, r3c3),
        ),
{
    Matrix4 {
        r0: Vector4 { x: r0c0, y: r0c1, z: r0c2, w: r0c3 },
        r1: Vector4 { x: r1c0, y: r1c1, z: r1c2, w: r1c3 },
        r2: Vector4 { x: r2c0, y: r2c1, z: r2c2, w: r2c3 },
        r3: Vector4 { x: r3c0, y: r3c1, z: r3c2, w: r3c3 },
    }
}

/// The affine matrix whose upper left block holds the given nine
/// entries, row by row, and that translates by nothing.
pub fn new_matrix3(
    r0c0: Fixed,
    r0c1: Fixed,
    r0c2: Fixed,
    r1c0: Fixed,
    r1c1: Fixed,
    r1c2: Fixed,
    r2c0: Fixed,
    r2c1: Fixed,
    r2c2: Fixed,
) -> (m: Matrix4)
    ensures
        m == matrix_of(
            (r0c0, r0c1, r0c2, zero()),
            (r1c0, r1c1, r1c2, zero()),
            (r2c0, r2c1, r2c2, zero()),
            (zero(), zero(), zero(), one()),
        ),
{
    let o: Fixed = Fixed::zero();
    let i: Fixed = Fixed::one();
    new_matrix4(r0c0, r0c1, r0c2, o, r1c0, r1c1, r1c2, o, r2c0, r2c1, r2c2, o, o, o, o, i)
}

/// The model matrix of an object: `Scale * Translation * Rotation`, with
/// the rotation composed as `Rz * Ry * Rx`.
pub fn create_model_matrix(translation: Vector3, scale: Fixed, rotation: Rotation) -> (m: Matrix4)
    ensures
        m == model_matrix(translation, scale, rotation),
{
    let o: Fixed = Fixed::zero();
    let i: Fixed = Fixed::one();
    let rotation_matrix_x: Matrix4 = new_matrix4(
        i, o, o, o,
        o, rotation.cos_x, rotation.sin_x.saturating_neg(), o,
        o, rotation.sin_x, rotation.cos_x, o,
        o, o, o, i,
    );
    let rotation_matrix_y: Matrix4 = new_matrix4(
        rotation.cos_y, o, rotation.sin_y, o,
        o, i, o, o,
        rotation.sin_y.saturating_neg(), o, rotation.cos_y, o,
        o, o, o, i,
    );
    let rotation_matrix_z: Matrix4 = new_matrix4(
        rotation.cos_z, rotation.sin_z.saturating_neg(), o, o,
        rotation.sin_z, rotation.cos_z, o, o,
        o, o, i, o,
        o, o, o, i,
    );
    let rotation_matrix: Matrix4 = rotation_matrix_z.product(rotation_matrix_y).product(
        rotation_matrix_x,
    );
    let scale_matrix: Matrix4 = new_matrix4(
        scale, o, o, o,
        o, scale, o, o,
        o, o, scale, o,
        o, o, o, i,
    );
    let translation_matrix: Matrix4 = new_matrix4(
        i, o, o, translation.x,
        o, i, o, translation.y,
        o, o, i, translation.z,
        o, o, o, i,
    );
    scale_matrix.product(translation_matrix).product(rotation_matrix)
}

/// The look-at matrix of a viewer at `eye` that looks at `target`.
pub fn create_view_matrix(eye: Vector3, target: Vector3, up: Vector3) -> (m: Matrix4)
    ensures
        m == view_matrix(eye, target, up),
{
    let forward: Vector3 = target.minus(eye).normalized();
    let right: Vector3 = forward.cross(up).normalized();
    let true_up: Vector3 = right.cross(forward);
    new_matrix4(
        right.x, right.y, right.z, right.dot(eye).saturating_neg(),
        true_up.x, true_up.y, true_up.z, true_up.dot(eye).saturating_neg(),
        forward.x.saturating_neg(), forward.y.saturating_neg(), forward.z.saturating_neg(),
        forward.dot(eye),
        Fixed::zero(), Fixed::zero(), Fixed::zero(), Fixed::one(),
    )
}

/// The perspective projection for a vertical field of view whose half
/// angle has the tangent `tan_half_fov`.
pub fn create_projection_matrix(tan_half_fov: Fixed, aspect: Fixed, near: Fixed, far: Fixed) -> (m:
    Matrix4)
    ensures
        m == projection_matrix(tan_half_fov, aspect, near, far),
{
    let o: Fixed = Fixed::zero();
    let i: Fixed = Fixed::one();
    let focal: Fixed = i.saturating_div(tan_half_fov);
    let range: Fixed = near.saturating_sub(far);
    let depth_scale: Fixed = far.saturating_add(near).saturating_div(range);
    let depth_offset: Fixed = Fixed::from_raw(131072).saturating_mul(far).saturating_mul(
        near,
    ).saturating_div(range);
    new_matrix4(
        focal.saturating_div(aspect), o, o, o,
        o, focal, o, o,
        o, o, depth_scale, depth_offset,
        o, o, i.saturating_neg(), o,
    )
}

/// The viewport matrix of the rectangle with corner `(x, y)` and the
/// given size.
pub fn create_viewport_matrix(x: Fixed, y: Fixed, width: Fixed, height: Fixed) -> (m: Matrix4)
    ensures
        m == viewport_matrix(x, y, width, height),
{
    let o: Fixed = Fixed::zero();
    let i: Fixed = Fixed::one();
    let two: Fixed = Fixed::from_raw(131072);
    let half_width: Fixed = width.saturating_div(two);
    let half_height: Fixed = height.saturating_div(two);
    new_matrix4(
        half_width, o, o, x.saturating_add(half_width),
        o, half_height.saturating_neg(), o, y.saturating_add(half_height),
        o, o, i, o,
        o, o, o, i,
    )
}

/// The identity matrix leaves every vector as it is.
pub proof fn identity_apply(v: Vector4)
    ensures
        identity_matrix().spec_apply(v) == v,
{
    let m = identity_matrix();
    let (x, y, z, w) = (v.x@, v.y@, v.z@, v.w@);
    assert(m.r0.spec_dot(v)@ == x) by {
        assert((65536 * x + 0 * y + 0 * z + 0 * w) / 65536 == x);
    }
    assert(m.r1.spec_dot(v)@ == y) by {
        assert((0 * x + 65536 * y + 0 * z + 0 * w) / 65536 == y);
    }
    assert(m.r2.spec_dot(v)@ == z) by {
        assert((0 * x + 0 * y + 65536 * z + 0 * w) / 65536 == z);
    }
    assert(m.r3.spec_dot(v)@ == w) by {
        assert((0 * x + 0 * y + 0 * z + 65536 * w) / 65536 == w);
    }
}

/// The dot product of a vector and an axis is the vector's component on
/// that axis.
proof fn lemma_dot_with_axis(v: Vector4)
    ensures
        v.spec_dot(identity_matrix().r0) == v.x,
        v.spec_dot(identity_matrix().r1) == v.y,
        v.spec_dot(identity_matrix().r2) == v.z,
        v.spec_dot(identity_matrix().r3) == v.w,
{
    let (x, y, z, w) = (v.x@, v.y@, v.z@, v.w@);
    assert(v.spec_dot(identity_matrix().r0)@ == x) by {
        assert((x * 65536 + y * 0 + z * 0 + w * 0) / 65536 == x) by (nonlinear_arith);
    }
    assert(v.spec_dot(identity_matrix().r1)@ == y) by {
        assert((x * 0 + y * 65536 + z * 0 + w * 0) / 65536 == y) by (nonlinear_arith);
    }
    assert(v.spec_dot(identity_matrix().r2)@ == z) by {
        assert((x * 0 + y * 0 + z * 65536 + w * 0) / 65536 == z) by (nonlinear_arith);
    }
    assert(v.spec_dot(identity_matrix().r3)@ == w) by {
        assert((x * 0 + y * 0 + z * 0 + w * 65536) / 65536 == w) by (nonlinear_arith);
    }
}

/// The identity matrix is neutral on both sides of a product.
pub proof fn identity_is_neutral(m: Matrix4)
    ensures
        m.spec_product(identity_matrix()) == m,
        identity_matrix().spec_product(m) == m,
{
    lemma_dot_with_axis(m.r0);
    lemma_dot_with_axis(m.r1);
    lemma_dot_with_axis(m.r2);
    lemma_dot_with_axis(m.r3);
    identity_apply(m.c0());
    identity_apply(m.c1());
    identity_apply(m.c2());
    identity_apply(m.c3());
    let left = identity_matrix().spec_product(m);
    assert(left.r0 == m.r0);
    assert(left.r1 == m.r1);
    assert(left.r2 == m.r2);
    assert(left.r3 == m.r3);
}

/// The rotation by three angles of zero.
pub open spec fn no_rotation() -> Rotation {
    Rotation {
        sin_x: zero(),
        cos_x: one(),
        sin_y: zero(),
        cos_y: one(),
        sin_z: zero(),
        cos_z: one(),
    }
}

/// Scaling after a translation is a scaling with the scaled translation:
/// the product `Scale * Translation` has the scale on its diagonal and
/// the translation times the scale in its last column.
pub proof fn scale_times_translation(translation: Vector3, scale: Fixed)
    ensures
        scale_matrix(scale).spec_product(translation_matrix(translation)) == matrix_of(
            (scale, zero(), zero(), translation.x.times(scale)),
            (zero(), scale, zero(), translation.y.times(scale)),
            (zero(), zero(), scale, translation.z.times(scale)),
            (zero(), zero(), zero(), one()),
        ),
{
    let s = scale@;
    let st = scale_matrix(scale).spec_product(translation_matrix(translation));
    let (tx, ty, tz) = (translation.x@, translation.y@, translation.z@);
    assert(st.r0 == (Vector4 { x: scale, y: zero(), z: zero(), w: translation.x.times(scale) }))
        by {
        assert((s * 65536 + 0 * 0 + 0 * 0 + 0 * 0) / 65536 == s) by (nonlinear_arith);
        assert((s * 0 + 0 * 65536 + 0 * 0 + 0 * 0) / 65536 == 0) by (nonlinear_arith);
        assert((s * 0 + 0 * 0 + 0 * 65536 + 0 * 0) / 65536 == 0) by (nonlinear_arith);
        assert(s * tx + 0 * ty + 0 * tz + 0 * 65536 == tx * s) by (nonlinear_arith);
    }
    assert(st.r1 == (Vector4 { x: zero(), y: scale, z: zero(), w: translation.y.times(scale) }))
        by {
        assert((0 * 65536 + s * 0 + 0 * 0 + 0 * 0) / 65536 == 0) by (nonlinear_arith);
        assert((0 * 0 + s * 65536 + 0 * 0 + 0 * 0) / 65536 == s) by (nonlinear_arith);
        assert((0 * 0 + s * 0 + 0 * 65536 + 0 * 0) / 65536 == 0) by (nonlinear_arith);
        assert(0 * tx + s * ty + 0 * tz + 0 * 65536 == ty * s) by (nonlinear_arith);
    }
    assert(st.r2 == (Vector4 { x: zero(), y: zero(), z: scale, w: translation.z.times(scale) }))
        by {
        assert((0 * 65536 + 0 * 0 + s * 0 + 0 * 0) / 65536 == 0) by (nonlinear_arith);
        assert((0 * 0 + 0 * 65536 + s * 0 + 0 * 0) / 65536 == 0) by (nonlinear_arith);
        assert((0 * 0 + 0 * 0 + s * 65536 + 0 * 0) / 65536 == s) by (nonlinear_arith);
        assert(0 * tx + 0 * ty + s * tz + 0 * 65536 == tz * s) by (nonlinear_arith);
    }
    assert(st.r3 == identity_matrix().r3) by {
        lemma_dot_with_axis(identity_matrix().r3);
        identity_apply(translation_matrix(translation).c0());
        identity_apply(translation_matrix(translation).c1());
        identity_apply(translation_matrix(translation).c2());
        identity_apply(translation_matrix(translation).c3());
    }
}

/// Without a rotation, the model matrix takes a point `p` to
/// `scale * p + scale * translation`: the scale applies to the
/// translation too.
pub proof fn model_matrix_scales_the_translation(translation: Vector3, scale: Fixed, p: Vector3)
    ensures
        model_matrix(translation, scale, no_rotation()).spec_apply(Vector4::spec_point(p)) == (
        Vector4 {
            x: Fixed::of((p.x@ * scale@) / 65536 + translation.x.times(scale)@),
            y: Fixed::of((p.y@ * scale@) / 65536 + translation.y.times(scale)@),
            z: Fixed::of((p.z@ * scale@) / 65536 + translation.z.times(scale)@),
            w: one(),
        }),
{
    let s = scale@;
    assert(rotation_x_matrix(zero(), one()) == identity_matrix());
    assert(rotation_y_matrix(zero(), one()) == identity_matrix());
    assert(rotation_z_matrix(zero(), one()) == identity_matrix());
    identity_is_neutral(identity_matrix());
    assert(rotation_matrix(no_rotation()) == identity_matrix());
    let st = scale_matrix(scale).spec_product(translation_matrix(translation));
    identity_is_neutral(st);
    assert(model_matrix(translation, scale, no_rotation()) == st);
    scale_times_translation(translation, scale);
    let (x, y, z) = (p.x@, p.y@, p.z@);
    let (ax, ay, az) = (
        translation.x.times(scale)@,
        translation.y.times(scale)@,
        translation.z.times(scale)@,
    );
    assert((s * x + 0 * y + 0 * z + ax * 65536) / 65536 == (x * s) / 65536 + ax)
        by (nonlinear_arith);
    assert((0 * x + s * y + 0 * z + ay * 65536) / 65536 == (y * s) / 65536 + ay)
        by (nonlinear_arith);
    assert((0 * x + 0 * y + s * z + az * 65536) / 65536 == (z * s) / 65536 + az)
        by (nonlinear_arith);
    assert((0 * x + 0 * y + 0 * z + 65536 * 65536) / 65536 == 65536) by (nonlinear_arith);
}

/// The view matrix takes a viewer that is within 1024 units of the
/// origin to the origin; its depth may be off by one unit of the last
/// place.
pub proof fn view_matrix_takes_the_eye_to_the_origin(eye: Vector3, target: Vector3, up: Vector3)
    requires
        magnitude(eye.x@) <= 0x400_0000,
        magnitude(eye.y@) <= 0x400_0000,
        magnitude(eye.z@) <= 0x400_0000,
    ensures
        view_matrix(eye, target, up).spec_apply(Vector4::spec_point(eye)).x@ == 0,
        view_matrix(eye, target, up).spec_apply(Vector4::spec_point(eye)).y@ == 0,
        -1 <= view_matrix(eye, target, up).spec_apply(Vector4::spec_point(eye)).z@ <= 0,
        view_matrix(eye, target, up).spec_apply(Vector4::spec_point(eye)).w@ == 65536,
{
    let f = view_forward(eye, target);
    let r = view_right(eye, target, up);
    let u = view_up(eye, target, up);
    unit_vector_is_bounded(target.spec_minus(eye));
    unit_vector_is_bounded(f.spec_cross(up));
    lemma_cross_is_bounded(r, f);
    lemma_row_cancels(r, eye);
    lemma_row_cancels(u, eye);
    lemma_negated_row_cancels(f, eye);
    let (x, y, z) = (eye.x@, eye.y@, eye.z@);
    assert((0 * x + 0 * y + 0 * z + 65536 * 65536) / 65536 == 65536) by (nonlinear_arith);
}

/// The cross product of two vectors with components up to two has
/// components up to eight.
proof fn lemma_cross_is_bounded(a: Vector3, b: Vector3)
    requires
        magnitude(a.x@) <= 131072,
        magnitude(a.y@) <= 131072,
        magnitude(a.z@) <= 131072,
        magnitude(b.x@) <= 131072,
        magnitude(b.y@) <= 131072,
        magnitude(b.z@) <= 131072,
    ensures
        magnitude(a.spec_cross(b).x@) <= 524288,
        magnitude(a.spec_cross(b).y@) <= 524288,
        magnitude(a.spec_cross(b).z@) <= 524288,
{
    lemma_product_is_bounded(a.y@, b.z@);
    lemma_product_is_bounded(a.z@, b.y@);
    lemma_product_is_bounded(a.z@, b.x@);
    lemma_product_is_bounded(a.x@, b.z@);
    lemma_product_is_bounded(a.x@, b.y@);
    lemma_product_is_bounded(a.y@, b.x@);
}

/// The product of two raw values up to two is a raw value up to four,
/// before it is scaled.
proof fn lemma_product_is_bounded(a: int, b: int)
    by (nonlinear_arith)
    requires
        -131072 <= a <= 131072,
        -131072 <= b <= 131072,
    ensures
        -131072 * 131072 <= a * b <= 131072 * 131072,
{
}

/// The exact sum of the products of a short row and a near point.
proof fn lemma_row_sum_is_bounded(a: Vector3, e: Vector3)
    requires
        magnitude(a.x@) <= 524288,
        magnitude(a.y@) <= 524288,
        magnitude(a.z@) <= 524288,
        magnitude(e.x@) <= 0x400_0000,
        magnitude(e.y@) <= 0x400_0000,
        magnitude(e.z@) <= 0x400_0000,
    ensures
        -3 * 0x2000_0000_0000 <= a.x@ * e.x@ + a.y@ * e.y@ + a.z@ * e.z@ <= 3 * 0x2000_0000_0000,
{
    lemma_term_is_bounded(a.x@, e.x@);
    lemma_term_is_bounded(a.y@, e.y@);
    lemma_term_is_bounded(a.z@, e.z@);
}

proof fn lemma_term_is_bounded(a: int, e: int)
    by (nonlinear_arith)
    requires
        -524288 <= a <= 524288,
        -0x400_0000 <= e <= 0x400_0000,
    ensures
        -0x2000_0000_0000 <= a * e <= 0x2000_0000_0000,
{
}

/// A row that ends in the negated dot product of its first three entries
/// and a point takes that point to zero.
proof fn lemma_row_cancels(a: Vector3, e: Vector3)
    requires
        magnitude(a.x@) <= 524288,
        magnitude(a.y@) <= 524288,
        magnitude(a.z@) <= 524288,
        magnitude(e.x@) <= 0x400_0000,
        magnitude(e.y@) <= 0x400_0000,
        magnitude(e.z@) <= 0x400_0000,
    ensures
        (Vector4 { x: a.x, y: a.y, z: a.z, w: a.spec_dot(e).negated() }).spec_dot(
            Vector4::spec_point(e),
        )@ == 0,
{
    let sum = a.x@ * e.x@ + a.y@ * e.y@ + a.z@ * e.z@;
    lemma_row_sum_is_bounded(a, e);
    let q = sum / 65536;
    assert(a.spec_dot(e)@ == q);
    assert(a.spec_dot(e).negated()@ == -q);
    assert((sum + (-q) * 65536) / 65536 == 0) by {
        assert(sum == 65536 * q + sum % 65536);
    }
}

/// A row that holds a negated direction and ends in the dot product of
/// the direction and a point takes that point to zero or to one unit of
/// the last place below it.
proof fn lemma_negated_row_cancels(a: Vector3, e: Vector3)
    requires
        magnitude(a.x@) <= 524288,
        magnitude(a.y@) <= 524288,
        magnitude(a.z@) <= 524288,
        magnitude(e.x@) <= 0x400_0000,
        magnitude(e.y@) <= 0x400_0000,
        magnitude(e.z@) <= 0x400_0000,
    ensures
        -1 <= (Vector4 {
            x: a.x.negated(),
            y: a.y.negated(),
            z: a.z.negated(),
            w: a.spec_dot(e),
        }).spec_dot(Vector4::spec_point(e))@ <= 0,
{
    let sum = a.x@ * e.x@ + a.y@ * e.y@ + a.z@ * e.z@;
    lemma_row_sum_is_bounded(a, e);
    let q = sum / 65536;
    assert(a.spec_dot(e)@ == q);
    assert((-a.x@) * e.x@ + (-a.y@) * e.y@ + (-a.z@) * e.z@ == -sum) by (nonlinear_arith)
        requires
            sum == a.x@ * e.x@ + a.y@ * e.y@ + a.z@ * e.z@,
    ;
    assert(-1 <= (-sum + q * 65536) / 65536 <= 0) by {
        assert(sum == 65536 * q + sum % 65536);
    }
}

/// A translation matrix adds its offset to every point.
pub proof fn translation_moves_points(t: Vector3, p: Vector3)
    ensures
        translation_matrix(t).spec_apply(Vector4::spec_point(p)) == Vector4::spec_point(
            p.spec_plus(t),
        ),
{
    let (x, y, z) = (p.x@, p.y@, p.z@);
    let r = translation_matrix(t).spec_apply(Vector4::spec_point(p));
    assert(r.x == p.x.plus(t.x)) by {
        assert((65536 * x + 0 * y + 0 * z + t.x@ * 65536) / 65536 == x + t.x@) by (nonlinear_arith);
    }
    assert(r.y == p.y.plus(t.y)) by {
        assert((0 * x + 65536 * y + 0 * z + t.y@ * 65536) / 65536 == y + t.y@) by (nonlinear_arith);
    }
    assert(r.z == p.z.plus(t.z)) by {
        assert((0 * x + 0 * y + 65536 * z + t.z@ * 65536) / 65536 == z + t.z@) by (nonlinear_arith);
    }
    assert(r.w@ == 65536) by {
        assert((0 * x + 0 * y + 0 * z + 65536 * 65536) / 65536 == 65536) by (nonlinear_arith);
    }
}

/// A scale matrix multiplies every coordinate of a point by its factor.
pub proof fn scale_stretches_points(scale: Fixed, p: Vector3)
    ensures
        scale_matrix(scale).spec_apply(Vector4::spec_point(p)) == Vector4::spec_point(
            p.spec_scaled(scale),
        ),
{
    let (x, y, z, s) = (p.x@, p.y@, p.z@, scale@);
    let r = scale_matrix(scale).spec_apply(Vector4::spec_point(p));
    assert(r.x == p.x.times(scale)) by {
        assert(s * x == x * s) by (nonlinear_arith);
        assert(s * x + 0 * y + 0 * z + 0 * 65536 == x * s) by (nonlinear_arith);
    }
    assert(r.y == p.y.times(scale)) by {
        assert(s * y == y * s) by (nonlinear_arith);
        assert(0 * x + s * y + 0 * z + 0 * 65536 == y * s) by (nonlinear_arith);
    }
    assert(r.z == p.z.times(scale)) by {
        assert(s * z == z * s) by (nonlinear_arith);
        assert(0 * x + 0 * y + s * z + 0 * 65536 == z * s) by (nonlinear_arith);
    }
    assert(r.w@ == 65536) by {
        assert((0 * x + 0 * y + 0 * z + 65536 * 65536) / 65536 == 65536) by (nonlinear_arith);
    }
}

/// The viewport matrix takes the corners of the unit square to the
/// corners of its rectangle, with the Y axis flipped: (-1, 1) goes to
/// `(x, y)` and (1, -1) to `(x + width, y + height)`. This holds for a
/// rectangle that lies in the representable plane and whose size is a
/// whole number of 1/32768 of a pixel.
pub proof fn viewport_maps_the_unit_square(
    x: Fixed,
    y: Fixed,
    width: Fixed,
    height: Fixed,
    depth: Fixed,
)
    requires
        width@ >= 0,
        height@ >= 0,
        width@ % 2 == 0,
        height@ % 2 == 0,
        x@ + width@ <= 0x7fff_ffff,
        y@ + height@ <= 0x7fff_ffff,
    ensures
        viewport_matrix(x, y, width, height).spec_apply(
            Vector4 { x: one().negated(), y: one(), z: depth, w: one() },
        ) == (Vector4 { x, y, z: depth, w: one() }),
        viewport_matrix(x, y, width, height).spec_apply(
            Vector4 { x: one(), y: one().negated(), z: depth, w: one() },
        ) == (Vector4 { x: x.plus(width), y: y.plus(height), z: depth, w: one() }),
        x.plus(width)@ == x@ + width@,
        y.plus(height)@ == y@ + height@,
{
    let m = viewport_matrix(x, y, width, height);
    let hw = width.over(two());
    let hh = height.over(two());
    assert(hw@ == width@ / 2) by {
        assert((width@ * 65536) / 131072 == width@ / 2) by (nonlinear_arith);
    }
    assert(hh@ == height@ / 2) by {
        assert((height@ * 65536) / 131072 == height@ / 2) by (nonlinear_arith);
    }
    let cx = x.plus(hw);
    let cy = y.plus(hh);
    let nhh = hh.negated();
    let top_left = m.spec_apply(Vector4 { x: one().negated(), y: one(), z: depth, w: one() });
    let bottom_right = m.spec_apply(Vector4 { x: one(), y: one().negated(), z: depth, w: one() });
    let d = depth@;
    assert(top_left.x@ == x@) by {
        assert(hw@ * -65536 == -65536 * hw@) by (nonlinear_arith);
        assert((hw@ * -65536 + 0 * 65536 + 0 * d + cx@ * 65536) / 65536 == cx@ - hw@)
            by (nonlinear_arith);
    }
    assert(top_left.y@ == y@) by {
        assert(nhh@ * 65536 == 65536 * nhh@) by (nonlinear_arith);
        assert((0 * -65536 + nhh@ * 65536 + 0 * d + cy@ * 65536) / 65536 == cy@ + nhh@)
            by (nonlinear_arith);
    }
    assert(top_left.z@ == d) by {
        assert((0 * -65536 + 0 * 65536 + 65536 * d + 0 * 65536) / 65536 == d) by (nonlinear_arith);
    }
    assert(top_left.w@ == 65536) by {
        assert((0 * -65536 + 0 * 65536 + 0 * d + 65536 * 65536) / 65536 == 65536)
            by (nonlinear_arith);
    }
    assert(bottom_right.x@ == x@ + width@) by {
        assert((hw@ * 65536 + 0 * -65536 + 0 * d + cx@ * 65536) / 65536 == cx@ + hw@)
            by (nonlinear_arith);
    }
    assert(bottom_right.y@ == y@ + height@) by {
        assert(nhh@ * -65536 == -65536 * nhh@) by (nonlinear_arith);
        assert((0 * 65536 + nhh@ * -65536 + 0 * d + cy@ * 65536) / 65536 == cy@ - nhh@)
            by (nonlinear_arith);
    }
    assert(bottom_right.z@ == d) by {
        assert((0 * 65536 + 0 * -65536 + 65536 * d + 0 * 65536) / 65536 == d) by (nonlinear_arith);
    }
    assert(bottom_right.w@ == 65536) by {
        assert((0 * 65536 + 0 * -65536 + 0 * d + 65536 * 65536) / 65536 == 65536)
            by (nonlinear_arith);
    }
}

} // verus!
