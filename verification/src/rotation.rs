//! Rotations that are given by the sines and cosines of their angles.
//!
//! A sine and a cosine come rounded, so the squares of a pair add up to
//! one only within a tolerance. Under that condition the rotation matrix
//! is orthonormal within rounding: its rows have the length one and are
//! at right angles to each other.

use crate::fixed::{lemma_rounded_pair, magnitude, Fixed};
use crate::matrix::{
    matrix_of, model_matrix, one, rotation_matrix, rotation_x_matrix, rotation_y_matrix,
    rotation_z_matrix, scale_matrix, scale_times_translation, translation_matrix, zero, Matrix4,
    Rotation,
};
use crate::vector::{Vector3, Vector4};
use vstd::prelude::*;

verus! {

/// Whether `sin` and `cos` can be the sine and the cosine of one angle,
/// each rounded to the next representable number: their squares add up to
/// one, give or take one part in sixteen thousand.
pub open spec fn is_sine_and_cosine(sin: Fixed, cos: Fixed) -> bool {
    0x1_0000_0000 - 0x4_0000 <= sin@ * sin@ + cos@ * cos@ <= 0x1_0000_0000 + 0x4_0000
}

/// Whether each of the three pairs is the sine and the cosine of an
/// angle.
pub open spec fn is_rotation(rotation: Rotation) -> bool {
    &&& is_sine_and_cosine(rotation.sin_x, rotation.cos_x)
    &&& is_sine_and_cosine(rotation.sin_y, rotation.cos_y)
    &&& is_sine_and_cosine(rotation.sin_z, rotation.cos_z)
}

/// The dot product of the first three entries of two rows, without the
/// final scaling.
pub open spec fn block_dot(a: Vector4, b: Vector4) -> int {
    a.x@ * b.x@ + a.y@ * b.y@ + a.z@ * b.z@
}

/// A rotation of the plane keeps dot products: with `s2 == -s1`, the
/// images `(a c + b s1, a s2 + b c)` and `(a2 c + b2 s1, a2 s2 + b2 c)`
/// have the dot product of `(a, b)` and `(a2, b2)` times `c c + s1 s1`.
proof fn lemma_rotation_identity(a: int, b: int, a2: int, b2: int, c: int, s1: int, s2: int)
    requires
        s2 == -s1,
    ensures
        (a * c + b * s1) * (a2 * c + b2 * s1) + (a * s2 + b * c) * (a2 * s2 + b2 * c) == (a * a2
            + b * b2) * (c * c + s1 * s1),
{
    let (ac, bs, a2c, b2s) = (a * c, b * s1, a2 * c, b2 * s1);
    let (as2, bc, a2s2, b2c) = (a * s2, b * c, a2 * s2, b2 * c);
    assert((ac + bs) * (a2c + b2s) == ac * a2c + ac * b2s + bs * a2c + bs * b2s)
        by (nonlinear_arith);
    assert((as2 + bc) * (a2s2 + b2c) == as2 * a2s2 + as2 * b2c + bc * a2s2 + bc * b2c)
        by (nonlinear_arith);
    assert(ac * a2c == (a * a2) * (c * c)) by (nonlinear_arith)
        requires
            ac == a * c,
            a2c == a2 * c,
    ;
    assert(bs * b2s == (b * b2) * (s1 * s1)) by (nonlinear_arith)
        requires
            bs == b * s1,
            b2s == b2 * s1,
    ;
    assert(as2 * a2s2 == (a * a2) * (s1 * s1)) by (nonlinear_arith)
        requires
            as2 == a * s2,
            a2s2 == a2 * s2,
            s2 == -s1,
    ;
    assert(bc * b2c == (b * b2) * (c * c)) by (nonlinear_arith)
        requires
            bc == b * c,
            b2c == b2 * c,
    ;
    assert(ac * b2s + as2 * b2c == 0) by (nonlinear_arith)
        requires
            ac == a * c,
            b2s == b2 * s1,
            as2 == a * s2,
            b2c == b2 * c,
            s2 == -s1,
    ;
    assert(bs * a2c + bc * a2s2 == 0) by (nonlinear_arith)
        requires
            bs == b * s1,
            a2c == a2 * c,
            bc == b * c,
            a2s2 == a2 * s2,
            s2 == -s1,
    ;
    let (p, q, cc, ss) = (a * a2, b * b2, c * c, s1 * s1);
    assert((p + q) * (cc + ss) == p * cc + p * ss + q * cc + q * ss) by (nonlinear_arith);
}

/// A number whose square is at most `65600` squared.
proof fn lemma_short(x: int, rest: int, total: int)
    by (nonlinear_arith)
    requires
        x * x + rest <= total,
        rest >= 0,
        total <= 4_303_360_000,
    ensures
        -65600 <= x <= 65600,
{
}

/// The product of two numbers of bounded size.
proof fn lemma_product_bound(x: int, y: int, bx: int, by: int)
    by (nonlinear_arith)
    requires
        -bx <= x <= bx,
        -by <= y <= by,
    ensures
        -bx * by <= x * y <= bx * by,
{
}

/// A square is not negative.
proof fn lemma_square_is_positive(x: int)
    by (nonlinear_arith)
    ensures
        x * x >= 0,
{
}

/// One step of a rotation, in the plane that it turns: the two rounded
/// images of `(a, b)` and `(a2, b2)` have the dot product of the two,
/// within rounding.
proof fn lemma_turn_keeps_dot(a: int, b: int, a2: int, b2: int, c: int, s1: int, s2: int)
    requires
        s2 == -s1,
        0x1_0000_0000 - 0x4_0000 <= s1 * s1 + c * c <= 0x1_0000_0000 + 0x4_0000,
        -65600 <= a <= 65600,
        -65600 <= b <= 65600,
        -65600 <= a2 <= 65600,
        -65600 <= b2 <= 65600,
    ensures
        -0x11_0000 <= ((a * c + b * s1) / 65536) * ((a2 * c + b2 * s1) / 65536) + ((a * s2 + b
            * c) / 65536) * ((a2 * s2 + b2 * c) / 65536) - (a * a2 + b * b2) <= 0x11_0000,
        -131400 <= (a * c + b * s1) / 65536 <= 131400,
        -131400 <= (a * s2 + b * c) / 65536 <= 131400,
{
    lemma_square_is_positive(c);
    lemma_square_is_positive(s1);
    lemma_short(c, s1 * s1, 4_303_360_000);
    lemma_short(s1, c * c, 4_303_360_000);
    let (u, v) = (a * c + b * s1, a * s2 + b * c);
    let (u2, v2) = (a2 * c + b2 * s1, a2 * s2 + b2 * c);
    let bound = 8_606_720_000int;
    lemma_product_bound(a, c, 65600, 65600);
    lemma_product_bound(b, s1, 65600, 65600);
    lemma_product_bound(a, s2, 65600, 65600);
    lemma_product_bound(b, c, 65600, 65600);
    lemma_product_bound(a2, c, 65600, 65600);
    lemma_product_bound(b2, s1, 65600, 65600);
    lemma_product_bound(a2, s2, 65600, 65600);
    lemma_product_bound(b2, c, 65600, 65600);
    lemma_product_bound(a, a2, 65600, 65600);
    lemma_product_bound(b, b2, 65600, 65600);
    assert(-bound <= u <= bound && -bound <= v <= bound);
    assert(-bound <= u2 <= bound && -bound <= v2 <= bound);
    lemma_rounded_pair(u, u2, bound);
    lemma_rounded_pair(v, v2, bound);
    lemma_rotation_identity(a, b, a2, b2, c, s1, s2);
    let d = a * a2 + b * b2;
    let norm = c * c + s1 * s1;
    assert(-bound <= d <= bound);
    assert(0x1_0000_0000 * d - 0x4_0000 * bound <= d * norm <= 0x1_0000_0000 * d + 0x4_0000
        * bound) by (nonlinear_arith)
        requires
            -bound <= d <= bound,
            0x1_0000_0000 - 0x4_0000 <= norm <= 0x1_0000_0000 + 0x4_0000,
    ;
    let e = (u / 65536) * (u2 / 65536) + (v / 65536) * (v2 / 65536);
    assert(0x1_0000_0000 * ((u / 65536) * (u2 / 65536)) + 0x1_0000_0000 * ((v / 65536) * (v2
        / 65536)) == 0x1_0000_0000 * e);
    assert(-131400 <= u / 65536 <= 131400 && -131400 <= v / 65536 <= 131400);
}

/// What the terms of a dot product are where one factor is zero or one.
spec fn plain_term(a: int, b: int) -> bool {
    &&& b == 0 ==> a * b == 0
    &&& a == 0 ==> a * b == 0
    &&& b == 65536 ==> a * b == 65536 * a
}

proof fn lemma_plain_term(a: int, b: int)
    by (nonlinear_arith)
    ensures
        plain_term(a, b),
{
}

/// The terms of the four dot products of a row and the columns of a
/// matrix.
spec fn plain_terms(p: Vector4, m: Matrix4) -> bool {
    &&& plain_term(p.x@, m.r0.x@) && plain_term(p.y@, m.r1.x@) && plain_term(p.z@, m.r2.x@)
        && plain_term(p.w@, m.r3.x@)
    &&& plain_term(p.x@, m.r0.y@) && plain_term(p.y@, m.r1.y@) && plain_term(p.z@, m.r2.y@)
        && plain_term(p.w@, m.r3.y@)
    &&& plain_term(p.x@, m.r0.z@) && plain_term(p.y@, m.r1.z@) && plain_term(p.z@, m.r2.z@)
        && plain_term(p.w@, m.r3.z@)
    &&& plain_term(p.x@, m.r0.w@) && plain_term(p.y@, m.r1.w@) && plain_term(p.z@, m.r2.w@)
        && plain_term(p.w@, m.r3.w@)
}

proof fn lemma_plain_terms(p: Vector4, m: Matrix4)
    ensures
        plain_terms(p, m),
{
    lemma_plain_term(p.x@, m.r0.x@);
    lemma_plain_term(p.y@, m.r1.x@);
    lemma_plain_term(p.z@, m.r2.x@);
    lemma_plain_term(p.w@, m.r3.x@);
    lemma_plain_term(p.x@, m.r0.y@);
    lemma_plain_term(p.y@, m.r1.y@);
    lemma_plain_term(p.z@, m.r2.y@);
    lemma_plain_term(p.w@, m.r3.y@);
    lemma_plain_term(p.x@, m.r0.z@);
    lemma_plain_term(p.y@, m.r1.z@);
    lemma_plain_term(p.z@, m.r2.z@);
    lemma_plain_term(p.w@, m.r3.z@);
    lemma_plain_term(p.x@, m.r0.w@);
    lemma_plain_term(p.y@, m.r1.w@);
    lemma_plain_term(p.z@, m.r2.w@);
    lemma_plain_term(p.w@, m.r3.w@);
}

/// Whether a row belongs to the block of a rotation: it ends in zero and
/// none of its entries is much longer than one.
pub open spec fn is_block_row(p: Vector4) -> bool {
    &&& p.w@ == 0
    &&& -65600 <= p.x@ <= 65600
    &&& -65600 <= p.y@ <= 65600
    &&& -65600 <= p.z@ <= 65600
}

/// A sine and a cosine are not longer than one, but for rounding.
proof fn lemma_sine_is_short(sin: Fixed, cos: Fixed)
    requires
        is_sine_and_cosine(sin, cos),
    ensures
        -65600 <= sin@ <= 65600,
        -65600 <= cos@ <= 65600,
        sin.negated()@ == -sin@,
{
    lemma_square_is_positive(sin@);
    lemma_square_is_positive(cos@);
    lemma_short(sin@, cos@ * cos@, 4_303_360_000);
    lemma_short(cos@, sin@ * sin@, 4_303_360_000);
}

/// A row times a rotation about the Y axis.
proof fn lemma_row_about_y(p: Vector4, sin: Fixed, cos: Fixed)
    requires
        is_block_row(p),
        is_sine_and_cosine(sin, cos),
    ensures
        Matrix4::spec_row_times(p, rotation_y_matrix(sin, cos)).x@ == (p.x@ * cos@ + p.z@ * (
        -sin@)) / 65536,
        Matrix4::spec_row_times(p, rotation_y_matrix(sin, cos)).y@ == p.y@,
        Matrix4::spec_row_times(p, rotation_y_matrix(sin, cos)).z@ == (p.x@ * sin@ + p.z@
            * cos@) / 65536,
        Matrix4::spec_row_times(p, rotation_y_matrix(sin, cos)).w@ == 0,
{
    lemma_sine_is_short(sin, cos);
    lemma_plain_terms(p, rotation_y_matrix(sin, cos));
    assert((-sin@) * (-sin@) == sin@ * sin@) by (nonlinear_arith);
    lemma_turn_keeps_dot(p.x@, p.z@, p.x@, p.z@, cos@, -sin@, sin@);
}

/// A row times a rotation about the X axis.
proof fn lemma_row_about_x(p: Vector4, sin: Fixed, cos: Fixed)
    requires
        is_block_row(p),
        is_sine_and_cosine(sin, cos),
    ensures
        Matrix4::spec_row_times(p, rotation_x_matrix(sin, cos)).x@ == p.x@,
        Matrix4::spec_row_times(p, rotation_x_matrix(sin, cos)).y@ == (p.y@ * cos@ + p.z@
            * sin@) / 65536,
        Matrix4::spec_row_times(p, rotation_x_matrix(sin, cos)).z@ == (p.y@ * (-sin@) + p.z@
            * cos@) / 65536,
        Matrix4::spec_row_times(p, rotation_x_matrix(sin, cos)).w@ == 0,
{
    lemma_sine_is_short(sin, cos);
    lemma_plain_terms(p, rotation_x_matrix(sin, cos));
    lemma_turn_keeps_dot(p.y@, p.z@, p.y@, p.z@, cos@, sin@, -sin@);
}

/// A row that ends in zero and is not much longer than one belongs to
/// the block.
proof fn lemma_block_row_from_length(p: Vector4)
    requires
        p.w@ == 0,
        block_dot(p, p) <= 4_303_360_000,
    ensures
        is_block_row(p),
{
    lemma_square_is_positive(p.x@);
    lemma_square_is_positive(p.y@);
    lemma_square_is_positive(p.z@);
    lemma_short(p.x@, p.y@ * p.y@ + p.z@ * p.z@, 4_303_360_000);
    lemma_short(p.y@, p.x@ * p.x@ + p.z@ * p.z@, 4_303_360_000);
    lemma_short(p.z@, p.x@ * p.x@ + p.y@ * p.y@, 4_303_360_000);
}

/// A rotation about the Y axis keeps the dot product of two rows, within
/// rounding.
proof fn lemma_pair_about_y(p: Vector4, q: Vector4, sin: Fixed, cos: Fixed)
    requires
        is_block_row(p),
        is_block_row(q),
        is_sine_and_cosine(sin, cos),
    ensures
        -0x11_0000 <= block_dot(
            Matrix4::spec_row_times(p, rotation_y_matrix(sin, cos)),
            Matrix4::spec_row_times(q, rotation_y_matrix(sin, cos)),
        ) - block_dot(p, q) <= 0x11_0000,
        Matrix4::spec_row_times(p, rotation_y_matrix(sin, cos)).w@ == 0,
        Matrix4::spec_row_times(q, rotation_y_matrix(sin, cos)).w@ == 0,
{
    lemma_row_about_y(p, sin, cos);
    lemma_row_about_y(q, sin, cos);
    assert((-sin@) * (-sin@) == sin@ * sin@) by (nonlinear_arith);
    lemma_turn_keeps_dot(p.x@, p.z@, q.x@, q.z@, cos@, -sin@, sin@);
}

/// A rotation about the X axis keeps the dot product of two rows, within
/// rounding.
proof fn lemma_pair_about_x(p: Vector4, q: Vector4, sin: Fixed, cos: Fixed)
    requires
        is_block_row(p),
        is_block_row(q),
        is_sine_and_cosine(sin, cos),
    ensures
        -0x11_0000 <= block_dot(
            Matrix4::spec_row_times(p, rotation_x_matrix(sin, cos)),
            Matrix4::spec_row_times(q, rotation_x_matrix(sin, cos)),
        ) - block_dot(p, q) <= 0x11_0000,
        Matrix4::spec_row_times(p, rotation_x_matrix(sin, cos)).w@ == 0,
        Matrix4::spec_row_times(q, rotation_x_matrix(sin, cos)).w@ == 0,
{
    lemma_row_about_x(p, sin, cos);
    lemma_row_about_x(q, sin, cos);
    lemma_turn_keeps_dot(p.y@, p.z@, q.y@, q.z@, cos@, sin@, -sin@);
}

/// The last row of an affine matrix times a rotation about one axis is
/// the last row again.
proof fn lemma_last_row(sin: Fixed, cos: Fixed)
    ensures
        Matrix4::spec_row_times(
            Vector4 { x: zero(), y: zero(), z: zero(), w: one() },
            rotation_y_matrix(sin, cos),
        ) == (Vector4 { x: zero(), y: zero(), z: zero(), w: one() }),
        Matrix4::spec_row_times(
            Vector4 { x: zero(), y: zero(), z: zero(), w: one() },
            rotation_x_matrix(sin, cos),
        ) == (Vector4 { x: zero(), y: zero(), z: zero(), w: one() }),
{
    let last = Vector4 { x: zero(), y: zero(), z: zero(), w: one() };
    lemma_plain_terms(last, rotation_y_matrix(sin, cos));
    lemma_plain_terms(last, rotation_x_matrix(sin, cos));
    let py = Matrix4::spec_row_times(last, rotation_y_matrix(sin, cos));
    let px = Matrix4::spec_row_times(last, rotation_x_matrix(sin, cos));
    assert(65536 * 65536 == 0x1_0000_0000) by (nonlinear_arith);
    assert(py.x@ == 0 && py.y@ == 0 && py.z@ == 0 && py.w@ == 65536);
    assert(px.x@ == 0 && px.y@ == 0 && px.z@ == 0 && px.w@ == 65536);
}

/// The rotation matrix of three angles is orthonormal within rounding:
/// each of its rows has the length one, any two of them are at right
/// angles, and it is affine without a translation. The squares and
/// products are in units of 2^-32, and the tolerance is one part in a
/// thousand.
pub proof fn rotation_matrix_is_orthonormal(rotation: Rotation)
    requires
        is_rotation(rotation),
    ensures
        rotation_matrix(rotation).r3 == (Vector4 { x: zero(), y: zero(), z: zero(), w: one() }),
        is_block_row(rotation_matrix(rotation).r0),
        is_block_row(rotation_matrix(rotation).r1),
        is_block_row(rotation_matrix(rotation).r2),
        magnitude(
            block_dot(rotation_matrix(rotation).r0, rotation_matrix(rotation).r0) - 0x1_0000_0000,
        ) <= 0x40_0000,
        magnitude(
            block_dot(rotation_matrix(rotation).r1, rotation_matrix(rotation).r1) - 0x1_0000_0000,
        ) <= 0x40_0000,
        magnitude(
            block_dot(rotation_matrix(rotation).r2, rotation_matrix(rotation).r2) - 0x1_0000_0000,
        ) <= 0x40_0000,
        magnitude(block_dot(rotation_matrix(rotation).r0, rotation_matrix(rotation).r1))
            <= 0x40_0000,
        magnitude(block_dot(rotation_matrix(rotation).r0, rotation_matrix(rotation).r2))
            <= 0x40_0000,
        magnitude(block_dot(rotation_matrix(rotation).r1, rotation_matrix(rotation).r2))
            <= 0x40_0000,
{
    let (sx, cx) = (rotation.sin_x, rotation.cos_x);
    let (sy, cy) = (rotation.sin_y, rotation.cos_y);
    let (sz, cz) = (rotation.sin_z, rotation.cos_z);
    let about_z = rotation_z_matrix(sz, cz);
    let about_y = rotation_y_matrix(sy, cy);
    let about_x = rotation_x_matrix(sx, cx);
    let (z0, z1, z2) = (about_z.r0, about_z.r1, about_z.r2);
    lemma_sine_is_short(sz, cz);
    assert(block_dot(z0, z0) == sz@ * sz@ + cz@ * cz@ && block_dot(z1, z1) == sz@ * sz@ + cz@
        * cz@ && block_dot(z0, z1) == 0) by (nonlinear_arith)
        requires
            block_dot(z0, z0) == cz@ * cz@ + (-sz@) * (-sz@) + 0 * 0,
            block_dot(z1, z1) == sz@ * sz@ + cz@ * cz@ + 0 * 0,
            block_dot(z0, z1) == cz@ * sz@ + (-sz@) * cz@ + 0 * 0,
    ;
    assert(block_dot(z2, z2) == 0x1_0000_0000 && block_dot(z0, z2) == 0 && block_dot(z1, z2)
        == 0) by (nonlinear_arith)
        requires
            block_dot(z2, z2) == 0 * 0 + 0 * 0 + 65536 * 65536,
            block_dot(z0, z2) == cz@ * 0 + (-sz@) * 0 + 0 * 65536,
            block_dot(z1, z2) == sz@ * 0 + cz@ * 0 + 0 * 65536,
    ;
    let middle = about_z.spec_product(about_y);
    let (m0, m1, m2) = (middle.r0, middle.r1, middle.r2);
    lemma_pair_about_y(z0, z0, sy, cy);
    lemma_pair_about_y(z1, z1, sy, cy);
    lemma_pair_about_y(z2, z2, sy, cy);
    lemma_pair_about_y(z0, z1, sy, cy);
    lemma_pair_about_y(z0, z2, sy, cy);
    lemma_pair_about_y(z1, z2, sy, cy);
    lemma_block_row_from_length(m0);
    lemma_block_row_from_length(m1);
    lemma_block_row_from_length(m2);
    lemma_pair_about_x(m0, m0, sx, cx);
    lemma_pair_about_x(m1, m1, sx, cx);
    lemma_pair_about_x(m2, m2, sx, cx);
    lemma_pair_about_x(m0, m1, sx, cx);
    lemma_pair_about_x(m0, m2, sx, cx);
    lemma_pair_about_x(m1, m2, sx, cx);
    let all = rotation_matrix(rotation);
    assert(all == middle.spec_product(about_x));
    lemma_block_row_from_length(all.r0);
    lemma_block_row_from_length(all.r1);
    lemma_block_row_from_length(all.r2);
    lemma_last_row(sy, cy);
    lemma_last_row(sx, cx);
}

/// Under a rotation, the model matrix is affine: its upper left block is
/// the scale times the rotation matrix, which is orthonormal within
/// rounding, and its last column is the scale times the translation.
pub proof fn model_matrix_is_a_scaled_rotation(
    translation: Vector3,
    scale: Fixed,
    rotation: Rotation,
)
    requires
        is_rotation(rotation),
    ensures
        model_matrix(translation, scale, rotation) == matrix_of(
            (
                scale.times(rotation_matrix(rotation).r0.x),
                scale.times(rotation_matrix(rotation).r0.y),
                scale.times(rotation_matrix(rotation).r0.z),
                translation.x.times(scale),
            ),
            (
                scale.times(rotation_matrix(rotation).r1.x),
                scale.times(rotation_matrix(rotation).r1.y),
                scale.times(rotation_matrix(rotation).r1.z),
                translation.y.times(scale),
            ),
            (
                scale.times(rotation_matrix(rotation).r2.x),
                scale.times(rotation_matrix(rotation).r2.y),
                scale.times(rotation_matrix(rotation).r2.z),
                translation.z.times(scale),
            ),
            (zero(), zero(), zero(), one()),
        ),
{
    rotation_matrix_is_orthonormal(rotation);
    scale_times_translation(translation, scale);
    let turn = rotation_matrix(rotation);
    let placed = scale_matrix(scale).spec_product(translation_matrix(translation));
    let all = model_matrix(translation, scale, rotation);
    assert(all == placed.spec_product(turn));
    lemma_plain_terms(placed.r0, turn);
    lemma_plain_terms(placed.r1, turn);
    lemma_plain_terms(placed.r2, turn);
    lemma_plain_terms(placed.r3, turn);
    assert(65536 * 65536 == 0x1_0000_0000) by (nonlinear_arith);
    assert(all.r0.w == translation.x.times(scale)) by {
        assert((65536 * translation.x.times(scale)@) / 65536 == translation.x.times(scale)@);
    }
    assert(all.r1.w == translation.y.times(scale)) by {
        assert((65536 * translation.y.times(scale)@) / 65536 == translation.y.times(scale)@);
    }
    assert(all.r2.w == translation.z.times(scale)) by {
        assert((65536 * translation.z.times(scale)@) / 65536 == translation.z.times(scale)@);
    }
    assert(all.r3 == (Vector4 { x: zero(), y: zero(), z: zero(), w: one() }));
}

} // verus!
