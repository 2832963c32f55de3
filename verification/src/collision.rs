//! Keeps the camera out of the bodies of a scene.
//!
//! The camera and the point it looks at are spheres of radius two; a body
//! of scale `s` is a sphere of radius `0.8 * s`, which is `4 * s / 5` in
//! exact integers. A point that has entered a body is moved along the
//! line from the body's center through the point, out to where the two
//! spheres touch.

use crate::fixed::{
    euclidean_quotient, integer_sqrt_is_unique, lemma_rounded_pair, saturate_i128, Fixed,
};
use crate::vector::{unit_vector_has_unit_length, unit_vector_is_bounded, Vector3};
use vstd::prelude::*;

verus! {

/// Raw value of the camera's collision radius, the number two.
pub const CAMERA_RADIUS: i32 = 131_072;

/// A body of the scene: where it is now, and how large.
#[derive(Clone, Copy, Debug, PartialEq, Eq, Structural)]
pub struct Body {
    pub position: Vector3,
    pub scale: Fixed,
}

/// Whether two spheres overlap: the distance of their centers is smaller
/// than the sum of their radii.
pub open spec fn collides(pos1: Vector3, radius1: Fixed, pos2: Vector3, radius2: Fixed) -> bool {
    pos1.spec_minus(pos2).spec_length()@ < radius1.plus(radius2)@
}

/// The collision radius of a body: four fifths of its scale.
pub open spec fn body_radius(body: Body) -> Fixed {
    Fixed::of((body.scale@ * 4) / 5)
}

/// Where a point of the camera rests with respect to one body: a point
/// that has entered the body, but is not at its center, moves away from
/// the center to the distance at which the two spheres touch.
pub open spec fn pushed_out(position: Vector3, body: Body) -> Vector3 {
    let camera_radius = Fixed { raw: 131_072 };
    let difference = position.spec_minus(body.position);
    let distance = difference.spec_length();
    if collides(position, camera_radius, body.position, body_radius(body)) && distance@ > 0 {
        let reach = body_radius(body).plus(camera_radius);
        body.position.spec_plus(difference.spec_normalized().spec_scaled(reach))
    } else {
        position
    }
}

/// Where a point of the camera rests after the first `n` bodies have
/// pushed it out, one after the other.
pub open spec fn pushed_out_of(position: Vector3, bodies: Seq<Body>, n: nat) -> Vector3
    decreases n,
{
    if n == 0 {
        position
    } else {
        pushed_out(pushed_out_of(position, bodies, (n - 1) as nat), bodies[n - 1])
    }
}

/// Whether two spheres overlap.
pub fn check_collision(pos1: Vector3, radius1: Fixed, pos2: Vector3, radius2: Fixed) -> (r: bool)
    ensures
        r == collides(pos1, radius1, pos2, radius2),
{
    let distance: Fixed = pos1.minus(pos2).length();
    distance.raw < radius1.saturating_add(radius2).raw
}

/// Moves a point of the camera out of one body.
pub fn push_out(position: Vector3, body: &Body) -> (r: Vector3)
    ensures
        r == pushed_out(position, *body),
{
    let camera_radius: Fixed = Fixed::from_raw(CAMERA_RADIUS);
    let body_radius: Fixed = Fixed {
        raw: saturate_i128(euclidean_quotient((body.scale.raw as i128) * 4, 5)),
    };
    if check_collision(position, camera_radius, body.position, body_radius) {
        let difference: Vector3 = position.minus(body.position);
        let distance: Fixed = difference.length();
        if distance.raw > 0 {
            let min_distance: Fixed = body_radius.saturating_add(camera_radius);
            return body.position.plus(difference.normalized().scaled(min_distance));
        }
    }
    position
}

/// Moves the camera and the point it looks at out of every body, body by
/// body.
pub fn avoid_collision(
    camera_pos: Vector3,
    target_pos: Vector3,
    celestial_bodies: &Vec<Body>,
) -> (r: (Vector3, Vector3))
    ensures
        r.0 == pushed_out_of(camera_pos, celestial_bodies@, celestial_bodies@.len()),
        r.1 == pushed_out_of(target_pos, celestial_bodies@, celestial_bodies@.len()),
{
    let mut new_camera_pos: Vector3 = camera_pos;
    let mut new_target_pos: Vector3 = target_pos;
    let mut i: usize = 0;
    while i < celestial_bodies.len()
        invariant
            i <= celestial_bodies.len(),
            new_camera_pos == pushed_out_of(camera_pos, celestial_bodies@, i as nat),
            new_target_pos == pushed_out_of(target_pos, celestial_bodies@, i as nat),
        decreases celestial_bodies.len() - i,
    {
        new_camera_pos = push_out(new_camera_pos, &celestial_bodies[i]);
        new_target_pos = push_out(new_target_pos, &celestial_bodies[i]);
        i = i + 1;
    }
    (new_camera_pos, new_target_pos)
}

/// A point that touches no body stays where it is.
pub proof fn clear_point_stays(position: Vector3, bodies: Seq<Body>, n: nat)
    requires
        n <= bodies.len(),
        forall|i: int|
            0 <= i < n ==> !collides(
                position,
                Fixed { raw: 131_072 },
                bodies[i].position,
                body_radius(#[trigger] bodies[i]),
            ),
    ensures
        pushed_out_of(position, bodies, n) == position,
    decreases n,
{
    if n > 0 {
        clear_point_stays(position, bodies, (n - 1) as nat);
    }
}

/// A point that a body has pushed out lies where the two spheres touch:
/// its distance from the body's center is the sum of the two radii,
/// within rounding. With `reach` for that sum and `d` for the distance,
/// both in units of 1/65536, `d * d` differs from `reach * reach` by no
/// more than `reach * reach / 4096 + 6 * reach + 3`. This holds where the
/// body and the touching sphere lie in the representable space.
pub proof fn pushed_point_touches_the_body(position: Vector3, body: Body)
    requires
        collides(position, Fixed { raw: 131_072 }, body.position, body_radius(body)),
        position.spec_minus(body.position).spec_length()@ > 0,
        -0x8000_0000 <= body.position.x@ - body_radius(body)@ - 131_072,
        -0x8000_0000 <= body.position.y@ - body_radius(body)@ - 131_072,
        -0x8000_0000 <= body.position.z@ - body_radius(body)@ - 131_072,
        body.position.x@ + body_radius(body)@ + 131_072 <= 0x7fff_ffff,
        body.position.y@ + body_radius(body)@ + 131_072 <= 0x7fff_ffff,
        body.position.z@ + body_radius(body)@ + 131_072 <= 0x7fff_ffff,
        body_radius(body)@ >= 0,
    ensures
        ({
            let reach = body_radius(body)@ + 131_072;
            let moved = pushed_out(position, body).spec_minus(body.position).squared_length();
            -(reach * reach + 24576 * reach + 12288) <= 4096 * (moved - reach * reach) <= reach
                * reach + 24576 * reach + 12288
        }),
{
    let difference = position.spec_minus(body.position);
    let reach = body_radius(body)@ + 131_072;
    if difference.squared_length() == 0 {
        integer_sqrt_is_unique(0, 0);
    }
    unit_vector_has_unit_length(difference);
    unit_vector_is_bounded(difference);
    let unit = difference.spec_normalized();
    let (ux, uy, uz) = (unit.x@ * reach, unit.y@ * reach, unit.z@ * reach);
    let bound = 65536 * reach;
    lemma_stretch(unit.x@, reach);
    lemma_stretch(unit.y@, reach);
    lemma_stretch(unit.z@, reach);
    lemma_rounded_pair(ux, ux, bound);
    lemma_rounded_pair(uy, uy, bound);
    lemma_rounded_pair(uz, uz, bound);
    let (mx, my, mz) = (ux / 65536, uy / 65536, uz / 65536);
    lemma_within(ux, reach);
    lemma_within(uy, reach);
    lemma_within(uz, reach);
    let pushed = pushed_out(position, body);
    assert(pushed.x@ == body.position.x@ + mx);
    assert(pushed.y@ == body.position.y@ + my);
    assert(pushed.z@ == body.position.z@ + mz);
    let moved = pushed.spec_minus(body.position);
    assert(moved.x@ == mx && moved.y@ == my && moved.z@ == mz);
    let squares = unit.squared_length();
    assert(ux * ux + uy * uy + uz * uz == (reach * reach) * squares) by (nonlinear_arith)
        requires
            ux == unit.x@ * reach,
            uy == unit.y@ * reach,
            uz == unit.z@ * reach,
            squares == unit.x@ * unit.x@ + unit.y@ * unit.y@ + unit.z@ * unit.z@,
    ;
    let rr = reach * reach;
    assert(rr >= 0) by (nonlinear_arith)
        requires
            rr == reach * reach,
    ;
    assert(0x1_0000_0000 * rr - 0x10_0000 * rr <= rr * squares <= 0x1_0000_0000 * rr + 0x10_0000
        * rr) by (nonlinear_arith)
        requires
            rr >= 0,
            0x1_0000_0000 - 0x10_0000 <= squares <= 0x1_0000_0000 + 0x10_0000,
    ;
    let total = mx * mx + my * my + mz * mz;
    assert(0x1_0000_0000 * (mx * mx) + 0x1_0000_0000 * (my * my) + 0x1_0000_0000 * (mz * mz)
        == 0x1_0000_0000 * total);
    assert(131072 * bound == 0x2_0000_0000 * reach);
}

/// A component of a unit vector times a length is no longer than the
/// length.
proof fn lemma_stretch(u: int, reach: int)
    by (nonlinear_arith)
    requires
        -65536 <= u <= 65536,
        reach >= 0,
    ensures
        -65536 * reach <= u * reach <= 65536 * reach,
{
}

/// A rounded quotient of a number within `65536 * reach` lies within
/// `reach`.
proof fn lemma_within(u: int, reach: int)
    requires
        -65536 * reach <= u <= 65536 * reach,
    ensures
        -reach <= u / 65536 <= reach,
{
}

} // verus!
