//! Barycentric weights: where a point lies with respect to a triangle.
//!
//! Screen coordinates are exact multiples of 1/65536 of a pixel, so the
//! signed areas that the weights are made of are exact integers. The
//! weights are kept as fractions with one denominator, and nothing here
//! rounds but the final interpolation. An area is smaller than every
//! positive tolerance only if it is zero, so a triangle is degenerate
//! exactly if its three vertices lie on one line.

use crate::fixed::{euclidean_quotient, saturate_i128, Fixed};
use crate::vector::Vector3;
use crate::vertex::Vertex;
use vstd::prelude::*;

verus! {

/// Barycentric weights as fractions with one positive denominator: the
/// weights of the first, second and third vertex are `w / denominator`,
/// `v / denominator` and `u / denominator`.
pub struct Barycentric {
    pub w: int,
    pub v: int,
    pub u: int,
    pub denominator: int,
}

/// Barycentric weights of a point with respect to a triangle.
#[derive(Clone, Copy, Debug)]
pub struct Weights {
    pub w: i128,
    pub v: i128,
    pub u: i128,
    pub denominator: i128,
}

impl View for Weights {
    type V = Barycentric;

    open spec fn view(&self) -> Barycentric {
        Barycentric {
            w: self.w as int,
            v: self.v as int,
            u: self.u as int,
            denominator: self.denominator as int,
        }
    }
}

/// Twice the signed area of the triangle `a`, `b`, `c`, in units of
/// 1/65536 of a pixel squared.
pub open spec fn signed_area(a: Vector3, b: Vector3, c: Vector3) -> int {
    (b.y@ - c.y@) * (a.x@ - c.x@) + (c.x@ - b.x@) * (a.y@ - c.y@)
}

/// Twice the signed area of the triangle `p`, `b`, `c`.
pub open spec fn area_opposite_a(px: int, py: int, b: Vector3, c: Vector3) -> int {
    (b.y@ - c.y@) * (px - c.x@) + (c.x@ - b.x@) * (py - c.y@)
}

/// Twice the signed area of the triangle `a`, `p`, `c`.
pub open spec fn area_opposite_b(px: int, py: int, a: Vector3, c: Vector3) -> int {
    (c.y@ - a.y@) * (px - c.x@) + (a.x@ - c.x@) * (py - c.y@)
}

/// The weights of the point `(px, py)`, given in units of 1/65536 of a
/// pixel, with respect to the triangle `a`, `b`, `c`. A triangle without
/// area gives every point the weights -1, -1, -1.
pub open spec fn barycentric(px: int, py: int, a: Vector3, b: Vector3, c: Vector3) -> Barycentric {
    let area = signed_area(a, b, c);
    let w = area_opposite_a(px, py, b, c);
    let v = area_opposite_b(px, py, a, c);
    if area > 0 {
        Barycentric { w, v, u: area - w - v, denominator: area }
    } else if area < 0 {
        Barycentric { w: -w, v: -v, u: w + v - area, denominator: -area }
    } else {
        Barycentric { w: -1, v: -1, u: -1, denominator: 1 }
    }
}

/// Whether the point lies in the closed triangle: no weight is negative.
pub open spec fn covers(weights: Barycentric) -> bool {
    weights.w >= 0 && weights.v >= 0 && weights.u >= 0
}

/// The value that is `z1`, `z2` and `z3` at the three vertices and linear
/// in between, rounded down.
pub open spec fn interpolated(weights: Barycentric, z1: Fixed, z2: Fixed, z3: Fixed) -> Fixed {
    Fixed::of((z1@ * weights.w + z2@ * weights.v + z3@ * weights.u) / weights.denominator)
}

/// The smallest of three numbers.
pub open spec fn least(a: Fixed, b: Fixed, c: Fixed) -> int {
    if a@ <= b@ && a@ <= c@ {
        a@
    } else if b@ <= c@ {
        b@
    } else {
        c@
    }
}

/// The largest of three numbers.
pub open spec fn greatest(a: Fixed, b: Fixed, c: Fixed) -> int {
    if a@ >= b@ && a@ >= c@ {
        a@
    } else if b@ >= c@ {
        b@
    } else {
        c@
    }
}

/// Whether `(px, py)` is a convex combination of `a`, `b` and `c`, with
/// rational coefficients `l1 / s`, `l2 / s`, `l3 / s` where `s` is their
/// sum.
pub open spec fn is_convex_combination(
    px: int,
    py: int,
    a: Vector3,
    b: Vector3,
    c: Vector3,
    l1: int,
    l2: int,
    l3: int,
) -> bool {
    &&& l1 >= 0
    &&& l2 >= 0
    &&& l3 >= 0
    &&& l1 + l2 + l3 > 0
    &&& (l1 + l2 + l3) * px == l1 * a.x@ + l2 * b.x@ + l3 * c.x@
    &&& (l1 + l2 + l3) * py == l1 * a.y@ + l2 * b.y@ + l3 * c.y@
}

/// Whether `(px, py)` lies in the convex hull of `a`, `b` and `c`.
pub open spec fn in_convex_hull(px: int, py: int, a: Vector3, b: Vector3, c: Vector3) -> bool {
    exists|l1: int, l2: int, l3: int| is_convex_combination(px, py, a, b, c, l1, l2, l3)
}

impl Weights {
    /// The denominator is positive and every field is small enough to be
    /// multiplied by a raw value.
    pub open spec fn wf(self) -> bool {
        &&& 0 < self.denominator <= 0x10_0000_0000_0000_0000_0000
        &&& -0x10_0000_0000_0000_0000_0000 <= self.w <= 0x10_0000_0000_0000_0000_0000
        &&& -0x10_0000_0000_0000_0000_0000 <= self.v <= 0x10_0000_0000_0000_0000_0000
        &&& -0x10_0000_0000_0000_0000_0000 <= self.u <= 0x10_0000_0000_0000_0000_0000
    }

    /// Whether the point lies in the closed triangle.
    pub fn covers(&self) -> (r: bool)
        ensures
            r == covers(self@),
    {
        self.w >= 0 && self.v >= 0 && self.u >= 0
    }

    /// Interpolates a quantity that has the values `z1`, `z2` and `z3` at
    /// the three vertices: the weighted sum, rounded down and saturated.
    pub fn interpolate(&self, z1: Fixed, z2: Fixed, z3: Fixed) -> (r: Fixed)
        requires
            self.wf(),
        ensures
            r == interpolated(self@, z1, z2, z3),
    {
        let t1: i128 = weighted(z1.raw, self.w);
        let t2: i128 = weighted(z2.raw, self.v);
        let t3: i128 = weighted(z3.raw, self.u);
        let q: i128 = euclidean_quotient(t1 + t2 + t3, self.denominator);
        Fixed { raw: saturate_i128(q) }
    }
}

fn weighted(z: i32, weight: i128) -> (r: i128)
    requires
        -0x10_0000_0000_0000_0000_0000 <= weight <= 0x10_0000_0000_0000_0000_0000,
    ensures
        r == z * weight,
        -0x8_0000_0000_0000_0000_0000_0000_0000 <= r <= 0x8_0000_0000_0000_0000_0000_0000_0000,
{
    assert(-0x8_0000_0000_0000_0000_0000_0000_0000 <= z * weight
        <= 0x8_0000_0000_0000_0000_0000_0000_0000) by (nonlinear_arith)
        requires
            -0x8000_0000 <= z <= 0x7fff_ffff,
            -0x10_0000_0000_0000_0000_0000 <= weight <= 0x10_0000_0000_0000_0000_0000,
    ;
    (z as i128) * weight
}

fn cross_term(p: i128, q: i128, r: i128, s: i128) -> (t: i128)
    requires
        -0x1_0000_0000 <= p <= 0x1_0000_0000,
        -0x1_0000_0000 <= r <= 0x1_0000_0000,
        -0x2_0000_0000_0000 <= q <= 0x2_0000_0000_0000,
        -0x2_0000_0000_0000 <= s <= 0x2_0000_0000_0000,
    ensures
        t == p * q + r * s,
        -0x4_0000_0000_0000_0000_0000 <= t <= 0x4_0000_0000_0000_0000_0000,
{
    assert(-0x2_0000_0000_0000_0000_0000 <= p * q <= 0x2_0000_0000_0000_0000_0000)
        by (nonlinear_arith)
        requires
            -0x1_0000_0000 <= p <= 0x1_0000_0000,
            -0x2_0000_0000_0000 <= q <= 0x2_0000_0000_0000,
    ;
    assert(-0x2_0000_0000_0000_0000_0000 <= r * s <= 0x2_0000_0000_0000_0000_0000)
        by (nonlinear_arith)
        requires
            -0x1_0000_0000 <= r <= 0x1_0000_0000,
            -0x2_0000_0000_0000 <= s <= 0x2_0000_0000_0000,
    ;
    p * q + r * s
}

/// The weights of a point that is given in units of 1/65536 of a pixel.
fn weights_of(px: i64, py: i64, a: &Vector3, b: &Vector3, c: &Vector3) -> (r: Weights)
    requires
        -0x1_0000_0000_0000 <= px <= 0x1_0000_0000_0000,
        -0x1_0000_0000_0000 <= py <= 0x1_0000_0000_0000,
    ensures
        r@ == barycentric(px as int, py as int, *a, *b, *c),
        r.wf(),
{
    let ax: i128 = a.x.raw as i128;
    let ay: i128 = a.y.raw as i128;
    let bx: i128 = b.x.raw as i128;
    let by: i128 = b.y.raw as i128;
    let cx: i128 = c.x.raw as i128;
    let cy: i128 = c.y.raw as i128;
    let qx: i128 = px as i128 - cx;
    let qy: i128 = py as i128 - cy;
    let area: i128 = cross_term(by - cy, ax - cx, cx - bx, ay - cy);
    let w: i128 = cross_term(by - cy, qx, cx - bx, qy);
    let v: i128 = cross_term(cy - ay, qx, ax - cx, qy);
    if area > 0 {
        Weights { w, v, u: area - w - v, denominator: area }
    } else if area < 0 {
        Weights { w: -w, v: -v, u: w + v - area, denominator: -area }
    } else {
        Weights { w: -1, v: -1, u: -1, denominator: 1 }
    }
}

/// The barycentric weights of the pixel `(x, y)` with respect to the
/// screen positions of `a`, `b` and `c`, in that order.
pub fn barycentric_at_pixel(x: i32, y: i32, a: &Vertex, b: &Vertex, c: &Vertex) -> (r: Weights)
    ensures
        r@ == barycentric(
            x * 65536,
            y * 65536,
            a.transformed_position,
            b.transformed_position,
            c.transformed_position,
        ),
        r.wf(),
{
    weights_of(
        (x as i64) * 65536,
        (y as i64) * 65536,
        &a.transformed_position,
        &b.transformed_position,
        &c.transformed_position,
    )
}

/// The barycentric weights of the point `(p_x, p_y)` with respect to the
/// screen positions of `a`, `b` and `c`, in that order.
pub fn barycentric_coordinates(p_x: Fixed, p_y: Fixed, a: &Vertex, b: &Vertex, c: &Vertex) -> (r:
    Weights)
    ensures
        r@ == barycentric(
            p_x@,
            p_y@,
            a.transformed_position,
            b.transformed_position,
            c.transformed_position,
        ),
        r.wf(),
{
    weights_of(
        p_x.raw as i64,
        p_y.raw as i64,
        &a.transformed_position,
        &b.transformed_position,
        &c.transformed_position,
    )
}

/// At the first vertex of a triangle with area, the weights are 1, 0
/// and 0.
pub proof fn weights_at_first_vertex(a: Vector3, b: Vector3, c: Vector3)
    requires
        signed_area(a, b, c) != 0,
    ensures
        barycentric(a.x@, a.y@, a, b, c).w == barycentric(a.x@, a.y@, a, b, c).denominator,
        barycentric(a.x@, a.y@, a, b, c).v == 0,
        barycentric(a.x@, a.y@, a, b, c).u == 0,
{
    let (ax, ay, cx, cy) = (a.x@, a.y@, c.x@, c.y@);
    assert((cy - ay) * (ax - cx) + (ax - cx) * (ay - cy) == 0) by (nonlinear_arith);
}

/// At the centroid of a triangle with area, each weight is one third.
pub proof fn weights_at_centroid(px: int, py: int, a: Vector3, b: Vector3, c: Vector3)
    requires
        signed_area(a, b, c) != 0,
        3 * px == a.x@ + b.x@ + c.x@,
        3 * py == a.y@ + b.y@ + c.y@,
    ensures
        3 * barycentric(px, py, a, b, c).w == barycentric(px, py, a, b, c).denominator,
        3 * barycentric(px, py, a, b, c).v == barycentric(px, py, a, b, c).denominator,
        3 * barycentric(px, py, a, b, c).u == barycentric(px, py, a, b, c).denominator,
{
    let (ax, ay, bx, by, cx, cy) = (a.x@, a.y@, b.x@, b.y@, c.x@, c.y@);
    let area = signed_area(a, b, c);
    let w = area_opposite_a(px, py, b, c);
    let v = area_opposite_b(px, py, a, c);
    assert(3 * w == area) by (nonlinear_arith)
        requires
            area == (by - cy) * (ax - cx) + (cx - bx) * (ay - cy),
            w == (by - cy) * (px - cx) + (cx - bx) * (py - cy),
            3 * px == ax + bx + cx,
            3 * py == ay + by + cy,
    ;
    assert(3 * v == area) by (nonlinear_arith)
        requires
            area == (by - cy) * (ax - cx) + (cx - bx) * (ay - cy),
            v == (cy - ay) * (px - cx) + (ax - cx) * (py - cy),
            3 * px == ax + bx + cx,
            3 * py == ay + by + cy,
    ;
}

/// The weights of a triangle with area add up to one.
pub proof fn weights_sum_to_one(px: int, py: int, a: Vector3, b: Vector3, c: Vector3)
    requires
        signed_area(a, b, c) != 0,
    ensures
        barycentric(px, py, a, b, c).w + barycentric(px, py, a, b, c).v + barycentric(
            px,
            py,
            a,
            b,
            c,
        ).u == barycentric(px, py, a, b, c).denominator,
        barycentric(px, py, a, b, c).denominator > 0,
{
}

/// The weights of a point express it as a combination of the vertices:
/// `denominator * p == w * a + v * b + u * c`.
pub proof fn weights_reproduce_point(px: int, py: int, a: Vector3, b: Vector3, c: Vector3)
    requires
        signed_area(a, b, c) != 0,
    ensures
        barycentric(px, py, a, b, c).denominator * px == barycentric(px, py, a, b, c).w * a.x@
            + barycentric(px, py, a, b, c).v * b.x@ + barycentric(px, py, a, b, c).u * c.x@,
        barycentric(px, py, a, b, c).denominator * py == barycentric(px, py, a, b, c).w * a.y@
            + barycentric(px, py, a, b, c).v * b.y@ + barycentric(px, py, a, b, c).u * c.y@,
{
    let (ax, ay, bx, by, cx, cy) = (a.x@, a.y@, b.x@, b.y@, c.x@, c.y@);
    let area = signed_area(a, b, c);
    let w = area_opposite_a(px, py, b, c);
    let v = area_opposite_b(px, py, a, c);
    lemma_cramer(ax - cx, ay - cy, bx - cx, by - cy, cx - bx, cy - ay, px - cx, py - cy);
    lemma_recentre(area, w, v, ax, bx, cx, px);
    lemma_recentre(area, w, v, ay, by, cy, py);
    if area < 0 {
        lemma_negate_combination(area, w, v, ax, bx, cx, px);
        lemma_negate_combination(area, w, v, ay, by, cy, py);
    }
}

/// A point outside the convex hull of the three vertices has a negative
/// weight, so the triangle does not cover it.
pub proof fn outside_hull_is_not_covered(px: int, py: int, a: Vector3, b: Vector3, c: Vector3)
    requires
        !in_convex_hull(px, py, a, b, c),
    ensures
        !covers(barycentric(px, py, a, b, c)),
        barycentric(px, py, a, b, c).w < 0 || barycentric(px, py, a, b, c).v < 0 || barycentric(
            px,
            py,
            a,
            b,
            c,
        ).u < 0,
{
    let r = barycentric(px, py, a, b, c);
    if covers(r) {
        assert(signed_area(a, b, c) != 0);
        weights_reproduce_point(px, py, a, b, c);
        assert(is_convex_combination(px, py, a, b, c, r.w, r.v, r.u));
    }
}

/// A triangle with area covers every point of the convex hull of its
/// vertices.
pub proof fn inside_hull_is_covered(px: int, py: int, a: Vector3, b: Vector3, c: Vector3)
    requires
        signed_area(a, b, c) != 0,
        in_convex_hull(px, py, a, b, c),
    ensures
        covers(barycentric(px, py, a, b, c)),
{
    let (l1, l2, l3) = choose|l1: int, l2: int, l3: int|
        is_convex_combination(px, py, a, b, c, l1, l2, l3);
    assert(is_convex_combination(px, py, a, b, c, l1, l2, l3));
    let (ax, ay, bx, by, cx, cy) = (a.x@, a.y@, b.x@, b.y@, c.x@, c.y@);
    let area = signed_area(a, b, c);
    let w = area_opposite_a(px, py, b, c);
    let v = area_opposite_b(px, py, a, c);
    let s = l1 + l2 + l3;
    lemma_centre_combination(s, l1, l2, l3, ax, bx, cx, px);
    lemma_centre_combination(s, l1, l2, l3, ay, by, cy, py);
    lemma_shares(ax - cx, ay - cy, bx - cx, by - cy, cx - bx, cy - ay, px - cx, py - cy, s, l1, l2);
    assert(s * (area - w - v) == l3 * area) by {
        lemma_distribute(area - w, v, s);
        lemma_distribute(area, w, s);
        lemma_distribute(l1 + l2, l3, area);
        lemma_distribute(l1, l2, area);
    }
    lemma_sign_of_share(s, w, l1, area);
    lemma_sign_of_share(s, v, l2, area);
    lemma_sign_of_share(s, area - w - v, l3, area);
}

/// Where the triangle covers a point, an interpolated quantity lies
/// between the least and the greatest of its three values, so nothing
/// saturates.
pub proof fn interpolation_stays_in_range(weights: Barycentric, z1: Fixed, z2: Fixed, z3: Fixed)
    requires
        covers(weights),
        weights.denominator > 0,
        weights.w + weights.v + weights.u == weights.denominator,
    ensures
        least(z1, z2, z3) <= interpolated(weights, z1, z2, z3)@ <= greatest(z1, z2, z3),
        interpolated(weights, z1, z2, z3)@ == (z1@ * weights.w + z2@ * weights.v + z3@
            * weights.u) / weights.denominator,
{
    let lo = least(z1, z2, z3);
    let hi = greatest(z1, z2, z3);
    let d = weights.denominator;
    let total = z1@ * weights.w + z2@ * weights.v + z3@ * weights.u;
    lemma_weighted_bounds(z1@, weights.w, lo, hi);
    lemma_weighted_bounds(z2@, weights.v, lo, hi);
    lemma_weighted_bounds(z3@, weights.u, lo, hi);
    lemma_distribute(weights.w + weights.v, weights.u, lo);
    lemma_distribute(weights.w, weights.v, lo);
    lemma_distribute(weights.w + weights.v, weights.u, hi);
    lemma_distribute(weights.w, weights.v, hi);
    assert(lo * d <= total <= hi * d);
    lemma_quotient_between(total, d, lo, hi);
}

/// `(x * y) * z == (x * z) * y`.
proof fn lemma_swap_factors(x: int, y: int, z: int)
    by (nonlinear_arith)
    ensures
        (x * y) * z == (x * z) * y,
        (x * y) * z == (z * y) * x,
        (x * y) * z == (z * x) * y,
{
}

/// `(x - y) * z == x * z - y * z`.
proof fn lemma_distribute(x: int, y: int, z: int)
    by (nonlinear_arith)
    ensures
        (x - y) * z == x * z - y * z,
        z * (x - y) == z * x - z * y,
        (x + y) * z == x * z + y * z,
        z * (x + y) == z * x + z * y,
{
}

/// Cramer's rule for two vectors `A`, `B` of the plane and a third, `P`:
/// with `det = By * Ax - Bx * Ay`, `det * P` is the combination of `A`
/// and `B` with the coefficients `By * Px - Bx * Py` and
/// `Ax * Py - Ay * Px`. The negated coordinates come as `nbx` and `nay`.
proof fn lemma_cramer(ax: int, ay: int, bx: int, by: int, nbx: int, nay: int, px: int, py: int)
    requires
        nbx == -bx,
        nay == -ay,
    ensures
        (by * px + nbx * py) * ax + (nay * px + ax * py) * bx == (by * ax + nbx * ay) * px,
        (by * px + nbx * py) * ay + (nay * px + ax * py) * by == (by * ax + nbx * ay) * py,
{
    lemma_distribute(by * px, nbx * py, ax);
    lemma_distribute(nay * px, ax * py, bx);
    lemma_distribute(by * ax, nbx * ay, px);
    lemma_swap_factors(by, px, ax);
    assert((nbx * py) * ax + (ax * py) * bx == 0) by (nonlinear_arith)
        requires
            nbx == -bx,
    ;
    assert((nay * px) * bx == (nbx * ay) * px) by (nonlinear_arith)
        requires
            nbx == -bx,
            nay == -ay,
    ;

    lemma_distribute(by * px, nbx * py, ay);
    lemma_distribute(nay * px, ax * py, by);
    lemma_distribute(by * ax, nbx * ay, py);
    assert((nay * px) * by + (by * px) * ay == 0) by (nonlinear_arith)
        requires
            nay == -ay,
    ;
    assert((ax * py) * by == (by * ax) * py) by (nonlinear_arith);
    lemma_swap_factors(nbx, py, ay);
}

/// A combination of `a - c` and `b - c` that gives `area * (p - c)` is a
/// combination of `a`, `b` and `c` that gives `area * p`.
proof fn lemma_recentre(area: int, w: int, v: int, a: int, b: int, c: int, p: int)
    requires
        w * (a - c) + v * (b - c) == area * (p - c),
    ensures
        area * p == w * a + v * b + (area - w - v) * c,
{
    lemma_distribute(a, c, w);
    lemma_distribute(b, c, v);
    lemma_distribute(p, c, area);
    lemma_distribute(area, w, c);
    lemma_distribute(area - w, v, c);
    assert(w * (a - c) == w * a - w * c);
    assert(v * (b - c) == v * b - v * c);
    assert(area * (p - c) == area * p - area * c);
    assert((area - w - v) * c == area * c - w * c - v * c);
}

/// Negating every coefficient of a combination keeps it a combination.
proof fn lemma_negate_combination(area: int, w: int, v: int, a: int, b: int, c: int, p: int)
    by (nonlinear_arith)
    requires
        area * p == w * a + v * b + (area - w - v) * c,
    ensures
        (-area) * p == (-w) * a + (-v) * b + (w + v - area) * c,
{
}

/// A combination of `a`, `b` and `c` with the sum `s` of its coefficients,
/// seen from `c`.
proof fn lemma_centre_combination(
    s: int,
    l1: int,
    l2: int,
    l3: int,
    a: int,
    b: int,
    c: int,
    p: int,
)
    requires
        s == l1 + l2 + l3,
        s * p == l1 * a + l2 * b + l3 * c,
    ensures
        s * (p - c) == l1 * (a - c) + l2 * (b - c),
{
    lemma_distribute(p, c, s);
    lemma_distribute(a, c, l1);
    lemma_distribute(b, c, l2);
    lemma_distribute(l1 + l2, l3, c);
    lemma_distribute(l1, l2, c);
}

/// If `s * P == l1 * A + l2 * B` in the plane, then the two areas that
/// `P` spans with `B` and with `A` are the shares `l1 / s` and `l2 / s`
/// of the area that `A` and `B` span.
proof fn lemma_shares(
    ax: int,
    ay: int,
    bx: int,
    by: int,
    nbx: int,
    nay: int,
    px: int,
    py: int,
    s: int,
    l1: int,
    l2: int,
)
    requires
        nbx == -bx,
        nay == -ay,
        s * px == l1 * ax + l2 * bx,
        s * py == l1 * ay + l2 * by,
    ensures
        s * (by * px + nbx * py) == l1 * (by * ax + nbx * ay),
        s * (nay * px + ax * py) == l2 * (by * ax + nbx * ay),
{
    let sx = s * px;
    let sy = s * py;
    lemma_distribute(by * px, nbx * py, s);
    assert(s * (by * px) == by * sx) by (nonlinear_arith)
        requires
            sx == s * px,
    ;
    assert(s * (nbx * py) == nbx * sy) by (nonlinear_arith)
        requires
            sy == s * py,
    ;
    lemma_distribute(l1 * ax, l2 * bx, by);
    lemma_distribute(l1 * ay, l2 * by, nbx);
    assert(by * (l1 * ax) == l1 * (by * ax)) by (nonlinear_arith);
    assert(by * (l2 * bx) + nbx * (l2 * by) == 0) by (nonlinear_arith)
        requires
            nbx == -bx,
    ;
    assert(nbx * (l1 * ay) == l1 * (nbx * ay)) by (nonlinear_arith);
    lemma_distribute(by * ax, nbx * ay, l1);

    lemma_distribute(nay * px, ax * py, s);
    assert(s * (nay * px) == nay * sx) by (nonlinear_arith)
        requires
            sx == s * px,
    ;
    assert(s * (ax * py) == ax * sy) by (nonlinear_arith)
        requires
            sy == s * py,
    ;
    lemma_distribute(l1 * ax, l2 * bx, nay);
    lemma_distribute(l1 * ay, l2 * by, ax);
    assert(nay * (l1 * ax) + ax * (l1 * ay) == 0) by (nonlinear_arith)
        requires
            nay == -ay,
    ;
    assert(nay * (l2 * bx) == l2 * (nbx * ay)) by (nonlinear_arith)
        requires
            nbx == -bx,
            nay == -ay,
    ;
    assert(ax * (l2 * by) == l2 * (by * ax)) by (nonlinear_arith);
    lemma_distribute(by * ax, nbx * ay, l2);
}

/// If `s * x == l * area` with `s > 0` and `l >= 0`, then `x` is zero or
/// has the sign of `area`.
proof fn lemma_sign_of_share(s: int, x: int, l: int, area: int)
    by (nonlinear_arith)
    requires
        s > 0,
        l >= 0,
        s * x == l * area,
    ensures
        area > 0 ==> x >= 0,
        area < 0 ==> x <= 0,
{
}

/// `lo * w <= z * w <= hi * w` for `lo <= z <= hi` and `w >= 0`.
proof fn lemma_weighted_bounds(z: int, w: int, lo: int, hi: int)
    by (nonlinear_arith)
    requires
        lo <= z <= hi,
        w >= 0,
    ensures
        lo * w <= z * w <= hi * w,
        w * lo <= z * w <= w * hi,
{
}

/// If `lo * d <= total <= hi * d` with `d > 0`, then
/// `lo <= total / d <= hi`.
proof fn lemma_quotient_between(total: int, d: int, lo: int, hi: int)
    requires
        d > 0,
        lo * d <= total <= hi * d,
    ensures
        lo <= total / d <= hi,
{
    let q = total / d;
    let r = total % d;
    vstd::arithmetic::div_mod::lemma_fundamental_div_mod(total, d);
    vstd::arithmetic::div_mod::lemma_mod_bound(total, d);
    assert(lo <= q) by (nonlinear_arith)
        requires
            total == d * q + r,
            0 <= r < d,
            lo * d <= total,
            d > 0,
    ;
    assert(q <= hi) by (nonlinear_arith)
        requires
            total == d * q + r,
            0 <= r < d,
            total <= hi * d,
            d > 0,
    ;
}

} // verus!
