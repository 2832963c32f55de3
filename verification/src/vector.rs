//! Vectors of two, three and four fixed-point components.

use crate::fixed::{
    euclidean_quotient, integer_sqrt, integer_sqrt_exists, integer_sqrt_wide, is_integer_sqrt,
    magnitude, raw_product, saturate_i128, sqrt_floor, Fixed,
};
use vstd::prelude::*;

verus! {

/// A pair of numbers, such as a texture coordinate.
#[derive(Clone, Copy, Debug, PartialEq, Eq, Structural)]
pub struct Vector2 {
    pub x: Fixed,
    pub y: Fixed,
}

/// A point, a direction or a color in three dimensions.
#[derive(Clone, Copy, Debug, PartialEq, Eq, Structural)]
pub struct Vector3 {
    pub x: Fixed,
    pub y: Fixed,
    pub z: Fixed,
}

/// A point or a direction in homogeneous coordinates.
#[derive(Clone, Copy, Debug, PartialEq, Eq, Structural)]
pub struct Vector4 {
    pub x: Fixed,
    pub y: Fixed,
    pub z: Fixed,
    pub w: Fixed,
}

impl Vector2 {
    pub fn new(x: Fixed, y: Fixed) -> (r: Vector2)
        ensures
            r == (Vector2 { x, y }),
    {
        Vector2 { x, y }
    }
}

impl Vector3 {
    /// Componentwise sum.
    pub open spec fn spec_plus(self, rhs: Vector3) -> Vector3 {
        Vector3 { x: self.x.plus(rhs.x), y: self.y.plus(rhs.y), z: self.z.plus(rhs.z) }
    }

    /// Componentwise difference.
    pub open spec fn spec_minus(self, rhs: Vector3) -> Vector3 {
        Vector3 { x: self.x.minus(rhs.x), y: self.y.minus(rhs.y), z: self.z.minus(rhs.z) }
    }

    /// Every component times `k`.
    pub open spec fn spec_scaled(self, k: Fixed) -> Vector3 {
        Vector3 { x: self.x.times(k), y: self.y.times(k), z: self.z.times(k) }
    }

    /// Dot product: the exact sum of the three products, rounded once.
    pub open spec fn spec_dot(self, rhs: Vector3) -> Fixed {
        Fixed::of((self.x@ * rhs.x@ + self.y@ * rhs.y@ + self.z@ * rhs.z@) / 65536)
    }

    /// Cross product: each component is an exact difference of two
    /// products, rounded once.
    pub open spec fn spec_cross(self, rhs: Vector3) -> Vector3 {
        Vector3 {
            x: Fixed::of((self.y@ * rhs.z@ - self.z@ * rhs.y@) / 65536),
            y: Fixed::of((self.z@ * rhs.x@ - self.x@ * rhs.z@) / 65536),
            z: Fixed::of((self.x@ * rhs.y@ - self.y@ * rhs.x@) / 65536),
        }
    }

    /// Sum of the squares of the raw components.
    pub open spec fn squared_length(self) -> int {
        self.x@ * self.x@ + self.y@ * self.y@ + self.z@ * self.z@
    }

    /// Euclidean length: the integer square root of the squared length.
    pub open spec fn spec_length(self) -> Fixed {
        Fixed::of(sqrt_floor(self.squared_length()))
    }

    /// The length in units of 2^-32: the integer square root of the
    /// squared length times 2^32. It has sixteen more fractional bits than
    /// the components, so that short vectors have a precise length too.
    pub open spec fn fine_length(self) -> int {
        sqrt_floor(self.squared_length() * 0x1_0000_0000)
    }

    /// The vector divided by its length, each component rounded down; the
    /// zero vector stays as it is.
    pub open spec fn spec_normalized(self) -> Vector3 {
        if self.squared_length() == 0 {
            self
        } else {
            Vector3 {
                x: Fixed::of((self.x@ * 0x1_0000_0000) / self.fine_length()),
                y: Fixed::of((self.y@ * 0x1_0000_0000) / self.fine_length()),
                z: Fixed::of((self.z@ * 0x1_0000_0000) / self.fine_length()),
            }
        }
    }

    pub fn new(x: Fixed, y: Fixed, z: Fixed) -> (r: Vector3)
        ensures
            r == (Vector3 { x, y, z }),
    {
        Vector3 { x, y, z }
    }

    /// The zero vector.
    pub fn zero() -> (r: Vector3)
        ensures
            r.x@ == 0,
            r.y@ == 0,
            r.z@ == 0,
    {
        Vector3 { x: Fixed::zero(), y: Fixed::zero(), z: Fixed::zero() }
    }

    /// Componentwise saturating sum.
    #[verifier::when_used_as_spec(spec_plus)]
    pub fn plus(self, rhs: Vector3) -> (r: Vector3)
        ensures
            r == self.spec_plus(rhs),
    {
        Vector3 {
            x: self.x.saturating_add(rhs.x),
            y: self.y.saturating_add(rhs.y),
            z: self.z.saturating_add(rhs.z),
        }
    }

    /// Componentwise saturating difference.
    #[verifier::when_used_as_spec(spec_minus)]
    pub fn minus(self, rhs: Vector3) -> (r: Vector3)
        ensures
            r == self.spec_minus(rhs),
    {
        Vector3 {
            x: self.x.saturating_sub(rhs.x),
            y: self.y.saturating_sub(rhs.y),
            z: self.z.saturating_sub(rhs.z),
        }
    }

    /// Every component times `k`.
    #[verifier::when_used_as_spec(spec_scaled)]
    pub fn scaled(self, k: Fixed) -> (r: Vector3)
        ensures
            r == self.spec_scaled(k),
    {
        Vector3 {
            x: self.x.saturating_mul(k),
            y: self.y.saturating_mul(k),
            z: self.z.saturating_mul(k),
        }
    }

    /// Dot product.
    #[verifier::when_used_as_spec(spec_dot)]
    pub fn dot(self, rhs: Vector3) -> (r: Fixed)
        ensures
            r == self.spec_dot(rhs),
    {
        let total: i128 = raw_product(self.x.raw, rhs.x.raw) + raw_product(self.y.raw, rhs.y.raw)
            + raw_product(self.z.raw, rhs.z.raw);
        Fixed { raw: saturate_i128(euclidean_quotient(total, 65536)) }
    }

    /// Cross product.
    #[verifier::when_used_as_spec(spec_cross)]
    pub fn cross(self, rhs: Vector3) -> (r: Vector3)
        ensures
            r == self.spec_cross(rhs),
    {
        let cx: i128 = raw_product(self.y.raw, rhs.z.raw) - raw_product(self.z.raw, rhs.y.raw);
        let cy: i128 = raw_product(self.z.raw, rhs.x.raw) - raw_product(self.x.raw, rhs.z.raw);
        let cz: i128 = raw_product(self.x.raw, rhs.y.raw) - raw_product(self.y.raw, rhs.x.raw);
        Vector3 {
            x: Fixed { raw: saturate_i128(euclidean_quotient(cx, 65536)) },
            y: Fixed { raw: saturate_i128(euclidean_quotient(cy, 65536)) },
            z: Fixed { raw: saturate_i128(euclidean_quotient(cz, 65536)) },
        }
    }

    /// Euclidean length.
    #[verifier::when_used_as_spec(spec_length)]
    pub fn length(self) -> (r: Fixed)
        ensures
            r == self.spec_length(),
    {
        let sx: i128 = raw_product(self.x.raw, self.x.raw);
        let sy: i128 = raw_product(self.y.raw, self.y.raw);
        let sz: i128 = raw_product(self.z.raw, self.z.raw);
        assert(sx >= 0 && sy >= 0 && sz >= 0) by (nonlinear_arith)
            requires
                sx == self.x.raw * self.x.raw,
                sy == self.y.raw * self.y.raw,
                sz == self.z.raw * self.z.raw,
        ;
        let total: u64 = (sx + sy + sz) as u64;
        let root: u64 = integer_sqrt(total);
        Fixed { raw: saturate_i128(root as i128) }
    }

    /// The vector divided by its length; the zero vector stays as it is.
    #[verifier::when_used_as_spec(spec_normalized)]
    pub fn normalized(self) -> (r: Vector3)
        ensures
            r == self.spec_normalized(),
    {
        let sx: i128 = raw_product(self.x.raw, self.x.raw);
        let sy: i128 = raw_product(self.y.raw, self.y.raw);
        let sz: i128 = raw_product(self.z.raw, self.z.raw);
        assert(sx >= 0 && sy >= 0 && sz >= 0) by (nonlinear_arith)
            requires
                sx == self.x.raw * self.x.raw,
                sy == self.y.raw * self.y.raw,
                sz == self.z.raw * self.z.raw,
        ;
        let total: u128 = (sx + sy + sz) as u128;
        if total == 0 {
            self
        } else {
            let root: u128 = integer_sqrt_wide(total * 0x1_0000_0000);
            proof {
                lemma_fine_length_is_long(self);
            }
            let len: i128 = root as i128;
            let x: i128 = euclidean_quotient((self.x.raw as i128) * 0x1_0000_0000, len);
            let y: i128 = euclidean_quotient((self.y.raw as i128) * 0x1_0000_0000, len);
            let z: i128 = euclidean_quotient((self.z.raw as i128) * 0x1_0000_0000, len);
            Vector3 {
                x: Fixed { raw: saturate_i128(x) },
                y: Fixed { raw: saturate_i128(y) },
                z: Fixed { raw: saturate_i128(z) },
            }
        }
    }
}

/// No component of a vector is longer than the vector, and only the zero
/// vector has the length zero.
pub proof fn length_bounds_components(v: Vector3)
    ensures
        v.spec_length()@ >= 0,
        magnitude(v.x@) <= v.spec_length()@ + 1,
        magnitude(v.y@) <= v.spec_length()@ + 1,
        magnitude(v.z@) <= v.spec_length()@ + 1,
        v.spec_length()@ == 0 ==> v.x@ == 0 && v.y@ == 0 && v.z@ == 0,
{
    let (x, y, z) = (v.x@, v.y@, v.z@);
    let sq = v.squared_length();
    assert(x * x >= 0 && y * y >= 0 && z * z >= 0) by (nonlinear_arith);
    integer_sqrt_exists(sq);
    let r = sqrt_floor(sq);
    lemma_square_below(x, r, sq);
    lemma_square_below(y, r, sq);
    lemma_square_below(z, r, sq);
}

/// If `x * x <= sq < (r + 1) * (r + 1)`, then `|x| <= r`.
proof fn lemma_square_below(x: int, r: int, sq: int)
    by (nonlinear_arith)
    requires
        0 <= r,
        x * x <= sq,
        sq < (r + 1) * (r + 1),
    ensures
        -r <= x <= r,
{
}

/// The fine length of a vector that is not zero is at least 65536 and at
/// least 65536 times each of its components.
proof fn lemma_fine_length_is_long(v: Vector3)
    requires
        v.squared_length() != 0,
    ensures
        v.squared_length() >= 1,
        is_integer_sqrt(v.squared_length() * 0x1_0000_0000, v.fine_length()),
        v.fine_length() >= 65536,
        magnitude(v.x@) * 65536 <= v.fine_length(),
        magnitude(v.y@) * 65536 <= v.fine_length(),
        magnitude(v.z@) * 65536 <= v.fine_length(),
{
    let (x, y, z) = (v.x@, v.y@, v.z@);
    let sq = v.squared_length();
    assert(x * x >= 0 && y * y >= 0 && z * z >= 0) by (nonlinear_arith);
    let t = sq * 0x1_0000_0000;
    integer_sqrt_exists(t);
    let r = v.fine_length();
    lemma_square_below(65536, r, t);
    lemma_scaled_square(x, sq, t);
    lemma_scaled_square(y, sq, t);
    lemma_scaled_square(z, sq, t);
    lemma_square_below(x * 65536, r, t);
    lemma_square_below(y * 65536, r, t);
    lemma_square_below(z * 65536, r, t);
}

/// If `x * x <= sq`, then `(x * 65536)` squared is at most `sq * 2^32`.
proof fn lemma_scaled_square(x: int, sq: int, t: int)
    by (nonlinear_arith)
    requires
        x * x <= sq,
        t == sq * 0x1_0000_0000,
    ensures
        (x * 65536) * (x * 65536) <= t,
{
}

/// No component of a normalized vector is longer than one, and none is
/// saturated.
pub proof fn unit_vector_is_bounded(v: Vector3)
    ensures
        magnitude(v.spec_normalized().x@) <= 65536,
        magnitude(v.spec_normalized().y@) <= 65536,
        magnitude(v.spec_normalized().z@) <= 65536,
        v.squared_length() != 0 ==> {
            &&& v.spec_normalized().x@ == (v.x@ * 0x1_0000_0000) / v.fine_length()
            &&& v.spec_normalized().y@ == (v.y@ * 0x1_0000_0000) / v.fine_length()
            &&& v.spec_normalized().z@ == (v.z@ * 0x1_0000_0000) / v.fine_length()
        },
{
    if v.squared_length() != 0 {
        lemma_fine_length_is_long(v);
        let len = v.fine_length();
        lemma_share_of_length(v.x@, len);
        lemma_share_of_length(v.y@, len);
        lemma_share_of_length(v.z@, len);
    } else {
        lemma_no_length_no_components(v.x@, v.y@, v.z@);
    }
}

/// Three squares that add up to zero are squares of zero.
proof fn lemma_no_length_no_components(x: int, y: int, z: int)
    by (nonlinear_arith)
    requires
        x * x + y * y + z * z == 0,
    ensures
        x == 0 && y == 0 && z == 0,
{
}

/// If `|x| * 65536 <= len`, then `|x * 2^32 / len| <= 65536`.
proof fn lemma_share_of_length(x: int, len: int)
    requires
        len > 0,
        magnitude(x) * 65536 <= len,
    ensures
        -65536 <= (x * 0x1_0000_0000) / len <= 65536,
{
    let a = x * 0x1_0000_0000;
    let q = a / len;
    let r = a % len;
    vstd::arithmetic::div_mod::lemma_fundamental_div_mod(a, len);
    vstd::arithmetic::div_mod::lemma_mod_bound(a, len);
    assert(-65536 <= q <= 65536) by (nonlinear_arith)
        requires
            a == len * q + r,
            0 <= r < len,
            len > 0,
            -65536 * len <= a <= 65536 * len,
    ;
}

/// A unit vector has the length one, within rounding: the squares of the
/// components of a normalized vector that is not zero add up to one, give
/// or take one part in four thousand.
pub proof fn unit_vector_has_unit_length(v: Vector3)
    requires
        v.squared_length() != 0,
    ensures
        0x1_0000_0000 - 0x10_0000 <= v.spec_normalized().squared_length() <= 0x1_0000_0000
            + 0x10_0000,
{
    lemma_fine_length_is_long(v);
    unit_vector_is_bounded(v);
    let len = v.fine_length();
    let n = v.spec_normalized();
    let (ax, ay, az) = (v.x@ * 0x1_0000_0000, v.y@ * 0x1_0000_0000, v.z@ * 0x1_0000_0000);
    lemma_rounded_share(ax, len, n.x@);
    lemma_rounded_share(ay, len, n.y@);
    lemma_rounded_share(az, len, n.z@);
    let t = v.squared_length() * 0x1_0000_0000;
    assert(ax * ax + ay * ay + az * az == 0x1_0000_0000 * t) by (nonlinear_arith)
        requires
            ax == v.x@ * 0x1_0000_0000,
            ay == v.y@ * 0x1_0000_0000,
            az == v.z@ * 0x1_0000_0000,
            t == (v.x@ * v.x@ + v.y@ * v.y@ + v.z@ * v.z@) * 0x1_0000_0000,
    ;
    let (bx, by, bz) = (magnitude(ax), magnitude(ay), magnitude(az));
    assert(bx == magnitude(v.x@) * 0x1_0000_0000);
    assert(by == magnitude(v.y@) * 0x1_0000_0000);
    assert(bz == magnitude(v.z@) * 0x1_0000_0000);
    let spread = bx + by + bz;
    assert(spread <= 196608 * len);
    let (mx, my, mz) = (len * n.x@, len * n.y@, len * n.z@);
    let total = mx * mx + my * my + mz * mz;
    let ll = len * len;
    let squares = n.x@ * n.x@ + n.y@ * n.y@ + n.z@ * n.z@;
    lemma_square_of_product(len, n.x@, ll);
    lemma_square_of_product(len, n.y@, ll);
    lemma_square_of_product(len, n.z@, ll);
    assert(total == ll * squares) by (nonlinear_arith)
        requires
            total == ll * (n.x@ * n.x@) + ll * (n.y@ * n.y@) + ll * (n.z@ * n.z@),
            squares == n.x@ * n.x@ + n.y@ * n.y@ + n.z@ * n.z@,
    ;
    assert(2 * bx * len + 2 * by * len + 2 * bz * len == 2 * spread * len) by (nonlinear_arith)
        requires
            spread == bx + by + bz,
    ;
    lemma_unit_bounds(len, ll, t, spread, total, squares);
}

/// `(len * n)` squared is `len` squared times `n` squared.
proof fn lemma_square_of_product(len: int, n: int, ll: int)
    by (nonlinear_arith)
    requires
        ll == len * len,
    ensures
        (len * n) * (len * n) == ll * (n * n),
{
}

/// The square of a rounded quotient times its divisor lies near the
/// square of the dividend.
proof fn lemma_rounded_share(a: int, len: int, n: int)
    requires
        len > 0,
        n == a / len,
    ensures
        a * a - 2 * magnitude(a) * len <= (len * n) * (len * n) <= a * a + 2 * magnitude(a) * len
            + len * len,
{
    let r = a % len;
    vstd::arithmetic::div_mod::lemma_fundamental_div_mod(a, len);
    vstd::arithmetic::div_mod::lemma_mod_bound(a, len);
    let m = len * n;
    let b = magnitude(a);
    assert(a * a - 2 * b * len <= m * m <= a * a + 2 * b * len + len * len) by (nonlinear_arith)
        requires
            m == a - r,
            0 <= r < len,
            (a >= 0 && b == a) || (a < 0 && b == -a),
    ;
}

/// The last step of the bound on a unit vector's length.
proof fn lemma_unit_bounds(len: int, ll: int, t: int, spread: int, total: int, squares: int)
    requires
        len >= 65536,
        ll == len * len,
        ll <= t,
        t < (len + 1) * (len + 1),
        0 <= spread <= 196608 * len,
        0x1_0000_0000 * t - 2 * spread * len <= total,
        total <= 0x1_0000_0000 * t + 2 * spread * len + 3 * ll,
        total == ll * squares,
    ensures
        0x1_0000_0000 - 0x10_0000 <= squares <= 0x1_0000_0000 + 0x10_0000,
{
    assert(2 * spread * len <= 393216 * ll && ll > 0) by (nonlinear_arith)
        requires
            0 <= spread <= 196608 * len,
            len > 0,
            ll == len * len,
    ;
    assert(0x1_0000_0000 * t <= 0x1_0000_0000 * ll + 131073 * ll) by (nonlinear_arith)
        requires
            t < (len + 1) * (len + 1),
            len >= 65536,
            ll == len * len,
    ;
    assert(0x1_0000_0000 * ll <= 0x1_0000_0000 * t) by (nonlinear_arith)
        requires
            ll <= t,
    ;
    assert(ll * (0x1_0000_0000 - 393216) <= ll * squares <= ll * (0x1_0000_0000 + 524292))
        by (nonlinear_arith)
        requires
            0x1_0000_0000 * ll - 393216 * ll <= total,
            total <= 0x1_0000_0000 * ll + 131073 * ll + 393216 * ll + 3 * ll,
            total == ll * squares,
    ;
    assert(0x1_0000_0000 - 393216 <= squares <= 0x1_0000_0000 + 524292) by (nonlinear_arith)
        requires
            ll > 0,
            ll * (0x1_0000_0000 - 393216) <= ll * squares <= ll * (0x1_0000_0000 + 524292),
    ;
}

impl Vector4 {
    /// Dot product: the exact sum of the four products, rounded once.
    pub open spec fn spec_dot(self, rhs: Vector4) -> Fixed {
        Fixed::of(
            (self.x@ * rhs.x@ + self.y@ * rhs.y@ + self.z@ * rhs.z@ + self.w@ * rhs.w@) / 65536,
        )
    }

    /// The point `v` in homogeneous coordinates: `w` is one.
    pub open spec fn spec_point(v: Vector3) -> Vector4 {
        Vector4 { x: v.x, y: v.y, z: v.z, w: Fixed { raw: 65536 } }
    }

    /// The direction `v` in homogeneous coordinates: `w` is zero.
    pub open spec fn spec_direction(v: Vector3) -> Vector4 {
        Vector4 { x: v.x, y: v.y, z: v.z, w: Fixed { raw: 0 } }
    }

    /// The first three components.
    pub open spec fn spec_xyz(self) -> Vector3 {
        Vector3 { x: self.x, y: self.y, z: self.z }
    }

    pub fn new(x: Fixed, y: Fixed, z: Fixed, w: Fixed) -> (r: Vector4)
        ensures
            r == (Vector4 { x, y, z, w }),
    {
        Vector4 { x, y, z, w }
    }

    /// The point `v` in homogeneous coordinates.
    #[verifier::when_used_as_spec(spec_point)]
    pub fn point(v: Vector3) -> (r: Vector4)
        ensures
            r == Vector4::spec_point(v),
    {
        Vector4 { x: v.x, y: v.y, z: v.z, w: Fixed::one() }
    }

    /// The direction `v` in homogeneous coordinates.
    #[verifier::when_used_as_spec(spec_direction)]
    pub fn direction(v: Vector3) -> (r: Vector4)
        ensures
            r == Vector4::spec_direction(v),
    {
        Vector4 { x: v.x, y: v.y, z: v.z, w: Fixed::zero() }
    }

    /// The first three components.
    #[verifier::when_used_as_spec(spec_xyz)]
    pub fn xyz(self) -> (r: Vector3)
        ensures
            r == self.spec_xyz(),
    {
        Vector3 { x: self.x, y: self.y, z: self.z }
    }

    /// Dot product.
    #[verifier::when_used_as_spec(spec_dot)]
    pub fn dot(self, rhs: Vector4) -> (r: Fixed)
        ensures
            r == self.spec_dot(rhs),
    {
        let total: i128 = raw_product(self.x.raw, rhs.x.raw) + raw_product(self.y.raw, rhs.y.raw)
            + raw_product(self.z.raw, rhs.z.raw) + raw_product(self.w.raw, rhs.w.raw);
        Fixed { raw: saturate_i128(euclidean_quotient(total, 65536)) }
    }
}

} // verus!
