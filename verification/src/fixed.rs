//! Signed fixed-point numbers with sixteen fractional bits.
//!
//! A value `v` stands for the rational `v.raw / 65536`. Products are
//! rounded down to the next representable value and quotients are
//! Euclidean; every result is then saturated to the `i32` range, so no
//! operation overflows and none fails.

use vstd::prelude::*;

verus! {

/// Raw representation of the number one.
pub const SCALE: i32 = 65536;

/// Largest raw value.
pub const RAW_MAX: i32 = 0x7fff_ffff;

/// Smallest raw value.
pub const RAW_MIN: i32 = -0x8000_0000;

/// The value of the `i32` range that is nearest to `v`.
pub open spec fn saturate(v: int) -> int {
    if v < -0x8000_0000 {
        -0x8000_0000
    } else if v > 0x7fff_ffff {
        0x7fff_ffff
    } else {
        v
    }
}

/// The absolute value of `v`.
pub open spec fn magnitude(v: int) -> int {
    if v < 0 {
        -v
    } else {
        v
    }
}

/// Whether `r` is the largest integer with `r * r <= n`.
pub open spec fn is_integer_sqrt(n: int, r: int) -> bool {
    0 <= r && r * r <= n && n < (r + 1) * (r + 1)
}

/// The integer square root of `n`, for `n >= 0`.
pub open spec fn sqrt_floor(n: int) -> int {
    choose|r: int| is_integer_sqrt(n, r)
}

/// An integer has at most one integer square root.
pub proof fn integer_sqrt_is_unique(n: int, r: int)
    requires
        is_integer_sqrt(n, r),
    ensures
        sqrt_floor(n) == r,
{
    let s = sqrt_floor(n);
    assert(is_integer_sqrt(n, s));
    assert(s == r) by (nonlinear_arith)
        requires
            0 <= r,
            r * r <= n,
            n < (r + 1) * (r + 1),
            0 <= s,
            s * s <= n,
            n < (s + 1) * (s + 1),
    ;
}

/// Every natural number has an integer square root.
pub proof fn integer_sqrt_exists(n: int)
    requires
        n >= 0,
    ensures
        is_integer_sqrt(n, sqrt_floor(n)),
    decreases n,
{
    if n == 0 {
        assert(is_integer_sqrt(0, 0));
    } else {
        integer_sqrt_exists(n - 1);
        let r = sqrt_floor(n - 1);
        if (r + 1) * (r + 1) <= n {
            assert(is_integer_sqrt(n, r + 1)) by (nonlinear_arith)
                requires
                    0 <= r,
                    n - 1 < (r + 1) * (r + 1),
                    (r + 1) * (r + 1) <= n,
            ;
        } else {
            assert(is_integer_sqrt(n, r)) by (nonlinear_arith)
                requires
                    0 <= r,
                    r * r <= n - 1,
                    n < (r + 1) * (r + 1),
            ;
        }
    }
}

/// The product of two rounded quotients by 65536 lies near the product
/// of the dividends.
pub(crate) proof fn lemma_rounded_pair(u: int, u2: int, bound: int)
    requires
        -bound <= u <= bound,
        -bound <= u2 <= bound,
    ensures
        u * u2 - 131072 * bound - 0x1_0000_0000 <= 0x1_0000_0000 * ((u / 65536) * (u2 / 65536))
            <= u * u2 + 131072 * bound + 0x1_0000_0000,
{
    let (e, e2) = (u / 65536, u2 / 65536);
    let (r, r2) = (u % 65536, u2 % 65536);
    assert(65536 * e == u - r && 65536 * e2 == u2 - r2 && 0 <= r < 65536 && 0 <= r2 < 65536);
    let (m, m2) = (65536 * e, 65536 * e2);
    assert(m * m2 == 0x1_0000_0000 * (e * e2)) by (nonlinear_arith)
        requires
            m == 65536 * e,
            m2 == 65536 * e2,
    ;
    assert(u * u2 - 131072 * bound - 0x1_0000_0000 <= m * m2 <= u * u2 + 131072 * bound
        + 0x1_0000_0000) by (nonlinear_arith)
        requires
            m == u - r,
            m2 == u2 - r2,
            0 <= r < 65536,
            0 <= r2 < 65536,
            -bound <= u <= bound,
            -bound <= u2 <= bound,
    ;
}

/// A fixed-point number; `raw` holds the value times 65536.
#[derive(Clone, Copy, Debug, PartialEq, Eq, Structural)]
pub struct Fixed {
    pub raw: i32,
}

impl View for Fixed {
    type V = int;

    open spec fn view(&self) -> int {
        self.raw as int
    }
}

/// Saturates a 64-bit raw value.
pub(crate) fn saturate_i64(v: i64) -> (r: i32)
    ensures
        r == saturate(v as int),
{
    if v < -0x8000_0000 {
        RAW_MIN
    } else if v > 0x7fff_ffff {
        RAW_MAX
    } else {
        v as i32
    }
}

/// Saturates a 128-bit raw value.
pub(crate) fn saturate_i128(v: i128) -> (r: i32)
    ensures
        r == saturate(v as int),
{
    if v < -0x8000_0000 {
        RAW_MIN
    } else if v > 0x7fff_ffff {
        RAW_MAX
    } else {
        v as i32
    }
}

/// Euclidean quotient of two 128-bit integers.
pub(crate) fn euclidean_quotient(a: i128, b: i128) -> (q: i128)
    requires
        b != 0,
        -0x4000_0000_0000_0000_0000_0000_0000_0000 <= a,
        a <= 0x4000_0000_0000_0000_0000_0000_0000_0000,
    ensures
        q == (a as int) / (b as int),
{
    proof {
        lemma_quotient_bound(a as int, b as int);
    }
    match a.checked_div_euclid(b) {
        Some(q) => q,
        None => 0,
    }
}

/// A Euclidean quotient is no larger in magnitude than its dividend.
proof fn lemma_quotient_bound(a: int, b: int)
    requires
        b != 0,
    ensures
        a >= 0 ==> -a <= a / b <= a,
        a < 0 ==> a <= a / b <= -a,
{
    let q = a / b;
    let r = a % b;
    assert(a == b * q + r && 0 <= r && (b > 0 ==> r < b) && (b < 0 ==> r < -b)) by {
        vstd::arithmetic::div_mod::lemma_fundamental_div_mod(a, b);
        if b > 0 {
            vstd::arithmetic::div_mod::lemma_mod_bound(a, b);
        } else {
            assert(0 <= a % b < -b) by (nonlinear_arith)
                requires
                    b < 0,
            ;
        }
    }
    assert((a >= 0 ==> -a <= q <= a) && (a < 0 ==> a <= q <= -a)) by (nonlinear_arith)
        requires
            a == b * q + r,
            0 <= r,
            b > 0 ==> r < b,
            b < 0 ==> r < -b,
            b != 0,
    ;
}

impl Fixed {
    /// The number whose raw representation is `raw`, saturated.
    pub open spec fn of(raw: int) -> Fixed {
        Fixed { raw: saturate(raw) as i32 }
    }

    /// Sum, saturated.
    pub open spec fn plus(self, rhs: Fixed) -> Fixed {
        Fixed::of(self@ + rhs@)
    }

    /// Difference, saturated.
    pub open spec fn minus(self, rhs: Fixed) -> Fixed {
        Fixed::of(self@ - rhs@)
    }

    /// Negation, saturated.
    pub open spec fn negated(self) -> Fixed {
        Fixed::of(-self@)
    }

    /// Product, rounded down and saturated.
    pub open spec fn times(self, rhs: Fixed) -> Fixed {
        Fixed::of((self@ * rhs@) / 65536)
    }

    /// Quotient by Euclidean division, saturated. A division by zero
    /// saturates in the direction of the dividend's sign.
    pub open spec fn over(self, rhs: Fixed) -> Fixed {
        if rhs@ != 0 {
            Fixed::of((self@ * 65536) / rhs@)
        } else if self@ > 0 {
            Fixed::of(0x7fff_ffff)
        } else if self@ < 0 {
            Fixed::of(-0x8000_0000)
        } else {
            Fixed::of(0)
        }
    }

    /// The number zero.
    pub fn zero() -> (r: Fixed)
        ensures
            r@ == 0,
    {
        Fixed { raw: 0 }
    }

    /// The number one.
    pub fn one() -> (r: Fixed)
        ensures
            r@ == 65536,
    {
        Fixed { raw: SCALE }
    }

    /// The number with the given raw representation.
    pub fn from_raw(raw: i32) -> (r: Fixed)
        ensures
            r@ == raw,
    {
        Fixed { raw }
    }

    /// The whole number `n`, saturated to the representable range.
    pub fn from_int(n: i32) -> (r: Fixed)
        ensures
            r == Fixed::of(n * 65536),
    {
        let wide: i64 = (n as i64) * 65536;
        Fixed { raw: saturate_i64(wide) }
    }

    /// Saturating sum.
    pub fn saturating_add(self, rhs: Fixed) -> (r: Fixed)
        ensures
            r == self.plus(rhs),
    {
        let wide: i64 = self.raw as i64 + rhs.raw as i64;
        Fixed { raw: saturate_i64(wide) }
    }

    /// Saturating difference.
    pub fn saturating_sub(self, rhs: Fixed) -> (r: Fixed)
        ensures
            r == self.minus(rhs),
    {
        let wide: i64 = self.raw as i64 - rhs.raw as i64;
        Fixed { raw: saturate_i64(wide) }
    }

    /// Saturating negation.
    pub fn saturating_neg(self) -> (r: Fixed)
        ensures
            r == self.negated(),
    {
        let wide: i64 = -(self.raw as i64);
        Fixed { raw: saturate_i64(wide) }
    }

    /// Saturating product, rounded down.
    pub fn saturating_mul(self, rhs: Fixed) -> (r: Fixed)
        ensures
            r == self.times(rhs),
    {
        let wide: i128 = raw_product(self.raw, rhs.raw);
        let q: i128 = euclidean_quotient(wide, 65536);
        Fixed { raw: saturate_i128(q) }
    }

    /// Saturating quotient; a division by zero saturates in the direction
    /// of the dividend's sign.
    pub fn saturating_div(self, rhs: Fixed) -> (r: Fixed)
        ensures
            r == self.over(rhs),
    {
        if rhs.raw != 0 {
            let wide: i128 = (self.raw as i128) * 65536;
            let q: i128 = euclidean_quotient(wide, rhs.raw as i128);
            Fixed { raw: saturate_i128(q) }
        } else if self.raw > 0 {
            Fixed { raw: RAW_MAX }
        } else if self.raw < 0 {
            Fixed { raw: RAW_MIN }
        } else {
            Fixed { raw: 0 }
        }
    }

    /// The smaller of two numbers.
    pub fn min(self, rhs: Fixed) -> (r: Fixed)
        ensures
            r == if self@ <= rhs@ { self } else { rhs },
    {
        if self.raw <= rhs.raw {
            self
        } else {
            rhs
        }
    }

    /// The larger of two numbers.
    pub fn max(self, rhs: Fixed) -> (r: Fixed)
        ensures
            r == if self@ >= rhs@ { self } else { rhs },
    {
        if self.raw >= rhs.raw {
            self
        } else {
            rhs
        }
    }

    /// The largest whole number that is not above `self`.
    pub fn floor(self) -> (n: i32)
        ensures
            n == self@ / 65536,
    {
        let q: i128 = euclidean_quotient(self.raw as i128, 65536);
        q as i32
    }

    /// The smallest whole number that is not below `self`.
    pub fn ceil(self) -> (n: i32)
        ensures
            n == (self@ + 65535) / 65536,
    {
        let q: i128 = euclidean_quotient(self.raw as i128 + 65535, 65536);
        q as i32
    }

    /// The whole part of `self`: the nearest whole number towards zero.
    pub open spec fn whole_part(self) -> int {
        if self@ >= 0 {
            self@ / 65536
        } else {
            (self@ + 65535) / 65536
        }
    }

    /// The whole part of `self`: the nearest whole number towards zero.
    pub fn truncate(self) -> (n: i32)
        ensures
            n == self.whole_part(),
    {
        if self.raw >= 0 {
            self.floor()
        } else {
            self.ceil()
        }
    }
}

/// Exact product of two raw values.
pub(crate) fn raw_product(a: i32, b: i32) -> (p: i128)
    ensures
        p == a * b,
        -0x4000_0000_0000_0000 <= p <= 0x4000_0000_0000_0000,
{
    assert(-0x4000_0000_0000_0000 <= a * b <= 0x4000_0000_0000_0000) by (nonlinear_arith)
        requires
            -0x8000_0000 <= a <= 0x7fff_ffff,
            -0x8000_0000 <= b <= 0x7fff_ffff,
    ;
    (a as i128) * (b as i128)
}

/// Integer square root: the largest `r` with `r * r <= n`.
pub fn integer_sqrt(n: u64) -> (r: u64)
    ensures
        r == sqrt_floor(n as int),
        is_integer_sqrt(n as int, r as int),
        r <= 0xffff_ffff,
{
    let mut lo: u64 = 0;
    let mut hi: u64 = 0x1_0000_0000;
    assert(n < hi * hi) by (nonlinear_arith)
        requires
            hi == 0x1_0000_0000,
            n <= 0xffff_ffff_ffff_ffff,
    ;
    while hi - lo > 1
        invariant
            lo < hi <= 0x1_0000_0000,
            lo * lo <= n,
            n < hi * hi,
        decreases hi - lo,
    {
        let mid: u64 = lo + (hi - lo) / 2;
        assert(mid * mid <= 0xffff_ffff_ffff_ffff) by (nonlinear_arith)
            requires
                0 <= mid <= 0xffff_ffff,
        ;
        if mid * mid <= n {
            lo = mid;
        } else {
            hi = mid;
        }
    }
    proof {
        integer_sqrt_is_unique(n as int, lo as int);
    }
    lo
}

/// Integer square root of a number below 2^96.
pub(crate) fn integer_sqrt_wide(n: u128) -> (r: u128)
    requires
        n < 0x1_0000_0000_0000_0000_0000_0000,
    ensures
        r == sqrt_floor(n as int),
        is_integer_sqrt(n as int, r as int),
        r < 0x1_0000_0000_0000,
{
    let mut lo: u128 = 0;
    let mut hi: u128 = 0x1_0000_0000_0000;
    assert(n < hi * hi) by (nonlinear_arith)
        requires
            hi == 0x1_0000_0000_0000,
            n < 0x1_0000_0000_0000_0000_0000_0000,
    ;
    while hi - lo > 1
        invariant
            lo < hi <= 0x1_0000_0000_0000,
            lo * lo <= n,
            n < hi * hi,
        decreases hi - lo,
    {
        let mid: u128 = lo + (hi - lo) / 2;
        assert(mid * mid < 0x1_0000_0000_0000_0000_0000_0000) by (nonlinear_arith)
            requires
                0 <= mid < 0x1_0000_0000_0000,
        ;
        if mid * mid <= n {
            lo = mid;
        } else {
            hi = mid;
        }
    }
    proof {
        integer_sqrt_is_unique(n as int, lo as int);
    }
    lo
}

} // verus!
