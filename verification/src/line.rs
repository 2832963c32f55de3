//! Straight lines on the pixel grid.
//!
//! A line from `(x0, y0)` to `(x1, y1)` takes as many steps as its longer
//! extent has pixels; after `i` steps it has covered the share `i / steps`
//! of both extents, rounded to the nearest pixel.

use crate::fixed::{euclidean_quotient, magnitude};
use crate::fragment::Pixel;
use vstd::prelude::*;

verus! {

/// Number of steps of the line: the longer of its two extents.
pub open spec fn line_steps(x0: int, y0: int, x1: int, y1: int) -> int {
    if magnitude(x1 - x0) >= magnitude(y1 - y0) {
        magnitude(x1 - x0)
    } else {
        magnitude(y1 - y0)
    }
}

/// The share `i / steps` of `extent`, rounded to the nearest integer and
/// upwards from a half.
pub open spec fn line_offset(extent: int, i: int, steps: int) -> int {
    if steps == 0 {
        0
    } else {
        (2 * i * extent + steps) / (2 * steps)
    }
}

/// Column of the line's pixel after `i` steps.
pub open spec fn line_x(x0: int, y0: int, x1: int, y1: int, i: int) -> int {
    x0 + line_offset(x1 - x0, i, line_steps(x0, y0, x1, y1))
}

/// Row of the line's pixel after `i` steps.
pub open spec fn line_y(x0: int, y0: int, x1: int, y1: int, i: int) -> int {
    y0 + line_offset(y1 - y0, i, line_steps(x0, y0, x1, y1))
}

/// A share of an extent is no longer than the extent, and the whole share
/// is the extent.
proof fn lemma_line_offset(extent: int, i: int, steps: int)
    requires
        0 <= i <= steps,
        magnitude(extent) <= steps,
    ensures
        magnitude(line_offset(extent, i, steps)) <= magnitude(extent),
        extent >= 0 ==> line_offset(extent, i, steps) >= 0,
        extent <= 0 ==> line_offset(extent, i, steps) <= 0,
        line_offset(extent, 0, steps) == 0,
        line_offset(extent, steps, steps) == extent,
        magnitude(extent) == steps ==> line_offset(extent, i, steps) == if extent >= 0 {
            i
        } else {
            -i
        },
{
    if steps > 0 {
        let d = 2 * steps;
        let q = (2 * i * extent + steps) / d;
        let r = (2 * i * extent + steps) % d;
        vstd::arithmetic::div_mod::lemma_fundamental_div_mod(2 * i * extent + steps, d);
        vstd::arithmetic::div_mod::lemma_mod_bound(2 * i * extent + steps, d);
        assert(d * q + r == 2 * i * extent + steps);
        // bounds on 2 * i * extent
        assert(extent >= 0 ==> 0 <= 2 * i * extent <= 2 * steps * extent) by (nonlinear_arith)
            requires
                0 <= i <= steps,
        ;
        assert(extent <= 0 ==> 2 * steps * extent <= 2 * i * extent <= 0) by (nonlinear_arith)
            requires
                0 <= i <= steps,
        ;
        assert(d * extent == 2 * steps * extent) by (nonlinear_arith)
            requires
                d == 2 * steps,
        ;
        if extent >= 0 {
            // 0 <= d * q + r <= d * extent + steps
            assert(q >= 0) by (nonlinear_arith)
                requires
                    d * q + r >= 0,
                    0 <= r < d,
                    d > 0,
            ;
            assert(q <= extent) by (nonlinear_arith)
                requires
                    d * q + r <= d * extent + steps,
                    0 <= r,
                    d == 2 * steps,
                    steps > 0,
            ;
        } else {
            assert(q <= 0) by (nonlinear_arith)
                requires
                    d * q + r <= steps,
                    0 <= r,
                    d == 2 * steps,
                    steps > 0,
            ;
            assert(q >= extent) by (nonlinear_arith)
                requires
                    d * q + r >= d * extent + steps,
                    0 <= r < d,
                    d == 2 * steps,
                    steps > 0,
            ;
        }
        // the first and the last pixel
        assert((2 * 0 * extent + steps) / d == 0) by {
            assert(2 * 0 * extent == 0) by (nonlinear_arith);
            vstd::arithmetic::div_mod::lemma_fundamental_div_mod_converse(steps, d, 0, steps);
        }
        assert((2 * steps * extent + steps) / d == extent) by {
            assert(2 * steps * extent + steps == extent * d + steps) by (nonlinear_arith)
                requires
                    d == 2 * steps,
            ;
            vstd::arithmetic::div_mod::lemma_fundamental_div_mod_converse(
                2 * steps * extent + steps,
                d,
                extent,
                steps,
            );
        }
        if magnitude(extent) == steps {
            let e = if extent >= 0 {
                i
            } else {
                -i
            };
            assert(2 * i * extent + steps == e * d + steps) by (nonlinear_arith)
                requires
                    d == 2 * steps,
                    (extent >= 0 && extent == steps && e == i) || (extent < 0 && extent == -steps
                        && e == -i),
            ;
            vstd::arithmetic::div_mod::lemma_fundamental_div_mod_converse(
                2 * i * extent + steps,
                d,
                e,
                steps,
            );
        }
    }
}

/// A line begins at its first end and ends at its second.
pub proof fn line_joins_its_ends(x0: int, y0: int, x1: int, y1: int)
    ensures
        line_x(x0, y0, x1, y1, 0) == x0,
        line_y(x0, y0, x1, y1, 0) == y0,
        line_x(x0, y0, x1, y1, line_steps(x0, y0, x1, y1)) == x1,
        line_y(x0, y0, x1, y1, line_steps(x0, y0, x1, y1)) == y1,
{
    let steps = line_steps(x0, y0, x1, y1);
    lemma_line_offset(x1 - x0, 0, steps);
    lemma_line_offset(y1 - y0, 0, steps);
    lemma_line_offset(x1 - x0, steps, steps);
    lemma_line_offset(y1 - y0, steps, steps);
}

/// Every pixel of a line lies in the rectangle that its two ends span.
pub proof fn line_stays_between_its_ends(x0: int, y0: int, x1: int, y1: int, i: int)
    requires
        0 <= i <= line_steps(x0, y0, x1, y1),
    ensures
        x0 <= x1 ==> x0 <= line_x(x0, y0, x1, y1, i) <= x1,
        x1 <= x0 ==> x1 <= line_x(x0, y0, x1, y1, i) <= x0,
        y0 <= y1 ==> y0 <= line_y(x0, y0, x1, y1, i) <= y1,
        y1 <= y0 ==> y1 <= line_y(x0, y0, x1, y1, i) <= y0,
{
    let steps = line_steps(x0, y0, x1, y1);
    lemma_line_offset(x1 - x0, i, steps);
    lemma_line_offset(y1 - y0, i, steps);
}

/// A line has no gaps: from one pixel to the next, neither coordinate
/// changes by more than one.
pub proof fn line_is_connected(x0: int, y0: int, x1: int, y1: int, i: int)
    requires
        0 <= i < line_steps(x0, y0, x1, y1),
    ensures
        magnitude(line_x(x0, y0, x1, y1, i + 1) - line_x(x0, y0, x1, y1, i)) <= 1,
        magnitude(line_y(x0, y0, x1, y1, i + 1) - line_y(x0, y0, x1, y1, i)) <= 1,
        magnitude(line_x(x0, y0, x1, y1, i + 1) - line_x(x0, y0, x1, y1, i)) == 1 || magnitude(
            line_y(x0, y0, x1, y1, i + 1) - line_y(x0, y0, x1, y1, i),
        ) == 1,
{
    let steps = line_steps(x0, y0, x1, y1);
    lemma_offset_step(x1 - x0, i, steps);
    lemma_offset_step(y1 - y0, i, steps);
    lemma_line_offset(x1 - x0, i, steps);
    lemma_line_offset(x1 - x0, i + 1, steps);
    lemma_line_offset(y1 - y0, i, steps);
    lemma_line_offset(y1 - y0, i + 1, steps);
}

/// From one step to the next, the share of an extent changes by at most
/// one.
proof fn lemma_offset_step(extent: int, i: int, steps: int)
    requires
        0 <= i < steps,
        magnitude(extent) <= steps,
    ensures
        magnitude(line_offset(extent, i + 1, steps) - line_offset(extent, i, steps)) <= 1,
{
    let d = 2 * steps;
    let a = 2 * i * extent + steps;
    let b = 2 * (i + 1) * extent + steps;
    assert(b == a + 2 * extent) by (nonlinear_arith)
        requires
            a == 2 * i * extent + steps,
            b == 2 * (i + 1) * extent + steps,
    ;
    let (qa, ra) = (a / d, a % d);
    let (qb, rb) = (b / d, b % d);
    vstd::arithmetic::div_mod::lemma_fundamental_div_mod(a, d);
    vstd::arithmetic::div_mod::lemma_fundamental_div_mod(b, d);
    vstd::arithmetic::div_mod::lemma_mod_bound(a, d);
    vstd::arithmetic::div_mod::lemma_mod_bound(b, d);
    assert(-1 <= qb - qa <= 1) by (nonlinear_arith)
        requires
            a == d * qa + ra,
            b == d * qb + rb,
            0 <= ra < d,
            0 <= rb < d,
            -d <= b - a <= d,
            d > 0,
    ;
}

/// Number of steps of the line from `(x0, y0)` to `(x1, y1)`.
pub fn count_line_steps(x0: i32, y0: i32, x1: i32, y1: i32) -> (steps: i64)
    ensures
        steps == line_steps(x0 as int, y0 as int, x1 as int, y1 as int),
        0 <= steps <= 0xffff_ffff,
{
    let dx: i64 = x1 as i64 - x0 as i64;
    let dy: i64 = y1 as i64 - y0 as i64;
    let ax: i64 = if dx < 0 {
        -dx
    } else {
        dx
    };
    let ay: i64 = if dy < 0 {
        -dy
    } else {
        dy
    };
    if ax >= ay {
        ax
    } else {
        ay
    }
}

fn offset_of(extent: i64, i: i64, steps: i64) -> (r: i64)
    requires
        0 <= i <= steps <= 0xffff_ffff,
        magnitude(extent as int) <= steps,
    ensures
        r == line_offset(extent as int, i as int, steps as int),
        magnitude(r as int) <= magnitude(extent as int),
{
    proof {
        lemma_line_offset(extent as int, i as int, steps as int);
    }
    if steps == 0 {
        0
    } else {
        assert(-0x1_0000_0000_0000_0000 <= i * extent <= 0x1_0000_0000_0000_0000)
            by (nonlinear_arith)
            requires
                0 <= i <= 0xffff_ffff,
                -0xffff_ffff <= extent <= 0xffff_ffff,
        ;
        let scaled: i128 = 2 * ((i as i128) * (extent as i128)) + steps as i128;
        assert(scaled == 2 * i * extent + steps) by (nonlinear_arith)
            requires
                scaled == 2 * (i * extent) + steps,
        ;
        let q: i128 = euclidean_quotient(scaled, 2 * (steps as i128));
        q as i64
    }
}

/// The pixel of the line from `(x0, y0)` to `(x1, y1)` after `i` steps.
pub fn line_pixel(x0: i32, y0: i32, x1: i32, y1: i32, i: i64) -> (p: Pixel)
    requires
        0 <= i <= line_steps(x0 as int, y0 as int, x1 as int, y1 as int),
    ensures
        p.x == line_x(x0 as int, y0 as int, x1 as int, y1 as int, i as int),
        p.y == line_y(x0 as int, y0 as int, x1 as int, y1 as int, i as int),
{
    let steps: i64 = count_line_steps(x0, y0, x1, y1);
    let ox: i64 = offset_of(x1 as i64 - x0 as i64, i, steps);
    let oy: i64 = offset_of(y1 as i64 - y0 as i64, i, steps);
    proof {
        line_stays_between_its_ends(x0 as int, y0 as int, x1 as int, y1 as int, i as int);
    }
    Pixel { x: (x0 as i64 + ox) as i32, y: (y0 as i64 + oy) as i32 }
}

} // verus!
