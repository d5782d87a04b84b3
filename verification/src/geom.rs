//! Fixed-point plane geometry: points, saturating coordinate arithmetic,
//! an exact integer square root, and scaling of a vector to a given length.

use vstd::prelude::*;
use vstd::arithmetic::div_mod::{
    lemma_div_is_ordered,
    lemma_div_multiples_vanish,
    lemma_div_of0,
    lemma_div_pos_is_pos,
};
use vstd::arithmetic::mul::{lemma_mul_inequality, lemma_mul_nonnegative};

verus! {

/// Number of fixed-point units in one pixel.  Every coordinate, length and
/// velocity in this crate is measured in thousandths of a pixel.
pub const UNIT: i64 = 1000;

/// A position or displacement in the plane, in thousandths of a pixel.
#[derive(Clone, Copy, PartialEq, Eq, Structural, Debug)]
pub struct Point {
    pub x: i64,
    pub y: i64,
}

/// One node of the snake: where it sits, and the displacement it is headed
/// along.  For the head the direction is a velocity; for body nodes it is a
/// vector of magnitude close to `UNIT` pointing from the parent to the node.
#[derive(Clone, Copy, PartialEq, Eq, Structural, Debug)]
pub struct PointDirection {
    pub loc: Point,
    pub direction: Point,
}

impl PointDirection {
    pub fn new(loc: Point, direction: Point) -> (r: PointDirection)
        ensures
            r.loc == loc,
            r.direction == direction,
    {
        PointDirection { loc, direction }
    }
}

/// An RGBA colour with 8-bit channels.
#[derive(Clone, Copy, PartialEq, Eq, Structural, Debug)]
pub struct Color {
    pub r: u8,
    pub g: u8,
    pub b: u8,
    pub a: u8,
}

/// `v` brought into the representable range of `i64` coordinates.
pub open spec fn sat64(v: int) -> int {
    if v > i64::MAX {
        i64::MAX as int
    } else if v < i64::MIN {
        i64::MIN as int
    } else {
        v
    }
}

/// `v` brought into the range `[lo, hi]`, low bound first, as
/// `v.max(lo).min(hi)` does.
pub open spec fn spec_clamp(v: int, lo: int, hi: int) -> int {
    let m = if v >= lo {
        v
    } else {
        lo
    };
    if m <= hi {
        m
    } else {
        hi
    }
}

/// An `i128` intermediate result stored back into an `i64` coordinate,
/// saturating at the ends of the representable range.
pub fn narrow64(v: i128) -> (r: i64)
    ensures
        r == sat64(v as int),
{
    if v > i64::MAX as i128 {
        i64::MAX
    } else if v < i64::MIN as i128 {
        i64::MIN
    } else {
        v as i64
    }
}

/// Saturating coordinate addition.
pub fn add_sat(a: i64, b: i64) -> (r: i64)
    ensures
        r == sat64(a + b),
{
    narrow64(a as i128 + b as i128)
}

/// Saturating coordinate subtraction.
pub fn sub_sat(a: i64, b: i64) -> (r: i64)
    ensures
        r == sat64(a - b),
{
    narrow64(a as i128 - b as i128)
}

/// The integer square root: the largest `r` with `r * r <= n`.
pub open spec fn sqrt_floor(n: int) -> int
    decreases n,
{
    if n <= 0 {
        0
    } else {
        let r = sqrt_floor(n - 1);
        if (r + 1) * (r + 1) <= n {
            r + 1
        } else {
            r
        }
    }
}

pub proof fn lemma_sqrt_floor_bounds(n: int)
    requires
        n >= 0,
    ensures
        0 <= sqrt_floor(n),
        sqrt_floor(n) * sqrt_floor(n) <= n,
        n < (sqrt_floor(n) + 1) * (sqrt_floor(n) + 1),
    decreases n,
{
    if n > 0 {
        lemma_sqrt_floor_bounds(n - 1);
        let r = sqrt_floor(n - 1);
        if (r + 1) * (r + 1) <= n {
            assert(n == (r + 1) * (r + 1));
            assert((r + 1) * (r + 1) < (r + 2) * (r + 2)) by (nonlinear_arith)
                requires
                    0 <= r,
            ;
        }
    }
}

pub proof fn lemma_sqrt_floor_unique(n: int, r: int)
    requires
        0 <= r,
        r * r <= n,
        n < (r + 1) * (r + 1),
    ensures
        r == sqrt_floor(n),
{
    lemma_sqrt_floor_bounds(n);
    let s = sqrt_floor(n);
    if r < s {
        assert((r + 1) * (r + 1) <= s * s) by (nonlinear_arith)
            requires
                0 <= r,
                r + 1 <= s,
        ;
    }
    if s < r {
        assert((s + 1) * (s + 1) <= r * r) by (nonlinear_arith)
            requires
                0 <= s,
                s + 1 <= r,
        ;
    }
}

/// Binary search for the integer square root.
pub fn isqrt(n: u128) -> (r: u64)
    ensures
        r == sqrt_floor(n as int),
{
    let mut lo: u128 = 0;
    let mut hi: u128 = 18446744073709551616u128;
    assert((n as int) < 18446744073709551616 * 18446744073709551616);
    while hi - lo > 1
        invariant
            lo < hi,
            hi <= 18446744073709551616u128,
            (lo as int) * (lo as int) <= n as int,
            (n as int) < (hi as int) * (hi as int),
        decreases hi - lo,
    {
        let mid: u128 = lo + (hi - lo) / 2;
        assert(lo < mid < hi);
        assert(mid * mid <= 18446744073709551615 * 18446744073709551615) by (nonlinear_arith)
            requires
                0 <= mid <= 18446744073709551615u128,
        ;
        if mid * mid <= n {
            lo = mid;
        } else {
            hi = mid;
        }
    }
    proof {
        lemma_sqrt_floor_unique(n as int, lo as int);
        assert(lo <= 18446744073709551615u128);
    }
    lo as u64
}

/// `v` scaled by `num / den`, rounded toward zero.
pub open spec fn spec_scale(v: int, num: int, den: int) -> int {
    if v >= 0 {
        (v * num) / den
    } else {
        -(((-v) * num) / den)
    }
}

/// Scaling a coordinate no larger than the denominator yields a result no
/// larger than the numerator, and keeps its sign.
pub proof fn lemma_scale_bounds(v: int, num: int, den: int)
    requires
        0 < den,
        0 <= num,
        -den <= v <= den,
    ensures
        -num <= spec_scale(v, num, den) <= num,
        0 <= v ==> 0 <= spec_scale(v, num, den),
        v <= 0 ==> spec_scale(v, num, den) <= 0,
{
    let m = if v >= 0 {
        v
    } else {
        -v
    };
    lemma_mul_nonnegative(m, num);
    lemma_div_pos_is_pos(m * num, den);
    lemma_mul_inequality(m, den, num);
    lemma_div_is_ordered(m * num, den * num, den);
    lemma_div_multiples_vanish(num, den);
    if v == 0 {
        lemma_div_of0(den);
    }
}

/// Exact scaling of one signed coordinate by the ratio `num / den`.
/// Because the magnitude of `v` is at most `den`, the result's magnitude is
/// at most `num`.
pub fn scale_signed(v: i64, num: i64, den: u64) -> (r: i64)
    requires
        0 < den,
        0 <= num,
        v <= den,
        -(den as int) <= v,
    ensures
        r == spec_scale(v as int, num as int, den as int),
        -num <= r <= num,
{
    let mag: u128 = if v < 0 {
        (-(v as i128)) as u128
    } else {
        v as u128
    };
    proof {
        lemma_mul_inequality(mag as int, den as int, num as int);
        assert((den as int) * (num as int) <= 18446744073709551615 * 9223372036854775807)
            by (nonlinear_arith)
            requires
                0 <= den as int <= 18446744073709551615,
                0 <= num as int <= 9223372036854775807,
        ;
    }
    let scaled: u128 = mag * (num as u128) / (den as u128);
    proof {
        lemma_div_is_ordered((mag as int) * (num as int), (den as int) * (num as int), den as int);
        lemma_div_multiples_vanish(num as int, den as int);
    }
    if v < 0 {
        -(scaled as i64)
    } else {
        scaled as i64
    }
}

/// The squared length of `p`.
pub open spec fn norm_sq(p: Point) -> int {
    (p.x as int) * (p.x as int) + (p.y as int) * (p.y as int)
}

/// The length of `p`, rounded down to whole fixed-point units.
pub open spec fn spec_len(p: Point) -> int {
    sqrt_floor(norm_sq(p))
}

/// The components of `p` rescaled to magnitude `m`, rounding toward zero;
/// the zero vector stays zero rather than becoming undefined.
pub open spec fn spec_toward_x(p: Point, m: int) -> int {
    if p.x == 0 && p.y == 0 {
        0
    } else {
        spec_scale(p.x as int, m, spec_len(p))
    }
}

pub open spec fn spec_toward_y(p: Point, m: int) -> int {
    if p.x == 0 && p.y == 0 {
        0
    } else {
        spec_scale(p.y as int, m, spec_len(p))
    }
}

/// The length of `p`, computed through the integer square root.
pub fn length_of(p: Point) -> (r: u64)
    ensures
        r == spec_len(p),
        p.x as int <= r,
        -(r as int) <= p.x as int,
        p.y as int <= r,
        -(r as int) <= p.y as int,
        (p.x != 0 || p.y != 0) ==> r >= 1,
{
    proof {
        lemma_square_bound(p.x as int, 9223372036854775808);
        lemma_square_bound(p.y as int, 9223372036854775808);
    }
    let xx: i128 = (p.x as i128) * (p.x as i128);
    let yy: i128 = (p.y as i128) * (p.y as i128);
    let n: u128 = (xx as u128) + (yy as u128);
    let r = isqrt(n);
    proof {
        lemma_sqrt_floor_bounds(n as int);
        lemma_component_le_len(p.x as int, p.y as int, r as int);
        lemma_component_le_len(p.y as int, p.x as int, r as int);
        if p.x != 0 || p.y != 0 {
            assert(n >= 1) by (nonlinear_arith)
                requires
                    n == (p.x as int) * (p.x as int) + (p.y as int) * (p.y as int),
                    p.x != 0 || p.y != 0,
            ;
            if r == 0 {
                assert(false);
            }
        }
    }
    r
}

/// The square of a number bounded by `b` in magnitude is bounded by `b * b`.
proof fn lemma_square_bound(a: int, b: int)
    requires
        -b <= a <= b,
        0 <= b,
    ensures
        0 <= a * a <= b * b,
{
    assert(0 <= a * a <= b * b) by (nonlinear_arith)
        requires
            -b <= a <= b,
            0 <= b,
    ;
}

/// A component of a vector is never longer than the vector itself, even
/// after rounding the length down.
proof fn lemma_component_le_len(a: int, b: int, r: int)
    requires
        0 <= r,
        r * r <= a * a + b * b,
        a * a + b * b < (r + 1) * (r + 1),
    ensures
        a <= r,
        -r <= a,
{
    if a > r {
        assert((r + 1) * (r + 1) <= a * a + b * b) by (nonlinear_arith)
            requires
                r + 1 <= a,
                0 <= r,
        ;
    }
    if a < -r {
        assert((r + 1) * (r + 1) <= a * a + b * b) by (nonlinear_arith)
            requires
                a <= -(r + 1),
                0 <= r,
        ;
    }
}

/// The components of a vector rescaled to magnitude `m` are themselves
/// bounded by `m`.
pub proof fn lemma_toward_bounds(p: Point, m: int)
    requires
        0 <= m,
    ensures
        -m <= spec_toward_x(p, m) <= m,
        -m <= spec_toward_y(p, m) <= m,
{
    if !(p.x == 0 && p.y == 0) {
        assert(norm_sq(p) >= 1) by (nonlinear_arith)
            requires
                p.x != 0 || p.y != 0,
                norm_sq(p) == (p.x as int) * (p.x as int) + (p.y as int) * (p.y as int),
        ;
        lemma_sqrt_floor_bounds(norm_sq(p));
        let d = spec_len(p);
        assert(d >= 1) by (nonlinear_arith)
            requires
                d >= 0,
                norm_sq(p) >= 1,
                norm_sq(p) < (d + 1) * (d + 1),
        ;
        lemma_component_le_len(p.x as int, p.y as int, d);
        lemma_component_le_len(p.y as int, p.x as int, d);
        lemma_scale_bounds(p.x as int, m, d);
        lemma_scale_bounds(p.y as int, m, d);
    }
}

/// `p` rescaled to magnitude `m`: the direction is kept, up to the rounding
/// of each component toward zero, and the zero vector is left at zero.
pub fn scale_to(p: Point, m: i64) -> (r: Point)
    requires
        0 <= m,
    ensures
        r.x == spec_toward_x(p, m as int),
        r.y == spec_toward_y(p, m as int),
        -m <= r.x <= m,
        -m <= r.y <= m,
{
    if p.x == 0 && p.y == 0 {
        Point { x: 0, y: 0 }
    } else {
        let d = length_of(p);
        Point { x: scale_signed(p.x, m, d), y: scale_signed(p.y, m, d) }
    }
}

} // verus!

