//! Two-dimensional vectors in fixed point.

use vstd::prelude::*;
use crate::fixed::{
    add_saturating, ceil_sqrt, clamp_i32, is_ceil_sqrt, lemma_ceil_sqrt_exists,
    lemma_clamp_shrinks, lemma_toward_zero_bound, lemma_toward_zero_square, scale, scaled,
    sqrt_ceil, toward_zero,
};

verus! {

/// A point or a displacement of the plane, in thousandths of a game unit.
#[derive(Clone, Copy, Debug, PartialEq, Eq, Structural)]
pub struct Vector2 {
    pub x: i32,
    pub y: i32,
}

/// The sum of two vectors, each component clamped to `i32`.
pub open spec fn vec_sum(a: Vector2, b: Vector2) -> Vector2 {
    Vector2 { x: clamp_i32(a.x + b.x), y: clamp_i32(a.y + b.y) }
}

/// `v * numer / denom`, each component rounded toward zero and clamped to `i32`.
pub open spec fn vec_scaled(v: Vector2, numer: int, denom: int) -> Vector2 {
    Vector2 { x: scaled(v.x as int, numer, denom), y: scaled(v.y as int, numer, denom) }
}

/// The squared length of `v`.
pub open spec fn norm_squared(v: Vector2) -> int {
    v.x * v.x + v.y * v.y
}

/// The squared distance between `a` and `b`.
pub open spec fn distance_squared(a: Vector2, b: Vector2) -> int {
    (a.x - b.x) * (a.x - b.x) + (a.y - b.y) * (a.y - b.y)
}

/// `v` cut down to the length `max` where it is longer, and `v` itself where it is not.
///
/// A vector that is too long is multiplied by `max` and divided by its own length rounded up,
/// so the result points the same way and is never longer than `max`.
pub open spec fn limited(v: Vector2, max: int) -> Vector2 {
    if norm_squared(v) > max * max {
        vec_scaled(v, max, sqrt_ceil(norm_squared(v)))
    } else {
        v
    }
}

/// The square of `scaled(value, numer, denom)`, times the square of `denom`, is at most the
/// square of `value * numer`.
proof fn lemma_scaled_square(value: int, numer: int, denom: int)
    requires
        denom > 0,
    ensures
        scaled(value, numer, denom) * scaled(value, numer, denom) * (denom * denom) <= (value
            * numer) * (value * numer),
{
    let a = value * numer;
    let q = toward_zero(a, denom);
    let w = scaled(value, numer, denom) as int;
    lemma_toward_zero_bound(a, denom);
    lemma_clamp_shrinks(q);
    if a >= 0 {
        assert(w * w * (denom * denom) <= a * a) by (nonlinear_arith)
            requires
                0 <= w <= q,
                0 <= q * denom <= a,
                denom > 0,
        ;
    } else {
        assert(w * w * (denom * denom) <= a * a) by (nonlinear_arith)
            requires
                q <= w <= 0,
                a <= q * denom <= 0,
                denom > 0,
        ;
    }
}

/// A vector that went through `limited` is never longer than `max`.
pub proof fn lemma_limited_within(v: Vector2, max: int)
    ensures
        norm_squared(limited(v, max)) <= max * max,
{
    let total = norm_squared(v);
    if total > max * max {
        assert(max * max >= 0) by (nonlinear_arith);
        assert(total >= 0) by (nonlinear_arith)
            requires
                total == v.x * v.x + v.y * v.y,
        ;
        lemma_ceil_sqrt_exists(total);
        let n = sqrt_ceil(total);
        assert(n > 0) by (nonlinear_arith)
            requires
                0 <= n,
                total > 0,
                total <= n * n,
        ;
        let w = limited(v, max);
        lemma_scaled_square(v.x as int, max, n);
        lemma_scaled_square(v.y as int, max, n);
        let wx = w.x as int;
        let wy = w.y as int;
        let vx = v.x as int;
        let vy = v.y as int;
        let a = wx * wx;
        let b = wy * wy;
        let m2 = max * max;
        let n2 = n * n;
        let x2 = vx * vx;
        let y2 = vy * vy;
        assert((vx * max) * (vx * max) == x2 * m2) by (nonlinear_arith)
            requires
                x2 == vx * vx,
                m2 == max * max,
        ;
        assert((vy * max) * (vy * max) == y2 * m2) by (nonlinear_arith)
            requires
                y2 == vy * vy,
                m2 == max * max,
        ;
        assert((a + b) * n2 == a * n2 + b * n2) by (nonlinear_arith);
        assert((x2 + y2) * m2 == x2 * m2 + y2 * m2) by (nonlinear_arith);
        assert((x2 + y2) * m2 <= n2 * m2) by (nonlinear_arith)
            requires
                x2 + y2 <= n2,
                m2 >= 0,
        ;
        assert(n2 > 0) by (nonlinear_arith)
            requires
                n > 0,
                n2 == n * n,
        ;
        assert(a + b <= m2) by (nonlinear_arith)
            requires
                (a + b) * n2 <= n2 * m2,
                n2 > 0,
        ;
    }
}

/// The zero vector is left as it is, whatever the length.
pub proof fn lemma_limited_zero(max: int)
    ensures
        limited(Vector2 { x: 0, y: 0 }, max) == (Vector2 { x: 0, y: 0 }),
{
    assert(max * max >= 0) by (nonlinear_arith);
}

/// Limiting to a length that is not negative keeps the direction: no component changes
/// its sign or grows, and the result is parallel to the vector up to rounding.
pub proof fn lemma_limited_keeps_direction(v: Vector2, max: int)
    requires
        max >= 0,
    ensures
        v.x >= 0 ==> 0 <= limited(v, max).x <= v.x,
        v.x <= 0 ==> v.x <= limited(v, max).x <= 0,
        v.y >= 0 ==> 0 <= limited(v, max).y <= v.y,
        v.y <= 0 ==> v.y <= limited(v, max).y <= 0,
{
    let total = norm_squared(v);
    if total > max * max {
        assert(total >= 0) by (nonlinear_arith)
            requires
                total == v.x * v.x + v.y * v.y,
        ;
        lemma_ceil_sqrt_exists(total);
        let n = sqrt_ceil(total);
        assert(n > max) by (nonlinear_arith)
            requires
                0 <= n,
                0 <= max,
                max * max < n * n,
        ;
        lemma_limited_axis(v.x as int, max, n);
        lemma_limited_axis(v.y as int, max, n);
    }
}

/// One component of `lemma_limited_keeps_direction`.
proof fn lemma_limited_axis(c: int, max: int, n: int)
    requires
        0 <= max < n,
        i32::MIN <= c <= i32::MAX,
    ensures
        c >= 0 ==> 0 <= scaled(c, max, n) <= c,
        c <= 0 ==> c <= scaled(c, max, n) <= 0,
        scaled(c, max, n) == toward_zero(c * max, n),
{
    let a = c * max;
    let q = toward_zero(a, n);
    lemma_toward_zero_bound(a, n);
    if c >= 0 {
        assert(0 <= a <= c * n) by (nonlinear_arith)
            requires
                a == c * max,
                c >= 0,
                0 <= max < n,
        ;
        assert(0 <= q <= c) by (nonlinear_arith)
            requires
                0 <= q * n <= a,
                a <= c * n,
                n > 0,
        ;
    } else {
        assert(c * n <= a <= 0) by (nonlinear_arith)
            requires
                a == c * max,
                c <= 0,
                0 <= max < n,
        ;
        assert(c <= q <= 0) by (nonlinear_arith)
            requires
                a <= q * n <= 0,
                c * n <= a,
                n > 0,
        ;
    }
}

/// A vector that was cut down is as long as the limit, up to rounding: for a limit that is
/// not negative its squared length misses the squared limit by at most six times the
/// limit.
pub proof fn lemma_limited_length(v: Vector2, max: int)
    requires
        max >= 0,
        norm_squared(v) > max * max,
    ensures
        norm_squared(limited(v, max)) <= max * max,
        norm_squared(limited(v, max)) >= max * max - 6 * max,
{
    lemma_limited_within(v, max);
    let total = norm_squared(v);
    let vx = v.x as int;
    let vy = v.y as int;
    assert(max * max >= 0) by (nonlinear_arith);
    lemma_ceil_sqrt_exists(total);
    let n = sqrt_ceil(total);
    assert(is_ceil_sqrt(total, n));
    assert(n > max) by (nonlinear_arith)
        requires
            0 <= n,
            0 <= max,
            max * max < n * n,
    ;
    lemma_limited_axis(vx, max, n);
    lemma_limited_axis(vy, max, n);
    let a = vx * max;
    let b = vy * max;
    let x = toward_zero(a, n);
    let y = toward_zero(b, n);
    lemma_toward_zero_bound(a, n);
    lemma_toward_zero_bound(b, n);
    assert(limited(v, max).x == x);
    assert(limited(v, max).y == y);
    lemma_toward_zero_square(a, n);
    lemma_toward_zero_square(b, n);
    let abs_x = if vx >= 0 {
        vx
    } else {
        -vx
    };
    let abs_y = if vy >= 0 {
        vy
    } else {
        -vy
    };
    assert(abs_x * abs_x == vx * vx && abs_y * abs_y == vy * vy) by (nonlinear_arith)
        requires
            abs_x == vx || abs_x == -vx,
            abs_y == vy || abs_y == -vy,
    ;
    assert(abs_x * abs_x >= 0 && abs_y * abs_y >= 0) by (nonlinear_arith);
    assert(abs_x <= n) by (nonlinear_arith)
        requires
            abs_x * abs_x <= n * n,
            0 <= abs_x,
            0 <= n,
    ;
    assert(abs_y <= n) by (nonlinear_arith)
        requires
            abs_y * abs_y <= n * n,
            0 <= abs_y,
            0 <= n,
    ;
    let abs_a = if a >= 0 {
        a
    } else {
        -a
    };
    let abs_b = if b >= 0 {
        b
    } else {
        -b
    };
    assert(abs_a == abs_x * max) by (nonlinear_arith)
        requires
            a == vx * max,
            max >= 0,
            abs_x == if vx >= 0 {
                vx
            } else {
                -vx
            },
            abs_a == if a >= 0 {
                a
            } else {
                -a
            },
    ;
    assert(abs_b == abs_y * max) by (nonlinear_arith)
        requires
            b == vy * max,
            max >= 0,
            abs_y == if vy >= 0 {
                vy
            } else {
                -vy
            },
            abs_b == if b >= 0 {
                b
            } else {
                -b
            },
    ;
    let n2 = n * n;
    let m2 = max * max;
    let w2 = x * x + y * y;
    assert(x * x * n2 >= a * a - 2 * abs_a * n) by (nonlinear_arith)
        requires
            n2 == n * n,
            (a >= 0 && abs_a == a && x * x * (n * n) >= a * a - 2 * a * n) || (a <= 0 && abs_a
                == -a && x * x * (n * n) >= a * a + 2 * a * n),
    ;
    assert(y * y * n2 >= b * b - 2 * abs_b * n) by (nonlinear_arith)
        requires
            n2 == n * n,
            (b >= 0 && abs_b == b && y * y * (n * n) >= b * b - 2 * b * n) || (b <= 0 && abs_b
                == -b && y * y * (n * n) >= b * b + 2 * b * n),
    ;
    assert(w2 * n2 == x * x * n2 + y * y * n2) by (nonlinear_arith)
        requires
            w2 == x * x + y * y,
    ;
    assert(a * a + b * b == m2 * total) by (nonlinear_arith)
        requires
            a == vx * max,
            b == vy * max,
            m2 == max * max,
            total == vx * vx + vy * vy,
    ;
    assert(m2 * total >= m2 * (n2 - 2 * n)) by (nonlinear_arith)
        requires
            m2 >= 0,
            total > (n - 1) * (n - 1),
            n2 == n * n,
    ;
    assert(m2 * (n2 - 2 * n) == m2 * n2 - 2 * n * m2) by (nonlinear_arith);
    assert(n * m2 <= n2 * max) by (nonlinear_arith)
        requires
            m2 == max * max,
            n2 == n * n,
            0 <= max < n,
    ;
    assert(abs_a * n <= n2 * max) by (nonlinear_arith)
        requires
            abs_a == abs_x * max,
            0 <= abs_x <= n,
            0 <= max,
            n2 == n * n,
    ;
    assert(abs_b * n <= n2 * max) by (nonlinear_arith)
        requires
            abs_b == abs_y * max,
            0 <= abs_y <= n,
            0 <= max,
            n2 == n * n,
    ;
    assert(w2 * n2 >= (m2 - 6 * max) * n2) by (nonlinear_arith)
        requires
            w2 * n2 >= m2 * n2 - 2 * n * m2 - 2 * abs_a * n - 2 * abs_b * n,
            n * m2 <= n2 * max,
            abs_a * n <= n2 * max,
            abs_b * n <= n2 * max,
    ;
    assert(n2 > 0) by (nonlinear_arith)
        requires
            n > 0,
            n2 == n * n,
    ;
    assert(w2 >= m2 - 6 * max) by (nonlinear_arith)
        requires
            w2 * n2 >= (m2 - 6 * max) * n2,
            n2 > 0,
    ;
}

/// Limiting a vector twice to the same length gives what limiting it once gives.
pub proof fn lemma_limited_idempotent(v: Vector2, max: int)
    ensures
        limited(limited(v, max), max) == limited(v, max),
{
    lemma_limited_within(v, max);
}

impl Vector2 {
    pub fn new(x: i32, y: i32) -> (v: Vector2)
        ensures
            v == (Vector2 { x, y }),
    {
        Vector2 { x, y }
    }

    /// The vector with both components zero.
    pub fn zero() -> (v: Vector2)
        ensures
            v == (Vector2 { x: 0, y: 0 }),
    {
        Vector2 { x: 0, y: 0 }
    }

    /// Componentwise sum, saturating.
    pub fn plus(self, other: Vector2) -> (r: Vector2)
        ensures
            r == vec_sum(self, other),
    {
        Vector2 { x: add_saturating(self.x, other.x), y: add_saturating(self.y, other.y) }
    }

    /// This vector times `numer / denom`; the zero vector where `denom` is not positive.
    pub fn scaled(self, numer: i64, denom: i64) -> (r: Vector2)
        ensures
            denom > 0 ==> r == vec_scaled(self, numer as int, denom as int),
            denom <= 0 ==> r == (Vector2 { x: 0, y: 0 }),
    {
        Vector2 { x: scale(self.x, numer, denom), y: scale(self.y, numer, denom) }
    }

    /// The squared length.
    pub fn norm_squared(self) -> (n: u64)
        ensures
            n == norm_squared(self),
    {
        let x: i64 = self.x as i64;
        let y: i64 = self.y as i64;
        assert(0 <= x * x <= 0x4000_0000_0000_0000) by (nonlinear_arith)
            requires
                -0x8000_0000 <= x <= 0x8000_0000,
        ;
        assert(0 <= y * y <= 0x4000_0000_0000_0000) by (nonlinear_arith)
            requires
                -0x8000_0000 <= y <= 0x8000_0000,
        ;
        (x * x) as u64 + (y * y) as u64
    }

    /// The squared distance to `other`.
    pub fn distance_squared(self, other: Vector2) -> (n: u128)
        ensures
            n == distance_squared(self, other),
    {
        let dx: i64 = self.x as i64 - other.x as i64;
        let dy: i64 = self.y as i64 - other.y as i64;
        assert(0 <= dx * dx <= 0x1_0000_0000_0000_0000) by (nonlinear_arith)
            requires
                -0x1_0000_0000 <= dx <= 0x1_0000_0000,
        ;
        assert(0 <= dy * dy <= 0x1_0000_0000_0000_0000) by (nonlinear_arith)
            requires
                -0x1_0000_0000 <= dy <= 0x1_0000_0000,
        ;
        let sx: i128 = (dx as i128) * (dx as i128);
        let sy: i128 = (dy as i128) * (dy as i128);
        (sx + sy) as u128
    }

    /// This vector cut down to the length `max` where it is longer.
    pub fn limited(self, max: i32) -> (r: Vector2)
        ensures
            r == limited(self, max as int),
    {
        let m: i64 = max as i64;
        assert(0 <= m * m <= 0x4000_0000_0000_0000) by (nonlinear_arith)
            requires
                -0x8000_0000 <= m <= 0x8000_0000,
        ;
        let n = self.norm_squared();
        if n > (m * m) as u64 {
            let length = ceil_sqrt(n);
            assert(length > 0) by (nonlinear_arith)
                requires
                    n > 0,
                    n <= length * length,
            ;
            self.scaled(m, length as i64)
        } else {
            self
        }
    }
}

} // verus!
