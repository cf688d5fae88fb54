//! Fixed-point arithmetic shared by the whole simulation.
//!
//! Lengths, speeds and radii are `i32` counts of thousandths of a game unit,
//! angles are `i64` counts of millionths of a radian, times are `u64` counts of
//! microseconds, and the components of a unit vector are scaled by one million.
//! Every operation saturates at the bounds of `i32` instead of overflowing.

use vstd::prelude::*;

verus! {

/// The value of `i32` nearest to `v`.
pub open spec fn clamp_i32(v: int) -> i32 {
    if v < i32::MIN {
        i32::MIN
    } else if v > i32::MAX {
        i32::MAX
    } else {
        v as i32
    }
}

/// The value of `i64` nearest to `v`.
pub open spec fn clamp_i64(v: int) -> i64 {
    if v < i64::MIN {
        i64::MIN
    } else if v > i64::MAX {
        i64::MAX
    } else {
        v as i64
    }
}

/// The quotient of `a` by a positive `b`, rounded toward zero.
pub open spec fn toward_zero(a: int, b: int) -> int {
    if a >= 0 {
        a / b
    } else {
        -((-a) / b)
    }
}

/// `value * numer / denom`, rounded toward zero and clamped to `i32`.
pub open spec fn scaled(value: int, numer: int, denom: int) -> i32 {
    clamp_i32(toward_zero(value * numer, denom))
}

/// The largest `r` with `r * r <= n`.
pub open spec fn is_floor_sqrt(n: int, r: int) -> bool {
    0 <= r && r * r <= n && n < (r + 1) * (r + 1)
}

/// The smallest `r` with `n <= r * r`.
pub open spec fn is_ceil_sqrt(n: int, r: int) -> bool {
    0 <= r && n <= r * r && (r == 0 || (r - 1) * (r - 1) < n)
}

/// The square root of `n`, rounded down.
pub open spec fn sqrt_floor(n: int) -> int {
    choose|r: int| is_floor_sqrt(n, r)
}

/// The square root of `n`, rounded up.
pub open spec fn sqrt_ceil(n: int) -> int {
    choose|r: int| is_ceil_sqrt(n, r)
}

/// A square root rounded down is unique.
pub proof fn lemma_floor_sqrt_unique(n: int, r1: int, r2: int)
    requires
        is_floor_sqrt(n, r1),
        is_floor_sqrt(n, r2),
    ensures
        r1 == r2,
{
    if r1 < r2 {
        assert((r1 + 1) * (r1 + 1) <= r2 * r2) by (nonlinear_arith)
            requires
                0 <= r1,
                r1 + 1 <= r2,
        ;
    } else if r2 < r1 {
        assert((r2 + 1) * (r2 + 1) <= r1 * r1) by (nonlinear_arith)
            requires
                0 <= r2,
                r2 + 1 <= r1,
        ;
    }
}

/// A square root rounded up is unique.
pub proof fn lemma_ceil_sqrt_unique(n: int, r1: int, r2: int)
    requires
        is_ceil_sqrt(n, r1),
        is_ceil_sqrt(n, r2),
    ensures
        r1 == r2,
{
    if r1 < r2 {
        assert(r1 * r1 <= (r2 - 1) * (r2 - 1)) by (nonlinear_arith)
            requires
                0 <= r1,
                r1 <= r2 - 1,
        ;
    } else if r2 < r1 {
        assert(r2 * r2 <= (r1 - 1) * (r1 - 1)) by (nonlinear_arith)
            requires
                0 <= r2,
                r2 <= r1 - 1,
        ;
    }
}

/// Every natural number has a square root rounded down.
pub proof fn lemma_floor_sqrt_exists(n: int)
    requires
        n >= 0,
    ensures
        is_floor_sqrt(n, sqrt_floor(n)),
    decreases n,
{
    if n == 0 {
        assert(is_floor_sqrt(0, 0));
    } else {
        lemma_floor_sqrt_exists(n - 1);
        let p = sqrt_floor(n - 1);
        assert((p + 1) * (p + 1) == p * p + 2 * p + 1) by (nonlinear_arith);
        assert((p + 2) * (p + 2) == p * p + 4 * p + 4) by (nonlinear_arith);
        if n < (p + 1) * (p + 1) {
            assert(is_floor_sqrt(n, p));
        } else {
            assert(is_floor_sqrt(n, p + 1));
        }
    }
}

/// Every natural number has a square root rounded up.
pub proof fn lemma_ceil_sqrt_exists(n: int)
    requires
        n >= 0,
    ensures
        is_ceil_sqrt(n, sqrt_ceil(n)),
    decreases n,
{
    if n == 0 {
        assert(is_ceil_sqrt(0, 0));
    } else {
        lemma_ceil_sqrt_exists(n - 1);
        let p = sqrt_ceil(n - 1);
        if n <= p * p {
            assert(is_ceil_sqrt(n, p));
        } else {
            assert((p + 1) * (p + 1) == p * p + 2 * p + 1) by (nonlinear_arith);
            assert(is_ceil_sqrt(n, p + 1));
        }
    }
}

/// A quotient rounded toward zero, times the divisor, is no further from zero than the
/// dividend, and has its sign.
pub proof fn lemma_toward_zero_bound(a: int, b: int)
    requires
        b > 0,
    ensures
        a >= 0 ==> 0 <= toward_zero(a, b) * b <= a,
        a <= 0 ==> a <= toward_zero(a, b) * b <= 0,
        a >= 0 ==> a < toward_zero(a, b) * b + b,
        a <= 0 ==> toward_zero(a, b) * b - b < a,
{
    if a >= 0 {
        assert(0 <= (a / b) * b <= a && a < (a / b) * b + b) by (nonlinear_arith)
            requires
                a >= 0,
                b > 0,
        ;
    } else {
        let m = -a;
        assert(0 <= (m / b) * b <= m && m < (m / b) * b + b) by (nonlinear_arith)
            requires
                m >= 0,
                b > 0,
        ;
        assert((-(m / b)) * b == -((m / b) * b)) by (nonlinear_arith);
    }
}

/// Clamping to `i32` moves a value no further from zero and keeps its sign.
pub proof fn lemma_clamp_shrinks(v: int)
    ensures
        v >= 0 ==> 0 <= clamp_i32(v) <= v,
        v <= 0 ==> v <= clamp_i32(v) <= 0,
{
}

/// The square of a quotient rounded toward zero, times the square of the divisor, lies
/// between the square of the dividend less twice the divisor times the dividend's size, and
/// the square of the dividend.
pub proof fn lemma_toward_zero_square(a: int, b: int)
    requires
        b > 0,
    ensures
        toward_zero(a, b) * toward_zero(a, b) * (b * b) <= a * a,
        a >= 0 ==> toward_zero(a, b) * toward_zero(a, b) * (b * b) >= a * a - 2 * a * b,
        a <= 0 ==> toward_zero(a, b) * toward_zero(a, b) * (b * b) >= a * a + 2 * a * b,
{
    let q = toward_zero(a, b);
    lemma_toward_zero_bound(a, b);
    let u = q * b;
    assert(q * q * (b * b) == u * u) by (nonlinear_arith)
        requires
            u == q * b,
    ;
    if a >= 0 {
        assert(u * u <= a * a) by (nonlinear_arith)
            requires
                0 <= u <= a,
        ;
        assert(u * u >= a * a - 2 * a * b) by (nonlinear_arith)
            requires
                0 <= u,
                a - b < u,
                a >= 0,
                b > 0,
        ;
    } else {
        assert(u * u <= a * a) by (nonlinear_arith)
            requires
                a <= u <= 0,
        ;
        assert(u * u >= a * a + 2 * a * b) by (nonlinear_arith)
            requires
                u <= 0,
                u < a + b,
                a <= 0,
                b > 0,
        ;
    }
}

/// Clamps a wide integer to `i32`.
pub fn saturate(v: i128) -> (r: i32)
    ensures
        r == clamp_i32(v as int),
{
    if v < -2147483648 {
        -2147483648
    } else if v > 2147483647 {
        2147483647
    } else {
        v as i32
    }
}

/// Clamps a wide integer to `i64`.
pub fn saturate_i64(v: i128) -> (r: i64)
    ensures
        r == clamp_i64(v as int),
{
    if v < -9223372036854775808 {
        -9223372036854775808
    } else if v > 9223372036854775807 {
        9223372036854775807
    } else {
        v as i64
    }
}

/// Adds two lengths, saturating at the bounds of `i32`.
pub fn add_saturating(a: i32, b: i32) -> (r: i32)
    ensures
        r == clamp_i32(a + b),
{
    saturate(a as i128 + b as i128)
}

/// Computes `value * numer / denom`, rounded toward zero and clamped to `i32`.
///
/// A `denom` that is not positive gives zero.
pub fn scale(value: i32, numer: i64, denom: i64) -> (r: i32)
    ensures
        denom > 0 ==> r == scaled(value as int, numer as int, denom as int),
        denom <= 0 ==> r == 0,
{
    if denom <= 0 {
        return 0;
    }
    assert(-0x4000_0000_0000_0000_0000_0000 <= value * numer <= 0x4000_0000_0000_0000_0000_0000)
        by (nonlinear_arith)
        requires
            -0x8000_0000 <= value <= 0x8000_0000,
            -0x8000_0000_0000_0000 <= numer <= 0x8000_0000_0000_0000,
    ;
    let product: i128 = (value as i128) * (numer as i128);
    saturate(product / (denom as i128))
}

/// The square root of `n`, rounded down.
pub fn floor_sqrt(n: u64) -> (r: u64)
    ensures
        r == sqrt_floor(n as int),
        is_floor_sqrt(n as int, r as int),
        r < 0x1_0000_0000,
{
    let mut lo: u64 = 0;
    let mut hi: u64 = 0x1_0000_0000;
    while hi - lo > 1
        invariant
            lo < hi <= 0x1_0000_0000,
            lo * lo <= n,
            n < hi * hi,
        decreases hi - lo,
    {
        let mid: u64 = lo + (hi - lo) / 2;
        assert(mid * mid <= 0xffff_ffff * 0xffff_ffff) by (nonlinear_arith)
            requires
                0 <= mid <= 0xffff_ffff,
        ;
        if mid * mid <= n {
            lo = mid;
        } else {
            hi = mid;
        }
    }
    proof {
        assert(is_floor_sqrt(n as int, lo as int));
        lemma_floor_sqrt_unique(n as int, lo as int, sqrt_floor(n as int));
    }
    lo
}

/// The square root of `n`, rounded up.
pub fn ceil_sqrt(n: u64) -> (r: u64)
    ensures
        r == sqrt_ceil(n as int),
        is_ceil_sqrt(n as int, r as int),
        r <= 0x1_0000_0000,
{
    let root = floor_sqrt(n);
    assert(root * root <= 0xffff_ffff * 0xffff_ffff) by (nonlinear_arith)
        requires
            0 <= root <= 0xffff_ffff,
    ;
    let r = if root * root == n {
        assert(root > 0 ==> (root - 1) * (root - 1) < root * root) by (nonlinear_arith);
        root
    } else {
        root + 1
    };
    proof {
        assert(is_ceil_sqrt(n as int, r as int));
        lemma_ceil_sqrt_unique(n as int, r as int, sqrt_ceil(n as int));
    }
    r
}

} // verus!
