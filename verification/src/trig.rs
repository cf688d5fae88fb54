//! Sine, cosine and arctangent in fixed point.
//!
//! Angles are millionths of a radian. A full turn is taken as 6 283 184 of them, eight times
//! the eighth of a turn, so that every octant has the same whole number of steps.

use vstd::prelude::*;
use crate::fixed::{sqrt_floor, is_floor_sqrt, floor_sqrt, lemma_floor_sqrt_exists};

verus! {

/// An eighth of a turn, in millionths of a radian.
pub const EIGHTH_TURN: i64 = 785_398;

/// A quarter of a turn.
pub const QUARTER_TURN: i64 = 1_570_796;

/// Half a turn.
pub const HALF_TURN: i64 = 3_141_592;

/// A full turn.
pub const FULL_TURN: i64 = 6_283_184;

/// A direction of the plane: cosine and sine of an angle, each times one million.
#[derive(Clone, Copy, Debug, PartialEq, Eq, Structural)]
pub struct Direction {
    pub cos: i32,
    pub sin: i32,
}

/// The sine of `x` millionths of a radian, times one million, for `x` in the first octant.
///
/// This is the series `x - x^3/3! + x^5/5! - x^7/7!`, evaluated innermost term first, every
/// quotient rounded down.
pub open spec fn small_sine(x: int) -> int {
    let q = x * x / 1_000_000;
    let t3 = 1_000_000 - q / 42;
    let t2 = 1_000_000 - (q * t3 / 1_000_000) / 20;
    let t1 = 1_000_000 - (q * t2 / 1_000_000) / 6;
    x * t1 / 1_000_000
}

/// The cosine that goes with `small_sine(x)`: the largest `c` with
/// `c * c + small_sine(x) * small_sine(x)` at most one million squared.
pub open spec fn small_cosine(x: int) -> int {
    sqrt_floor(1_000_000_000_000 - small_sine(x) * small_sine(x))
}

/// The direction of `angle`, for any angle, positive or negative.
///
/// The angle is reduced to one turn and then to the first octant, where the smaller
/// component is `small_sine` and the larger one `small_cosine`; the octant says which is
/// which and gives the signs.
pub open spec fn direction(angle: int) -> Direction {
    let t = angle % 6_283_184;
    let octant = t / 785_398;
    let r = t % 785_398;
    let x = if octant % 2 == 0 {
        r
    } else {
        785_398 - r
    };
    let big = small_cosine(x);
    let small = small_sine(x);
    if octant == 0 {
        Direction { cos: big as i32, sin: small as i32 }
    } else if octant == 1 {
        Direction { cos: small as i32, sin: big as i32 }
    } else if octant == 2 {
        Direction { cos: (-small) as i32, sin: big as i32 }
    } else if octant == 3 {
        Direction { cos: (-big) as i32, sin: small as i32 }
    } else if octant == 4 {
        Direction { cos: (-big) as i32, sin: (-small) as i32 }
    } else if octant == 5 {
        Direction { cos: (-small) as i32, sin: (-big) as i32 }
    } else if octant == 6 {
        Direction { cos: small as i32, sin: (-big) as i32 }
    } else {
        Direction { cos: big as i32, sin: (-small) as i32 }
    }
}

/// In the first octant the sine lies between zero and the angle.
pub proof fn lemma_small_sine_bounds(x: int)
    requires
        0 <= x <= 785_398,
    ensures
        0 <= small_sine(x) <= x,
{
    let q = x * x / 1_000_000;
    assert(0 <= x * x <= 785_398 * 785_398) by (nonlinear_arith)
        requires
            0 <= x <= 785_398,
    ;
    assert(0 <= q <= 616_851);
    let t3 = 1_000_000 - q / 42;
    assert(0 <= t3 <= 1_000_000);
    assert(0 <= q * t3 <= q * 1_000_000) by (nonlinear_arith)
        requires
            0 <= q,
            0 <= t3 <= 1_000_000,
    ;
    let t2 = 1_000_000 - (q * t3 / 1_000_000) / 20;
    assert(0 <= t2 <= 1_000_000);
    assert(0 <= q * t2 <= q * 1_000_000) by (nonlinear_arith)
        requires
            0 <= q,
            0 <= t2 <= 1_000_000,
    ;
    let t1 = 1_000_000 - (q * t2 / 1_000_000) / 6;
    assert(0 <= t1 <= 1_000_000);
    assert(0 <= x * t1 <= x * 1_000_000) by (nonlinear_arith)
        requires
            0 <= x,
            0 <= t1 <= 1_000_000,
    ;
}

/// In the first octant sine and cosine make a vector of length one, up to rounding:
/// its squared length is at most one million squared and misses it by less than
/// `2 * small_cosine(x) + 1`.
pub proof fn lemma_first_octant_unit(x: int)
    requires
        0 <= x <= 785_398,
    ensures
        0 <= small_sine(x) <= 785_398,
        0 <= small_cosine(x) <= 1_000_000,
        small_cosine(x) * small_cosine(x) + small_sine(x) * small_sine(x) <= 1_000_000_000_000,
        small_cosine(x) * small_cosine(x) + small_sine(x) * small_sine(x) > 1_000_000_000_000
            - 2 * small_cosine(x) - 1,
{
    lemma_small_sine_bounds(x);
    let s = small_sine(x);
    assert(0 <= s * s <= 785_398 * 785_398) by (nonlinear_arith)
        requires
            0 <= s <= 785_398,
    ;
    let rest = 1_000_000_000_000 - s * s;
    lemma_floor_sqrt_exists(rest);
    let c = small_cosine(x);
    assert(is_floor_sqrt(rest, c));
    assert((c + 1) * (c + 1) == c * c + 2 * c + 1) by (nonlinear_arith);
    assert(c <= 1_000_000) by (nonlinear_arith)
        requires
            0 <= c,
            c * c <= 1_000_000_000_000,
    ;
}

/// Every direction has length one, up to rounding: its squared length is at most one
/// million squared and misses it by at most two million.
pub proof fn lemma_direction_unit(angle: int)
    ensures
        -1_000_000 <= direction(angle).cos <= 1_000_000,
        -1_000_000 <= direction(angle).sin <= 1_000_000,
        direction(angle).cos * direction(angle).cos + direction(angle).sin * direction(
            angle,
        ).sin <= 1_000_000_000_000,
        direction(angle).cos * direction(angle).cos + direction(angle).sin * direction(
            angle,
        ).sin >= 1_000_000_000_000 - 2_000_000,
{
    let t = angle % 6_283_184;
    let octant = t / 785_398;
    let r = t % 785_398;
    let x = if octant % 2 == 0 {
        r
    } else {
        785_398 - r
    };
    lemma_first_octant_unit(x);
    let big = small_cosine(x);
    let small = small_sine(x);
    assert((-big) * (-big) == big * big) by (nonlinear_arith);
    assert((-small) * (-small) == small * small) by (nonlinear_arith);
}

/// A direction lies in the quadrant of its angle: the sine is not negative in the first
/// half of a turn and not positive in the second, the cosine is not negative in the first
/// and the last quarter and not positive in between.
pub proof fn lemma_direction_quadrant(angle: int)
    ensures
        angle % 6_283_184 < 3_141_592 ==> direction(angle).sin >= 0,
        angle % 6_283_184 >= 3_141_592 ==> direction(angle).sin <= 0,
        angle % 6_283_184 < 1_570_796 || angle % 6_283_184 >= 4_712_388 ==> direction(angle).cos
            >= 0,
        1_570_796 <= angle % 6_283_184 < 4_712_388 ==> direction(angle).cos <= 0,
{
    let t = angle % 6_283_184;
    let octant = t / 785_398;
    let r = t % 785_398;
    let x = if octant % 2 == 0 {
        r
    } else {
        785_398 - r
    };
    lemma_first_octant_unit(x);
}

/// Sine of an angle of the first octant, times one million.
fn first_octant_sine(x: i64) -> (s: i64)
    requires
        0 <= x <= 785_398,
    ensures
        s == small_sine(x as int),
        0 <= s <= x,
{
    proof {
        lemma_small_sine_bounds(x as int);
    }
    assert(0 <= x * x <= 785_398 * 785_398) by (nonlinear_arith)
        requires
            0 <= x <= 785_398,
    ;
    let q: i64 = x * x / 1_000_000;
    let t3: i64 = 1_000_000 - q / 42;
    assert(0 <= q * t3 <= q * 1_000_000) by (nonlinear_arith)
        requires
            0 <= q,
            0 <= t3 <= 1_000_000,
    ;
    let t2: i64 = 1_000_000 - (q * t3 / 1_000_000) / 20;
    assert(0 <= q * t2 <= q * 1_000_000) by (nonlinear_arith)
        requires
            0 <= q,
            0 <= t2 <= 1_000_000,
    ;
    let t1: i64 = 1_000_000 - (q * t2 / 1_000_000) / 6;
    assert(0 <= x * t1 <= x * 1_000_000) by (nonlinear_arith)
        requires
            0 <= x,
            0 <= t1 <= 1_000_000,
    ;
    x * t1 / 1_000_000
}

/// The direction of `angle`: its cosine and sine, each times one million.
pub fn direction_of(angle: i64) -> (d: Direction)
    ensures
        d == direction(angle as int),
{
    let rem: i64 = angle % 6_283_184;
    let t: i64 = if rem < 0 {
        rem + 6_283_184
    } else {
        rem
    };
    assert(t == (angle as int) % 6_283_184);
    let octant: i64 = t / 785_398;
    let r: i64 = t % 785_398;
    let x: i64 = if octant % 2 == 0 {
        r
    } else {
        785_398 - r
    };
    let small = first_octant_sine(x);
    proof {
        lemma_first_octant_unit(x as int);
    }
    assert(0 <= small * small <= 785_398 * 785_398) by (nonlinear_arith)
        requires
            0 <= small <= 785_398,
    ;
    let big = floor_sqrt((1_000_000_000_000 - small * small) as u64) as i64;
    let s: i32 = small as i32;
    let b: i32 = big as i32;
    if octant == 0 {
        Direction { cos: b, sin: s }
    } else if octant == 1 {
        Direction { cos: s, sin: b }
    } else if octant == 2 {
        Direction { cos: -s, sin: b }
    } else if octant == 3 {
        Direction { cos: -b, sin: s }
    } else if octant == 4 {
        Direction { cos: -b, sin: -s }
    } else if octant == 5 {
        Direction { cos: -s, sin: -b }
    } else if octant == 6 {
        Direction { cos: s, sin: -b }
    } else {
        Direction { cos: b, sin: -s }
    }
}

/// The arctangent of `z` millionths, in millionths of a radian, for `z` from zero to one
/// million: from zero to an eighth of a turn.
///
/// This is `z * pi/4 + z * (1 - z) * (0.2447 + 0.0663 * z)`, every quotient rounded down, cut
/// off at an eighth of a turn.
pub open spec fn unit_arctangent(z: int) -> int {
    let p = z * (1_000_000 - z) / 1_000_000;
    let k = 244_700 + 66_300 * z / 1_000_000;
    let raw = (785_398 * z + p * k) / 1_000_000;
    if raw > 785_398 {
        785_398
    } else {
        raw
    }
}

/// The angle of the vector `(x, y)`, from minus half a turn to half a turn; zero for the
/// zero vector.
pub open spec fn arctangent2(y: int, x: int) -> int {
    let ax = if x < 0 {
        -x
    } else {
        x
    };
    let ay = if y < 0 {
        -y
    } else {
        y
    };
    if ax == 0 && ay == 0 {
        0
    } else {
        let base = if ay <= ax {
            unit_arctangent(ay * 1_000_000 / ax)
        } else {
            1_570_796 - unit_arctangent(ax * 1_000_000 / ay)
        };
        let upper = if x < 0 {
            3_141_592 - base
        } else {
            base
        };
        if y < 0 {
            -upper
        } else {
            upper
        }
    }
}

/// The arctangent of a ratio between zero and one lies in the first octant.
pub proof fn lemma_unit_arctangent_bounds(z: int)
    requires
        0 <= z <= 1_000_000,
    ensures
        0 <= unit_arctangent(z) <= 785_398,
{
    assert(0 <= z * (1_000_000 - z) <= 1_000_000 * 1_000_000) by (nonlinear_arith)
        requires
            0 <= z <= 1_000_000,
    ;
    let p = z * (1_000_000 - z) / 1_000_000;
    let k = 244_700 + 66_300 * z / 1_000_000;
    assert(0 <= p * k) by (nonlinear_arith)
        requires
            0 <= p,
            0 <= k,
    ;
}

/// The angle of a vector lies between minus half a turn and half a turn, in the half
/// plane and on the side of the first axis where the vector lies.
pub proof fn lemma_arctangent2_quadrant(y: int, x: int)
    ensures
        -3_141_592 <= arctangent2(y, x) <= 3_141_592,
        y >= 0 ==> arctangent2(y, x) >= 0,
        y < 0 ==> arctangent2(y, x) <= 0,
        x >= 0 ==> -1_570_796 <= arctangent2(y, x) <= 1_570_796,
        x < 0 && y >= 0 ==> arctangent2(y, x) >= 1_570_796,
        x < 0 && y < 0 ==> arctangent2(y, x) <= -1_570_796,
{
    let ax = if x < 0 {
        -x
    } else {
        x
    };
    let ay = if y < 0 {
        -y
    } else {
        y
    };
    if ax == 0 && ay == 0 {
    } else if ay <= ax {
        assert(0 <= ay * 1_000_000 / ax <= 1_000_000) by (nonlinear_arith)
            requires
                0 <= ay <= ax,
                ax > 0,
        ;
        lemma_unit_arctangent_bounds(ay * 1_000_000 / ax);
    } else {
        assert(0 <= ax * 1_000_000 / ay <= 1_000_000) by (nonlinear_arith)
            requires
                0 <= ax <= ay,
                ay > 0,
        ;
        lemma_unit_arctangent_bounds(ax * 1_000_000 / ay);
    }
}

/// Arctangent of a ratio between zero and one, given in millionths.
fn first_octant_arctangent(z: i64) -> (a: i64)
    requires
        0 <= z <= 1_000_000,
    ensures
        a == unit_arctangent(z as int),
        0 <= a <= 785_398,
{
    proof {
        lemma_unit_arctangent_bounds(z as int);
    }
    assert(0 <= z * (1_000_000 - z) <= 1_000_000 * 1_000_000) by (nonlinear_arith)
        requires
            0 <= z <= 1_000_000,
    ;
    let p: i64 = z * (1_000_000 - z) / 1_000_000;
    let k: i64 = 244_700 + 66_300 * z / 1_000_000;
    assert(0 <= p * k <= 1_000_000 * 311_000) by (nonlinear_arith)
        requires
            0 <= p <= 1_000_000,
            0 <= k <= 311_000,
    ;
    let raw: i64 = (785_398 * z + p * k) / 1_000_000;
    if raw > 785_398 {
        785_398
    } else {
        raw
    }
}

/// The angle of the vector `(x, y)`, in millionths of a radian.
pub fn angle_of(y: i64, x: i64) -> (a: i64)
    ensures
        a == arctangent2(y as int, x as int),
        -3_141_592 <= a <= 3_141_592,
{
    proof {
        lemma_arctangent2_quadrant(y as int, x as int);
    }
    let ax: i128 = if x < 0 {
        -(x as i128)
    } else {
        x as i128
    };
    let ay: i128 = if y < 0 {
        -(y as i128)
    } else {
        y as i128
    };
    if ax == 0 && ay == 0 {
        return 0;
    }
    let base: i64 = if ay <= ax {
        assert(0 <= (ay as int) * 1_000_000 / (ax as int) <= 1_000_000) by (nonlinear_arith)
            requires
                0 <= ay <= ax,
                ax > 0,
        ;
        first_octant_arctangent((ay * 1_000_000 / ax) as i64)
    } else {
        assert(0 <= (ax as int) * 1_000_000 / (ay as int) <= 1_000_000) by (nonlinear_arith)
            requires
                0 <= ax <= ay,
                ay > 0,
        ;
        1_570_796 - first_octant_arctangent((ax * 1_000_000 / ay) as i64)
    };
    let upper: i64 = if x < 0 {
        3_141_592 - base
    } else {
        base
    };
    if y < 0 {
        -upper
    } else {
        upper
    }
}

} // verus!
