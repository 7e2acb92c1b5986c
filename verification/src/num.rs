//! Integer arithmetic as the machine does it.

use vstd::prelude::*;

verus! {

/// Division that rounds towards zero.
pub open spec fn tdiv(a: int, b: int) -> int {
    if a >= 0 {
        a / b
    } else {
        -((-a) / b)
    }
}

/// The distance from zero.
pub open spec fn mag(a: int) -> int {
    if a < 0 {
        -a
    } else {
        a
    }
}

/// The value within the bounds that is closest to `a`.
pub open spec fn clamped(a: int, lo: int, hi: int) -> int {
    if a < lo {
        lo
    } else if a > hi {
        hi
    } else {
        a
    }
}

pub open spec fn at_most(a: int, b: int) -> int {
    if a < b {
        a
    } else {
        b
    }
}

pub open spec fn at_least(a: int, b: int) -> int {
    if a > b {
        a
    } else {
        b
    }
}

pub fn mag_i32(a: i32) -> (r: i32)
    requires
        a > i32::MIN,
    ensures
        r == mag(a as int),
{
    if a < 0 {
        -a
    } else {
        a
    }
}

pub fn clamp_i32(a: i32, lo: i32, hi: i32) -> (r: i32)
    ensures
        r == clamped(a as int, lo as int, hi as int),
{
    if a < lo {
        lo
    } else if a > hi {
        hi
    } else {
        a
    }
}

pub fn min_i32(a: i32, b: i32) -> (r: i32)
    ensures
        r == at_most(a as int, b as int),
{
    if a < b {
        a
    } else {
        b
    }
}

/// The weight to which history values are drawn.
pub const HISTORY_MAX: i32 = 16384;

/// A history value after a bonus: the larger the value, the less a bonus of the
/// same sign adds.
pub open spec fn gravity(e: int, b: int) -> int {
    e + b - tdiv(e * mag(b), 16384)
}

/// History values stay within their bounds.
pub proof fn gravity_bounded(e: int, b: int)
    requires
        -16384 <= e <= 16384,
        -16384 <= b <= 16384,
    ensures
        -16384 <= gravity(e, b) <= 16384,
        -268435456 <= e * mag(b) <= 268435456,
{
    let m = mag(b);
    assert(-268435456 <= e * m <= 268435456) by (nonlinear_arith)
        requires
            -16384 <= e <= 16384,
            0 <= m <= 16384,
    ;
    if e >= 0 {
        assert(e * m >= 0) by (nonlinear_arith)
            requires
                e >= 0,
                m >= 0,
        ;
        assert((16384 - e) * (16384 - m) >= 0) by (nonlinear_arith)
            requires
                e <= 16384,
                m <= 16384,
        ;
        assert((16384 - e) * (16384 - m) == 268435456 - 16384 * e - 16384 * m + e * m)
            by (nonlinear_arith);
        assert(e * m <= 16384 * e) by (nonlinear_arith)
            requires
                e >= 0,
                m <= 16384,
        ;
    } else {
        let n = -e;
        assert(n * m >= 0) by (nonlinear_arith)
            requires
                n >= 0,
                m >= 0,
        ;
        assert(e * m == -(n * m)) by (nonlinear_arith)
            requires
                n == -e,
        ;
        assert((16384 - n) * (16384 - m) >= 0) by (nonlinear_arith)
            requires
                n <= 16384,
                m <= 16384,
        ;
        assert((16384 - n) * (16384 - m) == 268435456 - 16384 * n - 16384 * m + n * m)
            by (nonlinear_arith);
        assert(n * m <= 16384 * n) by (nonlinear_arith)
            requires
                n >= 0,
                m <= 16384,
        ;
    }
}

/// Applies a bonus to a history value.
pub fn apply_gravity(e: i32, b: i32) -> (r: i32)
    requires
        -16384 <= e <= 16384,
        -16384 <= b <= 16384,
    ensures
        r == gravity(e as int, b as int),
        -16384 <= r <= 16384,
{
    proof {
        gravity_bounded(e as int, b as int);
    }
    let m: i32 = mag_i32(b);
    let p: i32 = e * m;
    e + (b - p / HISTORY_MAX)
}

/// The bonus of a depth: its square, up to the largest history value, and
/// negative for a bad move.
pub open spec fn depth_bonus(depth: int, good: bool) -> int {
    if good {
        at_most(depth * depth, 16384)
    } else {
        -at_most(depth * depth, 16384)
    }
}

pub fn bonus_of(depth: i32, good: bool) -> (b: i32)
    requires
        -46_340 <= depth <= 46_340,
    ensures
        b == depth_bonus(depth as int, good),
        -16384 <= b <= 16384,
{
    assert(0 <= depth * depth <= 2_147_395_600) by (nonlinear_arith)
        requires
            -46_340 <= depth <= 46_340,
    ;
    let b: i32 = min_i32(depth * depth, HISTORY_MAX);
    if good {
        b
    } else {
        -b
    }
}

} // verus!
