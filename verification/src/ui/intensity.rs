//! Intensities: how strong a signal is between nothing and full scale.

use vstd::prelude::*;

verus! {

/// Full intensity. An intensity is counted in parts of it.
pub const FULL: i64 = 16777216;

/// An intensity, held between none and full.
pub open spec fn held(t: int) -> int {
    if t < 0 {
        0
    } else if t > FULL {
        FULL as int
    } else {
        t
    }
}

/// How many of `count` steps an intensity takes, to the nearest step.
pub open spec fn steps_of(t: int, count: int) -> int {
    (2 * (held(t) * count) + FULL) / (2 * FULL)
}

/// An intensity, held between none and full.
pub fn hold(t: i64) -> (r: u64)
    ensures
        r == held(t as int),
        r <= FULL,
{
    if t < 0 {
        0
    } else if t > FULL {
        FULL as u64
    } else {
        t as u64
    }
}

/// How many of `count` steps an intensity takes, to the nearest step.
pub fn steps(t: i64, count: u32) -> (r: u32)
    ensures
        r == steps_of(t as int, count as int),
        r <= count,
{
    let t: u64 = hold(t);
    proof {
        assert(0 <= t * count <= 16777216 * count) by (nonlinear_arith)
            requires
                0 <= t <= 16777216,
                0 <= count,
        ;
    }
    let n: u64 = 2 * (t * (count as u64)) + 16777216;
    let whole: u64 = n / 33554432;
    assert(whole <= count);
    assert(FULL == 16777216);
    whole as u32
}

/// No intensity takes no step, full intensity takes all of them, and a
/// stronger one never takes fewer.
pub proof fn steps_follow_the_intensity(weak: int, strong: int, count: int)
    requires
        weak <= strong,
        0 <= count,
    ensures
        steps_of(0, count) == 0,
        steps_of(FULL as int, count) == count,
        0 <= steps_of(weak, count) <= steps_of(strong, count) <= count,
{
    assert(FULL == 16777216);
    let w = held(weak) * count;
    let s = held(strong) * count;
    assert(0 * count == 0) by (nonlinear_arith);
    assert(0 <= w <= s <= 16777216 * count) by (nonlinear_arith)
        requires
            w == held(weak) * count,
            s == held(strong) * count,
            0 <= held(weak) <= held(strong) <= 16777216,
            0 <= count,
    ;
    assert(16777216int / 33554432 == 0);
}

/// The steps an intensity takes are the nearest to it: off by no more than half
/// a step, where it lies between none and full.
pub proof fn steps_are_the_nearest(t: int, count: int)
    requires
        0 <= t <= FULL,
        0 <= count,
    ensures
        -FULL <= 2 * (steps_of(t, count) * FULL - t * count) <= FULL,
{
    assert(FULL == 16777216);
    let n = t * count;
    let q = (2 * n + 16777216) / 33554432;
    assert(-16777216 <= 2 * (q * 16777216 - n) <= 16777216);
}

} // verus!
