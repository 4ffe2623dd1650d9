//! The rescaling transform: a timestamp authored against one frame rate,
//! moved to another.

use crate::framerate_detector::{candidate_rates, is_candidate_rate};
use vstd::prelude::*;

verus! {

/// `x / d` rounded to the nearest whole number, a half away from zero.
pub open spec fn round_div(x: int, d: int) -> int {
    if x >= 0 {
        (2 * x + d) / (2 * d)
    } else {
        -((2 * (-x) + d) / (2 * d))
    }
}

/// The millisecond `ms` of a track at `from_fps`, on the clock of the same
/// frames at `to_fps`: `ms * from_fps / to_fps`, rounded.
pub open spec fn rescaled(ms: int, from_fps: int, to_fps: int) -> int {
    round_div(ms * from_fps, to_fps)
}

/// `v`, or the end of the 32-bit range that it lies beyond.
pub open spec fn clamp_i32(v: int) -> int {
    if v > i32::MAX {
        i32::MAX as int
    } else if v < i32::MIN {
        i32::MIN as int
    } else {
        v
    }
}

/// Moves the millisecond `ms` from a clock at `from_fps` to one at `to_fps`,
/// both in thousandths of a frame per second. A result beyond the 32-bit
/// range is the end of that range. With equal frame rates the result is `ms`.
pub fn rescale_ms(ms: i32, from_fps: u32, to_fps: u32) -> (r: i32)
    requires
        from_fps > 0,
        to_fps > 0,
    ensures
        r == clamp_i32(rescaled(ms as int, from_fps as int, to_fps as int)),
        from_fps == to_fps ==> r == ms,
{
    let size: u128 = if ms >= 0 {
        ms as u128
    } else {
        (-(ms as i64)) as u128
    };
    proof {
        assert(size * from_fps <= 0x8000_0000 * 0xFFFF_FFFF) by (nonlinear_arith)
            requires
                0 <= size <= 0x8000_0000,
                0 <= from_fps <= 0xFFFF_FFFF,
        ;
        if ms >= 0 {
            assert(ms * from_fps == size * from_fps);
            assert(ms * from_fps >= 0) by (nonlinear_arith)
                requires
                    ms >= 0,
                    from_fps > 0,
            ;
        } else {
            assert(ms * from_fps == -(size * from_fps)) by (nonlinear_arith)
                requires
                    ms == -size,
            ;
            assert(ms * from_fps < 0) by (nonlinear_arith)
                requires
                    ms < 0,
                    from_fps > 0,
            ;
        }
        rescaling_at_one_rate_is_identity(ms as int, from_fps as int);
    }
    let scaled: u128 = size * (from_fps as u128);
    let q: u128 = (2 * scaled + (to_fps as u128)) / (2 * (to_fps as u128));
    if ms >= 0 {
        if q > 0x7FFF_FFFF {
            i32::MAX
        } else {
            q as i32
        }
    } else {
        if q > 0x8000_0000 {
            i32::MIN
        } else {
            (-(q as i64)) as i32
        }
    }
}

/// Rescaling from a frame rate to the same frame rate changes nothing.
pub proof fn rescaling_at_one_rate_is_identity(ms: int, fps: int)
    requires
        fps > 0,
    ensures
        rescaled(ms, fps, fps) == ms,
{
    let x = ms * fps;
    if ms >= 0 {
        assert(x >= 0) by (nonlinear_arith)
            requires
                x == ms * fps,
                ms >= 0,
                fps > 0,
        ;
        assert(2 * x + fps == ms * (2 * fps) + fps) by (nonlinear_arith)
            requires
                x == ms * fps,
        ;
        vstd::arithmetic::div_mod::lemma_fundamental_div_mod_converse(
            2 * x + fps,
            2 * fps,
            ms,
            fps,
        );
    } else {
        assert(x < 0) by (nonlinear_arith)
            requires
                x == ms * fps,
                ms < 0,
                fps > 0,
        ;
        assert(2 * (-x) + fps == (-ms) * (2 * fps) + fps) by (nonlinear_arith)
            requires
                x == ms * fps,
        ;
        vstd::arithmetic::div_mod::lemma_fundamental_div_mod_converse(
            2 * (-x) + fps,
            2 * fps,
            -ms,
            fps,
        );
    }
}

/// A rounded quotient lies at most a half from the exact one: twice the
/// divisor times it lies at most the divisor from twice the dividend.
pub proof fn round_div_is_nearest(x: int, d: int)
    requires
        d > 0,
    ensures
        2 * x - d <= 2 * d * round_div(x, d) <= 2 * x + d,
{
    if x >= 0 {
        vstd::arithmetic::div_mod::lemma_fundamental_div_mod(2 * x + d, 2 * d);
        vstd::arithmetic::div_mod::lemma_mod_bound(2 * x + d, 2 * d);
    } else {
        let q = (2 * (-x) + d) / (2 * d);
        vstd::arithmetic::div_mod::lemma_fundamental_div_mod(2 * (-x) + d, 2 * d);
        vstd::arithmetic::div_mod::lemma_mod_bound(2 * (-x) + d, 2 * d);
        assert(2 * d * (-q) == -(2 * d * q)) by (nonlinear_arith);
    }
}

/// Rescaling to a frame rate less than three times the first and back moves
/// a timestamp by at most one millisecond.
pub proof fn round_trip_within_one_ms(ms: int, a: int, b: int)
    requires
        a > 0,
        0 < b < 3 * a,
    ensures
        ms - 1 <= rescaled(rescaled(ms, a, b), b, a) <= ms + 1,
{
    let there = rescaled(ms, a, b);
    let back = rescaled(there, b, a);
    round_div_is_nearest(ms * a, b);
    round_div_is_nearest(there * b, a);
    let u = 2 * b * there;
    let v = 2 * a * back;
    assert(2 * (there * b) == u) by (nonlinear_arith)
        requires
            u == 2 * b * there,
    ;
    assert(2 * (ms * a) == 2 * a * ms) by (nonlinear_arith);
    // |u - 2 a ms| <= b and |v - u| <= a, so |v - 2 a ms| <= a + b < 4 a
    assert(2 * a * back - 2 * a * ms < 4 * a);
    assert(2 * a * ms - 2 * a * back < 4 * a);
    assert(back - ms < 2) by (nonlinear_arith)
        requires
            2 * a * back - 2 * a * ms < 4 * a,
            a > 0,
    ;
    assert(ms - back < 2) by (nonlinear_arith)
        requires
            2 * a * ms - 2 * a * back < 4 * a,
            a > 0,
    ;
}

/// Rescaling from one candidate frame rate to another and back moves a
/// timestamp by at most one millisecond.
pub proof fn candidate_round_trip_within_one_ms(ms: int, a: u32, b: u32)
    requires
        is_candidate_rate(a),
        is_candidate_rate(b),
    ensures
        ms - 1 <= rescaled(rescaled(ms, a as int, b as int), b as int, a as int) <= ms + 1,
{
    candidate_bounds(a);
    candidate_bounds(b);
    round_trip_within_one_ms(ms, a as int, b as int);
}

/// A candidate frame rate lies between 23.976 and 60 frames per second.
pub proof fn candidate_bounds(rate: u32)
    requires
        is_candidate_rate(rate),
    ensures
        23_976 <= rate <= 60_000,
{
    let i = choose|i: int| 0 <= i < candidate_rates().len() && candidate_rates()[i] == rate;
    assert(candidate_rates()[0] == 23_976);
    assert(candidate_rates()[1] == 24_000);
    assert(candidate_rates()[2] == 25_000);
    assert(candidate_rates()[3] == 29_970);
    assert(candidate_rates()[4] == 30_000);
    assert(candidate_rates()[5] == 50_000);
    assert(candidate_rates()[6] == 59_940);
    assert(candidate_rates()[7] == 60_000);
}

/// Each timestamp is rounded by itself, so the rescaled gap between two
/// timestamps lies at most one millisecond from the exact one: `to_fps`
/// times the new gap lies at most `to_fps` from `from_fps` times the old.
pub proof fn rescaled_gap_drifts_at_most_one_ms(a: int, b: int, from_fps: int, to_fps: int)
    requires
        from_fps > 0,
        to_fps > 0,
    ensures
        ({
            let new_gap = rescaled(b, from_fps, to_fps) - rescaled(a, from_fps, to_fps);
            let old_gap = b - a;
            -to_fps <= to_fps * new_gap - from_fps * old_gap <= to_fps
        }),
{
    round_div_is_nearest(a * from_fps, to_fps);
    round_div_is_nearest(b * from_fps, to_fps);
    let ra = rescaled(a, from_fps, to_fps);
    let rb = rescaled(b, from_fps, to_fps);
    assert(to_fps * (rb - ra) == to_fps * rb - to_fps * ra) by (nonlinear_arith);
    assert(from_fps * (b - a) == b * from_fps - a * from_fps) by (nonlinear_arith);
    assert(2 * to_fps * ra == 2 * (to_fps * ra)) by (nonlinear_arith);
    assert(2 * to_fps * rb == 2 * (to_fps * rb)) by (nonlinear_arith);
}

/// Rescaling keeps the order of timestamps.
pub proof fn rescaling_keeps_order(earlier: int, later: int, from_fps: int, to_fps: int)
    requires
        earlier <= later,
        from_fps > 0,
        to_fps > 0,
    ensures
        rescaled(earlier, from_fps, to_fps) <= rescaled(later, from_fps, to_fps),
{
    let x = earlier * from_fps;
    let y = later * from_fps;
    assert(x <= y) by (nonlinear_arith)
        requires
            x == earlier * from_fps,
            y == later * from_fps,
            earlier <= later,
            from_fps > 0,
    ;
    let d = to_fps;
    if x >= 0 {
        vstd::arithmetic::div_mod::lemma_div_is_ordered(2 * x + d, 2 * y + d, 2 * d);
    } else if y >= 0 {
        vstd::arithmetic::div_mod::lemma_div_pos_is_pos(2 * (-x) + d, 2 * d);
        vstd::arithmetic::div_mod::lemma_div_pos_is_pos(2 * y + d, 2 * d);
    } else {
        vstd::arithmetic::div_mod::lemma_div_is_ordered(2 * (-y) + d, 2 * (-x) + d, 2 * d);
    }
}

} // verus!
