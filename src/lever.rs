//! Lever arithmetic: the integer linear map, rounding and 16-bit narrowing.
use vstd::prelude::*;

verus! {

use vstd::arithmetic::div_mod::{lemma_div_is_ordered, lemma_div_multiples_vanish};

/// Lower end of the lever output range.
pub const LEVER_OUT_MIN: i32 = -32768;

/// Upper end of the lever output range.
pub const LEVER_OUT_MAX: i32 = 32768;

/// Quotient of `a` by `b` rounded toward zero, as integer division in Rust.
pub open spec fn div_toward_zero(a: int, b: int) -> int {
    let q = vstd::math::abs(a) as int / vstd::math::abs(b) as int;
    if (a >= 0) == (b > 0) {
        q
    } else {
        -q
    }
}

/// Linear map of `x` from `[in_min, in_max]` onto `[out_min, out_max]`,
/// truncated toward zero; `out_min` when the input interval is a single point.
pub open spec fn map_value(x: int, in_min: int, in_max: int, out_min: int, out_max: int) -> int {
    if in_max == in_min {
        out_min
    } else {
        div_toward_zero((x - in_min) * (out_max - out_min), in_max - in_min) + out_min
    }
}

/// Two's complement narrowing of an integer to 16 bits.
pub open spec fn wrap_i16(v: int) -> i16 {
    ((v + 32768) % 65536 - 32768) as i16
}

/// The lever output for `sample` within the calibrated interval: it lies in
/// `[-32768, 32768]` and does not decrease as the sample grows.
pub proof fn lemma_lever_map_bounded_monotone(s1: int, s2: int, in_min: int, in_max: int)
    requires
        in_min < in_max,
        in_min <= s1 <= s2 <= in_max,
    ensures
        LEVER_OUT_MIN <= map_value(s1, in_min, in_max, LEVER_OUT_MIN as int, LEVER_OUT_MAX as int),
        map_value(s1, in_min, in_max, LEVER_OUT_MIN as int, LEVER_OUT_MAX as int)
            <= map_value(s2, in_min, in_max, LEVER_OUT_MIN as int, LEVER_OUT_MAX as int),
        map_value(s2, in_min, in_max, LEVER_OUT_MIN as int, LEVER_OUT_MAX as int) <= LEVER_OUT_MAX,
{
    let span = in_max - in_min;
    let n1 = (s1 - in_min) * 65536;
    let n2 = (s2 - in_min) * 65536;
    let top = span * 65536;
    assert(div_toward_zero(n1, span) == n1 / span);
    assert(div_toward_zero(n2, span) == n2 / span);
    lemma_div_is_ordered(0, n1, span);
    lemma_div_is_ordered(n1, n2, span);
    lemma_div_is_ordered(n2, top, span);
    lemma_div_multiples_vanish(65536, span);
    assert(top == span * 65536);
    assert(0int / span == 0);
}

/// Narrow a value to 16 bits, two's complement.
pub fn narrow_i16(v: i64) -> (r: i16)
    requires
        -98304 <= v < 98304,
    ensures
        r == wrap_i16(v as int),
{
    if v > 32767 {
        (v - 65536) as i16
    } else if v < -32768 {
        (v + 65536) as i16
    } else {
        v as i16
    }
}

} // verus!
