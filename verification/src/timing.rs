//! Sample durations: capture-clock differences scaled to milliseconds.

use vstd::prelude::*;

verus! {

/// Capture-clock units in one unit of the container's timescale.
pub const CAPTURE_UNITS_PER_MS: u64 = 1_000_000;

/// The whole number nearest to `delta / CAPTURE_UNITS_PER_MS`; a tie goes up.
pub open spec fn rounded_ms(delta: int) -> int {
    (delta + 500_000) / 1_000_000
}

/// The duration, in milliseconds, of the step from timestamp `last` to
/// timestamp `current`: the rounded scaled difference, 0 where the clock did
/// not advance, and `u32::MAX` where the rounded value does not fit.
pub open spec fn duration_between(last: u64, current: u64) -> u32 {
    if current <= last {
        0u32
    } else if rounded_ms(current - last) > u32::MAX {
        u32::MAX
    } else {
        rounded_ms(current - last) as u32
    }
}

/// Computes the duration of the step from `last` to `current`.
pub fn sample_duration(last: u64, current: u64) -> (d: u32)
    ensures
        d == duration_between(last, current),
{
    if current <= last {
        return 0;
    }
    let delta: u64 = current - last;
    let whole: u64 = delta / CAPTURE_UNITS_PER_MS;
    let rest: u64 = delta % CAPTURE_UNITS_PER_MS;
    let rounded: u64 = if rest >= 500_000 { whole + 1 } else { whole };
    assert(rounded == rounded_ms(delta as int)) by (nonlinear_arith)
        requires
            whole == delta / 1_000_000,
            rest == delta % 1_000_000,
            rounded == if rest >= 500_000 { whole + 1 } else { whole as int },
    ;
    if rounded > 0xffff_ffff {
        u32::MAX
    } else {
        rounded as u32
    }
}

/// A duration that did not saturate is the whole number of milliseconds
/// nearest to the step of the capture clock: it differs from the step by half a
/// millisecond at most, and a step that ends halfway between two milliseconds
/// takes the later one.
pub proof fn lemma_duration_is_nearest(last: u64, current: u64)
    requires
        last <= current,
        rounded_ms(current - last) <= u32::MAX,
    ensures
        duration_between(last, current) * 1_000_000 - 500_000 <= current - last,
        current - last < duration_between(last, current) * 1_000_000 + 500_000,
{
    let delta = current - last;
    assert(rounded_ms(delta) * 1_000_000 <= delta + 500_000 < rounded_ms(delta) * 1_000_000
        + 1_000_000) by (nonlinear_arith)
        requires
            delta >= 0,
    ;
}

} // verus!
