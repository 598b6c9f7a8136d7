//! Asymmetric rate limiting ("drag") between the previously commanded
//! duty and the freshly curved target, followed by a clamp into the
//! operating band. The drag reduces a large change by a fixed amount
//! rather than capping it to a fixed step, and swallows small changes
//! entirely, so the fan neither chatters nor jumps.

use vstd::prelude::*;
use crate::curve::CURVE_END_LEVEL;
use crate::curve::CURVE_START_LEVEL;

verus! {

/// By how much a per-tick increase is reduced.
pub const UP_DRAG: i16 = 4;

/// By how much a per-tick decrease is reduced; cooling is allowed to
/// lag more than heating.
pub const DOWN_DRAG: i16 = 8;

/// Clamp a candidate duty into the operating band.
pub open spec fn clamp_band(v: int) -> int {
    if v < CURVE_START_LEVEL {
        CURVE_START_LEVEL as int
    } else if v > CURVE_END_LEVEL {
        CURVE_END_LEVEL as int
    } else {
        v
    }
}

/// The dragged duty before clamping: increases beyond UP_DRAG are
/// reduced by exactly UP_DRAG, decreases beyond DOWN_DRAG by exactly
/// DOWN_DRAG, and changes within the band are ignored.
pub open spec fn drag_spec(previous: u8, target: u8) -> int {
    let diff = target - previous;
    if diff > UP_DRAG {
        previous + diff - UP_DRAG
    } else if diff < -DOWN_DRAG {
        previous + diff + DOWN_DRAG
    } else {
        previous as int
    }
}

/// The duty actually commanded this tick: the curved target, dragged
/// against the previous commanded duty when there is one, then
/// clamped into the operating band.
pub open spec fn smooth_spec(previous: Option<u8>, target: u8) -> int {
    match previous {
        Option::Some(p) => clamp_band(drag_spec(p, target)),
        Option::None => clamp_band(target as int),
    }
}

/// Compute the duty to command from the curved target and the most
/// recent commanded duty, if any. The result always lies within the
/// operating band.
pub fn smooth(previous: Option<u8>, target: u8) -> (duty: u8)
    ensures
        duty == smooth_spec(previous, target),
        CURVE_START_LEVEL <= duty <= CURVE_END_LEVEL,
{
    let rate: u8 = match previous {
        Option::Some(last_rate) => {
            let diff: i16 = target as i16 - last_rate as i16;
            if diff > UP_DRAG {
                (last_rate as i16 + diff - UP_DRAG) as u8
            } else if diff < -DOWN_DRAG {
                (last_rate as i16 + diff + DOWN_DRAG) as u8
            } else {
                last_rate
            }
        },
        Option::None => target,
    };
    if rate < CURVE_START_LEVEL {
        CURVE_START_LEVEL
    } else if rate > CURVE_END_LEVEL {
        CURVE_END_LEVEL
    } else {
        rate
    }
}

/// As long as the target stays within twice the drag of the previous
/// duty, one tick moves the commanded duty by at most UP_DRAG upward
/// and at most DOWN_DRAG downward. (The limiter is leaky, so a target
/// further away can move the duty by more than one drag in a single
/// tick: from a previous duty of 20, a target of 100 is answered with
/// 96 at once.)
pub proof fn lemma_smoother_step_bound(previous: u8, target: u8)
    requires
        CURVE_START_LEVEL <= previous <= CURVE_END_LEVEL,
        previous - 2 * DOWN_DRAG <= target <= previous + 2 * UP_DRAG,
    ensures
        previous - DOWN_DRAG <= smooth_spec(Option::Some(previous), target) <= previous
            + UP_DRAG,
{
}

} // verus!
