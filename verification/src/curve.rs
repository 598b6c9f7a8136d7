//! The temperature-to-duty fan curve: linear interpolation between two
//! calibration points, evaluated with truncating integer division and
//! saturated to the range of a `u8` duty value.

use vstd::prelude::*;
use vstd::arithmetic::div_mod::lemma_div_by_multiple;
use vstd::arithmetic::div_mod::lemma_div_is_ordered;
use vstd::arithmetic::mul::lemma_mul_inequality;
use vstd::arithmetic::mul::lemma_mul_is_commutative;

verus! {

/// Highest duty the controller ever holds in steady state.
pub const MAX_RATE: u8 = 100;

/// Duty commanded at the curve's start temperature; also the floor of
/// the operating band.
pub const CURVE_START_LEVEL: u8 = 15;

/// Duty commanded at the curve's end temperature; also the ceiling of
/// the operating band.
pub const CURVE_END_LEVEL: u8 = MAX_RATE;

/// Temperature (milli-degrees Celsius) where the curve starts.
pub const CURVE_START_TEMP: i32 = 35 * 1000;

/// Temperature (milli-degrees Celsius) where the curve ends.
pub const CURVE_END_TEMP: i32 = 65 * 1000;

/// Division that truncates toward zero (as Rust's `/` does), defined
/// for positive divisors.
pub open spec fn tdiv(a: int, b: int) -> int
    recommends
        b > 0,
{
    if a >= 0 {
        a / b
    } else {
        -((-a) / b)
    }
}

/// The curve before saturation: linear interpolation through the two
/// calibration points, extrapolated outside them.
pub open spec fn curve_unclamped(temp: int) -> int {
    CURVE_START_LEVEL + tdiv(
        (CURVE_END_LEVEL - CURVE_START_LEVEL) * (temp - CURVE_START_TEMP),
        CURVE_END_TEMP - CURVE_START_TEMP,
    )
}

/// The curve as commanded: the interpolated value saturated into
/// [0, 255].
pub open spec fn curve_spec(temp: int) -> int {
    let u = curve_unclamped(temp);
    if u < 0 {
        0
    } else if u > 255 {
        255
    } else {
        u
    }
}

/// Map a temperature sample to an uncapped target duty. Total: every
/// `i32` input yields the interpolated value, saturated to [0, 255]
/// rather than wrapping. Clamping to the operating band is the
/// smoother's job, not the curve's.
pub fn fan_curve(temp: i32) -> (duty: u8)
    ensures
        duty == curve_spec(temp as int),
{
    if temp >= CURVE_START_TEMP {
        let delta: u64 = (temp - CURVE_START_TEMP) as u64;
        let q: u64 = (CURVE_END_LEVEL - CURVE_START_LEVEL) as u64 * delta / 30000;
        assert(q == tdiv(
            (CURVE_END_LEVEL - CURVE_START_LEVEL) * (temp - CURVE_START_TEMP),
            CURVE_END_TEMP - CURVE_START_TEMP,
        ));
        let v: u64 = CURVE_START_LEVEL as u64 + q;
        if v > 255 {
            255
        } else {
            v as u8
        }
    } else {
        let below: i64 = CURVE_START_TEMP as i64 - temp as i64;
        assert(0 < below <= CURVE_START_TEMP - i32::MIN);
        let delta: u64 = below as u64;
        assert(delta == below);
        let num: u64 = (CURVE_END_LEVEL - CURVE_START_LEVEL) as u64 * delta;
        assert(num == (CURVE_END_LEVEL - CURVE_START_LEVEL) * below);
        let q: u64 = num / 30000;
        assert((CURVE_END_LEVEL - CURVE_START_LEVEL) * (temp - CURVE_START_TEMP) == -(num as int));
        assert(-(q as int) == tdiv(
            (CURVE_END_LEVEL - CURVE_START_LEVEL) * (temp - CURVE_START_TEMP),
            CURVE_END_TEMP - CURVE_START_TEMP,
        ));
        if q >= CURVE_START_LEVEL as u64 {
            0
        } else {
            (CURVE_START_LEVEL as u64 - q) as u8
        }
    }
}

/// The curve passes through its two calibration points: the start
/// temperature maps to the floor duty and the end temperature to the
/// ceiling duty.
pub proof fn lemma_curve_endpoints()
    ensures
        curve_spec(CURVE_START_TEMP as int) == CURVE_START_LEVEL,
        curve_spec(CURVE_END_TEMP as int) == CURVE_END_LEVEL,
{
    assert((CURVE_END_LEVEL - CURVE_START_LEVEL) * (CURVE_START_TEMP - CURVE_START_TEMP) == 0);
    lemma_div_by_multiple(0, CURVE_END_TEMP - CURVE_START_TEMP);
    assert((CURVE_END_LEVEL - CURVE_START_LEVEL) * (CURVE_END_TEMP - CURVE_START_TEMP) == 85
        * 30000);
    lemma_div_by_multiple(85, CURVE_END_TEMP - CURVE_START_TEMP);
}

/// Between the calibration points the curve is monotone
/// non-decreasing: a warmer chassis is never answered with a slower
/// fan.
pub proof fn lemma_curve_monotonic(a: int, b: int)
    requires
        CURVE_START_TEMP <= a <= b <= CURVE_END_TEMP,
    ensures
        curve_spec(a) <= curve_spec(b),
{
    let span: int = CURVE_END_LEVEL - CURVE_START_LEVEL;
    let na = span * (a - CURVE_START_TEMP);
    let nb = span * (b - CURVE_START_TEMP);
    lemma_mul_inequality(0, a - CURVE_START_TEMP, span);
    lemma_mul_inequality(a - CURVE_START_TEMP, b - CURVE_START_TEMP, span);
    lemma_mul_is_commutative(span, a - CURVE_START_TEMP);
    lemma_mul_is_commutative(span, b - CURVE_START_TEMP);
    assert(0 <= na <= nb);
    lemma_div_is_ordered(na, nb, CURVE_END_TEMP - CURVE_START_TEMP);
}

/// However extreme the temperature, the curve saturates into [0, 255]
/// instead of wrapping.
pub proof fn lemma_curve_bounded(temp: int)
    ensures
        0 <= curve_spec(temp) <= 255,
{
}

} // verus!
