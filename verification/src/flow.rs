//! The arithmetic of one particle step.
//!
//! Lengths, speeds and water volumes are fixed-point numbers with sixteen
//! fractional bits, so `ONE` stands for 1.0. Heights are kept in units of
//! 1/32768 of a raster level, so that a step can move less than one level.

use vstd::prelude::*;
use crate::fixed::{quot, quotient, ONE};

verus! {

/// The highest level of a height raster that the engine holds.
pub const RASTER_MAX: u16 = 32767;

/// Height units per raster level.
pub const HEIGHT_UNIT: u32 = 32768;

/// The greatest height: `RASTER_MAX` levels.
pub const HEIGHT_MAX: u32 = 1073709056;

/// The greatest load of sediment that a particle carries.
pub const SEDIMENT_MAX: i64 = 2147418112;

/// A particle with less water than this has dried up.
pub const MIN_VOLUME: i64 = 655;

/// A particle loses one part in this many of its water at each step.
pub const EVAPORATION: i64 = 32;

/// A particle loses one part in this many of its velocity at each step.
pub const FRICTION: i64 = 16;

/// The slope is divided by this before it is added to the velocity.
pub const GRAVITY: i64 = 16;

/// One part in this many of a capacity deficit is eroded at each step.
pub const EROSION: i64 = 8;

/// One part in this many of a sediment excess is deposited at each step.
pub const DEPOSITION: i64 = 8;

/// The accumulated flow of a cell stops growing here.
pub const FLUX_CAP: u64 = 1099511627776;

/// The accumulated flow at which the discharge reads one half.
pub const FLUX_HALF: u64 = 1048576;

/// The slope across a cell at fraction `t` between two opposite edges, along
/// which the height rises by `d0` and by `d1`.
pub open spec fn tilt(d0: int, d1: int, t: int) -> int {
    quot(d0 * (ONE - t) + d1 * t, ONE as int)
}

/// The value at fraction `t` of the way from `a` to `b`.
pub open spec fn blend(a: int, b: int, t: int) -> int {
    (a * (ONE - t) + b * t) / (ONE as int)
}

/// The bilinear height inside a cell with the given corner heights.
pub open spec fn surface(h00: int, h10: int, h01: int, h11: int, u: int, v: int) -> int {
    blend(blend(h00, h10, u), blend(h01, h11, u), v)
}

/// `v` held to at most one cell per step in either direction.
pub open spec fn clamp_unit(v: int) -> int {
    if v < -ONE {
        -(ONE as int)
    } else if v > ONE {
        ONE as int
    } else {
        v
    }
}

/// The velocity after friction and the pull of the slope `g`.
pub open spec fn next_velocity(v: int, g: int) -> int {
    clamp_unit(v - quot(v, FRICTION as int) - quot(g, GRAVITY as int))
}

/// The magnitude of `v`.
pub open spec fn magnitude(v: int) -> int {
    if v < 0 {
        -v
    } else {
        v
    }
}

/// How much sediment the water can carry: slope times speed times volume.
pub open spec fn capacity(drop: int, speed: int, volume: int) -> int {
    ((drop * speed) / (ONE as int) * volume) / (ONE as int)
}

/// The least of three.
pub open spec fn least(a: int, b: int, c: int) -> int {
    if a <= b && a <= c {
        a
    } else if b <= c {
        b
    } else {
        c
    }
}

/// The height of the cell and the load of the particle after one exchange.
///
/// Under capacity the particle takes up a part of the deficit, never more than
/// the cell holds. Over capacity it lays down a part of the excess, never
/// raising the cell above `HEIGHT_MAX`. `scale` multiplies either amount.
pub open spec fn exchange(h: int, sediment: int, cap: int, scale: int) -> (int, int) {
    if cap > sediment {
        let want = ((cap - sediment) / (EROSION as int)) * scale / (ONE as int);
        let amount = least(want, cap - sediment, h);
        (h - amount, sediment + amount)
    } else {
        let want = ((sediment - cap) / (DEPOSITION as int)) * scale / (ONE as int);
        let amount = least(want, sediment - cap, HEIGHT_MAX - h);
        (h + amount, sediment - amount)
    }
}

/// The water left after one step of evaporation.
pub open spec fn evaporated(volume: int) -> int {
    volume - volume / (EVAPORATION as int)
}

/// The accumulated flow after a particle of the given volume has passed.
pub open spec fn add_flux(flux: int, volume: int) -> int {
    if flux + volume > FLUX_CAP {
        FLUX_CAP as int
    } else {
        flux + volume
    }
}

/// The discharge of a cell, from 0 to below `ONE`, that rises with its
/// accumulated flow and reads one half at `FLUX_HALF`.
pub open spec fn discharge_level(flux: int) -> int {
    flux * ONE / (flux + FLUX_HALF)
}

/// The state of the generator that follows `state`.
pub open spec fn next_random(state: u64) -> u64 {
    ((state * 6364136223846793005 + 1442695040888963407) % 0x1_0000_0000_0000_0000) as u64
}

/// A value between two values within a range is within the range.
pub proof fn lemma_blend_bound(a: int, b: int, t: int, top: int)
    requires
        0 <= a <= top,
        0 <= b <= top,
        0 <= t <= ONE,
    ensures
        0 <= blend(a, b, t) <= top,
        0 <= a * (ONE - t) <= top * ONE,
        0 <= b * t <= top * ONE,
{
    assert(0 <= a * (ONE - t) <= top * (ONE - t)) by (nonlinear_arith)
        requires
            0 <= a <= top,
            0 <= ONE - t,
    ;
    assert(0 <= b * t <= top * t) by (nonlinear_arith)
        requires
            0 <= b <= top,
            0 <= t,
    ;
    assert(top * (ONE - t) + top * t == top * ONE) by (nonlinear_arith);
    assert(top * (ONE - t) <= top * ONE && top * t <= top * ONE) by (nonlinear_arith)
        requires
            0 <= top,
            0 <= t <= ONE,
    ;
    let n = a * (ONE - t) + b * t;
    assert(0 <= n / (ONE as int) <= top) by (nonlinear_arith)
        requires
            0 <= n <= top * ONE,
    ;
}

/// A slope between two rises within a range is within the range.
pub proof fn lemma_tilt_bound(d0: int, d1: int, t: int, top: int)
    requires
        -top <= d0 <= top,
        -top <= d1 <= top,
        0 <= t <= ONE,
    ensures
        -top <= tilt(d0, d1, t) <= top,
        -(top * ONE) <= d0 * (ONE - t) <= top * ONE,
        -(top * ONE) <= d1 * t <= top * ONE,
        -(top * ONE) <= d0 * (ONE - t) + d1 * t <= top * ONE,
{
    assert(-(top * (ONE - t)) <= d0 * (ONE - t) <= top * (ONE - t)) by (nonlinear_arith)
        requires
            -top <= d0 <= top,
            0 <= ONE - t,
    ;
    assert(-(top * t) <= d1 * t <= top * t) by (nonlinear_arith)
        requires
            -top <= d1 <= top,
            0 <= t,
    ;
    assert(top * (ONE - t) + top * t == top * ONE) by (nonlinear_arith);
    assert(0 <= top * (ONE - t) <= top * ONE && 0 <= top * t <= top * ONE) by (nonlinear_arith)
        requires
            0 <= top,
            0 <= t <= ONE,
    ;
    let n = d0 * (ONE - t) + d1 * t;
    if n >= 0 {
        assert(0 <= n / (ONE as int) <= top) by (nonlinear_arith)
            requires
                0 <= n <= top * ONE,
        ;
    } else {
        assert(0 <= (-n) / (ONE as int) <= top) by (nonlinear_arith)
            requires
                0 <= -n <= top * ONE,
        ;
    }
}

/// No capacity is above the greatest load of sediment.
pub proof fn lemma_capacity_bound(drop: int, speed: int, volume: int)
    requires
        0 <= drop <= HEIGHT_MAX,
        0 <= speed <= 2 * ONE,
        0 <= volume <= ONE,
    ensures
        0 <= capacity(drop, speed, volume) <= SEDIMENT_MAX,
        0 <= drop * speed <= 2 * HEIGHT_MAX * ONE,
        0 <= (drop * speed) / (ONE as int) <= 2 * HEIGHT_MAX,
        0 <= (drop * speed) / (ONE as int) * volume <= 2 * HEIGHT_MAX * ONE,
{
    assert(0 <= drop * speed <= 2 * HEIGHT_MAX * ONE) by (nonlinear_arith)
        requires
            0 <= drop <= HEIGHT_MAX,
            0 <= speed <= 2 * ONE,
    ;
    let carried = (drop * speed) / (ONE as int);
    assert(0 <= carried <= 2 * HEIGHT_MAX);
    assert(0 <= carried * volume <= 2 * HEIGHT_MAX * ONE) by (nonlinear_arith)
        requires
            0 <= carried <= 2 * HEIGHT_MAX,
            0 <= volume <= ONE,
    ;
}

/// An exchange leaves the height and the load within their ranges.
pub proof fn lemma_exchange_bound(h: int, sediment: int, cap: int, scale: int)
    requires
        0 <= h <= HEIGHT_MAX,
        0 <= sediment <= SEDIMENT_MAX,
        0 <= cap <= SEDIMENT_MAX,
        0 <= scale <= u32::MAX,
    ensures
        0 <= exchange(h, sediment, cap, scale).0 <= HEIGHT_MAX,
        0 <= exchange(h, sediment, cap, scale).1 <= SEDIMENT_MAX,
        cap > sediment ==> 0 <= ((cap - sediment) / (EROSION as int)) * scale <= SEDIMENT_MAX
            * u32::MAX,
        cap <= sediment ==> 0 <= ((sediment - cap) / (DEPOSITION as int)) * scale <= SEDIMENT_MAX
            * u32::MAX,
{
    if cap > sediment {
        let part = (cap - sediment) / (EROSION as int);
        assert(0 <= part * scale <= SEDIMENT_MAX * u32::MAX) by (nonlinear_arith)
            requires
                0 <= part <= SEDIMENT_MAX,
                0 <= scale <= u32::MAX,
        ;
    } else {
        let part = (sediment - cap) / (DEPOSITION as int);
        assert(0 <= part * scale <= SEDIMENT_MAX * u32::MAX) by (nonlinear_arith)
            requires
                0 <= part <= SEDIMENT_MAX,
                0 <= scale <= u32::MAX,
        ;
    }
}

/// The discharge of a flow within its cap is below `ONE`.
pub proof fn lemma_discharge_bound(flux: int)
    requires
        0 <= flux <= FLUX_CAP,
    ensures
        0 <= discharge_level(flux) < ONE,
        0 <= flux * ONE <= FLUX_CAP * ONE,
{
    assert(0 <= flux * ONE <= FLUX_CAP * ONE) by (nonlinear_arith)
        requires
            0 <= flux <= FLUX_CAP,
    ;
    let d = flux + FLUX_HALF;
    assert(0 <= (flux * ONE) / d < ONE) by (nonlinear_arith)
        requires
            0 <= flux,
            d > flux,
            d > 0,
    ;
}

/// The slope across a cell; see [`tilt`].
pub fn slope(d0: i64, d1: i64, t: i64) -> (g: i64)
    requires
        -HEIGHT_MAX <= d0 <= HEIGHT_MAX,
        -HEIGHT_MAX <= d1 <= HEIGHT_MAX,
        0 <= t <= ONE,
    ensures
        g == tilt(d0 as int, d1 as int, t as int),
        -HEIGHT_MAX <= g <= HEIGHT_MAX,
{
    proof {
        lemma_tilt_bound(d0 as int, d1 as int, t as int, HEIGHT_MAX as int);
    }
    quotient(d0 * (ONE - t) + d1 * t, ONE)
}

/// The value at fraction `t` of the way from `a` to `b`; see [`blend`].
pub fn interpolate(a: i64, b: i64, t: i64) -> (m: i64)
    requires
        0 <= a <= HEIGHT_MAX,
        0 <= b <= HEIGHT_MAX,
        0 <= t <= ONE,
    ensures
        m == blend(a as int, b as int, t as int),
        0 <= m <= HEIGHT_MAX,
{
    proof {
        lemma_blend_bound(a as int, b as int, t as int, HEIGHT_MAX as int);
    }
    (a * (ONE - t) + b * t) / ONE
}

/// The bilinear height inside a cell; see [`surface`].
pub fn surface_height(h00: i64, h10: i64, h01: i64, h11: i64, u: i64, v: i64) -> (m: i64)
    requires
        0 <= h00 <= HEIGHT_MAX,
        0 <= h10 <= HEIGHT_MAX,
        0 <= h01 <= HEIGHT_MAX,
        0 <= h11 <= HEIGHT_MAX,
        0 <= u <= ONE,
        0 <= v <= ONE,
    ensures
        m == surface(h00 as int, h10 as int, h01 as int, h11 as int, u as int, v as int),
        0 <= m <= HEIGHT_MAX,
{
    let low = interpolate(h00, h10, u);
    let high = interpolate(h01, h11, u);
    interpolate(low, high, v)
}

/// The velocity after friction and the pull of the slope; see [`next_velocity`].
pub fn accelerate(v: i64, g: i64) -> (w: i64)
    requires
        -ONE <= v <= ONE,
        -HEIGHT_MAX <= g <= HEIGHT_MAX,
    ensures
        w == next_velocity(v as int, g as int),
        -ONE <= w <= ONE,
{
    let raw = v - quotient(v, FRICTION) - quotient(g, GRAVITY);
    if raw < -ONE {
        -ONE
    } else if raw > ONE {
        ONE
    } else {
        raw
    }
}

/// The magnitude of `v`.
pub fn speed_of(v: i64) -> (m: i64)
    requires
        -ONE <= v <= ONE,
    ensures
        m == magnitude(v as int),
        0 <= m <= ONE,
{
    if v < 0 {
        -v
    } else {
        v
    }
}

/// How much sediment the water can carry; see [`capacity`].
pub fn carrying_capacity(drop: i64, speed: i64, volume: i64) -> (cap: i64)
    requires
        0 <= drop <= HEIGHT_MAX,
        0 <= speed <= 2 * ONE,
        0 <= volume <= ONE,
    ensures
        cap == capacity(drop as int, speed as int, volume as int),
        0 <= cap <= SEDIMENT_MAX,
{
    proof {
        lemma_capacity_bound(drop as int, speed as int, volume as int);
    }
    ((drop * speed) / ONE * volume) / ONE
}

/// The height of the cell and the load of the particle after one exchange;
/// see [`exchange`].
pub fn exchange_sediment(h: i64, sediment: i64, cap: i64, scale: u32) -> (after: (i64, i64))
    requires
        0 <= h <= HEIGHT_MAX,
        0 <= sediment <= SEDIMENT_MAX,
        0 <= cap <= SEDIMENT_MAX,
    ensures
        (after.0 as int, after.1 as int) == exchange(h as int, sediment as int, cap as int, scale as int),
        0 <= after.0 <= HEIGHT_MAX,
        0 <= after.1 <= SEDIMENT_MAX,
{
    proof {
        lemma_exchange_bound(h as int, sediment as int, cap as int, scale as int);
    }
    if cap > sediment {
        let deficit = cap - sediment;
        let want = ((deficit / EROSION) * (scale as i64)) / ONE;
        let mut amount = want;
        if deficit < amount {
            amount = deficit;
        }
        if h < amount {
            amount = h;
        }
        (h - amount, sediment + amount)
    } else {
        let excess = sediment - cap;
        let room = (HEIGHT_MAX as i64) - h;
        let want = ((excess / DEPOSITION) * (scale as i64)) / ONE;
        let mut amount = want;
        if excess < amount {
            amount = excess;
        }
        if room < amount {
            amount = room;
        }
        (h + amount, sediment - amount)
    }
}

/// The accumulated flow after a particle has passed; see [`add_flux`].
pub fn accumulate_flux(flux: u64, volume: i64) -> (total: u64)
    requires
        flux <= FLUX_CAP,
        0 <= volume <= ONE,
    ensures
        total == add_flux(flux as int, volume as int),
        total <= FLUX_CAP,
{
    let sum = flux + (volume as u64);
    if sum > FLUX_CAP {
        FLUX_CAP
    } else {
        sum
    }
}

/// The discharge of a cell with the given accumulated flow; see
/// [`discharge_level`].
pub fn discharge_of(flux: u64) -> (level: u32)
    requires
        flux <= FLUX_CAP,
    ensures
        level == discharge_level(flux as int),
        level < ONE,
{
    proof {
        lemma_discharge_bound(flux as int);
    }
    ((flux * (ONE as u64)) / (flux + FLUX_HALF)) as u32
}

/// Steps the generator; see [`next_random`].
pub fn advance_random(state: u64) -> (next: u64)
    ensures
        next == next_random(state),
{
    let wide: u128 = (state as u128) * 6364136223846793005u128 + 1442695040888963407u128;
    (wide % 0x1_0000_0000_0000_0000u128) as u64
}

} // verus!
