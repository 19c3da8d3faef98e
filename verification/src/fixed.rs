//! Fixed-point numbers with sixteen fractional bits.
//!
//! A real quantity `x` is carried as the integer `x * 65536`, rounded down.
//! Settings and altitudes are held in `i32`, intermediate results in `i64`.

use vstd::prelude::*;

verus! {

/// 1.0 in fixed point.
pub const ONE: i64 = 65536;

/// Division that rounds toward zero.
pub open spec fn quot(n: int, d: int) -> int {
    if n >= 0 {
        n / d
    } else {
        -((-n) / d)
    }
}

/// `v` held between `low` and `high`.
pub open spec fn held_between(v: int, low: int, high: int) -> int {
    if v < low {
        low
    } else if v > high {
        high
    } else {
        v
    }
}

/// Division that rounds toward zero.
pub fn quotient(n: i64, d: i64) -> (q: i64)
    requires
        d > 0,
        n > i64::MIN,
    ensures
        q == quot(n as int, d as int),
{
    if n >= 0 {
        n / d
    } else {
        -((-n) / d)
    }
}

/// The fixed-point number that stands for the whole number `n`.
pub fn from_whole(n: i16) -> (x: i32)
    ensures
        x == n * ONE,
{
    (n as i32) * 65536
}

/// The whole part of `x`, rounded toward zero.
pub fn whole_part(x: i32) -> (n: i32)
    ensures
        n == quot(x as int, ONE as int),
{
    quotient(x as i64, ONE) as i32
}

} // verus!
