//! The mean height of a height map.

use vstd::prelude::*;
use crate::fixed::quot;
use map_range::CheckedMapRange;

verus! {

/// `v` fits in 32 bits.
pub open spec fn fits_i32(v: int) -> bool {
    i32::MIN <= v <= i32::MAX
}

/// `n` divided by `d`, rounded toward zero.
pub open spec fn truncated(n: int, d: int) -> int {
    if d > 0 {
        quot(n, d)
    } else {
        quot(-n, -d)
    }
}

/// `value` carried from the range `from` to the range `to`: the start of `to`
/// plus the distance of `value` from the start of `from`, times the length of
/// `to`, divided by the length of `from` and rounded toward zero. There is no
/// result if `from` has no length or if a difference, the product, the
/// quotient or the sum does not fit in 32 bits.
pub open spec fn mapped_range(value: i32, from: (i32, i32), to: (i32, i32)) -> Option<i32> {
    let offset = value - from.0;
    let span = to.1 - to.0;
    let length = from.1 - from.0;
    if !fits_i32(offset) || !fits_i32(span) || !fits_i32(offset * span) || !fits_i32(length)
        || length == 0 {
        None
    } else if !fits_i32(truncated(offset * span, length)) || !fits_i32(
        to.0 + truncated(offset * span, length),
    ) {
        None
    } else {
        Some((to.0 + truncated(offset * span, length)) as i32)
    }
}

/// Calls `checked_map_range` of the map-range crate on 32-bit integers.
///
/// The crate computes the start of `to`, plus the value less the start of
/// `from`, times the end of `to` less its start, divided by the end of `from`
/// less its start, each step with the checked operation of the integer type.
/// It gives nothing as soon as one of them overflows or divides by zero.
#[verifier::external_body]
fn checked_map_range_i32(value: i32, from: (i32, i32), to: (i32, i32)) -> (mapped: Option<i32>)
    ensures
        mapped == mapped_range(value, from, to),
{
    value.checked_map_range(from.0..from.1, to.0..to.1)
}

/// The sum of the first `count` levels, each carried from the range from
/// `low` to `high` to the range from 1 to `max`. There is no sum if a level
/// cannot be carried over or if the sum leaves 32 bits on the way.
pub open spec fn mapped_sum(levels: Seq<u16>, count: nat, max: i32, low: u16, high: u16) -> Option<
    int,
>
    decreases count,
{
    if count == 0 {
        Some(0int)
    } else {
        match (
            mapped_sum(levels, (count - 1) as nat, max, low, high),
            mapped_range(levels[count - 1] as i32, (low as i32, high as i32), (1, max)),
        ) {
            (Some(sum), Some(mapped)) => if fits_i32(sum + mapped) {
                Some(sum + mapped)
            } else {
                None
            },
            _ => None,
        }
    }
}

/// The mean of the mapped levels, rounded toward zero. There is none for an
/// empty map, for more levels than fit in 32 bits, or without a sum.
pub open spec fn mean_height(levels: Seq<u16>, max: i32, low: u16, high: u16) -> Option<i32> {
    if levels.len() == 0 || levels.len() > i32::MAX {
        None
    } else {
        match mapped_sum(levels, levels.len(), max, low, high) {
            Some(sum) => Some(quot(sum, levels.len() as int) as i32),
            None => None,
        }
    }
}

/// The mean height of a height map whose levels run from `min_value_total` to
/// `max_value_total`, on a scale from 1 to `max`.
pub fn get_height(levels: &Vec<u16>, max: i32, min_value_total: u16, max_value_total: u16) -> (mean:
    Option<i32>)
    ensures
        mean == mean_height(levels@, max, min_value_total, max_value_total),
{
    if levels.len() == 0 || levels.len() > i32::MAX as usize {
        return None;
    }
    let mut sum: i32 = 0;
    let mut i: usize = 0;
    while i < levels.len()
        invariant
            i <= levels@.len(),
            mapped_sum(levels@, i as nat, max, min_value_total, max_value_total) == Some(sum as int),
        decreases levels@.len() - i,
    {
        let mapped = checked_map_range_i32(
            levels[i] as i32,
            (min_value_total as i32, max_value_total as i32),
            (1, max),
        );
        let next = match mapped {
            Some(mapped) => mapped as i64 + sum as i64,
            None => {
                proof {
                    lemma_no_sum_from(levels@, (i + 1) as nat, max, min_value_total, max_value_total);
                }
                return None;
            },
        };
        if next < i32::MIN as i64 || next > i32::MAX as i64 {
            proof {
                lemma_no_sum_from(levels@, (i + 1) as nat, max, min_value_total, max_value_total);
            }
            return None;
        }
        sum = next as i32;
        i = i + 1;
    }
    let count = levels.len() as i32;
    let mean = if sum >= 0 {
        sum / count
    } else {
        -((-(sum as i64)) / (count as i64)) as i32
    };
    Some(mean)
}

/// Once there is no sum of the first levels, there is none of more of them.
pub proof fn lemma_no_sum_from(levels: Seq<u16>, count: nat, max: i32, low: u16, high: u16)
    requires
        count <= levels.len(),
        mapped_sum(levels, count, max, low, high) is None,
    ensures
        mapped_sum(levels, levels.len(), max, low, high) is None,
    decreases levels.len() - count,
{
    if count < levels.len() {
        assert(mapped_sum(levels, count + 1, max, low, high) is None);
        lemma_no_sum_from(levels, count + 1, max, low, high);
    }
}

} // verus!
