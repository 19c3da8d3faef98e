//! Colours by altitude.
//!
//! A colour map is a list of stops, each an altitude with its colour. Between
//! two stops the colour changes linearly; below the first stop and above the
//! last it is the colour of that stop.

use vstd::prelude::*;
use crate::fixed::{held_between, quot, quotient, ONE};

verus! {

/// A colour as red, green and blue.
#[derive(Clone, Copy, Debug, PartialEq, Eq, Structural)]
pub struct Rgb {
    pub red: u8,
    pub green: u8,
    pub blue: u8,
}

/// The channel value `num / den` of the way from `a` to `b`, rounded toward
/// zero and held between 0 and 255.
pub open spec fn mixed(a: u8, b: u8, num: int, den: int) -> u8 {
    held_between(quot(a * den + (b - a) * num, den), 0, 255) as u8
}

/// The colour `num / den` of the way from `c1` to `c2`.
pub open spec fn mixed_rgb(c1: Rgb, c2: Rgb, num: int, den: int) -> Rgb {
    Rgb {
        red: mixed(c1.red, c2.red, num, den),
        green: mixed(c1.green, c2.green, num, den),
        blue: mixed(c1.blue, c2.blue, num, den),
    }
}

/// The channel value `c` times `num / den`, rounded toward zero and held
/// between 0 and 255.
pub open spec fn dimmed(c: u8, num: int, den: int) -> u8 {
    held_between(quot(c * num, den), 0, 255) as u8
}

/// The first index from `from` on whose stop lies above `target`, or 1 if
/// there is none.
pub open spec fn first_above(props: Seq<i32>, target: i32, from: int) -> int
    decreases props.len() - from,
{
    if from >= props.len() {
        1
    } else if target < props[from] {
        from
    } else {
        first_above(props, target, from + 1)
    }
}

/// The indices of the two stops that `target` lies between. At or below the
/// first stop both are the first, at or above the last both are the last.
pub open spec fn surrounding(props: Seq<i32>, target: i32) -> (int, int) {
    if target <= props[0] {
        (0, 0)
    } else if target >= props[props.len() - 1] {
        (props.len() - 1, props.len() - 1)
    } else {
        (first_above(props, target, 1) - 1, first_above(props, target, 1))
    }
}

/// The colour of `elevation` on the map with the given stops.
pub open spec fn interpolated(colors: Seq<Rgb>, elevations: Seq<i32>, elevation: i32) -> Rgb {
    let (a, b) = surrounding(elevations, elevation);
    if a == b {
        colors[a]
    } else {
        mixed_rgb(colors[a], colors[b], elevation - elevations[a], elevations[b] - elevations[a])
    }
}

/// Between the first and the last stop, the first stop above `target` has an
/// index from 1 on, the stop before it is not above `target`, and no stop
/// between `from` and it is above `target`.
pub proof fn lemma_first_above(props: Seq<i32>, target: i32, from: int)
    requires
        1 <= from < props.len(),
        target < props[props.len() - 1],
        props[from - 1] <= target,
    ensures
        from <= first_above(props, target, from) < props.len(),
        target < props[first_above(props, target, from)],
        props[first_above(props, target, from) - 1] <= target,
    decreases props.len() - from,
{
    if target >= props[from] {
        lemma_first_above(props, target, from + 1);
    }
}

/// One channel of a mixture; see [`mixed`].
pub fn mix(a: u8, b: u8, num: i64, den: i64) -> (c: u8)
    requires
        0 < den <= 0x2_0000_0000,
        -0x2_0000_0000 <= num <= 0x2_0000_0000,
    ensures
        c == mixed(a, b, num as int, den as int),
{
    assert(0 <= a * den <= 255 * 0x2_0000_0000) by (nonlinear_arith)
        requires
            0 <= a <= 255,
            0 < den <= 0x2_0000_0000,
    ;
    let d = b as i64 - a as i64;
    assert(-(255 * 0x2_0000_0000) <= d * num <= 255 * 0x2_0000_0000) by (nonlinear_arith)
        requires
            -255 <= d <= 255,
            -0x2_0000_0000 <= num <= 0x2_0000_0000,
    ;
    let v = quotient((a as i64) * den + d * num, den);
    if v < 0 {
        0
    } else if v > 255 {
        255
    } else {
        v as u8
    }
}

/// The colour `num / den` of the way from `c1` to `c2`; see [`mixed_rgb`].
pub fn mix_rgb(c1: Rgb, c2: Rgb, num: i64, den: i64) -> (c: Rgb)
    requires
        0 < den <= 0x2_0000_0000,
        -0x2_0000_0000 <= num <= 0x2_0000_0000,
    ensures
        c == mixed_rgb(c1, c2, num as int, den as int),
{
    Rgb {
        red: mix(c1.red, c2.red, num, den),
        green: mix(c1.green, c2.green, num, den),
        blue: mix(c1.blue, c2.blue, num, den),
    }
}

/// The colour at the fraction `prop` of the way from `c1` to `c2`, `prop` in
/// fixed point. Each channel is rounded toward zero and held between 0 and 255.
pub fn lerp_color(c1: Rgb, c2: Rgb, prop: i32) -> (c: Rgb)
    ensures
        c == mixed_rgb(c1, c2, prop as int, ONE as int),
{
    mix_rgb(c1, c2, prop as i64, ONE)
}

/// The colour with every channel multiplied by `brightness`, in fixed point.
/// Each channel is rounded toward zero and held between 0 and 255.
pub fn apply_brightness(color: Rgb, brightness: i32) -> (c: Rgb)
    ensures
        c.red == dimmed(color.red, brightness as int, ONE as int),
        c.green == dimmed(color.green, brightness as int, ONE as int),
        c.blue == dimmed(color.blue, brightness as int, ONE as int),
{
    Rgb {
        red: dim(color.red, brightness),
        green: dim(color.green, brightness),
        blue: dim(color.blue, brightness),
    }
}

/// One channel multiplied by `brightness`; see [`dimmed`].
pub fn dim(c: u8, brightness: i32) -> (out: u8)
    ensures
        out == dimmed(c, brightness as int, ONE as int),
{
    assert(-(255 * 0x8000_0000) <= c * brightness <= 255 * 0x8000_0000) by (nonlinear_arith)
        requires
            0 <= c <= 255,
            -0x8000_0000 <= brightness <= 0x8000_0000,
    ;
    let v = quotient((c as i64) * (brightness as i64), ONE);
    if v < 0 {
        0
    } else if v > 255 {
        255
    } else {
        v as u8
    }
}

/// The indices of the two stops that `target` lies between; see
/// [`surrounding`].
pub fn get_surounding_index(props: &Vec<i32>, target: i32) -> (pair: (usize, usize))
    requires
        props@.len() > 0,
    ensures
        (pair.0 as int, pair.1 as int) == surrounding(props@, target),
        pair.0 < props@.len(),
        pair.1 < props@.len(),
        pair.0 == pair.1 || (pair.1 == pair.0 + 1 && props@[pair.0 as int] <= target
            < props@[pair.1 as int]),
{
    let last = props.len() - 1;
    if target <= props[0] {
        (0, 0)
    } else if target >= props[last] {
        (last, last)
    } else {
        proof {
            lemma_first_above(props@, target, 1);
        }
        let mut index: usize = 1;
        while target >= props[index]
            invariant
                1 <= index < props@.len(),
                last == props@.len() - 1,
                target < props@[props@.len() - 1],
                props@[index - 1] <= target,
                first_above(props@, target, index as int) == first_above(props@, target, 1),
            decreases props@.len() - index,
        {
            proof {
                lemma_first_above(props@, target, index as int);
            }
            index = index + 1;
        }
        (index - 1, index)
    }
}

/// The colour of `elevation` on the map whose stops are `elevations` with the
/// colours `colors`; see [`interpolated`].
pub fn get_interporated_color(colors: &Vec<Rgb>, elevations: &Vec<i32>, elevation: i32) -> (c: Rgb)
    requires
        elevations@.len() > 0,
        colors@.len() == elevations@.len(),
    ensures
        c == interpolated(colors@, elevations@, elevation),
{
    let (a, b) = get_surounding_index(elevations, elevation);
    if a == b {
        colors[a]
    } else {
        let num = elevation as i64 - elevations[a] as i64;
        let den = elevations[b] as i64 - elevations[a] as i64;
        mix_rgb(colors[a], colors[b], num, den)
    }
}

/// The stops of the altitude map: 0, 0.5, 1, 18 and 30 in fixed point.
pub open spec fn altitude_stops() -> Seq<i32> {
    seq![0i32, 32768i32, 65536i32, 1179648i32, 1966080i32]
}

/// The colours of the altitude map: water blue, sand, pale green, forest green
/// and dark green.
pub open spec fn altitude_colors() -> Seq<Rgb> {
    seq![
        Rgb { red: 70, green: 150, blue: 200 },
        Rgb { red: 240, green: 240, blue: 210 },
        Rgb { red: 190, green: 200, blue: 120 },
        Rgb { red: 25, green: 100, blue: 25 },
        Rgb { red: 15, green: 60, blue: 15 },
    ]
}

/// A colour map: stops in rising order, each with its colour.
pub struct Colormap {
    pub colors: Vec<Rgb>,
    pub elevations: Vec<i32>,
}

impl Colormap {
    /// There is a stop, and each stop has its colour.
    pub open spec fn wf(&self) -> bool {
        self.elevations@.len() > 0 && self.colors@.len() == self.elevations@.len()
    }

    /// The altitude map of five stops.
    pub fn altitude() -> (map: Colormap)
        ensures
            map.wf(),
            map.colors@ == altitude_colors(),
            map.elevations@ == altitude_stops(),
    {
        let mut colors: Vec<Rgb> = Vec::new();
        let mut elevations: Vec<i32> = Vec::new();
        colors.push(Rgb { red: 70, green: 150, blue: 200 });
        elevations.push(0);
        colors.push(Rgb { red: 240, green: 240, blue: 210 });
        elevations.push(32768);
        colors.push(Rgb { red: 190, green: 200, blue: 120 });
        elevations.push(65536);
        colors.push(Rgb { red: 25, green: 100, blue: 25 });
        elevations.push(1179648);
        colors.push(Rgb { red: 15, green: 60, blue: 15 });
        elevations.push(1966080);
        assert(colors@ =~= altitude_colors());
        assert(elevations@ =~= altitude_stops());
        Colormap { colors, elevations }
    }

    /// The colour of `elevation` on this map.
    pub fn color_at(&self, elevation: i32) -> (c: Rgb)
        requires
            self.wf(),
        ensures
            c == interpolated(self.colors@, self.elevations@, elevation),
    {
        get_interporated_color(&self.colors, &self.elevations, elevation)
    }
}

/// The colour of an altitude on the altitude map.
pub fn altitude_color(altitude: i32) -> (c: Rgb)
    ensures
        c == interpolated(altitude_colors(), altitude_stops(), altitude),
{
    let map = Colormap::altitude();
    map.color_at(altitude)
}

/// On the altitude map every altitude below 0 has the colour of the first stop
/// and every altitude from 30 on the colour of the last, and each stop has its
/// own colour.
pub proof fn lemma_altitude_map_ends(altitude: i32)
    ensures
        altitude <= 0 ==> interpolated(altitude_colors(), altitude_stops(), altitude)
            == altitude_colors()[0],
        altitude >= 1966080 ==> interpolated(altitude_colors(), altitude_stops(), altitude)
            == altitude_colors()[4],
{
}

} // verus!
