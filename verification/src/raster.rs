//! Sampling an elevation field into rasters.
//!
//! The field is sampled on a regular grid, row by row. A point at which the
//! field has no value is skipped: its cell keeps the value 0 and the colour
//! black.

use vstd::prelude::*;
use crate::colormap::{altitude_colors, altitude_stops, interpolated, Colormap, Rgb};
use crate::error::TerrainError;
use crate::fixed::{held_between, quot, quotient};
use crate::world::has_dimensions;

verus! {

/// The raster level that the greatest elevation is sent to.
pub const LEVEL_SCALE: i64 = 32768;

/// The raster level at which an eroded height stands for the greatest
/// altitude.
pub const ERODED_SCALE: u16 = 32767;

/// The raw and the coloured raster of an elevation field.
pub struct Preview {
    /// One level per cell.
    pub raw: Vec<u16>,
    /// Red, green and blue per cell.
    pub color: Vec<u8>,
}

/// The raster level of an altitude: the altitude divided by the greatest
/// elevation, times `LEVEL_SCALE`, rounded toward zero and held within 16 bits.
pub open spec fn level_of_altitude(altitude: int, max_elevation: int) -> int {
    if max_elevation > 0 {
        held_between(quot(altitude * LEVEL_SCALE, max_elevation), 0, 65535)
    } else if max_elevation < 0 {
        held_between(quot(-altitude * LEVEL_SCALE, -max_elevation), 0, 65535)
    } else if altitude > 0 {
        65535
    } else {
        0
    }
}

/// The level of a sample; 0 where the field has no value.
pub open spec fn level_of_sample(sample: Option<i32>, max_elevation: i32) -> u16 {
    match sample {
        Some(altitude) => level_of_altitude(altitude as int, max_elevation as int) as u16,
        None => 0,
    }
}

/// The colour of a sample; black where the field has no value.
pub open spec fn color_of_sample(sample: Option<i32>) -> Rgb {
    match sample {
        Some(altitude) => interpolated(altitude_colors(), altitude_stops(), altitude),
        None => Rgb { red: 0, green: 0, blue: 0 },
    }
}

/// The altitude that a level of an eroded raster stands for, held within 32
/// bits: the whole number of times that `ERODED_SCALE` goes into the level,
/// times the greatest altitude.
pub open spec fn altitude_of_level(level: u16, max_alt: i32) -> i32 {
    held_between((level / ERODED_SCALE) * max_alt, i32::MIN as int, i32::MAX as int) as i32
}

/// `colors` holds the three channels of each of `count` cells, and `color_of`
/// gives the colour of each cell.
pub open spec fn holds_colors(colors: Seq<u8>, count: int, color_of: spec_fn(int) -> Rgb) -> bool {
    &&& colors.len() == 3 * count
    &&& forall|i: int|
        0 <= i < count ==> {
            &&& colors[3 * i] == (#[trigger] color_of(i)).red
            &&& colors[3 * i + 1] == color_of(i).green
            &&& colors[3 * i + 2] == color_of(i).blue
        }
}

/// `top` is the greatest of `elevations`, or the least number there is if
/// there are none.
pub open spec fn is_greatest(elevations: Seq<i32>, top: i32) -> bool {
    &&& forall|i: int| 0 <= i < elevations.len() ==> #[trigger] elevations[i] <= top
    &&& elevations.len() == 0 ==> top == i32::MIN
    &&& elevations.len() > 0 ==> exists|i: int| 0 <= i < elevations.len() && #[trigger] elevations[i] == top
}

/// The greatest of the elevations.
pub fn max_elevation(elevations: &Vec<i32>) -> (top: i32)
    ensures
        is_greatest(elevations@, top),
{
    let mut top: i32 = i32::MIN;
    let mut i: usize = 0;
    while i < elevations.len()
        invariant
            i <= elevations@.len(),
            is_greatest(elevations@.subrange(0, i as int), top),
        decreases elevations@.len() - i,
    {
        let ghost seen = elevations@.subrange(0, i as int);
        let ghost more = elevations@.subrange(0, i + 1);
        let ghost before = top;
        if elevations[i] > top {
            top = elevations[i];
        }
        proof {
            assert forall|k: int| 0 <= k < more.len() implies #[trigger] more[k] <= top by {
                if k < i {
                    assert(seen[k] <= before);
                }
            }
            if top == before && i > 0 {
                let k = choose|k: int| 0 <= k < seen.len() && #[trigger] seen[k] == before;
                assert(more[k] == top);
            } else {
                assert(more[i as int] == top);
            }
        }
        i = i + 1;
    }
    assert(elevations@.subrange(0, i as int) =~= elevations@);
    top
}

/// The coordinate of grid line `index` of `count` over an axis from 0 to
/// `extent`: `extent` times `index / count`, rounded toward zero.
pub fn grid_point(extent: i32, index: u32, count: u32) -> (x: i32)
    requires
        index < count,
    ensures
        x == quot(extent * index, count as int),
{
    assert(-(0x8000_0000 * 0xFFFF_FFFF) <= extent * index <= 0x8000_0000 * 0xFFFF_FFFF)
        by (nonlinear_arith)
        requires
            -0x8000_0000 <= extent <= 0x8000_0000,
            0 <= index <= 0xFFFF_FFFF,
    ;
    let n = (extent as i64) * (index as i64);
    proof {
        let m = n as int;
        let d = count as int;
        if m >= 0 {
            assert(0 <= m / d <= 0x7FFF_FFFF) by (nonlinear_arith)
                requires
                    m == extent * index,
                    0 <= index < d,
                    m >= 0,
                    extent <= 0x7FFF_FFFF,
            ;
        } else {
            assert(0 <= (-m) / d <= 0x8000_0000) by (nonlinear_arith)
                requires
                    m == extent * index,
                    0 <= index < d,
                    m < 0,
                    -0x8000_0000 <= extent,
            ;
        }
    }
    quotient(n, count as i64) as i32
}

/// The raster level of an altitude; see [`level_of_altitude`].
pub fn height_level(altitude: i32, max_elevation: i32) -> (level: u16)
    ensures
        level == level_of_altitude(altitude as int, max_elevation as int),
{
    if max_elevation == 0 {
        if altitude > 0 {
            65535
        } else {
            0
        }
    } else {
        let v = if max_elevation > 0 {
            quotient((altitude as i64) * LEVEL_SCALE, max_elevation as i64)
        } else {
            quotient(-(altitude as i64) * LEVEL_SCALE, -(max_elevation as i64))
        };
        if v < 0 {
            0
        } else if v > 65535 {
            65535
        } else {
            v as u16
        }
    }
}

/// The level of one sample and its colour on the given map. A point at which
/// the field has no value is reported as `UnresolvedElevationSample`.
pub fn sample_cell(sample: Option<i32>, max_elevation: i32, map: &Colormap) -> (result: Result<
    (u16, Rgb),
    TerrainError,
>)
    requires
        map.wf(),
    ensures
        result is Err <==> sample is None,
        result is Err ==> result->Err_0 == TerrainError::UnresolvedElevationSample,
        result is Ok ==> result->Ok_0.0 == level_of_sample(sample, max_elevation),
        result is Ok ==> result->Ok_0.1 == interpolated(
            map.colors@,
            map.elevations@,
            sample->Some_0,
        ),
{
    match sample {
        Some(altitude) => Ok((height_level(altitude, max_elevation), map.color_at(altitude))),
        None => Err(TerrainError::UnresolvedElevationSample),
    }
}

/// Builds the raw and the coloured raster of `width` by `height` cells from
/// the samples of an elevation field, given row by row. A cell's level is its
/// altitude relative to `max_elevation`, its colour that of its altitude on the
/// altitude map.
///
/// A list of samples whose length is not `width` times `height` is refused.
pub fn rasterize(samples: &Vec<Option<i32>>, width: usize, height: usize, max_elevation: i32) -> (result:
    Result<Preview, TerrainError>)
    ensures
        result is Ok <==> samples@.len() == width * height,
        result is Err ==> result->Err_0 == TerrainError::InvalidRasterDimensions,
        result is Ok ==> result->Ok_0.raw@.len() == samples@.len(),
        result is Ok ==> forall|i: int|
            0 <= i < samples@.len() ==> #[trigger] result->Ok_0.raw@[i] == level_of_sample(
                samples@[i],
                max_elevation,
            ),
        result is Ok ==> holds_colors(
            result->Ok_0.color@,
            samples@.len() as int,
            |i: int| color_of_sample(samples@[i]),
        ),
{
    if !has_dimensions(samples.len(), width, height) {
        return Err(TerrainError::InvalidRasterDimensions);
    }
    let map = Colormap::altitude();
    let mut raw: Vec<u16> = Vec::new();
    let mut color: Vec<u8> = Vec::new();
    let ghost color_of = |i: int| color_of_sample(samples@[i]);
    let mut i: usize = 0;
    while i < samples.len()
        invariant
            i <= samples@.len(),
            map.wf(),
            map.colors@ == altitude_colors(),
            map.elevations@ == altitude_stops(),
            raw@.len() == i,
            forall|k: int|
                0 <= k < i ==> #[trigger] raw@[k] == level_of_sample(samples@[k], max_elevation),
            color_of == |i: int| color_of_sample(samples@[i]),
            holds_colors(color@, i as int, color_of),
        decreases samples@.len() - i,
    {
        let ghost shown = color@;
        let c = match sample_cell(samples[i], max_elevation, &map) {
            Ok((level, c)) => {
                raw.push(level);
                c
            },
            Err(_) => {
                raw.push(0);
                Rgb { red: 0, green: 0, blue: 0 }
            },
        };
        color.push(c.red);
        color.push(c.green);
        color.push(c.blue);
        proof {
            assert(c == color_of(i as int));
            assert forall|k: int| 0 <= k < i + 1 implies {
                &&& color@[3 * k] == (#[trigger] color_of(k)).red
                &&& color@[3 * k + 1] == color_of(k).green
                &&& color@[3 * k + 2] == color_of(k).blue
            } by {
                if k < i {
                    assert(color@[3 * k] == shown[3 * k]);
                    assert(color@[3 * k + 1] == shown[3 * k + 1]);
                    assert(color@[3 * k + 2] == shown[3 * k + 2]);
                }
            }
        }
        i = i + 1;
    }
    Ok(Preview { raw, color })
}

/// The altitude that a level of an eroded raster stands for; see
/// [`altitude_of_level`].
pub fn level_altitude(level: u16, max_alt: i32) -> (altitude: i32)
    ensures
        altitude == altitude_of_level(level, max_alt),
{
    let times = (level / ERODED_SCALE) as i64;
    assert(0 <= times <= 2);
    assert(-(2 * 0x8000_0000) <= times * max_alt <= 2 * 0x8000_0000) by (nonlinear_arith)
        requires
            0 <= times <= 2,
            -0x8000_0000 <= max_alt <= 0x8000_0000,
    ;
    let v = times * (max_alt as i64);
    if v < i32::MIN as i64 {
        i32::MIN
    } else if v > i32::MAX as i64 {
        i32::MAX
    } else {
        v as i32
    }
}

/// Colours an eroded raster by the altitude map: red, green and blue per
/// cell, each cell by the altitude that its level stands for.
pub fn color_eroded_image(raster: &Vec<u16>, max_alt: i32) -> (color: Vec<u8>)
    ensures
        holds_colors(
            color@,
            raster@.len() as int,
            |i: int| interpolated(altitude_colors(), altitude_stops(), altitude_of_level(raster@[i], max_alt)),
        ),
{
    let map = Colormap::altitude();
    let mut color: Vec<u8> = Vec::new();
    let ghost color_of = |i: int|
        interpolated(altitude_colors(), altitude_stops(), altitude_of_level(raster@[i], max_alt));
    let mut i: usize = 0;
    while i < raster.len()
        invariant
            i <= raster@.len(),
            map.wf(),
            map.colors@ == altitude_colors(),
            map.elevations@ == altitude_stops(),
            color_of == |i: int|
                interpolated(altitude_colors(), altitude_stops(), altitude_of_level(raster@[i], max_alt)),
            holds_colors(color@, i as int, color_of),
        decreases raster@.len() - i,
    {
        let ghost shown = color@;
        let c = map.color_at(level_altitude(raster[i], max_alt));
        color.push(c.red);
        color.push(c.green);
        color.push(c.blue);
        proof {
            assert(c == color_of(i as int));
            assert forall|k: int| 0 <= k < i + 1 implies {
                &&& color@[3 * k] == (#[trigger] color_of(k)).red
                &&& color@[3 * k + 1] == color_of(k).green
                &&& color@[3 * k + 2] == color_of(k).blue
            } by {
                if k < i {
                    assert(color@[3 * k] == shown[3 * k]);
                    assert(color@[3 * k + 1] == shown[3 * k + 1]);
                    assert(color@[3 * k + 2] == shown[3 * k + 2]);
                }
            }
        }
        i = i + 1;
    }
    color
}

} // verus!
