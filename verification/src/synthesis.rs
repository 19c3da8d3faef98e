//! The rules by which mesh sites get their place and their parameters.
//!
//! The noise itself is sampled by the caller. What is done with a noise value
//! is decided here: how far a site is displaced, whether it is a candidate
//! ocean, and how erodible it is. Noise values, lengths and the settings are
//! fixed-point numbers.

use vstd::prelude::*;
use crate::fixed::{held_between, quot, quotient, ONE};
use crate::flow::magnitude;
use crate::grid::{integer_sqrt, sqrt_of};

verus! {

/// The greatest length of a fault displacement per unit of direction: 35.
pub const MAX_FAULT_RADIUS: i64 = 35;

/// The greatest length of a reef displacement: 5.
pub const MAX_REEF_RADIUS: i64 = 5;

/// The least scale of the reef noise: 7.5 in fixed point.
pub const MIN_REEF_SCALE: i64 = 491520;

/// The span from the least to the greatest scale of the reef noise: 12.5.
pub const REEF_SCALE_SPAN_HALVES: i64 = 25;

/// The least erodibility before scaling: 0.1 in fixed point, rounded down.
pub const BASE_ERODIBILITY: i64 = 6553;

/// The scale at which the fault noise is sampled: 100 in fixed point.
pub const FAULT_SCALE: i32 = 6553600;

/// The octaves of the noise that gives the length of a fault.
pub const FAULT_MAGNITUDE_OCTAVES: usize = 3;

/// The octaves of each of the two noises that give the direction of a fault.
pub const FAULT_DIRECTION_OCTAVES: usize = 4;

/// The scale at which the noise of the reef scale is sampled: 800 in fixed
/// point.
pub const REEF_SCALE_SCALE: i32 = 52428800;

/// The octaves of the noise that gives the reef scale.
pub const REEF_SCALE_OCTAVES: usize = 2;

/// The octaves of the noise that gives the length of a reef.
pub const REEF_MAGNITUDE_OCTAVES: usize = 3;

/// The octaves of each of the two noises that give the direction of a reef.
pub const REEF_DIRECTION_OCTAVES: usize = 4;

/// The scale at which the plate noise and its persistence noise are sampled:
/// 50 in fixed point.
pub const PLATE_SCALE: i32 = 3276800;

/// The octaves of the noise that gives the persistence of the plate noise.
pub const PLATE_PERSISTENCE_OCTAVES: usize = 2;

/// The octaves of the plate noise.
pub const PLATE_OCTAVES: usize = 8;

/// The scale at which the continent noise is sampled: 200 in fixed point.
pub const CONTINENT_SCALE: i32 = 13107200;

/// The octaves of the continent noise.
pub const CONTINENT_OCTAVES: usize = 3;

/// The octaves of the erodibility noise.
pub const ERODIBILITY_OCTAVES: usize = 5;

/// The persistence of the noises of length and scale, of the persistence
/// noise and of the continent noise: 0.5 in fixed point.
pub const PLAIN_PERSISTENCE: i32 = 32768;

/// The persistence of a direction noise: 0.6 in fixed point, rounded down.
pub const DIRECTION_PERSISTENCE: i32 = 39321;

/// The persistence of the erodibility noise: 0.7 in fixed point, rounded
/// down.
pub const ERODIBILITY_PERSISTENCE: i32 = 45875;

/// The lacunarity of the noises of length and scale and of the persistence
/// noise, in tenths: 2.0.
pub const PLAIN_LACUNARITY_TENTHS: u32 = 20;

/// The lacunarity of a direction noise, in tenths: 2.2.
pub const DIRECTION_LACUNARITY_TENTHS: u32 = 22;

/// The lacunarity of the plate noise, in tenths: 2.4.
pub const PLATE_LACUNARITY_TENTHS: u32 = 24;

/// The lacunarity of the continent noise, in tenths: 1.8.
pub const CONTINENT_LACUNARITY_TENTHS: u32 = 18;

/// The lacunarity of the erodibility noise, in tenths: 2.2.
pub const ERODIBILITY_LACUNARITY_TENTHS: u32 = 22;

/// What the elevation solver is told of a site.
#[derive(Clone, Copy, Debug, PartialEq, Eq, Structural)]
pub struct SiteParameters {
    /// How fast the site is worn down, in fixed point; above zero.
    pub erodibility: i32,
    /// Whether the site is held at sea level.
    pub is_outlet: bool,
}

impl SiteParameters {
    /// The erodibility is above zero.
    pub open spec fn wf(&self) -> bool {
        self.erodibility > 0
    }
}

/// The number of interior sites: the area of the bounding box times the
/// density, rounded down, none for a negative product.
pub open spec fn count_of_sites(min: (i32, i32), max: (i32, i32), lod: i32) -> int {
    held_between(
        quot((max.0 - min.0) * (max.1 - min.1) * lod, 0x1_0000_0000_0000),
        0,
        usize::MAX as int,
    )
}

/// The number of interior sites for a bounding box from `min` to `max` and a
/// density of `lod` sites per unit of area.
pub fn site_count(min: (i32, i32), max: (i32, i32), lod: i32) -> (num: usize)
    ensures
        num == count_of_sites(min, max, lod),
{
    let dx: i128 = (max.0 as i128) - (min.0 as i128);
    let dy: i128 = (max.1 as i128) - (min.1 as i128);
    assert(-(0x1_0000_0000 * 0x1_0000_0000) <= dx * dy <= 0x1_0000_0000 * 0x1_0000_0000)
        by (nonlinear_arith)
        requires
            -0x1_0000_0000 <= dx <= 0x1_0000_0000,
            -0x1_0000_0000 <= dy <= 0x1_0000_0000,
    ;
    let area: i128 = dx * dy;
    assert(-(0x1_0000_0000_0000_0000 * 0x8000_0000) <= area * lod <= 0x1_0000_0000_0000_0000
        * 0x8000_0000) by (nonlinear_arith)
        requires
            -0x1_0000_0000_0000_0000 <= area <= 0x1_0000_0000_0000_0000,
            -0x8000_0000 <= lod <= 0x8000_0000,
    ;
    let product: i128 = area * (lod as i128);
    assert(product == (max.0 - min.0) * (max.1 - min.1) * lod);
    if product <= 0 {
        0
    } else {
        let whole: i128 = product / 0x1_0000_0000_0000;
        if whole > usize::MAX as i128 {
            usize::MAX
        } else {
            whole as usize
        }
    }
}

/// 0.7 in fixed point, rounded down.
pub const SEVEN_TENTHS: i64 = 45875;

/// 0.3 in fixed point, rounded down.
pub const THREE_TENTHS: i64 = 19660;

/// 0.5 in fixed point.
pub const HALF: i64 = 32768;

/// The amplitude of octave `k`: 1.0 for the first octave, and for each
/// further octave the amplitude before it times the persistence.
pub open spec fn amplitude(k: nat, persistence: int) -> int
    decreases k,
{
    if k == 0 {
        ONE as int
    } else {
        (amplitude((k - 1) as nat, persistence) * persistence) / (ONE as int)
    }
}

/// The sum of the amplitudes of the first `count` octaves.
pub open spec fn amplitude_sum(count: nat, persistence: int) -> int
    decreases count,
{
    if count == 0 {
        0
    } else {
        amplitude_sum((count - 1) as nat, persistence) + amplitude((count - 1) as nat, persistence)
    }
}

/// The sum of the first `count` samples, each times the amplitude of its
/// octave.
pub open spec fn weighted_sum(samples: Seq<i32>, count: nat, persistence: int) -> int
    decreases count,
{
    if count == 0 {
        0
    } else {
        weighted_sum(samples, (count - 1) as nat, persistence) + samples[count - 1] * amplitude(
            (count - 1) as nat,
            persistence,
        )
    }
}

/// The noise of several octaves: the weighted sum of the samples divided by
/// the sum of the amplitudes, rounded toward zero and held within 32 bits; 0
/// if there is no sample.
pub open spec fn octaves_of(samples: Seq<i32>, persistence: int) -> int {
    if samples.len() == 0 {
        0
    } else {
        held_between(
            quot(
                weighted_sum(samples, samples.len(), persistence),
                amplitude_sum(samples.len(), persistence),
            ),
            i32::MIN as int,
            i32::MAX as int,
        )
    }
}

/// With a persistence of at most 1.0 no amplitude is above 1.0, and the sums
/// grow by at most one amplitude and one sample per octave.
pub proof fn lemma_octave_bounds(samples: Seq<i32>, count: nat, persistence: int)
    requires
        0 <= persistence <= ONE,
        count <= samples.len(),
    ensures
        0 <= amplitude(count, persistence) <= ONE,
        count > 0 ==> ONE <= amplitude_sum(count, persistence),
        0 <= amplitude_sum(count, persistence) <= count * ONE,
        -(count * (0x8000_0000 * ONE)) <= weighted_sum(samples, count, persistence) <= count * (
        0x8000_0000 * ONE),
    decreases count,
{
    if count > 0 {
        let before = (count - 1) as nat;
        lemma_octave_bounds(samples, before, persistence);
        let a = amplitude(before, persistence);
        assert(0 <= (a * persistence) / (ONE as int) <= ONE) by (nonlinear_arith)
            requires
                0 <= a <= ONE,
                0 <= persistence <= ONE,
        ;
        let x = samples[count - 1] as int;
        assert(-(0x8000_0000 * ONE) <= x * a <= 0x8000_0000 * ONE) by (nonlinear_arith)
            requires
                -0x8000_0000 <= x <= 0x8000_0000,
                0 <= a <= ONE,
        ;
        assert(count * (0x8000_0000 * ONE) == before * (0x8000_0000 * ONE) + 0x8000_0000 * ONE)
            by (nonlinear_arith)
            requires
                count == before + 1,
        ;
        assert(count * ONE == before * ONE + ONE) by (nonlinear_arith)
            requires
                count == before + 1,
        ;
        if before == 0 {
            assert(amplitude_sum(before, persistence) == 0);
            assert(a == ONE);
        }
    } else {
        assert(amplitude(0, persistence) == ONE);
    }
}

/// Combines the samples of the octaves of a noise, the first octave first:
/// each octave weighs `persistence` times the one before it, and the sum is
/// divided by the sum of the weights.
pub fn octaved_perlin(samples: &Vec<i32>, persistence: i32) -> (value: i32)
    requires
        0 <= persistence <= ONE,
    ensures
        value == octaves_of(samples@, persistence as int),
{
    if samples.len() == 0 {
        return 0;
    }
    let mut value: i128 = 0;
    let mut max_value: i128 = 0;
    let mut amp: i128 = 65536;
    let mut k: usize = 0;
    while k < samples.len()
        invariant
            k <= samples@.len(),
            0 <= persistence <= ONE,
            amp == amplitude(k as nat, persistence as int),
            0 <= amp <= ONE,
            max_value == amplitude_sum(k as nat, persistence as int),
            value == weighted_sum(samples@, k as nat, persistence as int),
            0 <= max_value <= k * ONE,
            -(k * (0x8000_0000 * ONE)) <= value <= k * (0x8000_0000 * ONE),
        decreases samples@.len() - k,
    {
        proof {
            lemma_octave_bounds(samples@, (k + 1) as nat, persistence as int);
            assert(k * (0x8000_0000 * ONE) <= 0xFFFF_FFFF_FFFF_FFFF * (0x8000_0000 * ONE))
                by (nonlinear_arith)
                requires
                    0 <= k <= 0xFFFF_FFFF_FFFF_FFFF,
            ;
            assert(k * ONE <= 0xFFFF_FFFF_FFFF_FFFF * ONE) by (nonlinear_arith)
                requires
                    0 <= k <= 0xFFFF_FFFF_FFFF_FFFF,
            ;
            let x = samples@[k as int] as int;
            assert(-(0x8000_0000 * ONE) <= x * amp <= 0x8000_0000 * ONE) by (nonlinear_arith)
                requires
                    -0x8000_0000 <= x <= 0x8000_0000,
                    0 <= amp <= ONE,
            ;
            assert(0 <= amp * persistence <= ONE * ONE) by (nonlinear_arith)
                requires
                    0 <= amp <= ONE,
                    0 <= persistence <= ONE,
            ;
        }
        value = value + (samples[k] as i128) * amp;
        max_value = max_value + amp;
        amp = (amp * (persistence as i128)) / 65536;
        k = k + 1;
    }
    proof {
        lemma_octave_bounds(samples@, samples@.len(), persistence as int);
    }
    let v: i128 = if value >= 0 {
        value / max_value
    } else {
        -((-value) / max_value)
    };
    held_to_i32(v)
}

/// `v` held within 32 bits.
fn held_to_i32(v: i128) -> (x: i32)
    ensures
        x == held_between(v as int, i32::MIN as int, i32::MAX as int),
{
    if v < i32::MIN as i128 {
        i32::MIN
    } else if v > i32::MAX as i128 {
        i32::MAX
    } else {
        v as i32
    }
}

/// `noise` times `factor`, plus `shift`, all in fixed point and held within
/// 32 bits.
pub open spec fn affine(noise: int, factor: int, shift: int) -> int {
    held_between(quot(noise * factor, ONE as int) + shift, i32::MIN as int, i32::MAX as int)
}

/// `noise` times `factor`, plus `shift`; see [`affine`].
fn affine_map(noise: i64, factor: i64, shift: i64) -> (x: i32)
    requires
        -0x8000_0000 <= noise <= 0x8000_0000,
        0 <= factor <= ONE,
        0 <= shift <= ONE,
    ensures
        x == affine(noise as int, factor as int, shift as int),
{
    assert(-(0x8000_0000 * ONE) <= noise * factor <= 0x8000_0000 * ONE) by (nonlinear_arith)
        requires
            -0x8000_0000 <= noise <= 0x8000_0000,
            0 <= factor <= ONE,
    ;
    let v = quotient(noise * factor, ONE) + shift;
    if v > i32::MAX as i64 {
        i32::MAX
    } else {
        v as i32
    }
}

/// The persistence of the plate noise at a site: from 0.3 where its
/// persistence noise is 0, up by 0.7 for each unit of its magnitude.
pub fn plate_persistence(noise: i32) -> (persistence: i32)
    ensures
        persistence == affine(magnitude(noise as int), SEVEN_TENTHS as int, THREE_TENTHS as int),
{
    let size: i64 = if noise < 0 {
        -(noise as i64)
    } else {
        noise as i64
    };
    affine_map(size, SEVEN_TENTHS, THREE_TENTHS)
}

/// The plate level of a site: half its plate noise, plus 0.5.
pub fn plate_level(noise: i32) -> (level: i32)
    ensures
        level == affine(noise as int, HALF as int, HALF as int),
{
    affine_map(noise as i64, HALF, HALF)
}

/// The continent level of a site: 0.7 times its continent noise, plus 0.5.
pub fn continent_level(noise: i32) -> (level: i32)
    ensures
        level == affine(noise as int, SEVEN_TENTHS as int, HALF as int),
{
    affine_map(noise as i64, SEVEN_TENTHS, HALF)
}

/// A site is a candidate ocean when its plate noise lies below its continent
/// noise by more than the share of sea.
pub open spec fn candidate_ocean(plate: i32, continent: i32, sea_pct: i32) -> bool {
    plate < continent - sea_pct
}

/// Whether a site with the given noise values is a candidate ocean.
pub fn is_candidate_ocean(plate: i32, continent: i32, sea_pct: i32) -> (ocean: bool)
    ensures
        ocean == candidate_ocean(plate, continent, sea_pct),
{
    (plate as i64) < (continent as i64) - (sea_pct as i64)
}

/// The erodibility of a site: the magnitude of its noise times four, plus
/// `BASE_ERODIBILITY`, times the share of mountains; held to at least the
/// smallest number above zero.
pub open spec fn erodibility_of(noise: i32, mountain_pct: i32) -> int {
    held_between(
        quot((magnitude(noise as int) * 4 + BASE_ERODIBILITY) * mountain_pct, ONE as int),
        1,
        i32::MAX as int,
    )
}

/// The erodibility of a site with the given noise value.
pub fn erodibility(noise: i32, mountain_pct: i32) -> (e: i32)
    ensures
        e == erodibility_of(noise, mountain_pct),
        e > 0,
{
    let size: i64 = if noise < 0 {
        -(noise as i64)
    } else {
        noise as i64
    };
    let base: i128 = (size as i128) * 4 + (BASE_ERODIBILITY as i128);
    assert(-(0x2_0001_0000 * 0x8000_0000) <= base * mountain_pct <= 0x2_0001_0000 * 0x8000_0000)
        by (nonlinear_arith)
        requires
            0 <= base <= 0x2_0001_0000,
            -0x8000_0000 <= mountain_pct <= 0x8000_0000,
    ;
    let product: i128 = base * (mountain_pct as i128);
    let v: i128 = if product >= 0 {
        product / 65536
    } else {
        -((-product) / 65536)
    };
    if v < 1 {
        1
    } else if v > i32::MAX as i128 {
        i32::MAX
    } else {
        v as i32
    }
}

/// The parameters of every site: its erodibility from its noise value, and
/// whether it is an outlet.
pub fn site_parameters(noise: &Vec<i32>, is_outlet: &Vec<bool>, mountain_pct: i32) -> (parameters:
    Vec<SiteParameters>)
    requires
        noise@.len() == is_outlet@.len(),
    ensures
        parameters@.len() == noise@.len(),
        forall|i: int|
            0 <= i < noise@.len() ==> #[trigger] parameters@[i] == (SiteParameters {
                erodibility: erodibility_of(noise@[i], mountain_pct) as i32,
                is_outlet: is_outlet@[i],
            }),
        forall|i: int| 0 <= i < noise@.len() ==> (#[trigger] parameters@[i]).wf(),
{
    let mut parameters: Vec<SiteParameters> = Vec::new();
    let mut i: usize = 0;
    while i < noise.len()
        invariant
            i <= noise@.len(),
            noise@.len() == is_outlet@.len(),
            parameters@.len() == i,
            forall|k: int|
                0 <= k < i ==> #[trigger] parameters@[k] == (SiteParameters {
                    erodibility: erodibility_of(noise@[k], mountain_pct) as i32,
                    is_outlet: is_outlet@[k],
                }),
            forall|k: int| 0 <= k < i ==> (#[trigger] parameters@[k]).wf(),
        decreases noise@.len() - i,
    {
        parameters.push(
            SiteParameters { erodibility: erodibility(noise[i], mountain_pct), is_outlet: is_outlet[i] },
        );
        i = i + 1;
    }
    parameters
}

/// The parameters of the sites are settled by the noise values, the outlets
/// and the share of mountains: two lists that both hold what `site_parameters`
/// promises are the same list.
pub proof fn lemma_site_parameters_repeatable(
    noise: Seq<i32>,
    is_outlet: Seq<bool>,
    mountain_pct: i32,
    first: Seq<SiteParameters>,
    second: Seq<SiteParameters>,
)
    requires
        noise.len() == is_outlet.len(),
        first.len() == noise.len(),
        second.len() == noise.len(),
        forall|i: int|
            0 <= i < noise.len() ==> #[trigger] first[i] == (SiteParameters {
                erodibility: erodibility_of(noise[i], mountain_pct) as i32,
                is_outlet: is_outlet[i],
            }),
        forall|i: int|
            0 <= i < noise.len() ==> #[trigger] second[i] == (SiteParameters {
                erodibility: erodibility_of(noise[i], mountain_pct) as i32,
                is_outlet: is_outlet[i],
            }),
    ensures
        first == second,
{
    assert(first =~= second);
}

/// The length of a fault displacement along one axis: twice the direction
/// noise, times the magnitude of the magnitude noise, times twice
/// `MAX_FAULT_RADIUS`.
pub open spec fn fault_of(magnitude_noise: i32, direction_noise: i32) -> int {
    held_between(
        quot(
            (2 * direction_noise) * (magnitude(magnitude_noise as int) * (2 * MAX_FAULT_RADIUS)),
            ONE as int,
        ),
        i32::MIN as int,
        i32::MAX as int,
    )
}

/// The fault displacement of a site along one axis.
pub fn fault_offset(magnitude_noise: i32, direction_noise: i32) -> (offset: i32)
    ensures
        offset == fault_of(magnitude_noise, direction_noise),
{
    let size: i128 = if magnitude_noise < 0 {
        -(magnitude_noise as i128)
    } else {
        magnitude_noise as i128
    };
    let modulus: i128 = size * 70;
    let direction: i128 = 2 * (direction_noise as i128);
    assert(modulus == magnitude(magnitude_noise as int) * (2 * MAX_FAULT_RADIUS));
    assert(-(0x1_0000_0000 * (70 * 0x8000_0000)) <= direction * modulus <= 0x1_0000_0000 * (70
        * 0x8000_0000)) by (nonlinear_arith)
        requires
            -0x1_0000_0000 <= direction <= 0x1_0000_0000,
            0 <= modulus <= 70 * 0x8000_0000,
    ;
    let product: i128 = direction * modulus;
    let v: i128 = if product >= 0 {
        product / 65536
    } else {
        -((-product) / 65536)
    };
    if v < i32::MIN as i128 {
        i32::MIN
    } else if v > i32::MAX as i128 {
        i32::MAX
    } else {
        v as i32
    }
}

/// The scale at which the reef noise is sampled: from `MIN_REEF_SCALE` at no
/// noise up by 12.5 for each half of noise magnitude.
pub open spec fn reef_scale_of(noise: i32) -> int {
    held_between(
        magnitude(noise as int) * REEF_SCALE_SPAN_HALVES + MIN_REEF_SCALE,
        MIN_REEF_SCALE as int,
        i32::MAX as int,
    )
}

/// The scale at which the reef noise of a site is sampled.
pub fn reef_scale(noise: i32) -> (scale: i32)
    ensures
        scale == reef_scale_of(noise),
        scale >= MIN_REEF_SCALE,
{
    let size: i64 = if noise < 0 {
        -(noise as i64)
    } else {
        noise as i64
    };
    let v = size * REEF_SCALE_SPAN_HALVES + MIN_REEF_SCALE;
    if v > i32::MAX as i64 {
        i32::MAX
    } else {
        v as i32
    }
}

/// The length of a reef displacement: twice the noise magnitude, raised to
/// the power 3.5, times `MAX_REEF_RADIUS`, and never more than that radius.
/// The power is the cube times the square root, each rounded down.
pub open spec fn reef_modulus_of(noise: i32) -> int {
    let r = 2 * magnitude(noise as int);
    if r >= ONE {
        MAX_REEF_RADIUS * ONE
    } else {
        let cube = ((r * r) / (ONE as int) * r) / (ONE as int);
        let root = sqrt_of(r * ONE);
        MAX_REEF_RADIUS * ((cube * root) / (ONE as int))
    }
}

/// The length of the reef displacement of a site.
pub fn reef_modulus(noise: i32) -> (modulus: i32)
    ensures
        modulus == reef_modulus_of(noise),
        0 <= modulus <= MAX_REEF_RADIUS * ONE,
{
    let size: i64 = if noise < 0 {
        -(noise as i64)
    } else {
        noise as i64
    };
    let r: i64 = 2 * size;
    if r >= ONE {
        (MAX_REEF_RADIUS * ONE) as i32
    } else {
        assert(0 <= r * r <= 65535 * 65535) by (nonlinear_arith)
            requires
                0 <= r <= 65535,
        ;
        let square = (r * r) / ONE;
        assert(0 <= square * r <= 65535 * 65535) by (nonlinear_arith)
            requires
                0 <= r <= 65535,
                0 <= square <= 65535,
        ;
        let cube = (square * r) / ONE;
        let root = integer_sqrt((r * ONE) as u64) as i64;
        assert(root <= 65535) by (nonlinear_arith)
            requires
                0 <= root,
                root * root <= r * 65536,
                0 <= r <= 65535,
        ;
        assert(0 <= cube * root <= 65535 * 65535) by (nonlinear_arith)
            requires
                0 <= cube <= 65535,
                0 <= root <= 65535,
        ;
        let power = (cube * root) / ONE;
        (MAX_REEF_RADIUS * power) as i32
    }
}

/// The reef displacement along one axis: the direction noise times the
/// length.
pub open spec fn reef_of(direction_noise: i32, modulus: i32) -> int {
    held_between(quot(direction_noise * modulus, ONE as int), i32::MIN as int, i32::MAX as int)
}

/// The reef displacement of a site along one axis, for a length that
/// `reef_modulus` gave.
pub fn reef_offset(direction_noise: i32, modulus: i32) -> (offset: i32)
    ensures
        offset == reef_of(direction_noise, modulus),
{
    assert(-(0x8000_0000 * 0x8000_0000) <= direction_noise * modulus <= 0x8000_0000 * 0x8000_0000)
        by (nonlinear_arith)
        requires
            -0x8000_0000 <= direction_noise <= 0x8000_0000,
            -0x8000_0000 <= modulus <= 0x8000_0000,
    ;
    let v = quotient((direction_noise as i64) * (modulus as i64), ONE);
    if v < i32::MIN as i64 {
        i32::MIN
    } else if v > i32::MAX as i64 {
        i32::MAX
    } else {
        v as i32
    }
}

/// A coordinate moved by an offset, held within 32 bits.
pub open spec fn displaced(coordinate: i32, offset: i32) -> int {
    held_between(coordinate + offset, i32::MIN as int, i32::MAX as int)
}

/// A coordinate moved by an offset; see [`displaced`].
pub fn displace_axis(coordinate: i32, offset: i32) -> (moved: i32)
    ensures
        moved == displaced(coordinate, offset),
{
    let v = (coordinate as i64) + (offset as i64);
    if v < i32::MIN as i64 {
        i32::MIN
    } else if v > i32::MAX as i64 {
        i32::MAX
    } else {
        v as i32
    }
}

/// A site moved by a displacement. The fault displacement is applied first
/// and the reef displacement to what it gives.
pub fn displace(site: (i32, i32), offset: (i32, i32)) -> (moved: (i32, i32))
    ensures
        moved.0 == displaced(site.0, offset.0),
        moved.1 == displaced(site.1, offset.1),
{
    (displace_axis(site.0, offset.0), displace_axis(site.1, offset.1))
}

/// The fault displacement of a site: along each axis the length that
/// `fault_offset` gives for the magnitude noise and the direction noise of that
/// axis.
pub fn get_fault(magnitude_noise: i32, direction_x: i32, direction_y: i32) -> (fault: (i32, i32))
    ensures
        fault.0 == fault_of(magnitude_noise, direction_x),
        fault.1 == fault_of(magnitude_noise, direction_y),
{
    (fault_offset(magnitude_noise, direction_x), fault_offset(magnitude_noise, direction_y))
}

/// The site after its fault displacement.
pub fn apply_fault(site: (i32, i32), magnitude_noise: i32, direction_x: i32, direction_y: i32) -> (moved:
    (i32, i32))
    ensures
        moved.0 == displaced(site.0, fault_of(magnitude_noise, direction_x) as i32),
        moved.1 == displaced(site.1, fault_of(magnitude_noise, direction_y) as i32),
{
    displace(site, get_fault(magnitude_noise, direction_x, direction_y))
}

/// The reef displacement of a site: along each axis the direction noise of
/// that axis times the length that `reef_modulus` gives for the modulus noise.
pub fn get_reef(modulus_noise: i32, direction_x: i32, direction_y: i32) -> (reef: (i32, i32))
    ensures
        reef.0 == reef_of(direction_x, reef_modulus_of(modulus_noise) as i32),
        reef.1 == reef_of(direction_y, reef_modulus_of(modulus_noise) as i32),
{
    let modulus = reef_modulus(modulus_noise);
    (reef_offset(direction_x, modulus), reef_offset(direction_y, modulus))
}

/// The site after its reef displacement. It is applied to the site that the
/// fault has displaced already, and its noise is sampled there.
pub fn apply_reef(site: (i32, i32), modulus_noise: i32, direction_x: i32, direction_y: i32) -> (moved:
    (i32, i32))
    ensures
        moved.0 == displaced(site.0, reef_of(direction_x, reef_modulus_of(modulus_noise) as i32) as i32),
        moved.1 == displaced(site.1, reef_of(direction_y, reef_modulus_of(modulus_noise) as i32) as i32),
{
    displace(site, get_reef(modulus_noise, direction_x, direction_y))
}

/// Whether a site is a candidate ocean, from its plate noise and its
/// continent noise: its plate level lies below its continent level by more
/// than the share of sea.
pub fn site_is_candidate(plate_noise: i32, continent_noise: i32, sea_pct: i32) -> (ocean: bool)
    ensures
        ocean == candidate_ocean(
            affine(plate_noise as int, HALF as int, HALF as int) as i32,
            affine(continent_noise as int, SEVEN_TENTHS as int, HALF as int) as i32,
            sea_pct,
        ),
{
    is_candidate_ocean(plate_level(plate_noise), continent_level(continent_noise), sea_pct)
}

/// The share of sea at and below which every site is a candidate ocean,
/// whatever its noise between -1.0 and 1.0 is: -1.25 in fixed point.
pub const OPEN_SEA_SHARE: i32 = -81920;

/// The least step by which the share of sea is relaxed: 0.05 in fixed point,
/// rounded down.
pub const SEA_SHARE_STEP: i64 = 3276;

/// The share of sea to try after one under which no boundary site was a
/// candidate ocean: less by half its magnitude, and by `SEA_SHARE_STEP` at
/// least; held within 32 bits.
pub open spec fn relaxed_share(sea_pct: i32) -> int {
    let half = magnitude(sea_pct as int) / 2;
    held_between(
        sea_pct - if half > SEA_SHARE_STEP {
            half
        } else {
            SEA_SHARE_STEP as int
        },
        i32::MIN as int,
        i32::MAX as int,
    )
}

/// The share of sea to try next; see [`relaxed_share`]. It is below the share
/// given, unless that is the least there is.
pub fn relaxed_sea_share(sea_pct: i32) -> (next: i32)
    ensures
        next == relaxed_share(sea_pct),
        next < sea_pct || sea_pct == i32::MIN,
{
    let size: i64 = if sea_pct < 0 {
        -(sea_pct as i64)
    } else {
        sea_pct as i64
    };
    let half = size / 2;
    let step = if half > SEA_SHARE_STEP {
        half
    } else {
        SEA_SHARE_STEP
    };
    let v = sea_pct as i64 - step;
    if v < i32::MIN as i64 {
        i32::MIN
    } else {
        v as i32
    }
}

/// Under a share of sea of `OPEN_SEA_SHARE` or less, every site whose noise
/// lies between -1.0 and 1.0 is a candidate ocean. So relaxing the share ends
/// with a candidate on the boundary, if the boundary has a site.
pub proof fn lemma_open_sea(plate_noise: i32, continent_noise: i32, sea_pct: i32)
    requires
        -ONE <= plate_noise <= ONE,
        -ONE <= continent_noise <= ONE,
        sea_pct <= OPEN_SEA_SHARE,
    ensures
        candidate_ocean(
            affine(plate_noise as int, HALF as int, HALF as int) as i32,
            affine(continent_noise as int, SEVEN_TENTHS as int, HALF as int) as i32,
            sea_pct,
        ),
{
    let p = plate_noise as int;
    let c = continent_noise as int;
    assert(-(65536 * 32768) <= p * 32768 <= 65536 * 32768);
    assert(-(65536 * 45875) <= c * 45875 <= 65536 * 45875);
    assert(quot(p * 32768, 65536) <= 32768);
    assert(quot(c * 45875, 65536) >= -45875);
}

} // verus!
