//! Erosion at progressively higher resolutions.
//!
//! A pyramid erodes a square raster level by level. Incremental mode starts at
//! the base level and doubles the side after each level until the top level is
//! reached; singular mode works at the top level only. Between two levels the
//! caller adds high-frequency noise to the resampled raster: `advance` hands
//! the raster out and `resume` takes it back.

use vstd::prelude::*;
use crate::contrast::{stretch_contrast, stretched, DISCHARGE_LOWER, DISCHARGE_UPPER};
use crate::error::TerrainError;
use crate::flow::RASTER_MAX;
use crate::resample::{resample_square, resampled, Resampling, MAX_SIDE};
use crate::world::{
    has_dimensions, lemma_eroded_in_parts, lemma_eroded_wf, level_of_height, height_of_level,
    Terrain, World,
};

verus! {

/// The side of the raster that a pyramid starts from.
pub const BASE_LEVEL: usize = 512;

/// The side of the raster that a pyramid ends with.
pub const TOP_LEVEL: usize = 8192;

/// How many times the side doubles from the base level to the top level.
pub const DOUBLINGS: usize = 4;

/// 1.0 as the scale of erosion.
pub const UNIT_SCALE: u32 = 65536;

/// The spread of the noise that the caller adds between levels, in fixed
/// point: 1.5.
pub const NOISE_SIGMA: i64 = 98304;

/// The amplitude of that noise, in fixed point: 0.5.
pub const NOISE_AMPLITUDE: i64 = 32768;

/// The seed of that noise.
pub const NOISE_SEED: u64 = 284732;

/// How a pyramid reaches the top level.
#[derive(Clone, Copy, Debug, PartialEq, Eq, Structural)]
pub enum ErosionMode {
    /// Erode every level from the base level up.
    Incremental,
    /// Erode the top level alone.
    Singular,
}

/// The rasters of a finished pyramid, row by row.
pub struct ErodedMaps {
    pub side: usize,
    /// The eroded heights as raster levels.
    pub heights: Vec<u16>,
    /// The discharge as grey values, contrast stretched.
    pub discharge: Vec<u8>,
}

/// A pyramid at one of its levels, with the raster that the level starts from.
pub struct Pyramid {
    pub mode: ErosionMode,
    /// The side of the current level.
    pub side: usize,
    /// How many times the side still doubles.
    pub doublings_left: usize,
    /// How many times each level is eroded.
    pub cycles: u64,
    pub seed: u32,
    pub raster: Vec<u16>,
}

/// What a pyramid has come to after a level.
pub enum Progress {
    /// The next level waits for noise to be added to its raster.
    NeedsNoise(Pyramid),
    /// The top level is done.
    Finished(ErodedMaps),
}

/// The factor by which the side grows in `doublings` doublings.
pub open spec fn growth(doublings: int) -> int {
    if doublings <= 0 {
        1
    } else if doublings == 1 {
        2
    } else if doublings == 2 {
        4
    } else if doublings == 3 {
        8
    } else {
        16
    }
}

/// The raster with every level above `RASTER_MAX` held to it.
pub open spec fn held(raster: Seq<u16>) -> Seq<u16> {
    Seq::new(
        raster.len(),
        |i: int|
            if raster[i] > RASTER_MAX {
                RASTER_MAX
            } else {
                raster[i]
            },
    )
}

/// The terrain of a level after its erosion: `cycles` times `side` particles
/// at unit scale on the world of the raster.
pub open spec fn level_terrain(raster: Seq<u16>, side: usize, cycles: u64, seed: u32) -> Terrain {
    Terrain::initial(raster, side, side, seed).eroded((cycles * side) as nat, UNIT_SCALE)
}

/// The discharge raster of a terrain after the contrast stretch.
pub open spec fn stretched_shades(t: Terrain) -> Seq<u8> {
    Seq::new(
        t.shades().len(),
        |i: int| stretched(t.shades()[i], DISCHARGE_LOWER, DISCHARGE_UPPER),
    )
}

/// Without erosion a level gives back the raster it started from, levels above
/// `RASTER_MAX` held to it. So whichever way the top level's raster was made,
/// equal rasters end as equal heights.
pub proof fn lemma_idle_level_keeps_raster(raster: Seq<u16>, side: usize, seed: u32)
    ensures
        level_terrain(raster, side, 0, seed).levels() == held(raster),
{
    let t = level_terrain(raster, side, 0, seed);
    assert(t == Terrain::initial(raster, side, side, seed));
    assert forall|i: int| 0 <= i < raster.len() implies #[trigger] t.levels()[i] == held(raster)[i] by {
        assert(t.heights[i] == height_of_level(raster[i]));
    }
    assert(t.levels() =~= held(raster));
}

/// Without erosion, two pyramids at the top level that hold equal rasters end
/// with equal heights, whatever their modes and their seeds are.
pub proof fn lemma_idle_pyramids_agree(first: Pyramid, second: Pyramid)
    requires
        first.doublings_left == 0,
        second.doublings_left == 0,
        first.cycles == 0,
        second.cycles == 0,
        first.raster@ == second.raster@,
    ensures
        level_terrain(first.raster@, first.side, first.cycles, first.seed).levels() == level_terrain(
            second.raster@,
            second.side,
            second.cycles,
            second.seed,
        ).levels(),
{
    lemma_idle_level_keeps_raster(first.raster@, first.side, first.seed);
    lemma_idle_level_keeps_raster(second.raster@, second.side, second.seed);
}

/// The heights of a level are the same whenever its raster, side, number of
/// cycles and seed are the same, and they never leave the range of levels.
pub proof fn lemma_level_heights_in_range(raster: Seq<u16>, side: usize, cycles: u64, seed: u32)
    requires
        raster.len() == side * side,
    ensures
        level_terrain(raster, side, cycles, seed).wf(),
        level_terrain(raster, side, cycles, seed).width == side,
        level_terrain(raster, side, cycles, seed).height == side,
        level_terrain(raster, side, cycles, seed).levels().len() == raster.len(),
        forall|i: int|
            0 <= i < raster.len() ==> #[trigger] level_terrain(raster, side, cycles, seed).levels()[i]
                <= RASTER_MAX,
{
    let start = Terrain::initial(raster, side, side, seed);
    assert(start.wf());
    lemma_eroded_wf(start, (cycles * side) as nat, UNIT_SCALE);
    lemma_eroded_len(start, (cycles * side) as nat, UNIT_SCALE);
}

/// One doubling of the side leaves the top side as it was.
pub proof fn lemma_growth_halves(side: int, doublings: int)
    requires
        0 < doublings <= DOUBLINGS,
    ensures
        (2 * side) * growth(doublings - 1) == side * growth(doublings),
        growth(doublings) >= 2,
{
    assert((2 * side) * growth(doublings - 1) == side * growth(doublings)) by (nonlinear_arith)
        requires
            growth(doublings) == 2 * growth(doublings - 1),
    ;
}

/// Erosion keeps the number of cells.
pub proof fn lemma_eroded_len(t: Terrain, n: nat, scale: u32)
    requires
        t.wf(),
    ensures
        t.eroded(n, scale).heights.len() == t.heights.len(),
        t.eroded(n, scale).flux.len() == t.flux.len(),
{
    lemma_eroded_wf(t, n, scale);
}

/// Erodes one level: a world of the raster, rained on `cycles` times with
/// `side` particles at unit scale.
///
/// A raster whose length is not `side` squared is refused.
pub fn erode_level(raster: Vec<u16>, side: usize, cycles: u64, seed: u32) -> (result: Result<
    World,
    TerrainError,
>)
    ensures
        result is Ok <==> raster@.len() == side * side,
        result is Err ==> result->Err_0 == TerrainError::InvalidRasterDimensions,
        result is Ok ==> result->Ok_0.wf(),
        result is Ok ==> result->Ok_0@ == level_terrain(raster@, side, cycles, seed),
{
    let ghost start = Terrain::initial(raster@, side, side, seed);
    let mut world = match World::new(raster, side, side, seed) {
        Ok(world) => world,
        Err(e) => {
            return Err(e);
        },
    };
    let mut cycle: u64 = 0;
    while cycle < cycles
        invariant
            cycle <= cycles,
            world.wf(),
            world@ == start.eroded((cycle * side) as nat, UNIT_SCALE),
        decreases cycles - cycle,
    {
        proof {
            lemma_eroded_in_parts(start, (cycle * side) as nat, side as nat, UNIT_SCALE);
            assert((cycle + 1) * side == cycle * side + side) by (nonlinear_arith);
            assert(0 <= cycle * side) by (nonlinear_arith)
                requires
                    0 <= cycle,
                    0 <= side,
            ;
        }
        world.erode(side, UNIT_SCALE);
        cycle = cycle + 1;
    }
    Ok(world)
}

/// Erodes a raster of side `side` at its own resolution and gives back the
/// eroded heights as raster levels.
///
/// An empty raster for a side that is not zero is reported as missing. Any
/// other raster whose length is not `side` squared is refused.
pub fn erode_terrain_preview(raw_map: Vec<u16>, side: usize, cycles: u64, seed: u32) -> (result:
    Result<Vec<u16>, TerrainError>)
    ensures
        result == Err::<Vec<u16>, TerrainError>(TerrainError::MissingPrerequisiteRaster) <==> (
        raw_map@.len() == 0 && side > 0),
        result == Err::<Vec<u16>, TerrainError>(TerrainError::InvalidRasterDimensions) <==> (
        raw_map@.len() != 0 && raw_map@.len() != side * side),
        result is Ok <==> raw_map@.len() == side * side,
        result is Ok ==> result->Ok_0@ == level_terrain(raw_map@, side, cycles, seed).levels(),
        result is Ok ==> forall|i: int|
            0 <= i < result->Ok_0@.len() ==> #[trigger] result->Ok_0@[i] <= RASTER_MAX,
{
    assert(side > 0 ==> side * side > 0) by (nonlinear_arith);
    if raw_map.len() == 0 && side > 0 {
        return Err(TerrainError::MissingPrerequisiteRaster);
    }
    match erode_level(raw_map, side, cycles, seed) {
        Ok(world) => Ok(world.heights()),
        Err(e) => Err(e),
    }
}

/// Reads the rasters of an eroded world: its heights as levels, and its
/// discharge as grey values stretched between `DISCHARGE_LOWER` and
/// `DISCHARGE_UPPER`.
///
/// A world with a side above `MAX_SIDE` is refused.
pub fn read_maps(world: &World) -> (result: Result<ErodedMaps, TerrainError>)
    requires
        world.wf(),
    ensures
        result is Ok <==> (world@.width <= MAX_SIDE && world@.height <= MAX_SIDE),
        result is Err ==> result->Err_0 == TerrainError::InvalidRasterDimensions,
        result is Ok ==> result->Ok_0.side == world@.width,
        result is Ok ==> result->Ok_0.heights@ == world@.levels(),
        result is Ok ==> result->Ok_0.discharge@ == stretched_shades(world@),
        result is Ok ==> forall|i: int|
            0 <= i < result->Ok_0.heights@.len() ==> #[trigger] result->Ok_0.heights@[i] <= RASTER_MAX,
        result is Ok ==> forall|i: int|
            0 <= i < result->Ok_0.discharge@.len() ==> 0 <= #[trigger] result->Ok_0.discharge@[i]
                <= 255,
{
    let width = world.width();
    let height = world.height();
    if width > MAX_SIDE || height > MAX_SIDE {
        return Err(TerrainError::InvalidRasterDimensions);
    }
    let heights = world.heights();
    let shades = world.discharge_raster();
    let discharge = match stretch_contrast(
        shades,
        width as u32,
        height as u32,
        DISCHARGE_LOWER,
        DISCHARGE_UPPER,
    ) {
        Ok(discharge) => discharge,
        Err(e) => {
            return Err(e);
        },
    };
    assert(discharge@ =~= stretched_shades(world@));
    Ok(ErodedMaps { side: width, heights, discharge })
}

impl Pyramid {
    /// The current raster fits the current side, and the top side is within
    /// `MAX_SIDE`. Singular mode is at the top level from the start.
    pub open spec fn wf(&self) -> bool {
        self.level_ok() && self.raster@.len() == self.side * self.side
    }

    /// The side is not zero and the top side is within `MAX_SIDE`. Singular
    /// mode is at the top level from the start.
    pub open spec fn level_ok(&self) -> bool {
        &&& self.side > 0
        &&& self.doublings_left <= DOUBLINGS
        &&& self.side * growth(self.doublings_left as int) <= MAX_SIDE
        &&& self.mode == ErosionMode::Singular ==> self.doublings_left == 0
    }

    /// Whether the level of the pyramid is in range; see [`Pyramid::level_ok`].
    pub fn level_fits(&self) -> (fits: bool)
        ensures
            fits == self.level_ok(),
    {
        let ghost wide = growth(self.doublings_left as int);
        assert(self.side * wide >= self.side) by (nonlinear_arith)
            requires
                0 <= self.side,
                1 <= wide,
        ;
        if self.side == 0 || self.side > MAX_SIDE || self.doublings_left > DOUBLINGS {
            return false;
        }
        let factor: usize = if self.doublings_left == 0 {
            1
        } else if self.doublings_left == 1 {
            2
        } else if self.doublings_left == 2 {
            4
        } else if self.doublings_left == 3 {
            8
        } else {
            16
        };
        assert(factor == growth(self.doublings_left as int));
        assert(self.side * factor <= MAX_SIDE * 16) by (nonlinear_arith)
            requires
                0 < self.side <= MAX_SIDE,
                1 <= factor <= 16,
        ;
        assert(self.side * factor >= self.side) by (nonlinear_arith)
            requires
                0 < self.side,
                1 <= factor,
        ;
        if self.side * factor > MAX_SIDE {
            return false;
        }
        match self.mode {
            ErosionMode::Singular => self.doublings_left == 0,
            ErosionMode::Incremental => true,
        }
    }

    /// Whether the raster of the pyramid fits its level, and the level is in
    /// range; see [`Pyramid::wf`].
    pub fn fits(&self) -> (fits: bool)
        ensures
            fits == self.wf(),
    {
        self.level_fits() && has_dimensions(self.raster.len(), self.side, self.side)
    }

    /// The side of the top level.
    pub open spec fn top_side(&self) -> int {
        self.side * growth(self.doublings_left as int)
    }

    /// A pyramid from the base level of 512 to the top level of 8192.
    ///
    /// Incremental mode starts from `raw_base`. Singular mode starts from
    /// `last_full`, the raster of the top level that an earlier run produced,
    /// if there is one, and else from `raw_base` resampled to the top level
    /// with the Catmull-Rom kernel.
    pub fn start(
        mode: ErosionMode,
        raw_base: Vec<u16>,
        last_full: Vec<u16>,
        cycles: u64,
        seed: u32,
    ) -> (result: Result<Pyramid, TerrainError>)
        ensures
            result == Err::<Pyramid, TerrainError>(TerrainError::MissingPrerequisiteRaster) <==> start_lacks(
                mode,
                raw_base@,
                last_full@,
            ),
            result == Err::<Pyramid, TerrainError>(TerrainError::InvalidRasterDimensions) <==> start_misfits(
                BASE_LEVEL,
                mode,
                raw_base@,
                last_full@,
            ),
            result is Ok <==> !start_lacks(mode, raw_base@, last_full@) && !start_misfits(
                BASE_LEVEL,
                mode,
                raw_base@,
                last_full@,
            ),
            result is Ok ==> started(result->Ok_0, BASE_LEVEL, mode, raw_base@, last_full@, cycles, seed),
    {
        Pyramid::start_at(BASE_LEVEL, mode, raw_base, last_full, cycles, seed)
    }

    /// A pyramid from a base level of side `base` to a top level of sixteen
    /// times that side.
    ///
    /// The rasters are used as in `start`. A `base` of zero or above 1024, and
    /// a raster that does not fit its level, are refused.
    pub fn start_at(
        base: usize,
        mode: ErosionMode,
        raw_base: Vec<u16>,
        last_full: Vec<u16>,
        cycles: u64,
        seed: u32,
    ) -> (result: Result<Pyramid, TerrainError>)
        ensures
            result == Err::<Pyramid, TerrainError>(TerrainError::MissingPrerequisiteRaster) <==> start_lacks(
                mode,
                raw_base@,
                last_full@,
            ),
            result == Err::<Pyramid, TerrainError>(TerrainError::InvalidRasterDimensions) <==> start_misfits(
                base,
                mode,
                raw_base@,
                last_full@,
            ),
            result is Ok <==> !start_lacks(mode, raw_base@, last_full@) && !start_misfits(
                base,
                mode,
                raw_base@,
                last_full@,
            ),
            result is Ok ==> started(result->Ok_0, base, mode, raw_base@, last_full@, cycles, seed),
    {
        let uses_full = mode == ErosionMode::Singular && last_full.len() > 0;
        if !uses_full && raw_base.len() == 0 {
            return Err(TerrainError::MissingPrerequisiteRaster);
        }
        if base == 0 || base > 1024 {
            return Err(TerrainError::InvalidRasterDimensions);
        }
        let top = base * 16;
        if uses_full {
            if !has_dimensions(last_full.len(), top, top) {
                return Err(TerrainError::InvalidRasterDimensions);
            }
            return Ok(
                Pyramid { mode, side: top, doublings_left: 0, cycles, seed, raster: last_full },
            );
        }
        if !has_dimensions(raw_base.len(), base, base) {
            return Err(TerrainError::InvalidRasterDimensions);
        }
        match mode {
            ErosionMode::Incremental => Ok(
                Pyramid { mode, side: base, doublings_left: DOUBLINGS, cycles, seed, raster: raw_base },
            ),
            ErosionMode::Singular => {
                match resample_square(&raw_base, base, top, Resampling::CatmullRom) {
                    Ok(raster) => Ok(
                        Pyramid { mode, side: top, doublings_left: 0, cycles, seed, raster },
                    ),
                    Err(e) => Err(e),
                }
            },
        }
    }

    /// Erodes the current level. At the top level the pyramid is finished and
    /// its rasters are read. Below it, the eroded heights are resampled to
    /// twice the side with the Lanczos kernel, and the pyramid of the next
    /// level is handed out for noise to be added to its raster.
    pub fn advance(self) -> (progress: Progress)
        requires
            self.wf(),
        ensures
            progress is Finished <==> self.doublings_left == 0,
            progress is Finished ==> ({
                let maps = progress->Finished_0;
                let t = level_terrain(self.raster@, self.side, self.cycles, self.seed);
                &&& maps.side == self.side
                &&& maps.heights@ == t.levels()
                &&& maps.discharge@ == stretched_shades(t)
                &&& maps.heights@.len() == self.side * self.side
                &&& maps.discharge@.len() == self.side * self.side
            }),
            progress is NeedsNoise ==> ({
                let next = progress->NeedsNoise_0;
                &&& next.wf()
                &&& next.mode == self.mode
                &&& next.side == 2 * self.side
                &&& next.doublings_left == self.doublings_left - 1
                &&& next.cycles == self.cycles
                &&& next.seed == self.seed
                &&& next.top_side() == self.top_side()
                &&& next.raster@ == resampled(
                    level_terrain(self.raster@, self.side, self.cycles, self.seed).levels(),
                    self.side as u32,
                    self.side as u32,
                    (2 * self.side) as u32,
                    (2 * self.side) as u32,
                    Resampling::Lanczos3,
                )
            }),
    {
        let mode = self.mode;
        let side = self.side;
        let doublings_left = self.doublings_left;
        let cycles = self.cycles;
        let seed = self.seed;
        let raster = self.raster;
        proof {
            lemma_level_heights_in_range(raster@, side, cycles, seed);
            if doublings_left > 0 {
                lemma_growth_halves(side as int, doublings_left as int);
            }
        }
        let world = match erode_level(raster, side, cycles, seed) {
            Ok(world) => world,
            Err(_) => vstd::pervasive::unreached(),
        };
        if doublings_left == 0 {
            match read_maps(&world) {
                Ok(maps) => Progress::Finished(maps),
                Err(_) => vstd::pervasive::unreached(),
            }
        } else {
            let levels = world.heights();
            match resample_square(&levels, side, 2 * side, Resampling::Lanczos3) {
                Ok(wider) => Progress::NeedsNoise(
                    Pyramid {
                        mode,
                        side: 2 * side,
                        doublings_left: doublings_left - 1,
                        cycles,
                        seed,
                        raster: wider,
                    },
                ),
                Err(_) => vstd::pervasive::unreached(),
            }
        }
    }

    /// Takes back the raster of the current level after noise was added to it.
    /// The raster that the pyramid held until now is dropped; it may have been
    /// taken out before.
    ///
    /// A raster whose length is not the side squared is refused.
    pub fn resume(self, noised: Vec<u16>) -> (result: Result<Pyramid, TerrainError>)
        requires
            self.level_ok(),
        ensures
            result is Ok <==> noised@.len() == self.side * self.side,
            result is Err ==> result->Err_0 == TerrainError::InvalidRasterDimensions,
            result is Ok ==> ({
                let next = result->Ok_0;
                &&& next.wf()
                &&& next.raster@ == noised@
                &&& next.mode == self.mode
                &&& next.side == self.side
                &&& next.doublings_left == self.doublings_left
                &&& next.cycles == self.cycles
                &&& next.seed == self.seed
            }),
    {
        if !has_dimensions(noised.len(), self.side, self.side) {
            return Err(TerrainError::InvalidRasterDimensions);
        }
        Ok(
            Pyramid {
                mode: self.mode,
                side: self.side,
                doublings_left: self.doublings_left,
                cycles: self.cycles,
                seed: self.seed,
                raster: noised,
            },
        )
    }
}

/// Singular mode takes the full raster if there is one.
pub open spec fn uses_full(mode: ErosionMode, last_full: Seq<u16>) -> bool {
    mode == ErosionMode::Singular && last_full.len() > 0
}

/// The raster that the pyramid would start from is empty.
pub open spec fn start_lacks(mode: ErosionMode, raw_base: Seq<u16>, last_full: Seq<u16>) -> bool {
    !uses_full(mode, last_full) && raw_base.len() == 0
}

/// The raster that the pyramid would start from is there, and the base side
/// is out of range or the raster does not fit its level.
pub open spec fn start_misfits(
    base: usize,
    mode: ErosionMode,
    raw_base: Seq<u16>,
    last_full: Seq<u16>,
) -> bool {
    !start_lacks(mode, raw_base, last_full) && (base == 0 || base > 1024 || if uses_full(
        mode,
        last_full,
    ) {
        last_full.len() != (base * 16) * (base * 16)
    } else {
        raw_base.len() != base * base
    })
}

/// `p` is the pyramid that starts from the given rasters.
pub open spec fn started(
    p: Pyramid,
    base: usize,
    mode: ErosionMode,
    raw_base: Seq<u16>,
    last_full: Seq<u16>,
    cycles: u64,
    seed: u32,
) -> bool {
    &&& p.wf()
    &&& p.mode == mode
    &&& p.cycles == cycles
    &&& p.seed == seed
    &&& p.top_side() == base * 16
    &&& mode == ErosionMode::Incremental ==> p.side == base && p.doublings_left == DOUBLINGS
        && p.raster@ == raw_base
    &&& mode == ErosionMode::Singular ==> p.side == base * 16 && p.doublings_left == 0
    &&& uses_full(mode, last_full) ==> p.raster@ == last_full
    &&& mode == ErosionMode::Singular && !uses_full(mode, last_full) ==> p.raster@ == resampled(
        raw_base,
        base as u32,
        base as u32,
        (base * 16) as u32,
        (base * 16) as u32,
        Resampling::CatmullRom,
    )
}

} // verus!
