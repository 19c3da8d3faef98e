//! Particle-based hydraulic erosion on a dense height grid.
//!
//! A `World` holds the heights of a grid, the flow that has passed through
//! each cell and the state of its random generator. `erode` rains particles
//! on it one after the other, so that equal worlds erode equally.

use vstd::prelude::*;
use crate::error::TerrainError;
use crate::fixed::ONE;
use crate::flow::{
    accelerate, accumulate_flux, add_flux, advance_random, capacity, carrying_capacity,
    discharge_level, discharge_of, evaporated, exchange, exchange_sediment, lemma_capacity_bound,
    lemma_exchange_bound, lemma_tilt_bound, lemma_blend_bound, magnitude, next_random, blend,
    next_velocity, slope, speed_of, surface, surface_height, tilt, EVAPORATION, FLUX_CAP,
    HEIGHT_MAX, HEIGHT_UNIT, MIN_VOLUME, RASTER_MAX, SEDIMENT_MAX,
};

verus! {

/// A drop of water on its way down the terrain.
#[derive(Clone, Copy, Debug)]
pub struct Particle {
    /// The column of the cell whose corner lies up and left of the particle.
    pub cx: usize,
    /// The row of that cell.
    pub cy: usize,
    /// How far into the cell the particle is, from 0 to below `ONE`.
    pub fx: i64,
    pub fy: i64,
    /// Cells per step, at most `ONE` either way.
    pub vx: i64,
    pub vy: i64,
    /// The water left, from `MIN_VOLUME` to `ONE`.
    pub volume: i64,
    /// The sediment carried, in height units.
    pub sediment: i64,
}

impl Particle {
    /// Every quantity of the particle is within its range.
    pub open spec fn wf(&self) -> bool {
        &&& 0 <= self.fx < ONE
        &&& 0 <= self.fy < ONE
        &&& -ONE <= self.vx <= ONE
        &&& -ONE <= self.vy <= ONE
        &&& MIN_VOLUME <= self.volume <= ONE
        &&& 0 <= self.sediment <= SEDIMENT_MAX
    }
}

/// What a world holds, as plain sequences in row-major order.
pub struct Terrain {
    pub width: usize,
    pub height: usize,
    pub heights: Seq<u32>,
    pub flux: Seq<u64>,
    pub rng: u64,
}

/// The cell that a coordinate lies in after it has moved to `n` within or just
/// outside cell `c`.
pub open spec fn shifted_cell(c: int, n: int) -> int {
    if n < 0 {
        c - 1
    } else if n >= ONE {
        c + 1
    } else {
        c
    }
}

/// How far into its new cell a coordinate lies after it has moved to `n`.
pub open spec fn shifted_fraction(n: int) -> int {
    if n < 0 {
        n + ONE
    } else if n >= ONE {
        n - ONE
    } else {
        n
    }
}

/// The height that a raster level stands for, levels above `RASTER_MAX` held to it.
pub open spec fn height_of_level(level: u16) -> u32 {
    if level > RASTER_MAX {
        HEIGHT_MAX
    } else {
        (level * HEIGHT_UNIT) as u32
    }
}

/// The raster level of a height.
pub open spec fn level_of_height(h: u32) -> u16 {
    (h / HEIGHT_UNIT) as u16
}

/// The grey value of a discharge: 0 maps to 127 and `ONE` would map to 255.
pub open spec fn shade_of_discharge(level: int) -> u8 {
    ((level + 65536) * 255 / 131072) as u8
}

impl Terrain {
    /// Every cell has a height within range and a flow within its cap.
    pub open spec fn wf(&self) -> bool {
        &&& self.heights.len() == self.width * self.height
        &&& self.flux.len() == self.width * self.height
        &&& forall|i: int| 0 <= i < self.heights.len() ==> #[trigger] self.heights[i] <= HEIGHT_MAX
        &&& forall|i: int| 0 <= i < self.flux.len() ==> #[trigger] self.flux[i] <= FLUX_CAP
    }

    /// The terrain of a fresh world.
    pub open spec fn initial(raster: Seq<u16>, width: usize, height: usize, seed: u32) -> Terrain {
        Terrain {
            width,
            height,
            heights: Seq::new(raster.len(), |i: int| height_of_level(raster[i])),
            flux: Seq::new(raster.len(), |i: int| 0u64),
            rng: seed as u64,
        }
    }

    /// The heights as raster levels.
    pub open spec fn levels(&self) -> Seq<u16> {
        Seq::new(self.heights.len(), |i: int| level_of_height(self.heights[i]))
    }

    /// The discharge of every cell as a grey value.
    pub open spec fn shades(&self) -> Seq<u8> {
        Seq::new(self.flux.len(), |i: int| shade_of_discharge(discharge_level(self.flux[i] as int)))
    }

    /// The particle's cell and the three after it are cells of the grid.
    pub open spec fn holds(&self, cx: int, cy: int) -> bool {
        0 <= cx && cx + 1 < self.width && 0 <= cy && cy + 1 < self.height
    }

    /// The index of the cell in column `cx` and row `cy`.
    pub open spec fn index(&self, cx: int, cy: int) -> int {
        cy * self.width + cx
    }

    /// The height of the cell in column `cx` and row `cy`.
    pub open spec fn height_at(&self, cx: int, cy: int) -> int {
        self.heights[self.index(cx, cy)] as int
    }

    /// The bilinear height at `(fx, fy)` inside the cell `(cx, cy)`.
    pub open spec fn surface_at(&self, cx: int, cy: int, fx: int, fy: int) -> int {
        surface(
            self.height_at(cx, cy),
            self.height_at(cx + 1, cy),
            self.height_at(cx, cy + 1),
            self.height_at(cx + 1, cy + 1),
            fx,
            fy,
        )
    }

    /// The velocity of the particle after friction and the pull of the slope
    /// at its place.
    pub open spec fn pulled(self, p: Particle) -> (int, int) {
        let cx = p.cx as int;
        let cy = p.cy as int;
        let h00 = self.height_at(cx, cy);
        let h10 = self.height_at(cx + 1, cy);
        let h01 = self.height_at(cx, cy + 1);
        let h11 = self.height_at(cx + 1, cy + 1);
        (
            next_velocity(p.vx as int, tilt(h10 - h00, h11 - h01, p.fy as int)),
            next_velocity(p.vy as int, tilt(h01 - h00, h11 - h10, p.fx as int)),
        )
    }

    /// The terrain after the cell of the particle has counted its water.
    pub open spec fn wetted(self, p: Particle) -> Terrain {
        let at = self.index(p.cx as int, p.cy as int);
        Terrain {
            flux: self.flux.update(at, add_flux(self.flux[at] as int, p.volume as int) as u64),
            ..self
        }
    }

    /// The terrain with the height of one cell replaced.
    pub open spec fn raised(self, cx: int, cy: int, h: int) -> Terrain {
        Terrain { heights: self.heights.update(self.index(cx, cy), h as u32), ..self }
    }

    /// How far the surface falls from the place of `p` to the place of `q`;
    /// 0 if it does not fall.
    pub open spec fn descent(self, p: Particle, q: Particle) -> int {
        let here = self.surface_at(p.cx as int, p.cy as int, p.fx as int, p.fy as int);
        let there = self.surface_at(q.cx as int, q.cy as int, q.fx as int, q.fy as int);
        if here > there {
            here - there
        } else {
            0
        }
    }

    /// One step of a particle: it is pulled down the slope and moves, its cell
    /// counts the water, and sediment is taken from or laid on the cell it
    /// left. The particle goes on unless it has left the grid, dried up or
    /// come to rest.
    #[verifier::opaque]
    pub open spec fn step(self, p: Particle, scale: u32) -> (Terrain, Option<Particle>) {
        let v = self.pulled(p);
        let ncx = shifted_cell(p.cx as int, p.fx + v.0);
        let ncy = shifted_cell(p.cy as int, p.fy + v.1);
        if !self.holds(ncx, ncy) {
            (self.wetted(p), None)
        } else {
            let q = Particle {
                cx: ncx as usize,
                cy: ncy as usize,
                fx: shifted_fraction(p.fx + v.0) as i64,
                fy: shifted_fraction(p.fy + v.1) as i64,
                vx: v.0 as i64,
                vy: v.1 as i64,
                volume: p.volume,
                sediment: p.sediment,
            };
            let cap = capacity(self.descent(p, q), magnitude(v.0) + magnitude(v.1), p.volume as int);
            let after = exchange(
                self.height_at(p.cx as int, p.cy as int),
                p.sediment as int,
                cap,
                scale as int,
            );
            let next = Particle {
                volume: evaporated(p.volume as int) as i64,
                sediment: after.1 as i64,
                ..q
            };
            (
                self.wetted(p).raised(p.cx as int, p.cy as int, after.0),
                if next.volume >= MIN_VOLUME && (next.vx != 0 || next.vy != 0) {
                    Some(next)
                } else {
                    None
                },
            )
        }
    }

    /// The terrain after a particle has run its course.
    pub open spec fn run(self, p: Particle, scale: u32) -> Terrain
        decreases p.volume,
    {
        if self.wf() && p.wf() && self.holds(p.cx as int, p.cy as int) {
            let (after, next) = self.step(p, scale);
            match next {
                Some(q) => if 0 <= q.volume < p.volume {
                    after.run(q, scale)
                } else {
                    after
                },
                None => after,
            }
        } else {
            self
        }
    }

    /// The particle that the generator's state places: at rest in the middle
    /// of a cell, with all its water and no sediment.
    pub open spec fn spawn(&self) -> Particle {
        let cell = (self.rng / 65536) as int % (self.width * self.height);
        Particle {
            cx: (cell % (self.width as int)) as usize,
            cy: (cell / (self.width as int)) as usize,
            fx: 32768,
            fy: 32768,
            vx: 0,
            vy: 0,
            volume: ONE,
            sediment: 0,
        }
    }

    /// The terrain after one more particle: the generator steps, places the
    /// particle, and the particle runs.
    #[verifier::opaque]
    pub open spec fn rain(self, scale: u32) -> Terrain {
        let seeded = Terrain { rng: next_random(self.rng), ..self };
        if self.width * self.height > 0 {
            seeded.run(seeded.spawn(), scale)
        } else {
            seeded
        }
    }

    /// The terrain after `n` particles.
    pub open spec fn eroded(self, n: nat, scale: u32) -> Terrain
        decreases n,
    {
        if n == 0 {
            self
        } else {
            self.eroded((n - 1) as nat, scale).rain(scale)
        }
    }
}

/// A cell of the grid has an index within the buffer.
pub proof fn lemma_index_in_range(width: int, height: int, cx: int, cy: int)
    requires
        0 <= cx < width,
        0 <= cy < height,
    ensures
        0 <= cy * width + cx < width * height,
        0 <= cy * width,
        (cy + 1) * width == cy * width + width,
{
    assert((cy + 1) * width == cy * width + width) by (nonlinear_arith);
    assert(cy * width + width <= height * width) by (nonlinear_arith)
        requires
            0 <= cy < height,
            0 <= width,
    ;
    assert(0 <= cy * width) by (nonlinear_arith)
        requires
            0 <= cy,
            0 <= width,
    ;
    assert(height * width == width * height) by (nonlinear_arith);
}

/// An index within the buffer is the index of a cell of the grid.
pub proof fn lemma_cell_of_index(width: int, height: int, cell: int)
    requires
        0 < width,
        0 <= cell < width * height,
    ensures
        0 <= cell % width < width,
        0 <= cell / width < height,
{
    assert(0 <= cell / width < height) by (nonlinear_arith)
        requires
            0 < width,
            0 <= cell < width * height,
    ;
}

/// The four corners of a cell of the grid have indices within the buffer, a
/// row apart.
pub proof fn lemma_corners_in_range(t: Terrain, cx: int, cy: int)
    requires
        t.wf(),
        t.holds(cx, cy),
    ensures
        0 <= t.index(cx, cy),
        t.index(cx + 1, cy) == t.index(cx, cy) + 1,
        t.index(cx, cy + 1) == t.index(cx, cy) + t.width,
        t.index(cx + 1, cy + 1) == t.index(cx, cy) + t.width + 1,
        t.index(cx + 1, cy + 1) < t.heights.len(),
        0 <= t.height_at(cx, cy) <= HEIGHT_MAX,
        0 <= t.height_at(cx + 1, cy) <= HEIGHT_MAX,
        0 <= t.height_at(cx, cy + 1) <= HEIGHT_MAX,
        0 <= t.height_at(cx + 1, cy + 1) <= HEIGHT_MAX,
{
    let w = t.width as int;
    let h = t.height as int;
    lemma_index_in_range(w, h, cx, cy);
    lemma_index_in_range(w, h, cx + 1, cy + 1);
    assert(t.heights[t.index(cx, cy)] <= HEIGHT_MAX);
    assert(t.heights[t.index(cx, cy) + 1] <= HEIGHT_MAX);
    assert(t.heights[t.index(cx, cy) + w] <= HEIGHT_MAX);
    assert(t.heights[t.index(cx, cy) + w + 1] <= HEIGHT_MAX);
}

/// The pull of the slope leaves the velocity within one cell per step.
pub proof fn lemma_pulled_bound(t: Terrain, p: Particle)
    requires
        t.wf(),
        p.wf(),
        t.holds(p.cx as int, p.cy as int),
    ensures
        -ONE <= t.pulled(p).0 <= ONE,
        -ONE <= t.pulled(p).1 <= ONE,
{
    let cx = p.cx as int;
    let cy = p.cy as int;
    lemma_corners_in_range(t, cx, cy);
    let h00 = t.height_at(cx, cy);
    let h10 = t.height_at(cx + 1, cy);
    let h01 = t.height_at(cx, cy + 1);
    let h11 = t.height_at(cx + 1, cy + 1);
    lemma_tilt_bound(h10 - h00, h11 - h01, p.fy as int, HEIGHT_MAX as int);
    lemma_tilt_bound(h01 - h00, h11 - h10, p.fx as int, HEIGHT_MAX as int);
}

/// Counting the water of a particle keeps the terrain within range.
pub proof fn lemma_wetted_wf(t: Terrain, p: Particle)
    requires
        t.wf(),
        p.wf(),
        t.holds(p.cx as int, p.cy as int),
    ensures
        t.wetted(p).wf(),
        t.wetted(p).heights == t.heights,
        t.wetted(p).width == t.width,
        t.wetted(p).height == t.height,
        t.wetted(p).rng == t.rng,
{
    lemma_corners_in_range(t, p.cx as int, p.cy as int);
    let at = t.index(p.cx as int, p.cy as int);
    let wet = t.wetted(p).flux;
    assert forall|i: int| 0 <= i < wet.len() implies #[trigger] wet[i] <= FLUX_CAP by {
        if i != at {
            assert(wet[i] == t.flux[i]);
        }
    }
}

/// Replacing the height of a cell by one within range keeps the terrain
/// within range.
pub proof fn lemma_raised_wf(t: Terrain, cx: int, cy: int, h: int)
    requires
        t.wf(),
        t.holds(cx, cy),
        0 <= h <= HEIGHT_MAX,
    ensures
        t.raised(cx, cy, h).wf(),
        t.raised(cx, cy, h).flux == t.flux,
        t.raised(cx, cy, h).width == t.width,
        t.raised(cx, cy, h).height == t.height,
        t.raised(cx, cy, h).rng == t.rng,
{
    lemma_corners_in_range(t, cx, cy);
    let at = t.index(cx, cy);
    let heights = t.raised(cx, cy, h).heights;
    assert forall|i: int| 0 <= i < heights.len() implies #[trigger] heights[i] <= HEIGHT_MAX by {
        if i != at {
            assert(heights[i] == t.heights[i]);
        }
    }
}

/// The bilinear height inside a cell of the grid is within range.
pub proof fn lemma_surface_bound(t: Terrain, cx: int, cy: int, fx: int, fy: int)
    requires
        t.wf(),
        t.holds(cx, cy),
        0 <= fx <= ONE,
        0 <= fy <= ONE,
    ensures
        0 <= t.surface_at(cx, cy, fx, fy) <= HEIGHT_MAX,
{
    lemma_corners_in_range(t, cx, cy);
    let h00 = t.height_at(cx, cy);
    let h10 = t.height_at(cx + 1, cy);
    let h01 = t.height_at(cx, cy + 1);
    let h11 = t.height_at(cx + 1, cy + 1);
    lemma_blend_bound(h00, h10, fx, HEIGHT_MAX as int);
    lemma_blend_bound(h01, h11, fx, HEIGHT_MAX as int);
    lemma_blend_bound(blend(h00, h10, fx), blend(h01, h11, fx), fy, HEIGHT_MAX as int);
}

/// A step keeps the terrain and the particle within their ranges, and the
/// particle that goes on has less water than before.
pub proof fn lemma_step_wf(t: Terrain, p: Particle, scale: u32)
    requires
        t.wf(),
        p.wf(),
        t.holds(p.cx as int, p.cy as int),
    ensures
        t.step(p, scale).0.wf(),
        t.step(p, scale).0.width == t.width,
        t.step(p, scale).0.height == t.height,
        t.step(p, scale).0.rng == t.rng,
        t.step(p, scale).1 is Some ==> ({
            let q = t.step(p, scale).1->Some_0;
            q.wf() && t.holds(q.cx as int, q.cy as int) && q.volume < p.volume
        }),
{
    reveal(Terrain::step);
    lemma_pulled_bound(t, p);
    lemma_wetted_wf(t, p);
    lemma_corners_in_range(t, p.cx as int, p.cy as int);
    let v = t.pulled(p);
    let ncx = shifted_cell(p.cx as int, p.fx + v.0);
    let ncy = shifted_cell(p.cy as int, p.fy + v.1);
    if t.holds(ncx, ncy) {
        let q = Particle {
            cx: ncx as usize,
            cy: ncy as usize,
            fx: shifted_fraction(p.fx + v.0) as i64,
            fy: shifted_fraction(p.fy + v.1) as i64,
            vx: v.0 as i64,
            vy: v.1 as i64,
            volume: p.volume,
            sediment: p.sediment,
        };
        lemma_surface_bound(t, p.cx as int, p.cy as int, p.fx as int, p.fy as int);
        lemma_surface_bound(t, ncx, ncy, q.fx as int, q.fy as int);
        let drop = t.descent(p, q);
        let speed = magnitude(v.0) + magnitude(v.1);
        lemma_capacity_bound(drop, speed, p.volume as int);
        let cap = capacity(drop, speed, p.volume as int);
        let h = t.height_at(p.cx as int, p.cy as int);
        lemma_exchange_bound(h, p.sediment as int, cap, scale as int);
        let after = exchange(h, p.sediment as int, cap, scale as int);
        lemma_raised_wf(t.wetted(p), p.cx as int, p.cy as int, after.0);
    }
}

/// A particle's whole course keeps every height and flow within range.
pub proof fn lemma_run_wf(t: Terrain, p: Particle, scale: u32)
    requires
        t.wf(),
    ensures
        t.run(p, scale).wf(),
        t.run(p, scale).width == t.width,
        t.run(p, scale).height == t.height,
        t.run(p, scale).rng == t.rng,
    decreases p.volume,
{
    if t.wf() && p.wf() && t.holds(p.cx as int, p.cy as int) {
        lemma_step_wf(t, p, scale);
        let (after, next) = t.step(p, scale);
        match next {
            Some(q) => {
                if 0 <= q.volume < p.volume {
                    lemma_run_wf(after, q, scale);
                }
            },
            None => {},
        }
    }
}

/// One more particle keeps every height and flow within range.
pub proof fn lemma_rain_wf(t: Terrain, scale: u32)
    requires
        t.wf(),
    ensures
        t.rain(scale).wf(),
        t.rain(scale).width == t.width,
        t.rain(scale).height == t.height,
{
    reveal(Terrain::rain);
    let seeded = Terrain { rng: next_random(t.rng), ..t };
    assert(seeded.wf());
    if t.width * t.height > 0 {
        lemma_run_wf(seeded, seeded.spawn(), scale);
    }
}

/// However many particles fall, every height stays between 0 and
/// `HEIGHT_MAX` and the grid keeps its dimensions.
pub proof fn lemma_eroded_wf(t: Terrain, n: nat, scale: u32)
    requires
        t.wf(),
    ensures
        t.eroded(n, scale).wf(),
        t.eroded(n, scale).width == t.width,
        t.eroded(n, scale).height == t.height,
        forall|i: int|
            0 <= i < t.eroded(n, scale).heights.len() ==> 0 <= #[trigger] t.eroded(n, scale).heights[i]
                <= HEIGHT_MAX,
        forall|i: int|
            0 <= i < t.eroded(n, scale).levels().len() ==> 0 <= #[trigger] t.eroded(n, scale).levels()[i]
                <= RASTER_MAX,
    decreases n,
{
    if n > 0 {
        lemma_eroded_wf(t, (n - 1) as nat, scale);
        lemma_rain_wf(t.eroded((n - 1) as nat, scale), scale);
    }
    let e = t.eroded(n, scale);
    assert forall|i: int| 0 <= i < e.levels().len() implies 0 <= #[trigger] e.levels()[i]
        <= RASTER_MAX by {
        assert(e.heights[i] <= HEIGHT_MAX);
    }
}

/// Eroding in two goes is eroding in one: `m` particles after `n` are `n + m`.
pub proof fn lemma_eroded_in_parts(t: Terrain, n: nat, m: nat, scale: u32)
    ensures
        t.eroded(n, scale).eroded(m, scale) == t.eroded(n + m, scale),
    decreases m,
{
    if m > 0 {
        lemma_eroded_in_parts(t, n, (m - 1) as nat, scale);
        assert((n + m - 1) as nat == n + ((m - 1) as nat));
    }
}

/// Two runs from the same raster, dimensions and seed, with the same number
/// of particles at the same scale, end with the same heights and the same
/// discharge.
pub proof fn lemma_erosion_repeatable(
    raster: Seq<u16>,
    width: usize,
    height: usize,
    seed: u32,
    n: nat,
    scale: u32,
    first: Terrain,
    second: Terrain,
)
    requires
        first == Terrain::initial(raster, width, height, seed).eroded(n, scale),
        second == Terrain::initial(raster, width, height, seed).eroded(n, scale),
    ensures
        first.levels() == second.levels(),
        first.shades() == second.shades(),
        first.rng == second.rng,
{
}

/// The erosion engine: a height grid, the flow through its cells and a random
/// generator.
pub struct World {
    width: usize,
    height: usize,
    heights: Vec<u32>,
    flux: Vec<u64>,
    rng: u64,
}

impl View for World {
    type V = Terrain;

    closed spec fn view(&self) -> Terrain {
        Terrain {
            width: self.width,
            height: self.height,
            heights: self.heights@,
            flux: self.flux@,
            rng: self.rng,
        }
    }
}

impl World {
    /// Every cell has a height within range and a flow within its cap.
    pub open spec fn wf(&self) -> bool {
        self@.wf()
    }

    /// A world of `width` by `height` cells with the heights of `heightmap`,
    /// no flow yet, and a generator that starts at `seed`. Levels above
    /// `RASTER_MAX` are held to it. A buffer whose length is not `width` times
    /// `height` is refused.
    pub fn new(heightmap: Vec<u16>, width: usize, height: usize, seed: u32) -> (result: Result<
        World,
        TerrainError,
    >)
        ensures
            result is Ok <==> heightmap@.len() == width * height,
            result is Err ==> result->Err_0 == TerrainError::InvalidRasterDimensions,
            result is Ok ==> result->Ok_0.wf(),
            result is Ok ==> result->Ok_0@ == Terrain::initial(heightmap@, width, height, seed),
    {
        if !has_dimensions(heightmap.len(), width, height) {
            return Err(TerrainError::InvalidRasterDimensions);
        }
        let mut heights: Vec<u32> = Vec::new();
        let mut flux: Vec<u64> = Vec::new();
        let mut i: usize = 0;
        while i < heightmap.len()
            invariant
                i <= heightmap@.len(),
                heights@.len() == i,
                flux@.len() == i,
                forall|k: int| 0 <= k < i ==> #[trigger] heights@[k] == height_of_level(heightmap@[k]),
                forall|k: int| 0 <= k < i ==> #[trigger] flux@[k] == 0,
            decreases heightmap@.len() - i,
        {
            let level = heightmap[i];
            if level > RASTER_MAX {
                heights.push(HEIGHT_MAX);
            } else {
                heights.push((level as u32) * HEIGHT_UNIT);
            }
            flux.push(0);
            i = i + 1;
        }
        let world = World { width, height, heights, flux, rng: seed as u64 };
        proof {
            let t = Terrain::initial(heightmap@, width, height, seed);
            assert(world@.heights =~= t.heights);
            assert(world@.flux =~= t.flux);
        }
        Ok(world)
    }

    /// The number of columns.
    pub fn width(&self) -> (w: usize)
        ensures
            w == self@.width,
    {
        self.width
    }

    /// The number of rows.
    pub fn height(&self) -> (h: usize)
        ensures
            h == self@.height,
    {
        self.height
    }

    /// Rains `n` particles on the world, one after the other. `scale`
    /// multiplies what each takes up or lays down, `ONE` being 1.0.
    pub fn erode(&mut self, n: usize, scale: u32)
        requires
            old(self).wf(),
        ensures
            final(self).wf(),
            final(self)@ == old(self)@.eroded(n as nat, scale),
            final(self)@.width == old(self)@.width,
            final(self)@.height == old(self)@.height,
    {
        let ghost start = self@;
        let mut i: usize = 0;
        while i < n
            invariant
                i <= n,
                self.wf(),
                self@ == start.eroded(i as nat, scale),
                self@.width == start.width,
                self@.height == start.height,
            decreases n - i,
        {
            self.rain(scale);
            i = i + 1;
        }
    }

    /// Rains one particle on the world.
    fn rain(&mut self, scale: u32)
        requires
            old(self).wf(),
        ensures
            final(self).wf(),
            final(self)@ == old(self)@.rain(scale),
            final(self)@.width == old(self)@.width,
            final(self)@.height == old(self)@.height,
    {
        proof {
            reveal(Terrain::rain);
            lemma_rain_wf(self@, scale);
        }
        self.rng = advance_random(self.rng);
        if self.heights.len() == 0 {
            return ;
        }
        let p = self.spawn();
        self.run(p, scale);
    }

    /// The particle that the generator's state places; see [`Terrain::spawn`].
    fn spawn(&self) -> (p: Particle)
        requires
            self.wf(),
            self@.width * self@.height > 0,
        ensures
            p == self@.spawn(),
            p.wf(),
            p.cx < self@.width,
            p.cy < self@.height,
    {
        let cells = self.heights.len();
        assert(self.width > 0) by (nonlinear_arith)
            requires
                self.width * self.height > 0,
        ;
        let cell = ((self.rng / 65536) % (cells as u64)) as usize;
        proof {
            lemma_cell_of_index(self.width as int, self.height as int, cell as int);
        }
        Particle {
            cx: cell % self.width,
            cy: cell / self.width,
            fx: 32768,
            fy: 32768,
            vx: 0,
            vy: 0,
            volume: ONE,
            sediment: 0,
        }
    }

    /// Lets a particle run its course; see [`Terrain::run`].
    fn run(&mut self, start: Particle, scale: u32)
        requires
            old(self).wf(),
            start.wf(),
            start.cx < old(self)@.width,
            start.cy < old(self)@.height,
        ensures
            final(self)@ == old(self)@.run(start, scale),
    {
        let mut p = start;
        let mut alive = self.width - p.cx > 1 && self.height - p.cy > 1;
        while alive
            invariant
                self.wf(),
                alive ==> p.wf() && self@.holds(p.cx as int, p.cy as int),
                alive ==> self@.run(p, scale) == old(self)@.run(start, scale),
                !alive ==> self@ == old(self)@.run(start, scale),
            decreases
                    if alive {
                        p.volume + 1
                    } else {
                        0
                    },
        {
            proof {
                lemma_step_wf(self@, p, scale);
            }
            match self.step(p, scale) {
                Some(moved) => {
                    p = moved;
                },
                None => {
                    alive = false;
                },
            }
        }
    }

    /// The heights of the four corners of a cell.
    fn corners(&self, cx: usize, cy: usize) -> (c: (i64, i64, i64, i64))
        requires
            self.wf(),
            self@.holds(cx as int, cy as int),
        ensures
            c.0 == self@.height_at(cx as int, cy as int),
            c.1 == self@.height_at(cx + 1, cy as int),
            c.2 == self@.height_at(cx as int, cy + 1),
            c.3 == self@.height_at(cx + 1, cy + 1),
            0 <= c.0 <= HEIGHT_MAX,
            0 <= c.1 <= HEIGHT_MAX,
            0 <= c.2 <= HEIGHT_MAX,
            0 <= c.3 <= HEIGHT_MAX,
    {
        let cells = self.heights.len();
        proof {
            lemma_corners_in_range(self@, cx as int, cy as int);
        }
        let at = cy * self.width + cx;
        (
            self.heights[at] as i64,
            self.heights[at + 1] as i64,
            self.heights[at + self.width] as i64,
            self.heights[at + self.width + 1] as i64,
        )
    }

    /// The velocity of the particle after the pull of the slope; see
    /// [`Terrain::pulled`].
    fn pull(&self, p: Particle) -> (v: (i64, i64))
        requires
            self.wf(),
            p.wf(),
            self@.holds(p.cx as int, p.cy as int),
        ensures
            (v.0 as int, v.1 as int) == self@.pulled(p),
            -ONE <= v.0 <= ONE,
            -ONE <= v.1 <= ONE,
    {
        let c = self.corners(p.cx, p.cy);
        (
            accelerate(p.vx, slope(c.1 - c.0, c.3 - c.2, p.fy)),
            accelerate(p.vy, slope(c.2 - c.0, c.3 - c.1, p.fx)),
        )
    }

    /// The bilinear height inside a cell; see [`Terrain::surface_at`].
    fn surface(&self, cx: usize, cy: usize, fx: i64, fy: i64) -> (h: i64)
        requires
            self.wf(),
            self@.holds(cx as int, cy as int),
            0 <= fx <= ONE,
            0 <= fy <= ONE,
        ensures
            h == self@.surface_at(cx as int, cy as int, fx as int, fy as int),
            0 <= h <= HEIGHT_MAX,
    {
        let c = self.corners(cx, cy);
        surface_height(c.0, c.1, c.2, c.3, fx, fy)
    }

    /// Counts the water of the particle in its cell; see [`Terrain::wetted`].
    fn wet(&mut self, p: Particle)
        requires
            old(self).wf(),
            p.wf(),
            old(self)@.holds(p.cx as int, p.cy as int),
        ensures
            final(self)@ == old(self)@.wetted(p),
            final(self).wf(),
    {
        let cells = self.flux.len();
        proof {
            lemma_corners_in_range(self@, p.cx as int, p.cy as int);
            lemma_wetted_wf(self@, p);
        }
        let at = p.cy * self.width + p.cx;
        self.flux[at] = accumulate_flux(self.flux[at], p.volume);
    }

    /// Replaces the height of a cell; see [`Terrain::raised`].
    fn raise(&mut self, cx: usize, cy: usize, h: i64)
        requires
            old(self).wf(),
            old(self)@.holds(cx as int, cy as int),
            0 <= h <= HEIGHT_MAX,
        ensures
            final(self)@ == old(self)@.raised(cx as int, cy as int, h as int),
            final(self).wf(),
    {
        let cells = self.heights.len();
        proof {
            lemma_corners_in_range(self@, cx as int, cy as int);
            lemma_raised_wf(self@, cx as int, cy as int, h as int);
        }
        let at = cy * self.width + cx;
        self.heights[at] = h as u32;
    }

    /// Moves `p` by one step; see [`Terrain::step`].
    fn step(&mut self, p: Particle, scale: u32) -> (next: Option<Particle>)
        requires
            old(self).wf(),
            p.wf(),
            old(self)@.holds(p.cx as int, p.cy as int),
        ensures
            (final(self)@, next) == old(self)@.step(p, scale),
            final(self).wf(),
    {
        proof {
            reveal(Terrain::step);
            lemma_wetted_wf(self@, p);
        }
        let v = self.pull(p);
        let x = land(p.cx, p.fx + v.0, self.width);
        let y = land(p.cy, p.fy + v.1, self.height);
        match (x, y) {
            (Some((ncx, nfx)), Some((ncy, nfy))) => {
                let here = self.surface(p.cx, p.cy, p.fx, p.fy);
                let there = self.surface(ncx, ncy, nfx, nfy);
                let drop = if here > there {
                    here - there
                } else {
                    0
                };
                let cap = carrying_capacity(drop, speed_of(v.0) + speed_of(v.1), p.volume);
                let h = self.corners(p.cx, p.cy).0;
                let after = exchange_sediment(h, p.sediment, cap, scale);
                let volume = p.volume - p.volume / EVAPORATION;
                self.wet(p);
                self.raise(p.cx, p.cy, after.0);
                if volume >= MIN_VOLUME && (v.0 != 0 || v.1 != 0) {
                    Some(
                        Particle {
                            cx: ncx,
                            cy: ncy,
                            fx: nfx,
                            fy: nfy,
                            vx: v.0,
                            vy: v.1,
                            volume,
                            sediment: after.1,
                        },
                    )
                } else {
                    None
                }
            },
            _ => {
                self.wet(p);
                None
            },
        }
    }

    /// The discharge of the cell in column `x` and row `y`: from 0 to below
    /// `ONE`, rising with the flow that has passed through the cell.
    pub fn discharge(&self, x: usize, y: usize) -> (level: u32)
        requires
            self.wf(),
            x < self@.width,
            y < self@.height,
        ensures
            level == discharge_level(self@.flux[self@.index(x as int, y as int)] as int),
            level < ONE,
    {
        let cells = self.flux.len();
        proof {
            lemma_index_in_range(self.width as int, self.height as int, x as int, y as int);
        }
        discharge_of(self.flux[y * self.width + x])
    }

    /// The heights as raster levels, row by row.
    pub fn heights(&self) -> (levels: Vec<u16>)
        requires
            self.wf(),
        ensures
            levels@ == self@.levels(),
            forall|i: int| 0 <= i < levels@.len() ==> #[trigger] levels@[i] <= RASTER_MAX,
    {
        let mut levels: Vec<u16> = Vec::new();
        let mut i: usize = 0;
        while i < self.heights.len()
            invariant
                self.wf(),
                i <= self.heights@.len(),
                levels@.len() == i,
                forall|k: int| 0 <= k < i ==> #[trigger] levels@[k] == level_of_height(self.heights@[k]),
                forall|k: int| 0 <= k < i ==> #[trigger] levels@[k] <= RASTER_MAX,
            decreases self.heights@.len() - i,
        {
            assert(self@.heights[i as int] <= HEIGHT_MAX);
            levels.push((self.heights[i] / HEIGHT_UNIT) as u16);
            i = i + 1;
        }
        assert(levels@ =~= self@.levels());
        levels
    }

    /// The discharge of every cell as a grey value, row by row.
    pub fn discharge_raster(&self) -> (shades: Vec<u8>)
        requires
            self.wf(),
        ensures
            shades@ == self@.shades(),
            forall|i: int| 0 <= i < shades@.len() ==> 127 <= #[trigger] shades@[i] <= 254,
    {
        let mut shades: Vec<u8> = Vec::new();
        let mut i: usize = 0;
        while i < self.flux.len()
            invariant
                self.wf(),
                i <= self.flux@.len(),
                shades@.len() == i,
                forall|k: int|
                    0 <= k < i ==> #[trigger] shades@[k] == shade_of_discharge(
                        discharge_level(self.flux@[k] as int),
                    ),
                forall|k: int| 0 <= k < i ==> 127 <= #[trigger] shades@[k] <= 254,
            decreases self.flux@.len() - i,
        {
            assert(self@.flux[i as int] <= FLUX_CAP);
            let level = discharge_of(self.flux[i]);
            shades.push(shade(level));
            i = i + 1;
        }
        assert(shades@ =~= self@.shades());
        shades
    }
}

/// Where a coordinate lands after it has moved to `n` within or just outside
/// cell `c`: its cell and how far into it, or nothing if that cell or the one
/// after it is no cell of an axis of `limit` cells.
fn land(c: usize, n: i64, limit: usize) -> (place: Option<(usize, i64)>)
    requires
        -ONE <= n < 2 * ONE,
        c < limit,
    ensures
        place is Some <==> (0 <= shifted_cell(c as int, n as int) && shifted_cell(c as int, n as int)
            + 1 < limit),
        place is Some ==> place->Some_0.0 == shifted_cell(c as int, n as int),
        place is Some ==> place->Some_0.1 == shifted_fraction(n as int),
        place is Some ==> 0 <= place->Some_0.1 < ONE,
{
    if n < 0 {
        if c == 0 {
            None
        } else {
            Some((c - 1, n + ONE))
        }
    } else if n >= ONE {
        if limit - c <= 2 {
            None
        } else {
            Some((c + 1, n - ONE))
        }
    } else {
        if limit - c <= 1 {
            None
        } else {
            Some((c, n))
        }
    }
}

/// The grey value of a discharge; see [`shade_of_discharge`].
pub fn shade(level: u32) -> (grey: u8)
    requires
        level < ONE,
    ensures
        grey == shade_of_discharge(level as int),
        127 <= grey <= 254,
{
    let wide: u64 = ((level as u64) + 65536) * 255;
    assert(127 <= wide / 131072 <= 254);
    (wide / 131072) as u8
}

/// Whether a buffer of `len` values holds a grid of `width` by `height`.
pub fn has_dimensions(len: usize, width: usize, height: usize) -> (fits: bool)
    ensures
        fits <==> len == width * height,
{
    assert(width * height <= 0xFFFF_FFFF_FFFF_FFFF * 0xFFFF_FFFF_FFFF_FFFF) by (nonlinear_arith)
        requires
            0 <= width <= 0xFFFF_FFFF_FFFF_FFFF,
            0 <= height <= 0xFFFF_FFFF_FFFF_FFFF,
    ;
    (len as u128) == (width as u128) * (height as u128)
}

} // verus!
