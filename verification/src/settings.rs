//! The settings of a generation run.
//!
//! Lengths, densities and shares are fixed-point numbers.

use vstd::prelude::*;

verus! {

/// The kind of noise that the interface offers.
#[derive(Clone, Copy, Debug, PartialEq, Eq, Structural)]
pub enum NoiseTypesUi {
    Simplex,
    Perlin,
    BillowPerlin,
}

/// The settings of the terrain.
#[derive(Clone, Copy, Debug)]
pub struct TopoSettings {
    /// The greatest elevation of the last generated terrain.
    pub max_alt: i32,
    pub seed: Option<u32>,
    /// The corner of the bounding box with the least coordinates.
    pub min_bound: (i32, i32),
    /// The corner of the bounding box with the greatest coordinates.
    pub max_bound: (i32, i32),
    /// Sites per unit of area.
    pub lod: i32,
    /// The scale at which the erodibility noise is sampled.
    pub erod_scale: i32,
    /// The share of mountains.
    pub mountain_pct: i32,
    /// The share of sea.
    pub sea_pct: i32,
    pub min_height: i32,
    pub max_height: i32,
    /// How many times each level is eroded.
    pub erosion_cycles: u64,
}

/// The settings that a new scenario starts with: seed 42949, a bounding box
/// from (0, 0) to (100, 100), four sites per unit of area, a quarter of
/// mountains, a share of sea of 5, heights from -50 to 1000, and no erosion.
pub open spec fn default_topo_settings() -> TopoSettings {
    TopoSettings {
        max_alt: 0,
        seed: Some(42949u32),
        min_bound: (0, 0),
        max_bound: (6553600, 6553600),
        lod: 262144,
        erod_scale: 0,
        mountain_pct: 1638400,
        sea_pct: 327680,
        min_height: -50i32,
        max_height: 1000,
        erosion_cycles: 0,
    }
}

impl Default for TopoSettings {
    fn default() -> (settings: TopoSettings)
        ensures
            settings == default_topo_settings(),
    {
        TopoSettings {
            max_alt: 0,
            seed: Some(42949),
            min_bound: (0, 0),
            max_bound: (6553600, 6553600),
            lod: 262144,
            erod_scale: 0,
            mountain_pct: 1638400,
            sea_pct: 327680,
            min_height: -50,
            max_height: 1000,
            erosion_cycles: 0,
        }
    }
}

impl TopoSettings {
    /// Sets both coordinates of the least corner to `x_y`.
    pub fn set_min_bounds(&mut self, x_y: i32)
        ensures
            *final(self) == (TopoSettings { min_bound: (x_y, x_y), ..*old(self) }),
    {
        self.min_bound = (x_y, x_y);
    }

    /// Sets both coordinates of the greatest corner to `x_y`.
    pub fn set_max_bounds(&mut self, x_y: i32)
        ensures
            *final(self) == (TopoSettings { max_bound: (x_y, x_y), ..*old(self) }),
    {
        self.max_bound = (x_y, x_y);
    }

    /// Sets the number of sites per unit of area.
    pub fn set_lod(&mut self, x: i32)
        ensures
            *final(self) == (TopoSettings { lod: x, ..*old(self) }),
    {
        self.lod = x;
    }

    /// Sets the scale of the erodibility noise.
    pub fn set_erod_scale(&mut self, y: i32)
        ensures
            *final(self) == (TopoSettings { erod_scale: y, ..*old(self) }),
    {
        self.erod_scale = y;
    }

    /// Sets or clears the seed.
    pub fn set_seed(&mut self, seed: Option<u32>)
        ensures
            *final(self) == (TopoSettings { seed: seed, ..*old(self) }),
    {
        self.seed = seed;
    }

    /// Sets the share of mountains.
    pub fn set_mtn_pct(&mut self, pct: i32)
        ensures
            *final(self) == (TopoSettings { mountain_pct: pct, ..*old(self) }),
    {
        self.mountain_pct = pct;
    }

    /// Sets the share of sea.
    pub fn set_sea_pct(&mut self, pct: i32)
        ensures
            *final(self) == (TopoSettings { sea_pct: pct, ..*old(self) }),
    {
        self.sea_pct = pct;
    }

    /// Sets how many times each level is eroded.
    pub fn set_cycles(&mut self, cycles: u64)
        ensures
            *final(self) == (TopoSettings { erosion_cycles: cycles, ..*old(self) }),
    {
        self.erosion_cycles = cycles;
    }
}

} // verus!
