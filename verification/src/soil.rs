//! The kinds of soil and the choices made of them.

use vstd::prelude::*;
use std::collections::HashMap;

verus! {

/// A kind of soil.
#[derive(Clone, Copy, Debug, PartialEq, Eq, Hash, Structural)]
pub enum SoilType {
    Dirt,
    Silt,
    Stone,
    Loam,
    Clay,
    Sand,
    Gravel,
}

/// The colour that stands for a kind of soil in a soil raster, as red, green,
/// blue and opacity.
#[derive(Clone, Copy, Debug, PartialEq, Eq)]
pub enum SoilColor {
    Dirt([u8; 4]),
    Loam([u8; 4]),
    Silt([u8; 4]),
    Clay([u8; 4]),
    Stone([u8; 4]),
    Gravel([u8; 4]),
    Sand([u8; 4]),
}

/// The grey level that stands for a kind of soil.
pub open spec fn grey_of(soil: SoilType) -> u8 {
    match soil {
        SoilType::Dirt => 5,
        SoilType::Silt => 100,
        SoilType::Stone => 16,
        SoilType::Gravel => 32,
        SoilType::Loam => 64,
        SoilType::Clay => 128,
        SoilType::Sand => 200,
    }
}

impl SoilType {
    /// The grey level that stands for this kind of soil.
    pub fn grey(&self) -> (level: u8)
        ensures
            level == grey_of(*self),
    {
        match self {
            SoilType::Dirt => 5,
            SoilType::Silt => 100,
            SoilType::Stone => 16,
            SoilType::Gravel => 32,
            SoilType::Loam => 64,
            SoilType::Clay => 128,
            SoilType::Sand => 200,
        }
    }

    /// The opaque grey that stands for this kind of soil.
    pub fn color(&self) -> (color: SoilColor)
        ensures
            color.kind() == *self,
            color.channels()@ == seq![grey_of(*self), grey_of(*self), grey_of(*self), 255u8],
    {
        let g = self.grey();
        let channels = [g, g, g, 255];
        assert(channels@ =~= seq![g, g, g, 255u8]);
        match self {
            SoilType::Dirt => SoilColor::Dirt(channels),
            SoilType::Silt => SoilColor::Silt(channels),
            SoilType::Stone => SoilColor::Stone(channels),
            SoilType::Gravel => SoilColor::Gravel(channels),
            SoilType::Loam => SoilColor::Loam(channels),
            SoilType::Clay => SoilColor::Clay(channels),
            SoilType::Sand => SoilColor::Sand(channels),
        }
    }
}

impl SoilColor {
    /// The kind of soil that the colour stands for.
    pub open spec fn kind(&self) -> SoilType {
        match self {
            SoilColor::Dirt(_) => SoilType::Dirt,
            SoilColor::Loam(_) => SoilType::Loam,
            SoilColor::Silt(_) => SoilType::Silt,
            SoilColor::Clay(_) => SoilType::Clay,
            SoilColor::Stone(_) => SoilType::Stone,
            SoilColor::Gravel(_) => SoilType::Gravel,
            SoilColor::Sand(_) => SoilType::Sand,
        }
    }

    /// Red, green, blue and opacity.
    pub open spec fn channels(&self) -> [u8; 4] {
        match self {
            SoilColor::Dirt(c) => *c,
            SoilColor::Loam(c) => *c,
            SoilColor::Silt(c) => *c,
            SoilColor::Clay(c) => *c,
            SoilColor::Stone(c) => *c,
            SoilColor::Gravel(c) => *c,
            SoilColor::Sand(c) => *c,
        }
    }
}

/// The soil that a map starts from, the kinds of soil that are switched off,
/// and the kinds of vegetation that are chosen.
#[derive(Clone, Debug)]
pub struct VegetationData {
    pub base: SoilType,
    pub blocklist: HashMap<SoilType, bool>,
    pub vegetationlist: HashMap<String, bool>,
}

/// The probability raster of each kind of vegetation that was generated.
#[derive(Clone, Debug)]
pub struct VegetationCollection {
    pub generated: HashMap<String, Vec<u8>>,
}

} // verus!
