//! The conditions under which a generation run cannot proceed.

use vstd::prelude::*;

verus! {

/// Why a stage of the pipeline refused its input.
#[derive(Clone, Copy, Debug, PartialEq, Eq, Structural)]
pub enum TerrainError {
    /// No boundary site is a candidate ocean, so no outlet can be seeded.
    NoReachableOutlet,
    /// The elevation field has no value at the queried point.
    UnresolvedElevationSample,
    /// A buffer's length does not equal its declared width times height.
    InvalidRasterDimensions,
    /// The erosion pyramid was started without a base-level raster.
    MissingPrerequisiteRaster,
}

impl TerrainError {
    /// A short description of the condition.
    pub fn message(&self) -> (text: &'static str)
        ensures
            text@.len() > 0,
            (*self == TerrainError::NoReachableOutlet) == (text@ == "no boundary site is a candidate ocean"@),
            (*self == TerrainError::UnresolvedElevationSample) == (text@ == "elevation field has no value at the sample"@),
            (*self == TerrainError::InvalidRasterDimensions) == (text@ == "buffer length differs from width times height"@),
            (*self == TerrainError::MissingPrerequisiteRaster) == (text@ == "base-level raster is missing"@),
    {
        proof {
            reveal_strlit("no boundary site is a candidate ocean");
            reveal_strlit("elevation field has no value at the sample");
            reveal_strlit("buffer length differs from width times height");
            reveal_strlit("base-level raster is missing");
        }
        match self {
            TerrainError::NoReachableOutlet => "no boundary site is a candidate ocean",
            TerrainError::UnresolvedElevationSample => "elevation field has no value at the sample",
            TerrainError::InvalidRasterDimensions => "buffer length differs from width times height",
            TerrainError::MissingPrerequisiteRaster => "base-level raster is missing",
        }
    }
}

} // verus!
