//! Terrain synthesis support and hydraulic erosion on dense height rasters.
//!
//! A generation run places mesh sites, decides which of them are outlets to
//! the sea, has an elevation field solved over them, samples that field into a
//! height raster and erodes the raster at rising resolutions.
//!
//! - [`synthesis`]: the number of sites, their displacement, the candidate
//!   oceans and the erodibility of each site.
//! - [`outlets`]: the candidate oceans that are connected to the map edge.
//! - [`raster`] and [`colormap`]: the raw and the coloured raster of an
//!   elevation field.
//! - [`world`] and [`flow`]: the erosion engine and the arithmetic of its
//!   particles.
//! - [`pyramid`], [`resample`] and [`contrast`]: erosion level by level up to
//!   the full resolution, and the rasters read from it.
//! - [`settings`], [`grid`], [`heightmap`] and [`soil`]: what a session holds
//!   besides.
//!
//! All quantities are integers. Real-valued inputs and outputs are carried as
//! fixed-point numbers with sixteen fractional bits (see [`fixed`]).

pub mod colormap;
pub mod contrast;
pub mod error;
pub mod fixed;
pub mod flow;
pub mod grid;
pub mod heightmap;
pub mod outlets;
pub mod pyramid;
pub mod raster;
pub mod resample;
pub mod settings;
pub mod soil;
pub mod synthesis;
pub mod world;
