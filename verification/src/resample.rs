//! Resampling of height rasters to another resolution.

use vstd::prelude::*;
use crate::error::TerrainError;

verus! {

/// The greatest side of a raster that is resampled.
pub const MAX_SIDE: usize = 16384;

/// The kernel that weighs the source pixels.
#[derive(Clone, Copy, Debug, PartialEq, Eq, Structural)]
pub enum Resampling {
    /// A windowed sinc over three pixels either way.
    Lanczos3,
    /// A cubic spline over two pixels either way.
    CatmullRom,
}

/// The pixels that `image::imageops::resize` gives for a one-channel 16-bit
/// image of `width` by `height` with the given pixels, resized to `new_width`
/// by `new_height` with the given kernel.
pub uninterp spec fn resampled(
    pixels: Seq<u16>,
    width: u32,
    height: u32,
    new_width: u32,
    new_height: u32,
    filter: Resampling,
) -> Seq<u16>;

/// Calls `image::imageops::resize` on a one-channel 16-bit image.
///
/// The image crate weighs the source pixels with the kernel, first down the
/// columns and then along the rows, in 32-bit floating point. It reads nothing
/// but the pixels, the four dimensions and the kernel, so its result is given
/// the name `resampled`. Of the values no more is claimed than that name. The
/// result holds `new_width` times `new_height` pixels, which is the size of
/// the buffer that the crate allocates for its output. The source must not be
/// empty: the crate reads a pixel of it for every pixel it writes.
#[verifier::external_body]
fn resize_luma16(
    pixels: &Vec<u16>,
    width: u32,
    height: u32,
    new_width: u32,
    new_height: u32,
    filter: Resampling,
) -> (out: Vec<u16>)
    requires
        0 < width <= MAX_SIDE,
        0 < height <= MAX_SIDE,
        0 < new_width <= MAX_SIDE,
        0 < new_height <= MAX_SIDE,
        pixels@.len() == width * height,
    ensures
        out@ == resampled(pixels@, width, height, new_width, new_height, filter),
        out@.len() == new_width * new_height,
{
    let source: image::ImageBuffer<image::Luma<u16>, &[u16]> = image::ImageBuffer::from_raw(
        width,
        height,
        pixels.as_slice(),
    ).unwrap();
    let kernel = match filter {
        Resampling::Lanczos3 => image::imageops::FilterType::Lanczos3,
        Resampling::CatmullRom => image::imageops::FilterType::CatmullRom,
    };
    image::imageops::resize(&source, new_width, new_height, kernel).into_raw()
}

/// Resamples a square raster of side `side` to side `new_side`.
///
/// A raster whose length is not `side` squared, or a side that is zero or
/// above `MAX_SIDE`, is refused.
pub fn resample_square(pixels: &Vec<u16>, side: usize, new_side: usize, filter: Resampling) -> (result:
    Result<Vec<u16>, TerrainError>)
    ensures
        result is Ok <==> (0 < side <= MAX_SIDE && 0 < new_side <= MAX_SIDE && pixels@.len() == side
            * side),
        result is Err ==> result->Err_0 == TerrainError::InvalidRasterDimensions,
        result is Ok ==> result->Ok_0@ == resampled(
            pixels@,
            side as u32,
            side as u32,
            new_side as u32,
            new_side as u32,
            filter,
        ),
        result is Ok ==> result->Ok_0@.len() == new_side * new_side,
{
    if side == 0 || side > MAX_SIDE || new_side == 0 || new_side > MAX_SIDE {
        return Err(TerrainError::InvalidRasterDimensions);
    }
    assert(side * side <= MAX_SIDE * MAX_SIDE) by (nonlinear_arith)
        requires
            0 < side <= MAX_SIDE,
    ;
    if pixels.len() != side * side {
        return Err(TerrainError::InvalidRasterDimensions);
    }
    Ok(resize_luma16(pixels, side as u32, side as u32, new_side as u32, new_side as u32, filter))
}

} // verus!
