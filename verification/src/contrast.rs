//! Contrast stretch of 8-bit rasters.

use vstd::prelude::*;
use crate::error::TerrainError;

verus! {

/// The grey value below which a discharge raster is shown black.
pub const DISCHARGE_LOWER: u8 = 130;

/// The grey value above which a discharge raster is shown white.
pub const DISCHARGE_UPPER: u8 = 200;

/// The grey value that `p` is sent to when `lower` goes to 0 and `upper` to 255.
pub open spec fn stretched(p: u8, lower: u8, upper: u8) -> u8 {
    if p >= upper {
        255
    } else if p <= lower {
        0
    } else {
        ((255 * (p - lower)) / (upper - lower)) as u8
    }
}

/// Calls `imageproc::contrast::stretch_contrast_mut` on a one-channel 8-bit
/// image of `width` by `height`.
///
/// The crate replaces every pixel by itself: 255 at or above `upper`, 0 at or
/// below `lower`, and between them 255 times the distance from `lower`, divided
/// by the distance from `lower` to `upper` and rounded down. It panics unless
/// `lower` is below `upper`.
#[verifier::external_body]
fn stretch_luma8(pixels: Vec<u8>, width: u32, height: u32, lower: u8, upper: u8) -> (out: Vec<u8>)
    requires
        lower < upper,
        pixels@.len() == width * height,
    ensures
        out@.len() == pixels@.len(),
        forall|i: int| 0 <= i < out@.len() ==> #[trigger] out@[i] == stretched(pixels@[i], lower, upper),
{
    let mut image: image::GrayImage = image::ImageBuffer::from_raw(width, height, pixels).unwrap();
    imageproc::contrast::stretch_contrast_mut(&mut image, lower, upper);
    image.into_raw()
}

/// Stretches the contrast of a raster of `width` by `height` so that `lower`
/// becomes black and `upper` white.
///
/// A raster whose length is not `width` times `height` is refused.
pub fn stretch_contrast(pixels: Vec<u8>, width: u32, height: u32, lower: u8, upper: u8) -> (result:
    Result<Vec<u8>, TerrainError>)
    requires
        lower < upper,
    ensures
        result is Ok <==> pixels@.len() == width * height,
        result is Err ==> result->Err_0 == TerrainError::InvalidRasterDimensions,
        result is Ok ==> result->Ok_0@.len() == pixels@.len(),
        result is Ok ==> forall|i: int|
            0 <= i < pixels@.len() ==> #[trigger] result->Ok_0@[i] == stretched(
                pixels@[i],
                lower,
                upper,
            ),
{
    assert(width * height <= 0xFFFF_FFFF * 0xFFFF_FFFF) by (nonlinear_arith)
        requires
            0 <= width <= 0xFFFF_FFFF,
            0 <= height <= 0xFFFF_FFFF,
    ;
    if (pixels.len() as u64) != (width as u64) * (height as u64) {
        return Err(TerrainError::InvalidRasterDimensions);
    }
    Ok(stretch_luma8(pixels, width, height, lower, upper))
}

} // verus!
