//! What the `image` crate does for this library: decoding image files and
//! resampling pixels, by a Lanczos kernel or by averaging. Nothing in this module is proved; each contract says
//! what the crate's source shows of the call.

use vstd::prelude::*;

verus! {

/// The error type of the `image` crate. Its content is not looked into.
#[verifier::external_type_specification]
#[verifier::external_body]
pub struct ExImageError(image::ImageError);

/// Decodes an image file held in memory with `image::load_from_memory` and
/// hands out its pixels as `DynamicImage::to_rgb8` converts them: the width,
/// the height and the bytes. Nothing is claimed of the outcome.
#[verifier::external_body]
pub(crate) fn decode_rgb8(bytes: &[u8]) -> (decoded: Result<(u32, u32, Vec<u8>), image::ImageError>)
{
    let image = image::load_from_memory(bytes)?;
    let rgb = image.to_rgb8();
    Ok((rgb.width(), rgb.height(), rgb.into_raw()))
}

/// Resamples a colour image of three bytes per pixel to `nwidth` by `nheight`
/// pixels with `image::imageops::resize` and its `Lanczos3` filter.
///
/// `RgbImage::from_raw` accepts the bytes because there are enough of them,
/// and the sampler allocates an intermediate image of four `f32` per pixel,
/// `width` by `nheight`, and the result; both must fit in an allocation. The
/// result has the size asked for. Nothing is claimed of its pixels.
#[verifier::external_body]
pub(crate) fn resample_rgb8(
    data: Vec<u8>,
    width: u32,
    height: u32,
    nwidth: u32,
    nheight: u32,
) -> (out: Option<Vec<u8>>)
    requires
        data@.len() == width * height * 3,
        width > 0,
        height > 0,
        nwidth > 0,
        nheight > 0,
        16 * width * nheight <= isize::MAX,
        3 * nwidth * nheight <= isize::MAX,
    ensures
        out is Some,
        out matches Some(bytes) ==> bytes@.len() == nwidth * nheight * 3,
{
    let source = image::RgbImage::from_raw(width, height, data)?;
    let filter = image::imageops::FilterType::Lanczos3;
    Some(image::imageops::resize(&source, nwidth, nheight, filter).into_raw())
}

/// Scales a colour image of three bytes per pixel down to `nwidth` by
/// `nheight` pixels with `image::imageops::thumbnail`, which averages the
/// source pixels that fall into each new pixel.
///
/// `RgbImage::from_raw` accepts the bytes because there are enough of them.
/// With the new size no larger than the old, every new pixel has its block
/// of source pixels inside the image. The bytes of a block are summed in 32
/// bits, so 256 times the number of pixels must fit in 32 bits, and the
/// result must fit in an allocation. The result has the size asked for.
/// Nothing is claimed of its pixels.
#[verifier::external_body]
pub(crate) fn average_rgb8(
    data: Vec<u8>,
    width: u32,
    height: u32,
    nwidth: u32,
    nheight: u32,
) -> (out: Option<Vec<u8>>)
    requires
        data@.len() == width * height * 3,
        0 < nwidth <= width,
        0 < nheight <= height,
        256 * width * height <= u32::MAX,
        3 * nwidth * nheight <= isize::MAX,
    ensures
        out is Some,
        out matches Some(bytes) ==> bytes@.len() == nwidth * nheight * 3,
{
    let source = image::RgbImage::from_raw(width, height, data)?;
    Some(image::imageops::thumbnail(&source, nwidth, nheight).into_raw())
}

} // verus!
