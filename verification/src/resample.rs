//! The two operations that the `image` crate performs on the pixels:
//! resampling to a given size, and cutting a window out. Their contracts are
//! taken on trust from that crate's source.
use vstd::prelude::*;
use crate::raster::window_of;
use crate::resize::MAX_SAMPLED_EXTENT;

verus! {

/// `DynamicImage::resize_exact` of the `image` crate with the Lanczos3 filter,
/// on the RGBA8 image that `ImageBuffer::from_raw` makes of the bytes.
///
/// Trusted: the bytes are accepted exactly when there are at least
/// `4 * width * height` of them; the result has exactly the size asked for;
/// and where that is the size of the source, the result is a copy of the
/// source's pixels. Nothing is claimed of the values of resampled pixels.
///
/// Where the size changes, the crate allocates an intermediate image of
/// `width` by `new_height` pixels with four `f32` channels each and panics
/// where a buffer cannot be addressed, and it computes pixel positions in
/// single precision. Sizes beyond either limit are left out.
#[verifier::external_body]
pub(crate) fn lanczos3_resize(
    pixels: &Vec<u8>,
    width: u32,
    height: u32,
    new_width: u32,
    new_height: u32,
) -> (result: Option<Vec<u8>>)
    requires
        width > 0,
        height > 0,
        (new_width == width && new_height == height) || {
            &&& width <= MAX_SAMPLED_EXTENT
            &&& height <= MAX_SAMPLED_EXTENT
            &&& new_width <= MAX_SAMPLED_EXTENT
            &&& new_height <= MAX_SAMPLED_EXTENT
            &&& 16 * width * new_height <= isize::MAX
            &&& 4 * new_width * new_height <= isize::MAX
        },
    ensures
        result is Some <==> 4 * width * height <= pixels@.len(),
        result matches Some(out) ==> out@.len() == 4 * new_width * new_height,
        result matches Some(out) ==> (new_width == width && new_height == height ==> out@
            == pixels@.subrange(0, 4 * width * height)),
{
    let source = image::RgbaImage::from_raw(width, height, pixels.clone())?;
    let resized = image::DynamicImage::ImageRgba8(source).resize_exact(
        new_width,
        new_height,
        image::imageops::FilterType::Lanczos3,
    );
    Some(resized.to_rgba8().into_raw())
}

/// `DynamicImage::crop_imm` of the `image` crate, on the RGBA8 image that
/// `ImageBuffer::from_raw` makes of the bytes.
///
/// Trusted: the bytes are accepted exactly when there are at least
/// `4 * width * height` of them, and the result is the window's pixels, row
/// by row. Only windows that lie within the image are admitted.
#[verifier::external_body]
pub(crate) fn crop_window(
    pixels: &Vec<u8>,
    width: u32,
    height: u32,
    x: u32,
    y: u32,
    window_width: u32,
    window_height: u32,
) -> (result: Option<Vec<u8>>)
    requires
        x + window_width <= width,
        y + window_height <= height,
    ensures
        result is Some <==> 4 * width * height <= pixels@.len(),
        result matches Some(out) ==> out@ == window_of(
            pixels@,
            width as int,
            x as int,
            y as int,
            window_width as int,
            window_height as int,
        ),
{
    let source = image::RgbaImage::from_raw(width, height, pixels.clone())?;
    let cut = image::DynamicImage::ImageRgba8(source).crop_imm(x, y, window_width, window_height);
    Some(cut.to_rgba8().into_raw())
}

} // verus!
