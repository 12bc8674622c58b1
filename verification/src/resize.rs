//! Resizing a raster under either policy: size it, resample it, and for the
//! cover policy cut the box out of the middle.
use vstd::prelude::*;
use crate::cover::{centred_offset, compute_cover, cover_scaled, effective_target};
use crate::geometry::{CoverFit, Dimensions, ResizeError, TargetSpec};
use crate::inside::{compute_inside, inside_extent, lemma_inside_never_enlarges};
use crate::raster::{lemma_full_window, window_of, Raster};
use crate::resample::{crop_window, lanczos3_resize};

verus! {

/// The largest extent, in pixels, that the resampler is asked to work on or
/// to produce. It places each output pixel at `index + 0.5` in single
/// precision, which is exact only below 2^23.
pub const MAX_SAMPLED_EXTENT: u32 = 8_388_608;

/// An image of the extent `from` can be taken to the extent `to`. Where the
/// two are equal the pixels are only copied. Otherwise no extent may exceed
/// `MAX_SAMPLED_EXTENT`, and the resampler's working buffers, the larger of
/// which holds `from.width` by `to.height` pixels of 16 bytes, must be
/// addressable.
pub open spec fn within_resampler_limits(from: Dimensions, to: Dimensions) -> bool {
    from == to || {
        &&& from.width <= MAX_SAMPLED_EXTENT
        &&& from.height <= MAX_SAMPLED_EXTENT
        &&& to.width <= MAX_SAMPLED_EXTENT
        &&& to.height <= MAX_SAMPLED_EXTENT
        &&& 16 * from.width * to.height <= isize::MAX
        &&& 4 * to.width * to.height <= isize::MAX
    }
}

/// The source can be resampled to the extent `to`: it has pixels, its buffer
/// holds all of them, and the working buffers can be addressed.
pub open spec fn can_resample(source: &Raster, to: Dimensions) -> bool {
    &&& !source.dimensions().is_empty()
    &&& source.covers_dimensions()
    &&& within_resampler_limits(source.dimensions(), to)
}

/// Resamples `source` to exactly the extent `to`.
pub fn resample(source: &Raster, to: Dimensions) -> (result: Result<Raster, ResizeError>)
    ensures
        source.dimensions().is_empty() ==> result == Err::<Raster, ResizeError>(
            ResizeError::InvalidInput,
        ),
        !source.dimensions().is_empty() && !can_resample(source, to) ==> result == Err::<
            Raster,
            ResizeError,
        >(ResizeError::Resampling),
        can_resample(source, to) ==> result is Ok,
        result matches Ok(out) ==> {
            &&& out.dimensions() == to
            &&& out.well_formed()
            &&& (to == source.dimensions() ==> out.pixels@ == source.image_bytes())
        },
{
    if source.width == 0 || source.height == 0 {
        return Err(ResizeError::InvalidInput);
    }
    if !(to.width == source.width && to.height == source.height) {
        if source.width > MAX_SAMPLED_EXTENT || source.height > MAX_SAMPLED_EXTENT || to.width
            > MAX_SAMPLED_EXTENT || to.height > MAX_SAMPLED_EXTENT {
            return Err(ResizeError::Resampling);
        }
        let limit: u64 = isize::MAX as u64;
        let columns: u64 = source.width as u64;
        let rows: u64 = to.height as u64;
        assert(16 * (columns * rows) <= u64::MAX && 4 * (to.width * rows) <= u64::MAX && 16
            * source.width * to.height == 16 * (columns * rows) && 4 * to.width * to.height == 4
            * (to.width * rows)) by (nonlinear_arith)
            requires
                columns == source.width,
                rows == to.height,
                columns <= 8_388_608,
                rows <= 8_388_608,
                to.width <= 8_388_608,
        ;
        if 16 * (columns * rows) > limit || 4 * ((to.width as u64) * rows) > limit {
            return Err(ResizeError::Resampling);
        }
    }
    match lanczos3_resize(&source.pixels, source.width, source.height, to.width, to.height) {
        Some(pixels) => Ok(Raster { width: to.width, height: to.height, pixels }),
        None => Err(ResizeError::Resampling),
    }
}

/// Cuts out of `scaled` the window that `fit` describes: `fit.final_size`
/// pixels whose top-left corner is at `fit.crop_origin`.
///
/// `fit` must be a fit for an image of the extent of `scaled`, with its window
/// inside that extent, as every fit that `compute_cover` returns is. The
/// result is refused with `Resampling` exactly when the buffer of `scaled` is
/// shorter than its extent demands.
pub fn crop_to_fit(scaled: &Raster, fit: CoverFit) -> (result: Result<Raster, ResizeError>)
    requires
        scaled.dimensions() == fit.scaled,
        fit.crop_within_scaled(),
    ensures
        !scaled.covers_dimensions() ==> result == Err::<Raster, ResizeError>(
            ResizeError::Resampling,
        ),
        scaled.covers_dimensions() ==> result is Ok,
        result matches Ok(out) ==> {
            &&& out.dimensions() == fit.final_size
            &&& out.well_formed()
            &&& out.pixels@ == window_of(
                scaled.pixels@,
                scaled.width as int,
                fit.crop_origin.x as int,
                fit.crop_origin.y as int,
                fit.final_size.width as int,
                fit.final_size.height as int,
            )
        },
{
    let cut = crop_window(
        &scaled.pixels,
        scaled.width,
        scaled.height,
        fit.crop_origin.x,
        fit.crop_origin.y,
        fit.final_size.width,
        fit.final_size.height,
    );
    match cut {
        Some(pixels) => {
            assert(4 * fit.final_size.width * fit.final_size.height >= 0) by (nonlinear_arith);
            Ok(Raster { width: fit.final_size.width, height: fit.final_size.height, pixels })
        },
        None => Err(ResizeError::Resampling),
    }
}

/// Resizes `source` under the inside policy: to the largest extent of its
/// aspect ratio that lies within the box, and never beyond its own.
///
/// A source without pixels is refused with `InvalidInput`, one that cannot be
/// resampled with `Resampling`; every other source succeeds. The result has
/// exactly the inside extent. Where that is the source's own extent, which a
/// request for the source's own width and height always gives, the result is
/// the source, pixel for pixel.
pub fn resize_inside(
    source: &Raster,
    target_width: Option<u32>,
    target_height: Option<u32>,
) -> (result: Result<Raster, ResizeError>)
    ensures
        source.dimensions().is_empty() ==> result == Err::<Raster, ResizeError>(
            ResizeError::InvalidInput,
        ),
        !source.dimensions().is_empty() && !can_resample(
            source,
            inside_extent(source.dimensions(), TargetSpec { target_width, target_height }),
        ) ==> result == Err::<Raster, ResizeError>(ResizeError::Resampling),
        can_resample(
            source,
            inside_extent(source.dimensions(), TargetSpec { target_width, target_height }),
        ) ==> result is Ok,
        result matches Ok(out) ==> {
            &&& out.dimensions() == inside_extent(
                source.dimensions(),
                TargetSpec { target_width, target_height },
            )
            &&& out.well_formed()
            &&& (out.dimensions() == source.dimensions() ==> out.pixels@ == source.image_bytes())
        },
        !source.dimensions().is_empty() && source.covers_dimensions() && target_width == Some(
            source.width,
        ) && target_height == Some(source.height) ==> (result matches Ok(out)
            && out.dimensions() == source.dimensions() && out.pixels@ == source.image_bytes()),
{
    let original = Dimensions { width: source.width, height: source.height };
    let target = TargetSpec { target_width, target_height };
    proof {
        if !original.is_empty() && target == TargetSpec::exactly(original) {
            lemma_inside_never_enlarges(original, target);
        }
    }
    match compute_inside(original, target) {
        Ok(extent) => resample(source, extent),
        Err(e) => Err(e),
    }
}

/// Resizes `source` under the cover policy: to the smallest extent of its
/// aspect ratio that fills the box, of which the centred window of the box's
/// size is kept. A box that is larger than the source on an axis is narrowed
/// to the source there.
///
/// A source without pixels is refused with `InvalidInput`, one that cannot be
/// resampled with `Resampling`; every other source succeeds. The result has
/// exactly the extent of the box. Where the scaled extent is the source's
/// own, the result is the centred window of the source, pixel for pixel; a
/// request for the source's own width and height gives the source itself.
pub fn resize_cover(
    source: &Raster,
    target_width: Option<u32>,
    target_height: Option<u32>,
) -> (result: Result<Raster, ResizeError>)
    ensures
        source.dimensions().is_empty() ==> result == Err::<Raster, ResizeError>(
            ResizeError::InvalidInput,
        ),
        !source.dimensions().is_empty() && !can_resample(
            source,
            cover_scaled(source.dimensions(), TargetSpec { target_width, target_height }),
        ) ==> result == Err::<Raster, ResizeError>(ResizeError::Resampling),
        can_resample(
            source,
            cover_scaled(source.dimensions(), TargetSpec { target_width, target_height }),
        ) ==> result is Ok,
        result matches Ok(out) ==> {
            let target = TargetSpec { target_width, target_height };
            let scaled = cover_scaled(source.dimensions(), target);
            &&& out.dimensions() == effective_target(source.dimensions(), target)
            &&& out.well_formed()
            &&& (scaled == source.dimensions() ==> out.pixels@ == window_of(
                source.image_bytes(),
                source.width as int,
                centred_offset(source.width as int, out.width as int),
                centred_offset(source.height as int, out.height as int),
                out.width as int,
                out.height as int,
            ))
        },
        !source.dimensions().is_empty() && source.covers_dimensions() && target_width == Some(
            source.width,
        ) && target_height == Some(source.height) ==> (result matches Ok(out)
            && out.dimensions() == source.dimensions() && out.pixels@ == source.image_bytes()),
{
    let original = Dimensions { width: source.width, height: source.height };
    let target = TargetSpec { target_width, target_height };
    let fit = match compute_cover(original, target) {
        Ok(fit) => fit,
        Err(e) => { return Err(e); },
    };
    let resampled = match resample(source, fit.scaled) {
        Ok(resampled) => resampled,
        Err(e) => { return Err(e); },
    };
    proof {
        assert(resampled.pixels@.subrange(0, resampled.pixels@.len() as int)
            =~= resampled.pixels@);
        if target == TargetSpec::exactly(original) {
            lemma_full_window(source.image_bytes(), source.width as int, source.height as int);
            assert(source.image_bytes().subrange(0, 4 * source.width * source.height)
                =~= source.image_bytes());
        }
    }
    crop_to_fit(&resampled, fit)
}

} // verus!
