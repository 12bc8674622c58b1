//! The cover policy: the smallest extent of the original's aspect ratio that
//! still fills the requested box, and the centred rectangle of the box's
//! size to cut out of it.
//!
//! An image is never enlarged, so a box that is wider or taller than the
//! original is narrowed to the original on that axis before anything else is
//! computed. The crop rectangle therefore always lies within the scaled
//! image.
use vstd::prelude::*;
use crate::geometry::{CoverFit, CropOrigin, Dimensions, ResizeError, TargetSpec};
use crate::inside::axis_ratio;
use crate::ratio::{
    lemma_compare_with_one, lemma_le_transitive, lemma_round_times_between, lemma_times_exact,
    Ratio, Scale,
};

verus! {

/// The extent of the box on one axis: what was asked for, the original where
/// nothing was asked for, and never more than the original.
pub open spec fn effective_extent(target: Option<u32>, original: u32) -> u32 {
    match target {
        Some(t) => if t < original {
            t
        } else {
            original
        },
        None => original,
    }
}

/// Computes the extent of the box on one axis.
pub(crate) fn effective(target: Option<u32>, original: u32) -> (extent: u32)
    ensures
        extent == effective_extent(target, original),
{
    match target {
        Some(t) => if t < original {
            t
        } else {
            original
        },
        None => original,
    }
}

/// The cover scale: the larger of the two ratios of box to original, capped
/// at 1.
pub open spec fn cover_scale(original: Dimensions, target: TargetSpec) -> Ratio {
    Ratio::of(effective_extent(target.target_width, original.width), original.width).max(
        Ratio::of(effective_extent(target.target_height, original.height), original.height),
    ).min(Ratio::one())
}

/// The width to resample to: `round(width * scale)`.
pub open spec fn cover_scaled_width(original: Dimensions, target: TargetSpec) -> int {
    cover_scale(original, target).round_times(original.width as int)
}

/// The height to resample to: `round(height * scale)`.
pub open spec fn cover_scaled_height(original: Dimensions, target: TargetSpec) -> int {
    cover_scale(original, target).round_times(original.height as int)
}

/// The extent to resample to, as a pair.
pub open spec fn cover_scaled(original: Dimensions, target: TargetSpec) -> Dimensions {
    Dimensions {
        width: cover_scaled_width(original, target) as u32,
        height: cover_scaled_height(original, target) as u32,
    }
}

/// The extent of the box, as a pair.
pub open spec fn effective_target(original: Dimensions, target: TargetSpec) -> Dimensions {
    Dimensions {
        width: effective_extent(target.target_width, original.width),
        height: effective_extent(target.target_height, original.height),
    }
}

/// Where a centred window of `wanted` begins within `scaled`: half of the
/// overhang, rounded down, and 0 where there is none.
pub open spec fn centred_offset(scaled: int, wanted: int) -> int {
    if scaled > wanted {
        (scaled - wanted) / 2
    } else {
        0
    }
}

/// The cover scale is a valid factor, at most 1 and at least the ratio of box
/// to original on either axis.
pub proof fn lemma_cover_scale_bounds(original: Dimensions, target: TargetSpec)
    requires
        !original.is_empty(),
    ensures
        cover_scale(original, target).valid(),
        cover_scale(original, target).le(Ratio::one()),
        Ratio::of(effective_extent(target.target_width, original.width), original.width).le(
            cover_scale(original, target),
        ),
        Ratio::of(effective_extent(target.target_height, original.height), original.height).le(
            cover_scale(original, target),
        ),
{
    let wr = Ratio::of(effective_extent(target.target_width, original.width), original.width);
    let hr = Ratio::of(effective_extent(target.target_height, original.height), original.height);
    let m = wr.max(hr);
    lemma_compare_with_one(wr);
    lemma_compare_with_one(hr);
    assert(wr.le(Ratio::one()) && hr.le(Ratio::one()));
    assert(wr.le(wr) && hr.le(hr));
    assert(m.le(Ratio::one()));
    assert(cover_scale(original, target) == m);
}

/// The scaled extent lies between the box and the original on both axes.
pub proof fn lemma_cover_scaled_between(original: Dimensions, target: TargetSpec)
    requires
        !original.is_empty(),
    ensures
        effective_extent(target.target_width, original.width) <= cover_scaled_width(
            original,
            target,
        ) <= original.width,
        effective_extent(target.target_height, original.height) <= cover_scaled_height(
            original,
            target,
        ) <= original.height,
{
    let s = cover_scale(original, target);
    let (w, h) = (original.width as int, original.height as int);
    let ew = effective_extent(target.target_width, original.width) as int;
    let eh = effective_extent(target.target_height, original.height) as int;
    lemma_cover_scale_bounds(original, target);
    lemma_compare_with_one(s);
    assert(ew * s.den <= w * s.num <= w * s.den && eh * s.den <= h * s.num <= h * s.den)
        by (nonlinear_arith)
        requires
            ew * s.den <= s.num * w,
            eh * s.den <= s.num * h,
            s.num <= s.den,
            w >= 0,
            h >= 0,
    ;
    lemma_round_times_between(s, w, ew, w);
    lemma_round_times_between(s, h, eh, h);
}

/// On the axis that decides the scale, the scaled extent is the box's: at
/// least one of the two crop offsets is 0.
pub proof fn lemma_cover_binding_axis(original: Dimensions, target: TargetSpec)
    requires
        !original.is_empty(),
    ensures
        cover_scaled_width(original, target) == effective_extent(
            target.target_width,
            original.width,
        ) || cover_scaled_height(original, target) == effective_extent(
            target.target_height,
            original.height,
        ),
{
    let wr = Ratio::of(effective_extent(target.target_width, original.width), original.width);
    let hr = Ratio::of(effective_extent(target.target_height, original.height), original.height);
    let s = cover_scale(original, target);
    lemma_cover_scale_bounds(original, target);
    assert(s == wr.max(hr));
    if s == wr {
        assert(original.width * s.num == wr.num * s.den) by (nonlinear_arith)
            requires
                s.num == wr.num,
                s.den == original.width,
        ;
        lemma_times_exact(s, original.width as int, wr.num);
    } else {
        assert(original.height * s.num == hr.num * s.den) by (nonlinear_arith)
            requires
                s.num == hr.num,
                s.den == original.height,
        ;
        lemma_times_exact(s, original.height as int, hr.num);
    }
}

/// The centred window of the box's size lies within the scaled extent on both
/// axes.
pub proof fn lemma_cover_crop_within_scaled(original: Dimensions, target: TargetSpec)
    requires
        !original.is_empty(),
    ensures
        ({
            let scaled = cover_scaled_width(original, target);
            let wanted = effective_extent(target.target_width, original.width) as int;
            0 <= centred_offset(scaled, wanted) && centred_offset(scaled, wanted) + wanted
                <= scaled
        }),
        ({
            let scaled = cover_scaled_height(original, target);
            let wanted = effective_extent(target.target_height, original.height) as int;
            0 <= centred_offset(scaled, wanted) && centred_offset(scaled, wanted) + wanted
                <= scaled
        }),
{
    lemma_cover_scaled_between(original, target);
}

/// The scale that the request itself asks for, before the box is narrowed to
/// the original: the larger of the two axis ratios, capped at 1.
pub open spec fn requested_scale(original: Dimensions, target: TargetSpec) -> Ratio {
    axis_ratio(target.target_width, original.width).max(
        axis_ratio(target.target_height, original.height),
    ).min(Ratio::one())
}

/// Narrowing the box to the original does not change the scaled extent: the
/// scale that the request itself asks for gives the same one.
pub proof fn lemma_cover_scaled_of_request(original: Dimensions, target: TargetSpec)
    requires
        !original.is_empty(),
    ensures
        requested_scale(original, target).round_times(original.width as int)
            == cover_scaled_width(original, target),
        requested_scale(original, target).round_times(original.height as int)
            == cover_scaled_height(original, target),
{
    let (w, h) = (original.width as int, original.height as int);
    let rw = axis_ratio(target.target_width, original.width);
    let rh = axis_ratio(target.target_height, original.height);
    let requested = requested_scale(original, target);
    let narrowed = cover_scale(original, target);
    let ew = effective_extent(target.target_width, original.width) as int;
    let eh = effective_extent(target.target_height, original.height) as int;
    lemma_cover_scale_bounds(original, target);
    lemma_compare_with_one(rw);
    lemma_compare_with_one(rh);
    lemma_compare_with_one(rw.max(rh));
    lemma_compare_with_one(narrowed);
    if ew < w && eh < h {
        // Neither axis asks for as much as there is: nothing is narrowed.
        assert(requested == narrowed);
    } else {
        // One axis asks for all there is, or more: both scales are 1.
        assert(ew == w ==> eh * w <= w * h) by (nonlinear_arith)
            requires
                eh <= h,
                w > 0,
        ;
        assert(ew < w && eh == h ==> !(h * w <= ew * h)) by (nonlinear_arith)
            requires
                h > 0,
                w > 0,
                ew >= 0,
        ;
        assert(narrowed.num == narrowed.den);
        assert(Ratio::one().le(rw) || Ratio::one().le(rh));
        if Ratio::one().le(rw) && !rh.le(rw) {
            lemma_le_transitive(Ratio::one(), rw, rh);
        }
        if Ratio::one().le(rh) && rh.le(rw) {
            lemma_le_transitive(Ratio::one(), rh, rw);
        }
        assert(Ratio::one().le(rw.max(rh)));
        assert(requested.num == requested.den);
        lemma_scale_of_one(requested, w, h);
        lemma_scale_of_one(narrowed, w, h);
    }
}

/// A factor whose numerator is its denominator leaves both extents as they
/// are.
proof fn lemma_scale_of_one(s: Ratio, w: int, h: int)
    requires
        s.valid(),
        s.num == s.den,
    ensures
        s.round_times(w) == w,
        s.round_times(h) == h,
{
    assert(w * s.num == w * s.den && h * s.num == h * s.den) by (nonlinear_arith)
        requires
            s.num == s.den,
    ;
    lemma_times_exact(s, w, w);
    lemma_times_exact(s, h, h);
}

/// A request for the original's own extent, or for more on both axes, scales
/// nothing and cuts nothing.
pub proof fn lemma_cover_never_enlarges(original: Dimensions, target: TargetSpec)
    requires
        !original.is_empty(),
        target.target_width matches Some(tw) ==> tw >= original.width,
        target.target_height matches Some(th) ==> th >= original.height,
    ensures
        effective_target(original, target) == original,
        cover_scaled(original, target) == original,
        centred_offset(original.width as int, original.width as int) == 0,
        centred_offset(original.height as int, original.height as int) == 0,
{
    lemma_cover_scaled_between(original, target);
}

/// With neither axis constrained nothing is scaled and nothing is cut.
pub proof fn lemma_cover_unconstrained(original: Dimensions)
    requires
        !original.is_empty(),
    ensures
        cover_scaled_width(original, TargetSpec::unconstrained()) == original.width,
        cover_scaled_height(original, TargetSpec::unconstrained()) == original.height,
        effective_extent(None, original.width) == original.width,
        effective_extent(None, original.height) == original.height,
{
    lemma_cover_scaled_between(original, TargetSpec::unconstrained());
}

/// Computes what the cover policy does with `original` for the box `target`.
///
/// An original without pixels is refused with `InvalidInput`; every other
/// input succeeds. The final size is the box, narrowed to the original where
/// it was larger. The scaled size is `round(extent * scale)` on each axis and
/// the crop origin centres the final size within it.
pub fn compute_cover(original: Dimensions, target: TargetSpec) -> (result: Result<
    CoverFit,
    ResizeError,
>)
    ensures
        original.is_empty() ==> result == Err::<CoverFit, ResizeError>(ResizeError::InvalidInput),
        !original.is_empty() ==> result is Ok,
        result matches Ok(fit) ==> {
            &&& fit.final_size.width == effective_extent(target.target_width, original.width)
            &&& fit.final_size.height == effective_extent(target.target_height, original.height)
            &&& fit.final_size == effective_target(original, target)
            &&& fit.scaled.width == cover_scaled_width(original, target)
            &&& fit.scaled.height == cover_scaled_height(original, target)
            &&& fit.scaled == cover_scaled(original, target)
            &&& fit.crop_origin.x == centred_offset(
                fit.scaled.width as int,
                fit.final_size.width as int,
            )
            &&& fit.crop_origin.y == centred_offset(
                fit.scaled.height as int,
                fit.final_size.height as int,
            )
            &&& fit.crop_within_scaled()
            &&& fit.scaled.width <= original.width
            &&& fit.scaled.height <= original.height
            &&& (fit.crop_origin.x == 0 || fit.crop_origin.y == 0)
            &&& (target == TargetSpec::unconstrained() ==> fit == (CoverFit {
                scaled: original,
                crop_origin: CropOrigin { x: 0, y: 0 },
                final_size: original,
            }))
        },
{
    if original.width == 0 || original.height == 0 {
        return Err(ResizeError::InvalidInput);
    }
    let final_width: u32 = effective(target.target_width, original.width);
    let final_height: u32 = effective(target.target_height, original.height);
    let scale = Scale::of(final_width, original.width).max(
        Scale::of(final_height, original.height),
    ).min(Scale::one());
    proof {
        lemma_cover_scaled_between(original, target);
        lemma_cover_binding_axis(original, target);
        if target == TargetSpec::unconstrained() {
            lemma_cover_unconstrained(original);
        }
    }
    let scaled_width: u64 = scale.round_times(original.width);
    let scaled_height: u64 = scale.round_times(original.height);
    let scaled = Dimensions { width: scaled_width as u32, height: scaled_height as u32 };
    let crop_x: u32 = if scaled.width > final_width {
        (scaled.width - final_width) / 2
    } else {
        0
    };
    let crop_y: u32 = if scaled.height > final_height {
        (scaled.height - final_height) / 2
    } else {
        0
    };
    Ok(
        CoverFit {
            scaled,
            crop_origin: CropOrigin { x: crop_x, y: crop_y },
            final_size: Dimensions { width: final_width, height: final_height },
        },
    )
}

} // verus!
