//! The inside policy: the largest extent of the original's aspect ratio that
//! lies within the requested box, and never beyond the original itself.
use vstd::prelude::*;
use crate::geometry::{Dimensions, ResizeError, TargetSpec};
use crate::ratio::{
    lemma_compare_with_one, lemma_floor_times_upper, lemma_le_transitive, lemma_times_exact,
    Ratio, Scale,
};

verus! {

/// The factor that one axis asks for: `target / original` where the axis is
/// constrained, 1 where it is not.
pub open spec fn axis_ratio(target: Option<u32>, original: u32) -> Ratio {
    match target {
        Some(t) => Ratio::of(t, original),
        None => Ratio::one(),
    }
}

/// Computes the factor that one axis asks for.
pub(crate) fn axis_scale(target: Option<u32>, original: u32) -> (s: Scale)
    ensures
        s@ == axis_ratio(target, original),
{
    match target {
        Some(t) => Scale::of(t, original),
        None => Scale::one(),
    }
}

/// The inside scale: the smallest of the two axis ratios and 1.
pub open spec fn inside_scale(original: Dimensions, target: TargetSpec) -> Ratio {
    axis_ratio(target.target_width, original.width).min(
        axis_ratio(target.target_height, original.height),
    ).min(Ratio::one())
}

/// The inside width: `floor(width * scale)`.
pub open spec fn inside_width(original: Dimensions, target: TargetSpec) -> int {
    inside_scale(original, target).floor_times(original.width as int)
}

/// The inside height: `floor(height * scale)`.
pub open spec fn inside_height(original: Dimensions, target: TargetSpec) -> int {
    inside_scale(original, target).floor_times(original.height as int)
}

/// The inside extent as a pair.
pub open spec fn inside_extent(original: Dimensions, target: TargetSpec) -> Dimensions {
    Dimensions {
        width: inside_width(original, target) as u32,
        height: inside_height(original, target) as u32,
    }
}

/// The inside scale is a valid factor, at most 1 and at most either axis
/// ratio.
pub proof fn lemma_inside_scale_bounds(original: Dimensions, target: TargetSpec)
    requires
        !original.is_empty(),
    ensures
        inside_scale(original, target).valid(),
        inside_scale(original, target).le(Ratio::one()),
        inside_scale(original, target).le(axis_ratio(target.target_width, original.width)),
        inside_scale(original, target).le(axis_ratio(target.target_height, original.height)),
{
    let wr = axis_ratio(target.target_width, original.width);
    let hr = axis_ratio(target.target_height, original.height);
    let m = wr.min(hr);
    let s = m.min(Ratio::one());
    lemma_compare_with_one(m);
    lemma_compare_with_one(Ratio::one());
    assert(wr.le(wr) && hr.le(hr) && Ratio::one().le(Ratio::one()));
    assert(m.le(wr) && m.le(hr));
    assert(s.le(m));
    lemma_le_transitive(s, m, wr);
    lemma_le_transitive(s, m, hr);
}

/// The inside extent never exceeds the original, nor the box on an axis that
/// the request constrains.
pub proof fn lemma_inside_within_bounds(original: Dimensions, target: TargetSpec)
    requires
        !original.is_empty(),
    ensures
        0 <= inside_width(original, target) <= original.width,
        0 <= inside_height(original, target) <= original.height,
        target.target_width matches Some(tw) ==> inside_width(original, target) <= tw,
        target.target_height matches Some(th) ==> inside_height(original, target) <= th,
{
    let s = inside_scale(original, target);
    let (w, h) = (original.width as int, original.height as int);
    lemma_inside_scale_bounds(original, target);
    lemma_compare_with_one(s);
    assert(w * s.num <= w * s.den && h * s.num <= h * s.den) by (nonlinear_arith)
        requires
            s.num <= s.den,
            w >= 0,
            h >= 0,
    ;
    lemma_floor_times_upper(s, w, w);
    lemma_floor_times_upper(s, h, h);
    if let Some(tw) = target.target_width {
        assert(w * s.num <= tw * s.den) by (nonlinear_arith)
            requires
                s.num * w <= tw * s.den,
        ;
        lemma_floor_times_upper(s, w, tw as int);
    }
    if let Some(th) = target.target_height {
        assert(h * s.num <= th * s.den) by (nonlinear_arith)
            requires
                s.num * h <= th * s.den,
        ;
        lemma_floor_times_upper(s, h, th as int);
    }
}

/// With neither axis constrained the inside extent is the original.
pub proof fn lemma_inside_unconstrained(original: Dimensions)
    requires
        !original.is_empty(),
    ensures
        inside_width(original, TargetSpec::unconstrained()) == original.width,
        inside_height(original, TargetSpec::unconstrained()) == original.height,
{
    let s = inside_scale(original, TargetSpec::unconstrained());
    assert(s == Ratio::one());
    lemma_times_exact(s, original.width as int, original.width as int);
    lemma_times_exact(s, original.height as int, original.height as int);
}

/// A request for the original's own extent, or for more on both axes, leaves
/// the extent as it is.
pub proof fn lemma_inside_never_enlarges(original: Dimensions, target: TargetSpec)
    requires
        !original.is_empty(),
        target.target_width matches Some(tw) ==> tw >= original.width,
        target.target_height matches Some(th) ==> th >= original.height,
    ensures
        inside_width(original, target) == original.width,
        inside_height(original, target) == original.height,
{
    let wr = axis_ratio(target.target_width, original.width);
    let hr = axis_ratio(target.target_height, original.height);
    let s = inside_scale(original, target);
    lemma_compare_with_one(wr);
    lemma_compare_with_one(hr);
    lemma_compare_with_one(wr.min(hr));
    assert(Ratio::one().le(wr) && Ratio::one().le(hr));
    assert(Ratio::one().le(wr.min(hr)));
    assert(s.num == s.den && s.den > 0);
    assert(original.width * s.num == original.width * s.den && original.height * s.num
        == original.height * s.den) by (nonlinear_arith)
        requires
            s.num == s.den,
    ;
    lemma_times_exact(s, original.width as int, original.width as int);
    lemma_times_exact(s, original.height as int, original.height as int);
}

/// Computes the extent that the inside policy gives `original` in the box
/// `target`.
///
/// An original without pixels is refused with `InvalidInput`; every other
/// input succeeds. The result is `floor(extent * scale)` on each axis, which
/// lies within the original and within the box.
pub fn compute_inside(original: Dimensions, target: TargetSpec) -> (result: Result<
    Dimensions,
    ResizeError,
>)
    ensures
        original.is_empty() ==> result == Err::<Dimensions, ResizeError>(
            ResizeError::InvalidInput,
        ),
        !original.is_empty() ==> result is Ok,
        result matches Ok(d) ==> {
            &&& d.width == inside_width(original, target)
            &&& d.height == inside_height(original, target)
            &&& d == inside_extent(original, target)
            &&& d.width <= original.width
            &&& d.height <= original.height
            &&& (target.target_width matches Some(tw) ==> d.width <= tw)
            &&& (target.target_height matches Some(th) ==> d.height <= th)
            &&& (target == TargetSpec::unconstrained() ==> d == original)
        },
{
    if original.width == 0 || original.height == 0 {
        return Err(ResizeError::InvalidInput);
    }
    let scale = axis_scale(target.target_width, original.width).min(
        axis_scale(target.target_height, original.height),
    ).min(Scale::one());
    proof {
        lemma_inside_within_bounds(original, target);
        if target == TargetSpec::unconstrained() {
            lemma_inside_unconstrained(original);
        }
    }
    let width: u64 = scale.floor_times(original.width);
    let height: u64 = scale.floor_times(original.height);
    Ok(Dimensions { width: width as u32, height: height as u32 })
}

} // verus!
