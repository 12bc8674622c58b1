//! The value types that the sizers take and return.
use vstd::prelude::*;

verus! {

/// The pixel extent of a raster.
#[derive(Clone, Copy, Debug, PartialEq, Eq, Structural)]
pub struct Dimensions {
    pub width: u32,
    pub height: u32,
}

impl Dimensions {
    /// True when the raster has no pixel at all.
    pub open spec fn is_empty(self) -> bool {
        self.width == 0 || self.height == 0
    }
}

/// The requested box. An absent axis is unconstrained, which is not the same
/// as a requested extent of zero.
#[derive(Clone, Copy, Debug, PartialEq, Eq, Structural)]
pub struct TargetSpec {
    pub target_width: Option<u32>,
    pub target_height: Option<u32>,
}

impl TargetSpec {
    /// The request that constrains neither axis.
    pub open spec fn unconstrained() -> TargetSpec {
        TargetSpec { target_width: None, target_height: None }
    }

    /// The request for exactly the extent `d`.
    pub open spec fn exactly(d: Dimensions) -> TargetSpec {
        TargetSpec { target_width: Some(d.width), target_height: Some(d.height) }
    }
}

/// The top-left corner of a crop rectangle.
#[derive(Clone, Copy, Debug, PartialEq, Eq, Structural)]
pub struct CropOrigin {
    pub x: u32,
    pub y: u32,
}

/// What the cover policy decides: the size to resample to, and the rectangle
/// of `final_size` at `crop_origin` to cut out of the resampled image.
#[derive(Clone, Copy, Debug, PartialEq, Eq, Structural)]
pub struct CoverFit {
    pub scaled: Dimensions,
    pub crop_origin: CropOrigin,
    pub final_size: Dimensions,
}

impl CoverFit {
    /// The crop rectangle lies within the resampled image.
    pub open spec fn crop_within_scaled(self) -> bool {
        &&& self.crop_origin.x + self.final_size.width <= self.scaled.width
        &&& self.crop_origin.y + self.final_size.height <= self.scaled.height
    }
}

/// Why a resize was refused.
#[derive(Clone, Copy, Debug, PartialEq, Eq, Structural)]
pub enum ResizeError {
    /// The source has a width or a height of zero.
    InvalidInput,
    /// The image cannot be resampled: its buffer is shorter than its
    /// dimensions demand, or an extent or a working buffer would be larger
    /// than the resampler can take.
    Resampling,
}

} // verus!
