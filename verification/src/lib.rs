//! Sizing and cropping geometry for fitting an RGBA raster into a requested
//! box, and the resize operations built on it.
//!
//! Two fit policies are offered. *Inside* shrinks the image until it lies
//! within the box, keeping its aspect ratio. *Cover* shrinks it until it still
//! fills the box and cuts the overhang away around the centre. Neither ever
//! enlarges an image.
//!
//! Sizes are computed in exact integer arithmetic: a scale factor is a
//! fraction, and the one rounding step is applied to the exact product. The
//! pixels themselves are resampled and cut by the `image` crate.
pub mod geometry;
pub mod ratio;
pub mod inside;
pub mod cover;
pub mod raster;
mod resample;
pub mod resize;
