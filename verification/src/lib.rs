//! Pixel-wise comparison of raster images.
//!
//! Two equally-sized color images are compared channel by channel: a channel
//! whose absolute difference exceeds a configurable threshold is divergent,
//! a pixel with at least one divergent channel is mismatched, and the run is
//! a match exactly when the number of mismatched pixels stays within an
//! absolute-or-ratio error threshold. An optional diff image visualizes the
//! per-channel divergence.

pub mod compare;
pub mod parse;
pub mod raster;
pub mod threshold;
pub mod verbosity;
