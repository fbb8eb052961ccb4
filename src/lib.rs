//! Memory-bounded, block-aware traversal planning for large row-major rasters,
//! and local index translation between two aligned rasters.
use vstd::prelude::*;

pub mod align;
pub mod arith;
pub mod chunking;
pub mod geometry;
pub mod readers;

verus! {

/// Errors raised by this library.
#[derive(Debug, Clone, Copy, PartialEq, Eq, Structural)]
pub enum RasterUtilsError {
    /// An object with a zero width, height or extent was met where
    /// a positive one is needed.
    ZeroDimention,
}

/// The `Result` type returned by this crate.
pub type Result<T> = std::result::Result<T, RasterUtilsError>;

} // verus!
