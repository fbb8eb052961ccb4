//! Index lookup between two aligned rasters.
//!
//! A point of a chunk of raster `A`, mapped through the chunk-local
//! transform, lands at real coordinates `(x, y)` of the matching chunk of
//! raster `B`. The pixel of `B` that contains it is `(floor(x), floor(y))`,
//! if that pixel lies within `B`'s chunk.
use vstd::prelude::*;

use crate::geometry::Size;

verus! {

/// The `(row, column)` index, within a target of `dim = (columns, rows)`,
/// of the pixel at floored coordinates `(col, row)`, if it lies within it.
pub open spec fn located(dim: Size, col: int, row: int) -> Option<Size> {
    if 0 <= col < dim.0 && 0 <= row < dim.1 {
        Some((row as usize, col as usize))
    } else {
        None
    }
}

/// Looks up the pixel at floored coordinates `(col, row)` in a target of
/// `dim = (columns, rows)`: its `(row, column)` index, or `None` where a
/// coordinate is negative or at or past its bound.
pub fn locate_index(dim: Size, col: i128, row: i128) -> (r: Option<Size>)
    ensures
        r == located(dim, col as int, row as int),
{
    let (cols, rows) = dim;
    if col < 0 || row < 0 {
        return None;
    }
    if col >= cols as i128 || row >= rows as i128 {
        None
    } else {
        Some((row as usize, col as usize))
    }
}

/// A negative coordinate, or one at or past its bound, finds nothing; a
/// pixel strictly inside the target on both axes is found.
pub proof fn lemma_located_rejects_outside(dim: Size, col: int, row: int)
    ensures
        (col < 0 || row < 0 || col >= dim.0 || row >= dim.1) ==> located(dim, col, row).is_none(),
        (0 <= col < dim.0 && 0 <= row < dim.1) ==> located(dim, col, row).is_some(),
{
}

/// An in-bounds index is found at itself, in `(row, column)` order.
pub proof fn lemma_located_identity(dim: Size, col: usize, row: usize)
    requires
        col < dim.0,
        row < dim.1,
    ensures
        located(dim, col as int, row as int) == Some((row, col)),
{
}

} // verus!
