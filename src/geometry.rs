//! Geometry primitives: pixel offsets and sizes, and rectangular windows.
use vstd::prelude::*;

use crate::chunking::ChunkWindow;

verus! {

/// Size `(x, y)` of a raster or a window, in pixels.
pub type Size = (usize, usize);

/// Offset `(x, y)` of a pixel within a raster.
pub type Offset = (usize, usize);

/// Same as [`Offset`], signed, for backends that take signed coordinates.
pub type GdalOffset = (isize, isize);

/// A rectangular block of pixels within a raster: its top-left offset and
/// its size, both `(x, y)`.
#[derive(Clone, Copy, Debug, PartialEq, Eq)]
pub struct RasterWindow {
    pub offset: Offset,
    pub size: Size,
}

impl RasterWindow {
    /// Number of pixels within the window.
    pub fn num_pixels(&self) -> (r: usize)
        requires
            self.size.0 * self.size.1 <= usize::MAX,
        ensures
            r == self.size.0 * self.size.1,
    {
        self.size.0 * self.size.1
    }

    /// Window offset `(x, y)`.
    pub fn offset(&self) -> (r: Offset)
        ensures
            r == self.offset,
    {
        self.offset
    }

    /// Window size `(x, y)`.
    pub fn size(&self) -> (r: Size)
        ensures
            r == self.size,
    {
        self.size
    }

    /// Window shape `(rows, columns)`.
    pub fn shape(&self) -> (r: (usize, usize))
        ensures
            r == (self.size.1, self.size.0),
    {
        (self.size.1, self.size.0)
    }

    /// The window as a signed offset and a size, or `None` where a
    /// coordinate of the offset does not fit in `isize`.
    pub fn to_gdal(&self) -> (r: Option<(GdalOffset, Size)>)
        ensures
            r.is_some() == (self.offset.0 <= isize::MAX && self.offset.1 <= isize::MAX),
            r.is_some() ==> r.unwrap().0.0 == self.offset.0 && r.unwrap().0.1 == self.offset.1
                && r.unwrap().1 == self.size,
    {
        if self.offset.0 <= isize::MAX as usize && self.offset.1 <= isize::MAX as usize {
            Some(((self.offset.0 as isize, self.offset.1 as isize), self.size))
        } else {
            None
        }
    }

    /// The full-width window of a chunk: from column 0 over the
    /// configuration's width, from the chunk's first row over its rows.
    pub fn from_chunk(chunk: ChunkWindow<'_>) -> (r: RasterWindow)
        ensures
            r.offset == (0usize, chunk.1),
            r.size.0 == chunk.0@.width,
            r.size.1 == chunk.2,
    {
        let (cfg, start, rows) = chunk;
        RasterWindow { offset: (0, start), size: (cfg.width(), rows) }
    }
}

impl From<(Offset, Size)> for RasterWindow {
    fn from(value: (Offset, Size)) -> (r: RasterWindow) {
        RasterWindow { offset: value.0, size: value.1 }
    }
}

impl vstd::std_specs::convert::FromSpecImpl<(Offset, Size)> for RasterWindow {
    open spec fn obeys_from_spec() -> bool {
        true
    }

    open spec fn from_spec(v: (Offset, Size)) -> RasterWindow {
        RasterWindow { offset: v.0, size: v.1 }
    }
}

impl From<RasterWindow> for (Offset, Size) {
    fn from(value: RasterWindow) -> (r: (Offset, Size)) {
        (value.offset, value.size)
    }
}

impl vstd::std_specs::convert::FromSpecImpl<RasterWindow> for (Offset, Size) {
    open spec fn obeys_from_spec() -> bool {
        true
    }

    open spec fn from_spec(v: RasterWindow) -> (Offset, Size) {
        (v.offset, v.size)
    }
}

/// Converting an `(offset, size)` pair to a window and back gives the pair.
pub proof fn lemma_window_round_trip(pair: (Offset, Size))
    ensures
        ({
            let w = <RasterWindow as vstd::std_specs::convert::FromSpec<
                (Offset, Size),
            >>::from_spec(pair);
            <(Offset, Size) as vstd::std_specs::convert::FromSpec<RasterWindow>>::from_spec(w)
                == pair
        }),
{
}

} // verus!
