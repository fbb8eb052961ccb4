//! Values shared by the readers of raster data, and a raster band held
//! in memory that serves windows of its pixels.
use vstd::prelude::*;

use crate::geometry::RasterWindow;

verus! {

/// 1-based index of a band within a raster dataset.
#[derive(Clone, Copy)]
pub struct BandIndex(usize);

impl BandIndex {
    #[verifier::type_invariant]
    spec fn positive(&self) -> bool {
        self.0 > 0
    }

    /// The index held.
    pub closed spec fn value(&self) -> nat {
        self.0 as nat
    }

    /// The band index `index`, or `None` for 0.
    pub fn new(index: usize) -> (r: Option<BandIndex>)
        ensures
            r.is_some() == (index > 0),
            r.is_some() ==> r.unwrap().value() == index,
    {
        if index > 0 {
            Some(BandIndex(index))
        } else {
            None
        }
    }

    /// The index, always positive.
    pub fn get(&self) -> (r: usize)
        ensures
            r == self.value(),
            r > 0,
    {
        proof {
            use_type_invariant(self);
        }
        self.0
    }
}

/// The first `h` rows of the `w` by `h` window at `(x, y)` of a row-major
/// grid `width` pixels wide, concatenated row after row.
pub open spec fn window_rows<T>(data: Seq<T>, width: nat, x: nat, y: nat, w: nat, h: nat) -> Seq<T>
    decreases h,
{
    if h == 0 {
        seq![]
    } else {
        let row_start = (y + h - 1) * width + x;
        window_rows(data, width, x, y, w, (h - 1) as nat) + data.subrange(
            row_start as int,
            (row_start + w) as int,
        )
    }
}

/// A raster band held in memory as row-major pixels; it serves reads of
/// windows without any storage backend.
pub struct MemoryBand<T> {
    width: usize,
    height: usize,
    data: Vec<T>,
}

impl<T> MemoryBand<T> {
    #[verifier::type_invariant]
    spec fn whole(&self) -> bool {
        self.data@.len() == self.width * self.height
    }
}

impl<T: Copy> MemoryBand<T> {
    pub closed spec fn width(&self) -> nat {
        self.width as nat
    }

    pub closed spec fn height(&self) -> nat {
        self.height as nat
    }

    /// The pixels, row after row.
    pub closed spec fn pixels(&self) -> Seq<T> {
        self.data@
    }


    /// A band of `width` by `height` pixels, or `None` where `data` does
    /// not hold exactly that many.
    pub fn new(width: usize, height: usize, data: Vec<T>) -> (r: Option<Self>)
        ensures
            r.is_some() == (data@.len() == width * height),
            r.is_some() ==> {
                &&& r.unwrap().width() == width
                &&& r.unwrap().height() == height
                &&& r.unwrap().pixels() == data@
            },
    {
        if width == 0 || height == 0 {
            if data.len() == 0 {
                proof {
                    assert(width * height == 0) by (nonlinear_arith)
                        requires
                            width == 0 || height == 0,
                    ;
                }
                return Some(MemoryBand { width, height, data });
            } else {
                proof {
                    assert(width * height == 0) by (nonlinear_arith)
                        requires
                            width == 0 || height == 0,
                    ;
                }
                return None;
            }
        }
        if data.len() / width == height && data.len() % width == 0 {
            proof {
                vstd::arithmetic::div_mod::lemma_fundamental_div_mod(data@.len() as int, width as int);
                assert(width * height == height * width) by (nonlinear_arith);
            }
            Some(MemoryBand { width, height, data })
        } else {
            proof {
                if data@.len() == width * height {
                    vstd::arithmetic::div_mod::lemma_div_multiples_vanish(height as int, width as int);
                    vstd::arithmetic::div_mod::lemma_mod_multiples_basic(height as int, width as int);
                    assert(width * height == height * width) by (nonlinear_arith);
                }
            }
            None
        }
    }

    /// The pixels of `window`, row after row, or `None` where the window
    /// does not lie within the band.
    pub fn read_window(&self, window: &RasterWindow) -> (r: Option<Vec<T>>)
        ensures
            r.is_some() == (window.offset.0 + window.size.0 <= self.width() && window.offset.1
                + window.size.1 <= self.height()),
            r.is_some() ==> r.unwrap()@ == window_rows(
                self.pixels(),
                self.width(),
                window.offset.0 as nat,
                window.offset.1 as nat,
                window.size.0 as nat,
                window.size.1 as nat,
            ),
    {
        proof {
            use_type_invariant(self);
        }
        let (x, y) = window.offset;
        let (w, h) = window.size;
        if w > self.width || x > self.width - w || h > self.height || y > self.height - h {
            return None;
        }
        let n = self.data.len();
        let mut out: Vec<T> = Vec::new();
        let mut i: usize = 0;
        while i < h
            invariant
                self.data@.len() == self.width * self.height,
                (x, y) == window.offset,
                (w, h) == window.size,
                x + w <= self.width,
                y + h <= self.height,
                i <= h,
                n == self.data@.len(),
                out@ == window_rows(self.data@, self.width as nat, x as nat, y as nat, w as nat, i as nat),
            decreases h - i,
        {
            proof {
                assert((y + i) * self.width + x + w <= self.width * self.height) by (nonlinear_arith)
                    requires
                        y + i < self.height,
                        x + w <= self.width,
                ;
            }
            let row_start: usize = (y + i) * self.width + x;
            let ghost before = out@;
            let mut j: usize = 0;
            while j < w
                invariant
                    row_start + w <= self.data@.len(),
                    n == self.data@.len(),
                    j <= w,
                    out@ == before + self.data@.subrange(row_start as int, (row_start + j) as int),
                decreases w - j,
            {
                out.push(self.data[row_start + j]);
                proof {
                    assert(self.data@.subrange(row_start as int, (row_start + j + 1) as int)
                        =~= self.data@.subrange(row_start as int, (row_start + j) as int).push(
                        self.data@[row_start + j],
                    ));
                }
                j = j + 1;
            }
            i = i + 1;
        }
        Some(out)
    }
}

} // verus!
