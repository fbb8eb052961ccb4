//! Staged construction of a [`ChunkConfig`].
use vstd::prelude::*;

use super::{ChunkConfig, ChunkConfigView, RasterUtilsError, Result};
use crate::arith::{
    ceil_div, lcm, lcm_usize, lemma_lcm_common_multiple, lemma_lcm_self, lemma_round_up,
    next_multiple, round_up,
};

verus! {

/// Builder for [`ChunkConfig`].
pub struct ChunkConfigBuilder(ChunkConfig);

impl View for ChunkConfigBuilder {
    type V = ChunkConfigView;

    closed spec fn view(&self) -> ChunkConfigView {
        self.0@
    }
}

impl ChunkConfigBuilder {
    pub open spec fn wf(&self) -> bool {
        self@.wf()
    }

    /// A builder for a raster of the given dimensions: block size 1,
    /// one data row per chunk, no padding, and the whole height as range.
    pub fn new(width: usize, height: usize) -> (r: Self)
        requires
            width > 0,
            height > 0,
        ensures
            r.wf(),
            r@ == (ChunkConfigView {
                width: width as nat,
                height: height as nat,
                block_size: 1,
                data_height: 1,
                padding: 0,
                start: 0,
                end: height as nat,
            }),
    {
        let default_config = ChunkConfig {
            width,
            height,
            block_size: 1,
            data_height: 1,
            padding: 0,
            start: 0,
            end: height,
        };
        ChunkConfigBuilder(default_config)
    }

    /// [`ChunkConfigBuilder::new`] for dimensions that may be zero:
    /// `ZeroDimention` where either is.
    pub fn try_new(width: usize, height: usize) -> (r: Result<Self>)
        ensures
            r.is_err() == (width == 0 || height == 0),
            r.is_err() ==> r == Err::<Self, RasterUtilsError>(RasterUtilsError::ZeroDimention),
            r.is_ok() ==> r.unwrap().wf() && r.unwrap()@ == (ChunkConfigView {
                width: width as nat,
                height: height as nat,
                block_size: 1,
                data_height: 1,
                padding: 0,
                start: 0,
                end: height as nat,
            }),
    {
        if width == 0 || height == 0 {
            Err(RasterUtilsError::ZeroDimention)
        } else {
            Ok(Self::new(width, height))
        }
    }

    /// Accumulates `block_size`: the block size becomes the least common
    /// multiple of the current one and `block_size`, and the data height is
    /// raised to the next multiple of it.
    pub fn add_block_size(self, block_size: usize) -> (r: Self)
        requires
            self.wf(),
            block_size > 0,
            lcm(self@.block_size, block_size as nat) <= usize::MAX,
            round_up(self@.data_height, lcm(self@.block_size, block_size as nat)) <= usize::MAX,
        ensures
            r.wf(),
            r@ == (ChunkConfigView {
                block_size: lcm(self@.block_size, block_size as nat),
                data_height: round_up(self@.data_height, lcm(self@.block_size, block_size as nat)),
                ..self@
            }),
    {
        let mut this = self;
        if this.0.block_size != block_size {
            proof {
                lemma_lcm_common_multiple(self@.block_size, block_size as nat);
            }
            this.0.block_size = lcm_usize(this.0.block_size, block_size);
            this.adjust_data_height();
        } else {
            proof {
                lemma_lcm_self(block_size as nat);
                lemma_round_up(self@.data_height, self@.block_size);
            }
        }
        this
    }

    /// Sets the minimum number of data rows per chunk, raised to the next
    /// multiple of the block size.
    pub fn with_data_height(self, data_height: usize) -> (r: Self)
        requires
            self.wf(),
            data_height > 0,
            round_up(data_height as nat, self@.block_size) <= usize::MAX,
        ensures
            r.wf(),
            r@ == (ChunkConfigView {
                data_height: round_up(data_height as nat, self@.block_size),
                ..self@
            }),
    {
        let mut this = self;
        this.0.data_height = data_height;
        this.adjust_data_height();
        this
    }

    /// Raises the data height to the next multiple of the block size.
    fn adjust_data_height(&mut self)
        requires
            old(self)@.width > 0,
            old(self)@.height > 0,
            old(self)@.block_size > 0,
            old(self)@.data_height > 0,
            old(self)@.padding <= old(self)@.start,
            old(self)@.end <= old(self)@.height,
            round_up(old(self)@.data_height, old(self)@.block_size) <= usize::MAX,
        ensures
            final(self).wf(),
            final(self)@ == (ChunkConfigView {
                data_height: round_up(old(self)@.data_height, old(self)@.block_size),
                ..old(self)@
            }),
    {
        proof {
            lemma_round_up(self@.data_height, self@.block_size);
        }
        self.0.data_height = next_multiple(self.0.data_height, self.0.block_size);
    }

    /// Sets the data height from a number of data pixels per chunk: the
    /// pixel count divided by the width, rounded up, then raised to the
    /// next multiple of the block size.
    pub fn with_data_size(self, data_size: usize) -> (r: Self)
        requires
            self.wf(),
            data_size > 0,
            round_up(ceil_div(data_size as nat, self@.width), self@.block_size) <= usize::MAX,
        ensures
            r.wf(),
            r@ == (ChunkConfigView {
                data_height: round_up(ceil_div(data_size as nat, self@.width), self@.block_size),
                ..self@
            }),
    {
        let width = self.0.width;
        let data_height: usize = if data_size % width == 0 {
            data_size / width
        } else {
            proof {
                assert(data_size / width < data_size) by (nonlinear_arith)
                    requires
                        data_size % width != 0,
                        width > 0,
                        data_size > 0,
                ;
            }
            data_size / width + 1
        };
        proof {
            if data_size % width == 0 {
                assert(data_size / width > 0) by (nonlinear_arith)
                    requires
                        data_size > 0,
                        data_size % width == 0,
                        width > 0,
                ;
            }
        }
        self.with_data_height(data_height)
    }

    /// Sets the padding rows wanted on either side of each chunk; the start
    /// of the range is raised to at least the padding.
    pub fn with_padding(self, padding: usize) -> (r: Self)
        requires
            self.wf(),
        ensures
            r.wf(),
            r@ == (ChunkConfigView {
                padding: padding as nat,
                start: if self@.start >= padding { self@.start } else { padding as nat },
                ..self@
            }),
    {
        let mut this = self;
        this.0.padding = padding;
        this.adjust_start();
        this
    }

    /// Sets the start of the processing range, raised to at least the padding.
    pub fn with_start(self, start: usize) -> (r: Self)
        requires
            self.wf(),
        ensures
            r.wf(),
            r@ == (ChunkConfigView {
                start: if start >= self@.padding { start as nat } else { self@.padding },
                ..self@
            }),
    {
        let mut this = self;
        this.0.start = start;
        this.adjust_start();
        this
    }

    /// Raises the start of the range to at least the padding.
    fn adjust_start(&mut self)
        requires
            old(self)@.width > 0,
            old(self)@.height > 0,
            old(self)@.block_size > 0,
            old(self)@.data_height > 0,
            old(self)@.data_height % old(self)@.block_size == 0,
            old(self)@.end <= old(self)@.height,
        ensures
            final(self).wf(),
            final(self)@ == (ChunkConfigView {
                start: if old(self)@.start >= old(self)@.padding {
                    old(self)@.start
                } else {
                    old(self)@.padding
                },
                ..old(self)@
            }),
    {
        if self.0.start < self.0.padding {
            self.0.start = self.0.padding;
        }
    }

    /// Sets the end of the processing range, clipped to the height.
    pub fn with_end(self, end: usize) -> (r: Self)
        requires
            self.wf(),
        ensures
            r.wf(),
            r@ == (ChunkConfigView {
                end: if end <= self@.height { end as nat } else { self@.height },
                ..self@
            }),
    {
        let mut this = self;
        this.0.end = if end <= this.0.height {
            end
        } else {
            this.0.height
        };
        this
    }

    /// The configuration built.
    pub fn build(self) -> (r: ChunkConfig)
        requires
            self.wf(),
        ensures
            r.wf(),
            r@ == self@,
    {
        self.0
    }
}

} // verus!
