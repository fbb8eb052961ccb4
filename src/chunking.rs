//! Process rasters in memory-efficient chunks.
//!
//! Large rasters are stored in blocks of rows; reading along block
//! boundaries is cheapest. A [`ChunkConfig`] describes how to walk a row
//! range of a raster in full-width chunks whose data rows are a multiple of
//! the block size, each extended by a fixed number of padding rows above
//! and below (clipped at the raster's edges).
use vstd::prelude::*;

pub mod builder;

pub use crate::{RasterUtilsError, Result};

verus! {

/// Mathematical model of a [`ChunkConfig`].
pub ghost struct ChunkConfigView {
    pub width: nat,
    pub height: nat,
    pub block_size: nat,
    pub data_height: nat,
    pub padding: nat,
    pub start: nat,
    pub end: nat,
}

/// The smaller of two naturals.
pub open spec fn min_nat(a: nat, b: nat) -> nat {
    if a <= b {
        a
    } else {
        b
    }
}

/// The larger of two naturals.
pub open spec fn max_nat(a: nat, b: nat) -> nat {
    if a >= b {
        a
    } else {
        b
    }
}

impl ChunkConfigView {
    /// The invariant every configuration keeps.
    pub open spec fn wf(self) -> bool {
        &&& self.width > 0
        &&& self.height > 0
        &&& self.block_size > 0
        &&& self.data_height > 0
        &&& self.data_height % self.block_size == 0
        &&& self.padding <= self.start
        &&& self.end <= self.height
        &&& self.height <= usize::MAX
        &&& self.width <= usize::MAX
        &&& self.block_size <= usize::MAX
        &&& self.data_height <= usize::MAX
        &&& self.start <= usize::MAX
    }

    /// End of the data rows of the chunk whose data starts at row `c`.
    pub open spec fn data_end(self, c: nat) -> nat {
        min_nat(self.end, c + self.data_height)
    }

    /// The window `(first row, number of rows)` of the chunk whose data
    /// starts at row `c`: the data rows widened by the padding on both
    /// sides, clipped to `[0, height)`.
    pub open spec fn window_at(self, c: nat) -> (nat, nat) {
        let ws = if c >= self.padding {
            (c - self.padding) as nat
        } else {
            0nat
        };
        let we = min_nat(self.height, self.data_end(c) + self.padding);
        (ws, (we - ws) as nat)
    }

    /// Data row ranges `[from, to)` of the chunks from cursor `c` on.
    pub open spec fn data_ranges_from(self, c: nat) -> Seq<(nat, nat)>
        decreases self.end - c,
    {
        if c >= self.end || self.data_height == 0 {
            seq![]
        } else {
            seq![(c, self.data_end(c))] + self.data_ranges_from(self.data_end(c))
        }
    }

    /// Windows of the chunks from cursor `c` on.
    pub open spec fn windows_from(self, c: nat) -> Seq<(nat, nat)>
        decreases self.end - c,
    {
        if c >= self.end || self.data_height == 0 {
            seq![]
        } else {
            seq![self.window_at(c)] + self.windows_from(self.data_end(c))
        }
    }

    /// Data row ranges of all chunks, in order.
    pub open spec fn data_ranges(self) -> Seq<(nat, nat)> {
        self.data_ranges_from(self.start)
    }

    /// Windows of all chunks, in order.
    pub open spec fn windows(self) -> Seq<(nat, nat)> {
        self.windows_from(self.start)
    }
}

/// Config for creating chunks within a raster.
#[derive(Clone, Copy, Debug, PartialEq, Eq, PartialOrd, Ord)]
pub struct ChunkConfig {
    /// Width of raster to be chunked.
    width: usize,
    /// Height of raster to be chunked.
    height: usize,
    /// Row granularity of the chunks: the least common multiple of the
    /// block sizes of every band involved.
    block_size: usize,
    /// Minimum number of data rows in each chunk, padding excluded;
    /// a multiple of `block_size`.
    data_height: usize,
    /// Number of additional rows wanted on either side of the data.
    padding: usize,
    /// Start of the processing range; at least `padding`.
    start: usize,
    /// End of the processing range; at most `height`.
    end: usize,
}

impl View for ChunkConfig {
    type V = ChunkConfigView;

    closed spec fn view(&self) -> ChunkConfigView {
        ChunkConfigView {
            width: self.width as nat,
            height: self.height as nat,
            block_size: self.block_size as nat,
            data_height: self.data_height as nat,
            padding: self.padding as nat,
            start: self.start as nat,
            end: self.end as nat,
        }
    }
}

/// A chunk produced by the iteration: the configuration, the first row
/// of the chunk's window and the number of rows in it (padding included).
pub type ChunkWindow<'a> = (&'a ChunkConfig, usize, usize);

impl ChunkConfig {
    pub open spec fn wf(&self) -> bool {
        self@.wf()
    }

    pub fn width(&self) -> (r: usize)
        ensures
            r == self@.width,
    {
        self.width
    }

    pub fn height(&self) -> (r: usize)
        ensures
            r == self@.height,
    {
        self.height
    }

    pub fn block_size(&self) -> (r: usize)
        ensures
            r == self@.block_size,
    {
        self.block_size
    }

    pub fn data_height(&self) -> (r: usize)
        ensures
            r == self@.data_height,
    {
        self.data_height
    }

    pub fn padding(&self) -> (r: usize)
        ensures
            r == self@.padding,
    {
        self.padding
    }

    pub fn start(&self) -> (r: usize)
        ensures
            r == self@.start,
    {
        self.start
    }

    pub fn end(&self) -> (r: usize)
        ensures
            r == self@.end,
    {
        self.end
    }
}

/// Forward-only cursor over the chunks of a [`ChunkConfig`].
pub struct ChunkIter<'a> {
    config: &'a ChunkConfig,
    cursor: usize,
}

impl<'a> ChunkIter<'a> {
    /// The configuration walked.
    pub closed spec fn config(&self) -> ChunkConfigView {
        self.config@
    }

    /// Row where the data of the next chunk starts.
    pub closed spec fn cursor(&self) -> nat {
        self.cursor as nat
    }

    pub closed spec fn wf(&self) -> bool {
        self.config.wf() && self.config.padding <= self.cursor
    }

    /// The windows still to come.
    pub open spec fn remaining(&self) -> Seq<(nat, nat)> {
        self.config().windows_from(self.cursor())
    }

    /// Yields the next chunk, in increasing row order, or `None` once the
    /// cursor has reached the end of the range.
    pub fn next(&mut self) -> (r: Option<ChunkWindow<'a>>)
        requires
            old(self).wf(),
        ensures
            final(self).wf(),
            final(self).config() == old(self).config(),
            old(self).remaining().len() == 0 ==> r.is_none() && final(self).remaining().len() == 0,
            old(self).remaining().len() > 0 ==> {
                &&& r.is_some()
                &&& r.unwrap().0@ == old(self).config()
                &&& (r.unwrap().1 as nat, r.unwrap().2 as nat) == old(self).remaining()[0]
                &&& final(self).remaining() == old(self).remaining().drop_first()
            },
    {
        let cfg = self.config;
        let c = self.cursor;
        if c >= cfg.end {
            return None;
        }
        let data_end = if cfg.end - c <= cfg.data_height {
            cfg.end
        } else {
            c + cfg.data_height
        };
        let window_start = if c >= cfg.padding {
            c - cfg.padding
        } else {
            0
        };
        let window_end = if cfg.height - data_end <= cfg.padding {
            cfg.height
        } else {
            data_end + cfg.padding
        };
        self.cursor = data_end;
        proof {
            let v = cfg@;
            assert(v.data_end(c as nat) == data_end);
            assert(v.window_at(c as nat) == (window_start as nat, (window_end - window_start) as nat));
            assert(v.windows_from(c as nat) == seq![v.window_at(c as nat)] + v.windows_from(
                data_end as nat,
            ));
            assert(v.windows_from(c as nat).drop_first() =~= v.windows_from(data_end as nat));
        }
        Some((cfg, window_start, window_end - window_start))
    }
}

impl ChunkConfig {
    /// A cursor at the start of the processing range.
    pub fn iter(&self) -> (r: ChunkIter<'_>)
        requires
            self.wf(),
        ensures
            r.wf(),
            r.config() == self@,
            r.remaining() == self@.windows(),
    {
        ChunkIter { config: self, cursor: self.start }
    }

    /// Every chunk window as `(first row, number of rows)`, in order.
    pub fn windows(&self) -> (r: Vec<(usize, usize)>)
        requires
            self.wf(),
        ensures
            r@.map_values(|w: (usize, usize)| (w.0 as nat, w.1 as nat)) == self@.windows(),
    {
        let mut it = self.iter();
        let mut out: Vec<(usize, usize)> = Vec::new();
        loop
            invariant
                it.wf(),
                it.config() == self@,
                out@.map_values(|w: (usize, usize)| (w.0 as nat, w.1 as nat)) + it.remaining()
                    == self@.windows(),
            ensures
                out@.map_values(|w: (usize, usize)| (w.0 as nat, w.1 as nat)) == self@.windows(),
            decreases it.remaining().len(),
        {
            let ghost before = it.remaining();
            match it.next() {
                None => {
                    assert(it.remaining().len() == 0);
                    assert(out@.map_values(|w: (usize, usize)| (w.0 as nat, w.1 as nat)) + it.remaining()
                        =~= out@.map_values(|w: (usize, usize)| (w.0 as nat, w.1 as nat)));
                    break;
                },
                Some(w) => {
                    let ghost prev = out@;
                    out.push((w.1, w.2));
                    assert(out@.map_values(|w: (usize, usize)| (w.0 as nat, w.1 as nat))
                        =~= prev.map_values(|w: (usize, usize)| (w.0 as nat, w.1 as nat)).push(
                        before[0],
                    ));
                    assert(before =~= seq![before[0]] + it.remaining());
                },
            }
        }
        out
    }
}

/// Whether row `r` lies in one of the half-open ranges of `d`.
pub open spec fn in_some_range(d: Seq<(nat, nat)>, r: nat) -> bool {
    exists|i: int| 0 <= i < d.len() && #[trigger] d[i].0 <= r < d[i].1
}

/// What the chunks from cursor `c` on satisfy: their data ranges tile
/// `[c, end)` in order, and each window is its data range widened by the
/// padding, clipped at the raster's bottom edge.
proof fn lemma_chunks_from(cfg: ChunkConfigView, c: nat)
    requires
        cfg.wf(),
        cfg.padding <= c,
    ensures
        ({
            let d = cfg.data_ranges_from(c);
            let w = cfg.windows_from(c);
            &&& d.len() == w.len()
            &&& c >= cfg.end ==> d.len() == 0
            &&& c < cfg.end ==> d.len() > 0 && d[0].0 == c && d.last().1 == cfg.end
            &&& forall|i: int| 0 <= i < d.len() ==> c <= #[trigger] d[i].0 < d[i].1 <= cfg.end
            &&& forall|i: int| 0 <= i < d.len() - 1 ==> #[trigger] d[i].1 == d[i + 1].0
            &&& forall|i: int|
                0 <= i < d.len() ==> #[trigger] w[i].0 + cfg.padding == d[i].0 && w[i].0 + w[i].1
                    == min_nat(cfg.height, d[i].1 + cfg.padding)
            &&& forall|i: int| 0 <= i < w.len() ==> #[trigger] w[i].1 > 0 && w[i].0 + w[i].1 <= cfg.height
            &&& forall|r: nat| c <= r < cfg.end ==> #[trigger] in_some_range(d, r)
        }),
    decreases cfg.end - c,
{
    if c < cfg.end {
        let de = cfg.data_end(c);
        lemma_chunks_from(cfg, de);
        let d = cfg.data_ranges_from(c);
        let w = cfg.windows_from(c);
        let d2 = cfg.data_ranges_from(de);
        let w2 = cfg.windows_from(de);
        assert(d == seq![(c, de)] + d2);
        assert(w == seq![cfg.window_at(c)] + w2);
        assert forall|i: int| 0 < i < d.len() implies #[trigger] d[i] == d2[i - 1] && w[i] == w2[i - 1] by {}
        if d2.len() > 0 {
            assert(d[1] == d2[0]);
            assert(d.last() == d2.last());
        }
        assert forall|i: int| 0 <= i < d.len() - 1 implies #[trigger] d[i].1 == d[i + 1].0 by {
            if i > 0 {
                assert(d[i] == d2[i - 1]);
                assert(d[i + 1] == d2[i]);
            }
        }
        assert forall|r: nat| c <= r < cfg.end implies #[trigger] in_some_range(d, r) by {
            if r < de {
                assert(d[0].0 <= r < d[0].1);
            } else {
                assert(in_some_range(d2, r));
                let j = choose|j: int| 0 <= j < d2.len() && #[trigger] d2[j].0 <= r < d2[j].1;
                assert(d[j + 1] == d2[j]);
            }
        }
    }
}

/// The chunks cover the processing range exactly: their data row ranges,
/// in order, are non-empty, each starts where the previous one ended, the
/// first starts at `start` and the last ends at `end`, and every row of
/// `[start, end)` lies in one of them. Each window is its data range
/// widened by the padding on both sides and clipped to the raster.
pub proof fn lemma_coverage_partition(cfg: ChunkConfigView)
    requires
        cfg.wf(),
    ensures
        ({
            let d = cfg.data_ranges();
            let w = cfg.windows();
            &&& d.len() == w.len()
            &&& cfg.start < cfg.end ==> d.len() > 0 && d[0].0 == cfg.start && d.last().1 == cfg.end
            &&& forall|i: int| 0 <= i < d.len() ==> cfg.start <= #[trigger] d[i].0 < d[i].1 <= cfg.end
            &&& forall|i: int| 0 <= i < d.len() - 1 ==> #[trigger] d[i].1 == d[i + 1].0
            &&& forall|r: nat| cfg.start <= r < cfg.end ==> #[trigger] in_some_range(d, r)
            &&& forall|i: int|
                0 <= i < d.len() ==> #[trigger] w[i].0 + cfg.padding == d[i].0 && w[i].0 + w[i].1
                    == min_nat(cfg.height, d[i].1 + cfg.padding)
        }),
{
    lemma_chunks_from(cfg, cfg.start);
}

/// Every window lies inside the raster and holds at least one row.
pub proof fn lemma_windows_in_bounds(cfg: ChunkConfigView)
    requires
        cfg.wf(),
    ensures
        forall|i: int|
            0 <= i < cfg.windows().len() ==> #[trigger] cfg.windows()[i].1 > 0 && cfg.windows()[i].0
                + cfg.windows()[i].1 <= cfg.height,
{
    lemma_chunks_from(cfg, cfg.start);
}

/// An empty processing range (`start >= end`, in particular
/// `start == end`) yields no chunk.
pub proof fn lemma_empty_range(cfg: ChunkConfigView)
    requires
        cfg.wf(),
        cfg.start >= cfg.end,
    ensures
        cfg.windows().len() == 0,
{
}

} // verus!
