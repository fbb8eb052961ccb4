use raster_chunks::align::locate_index;
use raster_chunks::chunking::builder::ChunkConfigBuilder;
use raster_chunks::geometry::{Offset, RasterWindow, Size};
use raster_chunks::readers::{BandIndex, MemoryBand};

#[test]
fn window_round_trip() {
    let pair: (Offset, Size) = ((3, 7), (11, 5));
    let w = RasterWindow::from(pair);
    assert_eq!(w.offset(), (3, 7));
    assert_eq!(w.size(), (11, 5));
    let back: (Offset, Size) = w.into();
    assert_eq!(back, pair);
}

#[test]
fn window_shape_and_pixels() {
    let w = RasterWindow::from(((1, 2), (4, 3)));
    assert_eq!(w.shape(), (3, 4));
    assert_eq!(w.num_pixels(), 12);
}

#[test]
fn window_to_signed() {
    let w = RasterWindow::from(((1, 2), (4, 3)));
    assert_eq!(w.to_gdal(), Some(((1, 2), (4, 3))));
    let far = RasterWindow::from(((usize::MAX, 0), (1, 1)));
    assert_eq!(far.to_gdal(), None);
}

#[test]
fn window_from_chunk_spans_full_width() {
    let cfg = ChunkConfigBuilder::new(32, 20)
        .add_block_size(2)
        .with_padding(7)
        .with_end(10)
        .build();
    let mut it = cfg.iter();
    it.next();
    let w = RasterWindow::from_chunk(it.next().unwrap());
    assert_eq!(w.offset(), (0, 2));
    assert_eq!(w.size(), (32, 15));
}

#[test]
fn locate_rejects_negative_and_overflow() {
    assert_eq!(locate_index((4, 3), -1, 0), None);
    assert_eq!(locate_index((4, 3), 0, -1), None);
    assert_eq!(locate_index((4, 3), 4, 0), None);
    assert_eq!(locate_index((4, 3), 0, 3), None);
    assert_eq!(locate_index((4, 3), 3, 2), Some((2, 3)));
    assert_eq!(locate_index((4, 3), 0, 0), Some((0, 0)));
}

#[test]
fn locate_identity_in_bounds() {
    for col in 0..4usize {
        for row in 0..3usize {
            assert_eq!(
                locate_index((4, 3), col as i128, row as i128),
                Some((row, col))
            );
        }
    }
}

#[test]
fn band_index_positive() {
    assert!(BandIndex::new(0).is_none());
    assert_eq!(BandIndex::new(3).unwrap().get(), 3);
}

#[test]
fn memory_band_reads_window_rows() {
    let data: Vec<u32> = (0..20).collect();
    let band = MemoryBand::new(5, 4, data).unwrap();
    let w = RasterWindow::from(((1, 2), (3, 2)));
    assert_eq!(band.read_window(&w), Some(vec![11, 12, 13, 16, 17, 18]));
    let outside = RasterWindow::from(((3, 0), (3, 1)));
    assert_eq!(band.read_window(&outside), None);
    assert!(MemoryBand::new(5, 4, vec![0u32; 19]).is_none());
}
