use raster_chunks::chunking::builder::ChunkConfigBuilder;
use raster_chunks::chunking::ChunkConfig;
use raster_chunks::RasterUtilsError;

fn check_cfg(cfg: ChunkConfig, output: Vec<(usize, usize)>) {
    assert_eq!(cfg.windows(), output);
}

#[test]
fn test_simple() {
    check_cfg(
        ChunkConfigBuilder::new(32, 20)
            .add_block_size(2)
            .with_padding(7)
            .with_end(10)
            .build(),
        vec![(0, 16), (2, 15)],
    )
}

#[test]
fn new_builder_defaults() {
    let cfg = ChunkConfigBuilder::new(5, 9).build();
    assert_eq!(cfg.width(), 5);
    assert_eq!(cfg.height(), 9);
    assert_eq!(cfg.block_size(), 1);
    assert_eq!(cfg.data_height(), 1);
    assert_eq!(cfg.padding(), 0);
    assert_eq!(cfg.start(), 0);
    assert_eq!(cfg.end(), 9);
}

#[test]
fn block_sizes_accumulate_as_lcm() {
    let cfg = ChunkConfigBuilder::new(10, 100)
        .add_block_size(4)
        .add_block_size(6)
        .add_block_size(4)
        .build();
    assert_eq!(cfg.block_size(), 12);
    assert_eq!(cfg.data_height(), 12);
    assert_eq!(cfg.data_height() % cfg.block_size(), 0);
}

#[test]
fn data_height_rounds_up_to_block() {
    let cfg = ChunkConfigBuilder::new(10, 100)
        .add_block_size(8)
        .with_data_height(10)
        .build();
    assert_eq!(cfg.data_height(), 16);
    let cfg = ChunkConfigBuilder::new(10, 100)
        .with_data_height(10)
        .add_block_size(4)
        .build();
    assert_eq!(cfg.data_height(), 12);
}

#[test]
fn data_size_divides_by_width_rounding_up() {
    let cfg = ChunkConfigBuilder::new(32, 100)
        .add_block_size(2)
        .with_data_size(65)
        .build();
    assert_eq!(cfg.data_height(), 4);
    let cfg = ChunkConfigBuilder::new(32, 100).with_data_size(64).build();
    assert_eq!(cfg.data_height(), 2);
}

#[test]
fn start_is_raised_to_padding() {
    let cfg = ChunkConfigBuilder::new(4, 50).with_padding(3).with_start(1).build();
    assert_eq!(cfg.start(), 3);
    let cfg = ChunkConfigBuilder::new(4, 50).with_start(10).with_padding(3).build();
    assert_eq!(cfg.start(), 10);
}

#[test]
fn end_is_clipped_to_height() {
    let cfg = ChunkConfigBuilder::new(4, 50).with_end(80).build();
    assert_eq!(cfg.end(), 50);
    let cfg = ChunkConfigBuilder::new(4, 50).with_end(20).build();
    assert_eq!(cfg.end(), 20);
}

#[test]
fn empty_range_gives_no_window() {
    let cfg = ChunkConfigBuilder::new(4, 50).with_start(20).with_end(20).build();
    assert!(cfg.windows().is_empty());
    let mut it = cfg.iter();
    assert!(it.next().is_none());
}

#[test]
fn windows_partition_the_range() {
    let cfg = ChunkConfigBuilder::new(8, 40)
        .add_block_size(3)
        .with_data_height(5)
        .with_padding(2)
        .with_start(4)
        .with_end(31)
        .build();
    // data rows: [4,10) [10,16) [16,22) [22,28) [28,31)
    assert_eq!(
        cfg.windows(),
        vec![(2, 10), (8, 10), (14, 10), (20, 10), (26, 7)]
    );
    let mut covered = Vec::new();
    for (ws, size) in cfg.windows() {
        assert!(ws + size <= cfg.height());
        let data_start = ws + cfg.padding();
        let data_end = (ws + size - cfg.padding()).min(cfg.end());
        for r in data_start..data_end {
            covered.push(r);
        }
    }
    assert_eq!(covered, (4..31).collect::<Vec<usize>>());
}

#[test]
fn padding_clipped_at_bottom_edge() {
    let cfg = ChunkConfigBuilder::new(1, 10)
        .with_data_height(4)
        .with_padding(3)
        .build();
    assert_eq!(cfg.windows(), vec![(0, 10), (4, 6)]);
}

#[test]
fn iterator_yields_config_and_windows() {
    let cfg = ChunkConfigBuilder::new(32, 20)
        .add_block_size(2)
        .with_padding(7)
        .with_end(10)
        .build();
    let mut it = cfg.iter();
    let first = it.next().unwrap();
    assert_eq!(first.0.width(), 32);
    assert_eq!((first.1, first.2), (0, 16));
    let second = it.next().unwrap();
    assert_eq!((second.1, second.2), (2, 15));
    assert!(it.next().is_none());
    assert_eq!(cfg.windows(), vec![(0, 16), (2, 15)]);
}

#[test]
fn lcm_of_large_block_sizes() {
    let cfg = ChunkConfigBuilder::new(1, 1 << 20)
        .add_block_size(256)
        .add_block_size(384)
        .build();
    assert_eq!(cfg.block_size(), 768);
}

#[test]
fn zero_dimension_is_rejected() {
    assert!(matches!(
        ChunkConfigBuilder::try_new(0, 5),
        Err(RasterUtilsError::ZeroDimention)
    ));
    assert!(matches!(
        ChunkConfigBuilder::try_new(5, 0),
        Err(RasterUtilsError::ZeroDimention)
    ));
    let cfg = ChunkConfigBuilder::try_new(5, 7).ok().unwrap().build();
    assert_eq!((cfg.width(), cfg.height(), cfg.end()), (5, 7, 7));
}
