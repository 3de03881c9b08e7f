use ratatui_3dmesh::render::frame_cache::{
    CacheStep, CellColor, FrameCache, Paint, PaintedCell,
};
use ratatui_3dmesh::render::{FrameCacheConfig, FrameCacheStats};

fn cell(offset: u32, ch: char, fg: CellColor) -> PaintedCell {
    PaintedCell { offset, paint: Paint { ch, fg } }
}

fn replayed(step: CacheStep) -> Vec<PaintedCell> {
    match step {
        CacheStep::Replay(cells) => cells,
        other => panic!("expected a replay, got {other:?}"),
    }
}

#[test]
fn config_defaults_and_clamps() {
    let config = FrameCacheConfig::memory(0);
    assert_eq!(config.frames_per_second(), 1);
    assert_eq!(config.maximum_bytes(), 256 * 1024 * 1024);
    let config = FrameCacheConfig::memory(15).max_bytes(8 << 20);
    assert_eq!(config.frames_per_second(), 15);
    assert_eq!(config.maximum_bytes(), 8 << 20);
}

#[test]
fn replay_returns_the_stored_cells_and_records_a_hit() {
    let mut cache = FrameCache::new(FrameCacheConfig::memory(15).max_bytes(8 << 20));
    assert!(matches!(cache.begin(7, 4, 2), CacheStep::RenderAndStore));
    let cells = vec![
        cell(0, '#', CellColor::Rgb(10, 20, 30)),
        cell(5, '.', CellColor::Red),
        cell(9, '#', CellColor::Rgb(10, 20, 30)),
    ];
    cache.store(2, cells.clone());
    assert_eq!(replayed(cache.begin(7, 4, 2)), cells);
    let stats = cache.stats();
    assert_eq!(stats.misses, 1);
    assert_eq!(stats.hits, 1);
    assert_eq!(stats.cached_frames, 1);
    assert_eq!(stats.total_frames, 4);
    assert_eq!(stats.invalidations, 0);
    // Four frame slots, three cells, two distinct paints and their two
    // lookup-index entries (the loop is not complete yet).
    assert_eq!(stats.bytes, 4 * 24 + 3 * 8 + 2 * 8 + 2 * 4);
    assert!(!stats.memory_limit_reached);
}

#[test]
fn a_new_key_invalidates_every_frame() {
    let mut cache = FrameCache::new(FrameCacheConfig::memory(15));
    let _ = cache.begin(1, 3, 0);
    cache.store(0, vec![cell(0, 'x', CellColor::White)]);
    let _ = cache.begin(2, 3, 0);
    let _ = cache.begin(2, 4, 0);
    let _ = cache.begin(3, 4, 0);
    assert!(matches!(cache.begin(3, 4, 0), CacheStep::RenderAndStore));
    let stats = cache.stats();
    assert_eq!(stats.invalidations, 3);
    assert_eq!(stats.hits, 0);
    assert_eq!(stats.cached_frames, 0);
    assert_eq!(stats.misses, 5);
}

#[test]
fn uncached_frames_of_a_warm_generation_still_miss() {
    let mut cache = FrameCache::new(FrameCacheConfig::memory(15));
    let _ = cache.begin(1, 3, 0);
    cache.store(0, vec![cell(1, 'a', CellColor::Indexed(3))]);
    assert!(matches!(cache.begin(1, 3, 2), CacheStep::RenderAndStore));
    cache.store(2, vec![]);
    assert_eq!(replayed(cache.begin(1, 3, 2)), vec![]);
    let stats = cache.stats();
    assert_eq!((stats.hits, stats.misses, stats.cached_frames), (1, 2, 2));
}

#[test]
fn a_frame_table_over_the_ceiling_suspends_caching() {
    let mut cache = FrameCache::new(FrameCacheConfig::memory(15).max_bytes(1));
    assert!(matches!(cache.begin(1, 4, 0), CacheStep::RenderOnly));
    assert!(matches!(cache.begin(1, 4, 1), CacheStep::RenderOnly));
    let stats = cache.stats();
    assert!(stats.memory_limit_reached);
    assert_eq!(stats.misses, 2);
    assert_eq!(stats.bytes, 0);
    assert_eq!(stats.total_frames, 0);
}

#[test]
fn a_store_over_the_ceiling_drops_every_frame() {
    // Four slots take 96 bytes; one cell, its paint and the paint's index
    // entry take 20 more, a second cell with the same paint 8 more.
    let mut cache = FrameCache::new(FrameCacheConfig::memory(15).max_bytes(119));
    let _ = cache.begin(1, 4, 0);
    cache.store(0, vec![cell(0, 'x', CellColor::Blue)]);
    assert_eq!(cache.stats().bytes, 96 + 8 + 8 + 4);
    let _ = cache.begin(1, 4, 1);
    cache.store(1, vec![cell(0, 'x', CellColor::Blue)]);
    let stats = cache.stats();
    assert!(stats.memory_limit_reached);
    assert_eq!(stats.cached_frames, 0);
    assert_eq!(stats.bytes, 96);
    assert!(matches!(cache.begin(1, 4, 0), CacheStep::RenderOnly));
    // A new key starts a fresh generation.
    assert!(matches!(cache.begin(2, 4, 0), CacheStep::RenderAndStore));
    assert!(!cache.stats().memory_limit_reached);
}

#[test]
fn each_frame_counts_one_hit_or_one_miss() {
    let mut cache = FrameCache::new(FrameCacheConfig::memory(15));
    for round in 0..3u64 {
        for i in 0..5usize {
            let before = cache.stats();
            match cache.begin(42, 5, i) {
                CacheStep::RenderAndStore => cache.store(i, vec![cell(i as u32, 'o', CellColor::Green)]),
                CacheStep::Replay(cells) => assert_eq!(cells, vec![cell(i as u32, 'o', CellColor::Green)]),
                CacheStep::RenderOnly => panic!("unexpected suspension"),
            }
            let after = cache.stats();
            assert_eq!(after.hits + after.misses, before.hits + before.misses + 1);
        }
        assert_eq!(cache.stats().hits, round * 5);
    }
}

#[test]
fn clear_resets_counters_and_frames() {
    let mut cache = FrameCache::new(FrameCacheConfig::memory(15));
    let _ = cache.begin(1, 2, 0);
    cache.store(0, vec![cell(0, 'x', CellColor::Reset)]);
    let _ = cache.begin(2, 2, 0);
    cache.clear();
    assert_eq!(cache.stats(), FrameCacheStats::default());
    assert!(matches!(cache.begin(1, 2, 0), CacheStep::RenderAndStore));
    assert_eq!(cache.stats().invalidations, 0);
    assert!(cache.can_count());
}

#[test]
fn first_frame_after_clear_is_a_miss_without_invalidation() {
    let mut cache = FrameCache::new(FrameCacheConfig::memory(15));
    let _ = cache.begin(7, 3, 1);
    cache.store(1, vec![cell(4, '#', CellColor::Red)]);
    assert!(matches!(cache.begin(7, 3, 1), CacheStep::Replay(_)));
    cache.clear();
    let s = cache.stats();
    assert_eq!((s.hits, s.misses, s.invalidations, s.cached_frames, s.total_frames), (0, 0, 0, 0, 0));
    assert!(!s.memory_limit_reached);
    assert!(matches!(cache.begin(7, 3, 1), CacheStep::RenderAndStore));
    let s = cache.stats();
    assert_eq!((s.hits, s.misses, s.invalidations), (0, 1, 0));
}

#[test]
fn frames_are_accepted_only_in_a_live_generation() {
    let mut cache = FrameCache::new(FrameCacheConfig::memory(15));
    assert!(!cache.accepts_frame(0));
    let _ = cache.begin(1, 3, 0);
    assert!(cache.accepts_frame(2));
    assert!(!cache.accepts_frame(3));
    let mut tight = FrameCache::new(FrameCacheConfig::memory(15).max_bytes(10));
    let _ = tight.begin(1, 3, 0);
    assert!(!tight.accepts_frame(0));
}

#[test]
fn palette_holds_each_distinct_paint_once() {
    let mut cache = FrameCache::new(FrameCacheConfig::memory(15));
    let _ = cache.begin(9, 1, 0);
    let cells = vec![
        cell(0, 'a', CellColor::Rgb(1, 2, 3)),
        cell(1, 'a', CellColor::Rgb(1, 2, 3)),
        cell(2, 'a', CellColor::Indexed(1)),
        cell(3, 'b', CellColor::Rgb(1, 2, 3)),
        cell(4, 'a', CellColor::Red),
        cell(5, 'a', CellColor::Rgb(0, 1, 2)),
        cell(6, 'a', CellColor::Indexed(1)),
    ];
    cache.store(0, cells.clone());
    // The only frame is cached, so the lookup index is already dropped.
    assert_eq!(cache.stats().bytes, 24 + 8 * 7 + 8 * 5);
    match cache.begin(9, 1, 0) {
        CacheStep::Replay(replayed) => assert_eq!(replayed, cells),
        other => panic!("unexpected {other:?}"),
    }
}

#[test]
fn lookup_index_is_dropped_after_one_complete_loop() {
    let mut cache = FrameCache::new(FrameCacheConfig::memory(15));
    let _ = cache.begin(3, 2, 0);
    cache.store(0, vec![cell(0, 'a', CellColor::Red), cell(1, 'b', CellColor::Red)]);
    assert_eq!(cache.stats().bytes, 2 * 24 + 2 * 8 + 2 * 8 + 2 * 4);
    assert!(!cache.accepts_frame(0));
    assert!(matches!(cache.begin(3, 2, 1), CacheStep::RenderAndStore));
    assert!(cache.accepts_frame(1));
    cache.store(1, vec![cell(0, 'a', CellColor::Red)]);
    assert_eq!(cache.stats().bytes, 2 * 24 + 3 * 8 + 2 * 8);
    assert_eq!(cache.stats().cached_frames, 2);
}

#[test]
fn an_index_that_would_pass_the_ceiling_suspends_caching() {
    // One slot, one cell and one paint fit in 40 bytes; the paint's index
    // entry does not.
    let mut cache = FrameCache::new(FrameCacheConfig::memory(15).max_bytes(40));
    let _ = cache.begin(5, 1, 0);
    cache.store(0, vec![cell(0, 'a', CellColor::Red)]);
    let stats = cache.stats();
    assert!(stats.memory_limit_reached);
    assert_eq!(stats.cached_frames, 0);
}
