use rpdl::chunked::{
    chunk_status_accepted, check_chunk_length, congestion_check_due, content_length_from_header,
    create_chunks, order_chunk_results, prioritize_chunks, range_header, range_support_from_header,
    require_url, ChunkInfo, ChunkPriority, ChunkQueue, ChunkResult, ChunkStrategy,
    ChunkedDownloadConfig, TrendSignal, DEFAULT_CHUNK_SIZE,
};
use rpdl::error::DownloadError;
use rpdl::progress::{ProgressConfig, ProgressStyleConfig};

fn chunk(index: usize, start: u64, end: u64, priority: ChunkPriority) -> ChunkInfo {
    ChunkInfo { index, start, end, priority, size: end - start + 1 }
}

#[test]
fn config_defaults_match_documented_values() {
    let c = ChunkedDownloadConfig::new();
    assert_eq!(c.chunk_size, 5 * 1024 * 1024);
    assert_eq!(DEFAULT_CHUNK_SIZE, 5_242_880);
    assert_eq!(c.max_concurrent_chunks, 8);
    assert_eq!(c.timeout, 30);
    assert_eq!(c.strategy, ChunkStrategy::Simple);
    assert!(c.adaptive_chunk_sizing);
    assert!(c.progress_config.enabled && c.progress_config.show_overall && c.progress_config.show_individual);
    assert_eq!(c.progress_config.overall_style.template(), ProgressStyleConfig::Default.template());
    assert_eq!(c.progress_config.individual_style.template(), ProgressStyleConfig::Minimal.template());
}

#[test]
fn config_builders_set_one_field_each() {
    let c = ChunkedDownloadConfig::new()
        .chunk_size(1024 * 1024)
        .max_concurrent_chunks(3)
        .timeout(12)
        .strategy(ChunkStrategy::Smart)
        .adaptive_chunk_sizing(false)
        .progress_config(ProgressConfig::new().with_enabled(false));
    assert_eq!(c.chunk_size, 1_048_576);
    assert_eq!(c.max_concurrent_chunks, 3);
    assert_eq!(c.timeout, 12);
    assert_eq!(c.strategy, ChunkStrategy::Smart);
    assert!(!c.adaptive_chunk_sizing);
    assert!(!c.progress_config.enabled);
}

#[test]
fn chunks_tile_the_file_exactly() {
    let chunks = create_chunks(10, 4);
    let ranges: Vec<(usize, u64, u64, u64)> =
        chunks.iter().map(|c| (c.index, c.start, c.end, c.size)).collect();
    assert_eq!(ranges, vec![(0, 0, 3, 4), (1, 4, 7, 4), (2, 8, 9, 2)]);
    assert!(chunks.iter().all(|c| c.priority == ChunkPriority::Normal));
    let total: u64 = chunks.iter().map(|c| c.size).sum();
    assert_eq!(total, 10);
}

#[test]
fn chunks_of_an_exact_multiple() {
    let chunks = create_chunks(8, 4);
    assert_eq!(chunks.len(), 2);
    assert_eq!((chunks[1].start, chunks[1].end), (4, 7));
}

#[test]
fn empty_file_has_no_chunks() {
    assert!(create_chunks(0, 4).is_empty());
}

#[test]
fn chunk_larger_than_file_is_one_chunk() {
    let chunks = create_chunks(3, 100);
    assert_eq!(chunks.len(), 1);
    assert_eq!((chunks[0].start, chunks[0].end, chunks[0].size), (0, 2, 3));
}

#[test]
fn priority_values_are_their_weights() {
    assert_eq!(ChunkPriority::Critical.value(), 4);
    assert_eq!(ChunkPriority::High.value(), 3);
    assert_eq!(ChunkPriority::Normal.value(), 2);
    assert_eq!(ChunkPriority::Low.value(), 1);
    assert_eq!(ChunkPriority::Deferred.value(), 0);
}

#[test]
fn priority_by_position_in_file() {
    let p = |i| ChunkPriority::from_signals(i, 100, false, TrendSignal::Steady, false);
    assert_eq!(p(0), ChunkPriority::Critical);
    assert_eq!(p(4), ChunkPriority::Critical);
    assert_eq!(p(5), ChunkPriority::High);
    assert_eq!(p(19), ChunkPriority::High);
    assert_eq!(p(20), ChunkPriority::Normal);
    assert_eq!(p(90), ChunkPriority::Normal);
    assert_eq!(p(91), ChunkPriority::Low);
}

#[test]
fn slow_link_defers_the_second_half() {
    assert_eq!(
        ChunkPriority::from_signals(51, 100, true, TrendSignal::Steady, true),
        ChunkPriority::Deferred
    );
    assert_eq!(
        ChunkPriority::from_signals(50, 100, true, TrendSignal::Steady, true),
        ChunkPriority::Normal
    );
}

#[test]
fn falling_throughput_demotes_late_chunks() {
    assert_eq!(
        ChunkPriority::from_signals(31, 100, false, TrendSignal::Falling, false),
        ChunkPriority::Low
    );
    assert_eq!(
        ChunkPriority::from_signals(30, 100, false, TrendSignal::Falling, false),
        ChunkPriority::Normal
    );
}

#[test]
fn rising_throughput_promotes_with_low_loss() {
    assert_eq!(
        ChunkPriority::from_signals(50, 100, false, TrendSignal::Rising, true),
        ChunkPriority::High
    );
    assert_eq!(
        ChunkPriority::from_signals(95, 100, false, TrendSignal::Rising, true),
        ChunkPriority::Normal
    );
    assert_eq!(
        ChunkPriority::from_signals(50, 100, false, TrendSignal::Rising, false),
        ChunkPriority::Normal
    );
}

#[test]
fn prioritize_sets_only_priorities() {
    let chunks = create_chunks(100, 10);
    let p = prioritize_chunks(chunks.clone(), false, TrendSignal::Steady, false);
    assert_eq!(p.len(), 10);
    assert_eq!(p[0].priority, ChunkPriority::Critical);
    assert_eq!(p[1].priority, ChunkPriority::High);
    assert_eq!(p[5].priority, ChunkPriority::Normal);
    for (a, b) in p.iter().zip(chunks.iter()) {
        assert_eq!((a.index, a.start, a.end, a.size), (b.index, b.start, b.end, b.size));
    }
}

#[test]
fn queue_serves_highest_priority_then_lowest_index() {
    let mut q = ChunkQueue::from_chunks(vec![
        chunk(3, 30, 39, ChunkPriority::Normal),
        chunk(1, 10, 19, ChunkPriority::High),
        chunk(0, 0, 9, ChunkPriority::Normal),
        chunk(2, 20, 29, ChunkPriority::High),
    ]);
    assert_eq!(q.len(), 4);
    let order: Vec<usize> = std::iter::from_fn(|| q.pop()).map(|c| c.index).collect();
    assert_eq!(order, vec![1, 2, 0, 3]);
    assert!(q.pop().is_none());
}

#[test]
fn queue_push_then_pop() {
    let mut q = ChunkQueue::from_chunks(vec![]);
    assert!(q.pop().is_none());
    q.push(chunk(7, 0, 0, ChunkPriority::Low));
    q.push(chunk(8, 1, 1, ChunkPriority::Critical));
    assert_eq!(q.pop().unwrap().index, 8);
    assert_eq!(q.pop().unwrap().index, 7);
}

#[test]
fn results_are_put_in_file_order() {
    let results = vec![
        ChunkResult { index: 2, data: vec![5] },
        ChunkResult { index: 0, data: vec![1, 2] },
        ChunkResult { index: 1, data: vec![3, 4] },
    ];
    let ordered = order_chunk_results(results).unwrap();
    let bytes: Vec<u8> = ordered.iter().flat_map(|r| r.data.clone()).collect();
    assert_eq!(bytes, vec![1, 2, 3, 4, 5]);
    assert_eq!(ordered.iter().map(|r| r.index).collect::<Vec<_>>(), vec![0, 1, 2]);
}

#[test]
fn missing_chunk_is_reported() {
    let results = vec![
        ChunkResult { index: 0, data: vec![] },
        ChunkResult { index: 5, data: vec![] },
    ];
    assert_eq!(
        order_chunk_results(results).unwrap_err(),
        DownloadError::InvalidChunkRange("Missing chunk at index 1".to_string())
    );
}

#[test]
fn repeated_chunk_is_reported_after_its_first_copy() {
    let results = vec![
        ChunkResult { index: 0, data: vec![] },
        ChunkResult { index: 0, data: vec![] },
        ChunkResult { index: 1, data: vec![] },
    ];
    assert_eq!(
        order_chunk_results(results).unwrap_err(),
        DownloadError::InvalidChunkRange("Missing chunk at index 1".to_string())
    );
}

#[test]
fn no_results_is_an_empty_file() {
    assert!(order_chunk_results(vec![]).unwrap().is_empty());
}

#[test]
fn empty_url_is_refused() {
    assert_eq!(
        require_url(""),
        Err(DownloadError::InvalidUrl("URL cannot be empty".to_string()))
    );
    assert_eq!(require_url("http://x"), Ok(()));
}

#[test]
fn content_length_header_is_read() {
    assert_eq!(content_length_from_header(Some("1234")), Ok(1234));
    assert_eq!(content_length_from_header(Some("+7")), Ok(7));
    assert_eq!(content_length_from_header(Some("12a")), Err(DownloadError::ContentLengthUnknown));
    assert_eq!(content_length_from_header(Some("")), Err(DownloadError::ContentLengthUnknown));
    assert_eq!(
        content_length_from_header(Some("18446744073709551616")),
        Err(DownloadError::ContentLengthUnknown)
    );
    assert_eq!(content_length_from_header(None), Err(DownloadError::ContentLengthUnknown));
}

#[test]
fn range_support_needs_bytes() {
    assert_eq!(range_support_from_header(Some("bytes")), Ok(()));
    assert_eq!(range_support_from_header(Some("ByTeS")), Ok(()));
    assert_eq!(range_support_from_header(Some("none")), Err(DownloadError::RangeNotSupported));
    assert_eq!(range_support_from_header(None), Err(DownloadError::RangeNotSupported));
}

#[test]
fn range_header_names_the_chunk_bytes() {
    let c = chunk(3, 100, 199, ChunkPriority::Normal);
    assert_eq!(range_header(&c), "bytes=100-199");
}

#[test]
fn chunk_statuses() {
    assert!(chunk_status_accepted(200));
    assert!(chunk_status_accepted(206));
    assert!(!chunk_status_accepted(404));
    assert!(!chunk_status_accepted(416));
}

#[test]
fn chunk_length_is_checked() {
    let c = chunk(2, 10, 19, ChunkPriority::Normal);
    assert_eq!(check_chunk_length(&c, 10), Ok(()));
    assert_eq!(
        check_chunk_length(&c, 9),
        Err(DownloadError::InvalidChunkRange(
            "Expected 10 bytes, got 9 bytes for chunk 2".to_string()
        ))
    );
}

#[test]
fn congestion_is_checked_every_fifth_chunk() {
    assert!(congestion_check_due(true, 5));
    assert!(congestion_check_due(true, 10));
    assert!(!congestion_check_due(true, 6));
    assert!(!congestion_check_due(false, 5));
}
