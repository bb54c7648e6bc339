use rpdl::chunked::{ChunkPriority, ChunkResult};
use rpdl::resume::{ChunkState, DownloadState};

fn fresh(total: u64, chunk: u64) -> DownloadState {
    DownloadState::new_at("http://h/f".to_string(), "/tmp/f.bin".to_string(), total, chunk, 1700000000)
}

fn cs(index: usize, start: u64, end: u64, completed: bool) -> ChunkState {
    ChunkState { index, start, end, completed, hash: None }
}

#[test]
fn fresh_state_lists_every_chunk_incomplete() {
    let s = fresh(10, 4);
    assert_eq!(s.total_size, 10);
    assert_eq!(s.chunk_size, 4);
    assert_eq!(s.timestamp, 1700000000);
    assert_eq!(s.url, "http://h/f");
    assert_eq!(s.output_path, "/tmp/f.bin");
    assert!(s.etag.is_none() && s.last_modified.is_none());
    let ranges: Vec<(usize, u64, u64, bool)> =
        s.downloaded_chunks.iter().map(|c| (c.index, c.start, c.end, c.completed)).collect();
    assert_eq!(ranges, vec![(0, 0, 3, false), (1, 4, 7, false), (2, 8, 9, false)]);
    assert_eq!(s.get_incomplete_chunks().len(), 3);
    assert!(!s.is_complete());
    assert_eq!(s.completed_chunks(), 0);
}

#[test]
fn new_state_reads_the_clock() {
    let s = DownloadState::new("u".to_string(), "o".to_string(), 5, 5).unwrap();
    assert!(s.timestamp > 1_600_000_000);
    assert_eq!(s.downloaded_chunks.len(), 1);
    assert!(s.validate_integrity());
    assert!(!s.is_complete());
}

#[test]
fn fresh_state_of_an_empty_file_has_no_chunks() {
    let s = fresh(0, 4);
    assert!(s.downloaded_chunks.is_empty());
    assert!(s.get_incomplete_chunks().is_empty());
}

#[test]
fn fresh_state_passes_the_integrity_check() {
    assert!(fresh(10, 4).validate_integrity());
    assert!(fresh(1, 1).validate_integrity());
    assert!(fresh(8, 4).validate_integrity());
}

#[test]
fn marking_progress_keeps_integrity() {
    let mut s = fresh(10, 4);
    s.mark_chunk_completed(1);
    assert!(s.validate_integrity());
    s.mark_chunk_completed(0);
    s.mark_chunk_completed(2);
    assert!(s.validate_integrity());
    assert!(s.is_complete());
}

#[test]
fn mark_completed_touches_only_that_chunk() {
    let mut s = fresh(10, 4);
    s.mark_chunk_completed(1);
    let flags: Vec<bool> = s.downloaded_chunks.iter().map(|c| c.completed).collect();
    assert_eq!(flags, vec![false, true, false]);
    let left: Vec<usize> = s.get_incomplete_chunks().iter().map(|c| c.index).collect();
    assert_eq!(left, vec![0, 2]);
    assert_eq!(s.completed_chunks(), 1);
}

#[test]
fn mark_completed_out_of_range_does_nothing() {
    let mut s = fresh(10, 4);
    s.mark_chunk_completed(9);
    assert_eq!(s.completed_chunks(), 0);
}

#[test]
fn complete_exactly_when_nothing_left() {
    let mut s = fresh(4, 2);
    s.mark_chunk_completed(0);
    assert!(!s.is_complete());
    assert!(!s.get_incomplete_chunks().is_empty());
    s.mark_chunk_completed(1);
    assert!(s.is_complete());
    assert!(s.get_incomplete_chunks().is_empty());
}

#[test]
fn integrity_rejects_wrong_end() {
    let mut s = fresh(10, 4);
    s.total_size = 11;
    assert!(!s.validate_integrity());
}

#[test]
fn integrity_rejects_misnumbered_chunks() {
    let mut s = fresh(10, 4);
    s.downloaded_chunks = vec![cs(1, 0, 3, false), cs(0, 4, 7, false), cs(2, 8, 9, false)];
    assert!(!s.validate_integrity());
}

#[test]
fn integrity_accepts_chunks_stored_out_of_order() {
    let mut s = fresh(10, 4);
    s.downloaded_chunks = vec![cs(2, 8, 9, false), cs(0, 0, 3, true), cs(1, 4, 7, false)];
    assert!(s.validate_integrity());
}

#[test]
fn integrity_rejects_a_gap_at_the_start() {
    let mut s = fresh(10, 4);
    s.downloaded_chunks = vec![cs(0, 1, 3, false), cs(1, 4, 7, false), cs(2, 8, 9, false)];
    assert!(!s.validate_integrity());
}

#[test]
fn integrity_rejects_a_gap_between_chunks() {
    let mut s = fresh(10, 4);
    s.downloaded_chunks = vec![cs(0, 0, 3, true), cs(1, 8, 9, false)];
    assert!(!s.validate_integrity());
}

#[test]
fn integrity_rejects_overlapping_chunks() {
    let mut s = fresh(10, 4);
    s.downloaded_chunks = vec![cs(0, 0, 5, false), cs(1, 4, 9, false)];
    assert!(!s.validate_integrity());
}

#[test]
fn integrity_rejects_no_chunks() {
    let mut s = fresh(10, 4);
    s.downloaded_chunks = vec![];
    assert!(!s.validate_integrity());
}

#[test]
fn state_file_sits_beside_the_output() {
    assert_eq!(DownloadState::state_file_path("/tmp/dir/file.bin"), "/tmp/dir/.file.bin.rpdl_state");
    assert_eq!(DownloadState::state_file_path("file.bin"), ".file.bin.rpdl_state");
    assert_eq!(DownloadState::state_file_path("/"), "/.download.rpdl_state");
}

#[test]
fn resume_requests_cover_unwritten_chunks() {
    let mut s = fresh(10, 4);
    s.mark_chunk_completed(1);
    let reqs = s.chunks_to_resume();
    let got: Vec<(usize, u64, u64, u64)> = reqs.iter().map(|c| (c.index, c.start, c.end, c.size)).collect();
    assert_eq!(got, vec![(0, 0, 3, 4), (2, 8, 9, 2)]);
    assert!(reqs.iter().all(|c| c.priority == ChunkPriority::Normal));
}

#[test]
fn write_order_sorts_results_stably_by_chunk() {
    let s = fresh(10, 4);
    let results = vec![
        ChunkResult { index: 2, data: vec![9] },
        ChunkResult { index: 0, data: vec![1] },
        ChunkResult { index: 2, data: vec![8] },
        ChunkResult { index: 1, data: vec![5] },
    ];
    assert_eq!(s.write_order(&results), vec![1, 3, 0, 2]);
}

#[test]
fn write_order_of_nothing_is_empty() {
    let s = fresh(10, 4);
    assert!(s.write_order(&vec![]).is_empty());
}
