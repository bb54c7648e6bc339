use rpdl::downloader::DownloadBuilder;
use rpdl::error::DownloadError;
use rpdl::extract::{archive_kind, ArchiveKind};
use rpdl::network::{optimal_chunk_size, BandwidthTier, SampleWindow, MAX_SAMPLES, WINDOW_MS};
use rpdl::progress::{task_outcome_message, ProgressConfig, ProgressStyleConfig};
use rpdl::torrent::{
    check_torrent_bytes, file_label, size_unit, size_unit_symbol, torrent_file_missing, torrent_name,
    TorrentInfo, TorrentSource,
};

#[test]
fn window_keeps_at_most_fifty_samples() {
    let mut w = SampleWindow::new();
    for i in 0..60u64 {
        w.record(1000, 10, true, 100_000 + i);
    }
    assert_eq!(w.len(), MAX_SAMPLES);
    let s = w.samples();
    assert_eq!(s[0].at_ms, 100_010);
    assert_eq!(s[49].at_ms, 100_059);
}

#[test]
fn window_drops_samples_older_than_thirty_seconds() {
    let mut w = SampleWindow::new();
    w.record(10, 1, true, 1_000);
    w.record(20, 2, false, 20_000);
    w.record(30, 3, true, 40_000);
    let at: Vec<u64> = w.samples().iter().map(|s| s.at_ms).collect();
    assert_eq!(at, vec![20_000, 40_000]);
    assert_eq!(WINDOW_MS, 30_000);
    w.record(40, 4, true, 50_000);
    assert_eq!(w.samples().iter().map(|s| s.at_ms).collect::<Vec<_>>(), vec![20_000, 40_000, 50_000]);
    w.record(50, 5, true, 50_001);
    assert_eq!(w.samples()[0].at_ms, 40_000);
}

#[test]
fn early_samples_are_all_kept() {
    let mut w = SampleWindow::new();
    w.record(1, 1, true, 0);
    w.record(1, 1, true, 29_999);
    assert_eq!(w.len(), 2);
}

#[test]
fn window_totals() {
    let mut w = SampleWindow::new();
    w.record(u64::MAX, 7, false, 5);
    w.record(u64::MAX, 8, true, 6);
    w.record(3, 9, false, 7);
    let (bytes, ms, failed) = w.totals();
    assert_eq!(bytes, 2 * (u64::MAX as u128) + 3);
    assert_eq!(ms, 24);
    assert_eq!(failed, 2);
    assert_eq!(SampleWindow::new().totals(), (0, 0, 0));
}

#[test]
fn chunk_size_follows_the_link() {
    assert_eq!(optimal_chunk_size(BandwidthTier::Fast, false, false), 10 * 1024 * 1024);
    assert_eq!(optimal_chunk_size(BandwidthTier::Good, false, false), 5 * 1024 * 1024);
    assert_eq!(optimal_chunk_size(BandwidthTier::Fair, false, false), 2 * 1024 * 1024);
    assert_eq!(optimal_chunk_size(BandwidthTier::Slow, false, false), 1024 * 1024);
    assert_eq!(optimal_chunk_size(BandwidthTier::Fast, true, true), 5 * 1024 * 1024);
    assert_eq!(optimal_chunk_size(BandwidthTier::Slow, true, false), 512 * 1024);
}

#[test]
fn jitter_cuts_to_seventy_percent() {
    for (tier, base) in [
        (BandwidthTier::Fast, 10485760u64),
        (BandwidthTier::Good, 5242880),
        (BandwidthTier::Fair, 2097152),
        (BandwidthTier::Slow, 1048576),
    ] {
        assert_eq!(optimal_chunk_size(tier, false, true), (base as f64 * 0.7) as u64);
    }
    assert_eq!(optimal_chunk_size(BandwidthTier::Fair, false, true), 1468006);
}

#[test]
fn torrent_sources() {
    assert_eq!(TorrentSource::classify("magnet:?xt=urn:btih:abc"), Ok(TorrentSource::Link("magnet:?xt=urn:btih:abc".into())));
    assert_eq!(TorrentSource::classify("https://x/t.torrent"), Ok(TorrentSource::Link("https://x/t.torrent".into())));
    assert_eq!(TorrentSource::classify("http://x/t"), Ok(TorrentSource::Link("http://x/t".into())));
    assert_eq!(TorrentSource::classify("ftp://x/t"), Ok(TorrentSource::File("ftp://x/t".into())));
    assert_eq!(TorrentSource::classify("./a.torrent"), Ok(TorrentSource::File("./a.torrent".into())));
    assert_eq!(TorrentSource::classify(""), Err(DownloadError::InvalidUrl("URL cannot be empty".into())));
}

#[test]
fn torrent_file_errors() {
    assert_eq!(torrent_file_missing("a.torrent"), DownloadError::InvalidUrl("Torrent file not found: a.torrent".into()));
    assert_eq!(check_torrent_bytes(&vec![]), Err(DownloadError::InvalidUrl("Torrent file is empty".into())));
    assert_eq!(check_torrent_bytes(&vec![b'd']), Ok(()));
}

#[test]
fn torrent_listing_names() {
    assert_eq!(file_label(Some("a.txt".into()), 3), "a.txt");
    assert_eq!(file_label(None, 3), "<invalid UTF-8 name #3>");
    assert_eq!(torrent_name(None), "<unknown>");
    assert_eq!(torrent_name(Some("t".into())), "t");
}

#[test]
fn torrent_info_from_metadata() {
    let info = TorrentInfo::from_parts(None, None, vec![(Some("a".into()), 5), (None, 7)]);
    assert_eq!(info.name, "<unknown>");
    assert_eq!(info.total_size, 0);
    assert_eq!(info.files.len(), 2);
    assert_eq!((info.files[0].name.as_str(), info.files[0].size), ("a", 5));
    assert_eq!((info.files[1].name.as_str(), info.files[1].size), ("<invalid UTF-8 name #1>", 7));
    let info = TorrentInfo::from_parts(Some("n".into()), Some(99), vec![]);
    assert_eq!((info.name.as_str(), info.total_size), ("n", 99));
}

#[test]
fn size_units() {
    assert_eq!(size_unit(0), 0);
    assert_eq!(size_unit(1023), 0);
    assert_eq!(size_unit(1024), 1);
    assert_eq!(size_unit(1024 * 1024 - 1), 1);
    assert_eq!(size_unit(1024 * 1024), 2);
    assert_eq!(size_unit(1 << 30), 3);
    assert_eq!(size_unit(1 << 40), 4);
    assert_eq!(size_unit(u64::MAX), 4);
    let names: Vec<&str> = (0..5).map(size_unit_symbol).collect();
    assert_eq!(names, vec!["B", "KB", "MB", "GB", "TB"]);
}

#[test]
fn archive_kinds_by_extension() {
    assert_eq!(archive_kind("/tmp/a.zip"), Some(ArchiveKind::Zip));
    assert_eq!(archive_kind("x.tar"), Some(ArchiveKind::TarGz));
    assert_eq!(archive_kind("x.tar.gz"), Some(ArchiveKind::TarGz));
    assert_eq!(archive_kind("x.tgz"), Some(ArchiveKind::TarGz));
    assert_eq!(archive_kind("x.ZIP"), None);
    assert_eq!(archive_kind(".zip"), None);
    assert_eq!(archive_kind("dir/zip"), None);
    assert_eq!(archive_kind("a.rar"), None);
    assert_eq!(archive_kind(""), None);
}

#[test]
fn downloader_defaults() {
    let b = DownloadBuilder::new();
    assert_eq!(b.max_concurrent, 10);
    assert_eq!(b.timeout, 30);
    assert!(b.user_agent.is_none());
    assert_eq!(b.connection_timeout, 10);
    assert!(b.progress_config.enabled && b.progress_config.show_overall && b.progress_config.show_individual);
    assert!(matches!(b.progress_config.overall_style, ProgressStyleConfig::Default));
    assert!(matches!(b.progress_config.individual_style, ProgressStyleConfig::Minimal));
    let b = b
        .with_max_concurrent(2)
        .with_timeout(5)
        .with_user_agent(Some("ua".into()))
        .with_connection_timeout(3)
        .with_progress_config(ProgressConfig::new().with_enabled(false));
    assert_eq!((b.max_concurrent, b.timeout, b.connection_timeout), (2, 5, 3));
    assert_eq!(b.user_agent.as_deref(), Some("ua"));
    assert!(!b.progress_config.enabled);
}

#[test]
fn progress_settings() {
    let p = ProgressConfig::new();
    assert!(p.shows_overall_bar() && p.shows_task_bars());
    let p = p.with_show_individual(false);
    assert!(p.shows_overall_bar() && !p.shows_task_bars());
    let p = p.with_enabled(false).with_show_individual(true);
    assert!(!p.shows_overall_bar() && !p.shows_task_bars());
    assert_eq!(ProgressStyleConfig::Minimal.template(), "{bar:16.cyan/blue} {pos}/{len}");
    assert_eq!(ProgressStyleConfig::Custom("{msg}".into()).template(), "{msg}");
    assert_eq!(task_outcome_message(true, "x"), "Done: x");
    assert_eq!(task_outcome_message(false, "x"), "Failed: x");
}

#[test]
fn error_messages() {
    assert_eq!(DownloadError::Timeout.message(), "Download timeout");
    assert_eq!(DownloadError::InvalidUrl("x".into()).message(), "Invalid URL: x");
    assert_eq!(DownloadError::RangeNotSupported.message(), "Server does not support range requests");
    assert_eq!(DownloadError::ContentLengthUnknown.message(), "Content length unknown");
    assert_eq!(DownloadError::InvalidChunkRange("r".into()).message(), "Invalid chunk range: r");
    assert_eq!(DownloadError::Cancelled.message(), "Download was cancelled");
    assert_eq!(DownloadError::HttpError.message(), "HTTP error");
    assert_eq!(DownloadError::RequestFailed("e".into()).message(), "HTTP request failed: e");
    assert_eq!(DownloadError::IoError("e".into()).message(), "IO error: e");
    assert_eq!(DownloadError::JoinError("e".into()).message(), "Task join error: e");
    assert_eq!(DownloadError::ZipOperationFailed("e".into()).message(), "Failed to perform operation on zip: e");
    assert_eq!(DownloadError::JsonError("e".into()).message(), "JSON error: e");
}
