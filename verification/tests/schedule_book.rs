use rpdl::chunked::ChunkedDownloadConfig;
use rpdl::error::DownloadError;
use rpdl::scheduler::{
    parse_schedule_time, RepeatPattern, RunFlag, ScheduleBook, ScheduledDownload,
    ScheduledDownloadConfig, UtcTime,
};

fn at(secs: i64) -> UtcTime {
    UtcTime { secs, nanos: 0 }
}

fn entry(id: &str, when: i64, repeat: Option<RepeatPattern>) -> ScheduledDownload {
    ScheduledDownload {
        id: id.to_string(),
        url: format!("http://example.com/{id}"),
        output_path: format!("/tmp/{id}"),
        scheduled_time: at(when),
        repeat,
        enabled: true,
        last_run: None,
        next_run: None,
        download_config: None,
    }
}

#[test]
fn rfc3339_times_are_read_in_utc() {
    assert_eq!(parse_schedule_time("2024-01-01T00:00:00Z"), Ok(at(1704067200)));
    assert_eq!(parse_schedule_time("2024-01-01T02:00:00+02:00"), Ok(at(1704067200)));
    assert_eq!(
        parse_schedule_time("2024-01-01T00:00:00.5Z"),
        Ok(UtcTime { secs: 1704067200, nanos: 500_000_000 })
    );
}

#[test]
fn malformed_time_is_refused() {
    match parse_schedule_time("tomorrow") {
        Err(DownloadError::InvalidUrl(m)) => assert!(m.starts_with("Invalid time format: ")),
        other => panic!("unexpected {other:?}"),
    }
}

#[test]
fn repeat_names_from_the_command_line() {
    assert!(matches!(RepeatPattern::from_cli_name("daily"), Some(RepeatPattern::Daily)));
    assert!(matches!(RepeatPattern::from_cli_name("weekly"), Some(RepeatPattern::Weekly)));
    assert!(matches!(RepeatPattern::from_cli_name("hourly"), Some(RepeatPattern::Hourly)));
    assert!(matches!(RepeatPattern::from_cli_name("monthly"), Some(RepeatPattern::Monthly)));
    assert!(RepeatPattern::from_cli_name("Daily").is_none());
    assert!(RepeatPattern::from_cli_name("yearly").is_none());
}

#[test]
fn repeat_steps_in_seconds() {
    assert_eq!(RepeatPattern::Hourly.step(), Some(3600));
    assert_eq!(RepeatPattern::Daily.step(), Some(86400));
    assert_eq!(RepeatPattern::Weekly.step(), Some(604800));
    assert_eq!(RepeatPattern::Monthly.step(), Some(2592000));
    assert_eq!(RepeatPattern::EveryMinutes(5).step(), Some(300));
    assert_eq!(RepeatPattern::EveryHours(2).step(), Some(7200));
    assert_eq!(RepeatPattern::EveryDays(3).step(), Some(259200));
    assert_eq!(RepeatPattern::Cron("* * * * *".to_string()).step(), Some(3600));
    assert_eq!(RepeatPattern::EveryDays(u64::MAX).step(), Some(-86400));
    assert_eq!(RepeatPattern::EveryDays(1u64 << 62).step(), None);
}

#[test]
fn next_run_adds_the_step() {
    let from = UtcTime { secs: 1000, nanos: 7 };
    assert_eq!(RepeatPattern::Daily.next_run(from), UtcTime { secs: 87400, nanos: 7 });
    assert_eq!(RepeatPattern::EveryMinutes(1).try_next_run(at(0)), Some(at(60)));
    assert_eq!(RepeatPattern::EveryMinutes(1_000_000_000_000_000).try_next_run(at(0)), None);
}

#[test]
fn entry_from_the_command_line() {
    let d = ScheduledDownload::from_cli(
        "nightly".to_string(),
        "http://h/x".to_string(),
        "/tmp/x".to_string(),
        "2024-01-01T00:00:00Z",
        Some("weekly"),
    )
    .unwrap();
    assert_eq!(d.id, "nightly");
    assert_eq!(d.scheduled_time, at(1704067200));
    assert!(matches!(d.repeat, Some(RepeatPattern::Weekly)));
    assert!(d.enabled);
    assert!(d.last_run.is_none() && d.next_run.is_none() && d.download_config.is_none());
    assert_eq!(d.status_text(), "enabled");
}

#[test]
fn unknown_repeat_name_means_no_repetition() {
    let d = ScheduledDownload::from_cli("a".into(), "u".into(), "o".into(), "2024-01-01T00:00:00Z", Some("often"))
        .unwrap();
    assert!(d.repeat.is_none());
}

#[test]
fn entry_with_bad_time_is_refused() {
    let r = ScheduledDownload::from_cli("a".into(), "u".into(), "o".into(), "noon", None);
    assert!(matches!(r, Err(DownloadError::InvalidUrl(m)) if m.starts_with("Invalid time format: ")));
}

#[test]
fn added_entry_is_armed_for_its_time() {
    let mut book = ScheduleBook::new();
    book.add(entry("a", 100, None));
    let got = book.get("a").unwrap();
    assert_eq!(got.next_run, Some(at(100)));
    assert!(!got.due_at(at(99)));
    assert!(got.due_at(at(100)));
}

#[test]
fn insert_replaces_an_entry_with_the_same_id() {
    let mut book = ScheduleBook::new();
    book.insert(entry("a", 1, None));
    book.insert(entry("b", 2, None));
    book.insert(entry("a", 3, None));
    assert_eq!(book.len(), 2);
    assert_eq!(book.get("a").unwrap().scheduled_time, at(3));
    assert_eq!(book.find("b"), Some(1));
}

#[test]
fn remove_then_absent() {
    let mut book = ScheduleBook::new();
    book.add(entry("a", 1, None));
    assert!(book.remove("a"));
    assert!(book.get("a").is_none());
    assert!(!book.remove("a"));
    assert_eq!(book.len(), 0);
}

#[test]
fn toggle_enables_and_disables() {
    let mut book = ScheduleBook::new();
    book.add(entry("a", 1, None));
    assert!(book.set_enabled("a", false));
    let d = book.get("a").unwrap();
    assert!(!d.enabled);
    assert_eq!(d.status_text(), "disabled");
    assert!(!d.due_at(at(5)));
    assert!(!book.set_enabled("zz", true));
}

#[test]
fn due_lists_enabled_entries_whose_time_came() {
    let mut book = ScheduleBook::new();
    book.add(entry("early", 10, None));
    book.add(entry("late", 1000, None));
    book.add(entry("off", 5, None));
    book.set_enabled("off", false);
    let due: Vec<String> = book.due(at(500)).into_iter().map(|d| d.id).collect();
    assert_eq!(due, vec!["early".to_string()]);
    assert_eq!(book.list().len(), 3);
}

#[test]
fn successful_repeating_run_is_rearmed_and_not_due_again() {
    let d = entry("r", 100, Some(RepeatPattern::Hourly)).armed();
    let after = d.after_run(at(200), true);
    assert_eq!(after.last_run, Some(at(200)));
    assert_eq!(after.next_run, Some(at(3800)));
    assert!(after.enabled);
    assert!(!after.due_at(at(200)));
}

#[test]
fn successful_one_off_run_is_disabled() {
    let d = entry("once", 100, None).armed();
    let after = d.try_after_run(at(150), true).unwrap();
    assert!(!after.enabled);
    assert_eq!(after.last_run, Some(at(150)));
}

#[test]
fn failed_run_leaves_the_entry_as_it_was() {
    let d = entry("f", 100, Some(RepeatPattern::Daily)).armed();
    let after = d.after_run(at(150), false);
    assert!(after.last_run.is_none());
    assert_eq!(after.next_run, Some(at(100)));
    assert!(after.due_at(at(150)));
}

#[test]
fn entry_config_overrides_defaults() {
    let c = ScheduledDownloadConfig { chunk_size: Some(1024), max_concurrent_chunks: None, timeout_secs: Some(5) };
    let applied = c.apply(ChunkedDownloadConfig::new());
    assert_eq!(applied.chunk_size, 1024);
    assert_eq!(applied.max_concurrent_chunks, 8);
    assert_eq!(applied.timeout, 5);
}

#[test]
fn scheduler_cannot_start_twice() {
    let mut flag = RunFlag::new();
    assert!(!flag.is_running());
    assert_eq!(flag.start(), Ok(()));
    assert!(flag.is_running());
    assert_eq!(flag.start(), Err(DownloadError::InvalidUrl("Scheduler already running".to_string())));
    flag.stop();
    assert!(!flag.is_running());
}
