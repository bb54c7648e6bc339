use rpdl::cli::{parse_duration_secs, parse_size_mb, Cli, Commands, Shell, StrategyArg};
use rpdl::chunked::ChunkStrategy;
use rpdl::task::{batch_urls, file_name_from_url, tasks_for_urls, DownloadResult, DownloadTask};
use rpdl::text::{decimal_string, parse_u64, signed_decimal_string, parse_digits_i128};

#[test]
fn decimal_numerals() {
    assert_eq!(decimal_string(0), "0");
    assert_eq!(decimal_string(1907), "1907");
    assert_eq!(decimal_string(u64::MAX), "18446744073709551615");
    assert_eq!(signed_decimal_string(-42), "-42");
    assert_eq!(signed_decimal_string(i128::MIN), "-170141183460469231731687303715884105728");
    assert_eq!(signed_decimal_string(i128::MAX), "170141183460469231731687303715884105727");
}

#[test]
fn u64_parsing_follows_std() {
    for s in ["0", "42", "+42", "18446744073709551615", "18446744073709551616", "", "+", "-1", "4 2", "0x10"] {
        assert_eq!(parse_u64(s), s.parse::<u64>().ok(), "{s:?}");
    }
}

#[test]
fn i128_digit_parsing() {
    assert_eq!(parse_digits_i128("170141183460469231731687303715884105727"), Some(i128::MAX));
    assert_eq!(parse_digits_i128("170141183460469231731687303715884105728"), None);
    assert_eq!(parse_digits_i128("007"), Some(7));
    assert_eq!(parse_digits_i128(""), None);
    assert_eq!(parse_digits_i128("+7"), None);
}

#[test]
fn task_builders() {
    let t = DownloadTask::new("http://a/b".to_string());
    assert!(t.id.is_none());
    assert_eq!(t.label(), "http://a/b");
    let t = t.with_id("b".to_string());
    assert_eq!(t.url, "http://a/b");
    assert_eq!(t.id.as_deref(), Some("b"));
    assert_eq!(t.label(), "b");
}

#[test]
fn result_summary_counts_bytes() {
    let r = DownloadResult {
        url: "http://a/b".to_string(),
        id: None,
        data: vec![0; 1234],
        status: 200,
        content_length: Some(1234),
    };
    assert_eq!(r.summary(), "http://a/b (1234 bytes)");
}

#[test]
fn file_names_come_from_the_last_path_piece() {
    assert_eq!(file_name_from_url("https://example.com/files/a.zip"), "a.zip");
    assert_eq!(file_name_from_url("https://example.com/dir/"), "");
    assert_eq!(file_name_from_url("plain"), "plain");
}

#[test]
fn one_task_per_url() {
    let tasks = tasks_for_urls(vec!["http://h/x.bin".to_string(), "http://h/y".to_string()]);
    assert_eq!(tasks.len(), 2);
    assert_eq!(tasks[0].url, "http://h/x.bin");
    assert_eq!(tasks[0].id.as_deref(), Some("x.bin"));
    assert_eq!(tasks[1].id.as_deref(), Some("y"));
}

#[test]
fn batch_file_lines() {
    let text = "http://a/1\n\n# comment\n  http://b/2  \r\n\t\n  # indented stays\nhttp://c/3";
    assert_eq!(
        batch_urls(text),
        vec![
            "http://a/1".to_string(),
            "http://b/2".to_string(),
            "# indented stays".to_string(),
            "http://c/3".to_string()
        ]
    );
}

#[test]
fn batch_file_matches_std_lines_and_trim() {
    let text = "x\r\n\u{3000}y\u{2028}\n#z\n\n w \n";
    let expected: Vec<String> = text
        .lines()
        .filter(|l| !l.trim().is_empty() && !l.starts_with('#'))
        .map(|l| l.trim().to_string())
        .collect();
    assert_eq!(batch_urls(text), expected);
    assert!(batch_urls("").is_empty());
    assert!(batch_urls("\n\n").is_empty());
}

#[test]
fn size_option_is_in_mebibytes() {
    assert_eq!(parse_size_mb("5"), Ok(5_242_880));
    assert_eq!(parse_size_mb("0"), Ok(0));
    assert_eq!(parse_size_mb("five"), Err("Invalid size: five".to_string()));
    assert_eq!(parse_size_mb("-1"), Err("Invalid size: -1".to_string()));
}

#[test]
fn duration_option_is_in_seconds() {
    assert_eq!(parse_duration_secs("30"), Ok(30));
    assert_eq!(parse_duration_secs("1.5"), Err("Invalid duration: 1.5".to_string()));
}

#[test]
fn completion_file_names() {
    assert_eq!(Shell::Bash.file_name("rpdl"), "rpdl.bash");
    assert_eq!(Shell::Elvish.file_name("rpdl"), "rpdl.elv");
    assert_eq!(Shell::Fish.file_name("rpdl"), "rpdl.fish");
    assert_eq!(Shell::Zsh.file_name("rpdl"), "_rpdl");
}

#[test]
fn strategy_argument_converts() {
    assert_eq!(ChunkStrategy::from(StrategyArg::Simple), ChunkStrategy::Simple);
    assert_eq!(ChunkStrategy::from(StrategyArg::Smart), ChunkStrategy::Smart);
}

#[test]
fn quiet_turns_progress_off() {
    let cli = |quiet| Cli {
        command: Commands::TorrentInfo { source: "x".to_string() },
        verbose: false,
        quiet,
        markdown_help: false,
    };
    assert!(cli(false).progress_enabled(false));
    assert!(!cli(true).progress_enabled(false));
    assert!(!cli(false).progress_enabled(true));
}
