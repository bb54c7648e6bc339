use rpdl::error::DownloadError;
use rpdl::specialized::{
    chunking_supported, find_asset, github_target, parse_latest_request, pick_latest_asset,
    pick_release_asset, DownloadInfo, GithubTarget, ReleaseAsset, SpecializedDownloaderManager,
};

fn asset(name: &str) -> ReleaseAsset {
    ReleaseAsset { name: name.to_string(), browser_download_url: format!("https://dl/{name}") }
}

fn archive(t: GithubTarget) -> DownloadInfo {
    match t {
        GithubTarget::Archive(info) => info,
        other => panic!("expected an archive, got {other:?}"),
    }
}

#[test]
fn manager_holds_the_token() {
    assert!(SpecializedDownloaderManager::new().github_token().is_none());
    let m = SpecializedDownloaderManager::new().with_github_token("t0k".to_string());
    assert_eq!(m.github_token(), Some("t0k".to_string()));
    assert!(SpecializedDownloaderManager::default().github_token().is_none());
}

#[test]
fn commit_archive_url() {
    let info = archive(github_target("rust-lang/rust#abc123", None).unwrap());
    assert_eq!(info.url, "https://github.com/rust-lang/rust/archive/abc123.zip");
    assert_eq!(info.filename.as_deref(), Some("rust-abc123.zip"));
    assert_eq!(info.description.as_deref(), Some("rust-lang/rust @ abc123"));
    assert!(info.auth_token.is_none());
}

#[test]
fn commit_wins_over_tag() {
    let info = archive(github_target("o/r#c", Some("v1")).unwrap());
    assert_eq!(info.url, "https://github.com/o/r/archive/c.zip");
}

#[test]
fn main_branch_archive_without_tag() {
    let info = archive(github_target("o/r", None).unwrap());
    assert_eq!(info.url, "https://github.com/o/r/archive/refs/heads/main.zip");
    assert_eq!(info.filename.as_deref(), Some("r-main.zip"));
    assert_eq!(info.description.as_deref(), Some("o/r - main branch source"));
}

#[test]
fn tag_means_a_release_lookup() {
    match github_target("o/r", Some("v1.2")).unwrap() {
        GithubTarget::Release { owner, repo, tag } => {
            assert_eq!((owner.as_str(), repo.as_str(), tag.as_str()), ("o", "r", "v1.2"));
        }
        other => panic!("unexpected {other:?}"),
    }
}

#[test]
fn latest_tag_means_the_latest_release() {
    match github_target("o/r", Some("latest")).unwrap() {
        GithubTarget::LatestRelease { owner, repo } => {
            assert_eq!((owner.as_str(), repo.as_str()), ("o", "r"));
        }
        other => panic!("unexpected {other:?}"),
    }
    match github_target("o/r", Some("Latest")).unwrap() {
        GithubTarget::Release { tag, .. } => assert_eq!(tag, "Latest"),
        other => panic!("unexpected {other:?}"),
    }
}

#[test]
fn malformed_repo_is_refused() {
    let expected = DownloadError::InvalidUrl("Format must be 'owner/repo' or 'owner/repo#commit'".to_string());
    for bad in ["justone", "a/b/c", "a/b/c#x", "#x", ""] {
        match github_target(bad, None) {
            Err(e) => assert_eq!(e, expected, "{bad}"),
            Ok(t) => panic!("{bad} accepted as {t:?}"),
        }
    }
}

#[test]
fn asset_search_is_by_substring() {
    let assets = vec![asset("tool-linux.tar.gz"), asset("tool-macos.zip"), asset("tool-linux.zip")];
    assert_eq!(find_asset(&assets, "linux"), Some(0));
    assert_eq!(find_asset(&assets, "macos"), Some(1));
    assert_eq!(find_asset(&assets, "windows"), None);
    assert_eq!(find_asset(&assets, ""), Some(0));
}

#[test]
fn release_asset_by_filter() {
    let assets = vec![asset("a.tar.gz"), asset("b.zip")];
    let info = pick_release_asset("o", "r", "v1", "v1.0.0", &assets, Some("zip")).unwrap();
    assert_eq!(info.url, "https://dl/b.zip");
    assert_eq!(info.filename.as_deref(), Some("b.zip"));
    assert_eq!(info.description.as_deref(), Some("o/r - Release v1.0.0 - b.zip"));
}

#[test]
fn release_asset_defaults_to_the_first() {
    let assets = vec![asset("a.tar.gz"), asset("b.zip")];
    let info = pick_release_asset("o", "r", "v1", "v1", &assets, None).unwrap();
    assert_eq!(info.url, "https://dl/a.tar.gz");
    assert_eq!(info.description.as_deref(), Some("o/r - Release v1 (2 assets available)"));
}

#[test]
fn release_without_assets_is_refused() {
    assert_eq!(
        pick_release_asset("o", "r", "v9", "v9", &vec![], None).unwrap_err(),
        DownloadError::InvalidUrl("No assets found in release 'v9'".to_string())
    );
}

#[test]
fn release_without_matching_asset_is_refused() {
    assert_eq!(
        pick_release_asset("o", "r", "v1", "v1", &vec![asset("x")], Some("arm")).unwrap_err(),
        DownloadError::InvalidUrl("No asset matching 'arm' found".to_string())
    );
}

#[test]
fn latest_request_parts() {
    let (o, r, f) = parse_latest_request("owner/repo/linux").unwrap();
    assert_eq!((o.as_str(), r.as_str(), f.as_deref()), ("owner", "repo", Some("linux")));
    let (o, r, f) = parse_latest_request("owner/repo").unwrap();
    assert_eq!((o.as_str(), r.as_str(), f), ("owner", "repo", None));
    assert_eq!(
        parse_latest_request("owner").unwrap_err(),
        DownloadError::InvalidUrl("Format must be 'owner/repo[/asset_name]'".to_string())
    );
}

#[test]
fn latest_release_asset_description() {
    let assets = vec![asset("one"), asset("two")];
    let info = pick_latest_asset("o", "r", "v2", Some("Second"), &assets, Some("tw")).unwrap();
    assert_eq!(info.url, "https://dl/two");
    assert_eq!(info.description.as_deref(), Some("o/r - Release v2 (Second)"));
    let info = pick_latest_asset("o", "r", "v2", None, &assets, None).unwrap();
    assert_eq!(info.url, "https://dl/one");
    assert_eq!(info.description.as_deref(), Some("o/r - Release v2 (Unknown)"));
}

#[test]
fn latest_release_refusals() {
    assert_eq!(
        pick_latest_asset("o", "r", "v2", None, &vec![], None).unwrap_err(),
        DownloadError::InvalidUrl("No assets found in release".to_string())
    );
    assert_eq!(
        pick_latest_asset("o", "r", "v2", None, &vec![asset("a")], Some("b")).unwrap_err(),
        DownloadError::InvalidUrl("No asset matching 'b' found".to_string())
    );
}

#[test]
fn chunking_needs_length_and_byte_ranges() {
    assert!(chunking_supported(true, Some("bytes")));
    assert!(chunking_supported(true, Some("BYTES")));
    assert!(!chunking_supported(false, Some("bytes")));
    assert!(!chunking_supported(true, Some("none")));
    assert!(!chunking_supported(true, None));
}
