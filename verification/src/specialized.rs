//! Where to download GitHub sources and release assets from.
use vstd::prelude::*;
use crate::error::DownloadError;
use crate::text::{
    chars_of, contains_seq, eq_ignore_ascii_case, eq_ignore_ascii_case_spec, contains_spec, decimal, decimal_string, find_char, find_char_spec, push_str,
    same_chars, split_char, split_spec, string_of, sub_chars,
};

verus! {

/// A resolved download: the URL, and optionally a file name, a description
/// and a bearer token to send.
#[derive(Debug, Clone)]
pub struct DownloadInfo {
    pub url: String,
    pub filename: Option<String>,
    pub description: Option<String>,
    pub auth_token: Option<String>,
}

/// Entry point for site-specific downloads; holds the optional GitHub token.
pub struct SpecializedDownloaderManager {
    github_token: Option<String>,
}

impl SpecializedDownloaderManager {
    /// The token that GitHub requests will carry, if any.
    pub closed spec fn token(&self) -> Option<String> {
        self.github_token
    }

    /// A manager without a token.
    pub fn new() -> (r: Self)
        ensures
            r.token() is None,
    {
        SpecializedDownloaderManager { github_token: None }
    }

    /// The same manager, authenticating with `token`.
    pub fn with_github_token(self, token: String) -> (r: Self)
        ensures
            r.token() == Some(token),
    {
        SpecializedDownloaderManager { github_token: Some(token) }
    }

    /// The token GitHub requests carry.
    pub fn github_token(&self) -> (r: Option<String>)
        ensures
            r == self.token(),
    {
        match &self.github_token {
            Some(t) => Some(t.clone()),
            None => None,
        }
    }
}

impl Default for SpecializedDownloaderManager {
    fn default() -> (r: Self)
        ensures
            r.token() is None,
    {
        Self::new()
    }
}

/// One file attached to a release.
#[derive(Debug, Clone)]
pub struct ReleaseAsset {
    pub name: String,
    pub browser_download_url: String,
}

/// What a GitHub request resolves to before any network access: a source
/// archive, a release that must be looked up by tag, or the latest release
/// of the repository (asked for with the tag `latest`).
#[derive(Debug)]
pub enum GithubTarget {
    Archive(DownloadInfo),
    Release { owner: String, repo: String, tag: String },
    LatestRelease { owner: String, repo: String },
}

/// `repo` split at the first `#` into the `owner/name` part and the
/// optional commit.
pub open spec fn repo_and_commit(repo: Seq<char>) -> (Seq<char>, Option<Seq<char>>) {
    match find_char_spec(repo, '#') {
        Some(i) => (repo.subrange(0, i as int), Some(repo.subrange(i as int + 1, repo.len() as int))),
        None => (repo, None),
    }
}

pub open spec fn bad_repo_text() -> Seq<char> {
    "Format must be 'owner/repo' or 'owner/repo#commit'"@
}

/// Owner and repository name of `path`: exactly two `/`-separated parts.
pub open spec fn owner_and_name(path: Seq<char>) -> Option<(Seq<char>, Seq<char>)> {
    let parts = split_spec(path, '/');
    if parts.len() == 2 {
        Some((parts[0], parts[1]))
    } else {
        None
    }
}

/// Archive of commit `c`: URL, file name and description.
pub open spec fn commit_archive(owner: Seq<char>, name: Seq<char>, c: Seq<char>) -> (Seq<char>, Seq<char>, Seq<char>) {
    (
        "https://github.com/"@ + owner + "/"@ + name + "/archive/"@ + c + ".zip"@,
        name + "-"@ + c + ".zip"@,
        owner + "/"@ + name + " @ "@ + c,
    )
}

/// Archive of the main branch: URL, file name and description.
pub open spec fn main_archive(owner: Seq<char>, name: Seq<char>) -> (Seq<char>, Seq<char>, Seq<char>) {
    (
        "https://github.com/"@ + owner + "/"@ + name + "/archive/refs/heads/main.zip"@,
        name + "-main.zip"@,
        owner + "/"@ + name + " - main branch source"@,
    )
}

/// `info` describes the archive `(url, file, description)`, with no token.
pub open spec fn is_archive(info: DownloadInfo, a: (Seq<char>, Seq<char>, Seq<char>)) -> bool {
    &&& info.url@ == a.0
    &&& info.filename matches Some(f) && f@ == a.1
    &&& info.description matches Some(d) && d@ == a.2
    &&& info.auth_token is None
}

fn cat(a: &Vec<char>, b: &str) -> (r: Vec<char>)
    ensures
        r@ == a@ + b@,
{
    let bs = chars_of(b);
    let mut r = a.clone();
    let mut i: usize = 0;
    while i < bs.len()
        invariant
            i <= bs.len(),
            r@ == a@ + bs@.subrange(0, i as int),
        decreases bs.len() - i,
    {
        r.push(bs[i]);
        i = i + 1;
        assert(r@ =~= a@ + bs@.subrange(0, i as int));
    }
    assert(bs@.subrange(0, bs.len() as int) =~= bs@);
    r
}

fn catv(a: &Vec<char>, b: &Vec<char>) -> (r: Vec<char>)
    ensures
        r@ == a@ + b@,
{
    let mut r = a.clone();
    let mut i: usize = 0;
    while i < b.len()
        invariant
            i <= b.len(),
            r@ == a@ + b@.subrange(0, i as int),
        decreases b.len() - i,
    {
        r.push(b[i]);
        i = i + 1;
        assert(r@ =~= a@ + b@.subrange(0, i as int));
    }
    assert(b@.subrange(0, b.len() as int) =~= b@);
    r
}

/// Resolves a GitHub request as far as it can be without the network:
/// `owner/repo#commit` and `owner/repo` without tag give an archive URL,
/// `owner/repo` with the tag `latest` the latest release, and with any
/// other tag the release to look up by that tag. Anything but exactly one
/// `/` in the part before `#` is refused.
pub fn github_target(repo: &str, tag: Option<&str>) -> (r: Result<GithubTarget, DownloadError>)
    ensures
        match owner_and_name(repo_and_commit(repo@).0) {
            None => r matches Err(DownloadError::InvalidUrl(m)) && m@ == bad_repo_text(),
            Some((owner, name)) => match repo_and_commit(repo@).1 {
                Some(c) => r matches Ok(GithubTarget::Archive(info)) && is_archive(info, commit_archive(owner, name, c)),
                None => match tag {
                    Some(t) => if t@ == "latest"@ {
                        r matches Ok(GithubTarget::LatestRelease { owner: o, repo: n }) && o@ == owner && n@ == name
                    } else {
                        r matches Ok(GithubTarget::Release { owner: o, repo: n, tag: g }) && o@ == owner && n@
                            == name && g@ == t@
                    },
                    None => r matches Ok(GithubTarget::Archive(info)) && is_archive(info, main_archive(owner, name)),
                },
            },
        },
{
    let cs = chars_of(repo);
    proof {
        crate::text::lemma_find_char_from_range(cs@, '#', 0);
    }
    let (path, commit) = match find_char(&cs, '#') {
        Some(i) => (sub_chars(&cs, 0, i), Some(sub_chars(&cs, i + 1, cs.len()))),
        None => (cs.clone(), None),
    };
    assert(path@ == repo_and_commit(repo@).0);
    assert(match commit {
        Some(c) => repo_and_commit(repo@).1 == Some(c@),
        None => repo_and_commit(repo@).1 is None,
    });
    let parts = split_char(&path, '/');
    assert(parts@.map_values(|p: Vec<char>| p@).len() == parts@.len());
    if parts.len() != 2 {
        return Err(DownloadError::InvalidUrl(String::from_str("Format must be 'owner/repo' or 'owner/repo#commit'")));
    }
    assert(parts@[0]@ == split_spec(path@, '/')[0]);
    assert(parts@[1]@ == split_spec(path@, '/')[1]);
    let owner = &parts[0];
    let name = &parts[1];
    match commit {
        Some(c) => {
            let u0 = chars_of("https://github.com/");
            let u1 = catv(&u0, owner);
            let u2 = cat(&u1, "/");
            let u3 = catv(&u2, name);
            let u4 = cat(&u3, "/archive/");
            let u5 = catv(&u4, &c);
            let url = cat(&u5, ".zip");
            let f1 = cat(name, "-");
            let f2 = catv(&f1, &c);
            let file = cat(&f2, ".zip");
            let d1 = cat(owner, "/");
            let d2 = catv(&d1, name);
            let d3 = cat(&d2, " @ ");
            let desc = catv(&d3, &c);
            Ok(GithubTarget::Archive(DownloadInfo {
                url: string_of(&url),
                filename: Some(string_of(&file)),
                description: Some(string_of(&desc)),
                auth_token: None,
            }))
        },
        None => match tag {
            Some(t) => if same_chars(&chars_of(t), &chars_of("latest")) {
                Ok(GithubTarget::LatestRelease { owner: string_of(owner), repo: string_of(name) })
            } else {
                Ok(GithubTarget::Release { owner: string_of(owner), repo: string_of(name), tag: String::from_str(t) })
            },
            None => {
                let u0 = chars_of("https://github.com/");
                let u1 = catv(&u0, owner);
                let u2 = cat(&u1, "/");
                let u3 = catv(&u2, name);
                let url = cat(&u3, "/archive/refs/heads/main.zip");
                let file = cat(name, "-main.zip");
                let d1 = cat(owner, "/");
                let d2 = catv(&d1, name);
                let desc = cat(&d2, " - main branch source");
                Ok(GithubTarget::Archive(DownloadInfo {
                    url: string_of(&url),
                    filename: Some(string_of(&file)),
                    description: Some(string_of(&desc)),
                    auth_token: None,
                }))
            },
        },
    }
}


/// Position of the first asset at or after `k` whose name contains `pat`,
/// or -1.
pub open spec fn first_asset_with(assets: Seq<ReleaseAsset>, pat: Seq<char>, k: int) -> int
    decreases assets.len() - k,
{
    if k < 0 || k >= assets.len() {
        -1
    } else if contains_spec(assets[k].name@, pat) {
        k
    } else {
        first_asset_with(assets, pat, k + 1)
    }
}

proof fn lemma_first_asset_range(assets: Seq<ReleaseAsset>, pat: Seq<char>, k: int)
    requires
        0 <= k,
    ensures
        first_asset_with(assets, pat, k) == -1 || k <= first_asset_with(assets, pat, k) < assets.len(),
    decreases assets.len() - k,
{
    if k < assets.len() && !contains_spec(assets[k].name@, pat) {
        lemma_first_asset_range(assets, pat, k + 1);
    }
}

/// Position of the first asset whose name contains `pat`.
pub fn find_asset(assets: &Vec<ReleaseAsset>, pat: &str) -> (r: Option<usize>)
    ensures
        match r {
            Some(i) => i == first_asset_with(assets@, pat@, 0),
            None => first_asset_with(assets@, pat@, 0) == -1,
        },
{
    let p = chars_of(pat);
    let mut i: usize = 0;
    while i < assets.len()
        invariant
            i <= assets@.len(),
            p@ == pat@,
            first_asset_with(assets@, pat@, 0) == first_asset_with(assets@, pat@, i as int),
        decreases assets@.len() - i,
    {
        let name = chars_of(assets[i].name.as_str());
        if contains_seq(&name, &p) {
            return Some(i);
        }
        i = i + 1;
    }
    None
}

/// `info` points at `asset` with the given description and no token.
pub open spec fn points_at(info: DownloadInfo, asset: ReleaseAsset, description: Seq<char>) -> bool {
    &&& info.url@ == asset.browser_download_url@
    &&& info.filename matches Some(f) && f@ == asset.name@
    &&& info.description matches Some(d) && d@ == description
    &&& info.auth_token is None
}

pub open spec fn no_match_text(pat: Seq<char>) -> Seq<char> {
    "No asset matching '"@ + pat + "' found"@
}

fn no_match_error(pat: &str) -> (e: DownloadError)
    ensures
        e matches DownloadError::InvalidUrl(m) && m@ == no_match_text(pat@),
{
    let mut m = String::from_str("No asset matching '");
    push_str(&mut m, pat);
    push_str(&mut m, "' found");
    DownloadError::InvalidUrl(m)
}

fn asset_info(asset: &ReleaseAsset, description: String) -> (r: DownloadInfo)
    ensures
        points_at(r, *asset, description@),
{
    DownloadInfo {
        url: asset.browser_download_url.clone(),
        filename: Some(asset.name.clone()),
        description: Some(description),
        auth_token: None,
    }
}

fn owner_repo_release(owner: &str, repo: &str, release_tag: &str) -> (r: String)
    ensures
        r@ == owner@ + "/"@ + repo@ + " - Release "@ + release_tag@,
{
    let mut d = String::from_str(owner);
    push_str(&mut d, "/");
    push_str(&mut d, repo);
    push_str(&mut d, " - Release ");
    push_str(&mut d, release_tag);
    d
}

/// Picks the asset of a release looked up by tag `requested_tag`: with an
/// `asset` filter the first asset whose name contains it, otherwise the
/// first asset.
pub fn pick_release_asset(
    owner: &str,
    repo: &str,
    requested_tag: &str,
    release_tag: &str,
    assets: &Vec<ReleaseAsset>,
    asset: Option<&str>,
) -> (r: Result<DownloadInfo, DownloadError>)
    ensures
        match asset {
            Some(a) => {
                let k = first_asset_with(assets@, a@, 0);
                if k < 0 {
                    r matches Err(DownloadError::InvalidUrl(m)) && m@ == no_match_text(a@)
                } else {
                    r matches Ok(info) && points_at(
                        info,
                        assets@[k],
                        owner@ + "/"@ + repo@ + " - Release "@ + release_tag@ + " - "@ + assets@[k].name@,
                    )
                }
            },
            None => if assets@.len() == 0 {
                r matches Err(DownloadError::InvalidUrl(m)) && m@ == "No assets found in release '"@ + requested_tag@
                    + "'"@
            } else {
                r matches Ok(info) && points_at(
                    info,
                    assets@[0],
                    owner@ + "/"@ + repo@ + " - Release "@ + release_tag@ + " ("@ + decimal(assets@.len())
                        + " assets available)"@,
                )
            },
        },
{
    match asset {
        Some(a) => {
            proof {
                lemma_first_asset_range(assets@, a@, 0);
            }
            match find_asset(assets, a) {
                Some(k) => {
                    let mut d = owner_repo_release(owner, repo, release_tag);
                    push_str(&mut d, " - ");
                    push_str(&mut d, assets[k].name.as_str());
                    Ok(asset_info(&assets[k], d))
                },
                None => Err(no_match_error(a)),
            }
        },
        None => {
            if assets.len() == 0 {
                let mut m = String::from_str("No assets found in release '");
                push_str(&mut m, requested_tag);
                push_str(&mut m, "'");
                return Err(DownloadError::InvalidUrl(m));
            }
            let mut d = owner_repo_release(owner, repo, release_tag);
            push_str(&mut d, " (");
            let n = decimal_string(assets.len() as u64);
            push_str(&mut d, n.as_str());
            push_str(&mut d, " assets available)");
            Ok(asset_info(&assets[0], d))
        },
    }
}

/// An `owner/repo[/asset]` request for the latest release: owner, repository
/// and optional asset filter, or `None` with fewer than two parts.
pub open spec fn latest_request_spec(input: Seq<char>) -> Option<(Seq<char>, Seq<char>, Option<Seq<char>>)> {
    let parts = split_spec(input, '/');
    if parts.len() < 2 {
        None
    } else {
        Some((parts[0], parts[1], if parts.len() > 2 { Some(parts[2]) } else { None }))
    }
}

/// Splits an `owner/repo[/asset_name]` request for the latest release.
pub fn parse_latest_request(input: &str) -> (r: Result<(String, String, Option<String>), DownloadError>)
    ensures
        match latest_request_spec(input@) {
            None => r matches Err(DownloadError::InvalidUrl(m)) && m@ == "Format must be 'owner/repo[/asset_name]'"@,
            Some((o, n, f)) => r matches Ok((ro, rn, rf)) && ro@ == o && rn@ == n && match f {
                Some(x) => rf matches Some(y) && y@ == x,
                None => rf is None,
            },
        },
{
    let cs = chars_of(input);
    let parts = split_char(&cs, '/');
    assert(parts@.map_values(|p: Vec<char>| p@).len() == parts@.len());
    if parts.len() < 2 {
        return Err(DownloadError::InvalidUrl(String::from_str("Format must be 'owner/repo[/asset_name]'")));
    }
    assert(parts@[0]@ == split_spec(cs@, '/')[0]);
    assert(parts@[1]@ == split_spec(cs@, '/')[1]);
    let filter = if parts.len() > 2 {
        assert(parts@[2]@ == split_spec(cs@, '/')[2]);
        Some(string_of(&parts[2]))
    } else {
        None
    };
    Ok((string_of(&parts[0]), string_of(&parts[1]), filter))
}

/// Picks the asset of the latest release: with a filter the first asset
/// whose name contains it, otherwise the first asset. The description names
/// the release (`Unknown` when it has no name).
pub fn pick_latest_asset(
    owner: &str,
    repo: &str,
    release_tag: &str,
    release_name: Option<&str>,
    assets: &Vec<ReleaseAsset>,
    filter: Option<&str>,
) -> (r: Result<DownloadInfo, DownloadError>)
    ensures
        ({
            let desc = owner@ + "/"@ + repo@ + " - Release "@ + release_tag@ + " ("@ + (match release_name {
                Some(n) => n@,
                None => "Unknown"@,
            }) + ")"@;
            match filter {
                Some(f) => {
                    let k = first_asset_with(assets@, f@, 0);
                    if k < 0 {
                        r matches Err(DownloadError::InvalidUrl(m)) && m@ == no_match_text(f@)
                    } else {
                        r matches Ok(info) && points_at(info, assets@[k], desc)
                    }
                },
                None => if assets@.len() == 0 {
                    r matches Err(DownloadError::InvalidUrl(m)) && m@ == "No assets found in release"@
                } else {
                    r matches Ok(info) && points_at(info, assets@[0], desc)
                },
            }
        }),
{
    let k = match filter {
        Some(f) => {
            proof {
                lemma_first_asset_range(assets@, f@, 0);
            }
            match find_asset(assets, f) {
                Some(k) => k,
                None => {
                    return Err(no_match_error(f));
                },
            }
        },
        None => {
            if assets.len() == 0 {
                return Err(DownloadError::InvalidUrl(String::from_str("No assets found in release")));
            }
            0
        },
    };
    let mut d = owner_repo_release(owner, repo, release_tag);
    push_str(&mut d, " (");
    match release_name {
        Some(n) => push_str(&mut d, n),
        None => push_str(&mut d, "Unknown"),
    }
    push_str(&mut d, ")");
    Ok(asset_info(&assets[k], d))
}


/// A server can serve a file in chunks when its HEAD response carries a
/// `Content-Length` header and an `Accept-Ranges` header (`None` when
/// absent or not visible ASCII) equal to `bytes` up to ASCII case.
pub fn chunking_supported(has_content_length: bool, accept_ranges: Option<&str>) -> (r: bool)
    ensures
        r == (has_content_length && (accept_ranges matches Some(v) && eq_ignore_ascii_case_spec(v@, "bytes"@))),
{
    let ranges = match accept_ranges {
        Some(v) => eq_ignore_ascii_case(&chars_of(v), &chars_of("bytes")),
        None => false,
    };
    has_content_length && ranges
}

} // verus!
