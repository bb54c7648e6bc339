//! What the torrent front end decides before and after the BitTorrent
//! session does its work: where a torrent comes from, how its files are
//! listed, and in which unit a size is shown.
use vstd::prelude::*;
use crate::error::DownloadError;
use crate::text::{chars_of, decimal, decimal_string, push_str, starts_with_seq, starts_with_spec};

verus! {

/// Where a torrent is read from.
#[derive(Debug, Clone, PartialEq, Eq)]
pub enum TorrentSource {
    /// A magnet link or an HTTP(S) URL, handed to the session as it is.
    Link(String),
    /// A path to a `.torrent` file on disk.
    File(String),
}

/// A source is a link when it starts with `magnet:`, `http://` or `https://`.
pub open spec fn is_torrent_link(source: Seq<char>) -> bool {
    starts_with_spec(source, "magnet:"@) || starts_with_spec(source, "http://"@)
        || starts_with_spec(source, "https://"@)
}

impl TorrentSource {
    /// Classifies a torrent source; an empty one is refused.
    pub fn classify(source: &str) -> (r: Result<TorrentSource, DownloadError>)
        ensures
            source@.len() == 0 ==> (r matches Err(DownloadError::InvalidUrl(m)) && m@ == "URL cannot be empty"@),
            source@.len() > 0 && is_torrent_link(source@) ==> (r matches Ok(TorrentSource::Link(s)) && s@ == source@),
            source@.len() > 0 && !is_torrent_link(source@) ==> (r matches Ok(TorrentSource::File(s)) && s@ == source@),
    {
        if source.is_empty() {
            return Err(DownloadError::InvalidUrl(String::from_str("URL cannot be empty")));
        }
        let cs = chars_of(source);
        let magnet = chars_of("magnet:");
        let http = chars_of("http://");
        let https = chars_of("https://");
        if starts_with_seq(&cs, &magnet) || starts_with_seq(&cs, &http) || starts_with_seq(&cs, &https) {
            Ok(TorrentSource::Link(String::from_str(source)))
        } else {
            Ok(TorrentSource::File(String::from_str(source)))
        }
    }
}

/// The error for a `.torrent` path that does not exist.
pub fn torrent_file_missing(path: &str) -> (e: DownloadError)
    ensures
        e matches DownloadError::InvalidUrl(m) && m@ == "Torrent file not found: "@ + path@,
{
    let mut m = String::from_str("Torrent file not found: ");
    push_str(&mut m, path);
    DownloadError::InvalidUrl(m)
}

/// A `.torrent` file must not be empty.
pub fn check_torrent_bytes(content: &Vec<u8>) -> (r: Result<(), DownloadError>)
    ensures
        content.len() == 0 ==> (r matches Err(DownloadError::InvalidUrl(m)) && m@ == "Torrent file is empty"@),
        content.len() > 0 ==> r is Ok,
{
    if content.len() == 0 {
        Err(DownloadError::InvalidUrl(String::from_str("Torrent file is empty")))
    } else {
        Ok(())
    }
}

/// One file of a torrent.
#[derive(Debug, Clone)]
pub struct FileInfo {
    pub name: String,
    pub size: u64,
}

/// A torrent's name, total size and files.
#[derive(Debug, Clone)]
pub struct TorrentInfo {
    pub name: String,
    pub total_size: u64,
    pub files: Vec<FileInfo>,
}

/// The name a file is listed under: its own, or, where it is not valid
/// UTF-8 (`None`), `<invalid UTF-8 name #<idx>>`.
pub open spec fn file_label_text(name: Option<Seq<char>>, idx: nat) -> Seq<char> {
    match name {
        Some(n) => n,
        None => "<invalid UTF-8 name #"@ + decimal(idx) + ">"@,
    }
}

/// The name a torrent is shown under: its own, or `<unknown>`.
pub open spec fn torrent_name_text(name: Option<Seq<char>>) -> Seq<char> {
    match name {
        Some(n) => n,
        None => "<unknown>"@,
    }
}

/// The name file number `idx` is listed under.
pub fn file_label(name: Option<String>, idx: usize) -> (r: String)
    ensures
        r@ == file_label_text(
            match name {
                Some(n) => Some(n@),
                None => None,
            },
            idx as nat,
        ),
{
    match name {
        Some(n) => n,
        None => {
            let mut r = String::from_str("<invalid UTF-8 name #");
            let d = decimal_string(idx as u64);
            push_str(&mut r, d.as_str());
            push_str(&mut r, ">");
            r
        },
    }
}

/// The name a torrent is shown under.
pub fn torrent_name(name: Option<String>) -> (r: String)
    ensures
        r@ == torrent_name_text(
            match name {
                Some(n) => Some(n@),
                None => None,
            },
        ),
{
    match name {
        Some(n) => n,
        None => String::from_str("<unknown>"),
    }
}

impl TorrentInfo {
    /// Assembles the description of a torrent from what its metadata holds:
    /// its name, its length (absent for multi-file torrents, then 0) and
    /// each file's name and size, in order.
    pub fn from_parts(name: Option<String>, length: Option<u64>, files: Vec<(Option<String>, u64)>) -> (r: TorrentInfo)
        ensures
            r.name@ == torrent_name_text(
                match name {
                    Some(n) => Some(n@),
                    None => None,
                },
            ),
            r.total_size == (match length {
                Some(l) => l,
                None => 0,
            }),
            r.files.len() == files.len(),
            forall|i: int| 0 <= i < files.len() ==> {
                &&& (#[trigger] r.files[i]).size == files[i].1
                &&& r.files[i].name@ == file_label_text(
                    match files[i].0 {
                        Some(n) => Some(n@),
                        None => None,
                    },
                    i as nat,
                )
            },
    {
        let mut out: Vec<FileInfo> = Vec::new();
        let mut i: usize = 0;
        while i < files.len()
            invariant
                i <= files.len(),
                out.len() == i,
                forall|k: int| 0 <= k < i ==> {
                    &&& (#[trigger] out[k]).size == files[k].1
                    &&& out[k].name@ == file_label_text(
                        match files[k].0 {
                            Some(n) => Some(n@),
                            None => None,
                        },
                        k as nat,
                    )
                },
            decreases files.len() - i,
        {
            let entry_name = match &files[i].0 {
                Some(n) => Some(n.clone()),
                None => None,
            };
            let label = file_label(entry_name, i);
            out.push(FileInfo { name: label, size: files[i].1 });
            i = i + 1;
        }
        let total_size = match length {
            Some(l) => l,
            None => 0,
        };
        TorrentInfo { name: torrent_name(name), total_size, files: out }
    }
}

/// Index into `B, KB, MB, GB, TB` of the unit a size is shown in: the
/// largest unit it is at least one of, up to terabytes.
pub open spec fn size_unit_spec(bytes: nat) -> nat {
    if bytes < 1024 {
        0
    } else if bytes < 1048576 {
        1
    } else if bytes < 1073741824 {
        2
    } else if bytes < 1099511627776 {
        3
    } else {
        4
    }
}

/// The unit a size of `bytes` is shown in, as an index into `B, KB, MB, GB, TB`.
pub fn size_unit(bytes: u64) -> (r: usize)
    ensures
        r == size_unit_spec(bytes as nat),
{
    if bytes < 1024 {
        0
    } else if bytes < 1048576 {
        1
    } else if bytes < 1073741824 {
        2
    } else if bytes < 1099511627776 {
        3
    } else {
        4
    }
}

/// The symbol of unit `idx`.
pub open spec fn unit_symbol(idx: nat) -> Seq<char> {
    if idx == 0 {
        "B"@
    } else if idx == 1 {
        "KB"@
    } else if idx == 2 {
        "MB"@
    } else if idx == 3 {
        "GB"@
    } else {
        "TB"@
    }
}

/// The symbol of unit `idx` (`idx <= 4`).
pub fn size_unit_symbol(idx: usize) -> (r: &'static str)
    requires
        idx <= 4,
    ensures
        r@ == unit_symbol(idx as nat),
{
    if idx == 0 {
        "B"
    } else if idx == 1 {
        "KB"
    } else if idx == 2 {
        "MB"
    } else if idx == 3 {
        "GB"
    } else {
        "TB"
    }
}

} // verus!
