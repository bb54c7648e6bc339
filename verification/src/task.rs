//! A download request, what came back for it, and how a list of URLs
//! becomes a list of requests.
use vstd::prelude::*;
use crate::text::{
    chars_of, decimal, decimal_string, split_char, split_spec, string_of, trim_chars, trim_spec,
};

verus! {

/// One file to fetch; `id` names it in progress output and on disk.
#[derive(Debug, Clone)]
pub struct DownloadTask {
    pub url: String,
    pub id: Option<String>,
}

/// The name a task is shown under: its id, else its URL.
pub open spec fn task_label(t: DownloadTask) -> Seq<char> {
    match t.id {
        Some(id) => id@,
        None => t.url@,
    }
}

impl DownloadTask {
    /// A task for `url`, without an id.
    pub fn new(url: String) -> (r: Self)
        ensures
            r.url == url,
            r.id is None,
    {
        DownloadTask { url, id: None }
    }

    /// The same task, named `id`.
    pub fn with_id(self, id: String) -> (r: Self)
        ensures
            r.url == self.url,
            r.id == Some(id),
    {
        DownloadTask { url: self.url, id: Some(id) }
    }

    /// The name the download is shown under.
    pub fn label(&self) -> (r: String)
        ensures
            r@ == task_label(*self),
    {
        match &self.id {
            Some(id) => id.clone(),
            None => self.url.clone(),
        }
    }
}

/// What a finished task fetched.
#[derive(Debug)]
pub struct DownloadResult {
    pub url: String,
    pub id: Option<String>,
    pub data: Vec<u8>,
    pub status: u16,
    pub content_length: Option<u64>,
}

/// `"<url> (<n> bytes)"`, the line a successful task reports.
pub open spec fn result_summary_text(url: Seq<char>, n: nat) -> Seq<char> {
    url + " ("@ + decimal(n) + " bytes)"@
}

impl DownloadResult {
    /// The line a successful task reports: its URL and how many bytes came.
    pub fn summary(&self) -> (r: String)
        ensures
            r@ == result_summary_text(self.url@, self.data@.len()),
    {
        let n = self.data.len() as u64;
        let mut r = self.url.clone();
        r.append(" (");
        let digits = decimal_string(n);
        r.append(digits.as_str());
        r.append(" bytes)");
        r
    }
}

/// The last `/`-separated piece of a URL: the name its file is saved under.
pub open spec fn url_file_name(url: Seq<char>) -> Seq<char> {
    split_spec(url, '/').last()
}

/// The name the file behind `url` is saved under.
pub fn file_name_from_url(url: &str) -> (r: String)
    ensures
        r@ == url_file_name(url@),
{
    let cs = chars_of(url);
    let pieces = split_char(&cs, '/');
    assert(pieces@.map_values(|p: Vec<char>| p@).len() == pieces.len());
    assert(split_spec(cs@, '/').len() >= 1);
    let last = pieces.len() - 1;
    assert(pieces@.map_values(|p: Vec<char>| p@)[last as int] == pieces[last as int]@);
    string_of(&pieces[last])
}

/// One task per URL, in order, each named after the file its URL ends in.
pub fn tasks_for_urls(urls: Vec<String>) -> (r: Vec<DownloadTask>)
    ensures
        r.len() == urls.len(),
        forall|i: int| 0 <= i < urls.len() ==> {
            &&& (#[trigger] r[i]).url == urls[i]
            &&& r[i].id matches Some(id) && id@ == url_file_name(urls[i]@)
        },
{
    let mut r: Vec<DownloadTask> = Vec::new();
    let mut i: usize = 0;
    while i < urls.len()
        invariant
            i <= urls.len(),
            r.len() == i,
            forall|k: int| 0 <= k < i ==> {
                &&& (#[trigger] r[k]).url == urls[k]
                &&& r[k].id matches Some(id) && id@ == url_file_name(urls[k]@)
            },
        decreases urls.len() - i,
    {
        let url = urls[i].clone();
        let name = file_name_from_url(url.as_str());
        r.push(DownloadTask::new(url).with_id(name));
        i = i + 1;
    }
    r
}


/// A line of a URL list that names a download: not blank, and not a
/// comment (a line whose first character is `#`).
pub open spec fn is_url_line(line: Seq<char>) -> bool {
    trim_spec(line).len() > 0 && !(line.len() > 0 && line[0] == '#')
}

/// The URLs that `lines` name, trimmed, in order.
pub open spec fn url_lines(lines: Seq<Seq<char>>) -> Seq<Seq<char>>
    decreases lines.len(),
{
    if lines.len() == 0 {
        Seq::empty()
    } else {
        let before = url_lines(lines.drop_last());
        if is_url_line(lines.last()) {
            before.push(trim_spec(lines.last()))
        } else {
            before
        }
    }
}

/// The URLs a batch file lists: one per line, blank lines and `#` comment
/// lines skipped, surrounding white space removed. (A `\r` before a line
/// break is white space, so CRLF files read the same.)
pub open spec fn batch_urls_spec(content: Seq<char>) -> Seq<Seq<char>> {
    url_lines(split_spec(content, '\n'))
}

/// The URLs listed in the text of a batch file.
pub fn batch_urls(content: &str) -> (r: Vec<String>)
    ensures
        r@.map_values(|u: String| u@) == batch_urls_spec(content@),
{
    let cs = chars_of(content);
    let lines = split_char(&cs, '\n');
    let ghost all = lines@.map_values(|p: Vec<char>| p@);
    let mut r: Vec<String> = Vec::new();
    let mut i: usize = 0;
    while i < lines.len()
        invariant
            i <= lines.len(),
            all == lines@.map_values(|p: Vec<char>| p@),
            r@.map_values(|u: String| u@) == url_lines(all.take(i as int)),
        decreases lines.len() - i,
    {
        let line = &lines[i];
        let t = trim_chars(line);
        proof {
            assert(all.take(i + 1).drop_last() =~= all.take(i as int));
            assert(all.take(i + 1).last() == line@);
        }
        let ghost before = r@.map_values(|u: String| u@);
        if t.len() > 0 && !(line.len() > 0 && line[0] == '#') {
            r.push(string_of(&t));
            assert(r@.map_values(|u: String| u@) =~= before.push(t@));
        }
        i = i + 1;
    }
    assert(all.take(lines.len() as int) =~= all);
    r
}

} // verus!
