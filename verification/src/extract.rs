//! Which archive format a downloaded file is unpacked as.
use vstd::prelude::*;
use crate::resume::{file_name_of, path_file_name};
use crate::text::{chars_of, same_chars, sub_chars};

verus! {

/// Index of the last `c` among `s[0..k]`, or -1.
pub open spec fn rfind_char_before(s: Seq<char>, c: char, k: int) -> int
    decreases k,
{
    if k <= 0 || k > s.len() {
        -1
    } else if s[k - 1] == c {
        k - 1
    } else {
        rfind_char_before(s, c, k - 1)
    }
}

/// The extension of a file name: what follows its last `.`, where that dot
/// is not the name's first character (`Path::extension` on a file name).
pub open spec fn name_extension(name: Seq<char>) -> Option<Seq<char>> {
    let p = rfind_char_before(name, '.', name.len() as int);
    if p <= 0 {
        None
    } else {
        Some(name.subrange(p + 1, name.len() as int))
    }
}

/// The extension of a path: that of its last component, if it has one.
pub open spec fn path_extension(path: Seq<char>) -> Option<Seq<char>> {
    match path_file_name(path) {
        Some(n) => name_extension(n),
        None => None,
    }
}

/// Archive formats that are unpacked after a download.
#[derive(Debug, Clone, Copy, PartialEq, Eq, Structural)]
pub enum ArchiveKind {
    Zip,
    TarGz,
}

/// `zip` is a zip archive; `tar`, `gz` and `tgz` are gzip-compressed tar
/// archives; any other extension is left alone.
pub open spec fn archive_for_extension(ext: Seq<char>) -> Option<ArchiveKind> {
    if ext == "zip"@ {
        Some(ArchiveKind::Zip)
    } else if ext == "tar"@ || ext == "gz"@ || ext == "tgz"@ {
        Some(ArchiveKind::TarGz)
    } else {
        None
    }
}

proof fn lemma_rfind_at(s: Seq<char>, c: char, k: int, p: int)
    requires
        -1 <= p < k <= s.len(),
        p == -1 || s[p] == c,
        forall|j: int| p < j < k ==> s[j] != c,
    ensures
        rfind_char_before(s, c, k) == p,
    decreases k,
{
    if k > 0 && s[k - 1] != c {
        lemma_rfind_at(s, c, k - 1, p);
    }
}

/// The extension of a file name.
fn extension_of_name(name: &Vec<char>) -> (r: Option<Vec<char>>)
    ensures
        match r {
            Some(e) => name_extension(name@) == Some(e@),
            None => name_extension(name@) is None,
        },
{
    let mut k: usize = name.len();
    while k > 0 && name[k - 1] != '.'
        invariant
            k <= name.len(),
            forall|j: int| k <= j < name.len() ==> name@[j] != '.',
        decreases k,
    {
        k = k - 1;
    }
    proof {
        if name.len() > 0 {
            lemma_rfind_at(name@, '.', name.len() as int, k - 1);
        }
    }
    if k <= 1 {
        None
    } else {
        Some(sub_chars(name, k, name.len()))
    }
}

/// The archive format the file at `path` is unpacked as, judged by its
/// extension; `None` for anything else.
pub fn archive_kind(path: &str) -> (r: Option<ArchiveKind>)
    ensures
        r == archive_for_extension(
            match path_extension(path@) {
                Some(e) => e,
                None => Seq::empty(),
            },
        ),
{
    let ext: Vec<char> = match file_name_of(path) {
        Some(n) => {
            let cs = chars_of(n.as_str());
            match extension_of_name(&cs) {
                Some(e) => e,
                None => Vec::new(),
            }
        },
        None => Vec::new(),
    };
    proof {
        reveal_strlit("zip");
        reveal_strlit("tar");
        reveal_strlit("gz");
        reveal_strlit("tgz");
    }
    if same_chars(&ext, &chars_of("zip")) {
        Some(ArchiveKind::Zip)
    } else if same_chars(&ext, &chars_of("tar")) || same_chars(&ext, &chars_of("gz")) || same_chars(
        &ext,
        &chars_of("tgz"),
    ) {
        Some(ArchiveKind::TarGz)
    } else {
        assert(ext@ != "zip"@);
        None
    }
}

} // verus!
