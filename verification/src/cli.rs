//! The command line: what can be asked for, and how option values are read.
//! Paths are kept as strings and durations as whole seconds.
use vstd::prelude::*;
use crate::chunked::ChunkStrategy;
use crate::text::{parse_u64, parse_u64_spec, push_str};

verus! {

/// Shells that completions can be generated for.
#[derive(Debug, Clone, Copy, PartialEq, Eq, Structural)]
pub enum Shell {
    Bash,
    Elvish,
    Fish,
    Zsh,
}

/// File name of the completion script for program `name`.
pub open spec fn completion_file_name(shell: Shell, name: Seq<char>) -> Seq<char> {
    match shell {
        Shell::Bash => name + ".bash"@,
        Shell::Elvish => name + ".elv"@,
        Shell::Fish => name + ".fish"@,
        Shell::Zsh => "_"@ + name,
    }
}

impl Shell {
    /// File name the completion script for program `name` is saved under.
    pub fn file_name(&self, name: &str) -> (r: String)
        ensures
            r@ == completion_file_name(*self, name@),
    {
        match self {
            Shell::Bash => {
                let mut r = String::from_str(name);
                push_str(&mut r, ".bash");
                r
            },
            Shell::Elvish => {
                let mut r = String::from_str(name);
                push_str(&mut r, ".elv");
                r
            },
            Shell::Fish => {
                let mut r = String::from_str(name);
                push_str(&mut r, ".fish");
                r
            },
            Shell::Zsh => {
                let mut r = String::from_str("_");
                push_str(&mut r, name);
                r
            },
        }
    }
}

/// The `--strategy` choices.
#[derive(Debug, Clone, Copy, PartialEq, Eq, Structural)]
pub enum StrategyArg {
    Simple,
    Smart,
}

impl From<StrategyArg> for ChunkStrategy {
    fn from(arg: StrategyArg) -> (r: Self) {
        match arg {
            StrategyArg::Simple => ChunkStrategy::Simple,
            StrategyArg::Smart => ChunkStrategy::Smart,
        }
    }
}

impl vstd::std_specs::convert::FromSpecImpl<StrategyArg> for ChunkStrategy {
    open spec fn obeys_from_spec() -> bool {
        true
    }

    open spec fn from_spec(arg: StrategyArg) -> ChunkStrategy {
        match arg {
            StrategyArg::Simple => ChunkStrategy::Simple,
            StrategyArg::Smart => ChunkStrategy::Smart,
        }
    }
}

/// The whole command line.
pub struct Cli {
    pub command: Commands,
    pub verbose: bool,
    pub quiet: bool,
    pub markdown_help: bool,
}

/// The subcommands.
pub enum Commands {
    Single {
        url: String,
        output: String,
        max_chunks: usize,
        chunk_size: u64,
        strategy: StrategyArg,
        no_adaptive: bool,
        no_progress: bool,
        timeout: u64,
    },
    Multi {
        urls: Vec<String>,
        output_dir: Option<String>,
        max_concurrent: usize,
        unordered: bool,
        no_progress: bool,
        timeout: u64,
        user_agent: Option<String>,
    },
    Batch {
        file: String,
        output_dir: Option<String>,
        max_concurrent: usize,
        no_progress: bool,
        timeout: u64,
    },
    Specialized { site: SpecializedSite },
    Info { url: String, samples: usize },
    Resume { file: String, force: bool },
    Completions { shell: Shell },
    Torrent {
        source: String,
        output_dir: Option<String>,
        select: Option<String>,
        list_only: bool,
        no_progress: bool,
    },
    TorrentInfo { source: String },
    Schedule { action: ScheduleAction },
}

/// Sites with a dedicated downloader.
pub enum SpecializedSite {
    Github {
        repo: String,
        tag: Option<String>,
        asset: Option<String>,
        output: String,
        token: Option<String>,
        show_info: bool,
    },
    List,
}

/// What `schedule` does.
pub enum ScheduleAction {
    Add { id: String, url: String, output: String, at: String, repeat: Option<String> },
    List,
    Remove { id: String },
    Start,
    Toggle { id: String, enable: bool },
}

impl Cli {
    /// Progress bars are drawn unless turned off for the command or all
    /// output but errors is suppressed.
    pub fn progress_enabled(&self, no_progress: bool) -> (r: bool)
        ensures
            r == (!no_progress && !self.quiet),
    {
        !no_progress && !self.quiet
    }
}

/// `"<prefix><s>"`, the text of a rejected option value.
fn rejected(prefix: &str, s: &str) -> (r: String)
    ensures
        r@ == prefix@ + s@,
{
    let mut r = String::from_str(prefix);
    push_str(&mut r, s);
    r
}

/// Reads a `--chunk-size` value given in MiB and returns it in bytes;
/// anything but a decimal `u64` is refused with `Invalid size: <s>`.
/// Sizes whose byte count does not fit a `u64` are outside its domain.
pub fn parse_size_mb(s: &str) -> (r: Result<u64, String>)
    requires
        parse_u64_spec(s@) matches Some(mb) ==> mb * 1048576 <= u64::MAX,
    ensures
        match parse_u64_spec(s@) {
            Some(mb) => r == Ok::<u64, String>((mb * 1048576) as u64),
            None => r matches Err(m) && m@ == "Invalid size: "@ + s@,
        },
{
    match parse_u64(s) {
        Some(mb) => Ok(mb * 1024 * 1024),
        None => Err(rejected("Invalid size: ", s)),
    }
}

/// Reads a duration given in whole seconds; anything but a decimal `u64`
/// is refused with `Invalid duration: <s>`.
pub fn parse_duration_secs(s: &str) -> (r: Result<u64, String>)
    ensures
        match parse_u64_spec(s@) {
            Some(secs) => r == Ok::<u64, String>(secs),
            None => r matches Err(m) && m@ == "Invalid duration: "@ + s@,
        },
{
    match parse_u64(s) {
        Some(secs) => Ok(secs),
        None => Err(rejected("Invalid duration: ", s)),
    }
}

} // verus!
