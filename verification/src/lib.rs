//! Verified core of a multi-strategy download manager: chunk planning and
//! reassembly, resume bookkeeping, link-quality sampling, scheduling rules,
//! GitHub and torrent source resolution, the command line's option
//! parsing, and the decisions of the project's code-generating attributes.

pub mod chunked;
pub mod cli;
pub mod codegen;
pub mod downloader;
pub mod error;
pub mod extract;
pub mod network;
pub mod progress;
pub mod resume;
pub mod scheduler;
pub mod specialized;
pub mod task;
pub mod text;
pub mod torrent;
