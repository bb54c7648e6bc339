//! Errors of the download engine.
use vstd::prelude::*;

verus! {

/// Why a download, a resume or a lookup failed.
///
/// Failures that come from the network, the file system, the task runtime,
/// archive handling or JSON carry the text of the underlying error.
#[derive(Debug, PartialEq, Eq)]
pub enum DownloadError {
    RequestFailed(String),
    InvalidUrl(String),
    Timeout,
    IoError(String),
    JoinError(String),
    RangeNotSupported,
    ContentLengthUnknown,
    InvalidChunkRange(String),
    Cancelled,
    ZipOperationFailed(String),
    JsonError(String),
    HttpError,
}

/// The human-readable text of an error.
pub open spec fn error_text(e: DownloadError) -> Seq<char> {
    match e {
        DownloadError::RequestFailed(m) => "HTTP request failed: "@ + m@,
        DownloadError::InvalidUrl(m) => "Invalid URL: "@ + m@,
        DownloadError::Timeout => "Download timeout"@,
        DownloadError::IoError(m) => "IO error: "@ + m@,
        DownloadError::JoinError(m) => "Task join error: "@ + m@,
        DownloadError::RangeNotSupported => "Server does not support range requests"@,
        DownloadError::ContentLengthUnknown => "Content length unknown"@,
        DownloadError::InvalidChunkRange(m) => "Invalid chunk range: "@ + m@,
        DownloadError::Cancelled => "Download was cancelled"@,
        DownloadError::ZipOperationFailed(m) => "Failed to perform operation on zip: "@ + m@,
        DownloadError::JsonError(m) => "JSON error: "@ + m@,
        DownloadError::HttpError => "HTTP error"@,
    }
}

fn prefixed(prefix: &str, m: &String) -> (r: String)
    ensures
        r@ == prefix@ + m@,
{
    let r = String::from_str(prefix);
    r.concat(m.as_str())
}

impl DownloadError {
    /// The message shown to the user for this error.
    pub fn message(&self) -> (r: String)
        ensures
            r@ == error_text(*self),
    {
        match self {
            DownloadError::RequestFailed(m) => prefixed("HTTP request failed: ", m),
            DownloadError::InvalidUrl(m) => prefixed("Invalid URL: ", m),
            DownloadError::Timeout => String::from_str("Download timeout"),
            DownloadError::IoError(m) => prefixed("IO error: ", m),
            DownloadError::JoinError(m) => prefixed("Task join error: ", m),
            DownloadError::RangeNotSupported => String::from_str("Server does not support range requests"),
            DownloadError::ContentLengthUnknown => String::from_str("Content length unknown"),
            DownloadError::InvalidChunkRange(m) => prefixed("Invalid chunk range: ", m),
            DownloadError::Cancelled => String::from_str("Download was cancelled"),
            DownloadError::ZipOperationFailed(m) => prefixed("Failed to perform operation on zip: ", m),
            DownloadError::JsonError(m) => prefixed("JSON error: ", m),
            DownloadError::HttpError => String::from_str("HTTP error"),
        }
    }
}

} // verus!
