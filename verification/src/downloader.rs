//! Settings of the multi-file downloader.
use vstd::prelude::*;
use crate::progress::{default_progress_config, ProgressConfig};

verus! {

/// Settings of a multi-file download. Timeouts are in seconds.
#[derive(Debug, Clone)]
pub struct DownloadBuilder {
    pub max_concurrent: usize,
    pub timeout: u64,
    pub user_agent: Option<String>,
    pub connection_timeout: u64,
    pub progress_config: ProgressConfig,
}

impl Default for DownloadBuilder {
    fn default() -> (r: Self)
        ensures
            r.max_concurrent == 10,
            r.timeout == 30,
            r.user_agent is None,
            r.connection_timeout == 10,
            r.progress_config == default_progress_config(),
    {
        DownloadBuilder {
            max_concurrent: 10,
            timeout: 30,
            user_agent: None,
            connection_timeout: 10,
            progress_config: ProgressConfig::default(),
        }
    }
}

impl DownloadBuilder {
    /// The default settings: 10 downloads at a time, 30 s per request,
    /// 10 s to connect, no custom user agent, all progress bars shown.
    pub fn new() -> (r: Self)
        ensures
            r.max_concurrent == 10,
            r.timeout == 30,
            r.user_agent is None,
            r.connection_timeout == 10,
            r.progress_config == default_progress_config(),
    {
        Self::default()
    }

    /// Set the `max_concurrent` field.
    pub fn with_max_concurrent(self, value: usize) -> (r: Self)
        ensures
            r == (DownloadBuilder { max_concurrent: value, ..self }),
    {
        DownloadBuilder { max_concurrent: value, ..self }
    }

    /// Set the `timeout` field, in seconds.
    pub fn with_timeout(self, value: u64) -> (r: Self)
        ensures
            r == (DownloadBuilder { timeout: value, ..self }),
    {
        DownloadBuilder { timeout: value, ..self }
    }

    /// Set the `user_agent` field.
    pub fn with_user_agent(self, value: Option<String>) -> (r: Self)
        ensures
            r == (DownloadBuilder { user_agent: value, ..self }),
    {
        DownloadBuilder { user_agent: value, ..self }
    }

    /// Set the `connection_timeout` field, in seconds.
    pub fn with_connection_timeout(self, value: u64) -> (r: Self)
        ensures
            r == (DownloadBuilder { connection_timeout: value, ..self }),
    {
        DownloadBuilder { connection_timeout: value, ..self }
    }

    /// Set the `progress_config` field.
    pub fn with_progress_config(self, value: ProgressConfig) -> (r: Self)
        ensures
            r == (DownloadBuilder { progress_config: value, ..self }),
    {
        DownloadBuilder { progress_config: value, ..self }
    }
}

} // verus!
