//! The configuration the surrounding command-line layer hands to the core.

use vstd::prelude::*;

verus! {

/// Settings of one download run, as plain values.
pub struct DownloadConfig {
    /// Remote file URL.
    pub url: String,
    /// Output file path, or a directory to receive the detected filename.
    pub output_path: String,
    /// Concurrent connections: the scheduler's window size.
    pub num_connections: usize,
    /// Bytes per chunk requested for a fresh transfer.
    pub chunk_size: usize,
    /// File-writing buffer size in bytes.
    pub buffer_size: usize,
    /// Show detailed progress information.
    pub verbose: bool,
    /// Suppress the progress display.
    pub silent: bool,
    /// Emit periodic statistics.
    pub log: bool,
    /// Ignore any existing partial file and restart.
    pub force_new: bool,
    /// Only resume an existing download; fail when there is none.
    pub resume_only: bool,
    /// Extra request headers, each in "Key: Value" form.
    pub headers: Vec<String>,
    /// Proceed past some verification checks (range support).
    pub force_download: bool,
}

impl DownloadConfig {
    /// Whether informational messages should be printed.
    pub fn should_log(&self) -> (r: bool)
        ensures
            r == (self.verbose && !self.silent),
    {
        self.verbose && !self.silent
    }

    /// Whether periodic statistics should be emitted.
    pub fn should_log_stats(&self) -> (r: bool)
        ensures
            r == self.log,
    {
        self.log
    }

    /// Whether the two mutually exclusive restart flags are both set — a
    /// configuration error the caller must refuse before starting.
    pub fn flags_conflict(&self) -> (r: bool)
        ensures
            r == (self.force_new && self.resume_only),
    {
        self.force_new && self.resume_only
    }
}

} // verus!
