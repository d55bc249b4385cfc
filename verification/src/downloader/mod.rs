//! The segmented download engine.
//!
//! - `types`: a download task, its chunks and the plan that covers a resource.
//! - `remote`: the `Range` header, success statuses and the reading of a probe.
//! - `protocol`: the events and actions that pass between a run and its driver.
//! - `failure`: why a run fails.
//! - `run`: the run as a state machine over plain values, with its laws.
//! - `manager`: the executable run and its entry point.
//! - `utils`: byte-exact merging and the names of temporary files.
//!
//! This module itself holds the configuration that surrounds a download and
//! the choices that follow from it.

pub mod failure;
pub mod manager;
pub mod protocol;
pub mod remote;
pub mod run;
pub mod types;
pub mod utils;

pub use manager::DownloadManager;
pub use types::{Chunk, DownloadTask};

use crate::text::text_of;
use vstd::prelude::*;
use vstd::string::*;

verus! {

/// Chunk size used when the caller names none: 8 MiB.
pub const DEFAULT_CHUNK_SIZE: u64 = 8 * 1024 * 1024;

/// What the configuration file may hold.
#[derive(Debug)]
pub struct AppConfig {
    /// How to log.
    pub logging: Option<LoggingConfig>,
    /// What to do with temporary files.
    pub cleanup: Option<CleanupConfig>,
}

/// The logging part of the configuration.
#[derive(Debug)]
pub struct LoggingConfig {
    /// The log filter directive.
    pub filter: Option<String>,
}

/// The cleanup part of the configuration.
#[derive(Debug)]
pub struct CleanupConfig {
    /// Whether temporary files are removed after a successful download.
    pub remove_temp_files: Option<bool>,
    /// Whether temporary files are removed after a failed download.
    pub remove_on_error: Option<bool>,
}

impl Default for AppConfig {
    /// The configuration of a missing or unreadable file: nothing is set.
    fn default() -> (r: Self)
        ensures
            r.logging is None,
            r.cleanup is None,
    {
        Self { logging: None, cleanup: None }
    }
}

/// The log filter in force: that of the configuration file if it names one,
/// else that of the environment if it names one, else `info`.
pub open spec fn effective_filter(file: Option<Seq<char>>, env: Option<Seq<char>>) -> Seq<char> {
    match file {
        Some(filter) => filter,
        None => match env {
            Some(filter) => filter,
            None => "info"@,
        },
    }
}

/// The filter that the configuration names, if it names one.
pub open spec fn configured_filter(config: AppConfig) -> Option<Seq<char>> {
    match config.logging {
        Some(logging) => text_of(logging.filter),
        None => None,
    }
}

/// Chooses the log filter from the configuration and from what the
/// environment holds.
pub fn log_filter(config: AppConfig, env: Option<String>) -> (filter: String)
    ensures
        filter@ == effective_filter(configured_filter(config), text_of(env)),
{
    let from_file = match config.logging {
        Some(logging) => logging.filter,
        None => None,
    };
    match from_file {
        Some(filter) => filter,
        None => match env {
            Some(filter) => filter,
            None => String::from_str("info"),
        },
    }
}

/// Whether the configuration asks for temporary files to be removed when a
/// download fails. It does so only where it says so outright.
pub open spec fn wants_cleanup_on_error(config: AppConfig) -> bool {
    match config.cleanup {
        Some(cleanup) => cleanup.remove_on_error == Some(true),
        None => false,
    }
}

/// Tells whether temporary files are to be removed after a failed download.
pub fn removes_on_error(config: &AppConfig) -> (r: bool)
    ensures
        r == wants_cleanup_on_error(*config),
{
    match &config.cleanup {
        Some(cleanup) => match cleanup.remove_on_error {
            Some(remove) => remove,
            None => false,
        },
        None => false,
    }
}

/// The task that downloads `url` to `output` with a size still to be found
/// out, in chunks of `chunk_size` bytes, or of the default size where none is
/// given.
pub fn task_for(url: String, output: String, chunk_size: Option<u64>) -> (task: DownloadTask)
    ensures
        task.url == url,
        task.output == output,
        task.total_size == 0,
        task.chunk_size == match chunk_size {
            Some(size) => size,
            None => DEFAULT_CHUNK_SIZE,
        },
        task.num_chunks == 0,
{
    let chunk_size = match chunk_size {
        Some(size) => size,
        None => DEFAULT_CHUNK_SIZE,
    };
    DownloadTask { url, output, total_size: 0, chunk_size, num_chunks: 0 }
}

} // verus!
