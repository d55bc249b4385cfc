//! The stream supervisor: acquiring a continuous stream through an external
//! stream-copy process.
//!
//! - `params`: progress samples, options and errors.
//! - `progress`: the parser of the process's `key=value` progress records.
//! - `downloader`: the supervisor's state machine, with stall handling and
//!   bounded restarts.

pub mod downloader;
pub mod params;
pub mod progress;

pub use params::{DownloadError, DownloadOptions, FfmpegProgress};
