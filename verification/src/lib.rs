//! Resumable acquisition of remote artifacts, as pure decision logic.
//!
//! Two engines live here. The segmented engine plans byte ranges, decides
//! which part files to allocate and which chunks to fetch, schedules the
//! fetches under a concurrency cap and orders the final merge. The stream
//! supervisor parses the progress records of an external stream-copy process
//! and decides when to kill, retry or give up. Neither performs I/O: each is a
//! state machine that is handed events and answers with the next action.

pub mod downloader;
pub mod ffmpeg;
pub mod gui;
pub mod paths;
pub mod scrapers;
pub mod text;
