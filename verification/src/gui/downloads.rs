//! The status of a download as the front end keeps it, and the progress
//! messages that an engine sends about it.

use crate::downloader::types::{chunk_count, lemma_count_by_division};
use vstd::prelude::*;

verus! {

/// Identifies one download in the front end.
pub type DownloadId = u64;

/// Where a download stands, as shown to the user.
#[derive(Debug, PartialEq)]
pub enum DownloadStatus {
    Queued,
    Downloading,
    Paused,
    Merging,
    Completed,
    Error(String),
    Cancelled,
}

impl Clone for DownloadStatus {
    fn clone(&self) -> (r: Self)
        ensures
            r == *self,
    {
        match self {
            DownloadStatus::Queued => DownloadStatus::Queued,
            DownloadStatus::Downloading => DownloadStatus::Downloading,
            DownloadStatus::Paused => DownloadStatus::Paused,
            DownloadStatus::Merging => DownloadStatus::Merging,
            DownloadStatus::Completed => DownloadStatus::Completed,
            DownloadStatus::Error(message) => DownloadStatus::Error(message.clone()),
            DownloadStatus::Cancelled => DownloadStatus::Cancelled,
        }
    }
}

impl Default for DownloadStatus {
    /// A download starts out queued.
    fn default() -> (r: Self)
        ensures
            r == DownloadStatus::Queued,
    {
        DownloadStatus::Queued
    }
}

/// What an engine tells the front end about the download `id`.
#[derive(Debug)]
pub enum DownloadProgress {
    /// The download has begun; the resource has `total_size` bytes.
    Started { id: DownloadId, total_size: u64 },
    /// `downloaded` bytes are there, arriving at `speed` bytes per second.
    Progress { id: DownloadId, downloaded: u64, speed: Option<u64> },
    /// The parts are being merged.
    Merging { id: DownloadId },
    /// The output is complete.
    Completed { id: DownloadId },
    /// The download has failed.
    Error { id: DownloadId, error: String },
    /// The download was paused.
    Paused { id: DownloadId },
    /// The download was cancelled.
    Cancelled { id: DownloadId },
}

impl Clone for DownloadProgress {
    fn clone(&self) -> (r: Self)
        ensures
            r == *self,
    {
        match self {
            DownloadProgress::Started { id, total_size } => DownloadProgress::Started {
                id: *id,
                total_size: *total_size,
            },
            DownloadProgress::Progress { id, downloaded, speed } => DownloadProgress::Progress {
                id: *id,
                downloaded: *downloaded,
                speed: *speed,
            },
            DownloadProgress::Merging { id } => DownloadProgress::Merging { id: *id },
            DownloadProgress::Completed { id } => DownloadProgress::Completed { id: *id },
            DownloadProgress::Error { id, error } => DownloadProgress::Error {
                id: *id,
                error: error.clone(),
            },
            DownloadProgress::Paused { id } => DownloadProgress::Paused { id: *id },
            DownloadProgress::Cancelled { id } => DownloadProgress::Cancelled { id: *id },
        }
    }
}

impl DownloadProgress {
    /// The download that the message is about.
    pub open spec fn subject(self) -> DownloadId {
        match self {
            DownloadProgress::Started { id, .. } => id,
            DownloadProgress::Progress { id, .. } => id,
            DownloadProgress::Merging { id } => id,
            DownloadProgress::Completed { id } => id,
            DownloadProgress::Error { id, .. } => id,
            DownloadProgress::Paused { id } => id,
            DownloadProgress::Cancelled { id } => id,
        }
    }

    /// The download that the message is about.
    pub fn id(&self) -> (id: DownloadId)
        ensures
            id == self.subject(),
    {
        match self {
            DownloadProgress::Started { id, .. } => *id,
            DownloadProgress::Progress { id, .. } => *id,
            DownloadProgress::Merging { id } => *id,
            DownloadProgress::Completed { id } => *id,
            DownloadProgress::Error { id, .. } => *id,
            DownloadProgress::Paused { id } => *id,
            DownloadProgress::Cancelled { id } => *id,
        }
    }
}

impl DownloadStatus {
    /// The words for the status.
    pub open spec fn label(self) -> Seq<char> {
        match self {
            DownloadStatus::Queued => "⏳ En attente"@,
            DownloadStatus::Downloading => "⬇️ Téléchargement"@,
            DownloadStatus::Paused => "⏸️ En pause"@,
            DownloadStatus::Merging => "🔗 Fusion"@,
            DownloadStatus::Completed => "✅ Terminé"@,
            DownloadStatus::Error(_) => "❌ Erreur"@,
            DownloadStatus::Cancelled => "🚫 Annulé"@,
        }
    }

    /// The words in which the status is shown.
    pub fn text(&self) -> (text: &'static str)
        ensures
            text@ == self.label(),
    {
        match self {
            DownloadStatus::Queued => "⏳ En attente",
            DownloadStatus::Downloading => "⬇️ Téléchargement",
            DownloadStatus::Paused => "⏸️ En pause",
            DownloadStatus::Merging => "🔗 Fusion",
            DownloadStatus::Completed => "✅ Terminé",
            DownloadStatus::Error(_) => "❌ Erreur",
            DownloadStatus::Cancelled => "🚫 Annulé",
        }
    }

    /// Whether the download counts as active: it is queued, downloading or
    /// merging.
    pub open spec fn active(self) -> bool {
        self is Queued || self is Downloading || self is Merging
    }

    /// Tells whether the download counts as active.
    pub fn is_active(&self) -> (r: bool)
        ensures
            r == self.active(),
    {
        match self {
            DownloadStatus::Queued => true,
            DownloadStatus::Downloading => true,
            DownloadStatus::Merging => true,
            _ => false,
        }
    }

    /// Whether the download can be started or resumed: it is queued or
    /// paused.
    pub open spec fn startable(self) -> bool {
        self is Queued || self is Paused
    }

    /// Tells whether the download can be started or resumed.
    pub fn can_start(&self) -> (r: bool)
        ensures
            r == self.startable(),
    {
        match self {
            DownloadStatus::Queued => true,
            DownloadStatus::Paused => true,
            _ => false,
        }
    }

    /// The status with which a download comes back from the saved history: one
    /// that was under way is queued again, any other keeps its status.
    pub fn restored(self) -> (r: Self)
        ensures
            r == if self is Downloading || self is Merging {
                DownloadStatus::Queued
            } else {
                self
            },
    {
        match self {
            DownloadStatus::Downloading => DownloadStatus::Queued,
            DownloadStatus::Merging => DownloadStatus::Queued,
            other => other,
        }
    }

    /// The status that a download has once `progress` has arrived for it.
    pub open spec fn after(self, progress: DownloadProgress) -> DownloadStatus {
        match progress {
            DownloadProgress::Started { .. } => DownloadStatus::Downloading,
            DownloadProgress::Progress { .. } => self,
            DownloadProgress::Merging { .. } => DownloadStatus::Merging,
            DownloadProgress::Completed { .. } => DownloadStatus::Completed,
            DownloadProgress::Error { error, .. } => DownloadStatus::Error(error),
            DownloadProgress::Paused { .. } => DownloadStatus::Paused,
            DownloadProgress::Cancelled { .. } => DownloadStatus::Cancelled,
        }
    }

    /// Applies a progress message to the status of its download.
    pub fn apply(self, progress: DownloadProgress) -> (r: Self)
        ensures
            r == self.after(progress),
    {
        match progress {
            DownloadProgress::Started { .. } => DownloadStatus::Downloading,
            DownloadProgress::Progress { .. } => self,
            DownloadProgress::Merging { .. } => DownloadStatus::Merging,
            DownloadProgress::Completed { .. } => DownloadStatus::Completed,
            DownloadProgress::Error { error, .. } => DownloadStatus::Error(error),
            DownloadProgress::Paused { .. } => DownloadStatus::Paused,
            DownloadProgress::Cancelled { .. } => DownloadStatus::Cancelled,
        }
    }
}

/// Which downloads the list shows.
#[derive(Debug, Clone, Copy, PartialEq, Eq, Structural)]
pub enum DownloadFilter {
    /// Those under way, queued or paused.
    Active,
    /// Those that are complete.
    Completed,
    /// All of them.
    All,
}

impl DownloadFilter {
    /// Whether the list shows the downloads that are not yet complete.
    pub fn shows_active(&self) -> (r: bool)
        ensures
            r == (*self == DownloadFilter::Active || *self == DownloadFilter::All),
    {
        match self {
            DownloadFilter::Active => true,
            DownloadFilter::Completed => false,
            DownloadFilter::All => true,
        }
    }

    /// Whether the list shows the downloads of the history.
    pub fn shows_history(&self) -> (r: bool)
        ensures
            r == (*self == DownloadFilter::Completed || *self == DownloadFilter::All),
    {
        match self {
            DownloadFilter::Active => false,
            DownloadFilter::Completed => true,
            DownloadFilter::All => true,
        }
    }
}

/// The smaller of two numbers.
pub open spec fn least(a: nat, b: nat) -> nat {
    if a <= b {
        a
    } else {
        b
    }
}

/// How many bytes of a download of `total_size` bytes in chunks of
/// `chunk_size` bytes are taken to be there, going by what its directory
/// holds: `completed` markers, `parts` temporary files in all, and `on_disk`
/// bytes in part files.
///
/// With the size known and temporary files present, each completed chunk
/// counts for the size divided evenly over the expected chunks. Else the
/// bytes on disk count. The estimate never exceeds the size.
pub open spec fn estimated_bytes(
    total_size: nat,
    chunk_size: nat,
    completed: nat,
    parts: nat,
    on_disk: nat,
) -> nat {
    let raw = if total_size > 0 && parts > 0 {
        let expected = chunk_count(total_size, chunk_size);
        let per_chunk = if expected > 0 {
            total_size / expected
        } else {
            chunk_size
        };
        completed * per_chunk
    } else {
        on_disk
    };
    least(raw, total_size)
}

/// Estimates how many bytes of a download are there from what its directory
/// holds.
pub fn estimate_downloaded(
    total_size: u64,
    chunk_size: u64,
    completed: u64,
    parts: u64,
    on_disk: u64,
) -> (r: u64)
    ensures
        r == estimated_bytes(
            total_size as nat,
            chunk_size as nat,
            completed as nat,
            parts as nat,
            on_disk as nat,
        ),
        r <= total_size,
{
    if total_size > 0 && parts > 0 {
        let per_chunk: u64 = if chunk_size > 0 {
            proof {
                lemma_count_by_division(total_size as nat, chunk_size as nat);
            }
            let expected: u64 = (total_size - 1) / chunk_size + 1;
            total_size / expected
        } else {
            chunk_size
        };
        if per_chunk == 0 {
            assert(completed * per_chunk == 0) by (nonlinear_arith)
                requires
                    per_chunk == 0,
            ;
            0
        } else if completed > total_size / per_chunk {
            assert(completed * per_chunk > total_size) by {
                vstd::arithmetic::div_mod::lemma_fundamental_div_mod(
                    total_size as int,
                    per_chunk as int,
                );
                let q = total_size as int / per_chunk as int;
                assert(completed * per_chunk >= (q + 1) * per_chunk) by (nonlinear_arith)
                    requires
                        completed >= q + 1,
                        per_chunk > 0,
                ;
                assert((q + 1) * per_chunk == per_chunk * q + per_chunk) by (nonlinear_arith);
            }
            total_size
        } else {
            assert(completed * per_chunk <= total_size) by {
                vstd::arithmetic::div_mod::lemma_fundamental_div_mod(
                    total_size as int,
                    per_chunk as int,
                );
                let q = total_size as int / per_chunk as int;
                assert(completed * per_chunk <= q * per_chunk) by (nonlinear_arith)
                    requires
                        completed <= q,
                        per_chunk > 0,
                ;
                assert(q * per_chunk == per_chunk * q) by (nonlinear_arith);
            }
            completed * per_chunk
        }
    } else if on_disk < total_size {
        on_disk
    } else {
        total_size
    }
}

/// What to do with a fresh estimate of the bytes that are there.
#[derive(Debug, Clone, Copy, PartialEq, Eq, Structural)]
pub struct Tick {
    /// Whether the estimate is reported to the observer.
    pub report: bool,
    /// Whether watching the download ends here.
    pub stop: bool,
}

/// Decides what to do with the estimate `current`, when `last` was the
/// estimate reported before: it is reported if it has grown or is still 0,
/// and watching ends once a reported estimate has reached a size that is
/// known.
pub fn progress_tick(total_size: u64, last: u64, current: u64) -> (tick: Tick)
    ensures
        tick.report == (current > last || current == 0),
        tick.stop == (tick.report && total_size > 0 && current >= total_size),
{
    let report = current > last || current == 0;
    Tick { report, stop: report && total_size > 0 && current >= total_size }
}

} // verus!
