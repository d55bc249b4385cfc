//! What passes between a run and its driver: the events that the driver
//! reports and the actions that the run asks for.

use crate::downloader::failure::{DownloadFailure, FailureView, FetchError, FetchErrorView};
use crate::text::{text_of, texts_of};
use vstd::prelude::*;

verus! {

/// Where a segmented download stands.
#[derive(Debug, Clone, Copy, PartialEq, Eq, Structural)]
pub enum Stage {
    /// The remote was asked for the resource's size and its range support.
    DetectingCapability,
    /// The remote has no range support: the whole body is being fetched.
    WholeFileFallback,
    /// The chunks are planned; the disk is being inspected.
    Inspecting,
    /// The part files that were missing are being allocated.
    Allocating,
    /// Chunks are being fetched.
    SegmentedDownload,
    /// The part files are being merged into the output.
    Merging,
    /// The part files and their markers are being removed.
    Cleanup,
    /// The output is complete.
    Done,
    /// The run has ended without its output.
    Failed,
}

/// A part file to create, with the exact length to give it.
#[derive(Debug)]
pub struct PartFile {
    /// Where the file lies.
    pub path: String,
    /// Its length in bytes: that of the chunk it backs.
    pub len: u64,
}

/// One chunk to fetch.
#[derive(Debug)]
pub struct FetchRequest {
    /// The chunk's position in the plan.
    pub index: usize,
    /// Where the resource is fetched from.
    pub url: String,
    /// The value of the `Range` header: the chunk's bytes.
    pub range: String,
    /// The part file that receives the body, truncated first.
    pub path: String,
    /// The marker to create once the body is written in full.
    pub marker: String,
}

/// What the driver reports to the run.
#[derive(Debug)]
pub enum Event {
    /// The remote answered the probe with this status and these headers.
    Probed { status: u16, content_length: Option<String>, accept_ranges: Option<String> },
    /// Which part files and which markers exist, chunk by chunk.
    Inspected { parts: Vec<bool>, markers: Vec<bool> },
    /// The action was carried out.
    Completed,
    /// The action failed.
    Failed(FetchError),
    /// The fetch of the chunk at `index` has ended.
    ChunkFinished { index: usize, result: Result<(), FetchError> },
}

/// What the run asks the driver to do next.
#[derive(Debug)]
pub enum Action {
    /// Ask the remote for the resource's metadata and report `Probed`.
    Probe { url: String },
    /// Fetch the whole body without a range and write it to `output`.
    FetchWhole { url: String, output: String },
    /// Report which of these part files and markers exist.
    Inspect { parts: Vec<String>, markers: Vec<String> },
    /// Create each of these files at its length.
    Allocate { files: Vec<PartFile> },
    /// Launch these fetches beside those in flight, and report the next
    /// fetch that ends.
    Fetch { launch: Vec<FetchRequest> },
    /// Concatenate `parts`, in this order, into `output`.
    Merge { parts: Vec<String>, output: String },
    /// Remove those of these files that exist.
    Cleanup { remove: Vec<String> },
    /// Stop: the run ended with this result.
    Finish(Result<(), DownloadFailure>),
}

/// A part file to create, with its path as text.
pub struct PartFileView {
    pub path: Seq<char>,
    pub len: u64,
}

impl View for PartFile {
    type V = PartFileView;

    open spec fn view(&self) -> PartFileView {
        PartFileView { path: self.path@, len: self.len }
    }
}

/// A chunk to fetch, with its text in place of its strings.
pub struct RequestView {
    pub index: usize,
    pub url: Seq<char>,
    pub range: Seq<char>,
    pub path: Seq<char>,
    pub marker: Seq<char>,
}

impl View for FetchRequest {
    type V = RequestView;

    open spec fn view(&self) -> RequestView {
        RequestView {
            index: self.index,
            url: self.url@,
            range: self.range@,
            path: self.path@,
            marker: self.marker@,
        }
    }
}

/// The view of each part file of `files`.
pub open spec fn files_of(files: Seq<PartFile>) -> Seq<PartFileView> {
    Seq::new(files.len(), |i: int| files[i]@)
}

/// The view of each request of `requests`.
pub open spec fn requests_of(requests: Seq<FetchRequest>) -> Seq<RequestView> {
    Seq::new(requests.len(), |i: int| requests[i]@)
}

/// The result of a fetch, with its text in place of its strings.
pub open spec fn result_of(result: Result<(), FetchError>) -> Result<(), FetchErrorView> {
    match result {
        Ok(_) => Ok(()),
        Err(cause) => Err(cause@),
    }
}

/// An event with its text in place of its strings.
pub enum EventView {
    Probed { status: u16, content_length: Option<Seq<char>>, accept_ranges: Option<Seq<char>> },
    Inspected { parts: Seq<bool>, markers: Seq<bool> },
    Completed,
    Failed(FetchErrorView),
    ChunkFinished { index: usize, result: Result<(), FetchErrorView> },
}

impl View for Event {
    type V = EventView;

    open spec fn view(&self) -> EventView {
        match *self {
            Event::Probed { status, content_length, accept_ranges } => EventView::Probed {
                status,
                content_length: text_of(content_length),
                accept_ranges: text_of(accept_ranges),
            },
            Event::Inspected { parts, markers } => EventView::Inspected {
                parts: parts@,
                markers: markers@,
            },
            Event::Completed => EventView::Completed,
            Event::Failed(cause) => EventView::Failed(cause@),
            Event::ChunkFinished { index, result } => EventView::ChunkFinished {
                index,
                result: result_of(result),
            },
        }
    }
}

/// An action with its text in place of its strings.
pub enum ActionView {
    Probe { url: Seq<char> },
    FetchWhole { url: Seq<char>, output: Seq<char> },
    Inspect { parts: Seq<Seq<char>>, markers: Seq<Seq<char>> },
    Allocate { files: Seq<PartFileView> },
    Fetch { launch: Seq<RequestView> },
    Merge { parts: Seq<Seq<char>>, output: Seq<char> },
    Cleanup { remove: Seq<Seq<char>> },
    Finish(Result<(), FailureView>),
}

impl View for Action {
    type V = ActionView;

    open spec fn view(&self) -> ActionView {
        match *self {
            Action::Probe { url } => ActionView::Probe { url: url@ },
            Action::FetchWhole { url, output } => ActionView::FetchWhole {
                url: url@,
                output: output@,
            },
            Action::Inspect { parts, markers } => ActionView::Inspect {
                parts: texts_of(parts@),
                markers: texts_of(markers@),
            },
            Action::Allocate { files } => ActionView::Allocate { files: files_of(files@) },
            Action::Fetch { launch } => ActionView::Fetch { launch: requests_of(launch@) },
            Action::Merge { parts, output } => ActionView::Merge {
                parts: texts_of(parts@),
                output: output@,
            },
            Action::Cleanup { remove } => ActionView::Cleanup { remove: texts_of(remove@) },
            Action::Finish(result) => ActionView::Finish(
                match result {
                    Ok(_) => Ok(()),
                    Err(failure) => Err(failure@),
                },
            ),
        }
    }
}

} // verus!
