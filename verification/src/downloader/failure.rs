//! Why a segmented download fails.

use vstd::prelude::*;

verus! {

/// Why one request, or one file operation on its behalf, failed.
#[derive(Debug)]
pub enum FetchError {
    /// An I/O failure, in the words of whoever met it.
    Io(String),
    /// The remote answered with this status, which is not a success.
    HttpStatus(u16),
}

/// Why a segmented download ended without its output.
#[derive(Debug)]
pub enum DownloadFailure {
    /// A file or transport operation failed.
    Io(String),
    /// The remote answered with this status, which is not a success.
    HttpStatus(u16),
    /// The size is not known and the remote did not state a usable content
    /// length.
    MissingContentLength,
    /// The plan has more chunks than can be held in memory.
    TooManyChunks,
    /// The fetch of the chunk at `index` failed.
    Chunk { index: usize, cause: FetchError },
    /// The part files could not be merged.
    Merge(String),
    /// What was reported is not what the run awaited, or does not fit its
    /// plan.
    OutOfSequence,
}

/// A fetch error with its text in place of its strings.
pub enum FetchErrorView {
    Io(Seq<char>),
    HttpStatus(u16),
}

impl View for FetchError {
    type V = FetchErrorView;

    open spec fn view(&self) -> FetchErrorView {
        match *self {
            FetchError::Io(reason) => FetchErrorView::Io(reason@),
            FetchError::HttpStatus(status) => FetchErrorView::HttpStatus(status),
        }
    }
}

/// A download failure with its text in place of its strings.
pub enum FailureView {
    Io(Seq<char>),
    HttpStatus(u16),
    MissingContentLength,
    TooManyChunks,
    Chunk { index: usize, cause: FetchErrorView },
    Merge(Seq<char>),
    OutOfSequence,
}

impl View for DownloadFailure {
    type V = FailureView;

    open spec fn view(&self) -> FailureView {
        match *self {
            DownloadFailure::Io(reason) => FailureView::Io(reason@),
            DownloadFailure::HttpStatus(status) => FailureView::HttpStatus(status),
            DownloadFailure::MissingContentLength => FailureView::MissingContentLength,
            DownloadFailure::TooManyChunks => FailureView::TooManyChunks,
            DownloadFailure::Chunk { index, cause } => FailureView::Chunk { index, cause: cause@ },
            DownloadFailure::Merge(reason) => FailureView::Merge(reason@),
            DownloadFailure::OutOfSequence => FailureView::OutOfSequence,
        }
    }
}

/// The failure that a failed probe, whole-file fetch or file operation ends
/// the run with.
pub open spec fn failure_of(cause: FetchErrorView) -> FailureView {
    match cause {
        FetchErrorView::Io(reason) => FailureView::Io(reason),
        FetchErrorView::HttpStatus(status) => FailureView::HttpStatus(status),
    }
}

/// The failure that a failed merge ends the run with.
pub open spec fn merge_failure_of(cause: FetchErrorView) -> FailureView {
    match cause {
        FetchErrorView::Io(reason) => FailureView::Merge(reason),
        FetchErrorView::HttpStatus(status) => FailureView::HttpStatus(status),
    }
}

/// The failure that a failed probe, whole-file fetch or file operation ends
/// the run with.
pub fn failure_from(cause: FetchError) -> (failure: DownloadFailure)
    ensures
        failure@ == failure_of(cause@),
{
    match cause {
        FetchError::Io(reason) => DownloadFailure::Io(reason),
        FetchError::HttpStatus(status) => DownloadFailure::HttpStatus(status),
    }
}

/// The failure that a failed merge ends the run with.
pub fn merge_failure_from(cause: FetchError) -> (failure: DownloadFailure)
    ensures
        failure@ == merge_failure_of(cause@),
{
    match cause {
        FetchError::Io(reason) => DownloadFailure::Merge(reason),
        FetchError::HttpStatus(status) => DownloadFailure::HttpStatus(status),
    }
}

} // verus!
