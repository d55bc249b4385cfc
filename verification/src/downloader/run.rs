//! The run of a segmented download as a state machine over plain values,
//! and what holds of every run.
//!
//! `DownloadView::next` says, for each state and each event, which state and
//! which action follow. The laws below are stated over it: the concurrency
//! cap, the order of launches, what resuming skips, what the fallback does,
//! what the merge takes and when temporary files go.

use crate::downloader::failure::{failure_of, merge_failure_of, FailureView, FetchErrorView};
use crate::downloader::manager::MAX_CONCURRENCY;
use crate::downloader::protocol::{ActionView, EventView, PartFileView, RequestView, Stage};
use crate::downloader::remote::{probe_result, range_header_value};
use crate::downloader::types::{chunk_count, chunk_end, chunk_start, lemma_chunk_in_plan};
use crate::paths::{done_marker, part_file};
use vstd::prelude::*;

verus! {

/// The paths of the part files of the first `n` chunks of a download to
/// `output`, in index order.
pub open spec fn part_paths(output: Seq<char>, n: nat) -> Seq<Seq<char>> {
    Seq::new(n, |i: int| part_file(output, i as nat))
}

/// The paths of the completion markers of the first `n` chunks, in index
/// order.
pub open spec fn marker_paths(output: Seq<char>, n: nat) -> Seq<Seq<char>> {
    Seq::new(n, |i: int| done_marker(part_file(output, i as nat)))
}

/// The temporary files of the first `n` chunks: each part file, followed by
/// its marker.
pub open spec fn temp_files(output: Seq<char>, n: nat) -> Seq<Seq<char>> {
    Seq::new(
        2 * n,
        |i: int|
            if i % 2 == 0 {
                part_file(output, (i / 2) as nat)
            } else {
                done_marker(part_file(output, (i / 2) as nat))
            },
    )
}

/// The positions below `n` whose flag is not set, in ascending order.
pub open spec fn unset(flags: Seq<bool>, n: nat) -> Seq<usize>
    decreases n,
{
    if n == 0 {
        Seq::empty()
    } else if flags[n - 1] {
        unset(flags, (n - 1) as nat)
    } else {
        unset(flags, (n - 1) as nat).push((n - 1) as usize)
    }
}

/// Number of bytes of chunk `i` of a resource of `total` bytes in chunks of
/// `size` bytes.
pub open spec fn chunk_len(total: nat, size: nat, i: nat) -> int {
    chunk_end(total, size, i) - chunk_start(size, i) + 1
}

/// The part file that backs chunk `i` of a download of `total` bytes to
/// `output` in chunks of `size` bytes: the chunk's part path, at the chunk's
/// exact length.
pub open spec fn part_to_create(output: Seq<char>, total: nat, size: nat, i: nat) -> PartFileView {
    PartFileView { path: part_file(output, i), len: chunk_len(total, size, i) as u64 }
}

/// The part files to create among those of the first `n` chunks: those of
/// the chunks that `present` does not flag, in index order. A part file that
/// is present is not among them, so that what it holds is left untouched.
pub open spec fn parts_to_create(
    output: Seq<char>,
    total: nat,
    size: nat,
    present: Seq<bool>,
    n: nat,
) -> Seq<PartFileView>
    decreases n,
{
    if n == 0 {
        Seq::empty()
    } else if present[n - 1] {
        parts_to_create(output, total, size, present, (n - 1) as nat)
    } else {
        parts_to_create(output, total, size, present, (n - 1) as nat).push(
            part_to_create(output, total, size, (n - 1) as nat),
        )
    }
}

/// The state of a run, with its text in place of its strings.
pub struct DownloadView {
    pub url: Seq<char>,
    pub output: Seq<char>,
    pub total_size: u64,
    pub chunk_size: u64,
    pub stage: Stage,
    /// Number of chunks planned.
    pub planned: nat,
    /// The chunks to fetch in this run, by index, ascending.
    pub pending: Seq<usize>,
    /// How many of `pending` were launched.
    pub launched: nat,
    /// The chunks whose fetch is in flight.
    pub in_flight: Seq<usize>,
    /// The first chunk failure of the run.
    pub failure: Option<FailureView>,
}

impl DownloadView {
    /// The part file to create for chunk `i`, at the chunk's exact length.
    pub open spec fn part(self, i: nat) -> PartFileView {
        part_to_create(self.output, self.total_size as nat, self.chunk_size as nat, i)
    }

    /// The part files to create among those of the first `n` chunks: those
    /// that `present` does not flag, in index order.
    pub open spec fn missing_parts(self, present: Seq<bool>, n: nat) -> Seq<PartFileView> {
        parts_to_create(self.output, self.total_size as nat, self.chunk_size as nat, present, n)
    }

    /// The request that fetches chunk `index`.
    pub open spec fn request(self, index: usize) -> RequestView {
        RequestView {
            index,
            url: self.url,
            range: range_header_value(
                chunk_start(self.chunk_size as nat, index as nat) as u64,
                chunk_end(self.total_size as nat, self.chunk_size as nat, index as nat) as u64,
            ),
            path: part_file(self.output, index as nat),
            marker: done_marker(part_file(self.output, index as nat)),
        }
    }

    /// The requests that fetch the chunks `indices`, in that order.
    pub open spec fn requests(self, indices: Seq<usize>) -> Seq<RequestView> {
        Seq::new(indices.len(), |i: int| self.request(indices[i]))
    }

    /// The run ends with `failure`. The disk is left as it is.
    pub open spec fn fail(self, failure: FailureView) -> (DownloadView, ActionView) {
        (DownloadView { stage: Stage::Failed, ..self }, ActionView::Finish(Err(failure)))
    }

    /// The run ends with its output complete.
    pub open spec fn succeed(self) -> (DownloadView, ActionView) {
        (DownloadView { stage: Stage::Done, ..self }, ActionView::Finish(Ok(())))
    }

    /// The segmented path begins: the chunks are planned and the disk is
    /// inspected for their part files and markers.
    pub open spec fn plan(self) -> (DownloadView, ActionView) {
        let n = chunk_count(self.total_size as nat, self.chunk_size as nat);
        if n > usize::MAX {
            self.fail(FailureView::TooManyChunks)
        } else {
            (
                DownloadView { stage: Stage::Inspecting, planned: n, ..self },
                ActionView::Inspect {
                    parts: part_paths(self.output, n),
                    markers: marker_paths(self.output, n),
                },
            )
        }
    }

    /// All part files are complete: they are merged, all of them, in index
    /// order.
    pub open spec fn merge(self) -> (DownloadView, ActionView) {
        (
            DownloadView { stage: Stage::Merging, ..self },
            ActionView::Merge {
                parts: part_paths(self.output, self.planned),
                output: self.output,
            },
        )
    }

    /// The part files exist: the first fetches are launched, as many as the
    /// concurrency cap allows, or the merge begins if no chunk is pending.
    pub open spec fn launch_first(self) -> (DownloadView, ActionView) {
        if self.pending.len() == 0 {
            self.merge()
        } else {
            let k = if self.pending.len() < MAX_CONCURRENCY {
                self.pending.len()
            } else {
                MAX_CONCURRENCY as nat
            };
            (
                DownloadView {
                    stage: Stage::SegmentedDownload,
                    launched: k,
                    in_flight: self.pending.take(k as int),
                    ..self
                },
                ActionView::Fetch { launch: self.requests(self.pending.take(k as int)) },
            )
        }
    }

    /// The fetch of chunk `index` has ended with `result`. The first failure
    /// is kept. The next pending chunk, if any, takes the free place. Once
    /// nothing is in flight the run fails with the failure kept, or goes on
    /// to the merge if there is none.
    pub open spec fn chunk_finished(self, index: usize, result: Result<(), FetchErrorView>) -> (
        DownloadView,
        ActionView,
    ) {
        if !self.in_flight.contains(index) {
            self.fail(FailureView::OutOfSequence)
        } else {
            let rest = self.in_flight.remove_value(index);
            let failure = match (self.failure, result) {
                (None, Err(cause)) => Some(FailureView::Chunk { index, cause }),
                _ => self.failure,
            };
            if self.launched < self.pending.len() {
                let next = self.pending[self.launched as int];
                (
                    DownloadView {
                        launched: self.launched + 1,
                        in_flight: rest.push(next),
                        failure,
                        ..self
                    },
                    ActionView::Fetch { launch: seq![self.request(next)] },
                )
            } else if rest.len() > 0 {
                (
                    DownloadView { in_flight: rest, failure, ..self },
                    ActionView::Fetch { launch: Seq::empty() },
                )
            } else {
                let drained = DownloadView { in_flight: rest, failure: None, ..self };
                match failure {
                    Some(failure) => drained.fail(failure),
                    None => drained.merge(),
                }
            }
        }
    }

    /// The state and the action with which a run begins: with
    /// the size known, ranges are taken to be supported and the chunks are
    /// planned at once; else the remote is probed first.
    pub open spec fn begin(url: Seq<char>, output: Seq<char>, total_size: u64, chunk_size: u64) -> (
        DownloadView,
        ActionView,
    ) {
        let fresh = DownloadView {
            url,
            output,
            total_size,
            chunk_size,
            stage: Stage::DetectingCapability,
            planned: 0,
            pending: Seq::empty(),
            launched: 0,
            in_flight: Seq::empty(),
            failure: None,
        };
        if total_size > 0 {
            fresh.plan()
        } else {
            (fresh, ActionView::Probe { url })
        }
    }

    /// The state and the action that follow `event`.
    pub open spec fn next(self, event: EventView) -> (DownloadView, ActionView) {
        match (self.stage, event) {
            (
                Stage::DetectingCapability,
                EventView::Probed { status, content_length, accept_ranges },
            ) => match probe_result(status, content_length, accept_ranges) {
                Ok((size, ranges)) => {
                    let known = DownloadView { total_size: size, ..self };
                    if ranges {
                        known.plan()
                    } else {
                        (
                            DownloadView { stage: Stage::WholeFileFallback, ..known },
                            ActionView::FetchWhole { url: self.url, output: self.output },
                        )
                    }
                },
                Err(failure) => self.fail(failure),
            },
            (Stage::DetectingCapability, EventView::Failed(cause)) => self.fail(failure_of(cause)),
            (Stage::WholeFileFallback, EventView::Completed) => self.succeed(),
            (Stage::WholeFileFallback, EventView::Failed(cause)) => self.fail(failure_of(cause)),
            (Stage::Inspecting, EventView::Inspected { parts, markers }) => if parts.len()
                == self.planned && markers.len() == self.planned {
                (
                    DownloadView {
                        stage: Stage::Allocating,
                        pending: unset(markers, self.planned),
                        ..self
                    },
                    ActionView::Allocate { files: self.missing_parts(parts, self.planned) },
                )
            } else {
                self.fail(FailureView::OutOfSequence)
            },
            (Stage::Inspecting, EventView::Failed(cause)) => self.fail(failure_of(cause)),
            (Stage::Allocating, EventView::Completed) => self.launch_first(),
            (Stage::Allocating, EventView::Failed(cause)) => self.fail(failure_of(cause)),
            (Stage::SegmentedDownload, EventView::ChunkFinished { index, result }) => {
                self.chunk_finished(index, result)
            },
            (Stage::Merging, EventView::Completed) => (
                DownloadView { stage: Stage::Cleanup, ..self },
                ActionView::Cleanup { remove: temp_files(self.output, self.planned) },
            ),
            (Stage::Merging, EventView::Failed(cause)) => self.fail(merge_failure_of(cause)),
            (Stage::Cleanup, EventView::Completed) => self.succeed(),
            (Stage::Cleanup, EventView::Failed(cause)) => self.fail(failure_of(cause)),
            (Stage::Done, _) => (self, ActionView::Finish(Err(FailureView::OutOfSequence))),
            _ => self.fail(FailureView::OutOfSequence),
        }
    }

    /// Whether the state is one that a run can be in: the plan is that of the
    /// task, the pending chunks are chunks of the plan in ascending order,
    /// and the fetches in flight are pending chunks that were launched, each
    /// once, and no more of them than the concurrency cap allows.
    pub open spec fn wf(self) -> bool {
        &&& self.planned <= usize::MAX
        &&& self.planned > 0 ==> self.planned == chunk_count(
            self.total_size as nat,
            self.chunk_size as nat,
        )
        &&& self.launched <= self.pending.len()
        &&& forall|i: int| 0 <= i < self.pending.len() ==> (#[trigger] self.pending[i]) < self.planned
        &&& forall|i: int, j: int|
            0 <= i < j < self.pending.len() ==> (#[trigger] self.pending[i]) < (
            #[trigger] self.pending[j])
        &&& self.in_flight.len() <= MAX_CONCURRENCY
        &&& self.in_flight.no_duplicates()
        &&& forall|i: int|
            0 <= i < self.in_flight.len() ==> self.pending.take(self.launched as int).contains(
                #[trigger] self.in_flight[i],
            )
        &&& self.stage == Stage::DetectingCapability || self.stage == Stage::WholeFileFallback
            ==> self.planned == 0
        &&& self.stage == Stage::DetectingCapability || self.stage == Stage::WholeFileFallback
            || self.stage == Stage::Inspecting ==> self.pending.len() == 0
        &&& self.stage == Stage::DetectingCapability || self.stage == Stage::WholeFileFallback
            || self.stage == Stage::Inspecting || self.stage == Stage::Allocating
            ==> self.launched == 0 && self.in_flight.len() == 0 && self.failure is None
        &&& self.stage == Stage::SegmentedDownload ==> self.in_flight.len() > 0
        &&& self.stage == Stage::Merging || self.stage == Stage::Cleanup || self.stage
            == Stage::Done ==> self.in_flight.len() == 0 && self.failure is None
    }
}

/// What `unset` holds: exactly the positions below `n` whose flag is not set,
/// each once, in ascending order.
pub proof fn lemma_unset(flags: Seq<bool>, n: nat)
    requires
        n <= flags.len(),
        n <= usize::MAX,
    ensures
        unset(flags, n).len() <= n,
        forall|i: int| 0 <= i < unset(flags, n).len() ==> (#[trigger] unset(flags, n)[i]) < n,
        forall|i: int|
            0 <= i < unset(flags, n).len() ==> !flags[(#[trigger] unset(flags, n)[i]) as int],
        forall|i: int, j: int|
            0 <= i < j < unset(flags, n).len() ==> (#[trigger] unset(flags, n)[i]) < (
            #[trigger] unset(flags, n)[j]),
        forall|k: int| 0 <= k < n && !flags[k] ==> unset(flags, n).contains(k as usize),
    decreases n,
{
    if n > 0 {
        let before = unset(flags, (n - 1) as nat);
        lemma_unset(flags, (n - 1) as nat);
        let now = unset(flags, n);
        assert forall|k: int| 0 <= k < n && !flags[k] implies now.contains(k as usize) by {
            if k < n - 1 {
                assert(before.contains(k as usize));
                let at = choose|at: int| 0 <= at < before.len() && before[at] == k as usize;
                assert(now[at] == k as usize);
            } else {
                assert(now[now.len() - 1] == k as usize);
            }
        }
    }
}

/// Taking one value out of a sequence without duplicates leaves the others,
/// each still once.
pub proof fn lemma_remove_value(s: Seq<usize>, x: usize)
    requires
        s.no_duplicates(),
        s.contains(x),
    ensures
        s.remove_value(x).len() == s.len() - 1,
        s.remove_value(x).no_duplicates(),
        !s.remove_value(x).contains(x),
        forall|y: usize| y != x ==> (s.remove_value(x).contains(y) <==> s.contains(y)),
{
    s.index_of_first_ensures(x);
    let at = s.index_of_first(x).unwrap();
    let rest = s.remove(at);
    s.remove_ensures(at);
    assert forall|i: int, j: int| 0 <= i < rest.len() && 0 <= j < rest.len() && i != j implies rest[i]
        != rest[j] by {
        let a = if i < at {
            i
        } else {
            i + 1
        };
        let b = if j < at {
            j
        } else {
            j + 1
        };
        assert(rest[i] == s[a]);
        assert(rest[j] == s[b]);
    }
    assert forall|i: int| 0 <= i < rest.len() implies rest[i] != x by {
        let a = if i < at {
            i
        } else {
            i + 1
        };
        assert(rest[i] == s[a]);
    }
    assert forall|y: usize| y != x implies (rest.contains(y) <==> s.contains(y)) by {
        if rest.contains(y) {
            let i = choose|i: int| 0 <= i < rest.len() && rest[i] == y;
            let a = if i < at {
                i
            } else {
                i + 1
            };
            assert(s[a] == y);
        }
        if s.contains(y) {
            let a = choose|a: int| 0 <= a < s.len() && s[a] == y;
            let i = if a < at {
                a
            } else {
                a - 1
            };
            assert(rest[i] == y);
        }
    }
}

/// Every step takes a well-formed state to a well-formed state. In
/// particular no step puts more fetches in flight than the concurrency cap
/// allows, and no chunk is in flight twice.
pub proof fn lemma_next_preserves_wf(s: DownloadView, event: EventView)
    requires
        s.wf(),
    ensures
        s.next(event).0.wf(),
{
    let after = s.next(event).0;
    match (s.stage, event) {
        (Stage::Inspecting, EventView::Inspected { parts, markers }) => {
            if parts.len() == s.planned && markers.len() == s.planned {
                lemma_unset(markers, s.planned);
            }
        },
        (Stage::Allocating, EventView::Completed) => {
            if s.pending.len() > 0 {
                let first = after.in_flight;
                assert forall|i: int| 0 <= i < first.len() implies s.pending.take(
                    after.launched as int,
                ).contains(#[trigger] first[i]) by {
                    assert(s.pending.take(after.launched as int)[i] == first[i]);
                }
            }
        },
        (Stage::SegmentedDownload, EventView::ChunkFinished { index, result }) => {
            if s.in_flight.contains(index) {
                lemma_remove_value(s.in_flight, index);
                let rest = s.in_flight.remove_value(index);
                let launched = s.pending.take(s.launched as int);
                assert forall|i: int| 0 <= i < rest.len() implies launched.contains(
                    #[trigger] rest[i],
                ) by {
                    assert(rest.contains(rest[i]));
                    assert(s.in_flight.contains(rest[i]));
                    let at = choose|at: int|
                        0 <= at < s.in_flight.len() && s.in_flight[at] == rest[i];
                    assert(launched.contains(s.in_flight[at]));
                }
                if s.launched < s.pending.len() {
                    let next = s.pending[s.launched as int];
                    let more = s.pending.take(s.launched as int + 1);
                    assert forall|i: int| 0 <= i < rest.len() implies rest[i] != next by {
                        assert(launched.contains(rest[i]));
                        let at = choose|at: int| 0 <= at < launched.len() && launched[at] == rest[i];
                        assert(s.pending[at] < s.pending[s.launched as int]);
                    }
                    assert forall|i: int| 0 <= i < after.in_flight.len() implies more.contains(
                        #[trigger] after.in_flight[i],
                    ) by {
                        if i < rest.len() {
                            assert(launched.contains(rest[i]));
                            let at = choose|at: int|
                                0 <= at < launched.len() && launched[at] == rest[i];
                            assert(more[at] == rest[i]);
                        } else {
                            assert(more[s.launched as int] == next);
                        }
                    }
                }
            }
        },
        _ => {},
    }
}

/// The part files that are created are those of the chunks without one, in
/// index order: a part file that exists is left as it is.
pub proof fn lemma_parts_to_create(
    output: Seq<char>,
    total: nat,
    size: nat,
    present: Seq<bool>,
    n: nat,
)
    requires
        n <= present.len(),
        n <= usize::MAX,
    ensures
        parts_to_create(output, total, size, present, n).len() == unset(present, n).len(),
        forall|k: int|
            0 <= k < unset(present, n).len() ==> (#[trigger] parts_to_create(
                output,
                total,
                size,
                present,
                n,
            )[k]) == part_to_create(output, total, size, unset(present, n)[k] as nat),
    decreases n,
{
    if n > 0 {
        lemma_parts_to_create(output, total, size, present, (n - 1) as nat);
    }
}

/// The part files that a run allocates are those of the chunks without one,
/// in index order.
pub proof fn lemma_missing_parts(s: DownloadView, present: Seq<bool>, n: nat)
    requires
        n <= present.len(),
        n <= usize::MAX,
    ensures
        s.missing_parts(present, n).len() == unset(present, n).len(),
        forall|k: int|
            0 <= k < unset(present, n).len() ==> (#[trigger] s.missing_parts(present, n)[k])
                == s.part(unset(present, n)[k] as nat),
{
    lemma_parts_to_create(s.output, s.total_size as nat, s.chunk_size as nat, present, n);
}

/// A part file is created at the exact length of its chunk: `end - start + 1`
/// bytes, which is `size` for every chunk but the last and at least one byte
/// for any.
pub proof fn lemma_part_has_chunk_length(output: Seq<char>, total: u64, size: u64, i: nat)
    requires
        i < chunk_count(total as nat, size as nat),
    ensures
        part_to_create(output, total as nat, size as nat, i).path == part_file(output, i),
        part_to_create(output, total as nat, size as nat, i).len == chunk_end(
            total as nat,
            size as nat,
            i,
        ) - chunk_start(size as nat, i) + 1,
        1 <= part_to_create(output, total as nat, size as nat, i).len <= size,
        i + 1 < chunk_count(total as nat, size as nat) ==> part_to_create(
            output,
            total as nat,
            size as nat,
            i,
        ).len == size,
{
    lemma_chunk_in_plan(total as nat, size as nat, i);
    lemma_chunk_in_plan(total as nat, size as nat, i + 1);
    assert((i + 1) * size == i * size + size) by (nonlinear_arith);
}

/// A chunk whose marker exists when the disk is inspected is not pending:
/// the pending chunks are exactly those without a marker.
pub proof fn lemma_marked_chunks_are_not_pending(
    s: DownloadView,
    parts: Seq<bool>,
    markers: Seq<bool>,
    i: int,
)
    requires
        s.wf(),
        s.stage == Stage::Inspecting,
        parts.len() == s.planned,
        markers.len() == s.planned,
        0 <= i < s.planned,
    ensures
        s.next(EventView::Inspected { parts, markers }).0.pending.contains(i as usize)
            <==> !markers[i],
{
    lemma_unset(markers, s.planned);
    let pending = unset(markers, s.planned);
    if pending.contains(i as usize) {
        let at = choose|at: int| 0 <= at < pending.len() && pending[at] == i as usize;
        assert(!markers[pending[at] as int]);
    }
}

/// Only pending chunks are fetched: once the disk has been inspected the
/// set of pending chunks is fixed, and every fetch that a step launches is
/// that of a pending chunk. So a chunk that had its marker before the run is
/// not fetched in the run.
pub proof fn lemma_only_pending_chunks_are_fetched(s: DownloadView, event: EventView)
    requires
        s.wf(),
        s.stage != Stage::Inspecting,
    ensures
        s.next(event).0.pending == s.pending,
        s.next(event).1 matches ActionView::Fetch { launch } ==> forall|k: int|
            0 <= k < launch.len() ==> s.pending.contains((#[trigger] launch[k]).index),
{
    match s.next(event).1 {
        ActionView::Fetch { launch } => {
            assert forall|k: int| 0 <= k < launch.len() implies s.pending.contains(
                (#[trigger] launch[k]).index,
            ) by {
                if s.stage == Stage::Allocating {
                    assert(s.pending[k] == launch[k].index);
                } else {
                    assert(s.pending[s.launched as int] == launch[k].index);
                }
            }
        },
        _ => {},
    }
}

/// Without range support there is one plain request and nothing else: when
/// the probe succeeds and the remote does not advertise ranges, the next
/// action is the fetch of the whole body to the output path, and whatever is
/// reported after it ends the run. No part file is allocated and no chunk is
/// fetched.
pub proof fn lemma_fallback_is_one_plain_fetch(
    s: DownloadView,
    status: u16,
    content_length: Option<Seq<char>>,
    accept_ranges: Option<Seq<char>>,
    later: EventView,
)
    requires
        s.stage == Stage::DetectingCapability,
        probe_result(status, content_length, accept_ranges) matches Ok(found) && !found.1,
    ensures
        s.next(EventView::Probed { status, content_length, accept_ranges }).1 == (
        ActionView::FetchWhole { url: s.url, output: s.output }),
        s.next(EventView::Probed { status, content_length, accept_ranges }).0.stage
            == Stage::WholeFileFallback,
        s.next(EventView::Probed { status, content_length, accept_ranges }).0.next(later).1 is Finish,
        later == EventView::Completed ==> s.next(
            EventView::Probed { status, content_length, accept_ranges },
        ).0.next(later).1 == ActionView::Finish(Ok(())),
{
}

/// The merge takes every chunk of the plan, in index order, whether it was
/// fetched in this run or an earlier one, and it only begins when no fetch is
/// in flight and none has failed.
pub proof fn lemma_merge_takes_the_whole_plan(s: DownloadView, event: EventView)
    requires
        s.wf(),
    ensures
        s.next(event).1 matches ActionView::Merge { parts, output } ==> {
            &&& parts == part_paths(s.output, s.planned)
            &&& output == s.output
            &&& s.next(event).0.in_flight.len() == 0
            &&& s.next(event).0.failure is None
            &&& s.launched == s.pending.len()
        },
{
    lemma_next_preserves_wf(s, event);
}

/// Temporary files are only removed after a successful merge: a run that
/// fails leaves part files and markers as they are.
pub proof fn lemma_cleanup_follows_merge_only(s: DownloadView, event: EventView)
    ensures
        s.next(event).1 is Cleanup ==> s.stage == Stage::Merging && event == EventView::Completed,
        s.next(event).0.stage == Stage::Failed ==> s.next(event).1 is Finish,
{
}

/// A run that has ended stays as it ended and asks for nothing more.
pub proof fn lemma_ended_run_asks_nothing(s: DownloadView, event: EventView)
    requires
        s.stage == Stage::Done || s.stage == Stage::Failed,
    ensures
        s.next(event).0 == s,
        s.next(event).1 is Finish,
{
}

/// Every pending chunk is launched once, in index order: the fetches that a
/// step launches are those of the pending chunks that come next, and the
/// count of launched chunks moves past them.
pub proof fn lemma_chunks_are_launched_in_order(s: DownloadView, event: EventView)
    requires
        s.wf(),
    ensures
        s.next(event).1 matches ActionView::Fetch { launch } ==> {
            &&& s.next(event).0.launched == s.launched + launch.len()
            &&& s.next(event).0.launched <= s.pending.len()
            &&& launch == s.requests(
                s.pending.subrange(s.launched as int, s.next(event).0.launched as int),
            )
        },
{
    match s.next(event).1 {
        ActionView::Fetch { launch } => {
            let upto = s.next(event).0.launched as int;
            assert(launch =~= s.requests(s.pending.subrange(s.launched as int, upto)));
        },
        _ => {},
    }
}

/// Whether a run in stage `from` can be in stage `to` after one step.
///
/// A run goes from detecting the remote's capability either to the
/// whole-file fallback or to the segmented path (inspecting, allocating,
/// fetching), from there to merging, cleanup and done. The fallback leads
/// straight to done. Any stage but done can fail, and a run that has ended
/// stays where it ended.
pub open spec fn may_follow(from: Stage, to: Stage) -> bool {
    match from {
        Stage::DetectingCapability => to == Stage::WholeFileFallback || to == Stage::Inspecting
            || to == Stage::Failed,
        Stage::WholeFileFallback => to == Stage::Done || to == Stage::Failed,
        Stage::Inspecting => to == Stage::Allocating || to == Stage::Failed,
        Stage::Allocating => to == Stage::SegmentedDownload || to == Stage::Merging || to
            == Stage::Failed,
        Stage::SegmentedDownload => to == Stage::SegmentedDownload || to == Stage::Merging || to
            == Stage::Failed,
        Stage::Merging => to == Stage::Cleanup || to == Stage::Failed,
        Stage::Cleanup => to == Stage::Done || to == Stage::Failed,
        Stage::Done => to == Stage::Done,
        Stage::Failed => to == Stage::Failed,
    }
}

/// The stages of a run follow each other in the one order that `may_follow`
/// gives, whatever is reported.
pub proof fn lemma_stages_follow_in_order(s: DownloadView, event: EventView)
    ensures
        may_follow(s.stage, s.next(event).0.stage),
{
}

/// The state of a run that was in state `s` and has since been told
/// `events`, one after the other.
pub open spec fn run(s: DownloadView, events: Seq<EventView>) -> DownloadView
    decreases events.len(),
{
    if events.len() == 0 {
        s
    } else {
        run(s, events.drop_last()).next(events.last()).0
    }
}

/// Whether `action` launches the fetch of chunk `index`.
pub open spec fn launches(action: ActionView, index: usize) -> bool {
    match action {
        ActionView::Fetch { launch } => exists|k: int|
            0 <= k < launch.len() && (#[trigger] launch[k]).index == index,
        _ => false,
    }
}

/// Every state that a run passes through is well-formed, whatever it is
/// told: at no time are more fetches in flight than the concurrency cap
/// allows, nor is a chunk in flight twice.
pub proof fn lemma_every_state_is_well_formed(
    url: Seq<char>,
    output: Seq<char>,
    total_size: u64,
    chunk_size: u64,
    events: Seq<EventView>,
)
    ensures
        run(DownloadView::begin(url, output, total_size, chunk_size).0, events).wf(),
        run(DownloadView::begin(url, output, total_size, chunk_size).0, events).in_flight.len()
            <= MAX_CONCURRENCY,
    decreases events.len(),
{
    let first = DownloadView::begin(url, output, total_size, chunk_size).0;
    if events.len() > 0 {
        lemma_every_state_is_well_formed(url, output, total_size, chunk_size, events.drop_last());
        lemma_next_preserves_wf(run(first, events.drop_last()), events.last());
    }
}

/// Once the disk has been inspected, the pending chunks stay as they are and
/// the run never inspects again.
proof fn lemma_pending_is_fixed(s: DownloadView, events: Seq<EventView>)
    requires
        s.wf(),
        s.stage != Stage::DetectingCapability,
        s.stage != Stage::Inspecting,
    ensures
        run(s, events).wf(),
        run(s, events).stage != Stage::DetectingCapability,
        run(s, events).stage != Stage::Inspecting,
        run(s, events).pending == s.pending,
    decreases events.len(),
{
    if events.len() > 0 {
        let before = run(s, events.drop_last());
        lemma_pending_is_fixed(s, events.drop_last());
        lemma_next_preserves_wf(before, events.last());
        lemma_only_pending_chunks_are_fetched(before, events.last());
        lemma_stages_follow_in_order(before, events.last());
    }
}

/// A chunk whose marker exists when the disk is inspected is not fetched in
/// the run: whatever the run is told after the inspection, no action that it
/// answers with launches a fetch of that chunk.
pub proof fn lemma_marked_chunk_is_never_fetched(
    s: DownloadView,
    parts: Seq<bool>,
    markers: Seq<bool>,
    index: usize,
    later: Seq<EventView>,
    event: EventView,
)
    requires
        s.wf(),
        s.stage == Stage::Inspecting,
        parts.len() == s.planned,
        markers.len() == s.planned,
        index < s.planned,
        markers[index as int],
    ensures
        !launches(run(s.next(EventView::Inspected { parts, markers }).0, later).next(event).1, index),
{
    let inspected = s.next(EventView::Inspected { parts, markers }).0;
    lemma_next_preserves_wf(s, EventView::Inspected { parts, markers });
    lemma_marked_chunks_are_not_pending(s, parts, markers, index as int);
    lemma_pending_is_fixed(inspected, later);
    lemma_only_pending_chunks_are_fetched(run(inspected, later), event);
}

/// Once the whole-file fallback has begun, the run asks for nothing but to
/// stop: whatever it is told, it allocates no part file, fetches no chunk
/// and makes no second request.
pub proof fn lemma_fallback_asks_for_nothing_more(
    s: DownloadView,
    events: Seq<EventView>,
    event: EventView,
)
    requires
        s.stage == Stage::WholeFileFallback,
    ensures
        run(s, events).stage == Stage::WholeFileFallback || run(s, events).stage == Stage::Done
            || run(s, events).stage == Stage::Failed,
        run(s, events).next(event).1 is Finish,
    decreases events.len(),
{
    if events.len() > 0 {
        lemma_fallback_asks_for_nothing_more(s, events.drop_last(), events.last());
    }
}

} // verus!
