//! The orchestrator of one segmented download.
//!
//! A run is a state machine. It starts by asking for the remote's size and
//! range support, unless the task states the size. Without range support the
//! whole body is fetched in one request, straight to the output path. With
//! it, the chunks are planned, the disk is inspected, part files that are
//! missing are allocated at their exact length, and the chunks without a
//! completion marker are fetched, at most `MAX_CONCURRENCY` at a time. When
//! all of them have ended the part files are merged in index order and then
//! removed with their markers. A failure at any point ends the run and leaves
//! the disk as it is.
//!
//! The machine performs no I/O. It answers each event with the next action;
//! whoever drives it carries the action out and reports what happened.

pub use crate::downloader::failure::{DownloadFailure, FetchError};
pub use crate::downloader::protocol::{Action, Event, FetchRequest, PartFile, Stage};
pub use crate::downloader::remote::{is_success_status, range_header, read_probe, supports_ranges};

use crate::downloader::failure::{failure_from, merge_failure_from, FailureView};
use crate::downloader::protocol::{files_of, requests_of, result_of};
use crate::downloader::run::{
    lemma_next_preserves_wf, marker_paths, part_paths, part_to_create, parts_to_create,
    temp_files, unset, DownloadView,
};
use crate::downloader::types::{
    chunk_count, chunk_end, chunk_start, full_but_last, lemma_chunk_in_plan, tiles, Chunk,
    DownloadTask,
};
use crate::paths::{done_marker, done_marker_path, part_file};
use crate::text::texts_of;
use vstd::prelude::*;
use vstd::string::*;

verus! {

/// Upper bound on the number of chunk fetches in flight at one time.
pub const MAX_CONCURRENCY: usize = 8;

/// The entry point of the segmented engine.
#[derive(Debug)]
pub struct DownloadManager;

/// One run of a segmented download: the task, its plan and how far the run
/// has come.
#[derive(Debug)]
pub struct Download {
    task: DownloadTask,
    stage: Stage,
    chunks: Vec<Chunk>,
    pending: Vec<usize>,
    launched: usize,
    in_flight: Vec<usize>,
    failure: Option<DownloadFailure>,
}

impl View for Download {
    type V = DownloadView;

    closed spec fn view(&self) -> DownloadView {
        DownloadView {
            url: self.task.url@,
            output: self.task.output@,
            total_size: self.task.total_size,
            chunk_size: self.task.chunk_size,
            stage: self.stage,
            planned: self.chunks@.len(),
            pending: self.pending@,
            launched: self.launched as nat,
            in_flight: self.in_flight@,
            failure: match self.failure {
                Some(failure) => Some(failure@),
                None => None,
            },
        }
    }
}

/// The positions of `flags` whose flag is not set, in ascending order.
fn unset_positions(flags: &Vec<bool>) -> (r: Vec<usize>)
    ensures
        r@ == unset(flags@, flags@.len()),
{
    let mut r: Vec<usize> = Vec::new();
    let mut i: usize = 0;
    while i < flags.len()
        invariant
            i <= flags.len(),
            r@ == unset(flags@, i as nat),
        decreases flags.len() - i,
    {
        if !flags[i] {
            r.push(i);
        }
        i += 1;
    }
    r
}

/// The first position of `x` in `values`.
fn position_of(values: &Vec<usize>, x: usize) -> (r: Option<usize>)
    ensures
        match r {
            Some(at) => values@.index_of_first(x) == Some(at as int),
            None => !values@.contains(x),
        },
{
    let mut i: usize = 0;
    while i < values.len()
        invariant
            i <= values.len(),
            forall|j: int| 0 <= j < i ==> values@[j] != x,
        decreases values.len() - i,
    {
        if values[i] == x {
            proof {
                values@.index_of_first_ensures(x);
            }
            return Some(i);
        }
        i += 1;
    }
    None
}

/// The part files to create for the plan `chunks` of `task`: those of the
/// chunks that `present` does not flag, each at its chunk's length.
fn parts_for(task: &DownloadTask, chunks: &Vec<Chunk>, present: &Vec<bool>) -> (files: Vec<
    PartFile,
>)
    requires
        forall|i: int| 0 <= i < chunks@.len() ==> task.plans(#[trigger] chunks@[i], i),
        present@.len() == chunks@.len(),
        chunks@.len() > 0 ==> chunks@.len() == task.chunk_count(),
    ensures
        files_of(files@) == parts_to_create(
            task.output@,
            task.total_size as nat,
            task.chunk_size as nat,
            present@,
            chunks@.len(),
        ),
{
    let mut files: Vec<PartFile> = Vec::new();
    let mut i: usize = 0;
    assert(files_of(files@) =~= Seq::empty());
    while i < chunks.len()
        invariant
            i <= chunks.len(),
            forall|k: int| 0 <= k < chunks@.len() ==> task.plans(#[trigger] chunks@[k], k),
            present@.len() == chunks@.len(),
            chunks@.len() > 0 ==> chunks@.len() == task.chunk_count(),
            files_of(files@) == parts_to_create(
                task.output@,
                task.total_size as nat,
                task.chunk_size as nat,
                present@,
                i as nat,
            ),
        decreases chunks.len() - i,
    {
        if !present[i] {
            let chunk = &chunks[i];
            proof {
                assert(task.plans(chunks@[i as int], i as int));
                lemma_chunk_in_plan(task.total_size as nat, task.chunk_size as nat, i as nat);
                assert((i + 1) * task.chunk_size == i * task.chunk_size + task.chunk_size)
                    by (nonlinear_arith);
            }
            let len = chunk.end - chunk.start + 1;
            let ghost before = files_of(files@);
            files.push(PartFile { path: chunk.path.clone(), len });
            assert(files_of(files@) =~= before.push(
                part_to_create(
                    task.output@,
                    task.total_size as nat,
                    task.chunk_size as nat,
                    i as nat,
                ),
            ));
        }
        i += 1;
    }
    files
}

impl Download {
    /// Whether the run is in a state that it can reach: its view is
    /// well-formed and its chunks are those that the plan of its task holds.
    pub closed spec fn wf(&self) -> bool {
        &&& self@.wf()
        &&& self.has_plan()
    }

    spec fn has_plan(&self) -> bool {
        forall|i: int|
            0 <= i < self.chunks@.len() ==> self.task.plans(#[trigger] self.chunks@[i], i)
    }

    /// A run that is well-formed has a well-formed view: what is proved of
    /// every well-formed `DownloadView` holds of it. In particular it never
    /// has more fetches in flight than the concurrency cap allows.
    pub proof fn lemma_view_is_well_formed(&self)
        requires
            self.wf(),
        ensures
            self@.wf(),
            self@.in_flight.len() <= MAX_CONCURRENCY,
    {
    }

    /// Where the run stands.
    pub fn stage(&self) -> (stage: Stage)
        ensures
            stage == self@.stage,
    {
        self.stage
    }

    /// The chunks of the plan; none before the plan is made.
    pub fn chunks(&self) -> (chunks: &Vec<Chunk>)
        ensures
            chunks@.len() == self@.planned,
            self.wf() ==> forall|i: int|
                0 <= i < chunks@.len() ==> (#[trigger] chunks@[i]).index == i && chunks@[i].path@
                    == part_file(self@.output, i as nat) && chunks@[i].start == chunk_start(
                    self@.chunk_size as nat,
                    i as nat,
                ) && chunks@[i].end == chunk_end(
                    self@.total_size as nat,
                    self@.chunk_size as nat,
                    i as nat,
                ) && chunks@[i].downloaded == 0,
    {
        proof {
            if self.wf() {
                assert forall|i: int| 0 <= i < self.chunks@.len() implies (
                #[trigger] self.chunks@[i]).index == i by {
                    assert(self.task.plans(self.chunks@[i], i));
                }
            }
        }
        &self.chunks
    }

    fn fail(&mut self, failure: DownloadFailure) -> (action: Action)
        ensures
            (final(self)@, action@) == old(self)@.fail(failure@),
            final(self).chunks == old(self).chunks,
            final(self).task == old(self).task,
    {
        self.stage = Stage::Failed;
        Action::Finish(Err(failure))
    }

    fn succeed(&mut self) -> (action: Action)
        ensures
            (final(self)@, action@) == old(self)@.succeed(),
            final(self).chunks == old(self).chunks,
            final(self).task == old(self).task,
    {
        self.stage = Stage::Done;
        Action::Finish(Ok(()))
    }

    fn part_paths(&self) -> (paths: Vec<String>)
        requires
            self.has_plan(),
        ensures
            texts_of(paths@) == part_paths(self@.output, self@.planned),
    {
        let mut paths: Vec<String> = Vec::new();
        let mut i: usize = 0;
        while i < self.chunks.len()
            invariant
                i <= self.chunks.len(),
                self.has_plan(),
                paths@.len() == i,
                forall|j: int| 0 <= j < i ==> (#[trigger] paths@[j])@ == part_file(
                    self.task.output@,
                    j as nat,
                ),
            decreases self.chunks.len() - i,
        {
            assert(self.task.plans(self.chunks@[i as int], i as int));
            paths.push(self.chunks[i].path.clone());
            i += 1;
        }
        assert(texts_of(paths@) =~= part_paths(self@.output, self@.planned));
        paths
    }

    fn marker_paths(&self) -> (paths: Vec<String>)
        requires
            self.has_plan(),
        ensures
            texts_of(paths@) == marker_paths(self@.output, self@.planned),
    {
        let mut paths: Vec<String> = Vec::new();
        let mut i: usize = 0;
        while i < self.chunks.len()
            invariant
                i <= self.chunks.len(),
                self.has_plan(),
                paths@.len() == i,
                forall|j: int| 0 <= j < i ==> (#[trigger] paths@[j])@ == done_marker(
                    part_file(self.task.output@, j as nat),
                ),
            decreases self.chunks.len() - i,
        {
            assert(self.task.plans(self.chunks@[i as int], i as int));
            paths.push(done_marker_path(self.chunks[i].path.as_str()));
            i += 1;
        }
        assert(texts_of(paths@) =~= marker_paths(self@.output, self@.planned));
        paths
    }

    fn temp_files(&self) -> (paths: Vec<String>)
        requires
            self.has_plan(),
        ensures
            texts_of(paths@) == temp_files(self@.output, self@.planned),
    {
        let mut paths: Vec<String> = Vec::new();
        let mut i: usize = 0;
        while i < self.chunks.len()
            invariant
                i <= self.chunks.len(),
                self.has_plan(),
                paths@.len() == 2 * i,
                forall|j: int| 0 <= j < 2 * i ==> (#[trigger] paths@[j])@ == temp_files(
                    self.task.output@,
                    self.chunks@.len(),
                )[j],
            decreases self.chunks.len() - i,
        {
            assert(self.task.plans(self.chunks@[i as int], i as int));
            paths.push(self.chunks[i].path.clone());
            paths.push(done_marker_path(self.chunks[i].path.as_str()));
            i += 1;
        }
        assert(texts_of(paths@) =~= temp_files(self@.output, self@.planned));
        paths
    }

    fn missing_parts(&self, present: &Vec<bool>) -> (files: Vec<PartFile>)
        requires
            self.has_plan(),
            present@.len() == self.chunks@.len(),
            self@.planned > 0 ==> self@.planned == chunk_count(
                self@.total_size as nat,
                self@.chunk_size as nat,
            ),
        ensures
            files_of(files@) == self@.missing_parts(present@, self@.planned),
    {
        parts_for(&self.task, &self.chunks, present)
    }

    fn request(&self, index: usize) -> (request: FetchRequest)
        requires
            self.has_plan(),
            index < self.chunks@.len(),
        ensures
            request@ == self@.request(index),
    {
        let chunk = &self.chunks[index];
        assert(self.task.plans(self.chunks@[index as int], index as int));
        FetchRequest {
            index,
            url: self.task.url.clone(),
            range: range_header(chunk.start, chunk.end),
            path: chunk.path.clone(),
            marker: done_marker_path(chunk.path.as_str()),
        }
    }

    fn plan(&mut self) -> (action: Action)
        ensures
            (final(self)@, action@) == (DownloadView { planned: 0, ..old(self)@ }).plan(),
            final(self).has_plan(),
            final(self).task == old(self).task,
    {
        self.chunks = Vec::new();
        if !self.task.plan_fits() {
            return self.fail(DownloadFailure::TooManyChunks);
        }
        self.chunks = self.task.create_chunks();
        self.stage = Stage::Inspecting;
        let parts = self.part_paths();
        let markers = self.marker_paths();
        Action::Inspect { parts, markers }
    }

    fn merge(&mut self) -> (action: Action)
        requires
            old(self).has_plan(),
        ensures
            (final(self)@, action@) == old(self)@.merge(),
            final(self).chunks == old(self).chunks,
            final(self).task == old(self).task,
    {
        self.stage = Stage::Merging;
        Action::Merge { parts: self.part_paths(), output: self.task.output.clone() }
    }

    fn launch_first(&mut self) -> (action: Action)
        requires
            old(self).wf(),
            old(self)@.launched == 0,
            old(self)@.in_flight.len() == 0,
        ensures
            (final(self)@, action@) == old(self)@.launch_first(),
            final(self).chunks == old(self).chunks,
            final(self).task == old(self).task,
    {
        if self.pending.len() == 0 {
            return self.merge();
        }
        let k: usize = if self.pending.len() < MAX_CONCURRENCY {
            self.pending.len()
        } else {
            MAX_CONCURRENCY
        };
        let mut launch: Vec<FetchRequest> = Vec::new();
        let mut first: Vec<usize> = Vec::new();
        let mut j: usize = 0;
        while j < k
            invariant
                j <= k <= self.pending.len(),
                self.wf(),
                *self == *old(self),
                first@ == self.pending@.take(j as int),
                launch@.len() == j,
                requests_of(launch@) == self@.requests(self.pending@.take(j as int)),
            decreases k - j,
        {
            let index = self.pending[j];
            let ghost before = requests_of(launch@);
            launch.push(self.request(index));
            first.push(index);
            assert(first@ =~= self.pending@.take(j + 1));
            proof {
                let now = requests_of(launch@);
                let goal = self@.requests(self.pending@.take(j + 1));
                assert(now.len() == goal.len());
                assert forall|i: int| 0 <= i < now.len() implies now[i] == goal[i] by {
                    if i < j {
                        assert(now[i] == before[i]);
                        assert(self.pending@.take(j as int)[i] == self.pending@.take(j + 1)[i]);
                    }
                }
                assert(now =~= goal);
            }
            j += 1;
        }
        self.stage = Stage::SegmentedDownload;
        self.launched = k;
        self.in_flight = first;
        Action::Fetch { launch }
    }

    fn chunk_finished(&mut self, index: usize, result: Result<(), FetchError>) -> (action: Action)
        requires
            old(self).wf(),
            old(self)@.stage == Stage::SegmentedDownload,
        ensures
            (final(self)@, action@) == old(self)@.chunk_finished(index, result_of(result)),
            final(self).chunks == old(self).chunks,
            final(self).task == old(self).task,
    {
        let at = match position_of(&self.in_flight, index) {
            Some(at) => at,
            None => {
                return self.fail(DownloadFailure::OutOfSequence);
            },
        };
        proof {
            self.in_flight@.index_of_first_ensures(index);
        }
        self.in_flight.remove(at);
        if self.failure.is_none() {
            if let Err(cause) = result {
                self.failure = Some(DownloadFailure::Chunk { index, cause });
            }
        }
        if self.launched < self.pending.len() {
            let next = self.pending[self.launched];
            self.launched = self.launched + 1;
            self.in_flight.push(next);
            let mut launch: Vec<FetchRequest> = Vec::new();
            launch.push(self.request(next));
            assert(requests_of(launch@) =~= seq![old(self)@.request(next)]);
            Action::Fetch { launch }
        } else if self.in_flight.len() > 0 {
            let launch: Vec<FetchRequest> = Vec::new();
            assert(requests_of(launch@) =~= Seq::empty());
            Action::Fetch { launch }
        } else {
            match self.failure.take() {
                Some(failure) => self.fail(failure),
                None => self.merge(),
            }
        }
    }

    /// Takes in what the driver reports and answers with the next action.
    ///
    /// The answer is `next` of the state and the event: see there for each
    /// stage. An event that the current stage does not await ends the run
    /// with `OutOfSequence`.
    pub fn step(&mut self, event: Event) -> (action: Action)
        requires
            old(self).wf(),
        ensures
            final(self).wf(),
            (final(self)@, action@) == old(self)@.next(event@),
    {
        proof {
            lemma_next_preserves_wf(self@, event@);
        }
        match self.stage {
            Stage::DetectingCapability => match event {
                Event::Probed { status, content_length, accept_ranges } => {
                    match read_probe(status, &content_length, &accept_ranges) {
                        Ok((size, ranges)) => {
                            self.task.total_size = size;
                            if ranges {
                                self.plan()
                            } else {
                                self.stage = Stage::WholeFileFallback;
                                Action::FetchWhole {
                                    url: self.task.url.clone(),
                                    output: self.task.output.clone(),
                                }
                            }
                        },
                        Err(failure) => self.fail(failure),
                    }
                },
                Event::Failed(cause) => self.fail(failure_from(cause)),
                _ => self.fail(DownloadFailure::OutOfSequence),
            },
            Stage::WholeFileFallback => match event {
                Event::Completed => self.succeed(),
                Event::Failed(cause) => self.fail(failure_from(cause)),
                _ => self.fail(DownloadFailure::OutOfSequence),
            },
            Stage::Inspecting => match event {
                Event::Inspected { parts, markers } => {
                    if parts.len() == self.chunks.len() && markers.len() == self.chunks.len() {
                        let files = self.missing_parts(&parts);
                        self.pending = unset_positions(&markers);
                        self.stage = Stage::Allocating;
                        Action::Allocate { files }
                    } else {
                        self.fail(DownloadFailure::OutOfSequence)
                    }
                },
                Event::Failed(cause) => self.fail(failure_from(cause)),
                _ => self.fail(DownloadFailure::OutOfSequence),
            },
            Stage::Allocating => match event {
                Event::Completed => self.launch_first(),
                Event::Failed(cause) => self.fail(failure_from(cause)),
                _ => self.fail(DownloadFailure::OutOfSequence),
            },
            Stage::SegmentedDownload => match event {
                Event::ChunkFinished { index, result } => self.chunk_finished(index, result),
                _ => self.fail(DownloadFailure::OutOfSequence),
            },
            Stage::Merging => match event {
                Event::Completed => {
                    self.stage = Stage::Cleanup;
                    Action::Cleanup { remove: self.temp_files() }
                },
                Event::Failed(cause) => self.fail(merge_failure_from(cause)),
                _ => self.fail(DownloadFailure::OutOfSequence),
            },
            Stage::Cleanup => match event {
                Event::Completed => self.succeed(),
                Event::Failed(cause) => self.fail(failure_from(cause)),
                _ => self.fail(DownloadFailure::OutOfSequence),
            },
            Stage::Done => Action::Finish(Err(DownloadFailure::OutOfSequence)),
            Stage::Failed => self.fail(DownloadFailure::OutOfSequence),
        }
    }
}

impl DownloadManager {
    /// A manager. It holds no state: each run has its own.
    pub fn new() -> (r: Self) {
        Self
    }

    /// Plans the chunks of `task`.
    ///
    /// The plan is that of `create_chunks`. Where it has more chunks than a
    /// `Vec` can hold, no plan is made and `TooManyChunks` is returned. Which
    /// part files are to be created for the plan, `allocations` tells.
    pub fn prepare(&self, task: &DownloadTask) -> (r: Result<Vec<Chunk>, DownloadFailure>)
        ensures
            match r {
                Ok(chunks) => {
                    &&& task.chunk_count() <= usize::MAX
                    &&& task.is_plan(chunks@)
                    &&& task.total_size > 0 && task.chunk_size > 0 ==> tiles(
                        chunks@,
                        task.total_size as nat,
                    ) && full_but_last(chunks@, task.chunk_size as nat)
                },
                Err(failure) => task.chunk_count() > usize::MAX && failure@
                    == FailureView::TooManyChunks,
            },
    {
        if task.plan_fits() {
            Ok(task.create_chunks())
        } else {
            Err(DownloadFailure::TooManyChunks)
        }
    }

    /// Tells which part files to create before the chunks of `task` are
    /// fetched, given which of them are there: `present[i]` says whether the
    /// part file of chunk `i` exists.
    ///
    /// The answer holds, in index order, the part file of each chunk that has
    /// none, at the exact length of the chunk: `end - start + 1` bytes. A part
    /// file that exists is not in it and so is left as it is. A plan that
    /// does not fit in memory gives `TooManyChunks`; flags that are not one
    /// for each chunk give `OutOfSequence`.
    pub fn allocations(&self, task: &DownloadTask, present: &Vec<bool>) -> (r: Result<
        Vec<PartFile>,
        DownloadFailure,
    >)
        ensures
            match r {
                Ok(files) => {
                    &&& task.chunk_count() <= usize::MAX
                    &&& present@.len() == task.chunk_count()
                    &&& files_of(files@) == parts_to_create(
                        task.output@,
                        task.total_size as nat,
                        task.chunk_size as nat,
                        present@,
                        task.chunk_count(),
                    )
                },
                Err(failure) => if task.chunk_count() > usize::MAX {
                    failure@ == FailureView::TooManyChunks
                } else {
                    present@.len() != task.chunk_count() && failure@ == FailureView::OutOfSequence
                },
            },
    {
        if !task.plan_fits() {
            return Err(DownloadFailure::TooManyChunks);
        }
        let chunks = task.create_chunks();
        if present.len() != chunks.len() {
            return Err(DownloadFailure::OutOfSequence);
        }
        Ok(parts_for(task, &chunks, present))
    }

    /// Begins a run of `task` and returns it with its first action.
    ///
    /// A task that states its size is taken to be served with range support:
    /// its chunks are planned at once. For any other the remote is probed
    /// first.
    pub fn start(&self, task: DownloadTask) -> (r: (Download, Action))
        ensures
            r.0.wf(),
            (r.0@, r.1@) == DownloadView::begin(
                task.url@,
                task.output@,
                task.total_size,
                task.chunk_size,
            ),
    {
        let known = task.total_size > 0;
        let mut run = Download {
            task,
            stage: Stage::DetectingCapability,
            chunks: Vec::new(),
            pending: Vec::new(),
            launched: 0,
            in_flight: Vec::new(),
            failure: None,
        };
        if known {
            let action = run.plan();
            (run, action)
        } else {
            let action = Action::Probe { url: run.task.url.clone() };
            (run, action)
        }
    }
}

} // verus!
