//! The supervisor of one stream download.
//!
//! The supervisor is a state machine. Whoever drives it performs the action it
//! asks for (spawn the process, read a line under the stall timer, kill, wait,
//! sleep, rename) and reports back what happened; the supervisor answers with
//! the next action and, where a line called for it, a progress sample.
//!
//! An attempt goes `Starting`, `Running`, `Exiting`. A process that ends with
//! status 0 leads to `Succeeded`, where the temporary file is renamed to the
//! output path, and then to `Finished`. A process that stays silent for the
//! stall timeout is killed (`StalledKill`). Every failed attempt is followed,
//! after a backoff that doubles each time (`Backoff`), by a new attempt while
//! restarts are on and fewer than `max_restarts` attempts were made; else the
//! failure ends the run.

use crate::ffmpeg::params::{DownloadError, DownloadOptions, Entries, ErrorView, FfmpegProgress};
use crate::ffmpeg::progress::{sample_after, sample_emitted, ProgressParser};
use crate::paths::{temp_output, temp_output_path};
use crate::text::texts_of;
use std::time::Duration;
use vstd::prelude::*;
use vstd::string::*;

verus! {

/// 2 to the power `n`.
pub open spec fn two_to(n: nat) -> nat
    decreases n,
{
    if n == 0 {
        1
    } else {
        2 * two_to((n - 1) as nat)
    }
}

/// Seconds to wait after failed attempt number `attempt`: 2 to the power
/// `attempt`, or the largest 64-bit number where that does not fit.
pub open spec fn backoff_seconds(attempt: nat) -> u64 {
    if two_to(attempt) <= u64::MAX {
        two_to(attempt) as u64
    } else {
        u64::MAX
    }
}

/// Powers of two grow with the exponent.
pub proof fn lemma_two_to_grows(a: nat, b: nat)
    requires
        a <= b,
    ensures
        two_to(a) <= two_to(b),
        two_to(a) >= 1,
    decreases b,
{
    if a < b {
        lemma_two_to_grows(a, (b - 1) as nat);
    } else if a > 0 {
        lemma_two_to_grows((a - 1) as nat, (a - 1) as nat);
    }
}

/// The backoff after failed attempt number `attempt`, in seconds.
pub fn backoff(attempt: usize) -> (seconds: u64)
    ensures
        seconds == backoff_seconds(attempt as nat),
{
    let mut seconds: u64 = 1;
    let mut i: usize = 0;
    while i < attempt
        invariant
            i <= attempt,
            seconds == two_to(i as nat),
        decreases attempt - i,
    {
        if seconds > u64::MAX / 2 {
            proof {
                lemma_two_to_grows((i + 1) as nat, attempt as nat);
            }
            return u64::MAX;
        }
        seconds = seconds * 2;
        i += 1;
    }
    seconds
}

/// The arguments that make the process overwrite `target` with a copy of the
/// stream at `input_url`, without re-encoding, and write its progress records
/// to standard output in place of its usual statistics.
pub open spec fn stream_copy_args(input_url: Seq<char>, target: Seq<char>) -> Seq<Seq<char>> {
    seq![
        "-y"@,
        "-i"@,
        input_url,
        "-c"@,
        "copy"@,
        "-progress"@,
        "pipe:1"@,
        "-nostats"@,
        target,
    ]
}

/// Builds the argument list of one stream copy from `input_url` to `target`.
pub fn ffmpeg_args(input_url: &str, target: &str) -> (args: Vec<String>)
    ensures
        texts_of(args@) == stream_copy_args(input_url@, target@),
{
    let mut args: Vec<String> = Vec::new();
    args.push(String::from_str("-y"));
    args.push(String::from_str("-i"));
    args.push(String::from_str(input_url));
    args.push(String::from_str("-c"));
    args.push(String::from_str("copy"));
    args.push(String::from_str("-progress"));
    args.push(String::from_str("pipe:1"));
    args.push(String::from_str("-nostats"));
    args.push(String::from_str(target));
    assert(texts_of(args@) =~= stream_copy_args(input_url@, target@));
    args
}

/// Where a stream download stands.
#[derive(Debug, Clone, Copy, PartialEq, Eq, Structural)]
pub enum Phase {
    /// An attempt was launched; the process is not known to run yet.
    Starting,
    /// The process runs and its progress lines are read.
    Running,
    /// The progress stream has ended; the exit status is awaited.
    Exiting,
    /// The attempt failed while the process ran; the process is being killed.
    StalledKill,
    /// An attempt failed and another will follow once the backoff is over.
    Backoff,
    /// The process ended with status 0; the output is being renamed.
    Succeeded,
    /// The run is over.
    Finished,
}

/// What the driver reports to the supervisor.
#[derive(Debug)]
pub enum StreamEvent {
    /// The process was spawned.
    Spawned,
    /// The process could not be spawned.
    SpawnFailed(std::io::Error),
    /// The attempt could not be set up, for the reason given in words: the
    /// path to write to cannot be handed to the process, or its output
    /// cannot be read.
    SetupFailed(String),
    /// The process wrote this line to its progress stream.
    Line(String),
    /// The progress stream has ended.
    EndOfStream,
    /// Reading the progress stream failed.
    ReadFailed(std::io::Error),
    /// No line arrived within the stall timeout.
    StallTimeout,
    /// The kill was carried out, whether or not it took effect.
    Killed,
    /// The process has exited: whether with success, and with which status,
    /// if it has one.
    Exited { success: bool, code: Option<i32> },
    /// Waiting for the process failed.
    WaitFailed(std::io::Error),
    /// The backoff is over.
    BackoffElapsed,
    /// The temporary file now stands under the output path.
    Renamed,
    /// The temporary file could not be renamed.
    RenameFailed(std::io::Error),
}

/// What the supervisor asks the driver to do next.
#[derive(Debug)]
pub enum StreamAction {
    /// Spawn `program` with `args`, standard output and error piped.
    Spawn { program: String, args: Vec<String> },
    /// Read the next progress line, giving up after `timeout`.
    ReadLine { timeout: Duration },
    /// Kill the process.
    Kill,
    /// Wait for the process to exit.
    Wait,
    /// Sleep for `seconds` seconds.
    Sleep { seconds: u64 },
    /// Rename the file `from` to `to`.
    Rename { from: String, to: String },
    /// Stop: the run ended with this result.
    Finish(Result<(), DownloadError>),
}

/// The supervisor's answer to one event.
#[derive(Debug)]
pub struct StreamStep {
    /// The progress sample to hand to the observer, if any.
    pub emit: Option<FfmpegProgress>,
    /// What to do next.
    pub action: StreamAction,
}

/// An event with its text in place of its strings.
pub enum EventView {
    Spawned,
    SpawnFailed(std::io::Error),
    SetupFailed(Seq<char>),
    Line(Seq<char>),
    EndOfStream,
    ReadFailed(std::io::Error),
    StallTimeout,
    Killed,
    Exited { success: bool, code: Option<i32> },
    WaitFailed(std::io::Error),
    BackoffElapsed,
    Renamed,
    RenameFailed(std::io::Error),
}

impl View for StreamEvent {
    type V = EventView;

    open spec fn view(&self) -> EventView {
        match *self {
            StreamEvent::Spawned => EventView::Spawned,
            StreamEvent::SpawnFailed(error) => EventView::SpawnFailed(error),
            StreamEvent::SetupFailed(reason) => EventView::SetupFailed(reason@),
            StreamEvent::Line(line) => EventView::Line(line@),
            StreamEvent::EndOfStream => EventView::EndOfStream,
            StreamEvent::ReadFailed(error) => EventView::ReadFailed(error),
            StreamEvent::StallTimeout => EventView::StallTimeout,
            StreamEvent::Killed => EventView::Killed,
            StreamEvent::Exited { success, code } => EventView::Exited { success, code },
            StreamEvent::WaitFailed(error) => EventView::WaitFailed(error),
            StreamEvent::BackoffElapsed => EventView::BackoffElapsed,
            StreamEvent::Renamed => EventView::Renamed,
            StreamEvent::RenameFailed(error) => EventView::RenameFailed(error),
        }
    }
}

/// An action with its text in place of its strings.
pub enum ActionView {
    Spawn { program: Seq<char>, args: Seq<Seq<char>> },
    ReadLine { timeout: Duration },
    Kill,
    Wait,
    Sleep { seconds: u64 },
    Rename { from: Seq<char>, to: Seq<char> },
    Finish(Result<(), ErrorView>),
}

impl View for StreamAction {
    type V = ActionView;

    open spec fn view(&self) -> ActionView {
        match *self {
            StreamAction::Spawn { program, args } => ActionView::Spawn {
                program: program@,
                args: texts_of(args@),
            },
            StreamAction::ReadLine { timeout } => ActionView::ReadLine { timeout },
            StreamAction::Kill => ActionView::Kill,
            StreamAction::Wait => ActionView::Wait,
            StreamAction::Sleep { seconds } => ActionView::Sleep { seconds },
            StreamAction::Rename { from, to } => ActionView::Rename { from: from@, to: to@ },
            StreamAction::Finish(result) => ActionView::Finish(
                match result {
                    Ok(_) => Ok(()),
                    Err(error) => Err(error@),
                },
            ),
        }
    }
}

/// A step with its text in place of its strings.
pub struct StepView {
    pub emit: Option<Entries>,
    pub action: ActionView,
}

impl View for StreamStep {
    type V = StepView;

    open spec fn view(&self) -> StepView {
        StepView {
            emit: match self.emit {
                Some(progress) => Some(progress@),
                None => None,
            },
            action: self.action@,
        }
    }
}

/// The state of one stream download.
#[derive(Debug)]
pub struct StreamSupervisor {
    /// The stream to copy.
    pub input_url: String,
    /// The path under which the finished copy appears.
    pub output: String,
    /// The path that the process writes to.
    pub temp: String,
    /// Stall timeout and restart policy.
    pub options: DownloadOptions,
    /// Where the run stands.
    pub phase: Phase,
    /// Number of attempts launched so far.
    pub attempts: usize,
    /// The parser of the current attempt's progress stream.
    pub parser: ProgressParser,
    /// The failure of the current attempt, kept while the process is killed.
    pub pending: Option<DownloadError>,
}

/// The supervisor's state with its text in place of its strings.
pub struct SupervisorView {
    pub input_url: Seq<char>,
    pub output: Seq<char>,
    pub temp: Seq<char>,
    pub options: DownloadOptions,
    pub phase: Phase,
    pub attempts: usize,
    pub sample: Entries,
    pub pending: Option<ErrorView>,
}

impl View for StreamSupervisor {
    type V = SupervisorView;

    open spec fn view(&self) -> SupervisorView {
        SupervisorView {
            input_url: self.input_url@,
            output: self.output@,
            temp: self.temp@,
            options: self.options,
            phase: self.phase,
            attempts: self.attempts,
            sample: self.parser@,
            pending: match self.pending {
                Some(error) => Some(error@),
                None => None,
            },
        }
    }
}

/// The program that copies the stream.
pub open spec fn program_name() -> Seq<char> {
    "ffmpeg"@
}

/// The words in which a stall is reported.
pub open spec fn stall_message() -> Seq<char> {
    "blocage détecté"@
}

/// The words in which an event is refused that the current phase does not
/// await.
pub open spec fn out_of_sequence_message() -> Seq<char> {
    "événement inattendu dans cette phase"@
}

/// The failure that a stall is reported as.
pub open spec fn stall_error() -> ErrorView {
    ErrorView::Other(stall_message())
}

/// The failure that a process's exit is reported as: its status, or -1 where
/// it has none.
pub open spec fn exit_error(code: Option<i32>) -> ErrorView {
    ErrorView::FfmpegExit(
        match code {
            Some(code) => code,
            None => -1i32,
        },
    )
}

impl SupervisorView {
    /// Whether a failed attempt is followed by another.
    pub open spec fn may_restart(self) -> bool {
        self.options.auto_restart && self.attempts < self.options.max_restarts
    }

    /// The step that launches an attempt.
    pub open spec fn spawn_step(self) -> StepView {
        StepView {
            emit: None,
            action: ActionView::Spawn {
                program: program_name(),
                args: stream_copy_args(self.input_url, self.temp),
            },
        }
    }

    /// The step that reads the next line under the stall timer.
    pub open spec fn read_step(self, emit: Option<Entries>) -> StepView {
        StepView { emit, action: ActionView::ReadLine { timeout: self.options.stall_timeout } }
    }

    /// The step that ends the run with `result`.
    pub open spec fn finish(self, result: Result<(), ErrorView>) -> (SupervisorView, StepView) {
        (
            SupervisorView { phase: Phase::Finished, pending: None, ..self },
            StepView { emit: None, action: ActionView::Finish(result) },
        )
    }

    /// What follows an attempt that failed with `failure`: a backoff and then
    /// a new attempt while restarts are allowed, else the end of the run with
    /// that failure.
    pub open spec fn restart_or_fail(self, failure: ErrorView) -> (SupervisorView, StepView) {
        if self.may_restart() {
            (
                SupervisorView { phase: Phase::Backoff, pending: None, ..self },
                StepView {
                    emit: None,
                    action: ActionView::Sleep { seconds: backoff_seconds(self.attempts as nat) },
                },
            )
        } else {
            self.finish(Err(failure))
        }
    }

    /// What follows a failure while the process runs: the process is killed
    /// first, and the failure is kept until that is done.
    pub open spec fn kill_for(self, failure: ErrorView) -> (SupervisorView, StepView) {
        (
            SupervisorView { phase: Phase::StalledKill, pending: Some(failure), ..self },
            StepView { emit: None, action: ActionView::Kill },
        )
    }

    /// The state and the step that follow `event`.
    pub open spec fn next(self, event: EventView) -> (SupervisorView, StepView) {
        match (self.phase, event) {
            (Phase::Starting, EventView::Spawned) => (
                SupervisorView { phase: Phase::Running, ..self },
                self.read_step(None),
            ),
            (Phase::Starting, EventView::SpawnFailed(error)) => self.restart_or_fail(
                ErrorView::Io(error),
            ),
            (Phase::Starting, EventView::SetupFailed(reason)) => self.restart_or_fail(
                ErrorView::Other(reason),
            ),
            (Phase::Running, EventView::Line(line)) => (
                SupervisorView { sample: sample_after(self.sample, line), ..self },
                self.read_step(sample_emitted(self.sample, line)),
            ),
            (Phase::Running, EventView::EndOfStream) => (
                SupervisorView { phase: Phase::Exiting, ..self },
                StepView { emit: None, action: ActionView::Wait },
            ),
            (Phase::Running, EventView::ReadFailed(error)) => self.kill_for(ErrorView::Io(error)),
            (Phase::Running, EventView::StallTimeout) => self.kill_for(stall_error()),
            (Phase::StalledKill, EventView::Killed) => self.restart_or_fail(
                match self.pending {
                    Some(failure) => failure,
                    None => stall_error(),
                },
            ),
            (Phase::Exiting, EventView::Exited { success, code }) => if success {
                (
                    SupervisorView { phase: Phase::Succeeded, sample: Seq::empty(), ..self },
                    StepView {
                        emit: if self.sample.len() > 0 {
                            Some(self.sample)
                        } else {
                            None
                        },
                        action: ActionView::Rename { from: self.temp, to: self.output },
                    },
                )
            } else {
                self.restart_or_fail(exit_error(code))
            },
            (Phase::Exiting, EventView::WaitFailed(error)) => self.restart_or_fail(
                ErrorView::Io(error),
            ),
            (Phase::Backoff, EventView::BackoffElapsed) => if self.attempts < usize::MAX {
                (
                    SupervisorView {
                        phase: Phase::Starting,
                        attempts: (self.attempts + 1) as usize,
                        sample: Seq::empty(),
                        ..self
                    },
                    self.spawn_step(),
                )
            } else {
                self.finish(Err(ErrorView::Other(out_of_sequence_message())))
            },
            (Phase::Succeeded, EventView::Renamed) => self.finish(Ok(())),
            (Phase::Succeeded, EventView::RenameFailed(error)) => self.finish(
                Err(ErrorView::Io(error)),
            ),
            _ => self.finish(Err(ErrorView::Other(out_of_sequence_message()))),
        }
    }
}

impl StreamSupervisor {
    /// Begins a stream download of `input_url` to `output`: the first attempt
    /// is launched, writing to the temporary path beside `output`.
    pub fn start(input_url: &str, output: &str, options: DownloadOptions) -> (r: (Self, StreamStep))
        ensures
            r.0@ == (SupervisorView {
                input_url: input_url@,
                output: output@,
                temp: temp_output(output@),
                options,
                phase: Phase::Starting,
                attempts: 1,
                sample: Seq::empty(),
                pending: None,
            }),
            r.0@.within_limits(),
            r.1@ == r.0@.spawn_step(),
    {
        let temp = temp_output_path(output);
        let supervisor = StreamSupervisor {
            input_url: String::from_str(input_url),
            output: String::from_str(output),
            temp,
            options,
            phase: Phase::Starting,
            attempts: 1,
            parser: ProgressParser::new(),
            pending: None,
        };
        let step = supervisor.spawn();
        (supervisor, step)
    }

    fn spawn(&self) -> (step: StreamStep)
        ensures
            step@ == self@.spawn_step(),
    {
        StreamStep {
            emit: None,
            action: StreamAction::Spawn {
                program: String::from_str("ffmpeg"),
                args: ffmpeg_args(self.input_url.as_str(), self.temp.as_str()),
            },
        }
    }

    fn read(&self, emit: Option<FfmpegProgress>) -> (step: StreamStep)
        ensures
            step@ == self@.read_step(
                match emit {
                    Some(progress) => Some(progress@),
                    None => None,
                },
            ),
    {
        StreamStep { emit, action: StreamAction::ReadLine { timeout: self.options.stall_timeout } }
    }

    fn finish(&mut self, result: Result<(), DownloadError>) -> (step: StreamStep)
        ensures
            (final(self)@, step@) == old(self)@.finish(
                match result {
                    Ok(_) => Ok(()),
                    Err(error) => Err(error@),
                },
            ),
    {
        self.phase = Phase::Finished;
        self.pending = None;
        StreamStep { emit: None, action: StreamAction::Finish(result) }
    }

    fn restart_or_fail(&mut self, failure: DownloadError) -> (step: StreamStep)
        ensures
            (final(self)@, step@) == old(self)@.restart_or_fail(failure@),
    {
        if self.options.auto_restart && self.attempts < self.options.max_restarts {
            self.phase = Phase::Backoff;
            self.pending = None;
            StreamStep { emit: None, action: StreamAction::Sleep { seconds: backoff(self.attempts) } }
        } else {
            self.finish(Err(failure))
        }
    }

    fn kill_for(&mut self, failure: DownloadError) -> (step: StreamStep)
        ensures
            (final(self)@, step@) == old(self)@.kill_for(failure@),
    {
        self.phase = Phase::StalledKill;
        self.pending = Some(failure);
        StreamStep { emit: None, action: StreamAction::Kill }
    }

    fn refuse(&mut self) -> (step: StreamStep)
        ensures
            (final(self)@, step@) == old(self)@.finish(
                Err(ErrorView::Other(out_of_sequence_message())),
            ),
    {
        self.finish(
            Err(DownloadError::Other(String::from_str("événement inattendu dans cette phase"))),
        )
    }

    /// Takes in what the driver reports and answers with the next action.
    ///
    /// The answer is `next` of the state and the event: see there for each
    /// phase. An event that the current phase does not await ends the run
    /// with an error.
    pub fn step(&mut self, event: StreamEvent) -> (step: StreamStep)
        ensures
            (final(self)@, step@) == old(self)@.next(event@),
    {
        match self.phase {
            Phase::Starting => match event {
                StreamEvent::Spawned => {
                    self.phase = Phase::Running;
                    self.read(None)
                },
                StreamEvent::SpawnFailed(error) => self.restart_or_fail(DownloadError::Io(error)),
                StreamEvent::SetupFailed(reason) => self.restart_or_fail(
                    DownloadError::Other(reason),
                ),
                _ => self.refuse(),
            },
            Phase::Running => match event {
                StreamEvent::Line(line) => {
                    let emit = self.parser.feed(line.as_str());
                    self.read(emit)
                },
                StreamEvent::EndOfStream => {
                    self.phase = Phase::Exiting;
                    StreamStep { emit: None, action: StreamAction::Wait }
                },
                StreamEvent::ReadFailed(error) => self.kill_for(DownloadError::Io(error)),
                StreamEvent::StallTimeout => self.kill_for(
                    DownloadError::Other(String::from_str("blocage détecté")),
                ),
                _ => self.refuse(),
            },
            Phase::StalledKill => match event {
                StreamEvent::Killed => {
                    let failure = match self.pending.take() {
                        Some(failure) => failure,
                        None => DownloadError::Other(String::from_str("blocage détecté")),
                    };
                    self.restart_or_fail(failure)
                },
                _ => self.refuse(),
            },
            Phase::Exiting => match event {
                StreamEvent::Exited { success, code } => {
                    if success {
                        let mut parser = ProgressParser::new();
                        std::mem::swap(&mut self.parser, &mut parser);
                        self.phase = Phase::Succeeded;
                        StreamStep {
                            emit: parser.finish(),
                            action: StreamAction::Rename {
                                from: self.temp.clone(),
                                to: self.output.clone(),
                            },
                        }
                    } else {
                        let code = match code {
                            Some(code) => code,
                            None => -1,
                        };
                        self.restart_or_fail(DownloadError::FfmpegExit(code))
                    }
                },
                StreamEvent::WaitFailed(error) => self.restart_or_fail(DownloadError::Io(error)),
                _ => self.refuse(),
            },
            Phase::Backoff => match event {
                StreamEvent::BackoffElapsed => {
                    if self.attempts < usize::MAX {
                        self.attempts = self.attempts + 1;
                        self.parser = ProgressParser::new();
                        self.phase = Phase::Starting;
                        self.spawn()
                    } else {
                        self.refuse()
                    }
                },
                _ => self.refuse(),
            },
            Phase::Succeeded => match event {
                StreamEvent::Renamed => self.finish(Ok(())),
                StreamEvent::RenameFailed(error) => self.finish(Err(DownloadError::Io(error))),
                _ => self.refuse(),
            },
            Phase::Finished => self.refuse(),
        }
    }
}

impl SupervisorView {
    /// Whether the attempts made are within what the options allow: one
    /// attempt in any case, more only with restarts on and never more than
    /// `max_restarts`; and a backoff is only entered with an attempt left.
    pub open spec fn within_limits(self) -> bool {
        &&& self.attempts >= 1
        &&& self.attempts == 1 || (self.options.auto_restart && self.attempts
            <= self.options.max_restarts)
        &&& self.phase == Phase::Backoff ==> self.may_restart()
    }
}

/// A stall ends the attempt: when no line arrives within the stall timeout
/// the process is killed, and once it is killed the attempt has failed with
/// the stall error.
pub proof fn lemma_stall_fails_attempt(s: SupervisorView)
    requires
        s.phase == Phase::Running,
    ensures
        s.next(EventView::StallTimeout).1.action == ActionView::Kill,
        s.next(EventView::StallTimeout).0.phase == Phase::StalledKill,
        s.next(EventView::StallTimeout).0.next(EventView::Killed) == s.restart_or_fail(
            stall_error(),
        ),
{
}

/// A failed attempt is retried while attempts remain: with restarts on and
/// fewer than `max_restarts` attempts made, the supervisor sleeps for the
/// backoff of the failed attempt and then launches the next attempt from
/// scratch.
pub proof fn lemma_failed_attempt_restarts(s: SupervisorView, failure: ErrorView)
    requires
        s.options.auto_restart,
        s.attempts < s.options.max_restarts,
    ensures
        s.restart_or_fail(failure).0.phase == Phase::Backoff,
        s.restart_or_fail(failure).1.action == (ActionView::Sleep {
            seconds: backoff_seconds(s.attempts as nat),
        }),
        s.restart_or_fail(failure).0.next(EventView::BackoffElapsed).0.phase == Phase::Starting,
        s.restart_or_fail(failure).0.next(EventView::BackoffElapsed).0.attempts == s.attempts
            + 1,
        s.restart_or_fail(failure).0.next(EventView::BackoffElapsed).0.sample.len() == 0,
        s.restart_or_fail(failure).0.next(EventView::BackoffElapsed).1 == s.spawn_step(),
{
}

/// Without an attempt left the failure is final: with restarts off, or once
/// `max_restarts` attempts were made, the failure of the last attempt ends the
/// run and is handed to the caller.
pub proof fn lemma_last_failure_is_returned(s: SupervisorView, failure: ErrorView)
    requires
        !s.options.auto_restart || s.attempts >= s.options.max_restarts,
    ensures
        s.restart_or_fail(failure).0.phase == Phase::Finished,
        s.restart_or_fail(failure).1.action == ActionView::Finish(Err(failure)),
{
}

/// A finished run stays finished: whatever is reported, no process is
/// spawned and nothing is renamed any more.
pub proof fn lemma_finished_is_final(s: SupervisorView, event: EventView)
    requires
        s.phase == Phase::Finished,
    ensures
        s.next(event).0.phase == Phase::Finished,
        s.next(event).1.action is Finish,
        s.next(event).1.emit is None,
{
}

/// The number of attempts stays within the options' limits over every step.
pub proof fn lemma_attempts_stay_within_limits(s: SupervisorView, event: EventView)
    requires
        s.within_limits(),
    ensures
        s.next(event).0.within_limits(),
        s.next(event).0.options == s.options,
        s.next(event).0.attempts >= s.attempts,
{
}

/// The output path only ever appears as the target of the rename that
/// follows a successful attempt: a rename is only asked for when the process
/// has exited with success, and it is that of the temporary path to the output
/// path.
pub proof fn lemma_output_appears_by_rename_only(s: SupervisorView, event: EventView)
    requires
        s.next(event).1.action is Rename,
    ensures
        s.phase == Phase::Exiting,
        event matches EventView::Exited { success, .. } && success,
        s.next(event).1.action == (ActionView::Rename { from: s.temp, to: s.output }),
{
}

/// Whether a supervisor in phase `from` can be in phase `to` after one step.
///
/// An attempt starts, runs and exits. From there the run succeeds and
/// finishes, or the attempt has failed: then a backoff leads to the next
/// attempt, or the run finishes. A process that hangs is killed on the way.
/// Any phase can finish the run, and a finished run stays finished.
pub open spec fn may_follow(from: Phase, to: Phase) -> bool {
    to == Phase::Finished || match from {
        Phase::Starting => to == Phase::Running || to == Phase::Backoff,
        Phase::Running => to == Phase::Running || to == Phase::Exiting || to
            == Phase::StalledKill,
        Phase::Exiting => to == Phase::Succeeded || to == Phase::Backoff,
        Phase::StalledKill => to == Phase::Backoff,
        Phase::Backoff => to == Phase::Starting,
        Phase::Succeeded => false,
        Phase::Finished => false,
    }
}

/// The phases of a stream download follow each other in the one order that
/// `may_follow` gives, whatever is reported.
pub proof fn lemma_phases_follow_in_order(s: SupervisorView, event: EventView)
    ensures
        may_follow(s.phase, s.next(event).0.phase),
{
}

/// The state of a supervisor that was in state `s` and has since been told
/// `events`, one after the other.
pub open spec fn run(s: SupervisorView, events: Seq<EventView>) -> SupervisorView
    decreases events.len(),
{
    if events.len() == 0 {
        s
    } else {
        run(s, events.drop_last()).next(events.last()).0
    }
}

/// However a stream download goes, the number of attempts stays within what
/// the options allow: there is one attempt, and with restarts on there are
/// never more than `max_restarts` of them.
pub proof fn lemma_attempts_never_exceed_the_limit(s: SupervisorView, events: Seq<EventView>)
    requires
        s.within_limits(),
    ensures
        run(s, events).within_limits(),
        run(s, events).options == s.options,
        run(s, events).attempts == 1 || run(s, events).attempts <= s.options.max_restarts,
    decreases events.len(),
{
    if events.len() > 0 {
        lemma_attempts_never_exceed_the_limit(s, events.drop_last());
        lemma_attempts_stay_within_limits(run(s, events.drop_last()), events.last());
    }
}

} // verus!
