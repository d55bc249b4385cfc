use scrapes::ffmpeg::downloader::{
    backoff, ffmpeg_args, Phase, StreamAction, StreamEvent, StreamStep, StreamSupervisor,
};
use scrapes::ffmpeg::params::{DownloadError, DownloadOptions, FfmpegProgress};
use scrapes::ffmpeg::progress::ProgressParser;
use std::time::Duration;
use tokio::sync::mpsc;

fn pairs(items: &[(&str, &str)]) -> Vec<(String, String)> {
    items.iter().map(|(k, v)| (k.to_string(), v.to_string())).collect()
}

fn options(stall_millis: u64, auto_restart: bool, max_restarts: usize) -> DownloadOptions {
    DownloadOptions {
        stall_timeout: Duration::from_millis(stall_millis),
        auto_restart,
        max_restarts,
    }
}

/// Runs a supervisor against a process that never starts, and returns the
/// result with the number of attempts and the backoffs slept.
fn run_with_failing_spawn(opts: DownloadOptions) -> (Result<(), DownloadError>, usize, Vec<u64>) {
    let (mut supervisor, mut step) =
        StreamSupervisor::start("file:///nonexistent", "test_output.mp4", opts);
    let mut attempts = 0;
    let mut slept = Vec::new();
    loop {
        let event = match step.action {
            StreamAction::Spawn { .. } => {
                attempts += 1;
                StreamEvent::SpawnFailed(std::io::Error::from(std::io::ErrorKind::NotFound))
            }
            StreamAction::Sleep { seconds } => {
                slept.push(seconds);
                StreamEvent::BackoffElapsed
            }
            StreamAction::Finish(result) => return (result, attempts, slept),
            other => panic!("unexpected action {:?}", other),
        };
        step = supervisor.step(event);
    }
}

#[test]
fn test_download_options_default() {
    let opts = DownloadOptions::default();
    assert_eq!(opts.stall_timeout, Duration::from_secs(20));
    assert!(opts.auto_restart);
    assert_eq!(opts.max_restarts, 3);
}

#[test]
fn test_default_stall_timeout_is_twenty_seconds() {
    let opts = DownloadOptions::default();
    assert_eq!(opts.stall_timeout.as_secs(), 20);
    assert_eq!(opts.stall_timeout.subsec_nanos(), 0);
}

#[test]
fn test_download_with_invalid_path() {
    let opts = DownloadOptions {
        stall_timeout: Duration::from_secs(1),
        auto_restart: false,
        max_restarts: 0,
    };

    let (result, attempts, slept) = run_with_failing_spawn(opts);

    assert!(result.is_err());
    assert_eq!(attempts, 1);
    assert!(slept.is_empty());
}

#[test]
fn test_retry_logic_with_auto_restart_disabled() {
    let opts = DownloadOptions {
        stall_timeout: Duration::from_millis(100),
        auto_restart: false,
        max_restarts: 3,
    };

    let (result, attempts, slept) = run_with_failing_spawn(opts);

    assert!(result.is_err());
    assert_eq!(attempts, 1);
    assert!(slept.is_empty());
}

#[test]
fn test_max_restarts_logic() {
    let opts = DownloadOptions {
        stall_timeout: Duration::from_millis(100),
        auto_restart: true,
        max_restarts: 2,
    };

    let start = std::time::Instant::now();
    let (result, attempts, slept) = run_with_failing_spawn(opts);

    let elapsed = start.elapsed();

    assert!(result.is_err());
    assert!(elapsed < Duration::from_secs(10));
    assert_eq!(attempts, 2);
    assert_eq!(slept, vec![2]);
}

#[test]
fn test_default_options_allow_three_attempts() {
    let (result, attempts, slept) = run_with_failing_spawn(DownloadOptions::default());
    assert!(matches!(result, Err(DownloadError::Io(_))));
    assert_eq!(attempts, 3);
    assert_eq!(slept, vec![2, 4]);
}

fn block_on<F: std::future::Future>(future: F) -> F::Output {
    tokio::runtime::Builder::new_current_thread().enable_all().build().unwrap().block_on(future)
}

#[test]
fn test_progress_channel_capacity() {
    block_on(async {
        let (tx, mut rx) = mpsc::channel(10);

        let progress = pairs(&[("out_time_ms", "1000"), ("progress", "continue")]);

        let ffmpeg_progress = FfmpegProgress::new(progress.clone());
        tx.send(ffmpeg_progress).await.unwrap();

        let received = rx.recv().await.unwrap();
        assert_eq!(received.get("out_time_ms"), Some(&"1000".to_string()));
        assert_eq!(received.get("progress"), Some(&"continue".to_string()));
    });
}

#[test]
fn test_download_error_types() {
    let io_error = std::io::Error::from(std::io::ErrorKind::NotFound);
    let download_error = DownloadError::Io(io_error);

    match download_error {
        DownloadError::Io(_) => {}
        _ => panic!("Devrait être une erreur IO"),
    }

    let ffmpeg_exit = DownloadError::FfmpegExit(1);
    match ffmpeg_exit {
        DownloadError::FfmpegExit(code) => assert_eq!(code, 1),
        _ => panic!("Devrait être une erreur FfmpegExit"),
    }

    let other_error = DownloadError::Other("test".into());
    match other_error {
        DownloadError::Other(msg) => assert_eq!(msg, "test"),
        _ => panic!("Devrait être une erreur Other"),
    }
}

#[test]
fn test_ffmpeg_progress_new() {
    let fields = pairs(&[("key1", "value1"), ("key2", "value2")]);

    let progress = FfmpegProgress::new(fields.clone());
    assert_eq!(progress.fields.len(), 2);
    assert_eq!(progress.get("key1"), Some(&"value1".to_string()));
    assert_eq!(progress.get("key2"), Some(&"value2".to_string()));
}

#[test]
fn test_ffmpeg_progress_get() {
    let progress = FfmpegProgress::new(pairs(&[("a", "1"), ("b", "2"), ("a", "3")]));
    assert_eq!(progress.len(), 3);
    assert!(!progress.is_empty());
    assert_eq!(progress.get("a"), Some(&"1".to_string()));
    assert_eq!(progress.get("b"), Some(&"2".to_string()));
    assert_eq!(progress.get("c"), None);
    assert_eq!(progress.get(""), None);
    assert!(FfmpegProgress::new(Vec::new()).is_empty());
}

#[test]
fn test_download_options_clone() {
    let opts1 = DownloadOptions {
        stall_timeout: Duration::from_secs(30),
        auto_restart: true,
        max_restarts: 5,
    };

    let opts2 = opts1.clone();
    assert_eq!(opts1.stall_timeout, opts2.stall_timeout);
    assert_eq!(opts1.auto_restart, opts2.auto_restart);
    assert_eq!(opts1.max_restarts, opts2.max_restarts);
}

#[test]
fn test_download_options_debug() {
    let opts = DownloadOptions::default();
    let debug_str = format!("{:?}", opts);
    assert!(!debug_str.is_empty());
}

#[test]
fn test_stall_timeout_behavior() {
    let short_timeout = Duration::from_millis(50);
    let opts = DownloadOptions {
        stall_timeout: short_timeout,
        auto_restart: false,
        max_restarts: 0,
    };

    assert_eq!(opts.stall_timeout, short_timeout);

    let (mut supervisor, _) = StreamSupervisor::start("in", "out.mp4", opts);
    let step = supervisor.step(StreamEvent::Spawned);
    match step.action {
        StreamAction::ReadLine { timeout } => assert_eq!(timeout, short_timeout),
        other => panic!("unexpected action {:?}", other),
    }
}

#[test]
fn test_progress_try_send_non_blocking() {
    block_on(async {
        let (tx, mut rx) = mpsc::channel(1);

        let progress1 = FfmpegProgress::new(pairs(&[("progress", "start")]));

        assert!(tx.try_send(progress1).is_ok());

        let progress2 = FfmpegProgress::new(pairs(&[("progress", "continue")]));

        assert!(tx.try_send(progress2).is_err());

        let received = rx.recv().await.unwrap();
        assert_eq!(received.get("progress"), Some(&"start".to_string()));
    });
}

#[test]
fn test_backoff_doubles_and_saturates() {
    assert_eq!(backoff(0), 1);
    assert_eq!(backoff(1), 2);
    assert_eq!(backoff(2), 4);
    assert_eq!(backoff(3), 8);
    assert_eq!(backoff(10), 1024);
    assert_eq!(backoff(63), 1 << 63);
    assert_eq!(backoff(64), u64::MAX);
    assert_eq!(backoff(65), u64::MAX);
    assert_eq!(backoff(usize::MAX), u64::MAX);
}

#[test]
fn test_ffmpeg_args() {
    let args = ffmpeg_args("https://example.com/live.m3u8", "out/movie.part");
    assert_eq!(
        args,
        vec![
            "-y",
            "-i",
            "https://example.com/live.m3u8",
            "-c",
            "copy",
            "-progress",
            "pipe:1",
            "-nostats",
            "out/movie.part"
        ]
    );
}

#[test]
fn test_first_action_spawns_ffmpeg_on_the_temporary_path() {
    let (supervisor, step) =
        StreamSupervisor::start("https://example.com/v", "dir/movie.mp4", options(100, true, 3));
    assert_eq!(supervisor.phase, Phase::Starting);
    assert_eq!(supervisor.attempts, 1);
    assert_eq!(supervisor.temp, "dir/movie.part");
    assert_eq!(supervisor.output, "dir/movie.mp4");
    assert!(step.emit.is_none());
    match step.action {
        StreamAction::Spawn { program, args } => {
            assert_eq!(program, "ffmpeg");
            assert_eq!(args[2], "https://example.com/v");
            assert_eq!(args[8], "dir/movie.part");
            assert_eq!(args.len(), 9);
        }
        other => panic!("unexpected action {:?}", other),
    }
}

fn expect_read(step: StreamStep) -> Option<FfmpegProgress> {
    match step.action {
        StreamAction::ReadLine { .. } => step.emit,
        other => panic!("unexpected action {:?}", other),
    }
}

#[test]
fn test_successful_run_renames_the_temporary_file() {
    let (mut supervisor, _) =
        StreamSupervisor::start("in", "movie.mp4", options(100, true, 3));
    assert!(expect_read(supervisor.step(StreamEvent::Spawned)).is_none());
    assert_eq!(supervisor.phase, Phase::Running);

    assert!(expect_read(supervisor.step(StreamEvent::Line("frame=10".to_string()))).is_none());
    let emitted =
        expect_read(supervisor.step(StreamEvent::Line("out_time_ms=1000".to_string()))).unwrap();
    assert_eq!(emitted.fields, pairs(&[("frame", "10"), ("out_time_ms", "1000")]));
    let emitted =
        expect_read(supervisor.step(StreamEvent::Line("progress=continue".to_string()))).unwrap();
    assert_eq!(
        emitted.fields,
        pairs(&[("frame", "10"), ("out_time_ms", "1000"), ("progress", "continue")])
    );
    let emitted = expect_read(supervisor.step(StreamEvent::Line("".to_string()))).unwrap();
    assert_eq!(emitted.len(), 3);
    assert!(expect_read(supervisor.step(StreamEvent::Line("speed=1.5x".to_string()))).is_none());

    let step = supervisor.step(StreamEvent::EndOfStream);
    assert!(matches!(step.action, StreamAction::Wait));
    assert_eq!(supervisor.phase, Phase::Exiting);

    let step = supervisor.step(StreamEvent::Exited { success: true, code: Some(0) });
    assert_eq!(
        step.emit.unwrap().fields,
        pairs(&[
            ("frame", "10"),
            ("out_time_ms", "1000"),
            ("progress", "continue"),
            ("speed", "1.5x")
        ])
    );
    match step.action {
        StreamAction::Rename { from, to } => {
            assert_eq!(from, "movie.part");
            assert_eq!(to, "movie.mp4");
        }
        other => panic!("unexpected action {:?}", other),
    }
    assert_eq!(supervisor.phase, Phase::Succeeded);

    let step = supervisor.step(StreamEvent::Renamed);
    assert!(matches!(step.action, StreamAction::Finish(Ok(()))));
    assert_eq!(supervisor.phase, Phase::Finished);
    assert_eq!(supervisor.attempts, 1);
}

#[test]
fn test_stall_kills_the_process_and_fails_the_attempt() {
    let (mut supervisor, _) = StreamSupervisor::start("in", "movie.mp4", options(50, false, 3));
    supervisor.step(StreamEvent::Spawned);
    let step = supervisor.step(StreamEvent::StallTimeout);
    assert!(matches!(step.action, StreamAction::Kill));
    assert_eq!(supervisor.phase, Phase::StalledKill);
    let step = supervisor.step(StreamEvent::Killed);
    match step.action {
        StreamAction::Finish(Err(DownloadError::Other(message))) => {
            assert_eq!(message, "blocage détecté")
        }
        other => panic!("unexpected action {:?}", other),
    }
    assert_eq!(supervisor.phase, Phase::Finished);
}

#[test]
fn test_stall_is_retried_until_max_restarts() {
    let (mut supervisor, mut step) =
        StreamSupervisor::start("in", "movie.mp4", options(50, true, 4));
    let mut spawns = 0;
    let mut slept = Vec::new();
    let result = loop {
        let event = match step.action {
            StreamAction::Spawn { .. } => {
                spawns += 1;
                StreamEvent::Spawned
            }
            StreamAction::ReadLine { .. } => StreamEvent::StallTimeout,
            StreamAction::Kill => StreamEvent::Killed,
            StreamAction::Sleep { seconds } => {
                slept.push(seconds);
                StreamEvent::BackoffElapsed
            }
            StreamAction::Finish(result) => break result,
            other => panic!("unexpected action {:?}", other),
        };
        step = supervisor.step(event);
    };
    assert!(matches!(result, Err(DownloadError::Other(ref m)) if m == "blocage détecté"));
    assert_eq!(spawns, 4);
    assert_eq!(slept, vec![2, 4, 8]);
    assert_eq!(supervisor.attempts, 4);
}

#[test]
fn test_non_zero_exit_carries_the_code() {
    let (mut supervisor, _) = StreamSupervisor::start("in", "movie.mp4", options(50, false, 0));
    supervisor.step(StreamEvent::Spawned);
    supervisor.step(StreamEvent::Line("frame=1".to_string()));
    supervisor.step(StreamEvent::EndOfStream);
    let step = supervisor.step(StreamEvent::Exited { success: false, code: Some(187) });
    assert!(step.emit.is_none());
    assert!(matches!(step.action, StreamAction::Finish(Err(DownloadError::FfmpegExit(187)))));

    let (mut supervisor, _) = StreamSupervisor::start("in", "movie.mp4", options(50, false, 0));
    supervisor.step(StreamEvent::Spawned);
    supervisor.step(StreamEvent::EndOfStream);
    let step = supervisor.step(StreamEvent::Exited { success: false, code: None });
    assert!(matches!(step.action, StreamAction::Finish(Err(DownloadError::FfmpegExit(-1)))));
}

#[test]
fn test_retry_starts_the_sample_afresh() {
    let (mut supervisor, _) = StreamSupervisor::start("in", "movie.mp4", options(50, true, 2));
    supervisor.step(StreamEvent::Spawned);
    supervisor.step(StreamEvent::Line("frame=1".to_string()));
    supervisor.step(StreamEvent::EndOfStream);
    let step = supervisor.step(StreamEvent::Exited { success: false, code: Some(1) });
    assert!(matches!(step.action, StreamAction::Sleep { seconds: 2 }));
    assert_eq!(supervisor.phase, Phase::Backoff);
    let step = supervisor.step(StreamEvent::BackoffElapsed);
    assert!(matches!(step.action, StreamAction::Spawn { .. }));
    assert_eq!(supervisor.attempts, 2);
    supervisor.step(StreamEvent::Spawned);
    let emitted = supervisor.step(StreamEvent::Line("progress=end".to_string())).emit.unwrap();
    assert_eq!(emitted.fields, pairs(&[("progress", "end")]));
}

#[test]
fn test_read_failure_kills_and_reports_io() {
    let (mut supervisor, _) = StreamSupervisor::start("in", "movie.mp4", options(50, false, 0));
    supervisor.step(StreamEvent::Spawned);
    let error = std::io::Error::new(std::io::ErrorKind::InvalidData, "bad utf-8");
    let step = supervisor.step(StreamEvent::ReadFailed(error));
    assert!(matches!(step.action, StreamAction::Kill));
    let step = supervisor.step(StreamEvent::Killed);
    match step.action {
        StreamAction::Finish(Err(DownloadError::Io(error))) => {
            assert_eq!(error.kind(), std::io::ErrorKind::InvalidData)
        }
        other => panic!("unexpected action {:?}", other),
    }
}

#[test]
fn test_rename_failure_is_not_retried() {
    let (mut supervisor, _) = StreamSupervisor::start("in", "movie.mp4", options(50, true, 5));
    supervisor.step(StreamEvent::Spawned);
    supervisor.step(StreamEvent::EndOfStream);
    supervisor.step(StreamEvent::Exited { success: true, code: Some(0) });
    let error = std::io::Error::from(std::io::ErrorKind::PermissionDenied);
    let step = supervisor.step(StreamEvent::RenameFailed(error));
    assert!(matches!(step.action, StreamAction::Finish(Err(DownloadError::Io(_)))));
    assert_eq!(supervisor.phase, Phase::Finished);
}

#[test]
fn test_unexpected_event_ends_the_run() {
    let (mut supervisor, _) = StreamSupervisor::start("in", "movie.mp4", options(50, true, 5));
    let step = supervisor.step(StreamEvent::Renamed);
    assert!(matches!(step.action, StreamAction::Finish(Err(DownloadError::Other(_)))));
    assert_eq!(supervisor.phase, Phase::Finished);
    let step = supervisor.step(StreamEvent::Spawned);
    assert!(matches!(step.action, StreamAction::Finish(Err(DownloadError::Other(_)))));
}

#[test]
fn test_parser_emits_on_progress_keys_and_blank_lines() {
    let mut parser = ProgressParser::new();
    assert!(parser.feed("").is_none());
    assert!(parser.feed("   ").is_none());
    assert!(parser.feed("bitrate= 512.0kbits/s").is_none());
    assert!(parser.feed("total_size=1048576").is_none());
    let emitted = parser.feed("out_time_ms=2000000").unwrap();
    assert_eq!(
        emitted.fields,
        pairs(&[
            ("bitrate", " 512.0kbits/s"),
            ("total_size", "1048576"),
            ("out_time_ms", "2000000")
        ])
    );
    assert!(parser.feed("not a pair").is_none());
    let emitted = parser.feed("\n").unwrap();
    assert_eq!(emitted.len(), 3);
    assert_eq!(parser.current, emitted.fields);
    let again = parser.feed("").unwrap();
    assert_eq!(again.fields, emitted.fields);
    assert_eq!(parser.finish().unwrap().fields, emitted.fields);
}

#[test]
fn test_parser_keeps_the_sample_across_blank_lines() {
    let mut parser = ProgressParser::new();
    assert!(parser.feed("a=1").is_none());
    let at_blank = parser.feed("").unwrap();
    assert_eq!(at_blank.fields, pairs(&[("a", "1")]));
    assert!(parser.feed("b=2").is_none());
    let emitted = parser.feed("progress=end").unwrap();
    assert_eq!(emitted.fields, pairs(&[("a", "1"), ("b", "2"), ("progress", "end")]));
    assert_eq!(emitted.get("a"), Some(&"1".to_string()));
    assert_eq!(emitted.get("b"), Some(&"2".to_string()));
    assert_eq!(emitted.get("progress"), Some(&"end".to_string()));
}

#[test]
fn test_supervisor_sends_keys_from_before_a_blank_line() {
    let (mut supervisor, _) = StreamSupervisor::start("in", "movie.mp4", options(100, true, 3));
    supervisor.step(StreamEvent::Spawned);
    assert!(expect_read(supervisor.step(StreamEvent::Line("a=1".to_string()))).is_none());
    let at_blank = expect_read(supervisor.step(StreamEvent::Line("".to_string()))).unwrap();
    assert_eq!(at_blank.fields, pairs(&[("a", "1")]));
    assert!(expect_read(supervisor.step(StreamEvent::Line("b=2".to_string()))).is_none());
    let sent =
        expect_read(supervisor.step(StreamEvent::Line("progress=end".to_string()))).unwrap();
    assert_eq!(sent.fields, pairs(&[("a", "1"), ("b", "2"), ("progress", "end")]));
    supervisor.step(StreamEvent::EndOfStream);
    let step = supervisor.step(StreamEvent::Exited { success: true, code: Some(0) });
    assert_eq!(
        step.emit.unwrap().fields,
        pairs(&[("a", "1"), ("b", "2"), ("progress", "end")])
    );
    assert!(matches!(step.action, StreamAction::Rename { .. }));
}

#[test]
fn test_parser_trims_and_splits_at_the_first_equals_sign() {
    let mut parser = ProgressParser::new();
    assert!(parser.feed("  key=a=b  \r\n").is_none());
    assert!(parser.feed("=value").is_none());
    assert!(parser.feed("empty=").is_none());
    assert_eq!(parser.current, pairs(&[("key", "a=b"), ("", "value"), ("empty", "")]));
}

#[test]
fn test_parser_overwrites_a_key_in_place() {
    let mut parser = ProgressParser::new();
    parser.feed("frame=1");
    parser.feed("fps=25");
    parser.feed("frame=2");
    assert_eq!(parser.current, pairs(&[("frame", "2"), ("fps", "25")]));
    let left = parser.finish().unwrap();
    assert_eq!(left.get("frame"), Some(&"2".to_string()));
}

#[test]
fn test_parser_keeps_the_sample_after_a_progress_key() {
    let mut parser = ProgressParser::new();
    let first = parser.feed("progress=continue").unwrap();
    assert_eq!(first.fields, pairs(&[("progress", "continue")]));
    let second = parser.feed("progress=end").unwrap();
    assert_eq!(second.fields, pairs(&[("progress", "end")]));
    assert_eq!(parser.current, pairs(&[("progress", "end")]));
}

#[test]
fn test_setup_failure_is_retried_and_reported_in_words() {
    let (mut supervisor, mut step) =
        StreamSupervisor::start("in", "movie.mp4", options(50, true, 3));
    let mut attempts = 0;
    let mut slept = Vec::new();
    let result = loop {
        let event = match step.action {
            StreamAction::Spawn { .. } => {
                attempts += 1;
                StreamEvent::SetupFailed("chemin de sortie invalide (UTF-8 requis)".to_string())
            }
            StreamAction::Sleep { seconds } => {
                slept.push(seconds);
                StreamEvent::BackoffElapsed
            }
            StreamAction::Finish(result) => break result,
            other => panic!("unexpected action {:?}", other),
        };
        step = supervisor.step(event);
    };
    match result {
        Err(DownloadError::Other(message)) => {
            assert_eq!(message, "chemin de sortie invalide (UTF-8 requis)")
        }
        other => panic!("unexpected result {:?}", other),
    }
    assert_eq!(attempts, 3);
    assert_eq!(slept, vec![2, 4]);

    let (mut supervisor, _) = StreamSupervisor::start("in", "movie.mp4", options(50, false, 3));
    let step = supervisor.step(StreamEvent::SetupFailed("pipe".to_string()));
    assert!(matches!(step.action, StreamAction::Finish(Err(DownloadError::Other(ref m))) if m == "pipe"));
}
