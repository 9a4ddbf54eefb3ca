use tsunagu::exec::{
    is_timeout, killable_group, stop_message, tail_bytes, BoundedRun, Capture, OnTimeout,
    RunAction, RunEvent, RunState, StopCause, DEFAULT_TAIL_BYTES, ERROR_WEDGE_MARKER,
    SILENCE_MARKER, TIMEOUT_MARKER,
};
use tsunagu::{Duration, IoError, IoErrorKind, UnixPath};

#[test]
fn a_capture_is_bounded_to_its_tail_on_a_char_boundary() {
    let big = "é".repeat(40 * 1024).into_bytes();
    let kept = tail_bytes(big.clone(), 16 * 1024);
    assert!(kept.len() <= 16 * 1024);
    assert!(big.ends_with(&kept), "must keep the TAIL, never the head");
    assert!(
        !String::from_utf8_lossy(&kept).starts_with('\u{FFFD}'),
        "must cut on a char boundary"
    );
}

#[test]
fn a_capture_under_the_bound_is_untouched() {
    let small = b"error: flake.lock parse error".to_vec();
    assert_eq!(tail_bytes(small.clone(), 16 * 1024), small);
}

#[test]
fn a_tail_drops_the_rest_of_a_cut_character() {
    let text = "a繋b".as_bytes().to_vec();
    assert_eq!(tail_bytes(text.clone(), 5), text);
    assert_eq!(tail_bytes(text.clone(), 4), "繋b".as_bytes());
    assert_eq!(tail_bytes(text.clone(), 3), b"b");
    assert_eq!(tail_bytes(text.clone(), 2), b"b");
    assert_eq!(tail_bytes(text.clone(), 1), b"b");
    assert_eq!(tail_bytes(text, 0), b"");
}

#[test]
fn a_tail_of_a_tail_is_the_tail() {
    let once = tail_bytes("é".repeat(9).into_bytes(), 7);
    assert_eq!(once.len(), 6);
    assert_eq!(tail_bytes(once.clone(), 7), once);
}

fn millis(n: u64) -> Duration {
    Duration::from_millis(n)
}

fn secs(n: u64) -> Duration {
    Duration::from_secs(n)
}

/// Leads a run through `events` and says what it does last.
fn lead(run: &BoundedRun<'_>, events: Vec<RunEvent>) -> RunState {
    let mut state = run.begin(0, millis(0));
    for event in events {
        state = run.step(state, event);
    }
    state
}

fn given_up(cause: StopCause, secs: u64, kill: bool) -> RunAction {
    RunAction::GiveUp { cause, secs, kill }
}

#[test]
fn a_new_run_has_the_documented_defaults() {
    let path = UnixPath::new("/tmp/cap");
    let run = BoundedRun::new(&path);
    assert_eq!(run.capture_path(), &path);
    assert_eq!(run.capture_mode(), Capture::Merged);
    assert_eq!(run.pause().as_secs(), 1);
    assert_eq!(run.begin(0, millis(0)).pending, RunAction::AwaitExit);
    assert_eq!(DEFAULT_TAIL_BYTES, 16 * 1024);
}

#[test]
fn an_unbounded_run_waits_for_its_child() {
    let path = UnixPath::new("/tmp/cap");
    let run = BoundedRun::new(&path);
    let state = lead(&run, vec![RunEvent::Running { now: secs(500) }]);
    assert_eq!(state.pending, RunAction::AwaitExit);
    let state = run.step(state, RunEvent::Exited);
    assert_eq!(state.pending, RunAction::Finish);
    // A quiet bound that cannot fire is no bound.
    let run = BoundedRun::new(&path).silent_after(secs(1)).inherit_stdio();
    assert_eq!(run.begin(0, millis(0)).pending, RunAction::AwaitExit);
}

#[test]
fn silence_ends_a_run_that_has_no_deadline() {
    let path = UnixPath::new("/tmp/t-nolimit");
    let run = BoundedRun::new(&path).silent_after(secs(1)).poll_interval(millis(100));
    let mut state = run.begin(0, millis(0));
    assert_eq!(state.pending, RunAction::PollChild);
    for round in 1..10 {
        state = run.step(state, RunEvent::Running { now: millis(100 * round) });
        state = run.step(state, RunEvent::Measured { captured: 0, now: millis(100 * round) });
        assert_eq!(state.pending, RunAction::Sleep);
        state = run.step(state, RunEvent::Woke);
    }
    state = run.step(state, RunEvent::Running { now: secs(1) });
    state = run.step(state, RunEvent::Measured { captured: 0, now: secs(1) });
    assert_eq!(state.pending, given_up(StopCause::Silence, 1, true));
    let e = run.give_up(StopCause::Silence, 1, vec![], vec![]);
    assert_eq!(e.kind(), IoErrorKind::TimedOut);
    assert!(e.message.contains("silent for"));
}

#[test]
fn a_wedge_ends_a_run_that_has_no_deadline() {
    let path = UnixPath::new("/tmp/cap");
    let run = BoundedRun::new(&path).error_wedge("error:", secs(1));
    let state = lead(
        &run,
        vec![
            RunEvent::Running { now: secs(500) },
            RunEvent::Measured { captured: 0, now: secs(500) },
            RunEvent::Scanned { capture: b"fine so far".to_vec(), now: secs(500) },
        ],
    );
    assert_eq!(state.pending, RunAction::Sleep);
    let state = run.step(state, RunEvent::Woke);
    let state = run.step(state, RunEvent::Running { now: secs(501) });
    let state = run.step(state, RunEvent::Measured { captured: 8, now: secs(501) });
    let state =
        run.step(state, RunEvent::Scanned { capture: b"error: x".to_vec(), now: secs(502) });
    assert_eq!(state.pending, given_up(StopCause::ErrorWedge, 1, true));
}

#[test]
fn a_deadline_ends_a_run() {
    let path = UnixPath::new("/tmp/cap");
    let run = BoundedRun::new(&path).timeout(secs(2));
    let state = lead(&run, vec![RunEvent::Running { now: millis(1999) }]);
    assert_eq!(state.pending, RunAction::Sleep);
    let state = run.step(state, RunEvent::Woke);
    assert_eq!(state.pending, RunAction::PollChild);
    let state = run.step(state, RunEvent::Running { now: secs(2) });
    assert_eq!(state.pending, given_up(StopCause::Deadline, 2, true));
    let state = run.step(state, RunEvent::Exited);
    assert_eq!(state.pending, given_up(StopCause::Deadline, 2, true));
}

#[test]
fn an_abandoned_child_is_not_killed() {
    let path = UnixPath::new("/tmp/cap");
    let run = BoundedRun::new(&path).timeout(millis(1500)).on_timeout(OnTimeout::Abandon);
    let state = lead(&run, vec![RunEvent::Running { now: secs(9) }]);
    assert_eq!(state.pending, given_up(StopCause::Deadline, 1, false));
}

#[test]
fn an_exit_past_the_deadline_is_no_timeout() {
    let path = UnixPath::new("/tmp/cap");
    let run = BoundedRun::new(&path).timeout(millis(1));
    let state = lead(&run, vec![RunEvent::Exited]);
    assert_eq!(state.pending, RunAction::Finish);
}

#[test]
fn silence_ends_a_run_before_its_deadline() {
    let path = UnixPath::new("/tmp/cap");
    let run = BoundedRun::new(&path).timeout(secs(120)).silent_after(secs(1));
    let state = lead(&run, vec![RunEvent::Running { now: millis(900) }]);
    assert_eq!(state.pending, RunAction::MeasureCapture);
    let state = run.step(state, RunEvent::Measured { captured: 0, now: millis(999) });
    assert_eq!(state.pending, RunAction::Sleep);
    let state = run.step(state, RunEvent::Woke);
    let state = run.step(state, RunEvent::Running { now: millis(1000) });
    let state = run.step(state, RunEvent::Measured { captured: 0, now: millis(1000) });
    assert_eq!(state.pending, given_up(StopCause::Silence, 1, true));
}

#[test]
fn growth_resets_the_quiet_clock() {
    let path = UnixPath::new("/tmp/cap");
    let run = BoundedRun::new(&path).timeout(secs(120)).silent_after(secs(1));
    let mut state = run.begin(0, millis(0));
    for round in 1..10 {
        state = run.step(state, RunEvent::Running { now: millis(900 * round) });
        state = run.step(state, RunEvent::Measured { captured: round, now: millis(900 * round) });
        assert_eq!(state.pending, RunAction::Sleep);
        state = run.step(state, RunEvent::Woke);
    }
    state = run.step(state, RunEvent::Running { now: millis(9200) });
    state = run.step(state, RunEvent::Measured { captured: 9, now: millis(9200) });
    assert_eq!(state.pending, given_up(StopCause::Silence, 1, true));
}

#[test]
fn an_error_and_then_quiet_is_a_wedge() {
    let path = UnixPath::new("/tmp/cap");
    let run = BoundedRun::new(&path).timeout(secs(120)).error_wedge("error:", secs(1));
    let state = lead(
        &run,
        vec![
            RunEvent::Running { now: millis(100) },
            RunEvent::Measured { captured: 11, now: millis(100) },
        ],
    );
    assert_eq!(state.pending, RunAction::ReadCapture);
    let state = run.step(
        state,
        RunEvent::Scanned { capture: b"\xfferror: bad".to_vec(), now: millis(110) },
    );
    assert_eq!(state.pending, RunAction::Sleep);
    assert!(state.saw_error);
    let state = run.step(state, RunEvent::Woke);
    let state = run.step(state, RunEvent::Running { now: millis(1100) });
    let state = run.step(state, RunEvent::Measured { captured: 11, now: millis(1100) });
    assert_eq!(state.pending, given_up(StopCause::ErrorWedge, 1, true));
}

#[test]
fn quiet_work_without_an_error_is_no_wedge() {
    let path = UnixPath::new("/tmp/cap");
    let run = BoundedRun::new(&path).timeout(secs(120)).error_wedge("error:", secs(1));
    let state = lead(
        &run,
        vec![
            RunEvent::Running { now: secs(5) },
            RunEvent::Measured { captured: 0, now: secs(5) },
            RunEvent::Scanned { capture: b"building".to_vec(), now: secs(5) },
        ],
    );
    assert_eq!(state.pending, RunAction::Sleep);
    assert!(!state.saw_error);
    assert!(state.scanned_once);
    // Nothing has changed since the scan, so it is not repeated.
    let state = run.step(state, RunEvent::Woke);
    let state = run.step(state, RunEvent::Running { now: secs(9) });
    let state = run.step(state, RunEvent::Measured { captured: 0, now: secs(9) });
    assert_eq!(state.pending, RunAction::Sleep);
}

#[test]
fn the_more_specific_cause_is_reported() {
    let path = UnixPath::new("/tmp/cap");
    let run = BoundedRun::new(&path)
        .timeout(secs(1))
        .silent_after(secs(2))
        .error_wedge("error:", secs(3));
    let quiet = |captured: &str| {
        lead(
            &run,
            vec![
                RunEvent::Running { now: secs(9) },
                RunEvent::Measured { captured: 0, now: secs(9) },
                RunEvent::Scanned { capture: captured.as_bytes().to_vec(), now: secs(9) },
            ],
        )
        .pending
    };
    assert_eq!(quiet("error: x"), given_up(StopCause::ErrorWedge, 3, true));
    assert_eq!(quiet("fine"), given_up(StopCause::Silence, 2, true));
}

#[test]
fn an_inherited_run_has_only_its_deadline() {
    let path = UnixPath::new("/tmp/cap");
    let run = BoundedRun::new(&path)
        .inherit_stdio()
        .timeout(secs(10))
        .silent_after(secs(1))
        .error_wedge("error:", secs(1));
    let state = lead(&run, vec![RunEvent::Running { now: secs(5) }]);
    assert_eq!(state.pending, RunAction::Sleep);
    let state = run.step(state, RunEvent::Woke);
    let state = run.step(state, RunEvent::Running { now: secs(10) });
    assert_eq!(state.pending, given_up(StopCause::Deadline, 10, true));
    assert_eq!(run.captured_len(3, 4), 0);
    assert_eq!(run.capture_bytes(b"a".to_vec(), b"b".to_vec()), b"");
    assert!(run.capture_files().is_empty());
}

#[test]
fn a_merged_run_reports_one_stream_as_stderr() {
    let path = UnixPath::new("/tmp/cap");
    let run = BoundedRun::new(&path).tail_bytes(4);
    let out = run.finish(b"0123456789".to_vec(), b"other".to_vec());
    assert_eq!(out.stdout, b"");
    assert_eq!(out.stderr, b"6789");
    assert_eq!(run.captured_len(3, 4), 3);
    assert_eq!(run.captured_len(u64::MAX, u64::MAX), u64::MAX);
    assert_eq!(run.capture_files(), vec![path.clone()]);
}

#[test]
fn separate_streams_are_bounded_apart() {
    let path = UnixPath::new("/tmp/cap.log");
    let run = BoundedRun::new(&path).separate_streams().tail_bytes(4);
    let out = run.finish(b"stdout".to_vec(), b"stderr".to_vec());
    assert_eq!(out.stdout, b"dout");
    assert_eq!(out.stderr, b"derr");
    assert_eq!(run.captured_len(3, 4), 7);
    assert_eq!(run.capture_bytes(b"a".to_vec(), b"b".to_vec()), b"ab");
    assert_eq!(
        run.capture_files(),
        vec![UnixPath::new("/tmp/cap.log"), UnixPath::new("/tmp/cap.log.err")]
    );
}

#[test]
fn stderr_lands_where_std_would_put_the_extension() {
    for text in [
        "/tmp/cap", "/tmp/cap.log", "cap", "a/b.tar.gz", "/tmp/.hidden", "/tmp/.a.b", "/tmp/cap/",
        "/tmp/cap.x//", "/tmp/cap/.", "/tmp/cap./", "a.", "..", "/", ".", "./x", "/tmp/..", "a/...",
        "/tmp/x/./", "",
    ] {
        let path = UnixPath::new(text);
        let run = BoundedRun::new(&path).separate_streams();
        let std_path = std::path::Path::new(text);
        let expected = std_path.with_extension(match std_path.extension() {
            Some(e) => format!("{}.err", e.to_string_lossy()),
            None => "err".to_string(),
        });
        assert_eq!(run.err_path().as_bytes(), expected.as_os_str().as_encoded_bytes(), "{text:?}");
    }
}

#[test]
fn parents_are_those_of_std() {
    for text in [
        "/tmp/cap", "/tmp//cap", "cap", "a/b/c", "/", "//", "", ".", "./", "./a", "a/.", "a/./b",
        "/a/", "/a//", "/./a", "..", "../a", "a/..", "/..", "//a", "a//b//", "/a/b/./.", "././a",
        "/a/./", "./.", ".a", ".a/b", "a.", "/.",
    ] {
        let got = UnixPath::new(text).parent().map(|p| p.as_bytes().to_vec());
        let expected = std::path::Path::new(text)
            .parent()
            .map(|p| p.as_os_str().as_encoded_bytes().to_vec());
        assert_eq!(got, expected, "{text:?}");
    }
}

#[test]
fn joins_are_those_of_std() {
    for base in ["/run", "/run/", "", "a", "/"] {
        for leaf in ["x", "", "/x", "x/y", ".", "x/"] {
            let expected = std::path::Path::new(base).join(leaf);
            assert_eq!(
                UnixPath::new(base).join(leaf).as_bytes(),
                expected.as_os_str().as_encoded_bytes(),
                "{base:?} {leaf:?}"
            );
        }
    }
}

#[test]
fn a_report_carries_its_cause_and_the_tail() {
    let path = UnixPath::new("/tmp/cap");
    let run = BoundedRun::new(&path).separate_streams().tail_bytes(8);
    let e = run.give_up(StopCause::Deadline, 3, b"built\n".to_vec(), b"err\xff\n".to_vec());
    assert_eq!(e.kind(), IoErrorKind::TimedOut);
    assert_eq!(e.message, "run timed out after 3s\nlt\nerr\u{fffd}\n");
    assert!(is_timeout(&e));
    let quiet = run.give_up(StopCause::Silence, 1, vec![], vec![]);
    assert_eq!(
        quiet.message,
        "run silent for 1s (total deadline not reached) — no output; a wedge, not slow work\n"
    );
    assert!(is_timeout(&quiet));
    let wedge = run.give_up(StopCause::ErrorWedge, 2, b"error".to_vec(), vec![]);
    assert_eq!(
        wedge.message,
        "run reported an error then went quiet for 2s — the failure is already reported below; \
         the tree stopped winding down\nerror"
    );
    assert!(is_timeout(&wedge));
}

#[test]
fn a_timeout_is_known_by_its_text_alone() {
    let text = stop_message(StopCause::Deadline, 90, "");
    assert!(text.contains(TIMEOUT_MARKER));
    assert!(is_timeout(&IoError::new(IoErrorKind::Other, &text)));
    let silent = stop_message(StopCause::Silence, 90, "");
    assert!(silent.contains(SILENCE_MARKER));
    assert!(!is_timeout(&IoError::new(IoErrorKind::Other, &silent)));
    let wedge = stop_message(StopCause::ErrorWedge, 90, "");
    assert!(wedge.contains(ERROR_WEDGE_MARKER));
    assert!(!is_timeout(&IoError::new(IoErrorKind::Other, &wedge)));
    assert!(is_timeout(&IoError::new(IoErrorKind::TimedOut, "anything")));
}

#[test]
fn only_a_process_id_names_a_group() {
    assert_eq!(killable_group(1), Some(1));
    assert_eq!(killable_group(4242), Some(4242));
    assert_eq!(killable_group(i32::MAX as u32), Some(i32::MAX));
    assert_eq!(killable_group(0), None);
    assert_eq!(killable_group(i32::MAX as u32 + 1), None);
    assert_eq!(killable_group(u32::MAX), None);
}

#[test]
fn spans_are_counted_in_nanoseconds() {
    let span = Duration::new(3, 999_999_999);
    assert_eq!(span.as_secs(), 3);
    assert_eq!(span.subsec_nanos(), 999_999_999);
    assert_eq!(millis(2500).as_secs(), 2);
    assert_eq!(millis(2500).subsec_nanos(), 500_000_000);
    assert_eq!(secs(2).since(&millis(1500)).subsec_nanos(), 500_000_000);
    assert_eq!(secs(1).since(&secs(2)).as_secs(), 0);
    assert!(secs(1).at_least(&millis(1000)));
    assert!(!millis(999).at_least(&secs(1)));
}

#[test]
fn the_error_marker_is_looked_for_as_text() {
    let path = UnixPath::new("/tmp/cap");
    let run = BoundedRun::new(&path);
    assert!(!run.shows_error("error: bad"));
    let run = run.error_wedge("error:", secs(1));
    assert!(run.shows_error("error: bad"));
    assert!(run.shows_error("x\nerror:"));
    assert!(!run.shows_error("Error: bad"));
    assert!(run.clone().error_wedge("", secs(1)).shows_error(""));
}
