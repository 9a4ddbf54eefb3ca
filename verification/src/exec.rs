//! Bounded subprocess execution: the decisions that make a run end.
//!
//! A child can hang its caller in three ways. Waiting for the end of a pipe
//! waits for every descendant that holds it; waiting for the child has no
//! deadline; and killing the child leaves its descendants. So a run captures
//! to files, which have no end to wait for; it polls against a deadline; and it
//! kills the whole process group.
//!
//! [`BoundedRun`] holds the bounds. [`BoundedRun::begin`] and
//! [`BoundedRun::step`] turn what the caller observes (the child, the size and
//! the text of the capture, the clock) into the next thing to do.

use crate::error::{IoError, IoErrorKind};
use crate::path;
use crate::path::{append_bytes, UnixPath};
use crate::text;
use crate::text::decimal_text;
use crate::time::{Duration, NANOS_PER_SEC};
use crate::utf8;
use crate::utf8::from_utf8_lossy;
use vstd::prelude::*;
use vstd::utf8::*;

verus! {

/// Marker embedded in the error when a run exceeded its deadline, so a hang
/// stays distinguishable from an ordinary non-zero exit.
pub const TIMEOUT_MARKER: &'static str = "timed out after";

/// Marker for the silence bound: nothing was printed for that long, which is
/// the signature of a wedge rather than of slow work.
pub const SILENCE_MARKER: &'static str = "silent for";

/// Marker for the error-then-quiet bound: the child reported its own failure
/// and then printed nothing more.
pub const ERROR_WEDGE_MARKER: &'static str = "reported an error then went quiet for";

/// Default cap on retained output, bytes. The tail is kept, not the head.
pub const DEFAULT_TAIL_BYTES: usize = 16384;

/// `b` continues a UTF-8 character that an earlier byte started.
pub open spec fn continues_char(b: u8) -> bool {
    0x80 <= b <= 0xbf
}

/// The first position from `from` on that does not continue a character.
pub open spec fn char_cut(v: Seq<u8>, from: int) -> int
    decreases v.len() - from,
{
    if 0 <= from < v.len() && continues_char(v[from]) {
        char_cut(v, from + 1)
    } else {
        from
    }
}

/// The longest suffix of `v` of at most `max` bytes that starts no character
/// halfway.
pub open spec fn tail(v: Seq<u8>, max: nat) -> Seq<u8> {
    if v.len() <= max {
        v
    } else {
        v.skip(char_cut(v, v.len() - max))
    }
}

/// Keep at most `max` bytes from the end of `v`, cutting on a UTF-8 character
/// boundary.
#[must_use]
pub fn tail_bytes(v: Vec<u8>, max: usize) -> (r: Vec<u8>)
    ensures
        r@ == tail(v@, max as nat),
{
    let mut v = v;
    if v.len() > max {
        let start: usize = v.len() - max;
        let mut cut: usize = start;
        while cut < v.len() && (v[cut] & 0xC0) == 0x80
            invariant
                start <= cut <= v@.len(),
                char_cut(v@, start as int) == char_cut(v@, cut as int),
            decreases v@.len() - cut,
        {
            let b = v[cut];
            assert((b & 0xC0) == 0x80 <==> 0x80 <= b <= 0xbf) by (bit_vector);
            cut += 1;
        }
        proof {
            if cut < v@.len() {
                let b = v@[cut as int];
                assert((b & 0xC0) == 0x80 <==> 0x80 <= b <= 0xbf) by (bit_vector);
            }
        }
        let kept = v.split_off(cut);
        kept
    } else {
        v
    }
}

/// What a bounded run does to a child that outlived its bound.
#[derive(Debug, Clone, Copy, PartialEq, Eq, Structural)]
pub enum OnTimeout {
    /// Kill the child's whole process group. Right when the child has changed
    /// nothing: a build, a plan, a query.
    KillGroup,
    /// Stop waiting and leave the child running. Right when the child may be in
    /// the middle of a change that is worse half done than late.
    Abandon,
}

/// How a bounded run treats the child's output.
#[derive(Debug, Clone, Copy, PartialEq, Eq, Structural)]
pub enum Capture {
    /// stdout and stderr into one file; its tail is reported as stderr.
    Merged,
    /// stdout and stderr into separate files, each bounded to its own tail.
    Separate,
    /// No capture: the child writes where the caller does.
    Inherit,
}

/// Why a run was given up.
#[derive(Debug, Clone, Copy, PartialEq, Eq, Structural)]
pub enum StopCause {
    /// The total deadline passed.
    Deadline,
    /// The capture did not grow for the silence bound.
    Silence,
    /// The capture holds the error marker and then did not grow for the quiet
    /// bound.
    ErrorWedge,
}

/// The bounds of a run, as plain numbers and sequences; times in nanoseconds.
pub struct RunConfig {
    pub capture_path: Seq<u8>,
    pub timeout: Option<nat>,
    pub on_timeout: OnTimeout,
    pub tail_bytes: nat,
    pub poll_interval: nat,
    pub capture: Capture,
    pub silent_after: Option<nat>,
    pub error_wedge: Option<(Seq<char>, nat)>,
}

impl RunConfig {
    /// The silence bound is watched: there is one, and a capture to measure.
    pub open spec fn watches_silence(self) -> bool {
        self.silent_after is Some && self.capture != Capture::Inherit
    }

    /// The error marker is watched: there is one, and a capture to scan.
    pub open spec fn watches_error(self) -> bool {
        self.error_wedge is Some && self.capture != Capture::Inherit
    }

    /// The capture is measured in every round.
    pub open spec fn watches_capture(self) -> bool {
        self.watches_silence() || self.watches_error()
    }

    /// A capture that reads `text` shows that the child reported an error.
    pub open spec fn shows_error(self, text: Seq<char>) -> bool {
        self.error_wedge is Some && text::contains_text(text, (self.error_wedge->0).0)
    }

    /// The bound that `cause` is about.
    pub open spec fn bound(self, cause: StopCause) -> Option<nat> {
        match cause {
            StopCause::Deadline => self.timeout,
            StopCause::Silence => self.silent_after,
            StopCause::ErrorWedge => match self.error_wedge {
                Some((_, quiet)) => Some(quiet),
                None => None,
            },
        }
    }

    /// Giving up for `cause`, whose bound is `bound`.
    pub open spec fn give_up(self, cause: StopCause, bound: nat) -> RunAction {
        RunAction::GiveUp {
            cause,
            secs: (bound / NANOS_PER_SEC as nat) as u64,
            kill: self.on_timeout == OnTimeout::KillGroup,
        }
    }
}

/// A bounded run of a child process, capturing to a file.
///
/// Unbounded until a bound is set: a deadline, or one of the quiet bounds. The capture path is the caller's choice;
/// it is consumed and removed on every exit path.
#[derive(Debug)]
pub struct BoundedRun<'a> {
    capture_path: &'a UnixPath,
    timeout: Option<Duration>,
    on_timeout: OnTimeout,
    tail_bytes: usize,
    poll_interval: Duration,
    capture: Capture,
    silent_after: Option<Duration>,
    error_wedge: Option<(String, Duration)>,
}

/// The length of an optional span.
pub open spec fn opt_nanos(d: Option<Duration>) -> Option<nat> {
    match d {
        Some(d) => Some(d@),
        None => None,
    }
}

impl<'a> View for BoundedRun<'a> {
    type V = RunConfig;

    closed spec fn view(&self) -> RunConfig {
        RunConfig {
            capture_path: self.capture_path@,
            timeout: opt_nanos(self.timeout),
            on_timeout: self.on_timeout,
            tail_bytes: self.tail_bytes as nat,
            poll_interval: self.poll_interval@,
            capture: self.capture,
            silent_after: opt_nanos(self.silent_after),
            error_wedge: match self.error_wedge {
                Some((marker, quiet)) => Some((marker@, quiet@)),
                None => None,
            },
        }
    }
}

impl<'a> Clone for BoundedRun<'a> {
    fn clone(&self) -> (r: Self)
        ensures
            r@ == self@,
    {
        BoundedRun {
            capture_path: self.capture_path,
            timeout: self.timeout,
            on_timeout: self.on_timeout,
            tail_bytes: self.tail_bytes,
            poll_interval: self.poll_interval,
            capture: self.capture,
            silent_after: self.silent_after,
            error_wedge: match &self.error_wedge {
                Some((marker, quiet)) => Some((marker.clone(), *quiet)),
                None => None,
            },
        }
    }
}

impl<'a> BoundedRun<'a> {
    /// A run capturing to `capture_path`, unbounded until a bound is set.
    #[must_use]
    pub fn new(capture_path: &'a UnixPath) -> (r: Self)
        ensures
            r@ == (RunConfig {
                capture_path: capture_path@,
                timeout: None,
                on_timeout: OnTimeout::KillGroup,
                tail_bytes: DEFAULT_TAIL_BYTES as nat,
                poll_interval: NANOS_PER_SEC as nat,
                capture: Capture::Merged,
                silent_after: None,
                error_wedge: None,
            }),
    {
        BoundedRun {
            capture_path,
            timeout: None,
            on_timeout: OnTimeout::KillGroup,
            tail_bytes: DEFAULT_TAIL_BYTES,
            poll_interval: Duration::from_secs(1),
            capture: Capture::Merged,
            silent_after: None,
            error_wedge: None,
        }
    }

    /// Fail the run when the capture contains `marker` and has not grown for
    /// `quiet`.
    ///
    /// Inert under [`Capture::Inherit`], which has no capture to scan.
    #[must_use]
    pub fn error_wedge(self, marker: &str, quiet: Duration) -> (r: Self)
        ensures
            r@ == (RunConfig { error_wedge: Some((marker@, quiet@)), ..self@ }),
    {
        let mut run = self;
        run.error_wedge = Some((marker.to_owned(), quiet));
        run
    }

    /// Fail the run when the child prints nothing for `d`, even though its
    /// total deadline, if there is one, has not passed. Every byte written resets the clock.
    ///
    /// Inert under [`Capture::Inherit`], which has no capture to measure.
    #[must_use]
    pub fn silent_after(self, d: Duration) -> (r: Self)
        ensures
            r@ == (RunConfig { silent_after: Some(d@), ..self@ }),
    {
        let mut run = self;
        run.silent_after = Some(d);
        run
    }

    /// Report stdout and stderr apart, each bounded to its own tail.
    #[must_use]
    pub fn separate_streams(self) -> (r: Self)
        ensures
            r@ == (RunConfig { capture: Capture::Separate, ..self@ }),
    {
        let mut run = self;
        run.capture = Capture::Separate;
        run
    }

    /// Do not capture: the child inherits the caller's streams, and only the
    /// deadline and the group kill apply.
    #[must_use]
    pub fn inherit_stdio(self) -> (r: Self)
        ensures
            r@ == (RunConfig { capture: Capture::Inherit, ..self@ }),
    {
        let mut run = self;
        run.capture = Capture::Inherit;
        run
    }

    /// Bound the run.
    #[must_use]
    pub fn timeout(self, d: Duration) -> (r: Self)
        ensures
            r@ == (RunConfig { timeout: Some(d@), ..self@ }),
    {
        let mut run = self;
        run.timeout = Some(d);
        run
    }

    /// What to do with a child that outlived its bound.
    #[must_use]
    pub fn on_timeout(self, o: OnTimeout) -> (r: Self)
        ensures
            r@ == (RunConfig { on_timeout: o, ..self@ }),
    {
        let mut run = self;
        run.on_timeout = o;
        run
    }

    /// Cap the retained output. The tail is kept.
    #[must_use]
    pub fn tail_bytes(self, n: usize) -> (r: Self)
        ensures
            r@ == (RunConfig { tail_bytes: n as nat, ..self@ }),
    {
        let mut run = self;
        run.tail_bytes = n;
        run
    }

    /// How often to check for completion while waiting.
    #[must_use]
    pub fn poll_interval(self, d: Duration) -> (r: Self)
        ensures
            r@ == (RunConfig { poll_interval: d@, ..self@ }),
    {
        let mut run = self;
        run.poll_interval = d;
        run
    }
}

/// What the caller of a run is to do next.
#[derive(Debug, Clone, Copy, PartialEq, Eq, Structural)]
pub enum RunAction {
    /// Wait for the child, however long it takes.
    AwaitExit,
    /// See whether the child has exited.
    PollChild,
    /// Measure the capture.
    MeasureCapture,
    /// Read the whole capture, leaving it in place.
    ReadCapture,
    /// Sleep for the poll interval.
    Sleep,
    /// The child has exited: collect its output.
    Finish,
    /// The child outlived a bound of `secs` whole seconds: kill its group and
    /// reap it if `kill`, and report the cause.
    GiveUp { cause: StopCause, secs: u64, kill: bool },
}

/// What the caller of a run observed. Clock readings count from the start of
/// the run.
pub enum RunEvent {
    /// The child has exited.
    Exited,
    /// The child was still running.
    Running { now: Duration },
    /// The capture holds `captured` bytes.
    Measured { captured: u64, now: Duration },
    /// The capture reads `capture`.
    Scanned { capture: Vec<u8>, now: Duration },
    /// The sleep is over.
    Woke,
}

/// A [`RunEvent`], with its clock reading in nanoseconds.
pub enum RunEventView {
    Exited,
    Running { now: nat },
    Measured { captured: u64, now: nat },
    Scanned { capture: Seq<u8>, now: nat },
    Woke,
}

impl View for RunEvent {
    type V = RunEventView;

    open spec fn view(&self) -> RunEventView {
        match self {
            RunEvent::Exited => RunEventView::Exited,
            RunEvent::Running { now } => RunEventView::Running { now: now@ },
            RunEvent::Measured { captured, now } => RunEventView::Measured {
                captured: *captured,
                now: now@,
            },
            RunEvent::Scanned { capture, now } => RunEventView::Scanned {
                capture: capture@,
                now: now@,
            },
            RunEvent::Woke => RunEventView::Woke,
        }
    }
}

/// How far a run has come.
pub struct RunState {
    /// What the caller was told to do.
    pub pending: RunAction,
    /// The size of the capture at the last measurement.
    pub last_size: u64,
    /// When that size was first seen.
    pub last_growth: Duration,
    /// The error marker has been seen in the capture.
    pub saw_error: bool,
    /// The capture has been scanned at least once.
    pub scanned_once: bool,
}

/// A [`RunState`], with its clock reading in nanoseconds.
pub struct RunStateView {
    pub pending: RunAction,
    pub last_size: u64,
    pub last_growth: nat,
    pub saw_error: bool,
    pub scanned_once: bool,
}

impl View for RunState {
    type V = RunStateView;

    open spec fn view(&self) -> RunStateView {
        RunStateView {
            pending: self.pending,
            last_size: self.last_size,
            last_growth: self.last_growth@,
            saw_error: self.saw_error,
            scanned_once: self.scanned_once,
        }
    }
}

/// How long the capture has not grown at the reading `now`.
pub open spec fn quiet_for(s: RunStateView, now: nat) -> nat {
    if now >= s.last_growth {
        (now - s.last_growth) as nat
    } else {
        0
    }
}

/// A run that has just been started, with the capture at `captured` bytes.
pub open spec fn first_state(cfg: RunConfig, captured: u64, now: nat) -> RunStateView {
    RunStateView {
        pending: if cfg.timeout is Some || cfg.watches_capture() {
            RunAction::PollChild
        } else {
            RunAction::AwaitExit
        },
        last_size: captured,
        last_growth: now,
        saw_error: false,
        scanned_once: false,
    }
}

/// The end of a round: give up on the first bound that is blown, the more
/// specific ones first, or sleep.
pub open spec fn settled(cfg: RunConfig, s: RunStateView, now: nat) -> RunStateView {
    let pending = if cfg.watches_error() && s.saw_error && quiet_for(s, now)
        >= (cfg.error_wedge->0).1 {
        cfg.give_up(StopCause::ErrorWedge, (cfg.error_wedge->0).1)
    } else if cfg.watches_silence() && quiet_for(s, now) >= cfg.silent_after->0 {
        cfg.give_up(StopCause::Silence, cfg.silent_after->0)
    } else if cfg.timeout is Some && now >= cfg.timeout->0 {
        cfg.give_up(StopCause::Deadline, cfg.timeout->0)
    } else {
        RunAction::Sleep
    };
    RunStateView { pending, ..s }
}

/// The state with a measurement of the capture taken in; any change of size
/// counts as progress.
pub open spec fn measured(s: RunStateView, captured: u64, now: nat) -> RunStateView {
    if captured != s.last_size {
        RunStateView { last_size: captured, last_growth: now, ..s }
    } else {
        s
    }
}

/// The capture is scanned for the error marker when it has changed, once in any
/// case, and never again after the marker was seen.
pub open spec fn scan_due(cfg: RunConfig, s: RunStateView, captured: u64) -> bool {
    cfg.watches_error() && !s.saw_error && (captured != s.last_size || !s.scanned_once)
}

/// The state with a scan of the capture taken in.
pub open spec fn scanned(cfg: RunConfig, s: RunStateView, capture: Seq<u8>) -> RunStateView {
    RunStateView {
        scanned_once: true,
        saw_error: s.saw_error || cfg.shows_error(utf8::shown(capture)),
        ..s
    }
}

/// The state after `e`. An event that does not answer the pending action leaves
/// the state as it is.
pub open spec fn next_state(cfg: RunConfig, s: RunStateView, e: RunEventView) -> RunStateView {
    match (s.pending, e) {
        (RunAction::AwaitExit, RunEventView::Exited) => RunStateView {
            pending: RunAction::Finish,
            ..s
        },
        (RunAction::PollChild, RunEventView::Exited) => RunStateView {
            pending: RunAction::Finish,
            ..s
        },
        (RunAction::PollChild, RunEventView::Running { now }) => if cfg.watches_capture() {
            RunStateView { pending: RunAction::MeasureCapture, ..s }
        } else {
            settled(cfg, s, now)
        },
        (RunAction::MeasureCapture, RunEventView::Measured { captured, now }) => if scan_due(
            cfg,
            s,
            captured,
        ) {
            RunStateView { pending: RunAction::ReadCapture, ..measured(s, captured, now) }
        } else {
            settled(cfg, measured(s, captured, now), now)
        },
        (RunAction::ReadCapture, RunEventView::Scanned { capture, now }) => settled(
            cfg,
            scanned(cfg, s, capture),
            now,
        ),
        (RunAction::Sleep, RunEventView::Woke) => RunStateView {
            pending: RunAction::PollChild,
            ..s
        },
        _ => s,
    }
}

impl<'a> BoundedRun<'a> {
    /// Whether the capture is measured in every round.
    fn measures(&self) -> (r: bool)
        ensures
            r == self@.watches_capture(),
    {
        (self.silent_after.is_some() || self.error_wedge.is_some()) && self.capture
            != Capture::Inherit
    }

    /// Starts a run whose capture holds `captured` bytes at the reading `now`.
    #[must_use]
    pub fn begin(&self, captured: u64, now: Duration) -> (r: RunState)
        ensures
            r@ == first_state(self@, captured, now@),
    {
        RunState {
            pending: if self.timeout.is_some() || self.measures() {
                RunAction::PollChild
            } else {
                RunAction::AwaitExit
            },
            last_size: captured,
            last_growth: now,
            saw_error: false,
            scanned_once: false,
        }
    }

    fn give_up_action(&self, cause: StopCause, bound: &Duration) -> (r: RunAction)
        ensures
            r == self@.give_up(cause, bound@),
    {
        RunAction::GiveUp {
            cause,
            secs: bound.as_secs(),
            kill: self.on_timeout == OnTimeout::KillGroup,
        }
    }

    fn settle(&self, state: RunState, now: &Duration) -> (r: RunState)
        ensures
            r@ == settled(self@, state@, now@),
    {
        let mut state = state;
        let quiet = now.since(&state.last_growth);
        if self.capture != Capture::Inherit {
            if state.saw_error {
                if let Some((_, bound)) = &self.error_wedge {
                    if quiet.at_least(bound) {
                        state.pending = self.give_up_action(StopCause::ErrorWedge, bound);
                        return state;
                    }
                }
            }
            if let Some(bound) = &self.silent_after {
                if quiet.at_least(bound) {
                    state.pending = self.give_up_action(StopCause::Silence, bound);
                    return state;
                }
            }
        }
        if let Some(bound) = &self.timeout {
            if now.at_least(bound) {
                state.pending = self.give_up_action(StopCause::Deadline, bound);
                return state;
            }
        }
        state.pending = RunAction::Sleep;
        state
    }

    /// Whether a capture that reads `text` shows that the child reported an
    /// error.
    #[must_use]
    pub fn shows_error(&self, text: &str) -> (r: bool)
        ensures
            r == self@.shows_error(text@),
    {
        match &self.error_wedge {
            Some((marker, _)) => text::contains(text, marker.as_str()),
            None => false,
        }
    }

    /// Takes in what the caller observed, and says what to do next in the
    /// state's `pending`.
    #[must_use]
    pub fn step(&self, state: RunState, event: RunEvent) -> (r: RunState)
        ensures
            r@ == next_state(self@, state@, event@),
    {
        let mut state = state;
        match (state.pending, event) {
            (RunAction::AwaitExit, RunEvent::Exited) => {
                state.pending = RunAction::Finish;
                state
            },
            (RunAction::PollChild, RunEvent::Exited) => {
                state.pending = RunAction::Finish;
                state
            },
            (RunAction::PollChild, RunEvent::Running { now }) => {
                if self.measures() {
                    state.pending = RunAction::MeasureCapture;
                    state
                } else {
                    self.settle(state, &now)
                }
            },
            (RunAction::MeasureCapture, RunEvent::Measured { captured, now }) => {
                let grew = captured != state.last_size;
                if grew {
                    state.last_size = captured;
                    state.last_growth = now;
                }
                if self.error_wedge.is_some() && self.capture != Capture::Inherit
                    && !state.saw_error && (grew || !state.scanned_once) {
                    state.pending = RunAction::ReadCapture;
                    state
                } else {
                    self.settle(state, &now)
                }
            },
            (RunAction::ReadCapture, RunEvent::Scanned { capture, now }) => {
                state.scanned_once = true;
                if self.shows_error(from_utf8_lossy(capture.as_slice()).as_str()) {
                    state.saw_error = true;
                }
                self.settle(state, &now)
            },
            (RunAction::Sleep, RunEvent::Woke) => {
                state.pending = RunAction::PollChild;
                state
            },
            _ => state,
        }
    }
}

/// Where stderr lands beside a capture at `p` when the streams are kept apart:
/// the path with `.err` appended to its file name. An extension that is not
/// UTF-8 is replaced instead, and a path without a file name stays as it is.
pub open spec fn err_path(p: Seq<u8>) -> Seq<u8> {
    match path::file_name_range(p) {
        None => p,
        Some((start, end)) => {
            let dot = path::extension_dot(p, start, end);
            if dot is Some && !valid_utf8(p.subrange(dot->0 + 1, end)) {
                p.take(dot->0) + encode_utf8(".err"@)
            } else {
                p.take(end) + encode_utf8(".err"@)
            }
        },
    }
}

/// The files that a run with these bounds captures to.
pub open spec fn capture_files(cfg: RunConfig) -> Seq<Seq<u8>> {
    match cfg.capture {
        Capture::Merged => seq![cfg.capture_path],
        Capture::Separate => seq![cfg.capture_path, err_path(cfg.capture_path)],
        Capture::Inherit => seq![],
    }
}

/// The whole capture, given what its two files hold.
pub open spec fn whole_capture(cfg: RunConfig, main: Seq<u8>, err: Seq<u8>) -> Seq<u8> {
    match cfg.capture {
        Capture::Merged => main,
        Capture::Separate => main + err,
        Capture::Inherit => Seq::empty(),
    }
}

/// The bytes a finished run reports.
#[derive(Debug, PartialEq, Eq)]
pub struct RunOutput {
    pub stdout: Vec<u8>,
    pub stderr: Vec<u8>,
}

/// The text of the marker for `cause`.
pub open spec fn marker_of(cause: StopCause) -> Seq<char> {
    match cause {
        StopCause::Deadline => TIMEOUT_MARKER@,
        StopCause::Silence => SILENCE_MARKER@,
        StopCause::ErrorWedge => ERROR_WEDGE_MARKER@,
    }
}

/// What the message says after the number of seconds.
pub open spec fn remark_of(cause: StopCause) -> Seq<char> {
    match cause {
        StopCause::Deadline => "s\n"@,
        StopCause::Silence =>
            "s (total deadline not reached) — no output; a wedge, not slow work\n"@,
        StopCause::ErrorWedge =>
            "s — the failure is already reported below; the tree stopped winding down\n"@,
    }
}

/// The message of a run that was given up.
pub open spec fn stop_text(cause: StopCause, secs: u64, tail: Seq<char>) -> Seq<char> {
    "run "@ + marker_of(cause) + " "@ + text::decimal(secs as nat) + remark_of(cause) + tail
}

/// Writes the message of a run that was given up, followed by `tail`, the end
/// of what the child printed.
#[must_use]
pub fn stop_message(cause: StopCause, secs: u64, tail: &str) -> (r: String)
    ensures
        r@ == stop_text(cause, secs, tail@),
{
    let marker: &str = match cause {
        StopCause::Deadline => TIMEOUT_MARKER,
        StopCause::Silence => SILENCE_MARKER,
        StopCause::ErrorWedge => ERROR_WEDGE_MARKER,
    };
    let remark: &str = match cause {
        StopCause::Deadline => "s\n",
        StopCause::Silence =>
            "s (total deadline not reached) — no output; a wedge, not slow work\n",
        StopCause::ErrorWedge =>
            "s — the failure is already reported below; the tree stopped winding down\n",
    };
    let mut out = "run ".to_owned();
    out.append(marker);
    out.append(" ");
    out.append(decimal_text(secs).as_str());
    out.append(remark);
    out.append(tail);
    out
}

/// An error of this kind and text came from a blown bound.
pub open spec fn timed_out(kind: IoErrorKind, message: Seq<char>) -> bool {
    kind == IoErrorKind::TimedOut || text::contains_text(message, TIMEOUT_MARKER@)
}

/// Whether an error came from a blown deadline rather than a failed child.
///
/// The kind is the contract; the marker survives an error that was turned into
/// text by a layer that dropped the kind.
#[must_use]
pub fn is_timeout(e: &IoError) -> (r: bool)
    ensures
        r == timed_out(e.kind, e.message@),
{
    e.kind == IoErrorKind::TimedOut || text::contains(e.message.as_str(), TIMEOUT_MARKER)
}

/// Calls `rustix::process::Pid::from_raw`.
///
/// Claimed of it: a positive number is a process id and comes back as it is;
/// zero and negative numbers are none.
#[verifier::external_body]
fn pid_from_raw(raw: i32) -> (r: Option<i32>)
    ensures
        raw > 0 ==> r == Some(raw),
        raw <= 0 ==> r is None,
{
    rustix::process::Pid::from_raw(raw).map(|pid| pid.as_raw_nonzero().get())
}

/// The process group to kill for a child with this id, if the id can name one.
///
/// The group and not the process: a child that leads its own group has the
/// group's id, and its descendants must not outlive it.
#[must_use]
pub fn killable_group(child_id: u32) -> (r: Option<i32>)
    ensures
        1 <= child_id <= i32::MAX ==> r == Some(child_id as i32),
        !(1 <= child_id <= i32::MAX) ==> r is None,
{
    if child_id > i32::MAX as u32 {
        None
    } else {
        pid_from_raw(child_id as i32)
    }
}

impl<'a> BoundedRun<'a> {
    /// Where the child's output is captured.
    #[must_use]
    pub fn capture_path(&self) -> (r: &UnixPath)
        ensures
            r@ == self@.capture_path,
    {
        self.capture_path
    }

    /// How the child's output is treated.
    #[must_use]
    pub fn capture_mode(&self) -> (r: Capture)
        ensures
            r == self@.capture,
    {
        self.capture
    }

    /// How long to sleep between two looks at the child.
    #[must_use]
    pub fn pause(&self) -> (r: Duration)
        ensures
            r@ == self@.poll_interval,
    {
        self.poll_interval
    }

    /// Where stderr lands under [`Capture::Separate`].
    #[must_use]
    pub fn err_path(&self) -> (r: UnixPath)
        ensures
            r@ == err_path(self@.capture_path),
    {
        match self.capture_path.file_name_range() {
            None => self.capture_path.clone(),
            Some((start, end)) => {
                if let Some(dot) = self.capture_path.extension_dot(start, end) {
                    if !self.capture_path.range_is_utf8(dot + 1, end) {
                        return self.capture_path.cut_and_append(dot, ".err");
                    }
                }
                self.capture_path.cut_and_append(end, ".err")
            },
        }
    }

    /// The files that the run captures to, and that are removed when it ends.
    #[must_use]
    pub fn capture_files(&self) -> (r: Vec<UnixPath>)
        ensures
            r@.map_values(|p: UnixPath| p@) == capture_files(self@),
    {
        let mut files: Vec<UnixPath> = Vec::new();
        match self.capture {
            Capture::Merged => {
                files.push(self.capture_path.clone());
            },
            Capture::Separate => {
                files.push(self.capture_path.clone());
                files.push(self.err_path());
            },
            Capture::Inherit => {},
        }
        assert(files@.map_values(|p: UnixPath| p@) =~= capture_files(self@));
        files
    }

    /// Total bytes captured so far, given the sizes of the two capture files; a
    /// file that is not there counts as empty.
    #[must_use]
    pub fn captured_len(&self, main: u64, err: u64) -> (r: u64)
        requires
            self@.capture == Capture::Separate ==> main + err <= u64::MAX,
        ensures
            r == match self@.capture {
                Capture::Merged => main as int,
                Capture::Separate => main + err,
                Capture::Inherit => 0,
            },
    {
        match self.capture {
            Capture::Merged => main,
            Capture::Separate => main + err,
            Capture::Inherit => 0,
        }
    }

    /// The whole capture, given what the two capture files hold.
    #[must_use]
    pub fn capture_bytes(&self, main: Vec<u8>, err: Vec<u8>) -> (r: Vec<u8>)
        ensures
            r@ == whole_capture(self@, main@, err@),
    {
        match self.capture {
            Capture::Merged => main,
            Capture::Separate => {
                let mut all = main;
                append_bytes(&mut all, err.as_slice());
                all
            },
            Capture::Inherit => Vec::new(),
        }
    }

    /// What a finished run reports, given what the two capture files held.
    #[must_use]
    pub fn finish(&self, main: Vec<u8>, err: Vec<u8>) -> (r: RunOutput)
        ensures
            self@.capture == Capture::Merged ==> r.stdout@ == Seq::<u8>::empty() && r.stderr@
                == tail(main@, self@.tail_bytes),
            self@.capture == Capture::Separate ==> r.stdout@ == tail(main@, self@.tail_bytes)
                && r.stderr@ == tail(err@, self@.tail_bytes),
            self@.capture == Capture::Inherit ==> r.stdout@ == Seq::<u8>::empty() && r.stderr@
                == Seq::<u8>::empty(),
    {
        match self.capture {
            Capture::Merged => RunOutput {
                stdout: Vec::new(),
                stderr: tail_bytes(main, self.tail_bytes),
            },
            Capture::Separate => RunOutput {
                stdout: tail_bytes(main, self.tail_bytes),
                stderr: tail_bytes(err, self.tail_bytes),
            },
            Capture::Inherit => RunOutput { stdout: Vec::new(), stderr: Vec::new() },
        }
    }

    /// The error of a run that was given up, given what the two capture files
    /// held: it carries the tail of whatever the child managed to print.
    #[must_use]
    pub fn give_up(&self, cause: StopCause, secs: u64, main: Vec<u8>, err: Vec<u8>) -> (r: IoError)
        ensures
            r.kind == IoErrorKind::TimedOut,
            r.message@ == stop_text(
                cause,
                secs,
                utf8::shown(tail(whole_capture(self@, main@, err@), self@.tail_bytes)),
            ),
    {
        let kept = tail_bytes(self.capture_bytes(main, err), self.tail_bytes);
        let text = from_utf8_lossy(kept.as_slice());
        IoError { kind: IoErrorKind::TimedOut, message: stop_message(cause, secs, text.as_str()) }
    }
}

} // verus!
