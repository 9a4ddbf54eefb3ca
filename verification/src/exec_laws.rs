//! What holds of bounded runs as a whole.

use crate::error::{IoError, IoErrorKind};
use crate::exec;
use crate::exec::{
    BoundedRun, Capture, OnTimeout, RunAction, RunConfig, RunEvent, RunEventView, RunOutput,
    RunState, RunStateView, StopCause,
};
use crate::path;
use crate::path::{UnixPath, DOT};
use crate::text;
use crate::time::NANOS_PER_SEC;
use crate::utf8;
use vstd::prelude::*;
use vstd::utf8::*;

verus! {

// ---------------------------------------------------------------- tails

proof fn lemma_char_cut(v: Seq<u8>, from: int)
    requires
        0 <= from <= v.len(),
    ensures
        from <= exec::char_cut(v, from) <= v.len(),
        exec::char_cut(v, from) < v.len() ==> !exec::continues_char(v[exec::char_cut(v, from)]),
        forall|k: int| from <= k < exec::char_cut(v, from) ==> exec::continues_char(#[trigger] v[k]),
    decreases v.len() - from,
{
    if from < v.len() && exec::continues_char(v[from]) {
        lemma_char_cut(v, from + 1);
    }
}

/// A tail never exceeds its bound and is the end of what it was cut from.
pub proof fn law_tail_is_a_bounded_suffix(v: Seq<u8>, max: nat)
    ensures
        exec::tail(v, max).len() <= max,
        exec::tail(v, max).len() <= v.len(),
        exec::tail(v, max) == v.skip(v.len() - exec::tail(v, max).len()),
{
    if v.len() > max {
        lemma_char_cut(v, v.len() - max);
    } else {
        assert(v.skip(0) =~= v);
    }
}

/// No longer suffix within the bound starts on a character boundary.
pub proof fn law_tail_is_longest(v: Seq<u8>, max: nat, k: int)
    requires
        0 <= k <= v.len(),
        v.len() - k <= max,
        k < v.len() ==> !exec::continues_char(v[k]),
    ensures
        v.len() - k <= exec::tail(v, max).len(),
{
    if v.len() > max {
        lemma_char_cut(v, v.len() - max);
    }
}

/// What is within the bound is not touched, so cutting twice changes nothing.
pub proof fn law_tail_is_idempotent(v: Seq<u8>, max: nat)
    ensures
        v.len() <= max ==> exec::tail(v, max) == v,
        exec::tail(exec::tail(v, max), max) == exec::tail(v, max),
{
    law_tail_is_a_bounded_suffix(v, max);
}

/// The tail of UTF-8 is UTF-8: no character is cut in half.
pub proof fn law_tail_keeps_utf8(v: Seq<u8>, max: nat)
    requires
        valid_utf8(v),
    ensures
        valid_utf8(exec::tail(v, max)),
{
    if v.len() > max {
        let from = v.len() - max;
        let cut = exec::char_cut(v, from);
        lemma_char_cut(v, from);
        is_char_boundary_start_end_of_seq(v);
        if cut < v.len() {
            is_char_boundary_iff_not_is_continuation_byte(v, cut);
        }
        valid_utf8_split(v, cut);
        assert(v.skip(cut) =~= v.subrange(cut, v.len() as int));
    }
}

// ------------------------------------------------------- capture files

proof fn lemma_err_suffix()
    ensures
        encode_utf8(".err"@).len() == 4,
        encode_utf8(".err"@)[0] == DOT,
{
    reveal_strlit(".err");
    is_ascii_chars_encode_utf8(".err"@);
}

proof fn lemma_extension_dot(p: Seq<u8>, start: int, end: int)
    requires
        0 <= start <= end <= p.len(),
    ensures
        path::extension_dot(p, start, end) matches Some(d) ==> start < d < end && p[d]
            == DOT,
    decreases end - start,
{
    if end > start + 1 && p[end - 1] != DOT {
        lemma_extension_dot(p, start, end - 1);
    }
}

/// Two separate streams never share a capture file, as long as the capture path
/// names a file.
pub proof fn law_separate_captures_differ(p: Seq<u8>)
    requires
        path::file_name_range(p) is Some,
    ensures
        exec::err_path(p) != p,
{
    let (start, end) = path::file_name_range(p)->0;
    path::lemma_file_name_range(p);
    lemma_extension_dot(p, start, end);
    lemma_err_suffix();
    let suffix = encode_utf8(".err"@);
    let dot = path::extension_dot(p, start, end);
    if dot is Some && !valid_utf8(p.subrange(dot->0 + 1, end)) {
        if exec::err_path(p) == p {
            // Then the extension would be `err` itself, which is UTF-8.
            let d = dot->0;
            reveal_strlit("err");
            reveal_strlit(".err");
            is_ascii_chars_encode_utf8("err"@);
            is_ascii_chars_encode_utf8(".err"@);
            encode_utf8_valid_utf8("err"@);
            assert(p[d + 1] == suffix[1] && p[d + 2] == suffix[2] && p[d + 3] == suffix[3]);
            assert(p.subrange(d + 1, end) =~= encode_utf8("err"@));
        }
    } else if exec::err_path(p) == p {
        assert(p[end] == suffix[0]);
    }
}

/// For a path that ends in its file name, stderr lands in the same path with
/// `.err` appended, unless its extension is not UTF-8.
pub proof fn law_err_path_appends(p: Seq<u8>, start: int)
    requires
        path::file_name_range(p) == Some((start, p.len() as int)),
        path::extension_dot(p, start, p.len() as int) matches Some(d) ==> valid_utf8(
            p.subrange(d + 1, p.len() as int),
        ),
    ensures
        exec::err_path(p) == p + encode_utf8(".err"@),
{
    assert(p.take(p.len() as int) =~= p);
}

proof fn lemma_last_dot(p: Seq<u8>, start: int, dot: int, end: int)
    requires
        0 <= start <= dot < end <= p.len(),
        dot > start ==> p[dot] == DOT,
        forall|i: int| dot < i < end ==> p[i] != DOT,
    ensures
        path::extension_dot(p, start, end) == if dot > start {
            Some(dot)
        } else {
            None
        },
    decreases end - start,
{
    if end > dot + 1 {
        lemma_last_dot(p, start, dot, end - 1);
    }
}

/// Where stderr lands, by the parts of the capture path: a directory part, a
/// name made of a stem and an extension, and separators that may follow. The
/// name gets `.err` behind it, extension and all; an extension that is not UTF-8
/// makes way for it.
pub proof fn law_err_path_by_parts(dir: Seq<u8>, stem: Seq<u8>, ext: Seq<u8>, more: Seq<u8>)
    requires
        dir.len() == 0 || dir.last() == '/' as u8,
        stem.len() > 0,
        forall|i: int| 0 <= i < stem.len() ==> stem[i] != '/' as u8,
        forall|i: int| 0 <= i < ext.len() ==> ext[i] != '/' as u8 && ext[i] != '.' as u8,
        forall|i: int| 0 <= i < more.len() ==> more[i] == '/' as u8,
    ensures
        // A name with an extension.
        stem + seq!['.' as u8] + ext != seq!['.' as u8, '.' as u8] ==> exec::err_path(
            dir + (stem + seq!['.' as u8] + ext) + more,
        ) == dir + stem + if valid_utf8(ext) {
            seq!['.' as u8] + ext
        } else {
            seq![]
        } + encode_utf8(".err"@),
        // A name without one: there is no dot but a leading one.
        stem != seq!['.' as u8] && (forall|i: int| 0 < i < stem.len() ==> stem[i] != '.' as u8)
            && stem != seq!['.' as u8, '.' as u8] ==> exec::err_path(dir + stem + more) == dir + stem
            + encode_utf8(".err"@),
        // No name at all.
        exec::err_path(dir + seq!['.' as u8, '.' as u8] + more) == dir + seq!['.' as u8, '.' as u8]
            + more,
{
    let n = dir.len() as int;
    let dot = seq!['.' as u8];
    let dots = seq!['.' as u8, '.' as u8];
    path::lemma_file_name(dir, dots, more);
    let name = stem + dot + ext;
    assert forall|i: int| 0 <= i < name.len() implies name[i] != '/' as u8 by {
        if i < stem.len() {
            assert(name[i] == stem[i]);
        } else if i > stem.len() {
            assert(name[i] == ext[i - stem.len() - 1]);
        }
    }
    assert(name.len() > 1);
    if name != dots {
        let p = dir + name + more;
        let end = n + name.len();
        path::lemma_file_name(dir, name, more);
        assert forall|i: int| n + stem.len() < i < end implies p[i] != DOT by {
            assert(p[i] == ext[i - n - stem.len() - 1]);
        }
        assert(p[n + stem.len()] == DOT);
        lemma_last_dot(p, n, n + stem.len(), end);
        assert(p.subrange(n + stem.len() + 1, end) =~= ext);
        assert(p.take(end) =~= dir + stem + (dot + ext));
        assert(p.take(n + stem.len()) =~= dir + stem + seq![]);
        assert(p =~= dir + (stem + dot + ext) + more);
    }
    if stem != dot && stem != dots && (forall|i: int| 0 < i < stem.len() ==> stem[i] != '.' as u8) {
        let p = dir + stem + more;
        let end = n + stem.len();
        path::lemma_file_name(dir, stem, more);
        assert forall|i: int| n < i < end implies p[i] != DOT by {
            assert(p[i] == stem[i - n]);
        }
        lemma_last_dot(p, n, n, end);
        assert(p.take(end) =~= dir + stem);
    }
}

/// A separator behind the capture path, with or without a `.` behind it, does not
/// change where stderr lands, as long as the path names a file.
pub proof fn law_err_path_passes_over_the_end(p: Seq<u8>)
    requires
        p.len() > 0,
        exec::err_path(p) != p,
    ensures
        exec::err_path(p + seq!['/' as u8]) == exec::err_path(p),
        exec::err_path(p + seq!['/' as u8, '.' as u8]) == exec::err_path(p),
{
    lemma_err_path_with(p, seq!['/' as u8]);
    lemma_err_path_with(p, seq!['/' as u8, '.' as u8]);
}

proof fn lemma_err_path_with(p: Seq<u8>, more: Seq<u8>)
    requires
        p.len() > 0,
        exec::err_path(p) != p,
        more == seq!['/' as u8] || more == seq!['/' as u8, '.' as u8],
    ensures
        exec::err_path(p + more) == exec::err_path(p),
{
    let q = p + more;
    path::lemma_same_file_name(p, more);
    let (start, end) = path::file_name_range(p)->0;
    path::lemma_file_name_range(p);
    lemma_dot_in_prefix(p, q, start, end);
    lemma_extension_dot(p, start, end);
    assert(q.take(end) =~= p.take(end));
    match path::extension_dot(p, start, end) {
        Some(d) => {
            assert(q.subrange(d + 1, end) =~= p.subrange(d + 1, end));
            assert(q.take(d) =~= p.take(d));
        },
        None => {},
    }
}

proof fn lemma_dot_in_prefix(p: Seq<u8>, q: Seq<u8>, start: int, end: int)
    requires
        0 <= start <= end <= p.len() <= q.len(),
        forall|i: int| 0 <= i < p.len() ==> q[i] == p[i],
    ensures
        path::extension_dot(q, start, end) == path::extension_dot(p, start, end),
    decreases end - start,
{
    if end > start + 1 {
        lemma_dot_in_prefix(p, q, start, end - 1);
    }
}

// -------------------------------------------------- the course of a run

/// The state that `events` lead to from `s`.
pub open spec fn run_from(cfg: RunConfig, s: RunStateView, events: Seq<RunEventView>) -> RunStateView
    decreases events.len(),
{
    if events.len() == 0 {
        s
    } else {
        exec::next_state(cfg, run_from(cfg, s, events.drop_last()), events.last())
    }
}

/// `e` is what comes of doing `action`.
pub open spec fn answers(action: RunAction, e: RunEventView) -> bool {
    match action {
        RunAction::AwaitExit => e is Exited,
        RunAction::PollChild => e is Exited || e is Running,
        RunAction::MeasureCapture => e is Measured,
        RunAction::ReadCapture => e is Scanned,
        RunAction::Sleep => e is Woke,
        RunAction::Finish | RunAction::GiveUp { .. } => false,
    }
}

/// There is nothing left to do but to report.
pub open spec fn over(action: RunAction) -> bool {
    action is Finish || action is GiveUp
}

/// The clock reading that came with `e`.
pub open spec fn reading(e: RunEventView) -> Option<nat> {
    match e {
        RunEventView::Running { now } => Some(now),
        RunEventView::Measured { now, .. } => Some(now),
        RunEventView::Scanned { now, .. } => Some(now),
        _ => None,
    }
}

/// `e` is a scan of a capture that holds the error marker.
pub open spec fn shows_error(cfg: RunConfig, e: RunEventView) -> bool {
    &&& e matches RunEventView::Scanned { capture, .. }
    &&& cfg.shows_error(utf8::shown(capture))
}

/// A child that has exited is never reported as hung, however late it is seen.
pub proof fn law_exit_is_not_a_timeout(cfg: RunConfig, s: RunStateView)
    requires
        s.pending == RunAction::PollChild || s.pending == RunAction::AwaitExit,
    ensures
        exec::next_state(cfg, s, RunEventView::Exited).pending == RunAction::Finish,
{
}

/// A run that is over stays over.
pub proof fn law_end_is_final(cfg: RunConfig, s: RunStateView, events: Seq<RunEventView>)
    requires
        over(s.pending),
    ensures
        run_from(cfg, s, events) == s,
    decreases events.len(),
{
    if events.len() > 0 {
        law_end_is_final(cfg, s, events.drop_last());
    }
}

/// A run is given up for a bound that was set and that the clock has passed,
/// and the group is killed exactly when the run was told to.
pub proof fn law_give_up_is_earned(cfg: RunConfig, s: RunStateView, e: RunEventView)
    requires
        !over(s.pending),
    ensures
        exec::next_state(cfg, s, e).pending matches RunAction::GiveUp { cause, secs, kill } ==> {
            let after = exec::next_state(cfg, s, e);
            &&& reading(e) is Some
            &&& cfg.bound(cause) is Some
            &&& secs == (cfg.bound(cause)->0 / NANOS_PER_SEC as nat) as u64
            &&& kill == (cfg.on_timeout == OnTimeout::KillGroup)
            &&& match cause {
                StopCause::Deadline => reading(e)->0 >= cfg.bound(cause)->0,
                StopCause::Silence => cfg.watches_silence() && exec::quiet_for(
                    after,
                    reading(e)->0,
                ) >= cfg.bound(cause)->0,
                StopCause::ErrorWedge => cfg.watches_error() && after.saw_error
                    && exec::quiet_for(after, reading(e)->0) >= cfg.bound(cause)->0,
            }
        },
{
}

/// The more specific cause is reported where several bounds are blown at once.
pub proof fn law_specific_cause_wins(cfg: RunConfig, s: RunStateView, now: nat)
    ensures
        exec::settled(cfg, s, now).pending matches RunAction::GiveUp { cause, .. } ==> {
            &&& cause == StopCause::Silence ==> !(cfg.watches_error() && s.saw_error
                && exec::quiet_for(s, now) >= (cfg.error_wedge->0).1)
            &&& cause == StopCause::Deadline ==> !(cfg.watches_error() && s.saw_error
                && exec::quiet_for(s, now) >= (cfg.error_wedge->0).1) && !(cfg.watches_silence()
                && exec::quiet_for(s, now) >= cfg.silent_after->0)
        },
{
}

/// Every byte written resets the clock: a measurement that shows growth gives
/// the run up for neither quiet bound.
pub proof fn law_growth_resets_the_clock(
    cfg: RunConfig,
    s: RunStateView,
    captured: u64,
    now: nat,
)
    requires
        s.pending == RunAction::MeasureCapture,
        captured != s.last_size,
        cfg.bound(StopCause::Silence) != Some(0nat),
        cfg.bound(StopCause::ErrorWedge) != Some(0nat),
    ensures
        ({
            let after = exec::next_state(cfg, s, RunEventView::Measured { captured, now });
            &&& after.last_growth == now
            &&& after.last_size == captured
            &&& after.pending matches RunAction::GiveUp { cause, .. } ==> cause
                == StopCause::Deadline
        }),
{
}

/// Once the child has reported an error, that is not forgotten.
pub proof fn law_error_is_remembered(cfg: RunConfig, s: RunStateView, events: Seq<RunEventView>)
    requires
        s.saw_error,
    ensures
        run_from(cfg, s, events).saw_error,
    decreases events.len(),
{
    if events.len() > 0 {
        law_error_is_remembered(cfg, s, events.drop_last());
    }
}

/// A child is only taken to have reported an error, and a run only given up for
/// it, when some scan showed the marker: quiet work is no wedge.
pub proof fn law_error_wedge_needs_an_error(
    cfg: RunConfig,
    captured: u64,
    now: nat,
    events: Seq<RunEventView>,
)
    ensures
        ({
            let s = run_from(cfg, exec::first_state(cfg, captured, now), events);
            ||| exists|i: int| 0 <= i < events.len() && shows_error(cfg, #[trigger] events[i])
            ||| !s.saw_error && !(s.pending matches RunAction::GiveUp {
                cause: StopCause::ErrorWedge,
                ..
            })
        }),
    decreases events.len(),
{
    if events.len() > 0 {
        let before = events.drop_last();
        law_error_wedge_needs_an_error(cfg, captured, now, before);
        if exists|i: int| 0 <= i < before.len() && shows_error(cfg, #[trigger] before[i]) {
            let i = choose|i: int| 0 <= i < before.len() && shows_error(cfg, #[trigger] before[i]);
            assert(events[i] == before[i]);
        } else {
            assert(events.last() == events[events.len() - 1]);
        }
    }
}

/// Without a capture, only the deadline applies: nothing is measured or
/// scanned, and neither quiet bound ends the run.
pub proof fn law_inherit_has_only_a_deadline(
    cfg: RunConfig,
    captured: u64,
    now: nat,
    events: Seq<RunEventView>,
)
    requires
        cfg.capture == Capture::Inherit,
    ensures
        ({
            let s = run_from(cfg, exec::first_state(cfg, captured, now), events);
            &&& !(s.pending is MeasureCapture)
            &&& !(s.pending is ReadCapture)
            &&& s.pending matches RunAction::GiveUp { cause, .. } ==> cause == StopCause::Deadline
        }),
    decreases events.len(),
{
    if events.len() > 0 {
        law_inherit_has_only_a_deadline(cfg, captured, now, events.drop_last());
    }
}

/// A run is polled as soon as any bound that can fire is set.
pub proof fn law_any_bound_is_watched(cfg: RunConfig, captured: u64, now: nat)
    ensures
        exec::first_state(cfg, captured, now).pending == RunAction::PollChild
            <==> cfg.timeout is Some || cfg.watches_silence() || cfg.watches_error(),
{
}

/// A run without any bound that can fire waits for its child and is never given
/// up.
pub proof fn law_unbounded_run_waits(
    cfg: RunConfig,
    captured: u64,
    now: nat,
    events: Seq<RunEventView>,
)
    requires
        cfg.timeout is None,
        !cfg.watches_capture(),
    ensures
        ({
            let s = run_from(cfg, exec::first_state(cfg, captured, now), events);
            s.pending == RunAction::AwaitExit || s.pending == RunAction::Finish
        }),
    decreases events.len(),
{
    if events.len() > 0 {
        law_unbounded_run_waits(cfg, captured, now, events.drop_last());
    }
}

/// A round is short: at most three answers lead from looking at the child to
/// sleeping or to the end.
pub proof fn law_round_is_short(
    cfg: RunConfig,
    s: RunStateView,
    e1: RunEventView,
    e2: RunEventView,
    e3: RunEventView,
)
    requires
        s.pending == RunAction::PollChild,
        answers(s.pending, e1),
        ({
            let s1 = exec::next_state(cfg, s, e1);
            let s2 = exec::next_state(cfg, s1, e2);
            &&& s1.pending is Sleep || over(s1.pending) || answers(s1.pending, e2)
            &&& s1.pending is Sleep || s2.pending is Sleep || over(s2.pending) || answers(
                s2.pending,
                e3,
            )
        }),
    ensures
        ({
            let s1 = exec::next_state(cfg, s, e1);
            let s2 = exec::next_state(cfg, s1, e2);
            let s3 = exec::next_state(cfg, s2, e3);
            ||| s1.pending is Sleep || over(s1.pending)
            ||| s2.pending is Sleep || over(s2.pending)
            ||| s3.pending is Sleep || over(s3.pending)
        }),
{
}

proof fn lemma_three_events(
    cfg: RunConfig,
    s: RunStateView,
    e1: RunEventView,
    e2: RunEventView,
    e3: RunEventView,
)
    ensures
        run_from(cfg, s, seq![e1, e2, e3]) == exec::next_state(
            cfg,
            exec::next_state(cfg, exec::next_state(cfg, s, e1), e2),
            e3,
        ),
{
    reveal_with_fuel(run_from, 4);
    let all = seq![e1, e2, e3];
    assert(all.drop_last() =~= seq![e1, e2]);
    assert(all.drop_last().drop_last() =~= seq![e1]);
    assert(all.drop_last().drop_last().drop_last() =~= seq![]);
}

/// A run always ends: the first round that starts past the deadline is the last
/// one. At most three answers lead from looking at the child to the end.
pub proof fn law_deadline_ends_the_run(
    cfg: RunConfig,
    s: RunStateView,
    e1: RunEventView,
    e2: RunEventView,
    e3: RunEventView,
)
    requires
        cfg.timeout is Some,
        s.pending == RunAction::PollChild,
        answers(s.pending, e1),
        ({
            let s1 = exec::next_state(cfg, s, e1);
            let s2 = exec::next_state(cfg, s1, e2);
            &&& over(s1.pending) || answers(s1.pending, e2)
            &&& over(s2.pending) || answers(s2.pending, e3)
        }),
        forall|e: RunEventView|
            (e == e1 || e == e2 || e == e3) && #[trigger] reading(e) is Some ==> reading(e)->0
                >= cfg.timeout->0,
    ensures
        over(run_from(cfg, s, seq![e1, e2, e3]).pending),
{
    lemma_three_events(cfg, s, e1, e2, e3);
    assert(reading(e1) is Some || e1 is Exited);
    let s1 = exec::next_state(cfg, s, e1);
    assert(reading(e2) is Some || over(s1.pending));
    assert(reading(e3) is Some || over(exec::next_state(cfg, s1, e2).pending));
}

/// Quiet ends a run, with or without a deadline: once the capture has not
/// changed for the silence bound, or for the quiet bound after a reported error,
/// the round that finds it so is the last one.
pub proof fn law_quiet_ends_the_run(
    cfg: RunConfig,
    s: RunStateView,
    cause: StopCause,
    e1: RunEventView,
    e2: RunEventView,
    e3: RunEventView,
)
    requires
        s.pending == RunAction::PollChild,
        match cause {
            StopCause::Silence => cfg.watches_silence(),
            StopCause::ErrorWedge => cfg.watches_error() && s.saw_error,
            StopCause::Deadline => false,
        },
        answers(s.pending, e1),
        ({
            let s1 = exec::next_state(cfg, s, e1);
            let s2 = exec::next_state(cfg, s1, e2);
            &&& over(s1.pending) || answers(s1.pending, e2)
            &&& over(s2.pending) || answers(s2.pending, e3)
        }),
        forall|e: RunEventView|
            (e == e1 || e == e2 || e == e3) && #[trigger] reading(e) is Some ==> reading(e)->0
                - s.last_growth >= cfg.bound(cause)->0,
        e2 matches RunEventView::Measured { captured, .. } ==> captured == s.last_size,
    ensures
        over(run_from(cfg, s, seq![e1, e2, e3]).pending),
        e1 is Running ==> run_from(cfg, s, seq![e1, e2, e3]).pending is GiveUp,
{
    lemma_three_events(cfg, s, e1, e2, e3);
    assert(reading(e1) is Some || e1 is Exited);
    let s1 = exec::next_state(cfg, s, e1);
    assert(reading(e2) is Some || over(s1.pending));
    assert(reading(e3) is Some || over(exec::next_state(cfg, s1, e2).pending));
}

/// `events[i]` is a measurement that was asked for.
pub open spec fn measurement_at(
    cfg: RunConfig,
    s: RunStateView,
    events: Seq<RunEventView>,
    i: int,
) -> bool {
    run_from(cfg, s, events.take(i)).pending is MeasureCapture && events[i] is Measured
}

/// Of the first `k` events the last one, or the start of the run if `k` is 0,
/// showed the capture at `size` at the reading `at`, and no measurement since
/// has shown another size.
pub open spec fn unchanged_since(
    cfg: RunConfig,
    s: RunStateView,
    events: Seq<RunEventView>,
    k: int,
    size: u64,
    at: nat,
) -> bool {
    &&& 0 <= k <= events.len()
    &&& k == 0 ==> size == s.last_size && at == s.last_growth
    &&& k > 0 ==> measurement_at(cfg, s, events, k - 1) && events[k - 1]->captured == size
        && events[k - 1]->Measured_now == at
    &&& forall|i: int|
        k <= i < events.len() && #[trigger] measurement_at(cfg, s, events, i)
            ==> events[i]->captured == size
}

/// The quiet clock runs from the last change of the capture's size: whatever
/// the course of a run, its size has not changed since the reading that the
/// quiet bounds are counted from.
pub proof fn law_quiet_clock(cfg: RunConfig, s: RunStateView, events: Seq<RunEventView>)
    ensures
        ({
            let after = run_from(cfg, s, events);
            exists|k: int|
                unchanged_since(cfg, s, events, k, after.last_size, after.last_growth)
        }),
    decreases events.len(),
{
    let after = run_from(cfg, s, events);
    if events.len() == 0 {
        assert(unchanged_since(cfg, s, events, 0, after.last_size, after.last_growth));
    } else {
        let n = events.len() - 1;
        let before = events.drop_last();
        let mid = run_from(cfg, s, before);
        law_quiet_clock(cfg, s, before);
        let k = choose|k: int| unchanged_since(cfg, s, before, k, mid.last_size, mid.last_growth);
        assert(events.take(n) =~= before);
        assert forall|i: int| 0 <= i < n implies #[trigger] measurement_at(cfg, s, events, i)
            == measurement_at(cfg, s, before, i) by {
            assert(events.take(i) =~= before.take(i));
        }
        if after.last_size != mid.last_size {
            assert(measurement_at(cfg, s, events, n));
            assert(unchanged_since(cfg, s, events, n + 1, after.last_size, after.last_growth));
        } else {
            assert(after.last_growth == mid.last_growth);
            assert(unchanged_since(cfg, s, events, k, after.last_size, after.last_growth));
        }
    }
}

/// A run that is making progress is never given up as quiet: where it is given
/// up for a quiet bound, no measurement has shown the capture change for at
/// least that bound.
pub proof fn law_quiet_run_was_quiet(
    cfg: RunConfig,
    s: RunStateView,
    events: Seq<RunEventView>,
    e: RunEventView,
    cause: StopCause,
    secs: u64,
    kill: bool,
)
    requires
        !over(run_from(cfg, s, events).pending),
        run_from(cfg, s, events.push(e)).pending == (RunAction::GiveUp { cause, secs, kill }),
        cause != StopCause::Deadline,
        cfg.bound(cause) != Some(0nat),
    ensures
        exists|k: int, size: u64, at: nat|
            unchanged_since(cfg, s, events.push(e), k, size, at) && reading(e)->0 - at
                >= cfg.bound(cause)->0,
{
    let all = events.push(e);
    let after = run_from(cfg, s, all);
    assert(all.drop_last() =~= events);
    law_give_up_is_earned(cfg, run_from(cfg, s, events), e);
    law_quiet_clock(cfg, s, all);
    let k = choose|k: int| unchanged_since(cfg, s, all, k, after.last_size, after.last_growth);
    assert(unchanged_since(cfg, s, all, k, after.last_size, after.last_growth));
}

// --------------------------------------------------------- the reports

/// A report opens with the marker of its cause, so it contains it too.
pub proof fn law_report_names_its_cause(cause: StopCause, secs: u64, tail: Seq<char>)
    ensures
        text::starts_with(exec::stop_text(cause, secs, tail), "run "@ + exec::marker_of(cause)),
        text::contains_text(exec::stop_text(cause, secs, tail), exec::marker_of(cause)),
{
    let report = exec::stop_text(cause, secs, tail);
    let opening = "run "@ + exec::marker_of(cause);
    assert(report.take(opening.len() as int) =~= opening);
    assert(report.subrange("run "@.len() as int, opening.len() as int) =~= exec::marker_of(cause));
    assert(text::occurs_at(report, exec::marker_of(cause), "run "@.len() as int));
}

/// No report of one cause reads like a report of another.
pub proof fn law_causes_are_told_apart(
    a: StopCause,
    secs_a: u64,
    tail_a: Seq<char>,
    b: StopCause,
    secs_b: u64,
    tail_b: Seq<char>,
)
    requires
        a != b,
    ensures
        exec::stop_text(a, secs_a, tail_a) != exec::stop_text(b, secs_b, tail_b),
{
    reveal_strlit("run ");
    reveal_strlit("timed out after");
    reveal_strlit("silent for");
    reveal_strlit("reported an error then went quiet for");
    assert(exec::stop_text(a, secs_a, tail_a)[4] == exec::marker_of(a)[0]);
    assert(exec::stop_text(b, secs_b, tail_b)[4] == exec::marker_of(b)[0]);
}

/// A blown deadline is recognised by its text alone, so it survives a layer
/// that drops the kind of the error; every other report by its kind.
pub proof fn law_reports_are_recognised(cause: StopCause, secs: u64, tail: Seq<char>)
    ensures
        exec::timed_out(IoErrorKind::TimedOut, exec::stop_text(cause, secs, tail)),
        cause == StopCause::Deadline ==> forall|kind: IoErrorKind|
            exec::timed_out(kind, exec::stop_text(cause, secs, tail)),
{
    law_report_names_its_cause(cause, secs, tail);
}

// ------------------------------------------------- one step at a time

/// How long the capture had stood still at the reading `now`, going by `s`.
pub open spec fn stood_still(s: RunStateView, now: nat) -> int {
    if now >= s.last_growth {
        now - s.last_growth
    } else {
        0
    }
}

/// A run with these bounds has a capture, and something to look for in it.
pub open spec fn has_quiet_bound(cfg: RunConfig) -> bool {
    cfg.capture != Capture::Inherit && (cfg.silent_after is Some || cfg.error_wedge is Some)
}

/// The child reported an error and the capture has stood still for the quiet
/// bound since.
pub open spec fn wedged(cfg: RunConfig, s: RunStateView, now: nat) -> bool {
    &&& cfg.capture != Capture::Inherit
    &&& cfg.error_wedge matches Some((_, quiet))
    &&& s.saw_error
    &&& stood_still(s, now) >= quiet
}

/// The capture has stood still for the silence bound.
pub open spec fn fell_silent(cfg: RunConfig, s: RunStateView, now: nat) -> bool {
    &&& cfg.capture != Capture::Inherit
    &&& cfg.silent_after matches Some(bound)
    &&& stood_still(s, now) >= bound
}

/// The total deadline has passed.
pub open spec fn late(cfg: RunConfig, now: nat) -> bool {
    cfg.timeout matches Some(bound) && now >= bound
}

/// `text` holds `marker` somewhere.
pub open spec fn holds(text: Seq<char>, marker: Seq<char>) -> bool {
    exists|before: Seq<char>, after: Seq<char>| text == #[trigger] (before + marker + after)
}

/// A run is told to finish by its child's exit and by nothing else: a child that
/// is still running is never left to be waited for without a bound.
pub proof fn law_only_an_exit_finishes(cfg: RunConfig, s: RunStateView, e: RunEventView)
    requires
        !over(s.pending),
    ensures
        exec::next_state(cfg, s, e).pending is Finish <==> e is Exited && (s.pending is PollChild
            || s.pending is AwaitExit),
{
}

/// The end of a round is a sleep exactly when no bound is blown. Otherwise the
/// run is given up for a blown bound, an error wedge before silence and silence
/// before the deadline; the report names the whole seconds of that bound, and
/// the group is killed exactly if the run is set to.
pub proof fn law_round_ends_by_the_bounds(
    cfg: RunConfig,
    s: RunStateView,
    e: RunEventView,
    now: nat,
)
    requires
        !over(s.pending),
        answers(s.pending, e),
        reading(e) == Some(now),
        exec::next_state(cfg, s, e).pending is Sleep || exec::next_state(cfg, s, e).pending
            is GiveUp,
    ensures
        ({
            let after = exec::next_state(cfg, s, e);
            let kill = cfg.on_timeout is KillGroup;
            &&& after.pending is Sleep <==> !wedged(cfg, after, now) && !fell_silent(
                cfg,
                after,
                now,
            ) && !late(cfg, now)
            &&& wedged(cfg, after, now) ==> after.pending == (RunAction::GiveUp {
                cause: StopCause::ErrorWedge,
                secs: ((cfg.error_wedge->0).1 / 1_000_000_000) as u64,
                kill,
            })
            &&& fell_silent(cfg, after, now) && !wedged(cfg, after, now) ==> after.pending == (
            RunAction::GiveUp {
                cause: StopCause::Silence,
                secs: (cfg.silent_after->0 / 1_000_000_000) as u64,
                kill,
            })
            &&& late(cfg, now) && !fell_silent(cfg, after, now) && !wedged(cfg, after, now)
                ==> after.pending == (RunAction::GiveUp {
                cause: StopCause::Deadline,
                secs: (cfg.timeout->0 / 1_000_000_000) as u64,
                kill,
            })
        }),
{
}

/// What follows the look at a child that still runs: the capture is measured
/// exactly if there is a quiet bound to hold it to, and otherwise the round ends.
pub proof fn law_running_child_is_measured(cfg: RunConfig, s: RunStateView, now: nat)
    requires
        s.pending is PollChild,
    ensures
        ({
            let after = exec::next_state(cfg, s, RunEventView::Running { now });
            if has_quiet_bound(cfg) {
                after.pending is MeasureCapture
            } else {
                after.pending is Sleep || after.pending is GiveUp
            }
        }),
{
}

/// What follows a measurement: where an error is looked for and none was seen
/// yet, a capture that has changed is read, and so is one that was never read;
/// one that has not changed since it was read is not read again.
pub proof fn law_changed_capture_is_read(
    cfg: RunConfig,
    s: RunStateView,
    captured: u64,
    now: nat,
)
    requires
        s.pending is MeasureCapture,
    ensures
        ({
            let after = exec::next_state(cfg, s, RunEventView::Measured { captured, now });
            let sought = cfg.capture != Capture::Inherit && cfg.error_wedge is Some
                && !s.saw_error;
            &&& sought && captured != s.last_size ==> after.pending is ReadCapture
            &&& sought && !s.scanned_once ==> after.pending is ReadCapture
            &&& !sought || (captured == s.last_size && s.scanned_once) ==> after.pending is Sleep
                || after.pending is GiveUp
        }),
{
}

/// A measurement is remembered, and restarts the quiet clock exactly if it shows
/// another size; it says nothing about errors.
pub proof fn law_measurement_is_remembered(
    cfg: RunConfig,
    s: RunStateView,
    captured: u64,
    now: nat,
)
    requires
        s.pending is MeasureCapture,
    ensures
        ({
            let after = exec::next_state(cfg, s, RunEventView::Measured { captured, now });
            &&& after.last_size == captured
            &&& captured != s.last_size ==> after.last_growth == now
            &&& captured == s.last_size ==> after.last_growth == s.last_growth
            &&& after.saw_error == s.saw_error
            &&& after.scanned_once == s.scanned_once
        }),
{
}

proof fn lemma_holds(hay: Seq<char>, needle: Seq<char>)
    ensures
        text::contains_text(hay, needle) <==> holds(hay, needle),
{
    if text::contains_text(hay, needle) {
        let i = choose|i: int| text::occurs_at(hay, needle, i);
        let before = hay.take(i);
        let after = hay.skip(i + needle.len());
        assert(hay =~= before + needle + after);
    }
    if holds(hay, needle) {
        let (before, after) = choose|before: Seq<char>, after: Seq<char>|
            hay == #[trigger] (before + needle + after);
        assert(hay.subrange(before.len() as int, (before.len() + needle.len()) as int) =~= needle);
        assert(text::occurs_at(hay, needle, before.len() as int));
    }
}

/// A reading of the capture shows an error exactly if the text holds the marker,
/// ends the round, and leaves the quiet clock alone.
pub proof fn law_reading_shows_the_marker(
    cfg: RunConfig,
    s: RunStateView,
    capture: Seq<u8>,
    now: nat,
    marker: Seq<char>,
    quiet: nat,
)
    requires
        s.pending is ReadCapture,
        cfg.error_wedge == Some((marker, quiet)),
    ensures
        ({
            let after = exec::next_state(cfg, s, RunEventView::Scanned { capture, now });
            &&& after.saw_error <==> s.saw_error || holds(utf8::shown(capture), marker)
            &&& after.scanned_once
            &&& after.last_size == s.last_size
            &&& after.last_growth == s.last_growth
            &&& after.pending is Sleep || after.pending is GiveUp
        }),
{
    lemma_holds(utf8::shown(capture), marker);
}

/// An error that the child prints is seen in the round in which the capture has
/// changed: the capture is read, and if it holds the marker that is known from
/// then on.
pub proof fn law_printed_error_is_seen(
    cfg: RunConfig,
    s: RunStateView,
    captured: u64,
    measured_at: nat,
    capture: Seq<u8>,
    read_at: nat,
    marker: Seq<char>,
    quiet: nat,
)
    requires
        s.pending is MeasureCapture,
        cfg.error_wedge == Some((marker, quiet)),
        cfg.capture != Capture::Inherit,
        captured != s.last_size,
        holds(utf8::shown(capture), marker),
    ensures
        ({
            let read = run_from(
                cfg,
                s,
                seq![
                    RunEventView::Measured { captured, now: measured_at },
                    RunEventView::Scanned { capture, now: read_at },
                ],
            );
            &&& read.saw_error
            &&& !s.saw_error && read_at - measured_at >= quiet ==> read.pending matches
                RunAction::GiveUp { cause: StopCause::ErrorWedge, .. }
        }),
{
    let events = seq![
        RunEventView::Measured { captured, now: measured_at },
        RunEventView::Scanned { capture, now: read_at },
    ];
    reveal_with_fuel(run_from, 3);
    assert(events.drop_last() =~= seq![events[0]]);
    assert(events.drop_last().drop_last() =~= seq![]);
    lemma_holds(utf8::shown(capture), marker);
}

/// Everything else a run is told leaves what it has measured and seen alone: it
/// looks at the child again after a sleep, and an event that answers nothing
/// changes nothing.
pub proof fn law_other_steps(cfg: RunConfig, s: RunStateView, e: RunEventView)
    ensures
        ({
            let after = exec::next_state(cfg, s, e);
            &&& !answers(s.pending, e) ==> after == s
            &&& s.pending is Sleep && e is Woke ==> after.pending is PollChild
            &&& !(e is Measured) && !(e is Scanned) ==> after.last_size == s.last_size
                && after.last_growth == s.last_growth && after.saw_error == s.saw_error
                && after.scanned_once == s.scanned_once
        }),
{
}

/// A run starts its quiet clock when it starts, has seen nothing yet, and looks
/// at its child again and again exactly if some bound can end it.
pub proof fn law_start_of_a_run(cfg: RunConfig, captured: u64, now: nat)
    ensures
        ({
            let s = exec::first_state(cfg, captured, now);
            &&& s.last_size == captured
            &&& s.last_growth == now
            &&& !s.saw_error
            &&& !s.scanned_once
            &&& s.pending is PollChild <==> cfg.timeout is Some || has_quiet_bound(cfg)
            &&& s.pending is AwaitExit <==> cfg.timeout is None && !has_quiet_bound(cfg)
        }),
{
}

/// A deadline is kept whatever else is watched: a round that finds the child
/// running, with every reading past the deadline and no quiet bound blown, ends
/// in giving the run up for its deadline.
pub proof fn law_deadline_is_kept(
    cfg: RunConfig,
    s: RunStateView,
    e1: RunEventView,
    e2: RunEventView,
    e3: RunEventView,
    timeout: nat,
)
    requires
        cfg.timeout == Some(timeout),
        s.pending is PollChild,
        e1 is Running,
        ({
            let s1 = exec::next_state(cfg, s, e1);
            let s2 = exec::next_state(cfg, s1, e2);
            &&& over(s1.pending) || answers(s1.pending, e2)
            &&& over(s2.pending) || answers(s2.pending, e3)
        }),
        forall|e: RunEventView|
            (e == e1 || e == e2 || e == e3) && #[trigger] reading(e) is Some ==> reading(e)->0
                >= timeout && !wedged(
                cfg,
                run_from(cfg, s, seq![e1, e2, e3]),
                reading(e)->0,
            ) && !fell_silent(cfg, run_from(cfg, s, seq![e1, e2, e3]), reading(e)->0),
    ensures
        run_from(cfg, s, seq![e1, e2, e3]).pending == (RunAction::GiveUp {
            cause: StopCause::Deadline,
            secs: (timeout / 1_000_000_000) as u64,
            kill: cfg.on_timeout is KillGroup,
        }),
{
    lemma_three_events(cfg, s, e1, e2, e3);
    assert(reading(e1) is Some);
    let s1 = exec::next_state(cfg, s, e1);
    assert(reading(e2) is Some || over(s1.pending));
    assert(reading(e3) is Some || over(exec::next_state(cfg, s1, e2).pending));
}

/// The words for what a run watches, and for its bounds, mean what the run was
/// set to.
pub proof fn law_words_for_the_bounds(cfg: RunConfig)
    ensures
        cfg.watches_silence() <==> cfg.silent_after is Some && cfg.capture != Capture::Inherit,
        cfg.watches_error() <==> cfg.error_wedge is Some && cfg.capture != Capture::Inherit,
        cfg.watches_capture() <==> has_quiet_bound(cfg),
        cfg.bound(StopCause::Deadline) == cfg.timeout,
        cfg.bound(StopCause::Silence) == cfg.silent_after,
        cfg.error_wedge matches Some((_, quiet)) ==> cfg.bound(StopCause::ErrorWedge) == Some(
            quiet,
        ),
        cfg.error_wedge is None ==> cfg.bound(StopCause::ErrorWedge) is None,
{
}

/// A text shows the child's error exactly if a marker was set and the text holds
/// it.
pub proof fn law_error_is_the_marker(run: &BoundedRun<'_>, text: &str, r: bool)
    requires
        call_ensures(BoundedRun::shows_error, (run, text), r),
    ensures
        r <==> match run@.error_wedge {
            Some((marker, _)) => holds(text@, marker),
            None => false,
        },
{
    match run@.error_wedge {
        Some((marker, _)) => lemma_holds(text@, marker),
        None => {},
    }
}

/// What the caller observed is taken in as it is, and so is the state.
pub proof fn law_observations_are_kept(e: RunEvent, s: RunState)
    ensures
        match e {
            RunEvent::Exited => e@ is Exited,
            RunEvent::Running { now } => e@ == (RunEventView::Running { now: now@ }),
            RunEvent::Measured { captured, now } => e@ == (RunEventView::Measured {
                captured,
                now: now@,
            }),
            RunEvent::Scanned { capture, now } => e@ == (RunEventView::Scanned {
                capture: capture@,
                now: now@,
            }),
            RunEvent::Woke => e@ is Woke,
        },
        s@.pending == s.pending,
        s@.last_size == s.last_size,
        s@.last_growth == s.last_growth@,
        s@.saw_error == s.saw_error,
        s@.scanned_once == s.scanned_once,
{
}

// -------------------------------------------------- what was captured

/// Nothing that was captured is lost, and nothing is made up: a merged capture
/// is its file, separate streams stand one after the other, and without a
/// capture there is nothing. Its length is what was measured.
pub proof fn law_capture_is_not_lost(
    run: &BoundedRun<'_>,
    main: Vec<u8>,
    err: Vec<u8>,
    r: Vec<u8>,
)
    requires
        call_ensures(BoundedRun::capture_bytes, (run, main, err), r),
    ensures
        run@.capture == Capture::Merged ==> r@ == main@,
        run@.capture == Capture::Separate ==> r@.len() == main@.len() + err@.len() && r@.take(
            main@.len() as int,
        ) == main@ && r@.skip(main@.len() as int) == err@,
        run@.capture == Capture::Inherit ==> r@.len() == 0,
        forall|n: u64|
            main@.len() <= u64::MAX && err@.len() <= u64::MAX && #[trigger] call_ensures(
                BoundedRun::captured_len,
                (run, main@.len() as u64, err@.len() as u64),
                n,
            ) ==> n == r@.len(),
{
    if run@.capture == Capture::Separate {
        assert(r@.take(main@.len() as int) =~= main@);
        assert(r@.skip(main@.len() as int) =~= err@);
    }
}

/// A tail is the whole of what fits the bound. Of what does not fit, it is the
/// end: it starts with a byte that starts a character, and only bytes that do
/// not were passed over to get there from the bound.
pub proof fn law_tail_is_cut_at_the_first_character(v: Vec<u8>, max: usize, r: Vec<u8>)
    requires
        call_ensures(exec::tail_bytes, (v, max), r),
    ensures
        v@.len() <= max ==> r@ == v@,
        v@.len() > max ==> {
            let from = v@.len() - max;
            let cut = v@.len() - r@.len();
            &&& from <= cut <= v@.len()
            &&& r@ == v@.skip(cut)
            &&& r@.len() > 0 ==> !(0x80 <= r@[0] <= 0xbf)
            &&& forall|k: int| from <= k < cut ==> 0x80 <= #[trigger] v@[k] <= 0xbf
        },
{
    if v@.len() > max {
        lemma_char_cut(v@, v@.len() - max);
    }
}

/// What a finished run reports is what was captured, each stream cut to its own
/// tail: the one stream of a merged capture as stderr.
pub proof fn law_output_is_what_was_captured(
    run: &BoundedRun<'_>,
    main: Vec<u8>,
    err: Vec<u8>,
    out: RunOutput,
)
    requires
        call_ensures(BoundedRun::finish, (run, main, err), out),
        main@.len() <= run@.tail_bytes,
        err@.len() <= run@.tail_bytes,
    ensures
        run@.capture == Capture::Merged ==> out.stdout@.len() == 0 && out.stderr@ == main@,
        run@.capture == Capture::Separate ==> out.stdout@ == main@ && out.stderr@ == err@,
        run@.capture == Capture::Inherit ==> out.stdout@.len() == 0 && out.stderr@.len() == 0,
{
}

/// The files of a run are its capture path, and with separate streams another
/// one for stderr after it; without a capture there are none.
pub proof fn law_files_of_a_run(run: &BoundedRun<'_>, files: Vec<UnixPath>, err: UnixPath)
    requires
        call_ensures(BoundedRun::capture_files, (run,), files),
        call_ensures(BoundedRun::err_path, (run,), err),
    ensures
        run@.capture == Capture::Merged ==> files@.len() == 1 && files@[0]@ == run@.capture_path,
        run@.capture == Capture::Separate ==> files@.len() == 2 && files@[0]@
            == run@.capture_path && files@[1]@ == err@,
        run@.capture == Capture::Inherit ==> files@.len() == 0,
{
    let names = files@.map_values(|p: UnixPath| p@);
    assert(names.len() == files@.len());
    if files@.len() > 0 {
        assert(names[0] == files@[0]@);
    }
    if files@.len() > 1 {
        assert(names[1] == files@[1]@);
    }
}

// ---------------------------------------------------- how it is told

/// A report reads `run`, the marker of its cause, the seconds, what the cause
/// means, and then the end of what the child printed, as it stands.
pub proof fn law_report_reads_so(cause: StopCause, secs: u64, tail: Seq<char>)
    ensures
        exec::stop_text(cause, secs, tail) == match cause {
            StopCause::Deadline => "run timed out after "@ + text::decimal(secs as nat) + "s\n"@,
            StopCause::Silence => "run silent for "@ + text::decimal(secs as nat)
                + "s (total deadline not reached) — no output; a wedge, not slow work\n"@,
            StopCause::ErrorWedge => "run reported an error then went quiet for "@ + text::decimal(
                secs as nat,
            )
                + "s — the failure is already reported below; the tree stopped winding down\n"@,
        } + tail,
{
    reveal_strlit("run ");
    reveal_strlit(" ");
    reveal_strlit("timed out after");
    reveal_strlit("silent for");
    reveal_strlit("reported an error then went quiet for");
    reveal_strlit("run timed out after ");
    reveal_strlit("run silent for ");
    reveal_strlit("run reported an error then went quiet for ");
    assert("run timed out after "@ =~= "run "@ + "timed out after"@ + " "@);
    assert("run silent for "@ =~= "run "@ + "silent for"@ + " "@);
    assert("run reported an error then went quiet for "@ =~= "run "@
        + "reported an error then went quiet for"@ + " "@);
}

/// The failure of a run that was given up ends with the end of what the child
/// printed, all of it where that is within the bound, and is of the kind
/// `TimedOut`.
pub proof fn law_failure_ends_with_the_output(
    run: &BoundedRun<'_>,
    cause: StopCause,
    secs: u64,
    main: Vec<u8>,
    err: Vec<u8>,
    e: IoError,
    printed: Seq<u8>,
)
    requires
        call_ensures(BoundedRun::give_up, (run, cause, secs, main, err), e),
        match run@.capture {
            Capture::Merged => printed == main@,
            Capture::Separate => printed == main@ + err@,
            Capture::Inherit => printed == Seq::<u8>::empty(),
        },
        printed.len() <= run@.tail_bytes,
    ensures
        e.kind is TimedOut,
        e.message@ == exec::stop_text(cause, secs, Seq::empty()) + utf8::shown(printed),
{
    let none = Seq::<char>::empty();
    assert(exec::stop_text(cause, secs, utf8::shown(printed)) =~= exec::stop_text(
        cause,
        secs,
        none,
    ) + utf8::shown(printed));
}

/// An error is taken for a timeout exactly with cause: its kind says so, or its
/// text holds the marker.
pub proof fn law_timeout_is_told_with_cause(e: IoError, r: bool)
    requires
        call_ensures(exec::is_timeout, (&e,), r),
    ensures
        r <==> e.kind is TimedOut || holds(e.message@, "timed out after"@),
{
    lemma_holds(e.message@, "timed out after"@);
}

} // verus!
