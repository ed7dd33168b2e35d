//! The rate is kept: no more lookups are dispatched than time has earned.

use vstd::prelude::*;
use crate::conservation::lemma_initial_state;
use crate::conservation::lemma_run_conserves_tasks;
use crate::model::Event;
use crate::model::SchedulerView;
use crate::model::time_of;
use crate::pacing::NANOS_PER_SEC;
use crate::pacing::credit;
use crate::pacing::lemma_allowance_tracks_credit;
use crate::run_invariant::lemma_dispatch_keeps_invariant;
use crate::run_invariant::lemma_run_keeps_invariant;

verus! {

/// The number of tickets handed out never exceeds the credit of the time
/// since the run was set up: at any clock reading `at` that is not before the
/// last dispatch, at most `floor((at - started) * qps / 1_000_000_000)`
/// lookups have been dispatched.
pub proof fn lemma_issued_within_rate(s: SchedulerView, at: int)
    requires
        s.wf(),
        s.last_dispatch <= at,
    ensures
        0 <= s.issued <= credit(at - s.started, s.qps),
{
    assert((s.last_dispatch - s.started) * s.qps <= (at - s.started) * s.qps)
        by (nonlinear_arith)
        requires
            s.last_dispatch <= at,
            0 < s.qps,
    ;
}

/// The pacing clock never runs ahead of the caller's clock: if neither the
/// last dispatch nor any event of a run is later than `at`, the last
/// dispatch after the run is not later than `at` either. The settings of the
/// run stay as they were made.
pub proof fn lemma_pacing_clock_follows_events(s: SchedulerView, events: Seq<Event>, at: int)
    requires
        s.wf(),
        s.last_dispatch <= at,
        forall|i: int| 0 <= i < events.len() ==> time_of(#[trigger] events[i]) <= at,
    ensures
        s.run(events).last_dispatch <= at,
        s.run(events).started == s.started,
        s.run(events).qps == s.qps,
        s.run(events).target == s.target,
    decreases events.len(),
{
    if events.len() > 0 {
        let earlier = events.drop_last();
        assert forall|i: int| 0 <= i < earlier.len() implies time_of(#[trigger] earlier[i])
            <= at by {
            assert(earlier[i] == events[i]);
        }
        lemma_pacing_clock_follows_events(s, earlier, at);
        assert(time_of(events[events.len() - 1]) <= at);
    }
}

/// The rate is kept over a whole run. For a run set up over `labels` at clock
/// reading `started`, after any events up to the clock reading `at`, the
/// number of lookups dispatched is at most the number of labels and at most
/// the credit of the time that has passed.
pub proof fn lemma_run_keeps_rate(
    labels: Seq<Seq<char>>,
    target: Seq<char>,
    qps: int,
    started: int,
    events: Seq<Event>,
    at: int,
)
    requires
        0 < qps,
        0 <= started <= at,
        forall|i: int| 0 <= i < events.len() ==> time_of(#[trigger] events[i]) <= at,
    ensures
        SchedulerView::initial(labels, target, qps, started).run(events).issued <= labels.len(),
        SchedulerView::initial(labels, target, qps, started).run(events).issued <= credit(
            at - started,
            qps,
        ),
{
    let s = SchedulerView::initial(labels, target, qps, started);
    lemma_initial_state(labels, target, qps, started);
    lemma_run_keeps_invariant(s, events);
    lemma_run_conserves_tasks(s, events);
    lemma_pacing_clock_follows_events(s, events, at);
    lemma_issued_within_rate(s.run(events), at);
}

/// The first pass of a run dispatches what the rate has earned, within one
/// lookup. Set up over `labels` at `started` and started at `now`, a run
/// dispatches the allowance of the time passed, as far as there are labels;
/// that is the lesser of the number of labels and the credit
/// `floor((now - started) * qps / 1_000_000_000)`, or one less.
pub proof fn lemma_first_pass_matches_rate(
    labels: Seq<Seq<char>>,
    target: Seq<char>,
    qps: int,
    started: int,
    now: u64,
)
    requires
        0 < qps,
        0 <= started <= now,
    ensures
        ({
            let s = SchedulerView::initial(labels, target, qps, started);
            let issued = s.stepped(Event::Started { now }).0.issued;
            let earned = credit(now - started, qps);
            let due = if earned <= labels.len() { earned } else { labels.len() as int };
            &&& issued == s.dispatch_count(now as int)
            &&& due - 1 <= issued <= due
            &&& (now - started) * qps != NANOS_PER_SEC ==> issued == due
        }),
{
    let s = SchedulerView::initial(labels, target, qps, started);
    lemma_initial_state(labels, target, qps, started);
    lemma_dispatch_keeps_invariant(s, now as int);
    lemma_allowance_tracks_credit(now - started, qps);
}

} // verus!
