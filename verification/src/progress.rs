//! Every run comes to an end: work is never added, and while any is left
//! some event takes it away.

use vstd::prelude::*;
use crate::lookup::LookupOutcome;
use crate::model::Event;
use crate::model::Phase;
use crate::model::SchedulerView;
use crate::model::Wait;
use crate::pacing::NANOS_PER_SEC;
use crate::pacing::elapsed_spec;
use crate::pacing::interval_passed;
use crate::pacing::lemma_allowance_after_interval;
use crate::run_invariant::lemma_completion_keeps_invariant;
use crate::run_invariant::lemma_dispatch_keeps_invariant;
use crate::run_invariant::lemma_run_keeps_invariant;

verus! {

/// The place of a phase in the course of a run.
pub open spec fn phase_rank(phase: Phase) -> int {
    match phase {
        Phase::Running => 0,
        Phase::Draining => 1,
        Phase::Terminated => 2,
    }
}

/// No step adds work. The queue never grows: what is left of it is its own
/// beginning, and what has left it is outstanding or done. So a run never
/// goes back to an earlier phase.
pub proof fn lemma_step_never_adds_work(s: SchedulerView, event: Event)
    requires
        s.wf(),
    ensures
        s.stepped(event).0.work_left() <= s.work_left(),
        s.stepped(event).0.pending.len() <= s.pending.len(),
        s.stepped(event).0.pending == s.pending.take(s.stepped(event).0.pending.len() as int),
        phase_rank(s.stepped(event).0.phase()) >= phase_rank(s.phase()),
{
    assert(s.pending.take(s.pending.len() as int) =~= s.pending);
    match event {
        Event::Started { now } => {
            lemma_dispatch_keeps_invariant(s, now as int);
        },
        Event::Finished { ticket, outcome, now } => {
            lemma_completion_keeps_invariant(s, ticket as int);
            lemma_dispatch_keeps_invariant(s.completed_with(ticket as int), now as int);
        },
        Event::Woke { now } => {
            lemma_dispatch_keeps_invariant(s, now as int);
        },
    }
}

/// The completion of an outstanding lookup takes work away.
pub proof fn lemma_completion_makes_progress(
    s: SchedulerView,
    ticket: usize,
    outcome: LookupOutcome,
    now: u64,
)
    requires
        s.wf(),
        s.holds(ticket as int),
    ensures
        s.stepped(Event::Finished { ticket, outcome, now }).0.work_left() < s.work_left(),
{
    lemma_completion_keeps_invariant(s, ticket as int);
    lemma_dispatch_keeps_invariant(s.completed_with(ticket as int), now as int);
}

/// While tasks wait, the end of a sleep that comes more than one interval
/// after the last dispatch takes work away: at least one task is dispatched,
/// whatever the rate.
pub proof fn lemma_overdue_wake_makes_progress(s: SchedulerView, now: u64)
    requires
        s.wf(),
        s.pending.len() > 0,
        interval_passed(elapsed_spec(s.last_dispatch, now as int), s.qps),
    ensures
        s.dispatch_count(now as int) >= 1,
        s.stepped(Event::Woke { now }).0.work_left() < s.work_left(),
{
    lemma_dispatch_keeps_invariant(s, now as int);
    lemma_allowance_after_interval(elapsed_spec(s.last_dispatch, now as int), s.qps);
}

/// The scheduler ends the run only when nothing waits and nothing is
/// outstanding, and it asks the caller to wait for a completion only while a
/// lookup is outstanding.
pub proof fn lemma_wait_matches_state(s: SchedulerView, event: Event)
    requires
        s.wf(),
    ensures
        s.stepped(event).1.wait == Wait::Exit <==> event is Woke && s.terminated(),
        s.stepped(event).1.wait == Wait::Exit ==> s.stepped(event).0.terminated(),
        s.stepped(event).1.wait == Wait::Completion <==> s.stepped(event).0.in_flight.len() > 0,
{
    match event {
        Event::Started { now } => {
            lemma_dispatch_keeps_invariant(s, now as int);
        },
        Event::Finished { ticket, outcome, now } => {
            lemma_completion_keeps_invariant(s, ticket as int);
            lemma_dispatch_keeps_invariant(s.completed_with(ticket as int), now as int);
        },
        Event::Woke { now } => {
            lemma_dispatch_keeps_invariant(s, now as int);
        },
    }
}

/// While a run has not come to its end, some event takes work away: the
/// completion of an outstanding lookup, or, when nothing is outstanding, the
/// end of a sleep one second and a nanosecond after the last dispatch. The
/// clock must be able to show that reading, and the tickets must be such as
/// the caller can name.
pub proof fn lemma_progress_is_possible(s: SchedulerView)
    requires
        s.wf(),
        !s.terminated(),
        s.issued <= usize::MAX,
        s.last_dispatch + NANOS_PER_SEC < u64::MAX,
    ensures
        exists|event: Event| (#[trigger] s.stepped(event)).0.work_left() < s.work_left(),
{
    if s.in_flight.len() > 0 {
        assert(0 <= s.in_flight[0].ticket < s.issued);
        let ticket = s.in_flight[0].ticket as usize;
        let outcome = LookupOutcome::Answered;
        assert(s.holds(ticket as int));
        lemma_completion_makes_progress(s, ticket, outcome, 0);
        let event = Event::Finished { ticket, outcome, now: 0 };
        assert(s.stepped(event).0.work_left() < s.work_left());
    } else {
        let now = (s.last_dispatch + NANOS_PER_SEC + 1) as u64;
        let elapsed = elapsed_spec(s.last_dispatch, now as int);
        assert(elapsed * s.qps > NANOS_PER_SEC) by (nonlinear_arith)
            requires
                elapsed == NANOS_PER_SEC + 1,
                s.qps >= 1,
        ;
        lemma_overdue_wake_makes_progress(s, now);
        let event = Event::Woke { now };
        assert(s.stepped(event).0.work_left() < s.work_left());
    }
}

/// The number of steps of a run that take work away.
pub open spec fn steps_forward(s: SchedulerView, events: Seq<Event>) -> nat
    decreases events.len(),
{
    if events.len() == 0 {
        0
    } else {
        let before = s.run(events.drop_last());
        let forward: nat = if before.stepped(events.last()).0.work_left() < before.work_left() {
            1
        } else {
            0
        };
        steps_forward(s, events.drop_last()) + forward
    }
}

/// Every run comes to an end. The work that is left never grows, and every
/// step that takes work away takes at least one unit, so a run holds at most
/// as many such steps as there is work at its start: two for each task that
/// waits and one for each outstanding lookup. When no work is left, the run
/// is terminated.
pub proof fn lemma_run_is_bounded_by_work(s: SchedulerView, events: Seq<Event>)
    requires
        s.wf(),
    ensures
        s.run(events).work_left() + steps_forward(s, events) <= s.work_left(),
        s.run(events).work_left() == 0 <==> s.run(events).terminated(),
    decreases events.len(),
{
    if events.len() > 0 {
        lemma_run_is_bounded_by_work(s, events.drop_last());
        lemma_run_keeps_invariant(s, events.drop_last());
        lemma_step_never_adds_work(s.run(events.drop_last()), events.last());
    }
}

} // verus!
