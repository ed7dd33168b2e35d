//! The invariant of a run, and the steps that keep it.

use vstd::prelude::*;
use crate::model::Event;
use crate::model::SchedulerView;
use crate::model::ticketed;
use crate::pacing::NANOS_PER_SEC;
use crate::pacing::allowance_spec;
use crate::pacing::elapsed_spec;
use crate::pacing::lemma_allowance_within_budget;
use crate::task::ResolveStatus;

verus! {

/// A dispatch takes no more tasks than the queue holds and than pacing
/// permits, and it keeps the invariant of the run.
pub proof fn lemma_dispatch_keeps_invariant(s: SchedulerView, now: int)
    requires
        s.wf(),
    ensures
        0 <= s.dispatch_count(now) <= s.pending.len(),
        s.dispatch_count(now) <= s.budget(now),
        s.batch(now).len() == s.dispatch_count(now),
        s.dispatched(now).wf(),
{
    let elapsed = elapsed_spec(s.last_dispatch, now);
    let k = s.dispatch_count(now);
    let n = s.pending.len() as int;
    let next = s.dispatched(now);
    lemma_allowance_within_budget(elapsed, s.qps);
    let batch = s.batch(now);
    assert(batch.len() == k);
    assert forall|i: int| 0 <= i < batch.len() implies (#[trigger] batch[i]).status
        == ResolveStatus::Pending by {
        assert(batch[i] == s.pending[n - 1 - i]);
    }
    if k > 0 {
        assert(elapsed > 0) by (nonlinear_arith)
            requires
                elapsed * s.qps > 0,
                elapsed >= 0,
                s.qps > 0,
        ;
        assert((s.issued + k) * NANOS_PER_SEC <= (now - s.started) * s.qps) by (nonlinear_arith)
            requires
                s.issued * NANOS_PER_SEC <= (s.last_dispatch - s.started) * s.qps,
                k <= allowance_spec(elapsed, s.qps),
                allowance_spec(elapsed, s.qps) * NANOS_PER_SEC <= elapsed * s.qps,
                elapsed == now - s.last_dispatch,
        ;
    }
    assert forall|i: int| 0 <= i < next.in_flight.len() implies {
        &&& (#[trigger] next.in_flight[i]).task.status == ResolveStatus::Pending
        &&& 0 <= next.in_flight[i].ticket < next.issued
    } by {
        if i < s.in_flight.len() {
            assert(next.in_flight[i] == s.in_flight[i]);
        } else {
            assert(next.in_flight[i] == ticketed(batch, s.issued)[i - s.in_flight.len()]);
        }
    }
    assert forall|i: int, j: int| 0 <= i < j < next.in_flight.len() implies (
    #[trigger] next.in_flight[i]).ticket < (#[trigger] next.in_flight[j]).ticket by {
        if j < s.in_flight.len() {
            assert(next.in_flight[i] == s.in_flight[i]);
            assert(next.in_flight[j] == s.in_flight[j]);
        } else if i < s.in_flight.len() {
            assert(next.in_flight[i] == s.in_flight[i]);
            assert(next.in_flight[j] == ticketed(batch, s.issued)[j - s.in_flight.len()]);
        } else {
            assert(next.in_flight[i] == ticketed(batch, s.issued)[i - s.in_flight.len()]);
            assert(next.in_flight[j] == ticketed(batch, s.issued)[j - s.in_flight.len()]);
        }
    }
}

/// Among the outstanding lookups of a run a ticket is held at most once, so
/// the place of a held ticket is the only place that holds it.
pub proof fn lemma_slot_is_unique(s: SchedulerView, ticket: int, i: int)
    requires
        s.wf(),
        0 <= i < s.in_flight.len(),
        s.in_flight[i].ticket == ticket,
    ensures
        s.holds(ticket),
        s.slot_of(ticket) == i,
{
    let j = s.slot_of(ticket);
    assert(0 <= j < s.in_flight.len() && s.in_flight[j].ticket == ticket);
    if j < i {
        assert(s.in_flight[j].ticket < s.in_flight[i].ticket);
    } else if i < j {
        assert(s.in_flight[i].ticket < s.in_flight[j].ticket);
    }
}

/// A completion keeps the invariant of the run.
pub proof fn lemma_completion_keeps_invariant(s: SchedulerView, ticket: int)
    requires
        s.wf(),
    ensures
        s.completed_with(ticket).wf(),
{
    if s.holds(ticket) {
        let slot = s.slot_of(ticket);
        let next = s.completed_with(ticket);
        assert forall|i: int| 0 <= i < next.in_flight.len() implies {
            &&& (#[trigger] next.in_flight[i]).task.status == ResolveStatus::Pending
            &&& 0 <= next.in_flight[i].ticket < next.issued
        } by {
            if i < slot {
                assert(next.in_flight[i] == s.in_flight[i]);
            } else {
                assert(next.in_flight[i] == s.in_flight[i + 1]);
            }
        }
        assert forall|i: int, j: int| 0 <= i < j < next.in_flight.len() implies (
        #[trigger] next.in_flight[i]).ticket < (#[trigger] next.in_flight[j]).ticket by {
            let oi = if i < slot { i } else { i + 1 };
            let oj = if j < slot { j } else { j + 1 };
            assert(next.in_flight[i] == s.in_flight[oi]);
            assert(next.in_flight[j] == s.in_flight[oj]);
        }
    }
}

/// Every step keeps the invariant of the run.
pub proof fn lemma_step_keeps_invariant(s: SchedulerView, event: Event)
    requires
        s.wf(),
    ensures
        s.stepped(event).0.wf(),
{
    match event {
        Event::Started { now } => {
            lemma_dispatch_keeps_invariant(s, now as int);
        },
        Event::Finished { ticket, outcome, now } => {
            lemma_completion_keeps_invariant(s, ticket as int);
            lemma_dispatch_keeps_invariant(s.completed_with(ticket as int), now as int);
        },
        Event::Woke { now } => {
            lemma_dispatch_keeps_invariant(s, now as int);
        },
    }
}

/// The invariant holds along every run.
pub proof fn lemma_run_keeps_invariant(s: SchedulerView, events: Seq<Event>)
    requires
        s.wf(),
    ensures
        s.run(events).wf(),
    decreases events.len(),
{
    if events.len() > 0 {
        lemma_run_keeps_invariant(s, events.drop_last());
        lemma_step_keeps_invariant(s.run(events.drop_last()), events.last());
    }
}

} // verus!
