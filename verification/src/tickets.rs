//! Tickets: a lookup stays outstanding under its ticket, with its task, until
//! its completion is told; then it is reported once and never again.

use vstd::prelude::*;
use crate::lookup::LookupOutcome;
use crate::lookup::fqdn_spec;
use crate::lookup::settled_spec;
use crate::model::Event;
use crate::model::SchedulerView;
use crate::model::ticketed;
use crate::run_invariant::lemma_completion_keeps_invariant;
use crate::run_invariant::lemma_dispatch_keeps_invariant;
use crate::run_invariant::lemma_run_keeps_invariant;
use crate::run_invariant::lemma_slot_is_unique;
use crate::run_invariant::lemma_step_keeps_invariant;
use crate::task::TaskView;

verus! {

/// The task that is outstanding under a held ticket.
pub open spec fn task_under(s: SchedulerView, ticket: int) -> TaskView {
    s.in_flight[s.slot_of(ticket)].task
}

/// Every lookup that a dispatch asks for is outstanding afterwards, under the
/// ticket it carries and for the task whose name it carries. The tickets of
/// one dispatch follow one another from the number handed out before.
pub proof fn lemma_launch_is_outstanding(s: SchedulerView, now: int, i: int)
    requires
        s.wf(),
        0 <= i < s.launches(now).len(),
    ensures
        s.launches(now)[i].ticket == s.issued + i,
        s.dispatched(now).holds(s.launches(now)[i].ticket),
        s.launches(now)[i].name == fqdn_spec(
            task_under(s.dispatched(now), s.launches(now)[i].ticket).label,
            s.target,
        ),
{
    lemma_dispatch_keeps_invariant(s, now);
    let next = s.dispatched(now);
    let place = s.in_flight.len() + i;
    assert(next.in_flight[place] == ticketed(s.batch(now), s.issued)[i]);
    lemma_slot_is_unique(next, s.issued + i, place);
}

/// A dispatch leaves every outstanding lookup as it is.
proof fn lemma_dispatch_keeps_lookups(s: SchedulerView, now: int, ticket: int)
    requires
        s.wf(),
        s.holds(ticket),
    ensures
        s.dispatched(now).holds(ticket),
        task_under(s.dispatched(now), ticket) == task_under(s, ticket),
{
    lemma_dispatch_keeps_invariant(s, now);
    let slot = s.slot_of(ticket);
    let next = s.dispatched(now);
    assert(next.in_flight[slot] == s.in_flight[slot]);
    lemma_slot_is_unique(next, ticket, slot);
}

/// A step leaves every outstanding lookup as it is, but the one whose
/// completion it is told of: the others are still outstanding afterwards,
/// each under its ticket and for its task.
pub proof fn lemma_step_keeps_other_lookups(s: SchedulerView, event: Event, ticket: int)
    requires
        s.wf(),
        s.holds(ticket),
        !(event matches Event::Finished { ticket: told, .. } && told == ticket),
    ensures
        s.stepped(event).0.holds(ticket),
        task_under(s.stepped(event).0, ticket) == task_under(s, ticket),
{
    match event {
        Event::Started { now } => {
            lemma_dispatch_keeps_lookups(s, now as int, ticket);
        },
        Event::Finished { ticket: done, outcome, now } => {
            let after = s.completed_with(done as int);
            lemma_completion_keeps_invariant(s, done as int);
            if s.holds(done as int) {
                let slot = s.slot_of(ticket);
                let gone = s.slot_of(done as int);
                let place = if slot < gone { slot } else { slot - 1 };
                assert(after.in_flight[place] == s.in_flight[slot]);
                lemma_slot_is_unique(after, ticket, place);
            }
            lemma_dispatch_keeps_lookups(after, now as int, ticket);
        },
        Event::Woke { now } => {
            lemma_dispatch_keeps_lookups(s, now as int, ticket);
        },
    }
}

/// The completion that is told for a held ticket reports the task that is
/// outstanding under it, with the status that the outcome gives it.
pub proof fn lemma_completion_reports_its_task(
    s: SchedulerView,
    ticket: usize,
    outcome: LookupOutcome,
    now: u64,
)
    requires
        s.wf(),
        s.holds(ticket as int),
    ensures
        s.stepped(Event::Finished { ticket, outcome, now }).1.finished == Some(
            settled_spec(task_under(s, ticket as int), outcome),
        ),
{
}

/// A ticket is retired when it was handed out and is no longer outstanding.
pub open spec fn retired(s: SchedulerView, ticket: int) -> bool {
    0 <= ticket < s.issued && !s.holds(ticket)
}

/// The completion of a held ticket retires it.
pub proof fn lemma_completion_retires_ticket(s: SchedulerView, ticket: int)
    requires
        s.wf(),
        s.holds(ticket),
    ensures
        retired(s.completed_with(ticket), ticket),
{
    let slot = s.slot_of(ticket);
    let next = s.completed_with(ticket);
    assert(0 <= s.in_flight[slot].ticket < s.issued);
    if next.holds(ticket) {
        let other = next.slot_of(ticket);
        let origin = if other < slot { other } else { other + 1 };
        assert(next.in_flight[other] == s.in_flight[origin]);
        lemma_slot_is_unique(s, ticket, origin);
    }
}

/// A dispatch hands out fresh tickets only, so it leaves a retired ticket retired.
proof fn lemma_dispatch_keeps_ticket_retired(s: SchedulerView, now: int, ticket: int)
    requires
        s.wf(),
        retired(s, ticket),
    ensures
        retired(s.dispatched(now), ticket),
{
    lemma_dispatch_keeps_invariant(s, now);
    let next = s.dispatched(now);
    if next.holds(ticket) {
        let other = next.slot_of(ticket);
        if other < s.in_flight.len() {
            assert(next.in_flight[other] == s.in_flight[other]);
            assert(s.in_flight[other].ticket == ticket);
        } else {
            assert(next.in_flight[other] == ticketed(s.batch(now), s.issued)[other
                - s.in_flight.len()]);
        }
    }
}

/// A retired ticket stays retired, and a step that is told of its completion
/// again reports nothing for it.
pub proof fn lemma_retired_ticket_stays_retired(s: SchedulerView, event: Event, ticket: int)
    requires
        s.wf(),
        retired(s, ticket),
    ensures
        retired(s.stepped(event).0, ticket),
        event matches Event::Finished { ticket: again, .. } && again == ticket ==> s.stepped(
            event,
        ).1.finished is None,
{
    match event {
        Event::Started { now } => {
            lemma_dispatch_keeps_ticket_retired(s, now as int, ticket);
        },
        Event::Finished { ticket: done, outcome, now } => {
            let after = s.completed_with(done as int);
            lemma_completion_keeps_invariant(s, done as int);
            if after.holds(ticket) {
                let other = after.slot_of(ticket);
                if s.holds(done as int) {
                    let slot = s.slot_of(done as int);
                    let origin = if other < slot { other } else { other + 1 };
                    assert(after.in_flight[other] == s.in_flight[origin]);
                    assert(s.in_flight[origin].ticket == ticket);
                }
            }
            lemma_dispatch_keeps_ticket_retired(after, now as int, ticket);
        },
        Event::Woke { now } => {
            lemma_dispatch_keeps_ticket_retired(s, now as int, ticket);
        },
    }
}

/// A retired ticket stays retired along every run.
proof fn lemma_run_keeps_ticket_retired(s: SchedulerView, events: Seq<Event>, ticket: int)
    requires
        s.wf(),
        retired(s, ticket),
    ensures
        retired(s.run(events), ticket),
    decreases events.len(),
{
    if events.len() > 0 {
        lemma_run_keeps_ticket_retired(s, events.drop_last(), ticket);
        lemma_run_keeps_invariant(s, events.drop_last());
        lemma_retired_ticket_stays_retired(s.run(events.drop_last()), events.last(), ticket);
    }
}

/// No task is reported twice. Once the completion of a ticket that was handed
/// out has been told to the scheduler, telling it again reports nothing,
/// whatever the outcomes named and whatever happened in between.
pub proof fn lemma_ticket_reports_once(
    s: SchedulerView,
    ticket: usize,
    first: LookupOutcome,
    first_at: u64,
    between: Seq<Event>,
    second: LookupOutcome,
    second_at: u64,
)
    requires
        s.wf(),
        ticket < s.issued,
    ensures
        s.stepped(Event::Finished { ticket, outcome: first, now: first_at }).0.run(
            between,
        ).stepped(Event::Finished { ticket, outcome: second, now: second_at }).1.finished is None,
{
    let told = Event::Finished { ticket, outcome: first, now: first_at };
    let again = Event::Finished { ticket, outcome: second, now: second_at };
    let next = s.stepped(told).0;
    let after = s.completed_with(ticket as int);
    lemma_step_keeps_invariant(s, told);
    lemma_completion_keeps_invariant(s, ticket as int);
    if s.holds(ticket as int) {
        lemma_completion_retires_ticket(s, ticket as int);
    }
    if after.in_flight.len() > 0 {
        lemma_dispatch_keeps_ticket_retired(after, first_at as int, ticket as int);
    }
    lemma_run_keeps_ticket_retired(next, between, ticket as int);
    lemma_run_keeps_invariant(next, between);
    lemma_retired_ticket_stays_retired(next.run(between), again, ticket as int);
}

} // verus!
