//! Every task has exactly one end: no step loses a task or makes one up.

use vstd::multiset::Multiset;
use vstd::prelude::*;
use vstd::seq_lib::lemma_multiset_commutative;
use crate::lookup::LookupOutcome;
use crate::model::Event;
use crate::model::SchedulerView;
use crate::model::labels_of;
use crate::model::reported;
use crate::model::tasks_of;
use crate::run_invariant::lemma_completion_keeps_invariant;
use crate::run_invariant::lemma_dispatch_keeps_invariant;
use crate::run_invariant::lemma_run_keeps_invariant;

verus! {

/// An empty sequence of labels holds no label.
proof fn lemma_no_labels()
    ensures
        Seq::<Seq<char>>::empty().to_multiset() == Multiset::<Seq<char>>::empty(),
{
    let none = Seq::<Seq<char>>::empty();
    vstd::seq_lib::to_multiset_len(none);
    vstd::multiset::lemma_multiset_empty_len(none.to_multiset());
    assert(none.to_multiset() =~= Multiset::<Seq<char>>::empty());
}

/// A run that is set up with a positive rate starts in a state that satisfies
/// the invariant, with every label waiting once and nothing outstanding.
pub proof fn lemma_initial_state(labels: Seq<Seq<char>>, target: Seq<char>, qps: int, now: int)
    requires
        0 < qps,
        0 <= now,
    ensures
        SchedulerView::initial(labels, target, qps, now).wf(),
        SchedulerView::initial(labels, target, qps, now).unreported() == labels.to_multiset(),
        SchedulerView::initial(labels, target, qps, now).pending.len() == labels.len(),
{
    let s = SchedulerView::initial(labels, target, qps, now);
    lemma_no_labels();
    assert(labels_of(s.pending) =~= labels);
    assert(labels_of(tasks_of(s.in_flight)) =~= Seq::<Seq<char>>::empty());
    assert(s.unreported() =~= labels.to_multiset());
}

/// A dispatch loses no task and makes none up: the labels that wait or are
/// outstanding are the same before and after, each as often as before.
pub proof fn lemma_dispatch_conserves_tasks(s: SchedulerView, now: int)
    requires
        s.wf(),
    ensures
        s.dispatched(now).unreported() == s.unreported(),
{
    lemma_dispatch_keeps_invariant(s, now);
    let k = s.dispatch_count(now);
    let n = s.pending.len() as int;
    let next = s.dispatched(now);
    let head = s.pending.take(n - k);
    let tail = s.pending.skip(n - k);
    let held = labels_of(tasks_of(s.in_flight));
    assert(labels_of(s.pending) =~= labels_of(head) + labels_of(tail));
    lemma_multiset_commutative(labels_of(head), labels_of(tail));
    assert(labels_of(tasks_of(next.in_flight)) =~= held + labels_of(tail).reverse());
    lemma_multiset_commutative(held, labels_of(tail).reverse());
    labels_of(tail).lemma_reverse_to_multiset();
    assert(next.unreported() =~= s.unreported());
}

/// A completion moves exactly one task from the outstanding ones to the
/// reported ones, and only for a ticket that is held: the labels that wait or
/// are outstanding afterwards, together with the label of the reported task,
/// are those from before.
pub proof fn lemma_completion_conserves_tasks(s: SchedulerView, ticket: int, outcome: LookupOutcome)
    requires
        s.wf(),
    ensures
        s.completed_with(ticket).unreported().add(
            labels_of(reported(s.finished_task(ticket, outcome))).to_multiset(),
        ) == s.unreported(),
        forall|i: int|
            0 <= i < reported(s.finished_task(ticket, outcome)).len() ==> (#[trigger] reported(
                s.finished_task(ticket, outcome),
            )[i]).status.terminal(),
{
    let next = s.completed_with(ticket);
    let report = reported(s.finished_task(ticket, outcome));
    if s.holds(ticket) {
        let slot = s.slot_of(ticket);
        let held = labels_of(tasks_of(s.in_flight));
        assert(labels_of(tasks_of(next.in_flight)) =~= held.remove(slot));
        vstd::seq_lib::to_multiset_remove(held, slot);
        held.to_multiset_ensures();
        assert(held.contains(held[slot]));
        assert(labels_of(report) =~= seq![held[slot]]);
        assert(seq![held[slot]] =~= Seq::<Seq<char>>::empty().push(held[slot]));
        vstd::seq_lib::to_multiset_build(Seq::<Seq<char>>::empty(), held[slot]);
        lemma_no_labels();
        assert(next.unreported().add(labels_of(report).to_multiset()) =~= s.unreported());
    } else {
        assert(labels_of(report) =~= Seq::<Seq<char>>::empty());
        lemma_no_labels();
        assert(next.unreported().add(labels_of(report).to_multiset()) =~= s.unreported());
    }
}

/// Every step conserves the tasks of the run: what waits or is outstanding
/// afterwards, together with what the step reports, is what waited or was
/// outstanding before. What a step reports has a terminal status.
pub proof fn lemma_step_conserves_tasks(s: SchedulerView, event: Event)
    requires
        s.wf(),
    ensures
        s.stepped(event).0.unreported().add(
            labels_of(reported(s.stepped(event).1.finished)).to_multiset(),
        ) == s.unreported(),
        forall|i: int|
            0 <= i < reported(s.stepped(event).1.finished).len() ==> (#[trigger] reported(
                s.stepped(event).1.finished,
            )[i]).status.terminal(),
{
    match event {
        Event::Started { now } => {
            lemma_dispatch_conserves_tasks(s, now as int);
            assert(labels_of(reported(None)) =~= Seq::<Seq<char>>::empty());
            lemma_no_labels();
            assert(s.dispatched(now as int).unreported().add(Multiset::empty())
                =~= s.dispatched(now as int).unreported());
        },
        Event::Finished { ticket, outcome, now } => {
            let after = s.completed_with(ticket as int);
            lemma_completion_conserves_tasks(s, ticket as int, outcome);
            lemma_completion_keeps_invariant(s, ticket as int);
            lemma_dispatch_conserves_tasks(after, now as int);
        },
        Event::Woke { now } => {
            lemma_dispatch_conserves_tasks(s, now as int);
            assert(labels_of(reported(None)) =~= Seq::<Seq<char>>::empty());
            lemma_no_labels();
            assert(s.unreported().add(Multiset::empty()) =~= s.unreported());
            assert(s.dispatched(now as int).unreported().add(Multiset::empty())
                =~= s.dispatched(now as int).unreported());
        },
    }
}

/// A step reports one task exactly when it counts one more completion, and
/// the queue shrinks by exactly the tickets that the step hands out.
proof fn lemma_step_counts(s: SchedulerView, event: Event)
    requires
        s.wf(),
    ensures
        reported(s.stepped(event).1.finished).len() == s.stepped(event).0.completed
            - s.completed,
        s.stepped(event).0.pending.len() + s.stepped(event).0.issued == s.pending.len()
            + s.issued,
{
    match event {
        Event::Started { now } => {
            lemma_dispatch_keeps_invariant(s, now as int);
        },
        Event::Finished { ticket, outcome, now } => {
            lemma_completion_keeps_invariant(s, ticket as int);
            lemma_dispatch_keeps_invariant(s.completed_with(ticket as int), now as int);
        },
        Event::Woke { now } => {
            lemma_dispatch_keeps_invariant(s, now as int);
        },
    }
}

/// Every task has exactly one end. Over any run, the tasks that still wait
/// or are outstanding, together with the tasks reported so far, are the
/// tasks of the start, each label as often as it was given: none is reported
/// twice, none is lost. Every reported task has a terminal status, one report
/// is made per completed lookup, and the queue only shrinks by what is dispatched.
pub proof fn lemma_run_conserves_tasks(s: SchedulerView, events: Seq<Event>)
    requires
        s.wf(),
    ensures
        s.run(events).unreported().add(labels_of(s.reports(events)).to_multiset())
            == s.unreported(),
        forall|i: int|
            0 <= i < s.reports(events).len() ==> (#[trigger] s.reports(events)[i]).status.terminal(),
        s.reports(events).len() == s.run(events).completed - s.completed,
        s.run(events).pending.len() + s.run(events).issued == s.pending.len() + s.issued,
    decreases events.len(),
{
    if events.len() == 0 {
        assert(labels_of(s.reports(events)) =~= Seq::<Seq<char>>::empty());
        lemma_no_labels();
        assert(s.unreported().add(Multiset::empty()) =~= s.unreported());
    } else {
        let earlier = events.drop_last();
        let before = s.run(earlier);
        let event = events.last();
        let report = reported(before.stepped(event).1.finished);
        lemma_run_conserves_tasks(s, earlier);
        lemma_run_keeps_invariant(s, earlier);
        lemma_step_conserves_tasks(before, event);
        lemma_step_counts(before, event);
        assert(labels_of(s.reports(events)) =~= labels_of(s.reports(earlier)) + labels_of(report));
        lemma_multiset_commutative(labels_of(s.reports(earlier)), labels_of(report));
        assert(s.run(events).unreported().add(labels_of(s.reports(events)).to_multiset())
            =~= s.unreported());
        assert forall|i: int| 0 <= i < s.reports(events).len() implies (#[trigger] s.reports(
            events,
        )[i]).status.terminal() by {
            if i < s.reports(earlier).len() {
                assert(s.reports(events)[i] == s.reports(earlier)[i]);
            } else {
                assert(s.reports(events)[i] == report[i - s.reports(earlier).len()]);
            }
        }
    }
}

/// When a run that was set up over `labels` has come to its end, every label
/// has been reported exactly as often as it was given, each with a terminal
/// status, and as many lookups were completed as there were labels: whatever
/// the rate, and however the events fell.
pub proof fn lemma_finished_run_reports_every_task(
    labels: Seq<Seq<char>>,
    target: Seq<char>,
    qps: int,
    now: int,
    events: Seq<Event>,
)
    requires
        0 < qps,
        0 <= now,
        SchedulerView::initial(labels, target, qps, now).run(events).terminated(),
    ensures
        labels_of(
            SchedulerView::initial(labels, target, qps, now).reports(events),
        ).to_multiset() == labels.to_multiset(),
        SchedulerView::initial(labels, target, qps, now).reports(events).len() == labels.len(),
        SchedulerView::initial(labels, target, qps, now).run(events).completed == labels.len(),
        forall|i: int|
            0 <= i < SchedulerView::initial(labels, target, qps, now).reports(events).len() ==> (
            #[trigger] SchedulerView::initial(labels, target, qps, now).reports(
                events,
            )[i]).status.terminal(),
{
    let s = SchedulerView::initial(labels, target, qps, now);
    let end = s.run(events);
    lemma_initial_state(labels, target, qps, now);
    lemma_run_conserves_tasks(s, events);
    lemma_run_keeps_invariant(s, events);
    lemma_no_labels();
    assert(labels_of(end.pending) =~= Seq::<Seq<char>>::empty());
    assert(labels_of(tasks_of(end.in_flight)) =~= Seq::<Seq<char>>::empty());
    assert(end.unreported() =~= Multiset::empty());
    assert(end.unreported().add(labels_of(s.reports(events)).to_multiset()) =~= labels_of(
        s.reports(events),
    ).to_multiset());
}

} // verus!
