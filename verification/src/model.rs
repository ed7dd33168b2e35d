//! The scheduler as a state machine over plain values.
//!
//! A state holds the queue of tasks that wait for dispatch, the lookups that are
//! outstanding, each under the ticket it was dispatched with, and the pacing
//! clock. An event is what the caller reports back: the loop has started, a
//! lookup has finished, or an idle sleep is over. A step answers an event with
//! the next state and an action: the task to report, the lookups to start, and
//! what to wait for.

use vstd::multiset::Multiset;
use vstd::prelude::*;
use crate::lookup::LookupOutcome;
use crate::lookup::fqdn_spec;
use crate::lookup::settled_spec;
use crate::pacing::IDLE_SLEEP_MILLIS;
use crate::pacing::NANOS_PER_SEC;
use crate::pacing::allowance_spec;
use crate::pacing::elapsed_spec;
use crate::task::ResolveStatus;
use crate::task::TaskView;
use crate::task::fresh_tasks;

verus! {

/// What the caller waits for after it has carried out an action.
#[derive(Debug, Clone, Copy, PartialEq, Eq, Structural)]
pub enum Wait {
    /// The first outstanding lookup to finish.
    Completion,
    /// The end of one idle sleep of `millis` milliseconds.
    Sleep { millis: u64 },
    /// Nothing: the run is over.
    Exit,
}

/// How far a run has come.
#[derive(Debug, Clone, Copy, PartialEq, Eq, Structural)]
pub enum Phase {
    /// Tasks still wait in the queue.
    Running,
    /// The queue is empty, lookups are still outstanding.
    Draining,
    /// Nothing waits and nothing is outstanding.
    Terminated,
}

/// What the caller reports to the scheduler. `now` is the reading of a
/// monotonic clock in nanoseconds, taken when the event is reported.
#[derive(Debug, Clone, Copy, PartialEq, Eq, Structural)]
pub enum Event {
    /// The loop begins.
    Started { now: u64 },
    /// The lookup dispatched under `ticket` came back with `outcome`.
    Finished { ticket: usize, outcome: LookupOutcome, now: u64 },
    /// An idle sleep is over.
    Woke { now: u64 },
}

/// An outstanding lookup: the task and the ticket it was dispatched with.
pub struct FlightView {
    pub ticket: int,
    pub task: TaskView,
}

/// A lookup to start: the name to resolve and the ticket to report it under.
pub struct LaunchView {
    pub ticket: int,
    pub name: Seq<char>,
}

/// The answer to an event.
pub struct ActionView {
    pub finished: Option<TaskView>,
    pub launch: Seq<LaunchView>,
    pub wait: Wait,
}

/// The state of a run.
pub struct SchedulerView {
    /// The domain that every label is looked up under.
    pub target: Seq<char>,
    /// The rate, in lookups per second.
    pub qps: int,
    /// The tasks that wait for dispatch; the last one leaves first.
    pub pending: Seq<TaskView>,
    /// The outstanding lookups, in the order of their dispatch.
    pub in_flight: Seq<FlightView>,
    /// The number of tickets handed out, which is also the next ticket.
    pub issued: int,
    /// The number of lookups that have finished.
    pub completed: int,
    /// The clock reading at which the run was set up.
    pub started: int,
    /// The clock reading of the last dispatch.
    pub last_dispatch: int,
}

/// The labels of a sequence of tasks, in order.
pub open spec fn labels_of(tasks: Seq<TaskView>) -> Seq<Seq<char>> {
    tasks.map_values(|task: TaskView| task.label)
}

/// The tasks of a sequence of outstanding lookups, in order.
pub open spec fn tasks_of(flights: Seq<FlightView>) -> Seq<TaskView> {
    flights.map_values(|flight: FlightView| flight.task)
}

/// `tasks` as outstanding lookups under consecutive tickets from `first` on.
pub open spec fn ticketed(tasks: Seq<TaskView>, first: int) -> Seq<FlightView> {
    Seq::new(tasks.len(), |i: int| FlightView { ticket: first + i, task: tasks[i] })
}

/// The lookups to start for `tasks` under consecutive tickets from `first` on.
pub open spec fn launches_for(tasks: Seq<TaskView>, first: int, target: Seq<char>) -> Seq<
    LaunchView,
> {
    Seq::new(
        tasks.len(),
        |i: int| LaunchView { ticket: first + i, name: fqdn_spec(tasks[i].label, target) },
    )
}

/// What a step reports: the finished task, if there is one.
pub open spec fn reported(finished: Option<TaskView>) -> Seq<TaskView> {
    match finished {
        Some(task) => seq![task],
        None => Seq::empty(),
    }
}

/// The clock reading that an event carries.
pub open spec fn time_of(event: Event) -> int {
    match event {
        Event::Started { now } => now as int,
        Event::Finished { now, .. } => now as int,
        Event::Woke { now } => now as int,
    }
}

impl SchedulerView {
    /// The state in which a run over `labels` is set up at clock reading `now`.
    pub open spec fn initial(
        labels: Seq<Seq<char>>,
        target: Seq<char>,
        qps: int,
        now: int,
    ) -> SchedulerView {
        SchedulerView {
            target,
            qps,
            pending: fresh_tasks(labels),
            in_flight: Seq::empty(),
            issued: 0,
            completed: 0,
            started: now,
            last_dispatch: now,
        }
    }

    /// The invariant of a run: the rate is positive; nothing that waits or is
    /// outstanding has a status yet; tickets are those handed out, in rising
    /// order; every ticket is outstanding or completed; and no more tickets
    /// were handed out than the rate allows for the time up to the last dispatch.
    pub open spec fn wf(self) -> bool {
        &&& 0 < self.qps
        &&& forall|i: int|
            0 <= i < self.pending.len() ==> (#[trigger] self.pending[i]).status
                == ResolveStatus::Pending
        &&& forall|i: int|
            0 <= i < self.in_flight.len() ==> {
                &&& (#[trigger] self.in_flight[i]).task.status == ResolveStatus::Pending
                &&& 0 <= self.in_flight[i].ticket < self.issued
            }
        &&& forall|i: int, j: int|
            0 <= i < j < self.in_flight.len() ==> (#[trigger] self.in_flight[i]).ticket < (
            #[trigger] self.in_flight[j]).ticket
        &&& 0 <= self.completed
        &&& self.completed + self.in_flight.len() == self.issued
        &&& 0 <= self.started <= self.last_dispatch
        &&& self.issued * NANOS_PER_SEC <= (self.last_dispatch - self.started) * self.qps
    }

    /// Nothing waits and nothing is outstanding.
    pub open spec fn terminated(self) -> bool {
        self.pending.len() == 0 && self.in_flight.len() == 0
    }

    /// The phase of the run.
    pub open spec fn phase(self) -> Phase {
        if self.pending.len() > 0 {
            Phase::Running
        } else if self.in_flight.len() > 0 {
            Phase::Draining
        } else {
            Phase::Terminated
        }
    }

    /// The number of lookups that pacing permits at clock reading `now`.
    pub open spec fn budget(self, now: int) -> int {
        allowance_spec(elapsed_spec(self.last_dispatch, now), self.qps)
    }

    /// The number of tasks dispatched at `now`: what pacing permits, as far as
    /// the queue holds that many.
    pub open spec fn dispatch_count(self, now: int) -> int {
        if self.budget(now) <= self.pending.len() {
            self.budget(now)
        } else {
            self.pending.len() as int
        }
    }

    /// The tasks dispatched at `now`, in the order of their dispatch: the last
    /// of the queue first.
    pub open spec fn batch(self, now: int) -> Seq<TaskView> {
        self.pending.skip(self.pending.len() - self.dispatch_count(now)).reverse()
    }

    /// The state after the dispatch at `now`: the batch has left the queue and is
    /// outstanding under fresh tickets; the pacing clock is set to `now` if
    /// anything was dispatched, and left alone otherwise.
    pub open spec fn dispatched(self, now: int) -> SchedulerView {
        let k = self.dispatch_count(now);
        SchedulerView {
            pending: self.pending.take(self.pending.len() - k),
            in_flight: self.in_flight + ticketed(self.batch(now), self.issued),
            issued: self.issued + k,
            last_dispatch: if k > 0 {
                now
            } else {
                self.last_dispatch
            },
            ..self
        }
    }

    /// The lookups that the dispatch at `now` asks the caller to start.
    pub open spec fn launches(self, now: int) -> Seq<LaunchView> {
        launches_for(self.batch(now), self.issued, self.target)
    }

    /// Whether a lookup is outstanding under `ticket`.
    pub open spec fn holds(self, ticket: int) -> bool {
        exists|i: int| 0 <= i < self.in_flight.len() && (#[trigger] self.in_flight[i]).ticket == ticket
    }

    /// The place of `ticket` among the outstanding lookups, where it is held.
    pub open spec fn slot_of(self, ticket: int) -> int {
        choose|i: int| 0 <= i < self.in_flight.len() && (#[trigger] self.in_flight[i]).ticket == ticket
    }

    /// The task that finishes when the lookup under `ticket` comes back with
    /// `outcome`: the outstanding task with its terminal status, or nothing
    /// where no lookup is outstanding under that ticket.
    pub open spec fn finished_task(self, ticket: int, outcome: LookupOutcome) -> Option<TaskView> {
        if self.holds(ticket) {
            Some(settled_spec(self.in_flight[self.slot_of(ticket)].task, outcome))
        } else {
            None
        }
    }

    /// The state after the lookup under `ticket` has come back: it is no longer
    /// outstanding, the others are as they were, and one more lookup is
    /// counted as completed. An unknown ticket changes nothing.
    pub open spec fn completed_with(self, ticket: int) -> SchedulerView {
        if self.holds(ticket) {
            SchedulerView {
                in_flight: self.in_flight.remove(self.slot_of(ticket)),
                completed: self.completed + 1,
                ..self
            }
        } else {
            self
        }
    }

    /// What to wait for at the end of a pass: a completion while lookups are
    /// outstanding, the end of an idle sleep otherwise.
    pub open spec fn next_wait(self) -> Wait {
        if self.in_flight.len() > 0 {
            Wait::Completion
        } else {
            Wait::Sleep { millis: IDLE_SLEEP_MILLIS }
        }
    }

    /// A pass of the loop from its top at clock reading `now`: dispatch, then wait.
    pub open spec fn resumed(self, now: int) -> (SchedulerView, ActionView) {
        let next = self.dispatched(now);
        (
            next,
            ActionView { finished: None, launch: self.launches(now), wait: next.next_wait() },
        )
    }

    /// The answer to an event.
    ///
    /// When the loop starts, a pass begins. When a lookup finishes, its task is
    /// reported; if others are still outstanding a new pass begins at once,
    /// otherwise the caller sleeps first. When a sleep is over, the run ends if
    /// nothing is left to do, and a new pass begins otherwise.
    pub open spec fn stepped(self, event: Event) -> (SchedulerView, ActionView) {
        match event {
            Event::Started { now } => self.resumed(now as int),
            Event::Finished { ticket, outcome, now } => {
                let finished = self.finished_task(ticket as int, outcome);
                let after = self.completed_with(ticket as int);
                if after.in_flight.len() == 0 {
                    (
                        after,
                        ActionView {
                            finished,
                            launch: Seq::empty(),
                            wait: Wait::Sleep { millis: IDLE_SLEEP_MILLIS },
                        },
                    )
                } else {
                    let (next, action) = after.resumed(now as int);
                    (next, ActionView { finished, ..action })
                }
            },
            Event::Woke { now } => {
                if self.terminated() {
                    (self, ActionView { finished: None, launch: Seq::empty(), wait: Wait::Exit })
                } else {
                    self.resumed(now as int)
                }
            },
        }
    }

    /// The state after the events of `events`, one step each, in order.
    pub open spec fn run(self, events: Seq<Event>) -> SchedulerView
        decreases events.len(),
    {
        if events.len() == 0 {
            self
        } else {
            self.run(events.drop_last()).stepped(events.last()).0
        }
    }

    /// The tasks reported over the events of `events`, in the order of their report.
    pub open spec fn reports(self, events: Seq<Event>) -> Seq<TaskView>
        decreases events.len(),
    {
        if events.len() == 0 {
            Seq::empty()
        } else {
            self.reports(events.drop_last()) + reported(
                self.run(events.drop_last()).stepped(events.last()).1.finished,
            )
        }
    }

    /// The labels of the tasks that have not been reported yet: those that wait
    /// and those that are outstanding, each as often as it occurs.
    pub open spec fn unreported(self) -> Multiset<Seq<char>> {
        labels_of(self.pending).to_multiset().add(
            labels_of(tasks_of(self.in_flight)).to_multiset(),
        )
    }

    /// The work that is left: two steps for a task that waits, its dispatch and
    /// its completion, and one for a lookup that is outstanding.
    pub open spec fn work_left(self) -> nat {
        2 * self.pending.len() + self.in_flight.len()
    }
}

} // verus!
