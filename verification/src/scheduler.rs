//! The scheduler that a caller drives: it owns the task queue and the record
//! of outstanding lookups, and answers each event with an action.

use std::collections::VecDeque;
use vstd::prelude::*;
use crate::lookup::LookupOutcome;
use crate::lookup::fqdn;
use crate::lookup::fqdn_spec;
use crate::lookup::settle;
use crate::model::ActionView;
use crate::model::Event;
use crate::model::FlightView;
use crate::model::LaunchView;
use crate::model::Phase;
use crate::model::SchedulerView;
use crate::model::Wait;
use crate::pacing::ConfigError;
use crate::pacing::IDLE_SLEEP_MILLIS;
use crate::pacing::allowance;
use crate::pacing::elapsed_between;
use crate::run_invariant::lemma_completion_keeps_invariant;
use crate::run_invariant::lemma_dispatch_keeps_invariant;
use crate::run_invariant::lemma_slot_is_unique;
use crate::task::ResolveTask;
use crate::task::TaskView;
use crate::task::tasks_from_lines;
use crate::task::texts_of;
use crate::task::views_of;

verus! {

/// An outstanding lookup: the task and the ticket it was dispatched with.
struct InFlight {
    ticket: usize,
    task: ResolveTask,
}

impl View for InFlight {
    type V = FlightView;

    closed spec fn view(&self) -> FlightView {
        FlightView { ticket: self.ticket as int, task: self.task@ }
    }
}

/// A lookup that the caller is asked to start: the name to resolve, and the
/// ticket under which to report how it ended.
#[derive(Debug)]
pub struct Launch {
    pub ticket: usize,
    pub name: String,
}

impl View for Launch {
    type V = LaunchView;

    open spec fn view(&self) -> LaunchView {
        LaunchView { ticket: self.ticket as int, name: self.name@ }
    }
}

/// The answer to an event: the task to report, if one has finished, the
/// lookups to start, and what to wait for next.
#[derive(Debug)]
pub struct Action {
    pub finished: Option<ResolveTask>,
    pub launch: Vec<Launch>,
    pub wait: Wait,
}

/// A finished task, if any, as plain values.
pub open spec fn finished_view(finished: Option<ResolveTask>) -> Option<TaskView> {
    match finished {
        Some(task) => Some(task@),
        None => None,
    }
}

/// The outstanding lookups, as plain values, in order.
spec fn flights_of(flights: Seq<InFlight>) -> Seq<FlightView> {
    flights.map_values(|flight: InFlight| flight@)
}

/// The lookups to start, as plain values, in order.
pub open spec fn launches_of(launches: Seq<Launch>) -> Seq<LaunchView> {
    launches.map_values(|launch: Launch| launch@)
}

impl View for Action {
    type V = ActionView;

    open spec fn view(&self) -> ActionView {
        ActionView {
            finished: finished_view(self.finished),
            launch: launches_of(self.launch@),
            wait: self.wait,
        }
    }
}

/// The state of a run: the task queue, the outstanding lookups and the pacing clock.
pub struct Scheduler {
    target: String,
    qps: u32,
    pending: VecDeque<ResolveTask>,
    in_flight: Vec<InFlight>,
    issued: usize,
    completed: usize,
    started: u64,
    last_dispatch: u64,
}

impl View for Scheduler {
    type V = SchedulerView;

    closed spec fn view(&self) -> SchedulerView {
        SchedulerView {
            target: self.target@,
            qps: self.qps as int,
            pending: views_of(self.pending@),
            in_flight: flights_of(self.in_flight@),
            issued: self.issued as int,
            completed: self.completed as int,
            started: self.started as int,
            last_dispatch: self.last_dispatch as int,
        }
    }
}

impl Scheduler {
    /// The scheduler is well-formed when its state satisfies the invariant of
    /// a run and a ticket is left for every task that still waits.
    pub open spec fn wf(&self) -> bool {
        &&& self@.wf()
        &&& self@.pending.len() + self@.issued <= usize::MAX
    }

    /// Sets up a run over the lines of the candidate list at clock reading
    /// `now`. A rate of zero is refused; every other rate is accepted, and
    /// the run starts with every line waiting and nothing outstanding.
    pub fn new(lines: Vec<String>, target: String, qps: u32, now: u64) -> (made: Result<
        Scheduler,
        ConfigError,
    >)
        ensures
            qps == 0 <==> made is Err,
            made matches Err(error) ==> error == ConfigError::ZeroRate,
            made matches Ok(scheduler) ==> {
                &&& scheduler.wf()
                &&& scheduler@ == SchedulerView::initial(
                    texts_of(lines@),
                    target@,
                    qps as int,
                    now as int,
                )
            },
    {
        if qps == 0 {
            return Err(ConfigError::ZeroRate);
        }
        let pending = tasks_from_lines(lines);
        let scheduler = Scheduler {
            target,
            qps,
            pending,
            in_flight: Vec::new(),
            issued: 0,
            completed: 0,
            started: now,
            last_dispatch: now,
        };
        proof {
            vstd::std_specs::vecdeque::axiom_spec_len(&scheduler.pending);
            assert(scheduler@.in_flight =~= Seq::empty());
        }
        Ok(scheduler)
    }

    /// The number of tasks that wait for dispatch.
    pub fn pending_len(&self) -> (count: usize)
        ensures
            count == self@.pending.len(),
    {
        self.pending.len()
    }

    /// The number of outstanding lookups.
    pub fn in_flight_len(&self) -> (count: usize)
        ensures
            count == self@.in_flight.len(),
    {
        self.in_flight.len()
    }

    /// The number of lookups that have finished.
    pub fn completed(&self) -> (count: usize)
        ensures
            count == self@.completed,
    {
        self.completed
    }

    /// The number of lookups dispatched so far.
    pub fn issued(&self) -> (count: usize)
        ensures
            count == self@.issued,
    {
        self.issued
    }

    /// The rate of the run, in lookups per second.
    pub fn qps(&self) -> (qps: u32)
        ensures
            qps == self@.qps,
    {
        self.qps
    }

    /// The domain that every label is looked up under.
    pub fn target(&self) -> (target: &str)
        ensures
            target@ == self@.target,
    {
        self.target.as_str()
    }

    /// The phase of the run.
    pub fn phase(&self) -> (phase: Phase)
        ensures
            phase == self@.phase(),
    {
        if self.pending.len() > 0 {
            Phase::Running
        } else if self.in_flight.len() > 0 {
            Phase::Draining
        } else {
            Phase::Terminated
        }
    }

    /// Whether nothing waits and nothing is outstanding.
    pub fn is_terminated(&self) -> (terminated: bool)
        ensures
            terminated == self@.terminated(),
    {
        self.pending.len() == 0 && self.in_flight.len() == 0
    }

    /// Dispatches at clock reading `now` as many tasks as pacing permits and
    /// the queue holds, the last of the queue first, and returns the lookups
    /// to start for them. The pacing clock moves to `now` only if a task was
    /// dispatched.
    pub fn dispatch(&mut self, now: u64) -> (launch: Vec<Launch>)
        requires
            old(self).wf(),
        ensures
            final(self).wf(),
            final(self)@ == old(self)@.dispatched(now as int),
            launches_of(launch@) == old(self)@.launches(now as int),
    {
        let ghost before = self@;
        proof {
            lemma_dispatch_keeps_invariant(before, now as int);
            vstd::std_specs::vecdeque::axiom_spec_len(&self.pending);
        }
        let elapsed: u64 = elapsed_between(self.last_dispatch, now);
        let allowed: u128 = match allowance(elapsed, self.qps) {
            Ok(allowed) => allowed,
            Err(_) => 0,
        };
        let waiting: usize = self.pending.len();
        let count: usize = if allowed <= waiting as u128 {
            allowed as usize
        } else {
            waiting
        };
        assert(count == before.dispatch_count(now as int));
        let mut launch: Vec<Launch> = Vec::new();
        let mut moved: usize = 0;
        while moved < count
            invariant
                moved <= count <= waiting,
                waiting == before.pending.len(),
                waiting + before.issued <= usize::MAX,
                self.target@ == before.target,
                self.qps == before.qps,
                self.completed == before.completed,
                self.started == before.started,
                self.last_dispatch == before.last_dispatch,
                self.issued == before.issued + moved,
                self.pending@.len() == waiting - moved,
                forall|i: int|
                    0 <= i < waiting - moved ==> (#[trigger] self.pending@[i])@
                        == before.pending[i],
                self.in_flight@.len() == before.in_flight.len() + moved,
                forall|i: int|
                    0 <= i < before.in_flight.len() ==> (#[trigger] self.in_flight@[i])@
                        == before.in_flight[i],
                forall|j: int|
                    0 <= j < moved ==> (#[trigger] self.in_flight@[before.in_flight.len() + j])@
                        == (FlightView {
                        ticket: before.issued + j,
                        task: before.pending[waiting - 1 - j],
                    }),
                launch@.len() == moved,
                forall|j: int|
                    0 <= j < moved ==> (#[trigger] launch@[j])@ == (LaunchView {
                        ticket: before.issued + j,
                        name: fqdn_spec(before.pending[waiting - 1 - j].label, before.target),
                    }),
            decreases count - moved,
        {
            let task = self.pending.pop_back().unwrap();
            let name = fqdn(task.subdomain.as_str(), self.target.as_str());
            let ticket: usize = self.issued;
            launch.push(Launch { ticket, name });
            self.in_flight.push(InFlight { ticket, task });
            self.issued = self.issued + 1;
            moved = moved + 1;
        }
        if count > 0 {
            self.last_dispatch = now;
        }
        proof {
            let after = before.dispatched(now as int);
            let batch = before.batch(now as int);
            let outstanding = before.in_flight.len() as int;
            assert(self@.pending =~= after.pending);
            assert forall|j: int| 0 <= j < count implies #[trigger] batch[j] == before.pending[waiting
                - 1 - j] by {}
            assert forall|i: int| 0 <= i < self@.in_flight.len() implies self@.in_flight[i]
                == after.in_flight[i] by {
                if i >= outstanding {
                    let j = i - outstanding;
                    assert(self.in_flight@[outstanding + j]@ == (FlightView {
                        ticket: before.issued + j,
                        task: before.pending[waiting - 1 - j],
                    }));
                    assert(batch[j] == before.pending[waiting - 1 - j]);
                } else {
                    assert(self.in_flight@[i]@ == before.in_flight[i]);
                }
            }
            assert(self@.in_flight =~= after.in_flight);
            assert(launches_of(launch@) =~= before.launches(now as int));
            assert(self@ == after);
            vstd::std_specs::vecdeque::axiom_spec_len(&self.pending);
        }
        launch
    }

    /// Takes the lookup under `ticket` off the record of outstanding lookups
    /// and returns its task with the terminal status that `outcome` gives it.
    /// The other outstanding lookups stay as they are. Where nothing is
    /// outstanding under `ticket`, nothing changes and nothing is returned, so
    /// a ticket that is reported twice finishes a task only once.
    pub fn complete(&mut self, ticket: usize, outcome: LookupOutcome) -> (finished: Option<
        ResolveTask,
    >)
        requires
            old(self).wf(),
        ensures
            final(self).wf(),
            final(self)@ == old(self)@.completed_with(ticket as int),
            finished_view(finished) == old(self)@.finished_task(ticket as int, outcome),
            finished is Some <==> old(self)@.holds(ticket as int),
    {
        let ghost before = self@;
        proof {
            lemma_completion_keeps_invariant(before, ticket as int);
        }
        let outstanding: usize = self.in_flight.len();
        let mut slot: usize = 0;
        while slot < outstanding
            invariant
                slot <= outstanding,
                outstanding == self.in_flight@.len(),
                self@ == before,
                before == old(self)@,
                self.wf(),
                before.completed_with(ticket as int).wf(),
                forall|i: int| 0 <= i < slot ==> (#[trigger] before.in_flight[i]).ticket != ticket,
            decreases outstanding - slot,
        {
            if self.in_flight[slot].ticket == ticket {
                proof {
                    assert(before.in_flight[slot as int].ticket == ticket);
                    lemma_slot_is_unique(before, ticket as int, slot as int);
                }
                let flight = self.in_flight.remove(slot);
                self.completed = self.completed + 1;
                let done = settle(flight.task, outcome);
                proof {
                    assert(self@.in_flight =~= before.in_flight.remove(slot as int));
                    assert(self@ == before.completed_with(ticket as int));
                }
                return Some(done);
            }
            slot = slot + 1;
        }
        proof {
            assert(!before.holds(ticket as int));
        }
        None
    }

    /// A pass of the loop from its top: dispatch, then say what to wait for.
    fn resume(&mut self, now: u64) -> (action: Action)
        requires
            old(self).wf(),
        ensures
            final(self).wf(),
            (final(self)@, action@) == old(self)@.resumed(now as int),
    {
        let launch = self.dispatch(now);
        let wait = if self.in_flight.len() > 0 {
            Wait::Completion
        } else {
            Wait::Sleep { millis: IDLE_SLEEP_MILLIS }
        };
        Action { finished: None, launch, wait }
    }

    /// Answers an event with the next action and moves the run on accordingly.
    ///
    /// When the loop starts, a pass begins: tasks are dispatched as pacing
    /// permits. When a lookup finishes, its task is reported; if others are
    /// still outstanding a new pass begins at once, otherwise the caller is
    /// told to sleep. When a sleep is over, the run ends if nothing waits and
    /// nothing is outstanding, and a new pass begins otherwise. After a pass
    /// the caller waits for a completion if anything is outstanding, and
    /// sleeps if not.
    pub fn step(&mut self, event: Event) -> (action: Action)
        requires
            old(self).wf(),
        ensures
            final(self).wf(),
            (final(self)@, action@) == old(self)@.stepped(event),
    {
        match event {
            Event::Started { now } => self.resume(now),
            Event::Finished { ticket, outcome, now } => {
                let finished = self.complete(ticket, outcome);
                if self.in_flight.len() == 0 {
                    let action = Action {
                        finished,
                        launch: Vec::new(),
                        wait: Wait::Sleep { millis: IDLE_SLEEP_MILLIS },
                    };
                    proof {
                        assert(action@.launch =~= Seq::empty());
                    }
                    action
                } else {
                    let pass = self.resume(now);
                    Action { finished, launch: pass.launch, wait: pass.wait }
                }
            },
            Event::Woke { now } => {
                if self.is_terminated() {
                    let action = Action { finished: None, launch: Vec::new(), wait: Wait::Exit };
                    proof {
                        assert(action@.launch =~= Seq::empty());
                    }
                    action
                } else {
                    self.resume(now)
                }
            },
        }
    }
}

} // verus!
