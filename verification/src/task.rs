//! Candidate tasks and the text that names them.

use std::collections::VecDeque;
use vstd::prelude::*;

verus! {

/// Where a task stands: not yet answered, or one of the three final outcomes.
#[derive(Debug, Clone, Copy, PartialEq, Eq, Structural)]
pub enum ResolveStatus {
    Pending,
    Timeout,
    Resolved,
    CantResolve,
}

impl ResolveStatus {
    /// A status is terminal when it is anything but `Pending`.
    pub open spec fn terminal(self) -> bool {
        self != ResolveStatus::Pending
    }

    /// Whether the status is one of the three final outcomes.
    pub fn is_terminal(&self) -> (terminal: bool)
        ensures
            terminal == self.terminal(),
    {
        match self {
            ResolveStatus::Pending => false,
            _ => true,
        }
    }

    /// The word that stands for the status in a line of output.
    pub open spec fn name_spec(self) -> Seq<char> {
        match self {
            ResolveStatus::Pending => "Pending"@,
            ResolveStatus::Timeout => "Timeout"@,
            ResolveStatus::Resolved => "Resolved"@,
            ResolveStatus::CantResolve => "CantResolve"@,
        }
    }

    /// The word that stands for the status in a line of output: the name of the variant.
    pub fn name(&self) -> (name: String)
        ensures
            name@ == self.name_spec(),
    {
        match self {
            ResolveStatus::Pending => "Pending".to_owned(),
            ResolveStatus::Timeout => "Timeout".to_owned(),
            ResolveStatus::Resolved => "Resolved".to_owned(),
            ResolveStatus::CantResolve => "CantResolve".to_owned(),
        }
    }
}

/// A candidate label together with the status of its lookup.
#[derive(Debug, Clone)]
pub struct ResolveTask {
    pub subdomain: String,
    pub status: ResolveStatus,
}

/// What a task is, as plain values: the characters of its label and its status.
pub struct TaskView {
    pub label: Seq<char>,
    pub status: ResolveStatus,
}

impl View for ResolveTask {
    type V = TaskView;

    open spec fn view(&self) -> TaskView {
        TaskView { label: self.subdomain@, status: self.status }
    }
}

impl ResolveTask {
    /// A fresh task for `subdomain`, not yet dispatched.
    pub fn new(subdomain: String) -> (task: ResolveTask)
        ensures
            task@ == (TaskView { label: subdomain@, status: ResolveStatus::Pending }),
    {
        ResolveTask { subdomain, status: ResolveStatus::Pending }
    }
}

/// The characters of each line, in order.
pub open spec fn texts_of(lines: Seq<String>) -> Seq<Seq<char>> {
    lines.map_values(|line: String| line@)
}

/// The tasks of a queue, as plain values, in order.
pub open spec fn views_of(tasks: Seq<ResolveTask>) -> Seq<TaskView> {
    tasks.map_values(|task: ResolveTask| task@)
}

/// The tasks of a queue read from `labels`: one per label, all pending.
pub open spec fn fresh_tasks(labels: Seq<Seq<char>>) -> Seq<TaskView> {
    labels.map_values(|label: Seq<char>| TaskView { label, status: ResolveStatus::Pending })
}

/// Builds the task queue from the lines of the candidate list: one pending
/// task per line, in the order of the lines, each label the line as it stands.
/// An empty line gives a task with an empty label.
pub fn tasks_from_lines(lines: Vec<String>) -> (queue: VecDeque<ResolveTask>)
    ensures
        views_of(queue@) == fresh_tasks(texts_of(lines@)),
{
    let ghost all = lines@;
    let mut rest = lines;
    let mut queue: VecDeque<ResolveTask> = VecDeque::new();
    while rest.len() > 0
        invariant
            rest@.len() <= all.len(),
            queue@.len() == all.len() - rest@.len(),
            forall|i: int| 0 <= i < rest@.len() ==> rest@[i] == all[i],
            forall|i: int|
                0 <= i < queue@.len() ==> (#[trigger] queue@[i])@ == (TaskView {
                    label: all[rest@.len() + i]@,
                    status: ResolveStatus::Pending,
                }),
        decreases rest@.len(),
    {
        let ghost shorter = queue@;
        let line = rest.pop().unwrap();
        queue.push_front(ResolveTask::new(line));
        assert forall|i: int| 0 <= i < queue@.len() implies (#[trigger] queue@[i])@ == (TaskView {
            label: all[rest@.len() + i]@,
            status: ResolveStatus::Pending,
        }) by {
            if i > 0 {
                assert(queue@[i] == shorter[i - 1]);
            }
        }
    }
    assert(views_of(queue@) =~= fresh_tasks(texts_of(all)));
    queue
}

} // verus!
