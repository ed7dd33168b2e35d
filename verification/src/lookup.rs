//! What a lookup can answer, and the status that each answer gives a task.

use trust_dns_resolver::error::ResolveError;
use trust_dns_resolver::error::ResolveErrorKind;
use vstd::prelude::*;
use vstd::string::*;
use crate::task::ResolveStatus;
use crate::task::ResolveTask;
use crate::task::TaskView;

verus! {

/// The three ways in which a lookup fails, as far as a task's status tells them apart.
#[derive(Debug, Clone, Copy, PartialEq, Eq, Structural)]
pub enum LookupError {
    /// The resolver gave up waiting for an answer.
    Timeout,
    /// The resolver was told that the name has no records.
    NoRecordsFound,
    /// Any other failure.
    Other,
}

/// The answer of one lookup: at least one record, or a failure.
#[derive(Debug, Clone, Copy, PartialEq, Eq, Structural)]
pub enum LookupOutcome {
    Answered,
    Failed(LookupError),
}

/// The resolver's error type, `trust_dns_resolver::error::ResolveError`. Its
/// values are carried through as they are; nothing is known of their insides.
#[verifier::external_type_specification]
#[verifier::external_body]
pub struct ExResolveError(ResolveError);

/// The failure class that the kind of a resolver error stands for: what
/// `ResolveError::kind` shows of the error, told apart as far as `LookupError` does.
pub uninterp spec fn error_class(error: ResolveError) -> LookupError;

/// Reads the kind of a resolver error with `ResolveError::kind` and names its class:
/// the kind `Timeout` is `LookupError::Timeout`, the kind `NoRecordsFound` is
/// `LookupError::NoRecordsFound`, every other kind is `LookupError::Other`.
/// The contract claims only that the class depends on the error alone.
#[verifier::external_body]
fn classify_error(error: &ResolveError) -> (class: LookupError)
    ensures
        class == error_class(*error),
{
    match error.kind() {
        ResolveErrorKind::Timeout => LookupError::Timeout,
        ResolveErrorKind::NoRecordsFound { .. } => LookupError::NoRecordsFound,
        _ => LookupError::Other,
    }
}

/// The outcome that a resolver's response stands for.
pub open spec fn outcome_spec<T>(response: Result<T, ResolveError>) -> LookupOutcome {
    match response {
        Ok(_) => LookupOutcome::Answered,
        Err(error) => LookupOutcome::Failed(error_class(error)),
    }
}

/// Turns a resolver's response into an outcome: any successful answer is
/// `Answered`, an error is `Failed` with the class of its kind.
pub fn outcome_of<T>(response: &Result<T, ResolveError>) -> (outcome: LookupOutcome)
    ensures
        outcome == outcome_spec(*response),
        response is Ok <==> outcome == LookupOutcome::Answered,
{
    match response {
        Ok(_) => LookupOutcome::Answered,
        Err(error) => LookupOutcome::Failed(classify_error(error)),
    }
}

/// The terminal status that an outcome gives a task.
pub open spec fn status_spec(outcome: LookupOutcome) -> ResolveStatus {
    match outcome {
        LookupOutcome::Answered => ResolveStatus::Resolved,
        LookupOutcome::Failed(LookupError::Timeout) => ResolveStatus::Timeout,
        LookupOutcome::Failed(LookupError::NoRecordsFound) => ResolveStatus::CantResolve,
        LookupOutcome::Failed(LookupError::Other) => ResolveStatus::CantResolve,
    }
}

/// Classifies an outcome: an answer resolves the task, a timeout is kept apart,
/// and every other failure means that the name cannot be resolved.
pub fn classify(outcome: LookupOutcome) -> (status: ResolveStatus)
    ensures
        status == status_spec(outcome),
        status.terminal(),
{
    match outcome {
        LookupOutcome::Answered => ResolveStatus::Resolved,
        LookupOutcome::Failed(LookupError::Timeout) => ResolveStatus::Timeout,
        LookupOutcome::Failed(_) => ResolveStatus::CantResolve,
    }
}

/// The name that is looked up for `label` under `target`: label, dot, target.
pub open spec fn fqdn_spec(label: Seq<char>, target: Seq<char>) -> Seq<char> {
    label + "."@ + target
}

/// Builds the fully-qualified name of a candidate. An empty label gives the
/// target with a leading dot.
pub fn fqdn(subdomain: &str, target: &str) -> (name: String)
    ensures
        name@ == fqdn_spec(subdomain@, target@),
{
    let mut name = subdomain.to_owned();
    name.append(".");
    name.append(target);
    name
}

/// The line that reports a task: its name under `target`, a space, its status.
pub open spec fn output_line_spec(task: TaskView, target: Seq<char>) -> Seq<char> {
    fqdn_spec(task.label, target) + " "@ + task.status.name_spec()
}

/// The line of output for a finished task: the name that was looked up, a
/// space, and the word for the task's status. A task that is still pending
/// has no line.
pub fn output_line(task: &ResolveTask, target: &str) -> (line: Option<String>)
    ensures
        line is Some <==> task@.status.terminal(),
        line matches Some(text) ==> text@ == output_line_spec(task@, target@),
{
    if !task.status.is_terminal() {
        return None;
    }
    let mut line = fqdn(task.subdomain.as_str(), target);
    line.append(" ");
    let status = task.status.name();
    line.append(status.as_str());
    Some(line)
}

/// The task as it stands once its lookup has come back with `outcome`.
pub open spec fn settled_spec(task: TaskView, outcome: LookupOutcome) -> TaskView {
    TaskView { label: task.label, status: status_spec(outcome) }
}

/// Gives a task its terminal status: the label stays, the status is the one
/// that `classify` gives the outcome.
pub fn settle(task: ResolveTask, outcome: LookupOutcome) -> (done: ResolveTask)
    ensures
        done@ == settled_spec(task@, outcome),
        done@.status.terminal(),
{
    ResolveTask { subdomain: task.subdomain, status: classify(outcome) }
}

} // verus!
