use subscan::lookup::{output_line, LookupError, LookupOutcome};
use subscan::model::{Event, Phase, Wait};
use subscan::pacing::{ConfigError, IDLE_SLEEP_MILLIS};
use subscan::scheduler::{Launch, Scheduler};
use subscan::task::ResolveStatus;

const MILLI: u64 = 1_000_000;

fn lines_of(labels: &[&str]) -> Vec<String> {
    labels.iter().map(|label| label.to_string()).collect()
}

fn scheduler_for(labels: &[&str], qps: u32) -> Scheduler {
    match Scheduler::new(lines_of(labels), "example.com".to_string(), qps, 0) {
        Ok(scheduler) => scheduler,
        Err(error) => panic!("refused: {:?}", error),
    }
}

/// Drives a run to its end against a stub resolver. Lookups are answered in
/// the order of their dispatch, one millisecond apart; a sleep takes its
/// nominal time. Returns the lines of output in the order of their report.
fn run_to_end(labels: &[&str], qps: u32, stub: fn(&str) -> LookupOutcome) -> Vec<String> {
    let mut scheduler = scheduler_for(labels, qps);
    let mut clock: u64 = 0;
    let mut outstanding: Vec<Launch> = Vec::new();
    let mut output: Vec<String> = Vec::new();
    let mut event = Event::Started { now: clock };
    let mut steps: u64 = 0;
    loop {
        steps += 1;
        assert!(steps < 1_000_000, "the run does not end");
        let action = scheduler.step(event);
        if let Some(task) = &action.finished {
            match output_line(task, "example.com") {
                Some(line) => output.push(line),
                None => panic!("a pending task was reported"),
            }
        }
        outstanding.extend(action.launch);
        assert_eq!(outstanding.len(), scheduler.in_flight_len());
        event = match action.wait {
            Wait::Completion => {
                let launch = outstanding.remove(0);
                clock += MILLI;
                Event::Finished { ticket: launch.ticket, outcome: stub(&launch.name), now: clock }
            }
            Wait::Sleep { millis } => {
                assert_eq!(millis, IDLE_SLEEP_MILLIS);
                clock += millis * MILLI;
                Event::Woke { now: clock }
            }
            Wait::Exit => break,
        };
    }
    assert!(scheduler.is_terminated());
    assert_eq!(scheduler.completed(), labels.len());
    assert_eq!(scheduler.issued(), labels.len());
    output
}

fn always_answers(_name: &str) -> LookupOutcome {
    LookupOutcome::Answered
}

fn always_times_out(_name: &str) -> LookupOutcome {
    LookupOutcome::Failed(LookupError::Timeout)
}

fn knows_www_only(name: &str) -> LookupOutcome {
    if name == "www.example.com" {
        LookupOutcome::Answered
    } else {
        LookupOutcome::Failed(LookupError::NoRecordsFound)
    }
}

#[test]
fn zero_rate_is_a_configuration_error() {
    let made = Scheduler::new(lines_of(&["www"]), "example.com".to_string(), 0, 0);
    assert!(matches!(made, Err(ConfigError::ZeroRate)));
}

#[test]
fn a_new_run_has_everything_waiting() {
    let scheduler = scheduler_for(&["www", "mail", "ftp"], 10);
    assert_eq!(scheduler.pending_len(), 3);
    assert_eq!(scheduler.in_flight_len(), 0);
    assert_eq!(scheduler.completed(), 0);
    assert_eq!(scheduler.issued(), 0);
    assert_eq!(scheduler.qps(), 10);
    assert_eq!(scheduler.target(), "example.com");
    assert_eq!(scheduler.phase(), Phase::Running);
    assert!(!scheduler.is_terminated());
}

#[test]
fn a_run_over_nothing_is_terminated_at_once() {
    let scheduler = scheduler_for(&[], 10);
    assert_eq!(scheduler.phase(), Phase::Terminated);
    assert!(scheduler.is_terminated());
}

#[test]
fn resolved_name_is_reported_as_resolved() {
    let output = run_to_end(&["www"], 10, knows_www_only);
    assert_eq!(output, vec!["www.example.com Resolved".to_string()]);
}

#[test]
fn name_without_records_is_reported_as_cant_resolve() {
    let output = run_to_end(&["doesnotexist"], 10, knows_www_only);
    assert_eq!(output, vec!["doesnotexist.example.com CantResolve".to_string()]);
}

#[test]
fn timed_out_name_is_reported_as_timeout() {
    let output = run_to_end(&["slow"], 10, always_times_out);
    assert_eq!(output, vec!["slow.example.com Timeout".to_string()]);
}

#[test]
fn empty_label_looks_up_the_dotted_target() {
    let mut output = run_to_end(&["", "mail"], 10, always_answers);
    output.sort();
    assert_eq!(
        output,
        vec![".example.com Resolved".to_string(), "mail.example.com Resolved".to_string()]
    );
}

#[test]
fn burst_dispatch_reports_every_task_once() {
    let labels = ["a", "b", "c", "d", "e", "f", "g", "h"];
    let mut output = run_to_end(&labels, u32::MAX, always_answers);
    output.sort();
    let mut expected: Vec<String> =
        labels.iter().map(|label| format!("{}.example.com Resolved", label)).collect();
    expected.sort();
    assert_eq!(output, expected);
}

#[test]
fn repeated_labels_are_reported_as_often_as_given() {
    let labels = ["www", "mail", "www", "www", "", "mail", ""];
    let mut output = run_to_end(&labels, 50, knows_www_only);
    output.sort();
    let mut expected = vec![
        "www.example.com Resolved".to_string(),
        "www.example.com Resolved".to_string(),
        "www.example.com Resolved".to_string(),
        "mail.example.com CantResolve".to_string(),
        "mail.example.com CantResolve".to_string(),
        ".example.com CantResolve".to_string(),
        ".example.com CantResolve".to_string(),
    ];
    expected.sort();
    assert_eq!(output, expected);
}

#[test]
fn a_run_ends_at_the_slowest_rate() {
    let output = run_to_end(&["a", "b", "c"], 1, always_answers);
    assert_eq!(output.len(), 3);
}

#[test]
fn a_run_ends_at_the_fastest_rate() {
    let output = run_to_end(&["a", "b", "c"], u32::MAX, always_times_out);
    assert_eq!(output.len(), 3);
}

#[test]
fn a_run_over_nothing_sleeps_once_and_ends() {
    let mut scheduler = scheduler_for(&[], 10);
    let first = scheduler.step(Event::Started { now: 0 });
    assert_eq!(first.wait, Wait::Sleep { millis: 20 });
    assert!(first.launch.is_empty());
    assert!(first.finished.is_none());
    let second = scheduler.step(Event::Woke { now: 20 * MILLI });
    assert_eq!(second.wait, Wait::Exit);
    assert!(second.launch.is_empty());
    assert!(second.finished.is_none());
}

#[test]
fn nothing_is_dispatched_before_the_first_interval() {
    let mut scheduler = scheduler_for(&["www", "mail"], 10);
    let action = scheduler.step(Event::Started { now: 0 });
    assert!(action.launch.is_empty());
    assert_eq!(action.wait, Wait::Sleep { millis: 20 });
    let action = scheduler.step(Event::Woke { now: 100 * MILLI });
    assert!(action.launch.is_empty());
    assert_eq!(action.wait, Wait::Sleep { millis: 20 });
    assert_eq!(scheduler.pending_len(), 2);
}

#[test]
fn the_last_line_is_dispatched_first() {
    let mut scheduler = scheduler_for(&["first", "second", "third"], 10);
    let launch = scheduler.dispatch(250 * MILLI);
    assert_eq!(launch.len(), 2);
    assert_eq!(launch[0].ticket, 0);
    assert_eq!(launch[0].name, "third.example.com");
    assert_eq!(launch[1].ticket, 1);
    assert_eq!(launch[1].name, "second.example.com");
    assert_eq!(scheduler.pending_len(), 1);
    assert_eq!(scheduler.in_flight_len(), 2);
    assert_eq!(scheduler.issued(), 2);
    let launch = scheduler.dispatch(400 * MILLI);
    assert_eq!(launch.len(), 1);
    assert_eq!(launch[0].ticket, 2);
    assert_eq!(launch[0].name, "first.example.com");
    assert_eq!(scheduler.phase(), Phase::Draining);
}

#[test]
fn dispatch_is_clamped_to_the_queue() {
    let mut scheduler = scheduler_for(&["a", "b"], 1000);
    let launch = scheduler.dispatch(5_000 * MILLI);
    assert_eq!(launch.len(), 2);
    assert_eq!(scheduler.pending_len(), 0);
    let launch = scheduler.dispatch(10_000 * MILLI);
    assert!(launch.is_empty());
}

#[test]
fn the_pacing_clock_moves_only_on_dispatch() {
    let mut scheduler = scheduler_for(&["a", "b", "c"], 10);
    assert!(scheduler.dispatch(60 * MILLI).is_empty());
    assert_eq!(scheduler.dispatch(120 * MILLI).len(), 1);
    assert!(scheduler.dispatch(200 * MILLI).is_empty());
    assert!(scheduler.dispatch(220 * MILLI).is_empty());
    assert_eq!(scheduler.dispatch(220 * MILLI + 1).len(), 1);
}

#[test]
fn a_clock_that_reads_earlier_allows_nothing() {
    let mut scheduler = match Scheduler::new(lines_of(&["a"]), "t".to_string(), 10, 900 * MILLI) {
        Ok(scheduler) => scheduler,
        Err(error) => panic!("refused: {:?}", error),
    };
    assert!(scheduler.dispatch(100 * MILLI).is_empty());
    assert_eq!(scheduler.dispatch(1_100 * MILLI).len(), 1);
}

#[test]
fn dispatched_count_stays_within_the_rate() {
    let labels: Vec<String> = (0..100).map(|i| format!("host{}", i)).collect();
    let mut scheduler = match Scheduler::new(labels, "example.com".to_string(), 7, 0) {
        Ok(scheduler) => scheduler,
        Err(error) => panic!("refused: {:?}", error),
    };
    let mut clock: u64 = 0;
    for tick in 0..400u64 {
        clock += 13 * MILLI + tick;
        scheduler.dispatch(clock);
        let credit = (clock as u128) * 7 / 1_000_000_000;
        assert!((scheduler.issued() as u128) <= credit);
        assert!(scheduler.issued() <= 100);
    }
    assert!(scheduler.issued() > 0);
}

#[test]
fn first_pass_dispatches_the_credit_of_the_elapsed_time() {
    let labels: Vec<String> = (0..100).map(|i| format!("host{}", i)).collect();
    let mut scheduler = match Scheduler::new(labels, "example.com".to_string(), 10, 0) {
        Ok(scheduler) => scheduler,
        Err(error) => panic!("refused: {:?}", error),
    };
    let action = scheduler.step(Event::Started { now: 2_550 * MILLI });
    assert_eq!(action.launch.len(), 25);
    assert_eq!(action.wait, Wait::Completion);
    assert_eq!(scheduler.issued(), 25);
    assert_eq!(scheduler.pending_len(), 75);
}

#[test]
fn completion_takes_one_lookup_and_leaves_the_rest() {
    let mut scheduler = scheduler_for(&["a", "b", "c"], 100);
    assert_eq!(scheduler.dispatch(1_000 * MILLI).len(), 3);
    let done = scheduler.complete(1, LookupOutcome::Failed(LookupError::Timeout));
    let done = match done {
        Some(task) => task,
        None => panic!("ticket 1 was outstanding"),
    };
    assert_eq!(done.subdomain, "b");
    assert_eq!(done.status, ResolveStatus::Timeout);
    assert_eq!(scheduler.in_flight_len(), 2);
    assert_eq!(scheduler.completed(), 1);
    let done = scheduler.complete(0, LookupOutcome::Answered);
    assert_eq!(done.map(|task| (task.subdomain, task.status)), Some(("c".to_string(), ResolveStatus::Resolved)));
    let done = scheduler.complete(2, LookupOutcome::Failed(LookupError::Other));
    assert_eq!(done.map(|task| (task.subdomain, task.status)), Some(("a".to_string(), ResolveStatus::CantResolve)));
    assert!(scheduler.is_terminated());
    assert_eq!(scheduler.completed(), 3);
}

#[test]
fn a_ticket_finishes_a_task_only_once() {
    let mut scheduler = scheduler_for(&["a", "b"], 100);
    assert_eq!(scheduler.dispatch(1_000 * MILLI).len(), 2);
    assert!(scheduler.complete(0, LookupOutcome::Answered).is_some());
    assert!(scheduler.complete(0, LookupOutcome::Answered).is_none());
    assert!(scheduler.complete(0, LookupOutcome::Failed(LookupError::Timeout)).is_none());
    assert_eq!(scheduler.completed(), 1);
    assert_eq!(scheduler.in_flight_len(), 1);
}

#[test]
fn an_unknown_ticket_changes_nothing() {
    let mut scheduler = scheduler_for(&["a", "b"], 100);
    assert_eq!(scheduler.dispatch(1_000 * MILLI).len(), 2);
    assert!(scheduler.complete(7, LookupOutcome::Answered).is_none());
    assert_eq!(scheduler.completed(), 0);
    assert_eq!(scheduler.in_flight_len(), 2);
    let action = scheduler.step(Event::Finished {
        ticket: 9,
        outcome: LookupOutcome::Answered,
        now: 1_001 * MILLI,
    });
    assert!(action.finished.is_none());
    assert_eq!(action.wait, Wait::Completion);
    assert_eq!(scheduler.in_flight_len(), 2);
}

#[test]
fn a_completion_with_others_outstanding_starts_a_new_pass() {
    let mut scheduler = scheduler_for(&["a", "b", "c"], 10);
    let action = scheduler.step(Event::Started { now: 250 * MILLI });
    assert_eq!(action.launch.len(), 2);
    assert_eq!(action.wait, Wait::Completion);
    let action = scheduler.step(Event::Finished {
        ticket: 0,
        outcome: LookupOutcome::Answered,
        now: 400 * MILLI,
    });
    let finished = match action.finished {
        Some(task) => task,
        None => panic!("ticket 0 was outstanding"),
    };
    assert_eq!(finished.subdomain, "c");
    assert_eq!(finished.status, ResolveStatus::Resolved);
    assert_eq!(action.launch.len(), 1);
    assert_eq!(action.launch[0].ticket, 2);
    assert_eq!(action.launch[0].name, "a.example.com");
    assert_eq!(action.wait, Wait::Completion);
    assert_eq!(scheduler.phase(), Phase::Draining);
}

#[test]
fn the_last_completion_is_followed_by_a_sleep() {
    let mut scheduler = scheduler_for(&["a", "b"], 10);
    let action = scheduler.step(Event::Started { now: 150 * MILLI });
    assert_eq!(action.launch.len(), 1);
    let action = scheduler.step(Event::Finished {
        ticket: 0,
        outcome: LookupOutcome::Answered,
        now: 1_000 * MILLI,
    });
    assert!(action.finished.is_some());
    assert!(action.launch.is_empty());
    assert_eq!(action.wait, Wait::Sleep { millis: 20 });
    assert_eq!(scheduler.pending_len(), 1);
    let action = scheduler.step(Event::Woke { now: 1_020 * MILLI });
    assert_eq!(action.launch.len(), 1);
    assert_eq!(action.launch[0].name, "a.example.com");
    assert_eq!(action.wait, Wait::Completion);
    let action = scheduler.step(Event::Finished {
        ticket: 1,
        outcome: LookupOutcome::Failed(LookupError::NoRecordsFound),
        now: 1_030 * MILLI,
    });
    assert_eq!(action.finished.map(|task| task.status), Some(ResolveStatus::CantResolve));
    assert_eq!(action.wait, Wait::Sleep { millis: 20 });
    assert_eq!(scheduler.phase(), Phase::Terminated);
    let action = scheduler.step(Event::Woke { now: 1_050 * MILLI });
    assert_eq!(action.wait, Wait::Exit);
}

#[test]
fn phases_follow_the_work() {
    let mut scheduler = scheduler_for(&["a"], 10);
    assert_eq!(scheduler.phase(), Phase::Running);
    scheduler.dispatch(500 * MILLI);
    assert_eq!(scheduler.phase(), Phase::Draining);
    scheduler.complete(0, LookupOutcome::Answered);
    assert_eq!(scheduler.phase(), Phase::Terminated);
}

#[test]
fn a_report_is_for_the_task_launched_under_its_ticket() {
    let mut scheduler = scheduler_for(&["a", "b", "c", "d"], 1000);
    let launch = scheduler.dispatch(1_000 * MILLI);
    assert_eq!(launch.len(), 4);
    for order in [2usize, 0, 3, 1] {
        let asked = &launch[order];
        assert_eq!(asked.ticket, order);
        let done = match scheduler.complete(asked.ticket, LookupOutcome::Answered) {
            Some(task) => task,
            None => panic!("ticket {} was outstanding", asked.ticket),
        };
        assert_eq!(format!("{}.example.com", done.subdomain), asked.name);
    }
    assert!(scheduler.is_terminated());
}

#[test]
fn the_queue_never_grows_and_phases_never_go_back() {
    let mut scheduler = scheduler_for(&["a", "b", "c"], 10);
    let mut clock: u64 = 0;
    let mut waiting = scheduler.pending_len();
    let mut event = Event::Started { now: 0 };
    let mut seen_draining = false;
    for _ in 0..200 {
        let action = scheduler.step(event);
        assert!(scheduler.pending_len() <= waiting);
        waiting = scheduler.pending_len();
        if scheduler.phase() != Phase::Running {
            seen_draining = true;
        }
        if seen_draining {
            assert_ne!(scheduler.phase(), Phase::Running);
        }
        clock += 70 * MILLI;
        event = match action.wait {
            Wait::Completion => Event::Finished {
                ticket: scheduler.completed(),
                outcome: LookupOutcome::Answered,
                now: clock,
            },
            Wait::Sleep { .. } => Event::Woke { now: clock },
            Wait::Exit => break,
        };
    }
    assert!(scheduler.is_terminated());
    assert_eq!(scheduler.completed(), 3);
}
