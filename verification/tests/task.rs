use subscan::task::{tasks_from_lines, ResolveStatus, ResolveTask};

#[test]
fn new_task_is_pending_with_its_label() {
    let task = ResolveTask::new("www".to_string());
    assert_eq!(task.subdomain, "www");
    assert_eq!(task.status, ResolveStatus::Pending);
}

#[test]
fn new_task_keeps_an_empty_label() {
    let task = ResolveTask::new(String::new());
    assert_eq!(task.subdomain, "");
    assert_eq!(task.status, ResolveStatus::Pending);
}

#[test]
fn only_pending_is_not_terminal() {
    assert!(!ResolveStatus::Pending.is_terminal());
    assert!(ResolveStatus::Timeout.is_terminal());
    assert!(ResolveStatus::Resolved.is_terminal());
    assert!(ResolveStatus::CantResolve.is_terminal());
}

#[test]
fn status_names_are_the_variant_names() {
    assert_eq!(ResolveStatus::Pending.name(), "Pending");
    assert_eq!(ResolveStatus::Timeout.name(), "Timeout");
    assert_eq!(ResolveStatus::Resolved.name(), "Resolved");
    assert_eq!(ResolveStatus::CantResolve.name(), "CantResolve");
}

#[test]
fn lines_become_pending_tasks_in_order() {
    let lines = vec!["www".to_string(), "mail".to_string(), "ftp".to_string()];
    let queue = tasks_from_lines(lines);
    assert_eq!(queue.len(), 3);
    assert_eq!(queue[0].subdomain, "www");
    assert_eq!(queue[1].subdomain, "mail");
    assert_eq!(queue[2].subdomain, "ftp");
    for task in queue.iter() {
        assert_eq!(task.status, ResolveStatus::Pending);
    }
}

#[test]
fn lines_are_taken_verbatim() {
    let lines = vec![String::new(), "  padded ".to_string(), "www".to_string(), "www".to_string()];
    let queue = tasks_from_lines(lines);
    assert_eq!(queue.len(), 4);
    assert_eq!(queue[0].subdomain, "");
    assert_eq!(queue[1].subdomain, "  padded ");
    assert_eq!(queue[2].subdomain, "www");
    assert_eq!(queue[3].subdomain, "www");
}

#[test]
fn no_lines_give_an_empty_queue() {
    let queue = tasks_from_lines(Vec::new());
    assert!(queue.is_empty());
}
