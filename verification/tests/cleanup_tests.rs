use burst::cleanup::{after_termination_failure, CleanupGuard, TerminationStep};
use burst::request::{Assignment, Resolution};

fn assigned(id: &str, group: &str) -> Assignment {
    Assignment { id: id.to_string(), group: group.to_string() }
}

#[test]
fn a_new_guard_holds_nothing() {
    let mut guard = CleanupGuard::arm();
    assert!(!guard.released);
    assert_eq!(guard.instance_ids.len(), 0);
    assert_eq!(guard.release(), Some(Vec::<String>::new()));
    assert_eq!(guard.release(), None);
}

#[test]
fn tracking_only_adds() {
    let mut guard = CleanupGuard::arm();
    guard.track(&vec![assigned("i-a", "workers")]);
    assert_eq!(guard.instance_ids, vec!["i-a".to_string()]);
    guard.track(&vec![assigned("i-b", "leader"), assigned("i-c", "workers")]);
    assert_eq!(guard.instance_ids, vec!["i-a".to_string(), "i-b".to_string(), "i-c".to_string()]);
    guard.track(&Vec::new());
    assert_eq!(guard.instance_ids.len(), 3);
}

#[test]
fn release_hands_out_every_instance_once() {
    let resolution = Resolution {
        instances: vec![assigned("i-a", "workers"), assigned("i-b", "workers")],
        all_active: false,
    };
    let mut guard = CleanupGuard::armed_with(&resolution);
    assert!(!guard.released);
    assert_eq!(guard.release(), Some(vec!["i-a".to_string(), "i-b".to_string()]));
    assert!(guard.released);
    assert_eq!(guard.instance_ids.len(), 0);
    assert_eq!(guard.release(), None);
    assert_eq!(guard.release(), None);
}

#[test]
fn only_failures_of_connectivity_are_retried() {
    assert_eq!(after_termination_failure("Pooled stream disconnected"), TerminationStep::Retry);
    assert_eq!(after_termination_failure("error: broken pipe (os error 32)"), TerminationStep::Retry);
    assert_eq!(after_termination_failure("access denied"), TerminationStep::GiveUp);
    assert_eq!(after_termination_failure("Broken Pipe"), TerminationStep::GiveUp);
    assert_eq!(after_termination_failure(""), TerminationStep::GiveUp);
}
