use burst::plan::{BurstBuilder, MachineSetup};
use burst::request::{
    any_pending, find_group, is_not_yet_visible, launch_request, poll_step, record_requests, resolve,
    submission_plan, Assignment, DescribeAnswer, PollStep, RequestState, RequestStatus,
};

fn status(id: Option<&str>, state: &str, instance: Option<&str>) -> RequestStatus {
    RequestStatus {
        request_id: id.map(|s| s.to_string()),
        state: state.to_string(),
        instance_id: instance.map(|s| s.to_string()),
    }
}

fn assigned(id: &str, group: &str) -> Assignment {
    Assignment { id: id.to_string(), group: group.to_string() }
}

#[test]
fn launch_request_carries_the_group_and_the_shared_resources() {
    let mut b = BurstBuilder::new();
    b.add_set("workers", 2, MachineSetup::new("t2.micro", "ami-1"));
    let r = launch_request(&b.descriptors[0], "sg-1", "burst_key_x");
    assert_eq!(r.group, "workers");
    assert_eq!(r.image_id, "ami-1");
    assert_eq!(r.instance_type, "t2.micro");
    assert_eq!(r.security_group_id, "sg-1");
    assert_eq!(r.key_name, "burst_key_x");
    assert_eq!(r.instance_count, 2);
}

#[test]
fn submission_plan_has_one_request_per_group() {
    let mut b = BurstBuilder::new();
    b.add_set("workers", 2, MachineSetup::new("t2.micro", "ami-1"));
    b.add_set("leader", 1, MachineSetup::new("c5.large", "ami-2"));
    let reqs = submission_plan(&b, "sg-1", "key-1");
    assert_eq!(reqs.len(), 2);
    assert_eq!(reqs[0].group, "workers");
    assert_eq!(reqs[0].instance_count, 2);
    assert_eq!(reqs[1].group, "leader");
    assert_eq!(reqs[1].instance_count, 1);
    assert_eq!(reqs[1].image_id, "ami-2");
    assert_eq!(reqs[1].instance_type, "c5.large");
    assert_eq!(submission_plan(&BurstBuilder::new(), "sg-1", "key-1").len(), 0);
}

#[test]
fn record_requests_skips_entries_without_identifier() {
    let mut pending = vec![assigned("sir-0", "leader")];
    record_requests(&mut pending, "workers", &vec![Some("sir-1".to_string()), None, Some("sir-2".to_string())]);
    assert_eq!(pending.len(), 3);
    assert_eq!(pending[0].id, "sir-0");
    assert_eq!(pending[1].id, "sir-1");
    assert_eq!(pending[1].group, "workers");
    assert_eq!(pending[2].id, "sir-2");
    assert_eq!(pending[2].group, "workers");
}

#[test]
fn find_group_takes_the_latest_record() {
    let pending = vec![assigned("a", "one"), assigned("b", "two"), assigned("a", "three")];
    assert_eq!(find_group(&pending, &"a".to_string()), Some("three".to_string()));
    assert_eq!(find_group(&pending, &"b".to_string()), Some("two".to_string()));
    assert_eq!(find_group(&pending, &"c".to_string()), None);
    assert_eq!(find_group(&Vec::new(), &"a".to_string()), None);
}

#[test]
fn classify_reads_the_four_states() {
    assert_eq!(status(Some("r"), "open", None).classify(), RequestState::Open);
    assert_eq!(status(Some("r"), "open", Some("i-1")).classify(), RequestState::Open);
    assert_eq!(status(Some("r"), "active", None).classify(), RequestState::ActiveWithoutInstance);
    assert_eq!(status(Some("r"), "active", Some("i-1")).classify(), RequestState::ActiveWithInstance);
    assert_eq!(status(Some("r"), "closed", None).classify(), RequestState::Rejected);
    assert_eq!(status(Some("r"), "failed", Some("i-1")).classify(), RequestState::Rejected);
    assert_eq!(status(Some("r"), "Open", None).classify(), RequestState::Rejected);
}

#[test]
fn pending_is_open_or_active_without_instance() {
    assert!(status(Some("r"), "open", None).is_pending());
    assert!(status(Some("r"), "active", None).is_pending());
    assert!(!status(Some("r"), "active", Some("i-1")).is_pending());
    assert!(!status(Some("r"), "cancelled", None).is_pending());
    assert!(!any_pending(&Vec::new()));
    assert!(any_pending(&vec![status(Some("a"), "active", Some("i-1")), status(Some("b"), "open", None)]));
    assert!(!any_pending(&vec![status(Some("a"), "active", Some("i-1")), status(Some("b"), "closed", None)]));
}

#[test]
fn not_yet_visible_needs_both_phrases() {
    assert!(is_not_yet_visible("The spot instance request ID 'sir-1' does not exist"));
    assert!(is_not_yet_visible("x does not exist; The spot instance request ID y"));
    assert!(!is_not_yet_visible("The spot instance request ID 'sir-1' is malformed"));
    assert!(!is_not_yet_visible("the key does not exist"));
    assert!(!is_not_yet_visible(""));
}

#[test]
fn resolve_carries_groups_from_requests_to_instances() {
    let pending = vec![assigned("sir-1", "workers"), assigned("sir-2", "workers"), assigned("sir-3", "leader")];
    let statuses = vec![
        status(Some("sir-3"), "active", Some("i-c")),
        status(Some("sir-1"), "active", Some("i-a")),
        status(Some("sir-2"), "active", Some("i-b")),
    ];
    let r = resolve(&statuses, &pending).unwrap();
    assert!(r.all_active);
    assert_eq!(r.instances.len(), 3);
    assert_eq!((r.instances[0].id.as_str(), r.instances[0].group.as_str()), ("i-c", "leader"));
    assert_eq!((r.instances[1].id.as_str(), r.instances[1].group.as_str()), ("i-a", "workers"));
    assert_eq!((r.instances[2].id.as_str(), r.instances[2].group.as_str()), ("i-b", "workers"));
}

#[test]
fn resolve_notes_a_rejected_request() {
    let pending = vec![assigned("sir-1", "workers"), assigned("sir-3", "leader")];
    let statuses = vec![status(Some("sir-1"), "active", Some("i-a")), status(Some("sir-3"), "closed", None)];
    let r = resolve(&statuses, &pending).unwrap();
    assert!(!r.all_active);
    assert_eq!(r.instances.len(), 1);
    assert_eq!(r.instances[0].id, "i-a");
    assert_eq!(r.instances[0].group, "workers");
}

#[test]
fn resolve_refuses_an_active_request_of_no_group() {
    let pending = vec![assigned("sir-1", "workers")];
    assert!(resolve(&vec![status(Some("sir-9"), "active", Some("i-a"))], &pending).is_none());
    assert!(resolve(&vec![status(None, "active", Some("i-a"))], &pending).is_none());
    let empty = resolve(&Vec::new(), &pending).unwrap();
    assert!(empty.all_active);
    assert_eq!(empty.instances.len(), 0);
}

#[test]
fn poll_step_waits_while_anything_is_pending() {
    let pending = vec![assigned("sir-1", "workers"), assigned("sir-2", "leader")];
    let open = DescribeAnswer::Listed(vec![
        status(Some("sir-1"), "active", Some("i-a")),
        status(Some("sir-2"), "open", None),
    ]);
    assert!(matches!(poll_step(&open, &pending), PollStep::Again));
    let lagging = DescribeAnswer::Listed(vec![status(Some("sir-1"), "active", None)]);
    assert!(matches!(poll_step(&lagging, &pending), PollStep::Again));
    assert!(matches!(poll_step(&DescribeAnswer::Missing, &pending), PollStep::Again));
}

#[test]
fn poll_step_tells_passing_failures_from_others() {
    let pending = vec![assigned("sir-1", "workers")];
    let lag = DescribeAnswer::Failed("The spot instance request ID 'sir-1' does not exist".to_string());
    assert!(matches!(poll_step(&lag, &pending), PollStep::Again));
    let fatal = DescribeAnswer::Failed("access denied".to_string());
    assert!(matches!(poll_step(&fatal, &pending), PollStep::Abort));
}

#[test]
fn poll_step_resolves_a_final_round() {
    let pending = vec![assigned("sir-1", "workers")];
    let done = DescribeAnswer::Listed(vec![status(Some("sir-1"), "active", Some("i-a"))]);
    match poll_step(&done, &pending) {
        PollStep::Resolved(r) => {
            assert!(r.all_active);
            assert_eq!(r.instances.len(), 1);
            assert_eq!(r.instances[0].id, "i-a");
            assert_eq!(r.instances[0].group, "workers");
        }
        _ => panic!("the round is final"),
    }
    let stray = DescribeAnswer::Listed(vec![status(Some("sir-7"), "active", Some("i-a"))]);
    assert!(matches!(poll_step(&stray, &pending), PollStep::Stray));
}

#[test]
fn identifiers_are_listed_in_order() {
    let pending = vec![assigned("sir-2", "workers"), assigned("sir-1", "leader")];
    assert_eq!(burst::request::identifiers(&pending), vec!["sir-2".to_string(), "sir-1".to_string()]);
    assert_eq!(burst::request::identifiers(&Vec::new()), Vec::<String>::new());
}
