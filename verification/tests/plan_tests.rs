use burst::plan::{BurstBuilder, MachineSetup};

#[test]
fn new_plan_is_empty_with_one_hour() {
    let b = BurstBuilder::new();
    assert_eq!(b.descriptors.len(), 0);
    assert_eq!(b.max_duration, 60);
    let d = BurstBuilder::default();
    assert_eq!(d.descriptors.len(), 0);
    assert_eq!(d.max_duration, 60);
}

#[test]
fn machine_setup_keeps_class_and_image() {
    let s = MachineSetup::new("t2.micro", "ami-083654bd07b5da81d");
    assert_eq!(s.instance_type, "t2.micro");
    assert_eq!(s.ami, "ami-083654bd07b5da81d");
}

#[test]
fn add_set_appends_new_names_in_order() {
    let mut b = BurstBuilder::new();
    b.add_set("workers", 2, MachineSetup::new("t2.micro", "ami-1"));
    b.add_set("leader", 1, MachineSetup::new("c5.large", "ami-2"));
    assert_eq!(b.descriptors.len(), 2);
    assert_eq!(b.descriptors[0].name, "workers");
    assert_eq!(b.descriptors[0].number, 2);
    assert_eq!(b.descriptors[0].setup.instance_type, "t2.micro");
    assert_eq!(b.descriptors[1].name, "leader");
    assert_eq!(b.descriptors[1].number, 1);
    assert_eq!(b.descriptors[1].setup.ami, "ami-2");
    assert_eq!(b.find("leader"), Some(1));
    assert_eq!(b.find("nobody"), None);
}

#[test]
fn add_set_replaces_a_group_of_the_same_name() {
    let mut b = BurstBuilder::new();
    b.add_set("workers", 2, MachineSetup::new("t2.micro", "ami-1"));
    b.add_set("leader", 1, MachineSetup::new("c5.large", "ami-2"));
    b.add_set("workers", 7, MachineSetup::new("m5.large", "ami-3"));
    assert_eq!(b.descriptors.len(), 2);
    assert_eq!(b.descriptors[0].name, "workers");
    assert_eq!(b.descriptors[0].number, 7);
    assert_eq!(b.descriptors[0].setup.instance_type, "m5.large");
    assert_eq!(b.descriptors[0].setup.ami, "ami-3");
    assert_eq!(b.descriptors[1].name, "leader");
    assert_eq!(b.descriptors[1].number, 1);
}

#[test]
fn max_duration_is_kept_in_minutes() {
    let mut b = BurstBuilder::new();
    b.add_set("workers", 2, MachineSetup::new("t2.micro", "ami-1"));
    b.set_max_duration(2);
    assert_eq!(b.max_duration, 120);
    b.set_max_duration(0);
    assert_eq!(b.max_duration, 0);
    b.set_max_duration(255);
    assert_eq!(b.max_duration, 15300);
    assert_eq!(b.descriptors.len(), 1);
}

#[test]
fn total_machines_sums_the_counts() {
    let mut b = BurstBuilder::new();
    assert_eq!(b.total_machines(), Some(0));
    b.add_set("workers", 2, MachineSetup::new("t2.micro", "ami-1"));
    b.add_set("leader", 1, MachineSetup::new("c5.large", "ami-2"));
    assert_eq!(b.total_machines(), Some(3));
    b.add_set("big", u32::MAX, MachineSetup::new("c5.large", "ami-2"));
    assert_eq!(b.total_machines(), Some(3 + u32::MAX as u64));
}

#[test]
fn a_plan_built_by_add_set_has_distinct_names() {
    let mut b = BurstBuilder::new();
    assert!(b.is_well_formed());
    b.add_set("workers", 2, MachineSetup::new("t2.micro", "ami-1"));
    b.add_set("leader", 1, MachineSetup::new("c5.large", "ami-2"));
    b.add_set("workers", 4, MachineSetup::new("t2.micro", "ami-1"));
    assert!(b.is_well_formed());
    b.descriptors.push(burst::plan::MachineSet {
        name: "leader".to_string(),
        setup: MachineSetup::new("c5.large", "ami-2"),
        number: 1,
    });
    assert!(!b.is_well_formed());
    assert_eq!(b.find("leader"), Some(1));
}
