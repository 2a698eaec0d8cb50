use burst::{BurstBuilder, ConfigurationError, MachineSetup};

fn micro() -> MachineSetup<u8> {
    MachineSetup::new("t2.micro".to_string(), "ami-e18aa89b".to_string(), 7)
}

#[test]
fn machine_setup_keeps_what_it_was_given() {
    let setup = MachineSetup::new("c5.large".to_string(), "ami-123".to_string(), 42u8);
    assert_eq!(setup.instance_type, "c5.large");
    assert_eq!(setup.ami, "ami-123");
    assert_eq!(setup.setup, 42);
}

#[test]
fn default_builder_is_empty_and_lasts_an_hour() {
    let b: BurstBuilder<u8> = BurstBuilder::default();
    assert_eq!(b.len(), 0);
    assert_eq!(b.max_duration(), 60);
    assert!(b.group(0).is_none());
}

#[test]
fn groups_are_kept_in_the_order_of_addition() {
    let mut b = BurstBuilder::default();
    assert_eq!(b.add_set("server".to_string(), 1, micro()), Ok(()));
    assert_eq!(b.add_set("client".to_string(), 2, micro()), Ok(()));
    assert_eq!(b.len(), 2);
    let first = b.group(0).unwrap();
    assert_eq!(first.name, "server");
    assert_eq!(first.number, 1);
    assert_eq!(first.setup.ami, "ami-e18aa89b");
    let second = b.group(1).unwrap();
    assert_eq!(second.name, "client");
    assert_eq!(second.number, 2);
    assert!(b.group(2).is_none());
}

#[test]
fn duplicate_group_name_is_refused() {
    let mut b = BurstBuilder::default();
    assert_eq!(b.add_set("server".to_string(), 1, micro()), Ok(()));
    assert_eq!(
        b.add_set("server".to_string(), 5, micro()),
        Err(ConfigurationError::DuplicateName)
    );
    assert_eq!(b.len(), 1);
    assert_eq!(b.group(0).unwrap().number, 1);
}

#[test]
fn zero_count_is_refused() {
    let mut b = BurstBuilder::default();
    assert_eq!(
        b.add_set("server".to_string(), 0, micro()),
        Err(ConfigurationError::ZeroCount)
    );
    assert_eq!(b.len(), 0);
}

#[test]
fn empty_name_is_refused_before_anything_else() {
    let mut b = BurstBuilder::default();
    assert_eq!(
        b.add_set(String::new(), 0, micro()),
        Err(ConfigurationError::EmptyName)
    );
    assert_eq!(b.len(), 0);
}

#[test]
fn zero_count_is_reported_before_a_taken_name() {
    let mut b = BurstBuilder::default();
    assert_eq!(b.add_set("server".to_string(), 1, micro()), Ok(()));
    assert_eq!(
        b.add_set("server".to_string(), 0, micro()),
        Err(ConfigurationError::ZeroCount)
    );
}

#[test]
fn max_duration_is_counted_in_minutes() {
    let mut b: BurstBuilder<u8> = BurstBuilder::default();
    assert_eq!(b.set_max_duration(2), Ok(()));
    assert_eq!(b.max_duration(), 120);
    assert_eq!(b.set_max_duration(255), Ok(()));
    assert_eq!(b.max_duration(), 15300);
    assert_eq!(b.set_max_duration(1), Ok(()));
    assert_eq!(b.max_duration(), 60);
}

#[test]
fn zero_hours_are_refused_and_change_nothing() {
    let mut b: BurstBuilder<u8> = BurstBuilder::default();
    assert_eq!(b.set_max_duration(3), Ok(()));
    assert_eq!(b.set_max_duration(0), Err(ConfigurationError::ZeroDuration));
    assert_eq!(b.max_duration(), 180);
}

#[test]
fn changing_the_duration_keeps_the_groups() {
    let mut b = BurstBuilder::default();
    assert_eq!(b.add_set("server".to_string(), 1, micro()), Ok(()));
    assert_eq!(b.set_max_duration(6), Ok(()));
    assert_eq!(b.len(), 1);
    assert_eq!(b.group(0).unwrap().name, "server");
}
