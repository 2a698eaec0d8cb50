use burst::{
    Action, Burst, BurstBuilder, Failure, InstanceReport, InstanceState, MachineSetup, NodeState,
    Outcome, Phase, RequestState, MAX_ATTEMPTS, MAX_CONNECTS,
};

fn micro() -> MachineSetup<u8> {
    MachineSetup::new("t2.micro".to_string(), "ami-e18aa89b".to_string(), 0)
}

fn server_and_clients() -> Burst<u8> {
    let mut b = BurstBuilder::default();
    assert_eq!(b.add_set("server".to_string(), 1, micro()), Ok(()));
    assert_eq!(b.add_set("client".to_string(), 2, micro()), Ok(()));
    Burst::launch(b)
}

fn line(id: &str, state: InstanceState) -> InstanceReport {
    InstanceReport {
        instance_id: id.to_string(),
        ip: format!("10.0.0.{}", id.len()),
        dns: format!("{}.example", id),
        state,
    }
}

/// Submits both requests and brings all three machines up and through setup.
fn ready_fleet() -> Burst<u8> {
    let mut f = server_and_clients();
    assert_eq!(f.next_action(), Action::Submit { group: 0 });
    f.submitted(0, Some("sir-1".to_string()));
    assert_eq!(f.next_action(), Action::Submit { group: 1 });
    f.submitted(1, Some("sir-2".to_string()));
    assert_eq!(f.next_action(), Action::Poll { group: 0 });
    f.polled(0, &vec![line("i-a", InstanceState::Running)]);
    assert_eq!(f.next_action(), Action::Prepare { node: 0 });
    f.prepared(0, true);
    assert_eq!(f.next_action(), Action::Poll { group: 1 });
    f.polled(
        1,
        &vec![line("i-b", InstanceState::Running), line("i-c", InstanceState::Pending)],
    );
    assert_eq!(f.request(1).unwrap().state, RequestState::Open);
    assert_eq!(f.next_action(), Action::Prepare { node: 1 });
    f.prepared(1, true);
    assert_eq!(f.next_action(), Action::Poll { group: 1 });
    f.polled(
        1,
        &vec![line("i-b", InstanceState::Running), line("i-c", InstanceState::Running)],
    );
    assert_eq!(f.request(1).unwrap().state, RequestState::Settled);
    assert_eq!(f.next_action(), Action::Prepare { node: 2 });
    f.prepared(2, true);
    f
}

/// Runs the teardown with a provider that always agrees, and gives the
/// actions taken and the outcome.
fn tear_down(f: &mut Burst<u8>) -> (Vec<Action>, Outcome) {
    let mut taken = Vec::new();
    for _ in 0..100 {
        match f.next_action() {
            Action::Cancel { group } => {
                taken.push(Action::Cancel { group });
                f.cancelled(group, true);
            }
            Action::Terminate { node } => {
                taken.push(Action::Terminate { node });
                f.terminated(node, true);
            }
            Action::Finish { outcome } => return (taken, outcome),
            other => panic!("not a teardown action: {:?}", other),
        }
    }
    panic!("the teardown did not end");
}

#[test]
fn launch_starts_with_nothing_sent_and_nothing_known() {
    let f = server_and_clients();
    assert_eq!(f.phase(), Phase::Provisioning);
    assert!(!f.invoked());
    assert_eq!(f.failure(), None);
    assert_eq!(f.group_count(), 2);
    assert_eq!(f.node_count(), 0);
    assert_eq!(f.max_duration(), 60);
    let r = f.request(0).unwrap();
    assert_eq!(r.state, RequestState::Unsent);
    assert_eq!(r.handle, "");
    assert_eq!(r.admitted, 0);
    assert!(!r.release.done);
    assert_eq!(r.release.attempts, 0);
    assert!(f.request(2).is_none());
    assert!(f.node(0).is_none());
    assert_eq!(f.group(1).unwrap().name, "client");
}

#[test]
fn submission_asks_for_the_groups_machines_for_the_fleets_lifetime() {
    let mut b = BurstBuilder::default();
    assert_eq!(
        b.add_set(
            "client".to_string(),
            2,
            MachineSetup::new("c5.large".to_string(), "ami-42".to_string(), 0u8)
        ),
        Ok(())
    );
    assert_eq!(b.set_max_duration(3), Ok(()));
    let f = Burst::launch(b);
    let s = f.submission(0).unwrap();
    assert_eq!(s.ami, "ami-42");
    assert_eq!(s.instance_type, "c5.large");
    assert_eq!(s.count, 2);
    assert_eq!(s.block_duration_minutes, 180);
    assert!(f.submission(1).is_none());
}

#[test]
fn server_and_clients_reach_the_workload_and_are_torn_down() {
    let mut f = ready_fleet();
    assert_eq!(f.next_action(), Action::Invoke);
    assert!(f.invoked());
    assert_eq!(f.phase(), Phase::Working);
    assert_eq!(f.fleet(0), vec![0]);
    assert_eq!(f.fleet(1), vec![1, 2]);
    assert_eq!(f.node(0).unwrap().instance_id, "i-a");
    assert_eq!(f.node(1).unwrap().instance_id, "i-b");
    assert_eq!(f.node(2).unwrap().instance_id, "i-c");
    assert_eq!(f.node(2).unwrap().dns, "i-c.example");
    assert_eq!(f.node(2).unwrap().group, 1);
    // The workload is out: nothing to start, and it is not invoked again.
    assert_eq!(f.next_action(), Action::Wait);
    f.workload_returned(true);
    let (taken, outcome) = tear_down(&mut f);
    assert_eq!(
        taken,
        vec![
            Action::Cancel { group: 0 },
            Action::Cancel { group: 1 },
            Action::Terminate { node: 0 },
            Action::Terminate { node: 1 },
            Action::Terminate { node: 2 },
        ]
    );
    assert_eq!(outcome, Outcome::Success);
    assert_eq!(f.phase(), Phase::Done);
    assert_eq!(f.next_action(), Action::Finish { outcome: Outcome::Success });
    for n in 0..3 {
        assert!(f.node(n).unwrap().release.done);
        assert_eq!(f.node(n).unwrap().release.attempts, 1);
    }
}

#[test]
fn a_failing_workload_is_still_followed_by_the_whole_teardown() {
    let mut f = ready_fleet();
    assert_eq!(f.next_action(), Action::Invoke);
    f.workload_returned(false);
    assert_eq!(f.failure(), Some(Failure::Workload));
    let (taken, outcome) = tear_down(&mut f);
    assert_eq!(taken.len(), 5);
    assert_eq!(outcome, Outcome::WorkloadFailed);
    assert!(f.request(0).unwrap().release.done);
    assert!(f.request(1).unwrap().release.done);
}

#[test]
fn a_failed_setup_keeps_the_node_out_of_the_fleet_but_in_the_teardown() {
    let mut f = server_and_clients();
    f.submitted(0, Some("sir-1".to_string()));
    f.submitted(1, Some("sir-2".to_string()));
    f.polled(0, &vec![line("i-a", InstanceState::Running)]);
    f.polled(
        1,
        &vec![line("i-b", InstanceState::Running), line("i-c", InstanceState::Running)],
    );
    assert_eq!(f.next_action(), Action::Prepare { node: 0 });
    assert_eq!(f.next_action(), Action::Prepare { node: 1 });
    assert_eq!(f.next_action(), Action::Prepare { node: 2 });
    assert_eq!(f.next_action(), Action::Wait);
    f.prepared(2, true);
    f.prepared(1, false);
    f.prepared(0, true);
    assert_eq!(f.node(1).unwrap().state, NodeState::Failed);
    assert_eq!(f.next_action(), Action::Invoke);
    assert_eq!(f.fleet(0), vec![0]);
    assert_eq!(f.fleet(1), vec![2]);
    f.workload_returned(true);
    let (taken, outcome) = tear_down(&mut f);
    assert!(taken.contains(&Action::Terminate { node: 1 }));
    assert_eq!(outcome, Outcome::Success);
    assert!(f.node(1).unwrap().release.done);
}

#[test]
fn a_group_without_a_ready_node_aborts_the_fleet() {
    let mut f = server_and_clients();
    f.submitted(0, Some("sir-1".to_string()));
    f.submitted(1, Some("sir-2".to_string()));
    f.polled(0, &vec![line("i-a", InstanceState::Running)]);
    f.polled(
        1,
        &vec![line("i-b", InstanceState::Running), line("i-c", InstanceState::Failed)],
    );
    assert_eq!(f.next_action(), Action::Prepare { node: 0 });
    f.prepared(0, false);
    assert_eq!(f.next_action(), Action::Prepare { node: 1 });
    f.prepared(1, true);
    assert_eq!(f.next_action(), Action::Cancel { group: 0 });
    assert!(!f.invoked());
    assert_eq!(f.failure(), Some(Failure::Setup));
    f.cancelled(0, true);
    let (taken, outcome) = tear_down(&mut f);
    assert_eq!(
        taken,
        vec![
            Action::Cancel { group: 1 },
            Action::Terminate { node: 0 },
            Action::Terminate { node: 1 },
        ]
    );
    assert_eq!(outcome, Outcome::SetupFailed);
}

#[test]
fn a_refused_request_ends_in_provisioning_failed() {
    let mut f = server_and_clients();
    f.submitted(0, None);
    assert_eq!(f.request(0).unwrap().state, RequestState::Rejected);
    f.submitted(1, Some("sir-2".to_string()));
    assert_eq!(f.next_action(), Action::Poll { group: 1 });
    f.polled(
        1,
        &vec![line("i-b", InstanceState::Running), line("i-c", InstanceState::Cancelled)],
    );
    assert_eq!(f.next_action(), Action::Prepare { node: 0 });
    f.prepared(0, true);
    let (taken, outcome) = tear_down(&mut f);
    // The refused request has no handle to cancel.
    assert_eq!(taken, vec![Action::Cancel { group: 1 }, Action::Terminate { node: 0 }]);
    assert_eq!(outcome, Outcome::ProvisioningFailed);
    assert!(!f.invoked());
}

#[test]
fn the_deadline_before_any_node_is_ready_ends_in_timeout() {
    let mut f = server_and_clients();
    f.submitted(0, Some("sir-1".to_string()));
    f.submitted(1, Some("sir-2".to_string()));
    f.polled(0, &vec![line("i-a", InstanceState::Running)]);
    f.polled(1, &vec![line("i-b", InstanceState::Running)]);
    assert_eq!(f.next_action(), Action::Prepare { node: 0 });
    f.deadline_elapsed();
    assert_eq!(f.phase(), Phase::TearingDown);
    assert_eq!(f.failure(), Some(Failure::Timeout));
    assert_eq!(f.node(0).unwrap().state, NodeState::Failed);
    assert_eq!(f.node(1).unwrap().state, NodeState::Failed);
    // A setup that comes back late changes nothing.
    f.prepared(0, true);
    assert_eq!(f.node(0).unwrap().state, NodeState::Failed);
    let (taken, outcome) = tear_down(&mut f);
    assert_eq!(
        taken,
        vec![
            Action::Cancel { group: 0 },
            Action::Cancel { group: 1 },
            Action::Terminate { node: 0 },
            Action::Terminate { node: 1 },
        ]
    );
    assert_eq!(outcome, Outcome::Timeout);
    assert!(!f.invoked());
    assert!(f.fleet(0).is_empty());
}

#[test]
fn the_deadline_after_the_invocation_changes_nothing() {
    let mut f = ready_fleet();
    assert_eq!(f.next_action(), Action::Invoke);
    f.deadline_elapsed();
    assert_eq!(f.phase(), Phase::Working);
    assert_eq!(f.failure(), None);
    assert_eq!(f.node(0).unwrap().state, NodeState::Ready);
}

#[test]
fn a_termination_that_keeps_failing_ends_in_teardown_failed() {
    let mut f = ready_fleet();
    assert_eq!(f.next_action(), Action::Invoke);
    f.workload_returned(true);
    assert_eq!(f.next_action(), Action::Cancel { group: 0 });
    f.cancelled(0, false);
    assert_eq!(f.next_action(), Action::Cancel { group: 0 });
    f.cancelled(0, true);
    assert_eq!(f.request(0).unwrap().release.attempts, 2);
    assert_eq!(f.next_action(), Action::Cancel { group: 1 });
    f.cancelled(1, true);
    for _ in 0..MAX_ATTEMPTS {
        assert_eq!(f.next_action(), Action::Terminate { node: 0 });
        f.terminated(0, false);
    }
    assert_eq!(f.node(0).unwrap().release.attempts, 3);
    assert!(!f.node(0).unwrap().release.done);
    assert_eq!(f.next_action(), Action::Terminate { node: 1 });
    f.terminated(1, true);
    // A second report on a terminated instance is not counted.
    f.terminated(1, true);
    assert_eq!(f.node(1).unwrap().release.attempts, 1);
    assert_eq!(f.next_action(), Action::Terminate { node: 2 });
    f.terminated(2, true);
    assert_eq!(f.next_action(), Action::Finish { outcome: Outcome::TeardownFailed });
    assert_eq!(f.phase(), Phase::Done);
}

#[test]
fn an_instance_seen_twice_is_one_node() {
    let mut f = server_and_clients();
    f.submitted(1, Some("sir-2".to_string()));
    f.polled(
        1,
        &vec![line("i-b", InstanceState::Running), line("i-b", InstanceState::Running)],
    );
    assert_eq!(f.node_count(), 1);
    f.polled(1, &vec![line("i-b", InstanceState::Running)]);
    assert_eq!(f.node_count(), 1);
    assert_eq!(f.request(1).unwrap().admitted, 1);
}

#[test]
fn machines_beyond_the_groups_size_are_tracked_but_never_join() {
    let mut f = server_and_clients();
    f.submitted(0, Some("sir-1".to_string()));
    f.submitted(1, None);
    f.polled(
        0,
        &vec![line("i-a", InstanceState::Running), line("i-x", InstanceState::Running)],
    );
    assert_eq!(f.node_count(), 2);
    assert_eq!(f.node(0).unwrap().state, NodeState::Running);
    assert_eq!(f.node(1).unwrap().state, NodeState::Failed);
    assert_eq!(f.request(0).unwrap().admitted, 1);
    assert_eq!(f.next_action(), Action::Prepare { node: 0 });
    f.prepared(0, true);
    assert_eq!(f.fleet(0), vec![0]);
    let (taken, outcome) = tear_down(&mut f);
    assert_eq!(
        taken,
        vec![
            Action::Cancel { group: 0 },
            Action::Terminate { node: 0 },
            Action::Terminate { node: 1 },
        ]
    );
    assert_eq!(outcome, Outcome::ProvisioningFailed);
}

#[test]
fn a_poll_that_ran_out_of_time_goes_on_with_the_shortfall() {
    let mut f = server_and_clients();
    f.submitted(0, Some("sir-1".to_string()));
    f.submitted(1, Some("sir-2".to_string()));
    f.polled(0, &vec![line("i-a", InstanceState::Running)]);
    f.polled(
        1,
        &vec![line("i-b", InstanceState::Running), line("i-c", InstanceState::Pending)],
    );
    assert_eq!(f.next_action(), Action::Prepare { node: 0 });
    f.prepared(0, true);
    assert_eq!(f.next_action(), Action::Prepare { node: 1 });
    f.prepared(1, true);
    assert_eq!(f.next_action(), Action::Poll { group: 1 });
    f.poll_expired(1);
    assert_eq!(f.request(1).unwrap().state, RequestState::Settled);
    assert_eq!(f.next_action(), Action::Invoke);
    assert_eq!(f.fleet(1), vec![1]);
}

#[test]
fn reports_that_do_not_fit_the_state_are_ignored() {
    let mut f = server_and_clients();
    // No request is open yet, and there is no third group.
    f.polled(0, &vec![line("i-a", InstanceState::Running)]);
    f.submitted(2, Some("sir-9".to_string()));
    f.poll_expired(0);
    f.prepared(0, true);
    f.workload_returned(false);
    f.cancelled(0, true);
    f.terminated(0, true);
    assert_eq!(f.node_count(), 0);
    assert_eq!(f.phase(), Phase::Provisioning);
    assert_eq!(f.failure(), None);
    assert_eq!(f.request(0).unwrap().state, RequestState::Unsent);
    assert_eq!(f.request(0).unwrap().release.attempts, 0);
    // A second answer to one submission does not replace the first.
    f.submitted(0, Some("sir-1".to_string()));
    f.submitted(0, None);
    assert_eq!(f.request(0).unwrap().state, RequestState::Open);
    assert_eq!(f.request(0).unwrap().handle, "sir-1");
}

#[test]
fn a_fleet_without_groups_goes_straight_to_the_workload() {
    let b: BurstBuilder<u8> = BurstBuilder::default();
    let mut f = Burst::launch(b);
    assert_eq!(f.next_action(), Action::Invoke);
    f.workload_returned(true);
    assert_eq!(f.next_action(), Action::Finish { outcome: Outcome::Success });
}

#[test]
fn pending_instances_do_not_settle_a_request() {
    let mut f = server_and_clients();
    f.submitted(0, Some("sir-1".to_string()));
    f.submitted(1, Some("sir-2".to_string()));
    f.polled(0, &vec![line("i-a", InstanceState::Pending)]);
    assert_eq!(f.request(0).unwrap().state, RequestState::Open);
    assert_eq!(f.node_count(), 0);
    assert_eq!(f.next_action(), Action::Poll { group: 0 });
    f.polled(0, &vec![line("i-a", InstanceState::Failed)]);
    assert_eq!(f.request(0).unwrap().state, RequestState::Settled);
    assert_eq!(f.node_count(), 0);
}

#[test]
fn open_requests_are_polled_in_turn() {
    let mut f = server_and_clients();
    f.submitted(0, Some("sir-1".to_string()));
    f.submitted(1, Some("sir-2".to_string()));
    assert_eq!(f.next_action(), Action::Poll { group: 0 });
    f.polled(0, &vec![line("i-a", InstanceState::Pending)]);
    assert_eq!(f.next_action(), Action::Poll { group: 1 });
    f.polled(1, &vec![line("i-b", InstanceState::Pending)]);
    assert_eq!(f.next_action(), Action::Poll { group: 0 });
    f.poll_expired(0);
    assert_eq!(f.next_action(), Action::Poll { group: 1 });
    assert_eq!(f.next_action(), Action::Poll { group: 1 });
}

#[test]
fn a_machine_that_cannot_be_reached_is_tried_again() {
    let mut f = server_and_clients();
    f.submitted(0, Some("sir-1".to_string()));
    f.submitted(1, None);
    f.polled(0, &vec![line("i-a", InstanceState::Running)]);
    assert_eq!(f.next_action(), Action::Prepare { node: 0 });
    f.unreachable(0);
    assert_eq!(f.node(0).unwrap().state, NodeState::Running);
    assert_eq!(f.node(0).unwrap().connects, 1);
    assert_eq!(f.next_action(), Action::Prepare { node: 0 });
    f.prepared(0, true);
    assert_eq!(f.node(0).unwrap().state, NodeState::Ready);
    // Only a node whose setup is under way can be unreachable.
    f.unreachable(0);
    assert_eq!(f.node(0).unwrap().state, NodeState::Ready);
    assert_eq!(f.node(0).unwrap().connects, 1);
}

#[test]
fn a_machine_that_is_never_reached_fails_after_the_last_try() {
    assert_eq!(MAX_CONNECTS, 5);
    let mut f = server_and_clients();
    f.submitted(0, Some("sir-1".to_string()));
    f.submitted(1, None);
    f.polled(0, &vec![line("i-a", InstanceState::Running)]);
    for tried in 1..MAX_CONNECTS {
        assert_eq!(f.next_action(), Action::Prepare { node: 0 });
        f.unreachable(0);
        assert_eq!(f.node(0).unwrap().state, NodeState::Running);
        assert_eq!(f.node(0).unwrap().connects, tried);
    }
    assert_eq!(f.next_action(), Action::Prepare { node: 0 });
    f.unreachable(0);
    assert_eq!(f.node(0).unwrap().state, NodeState::Failed);
    assert_eq!(f.node(0).unwrap().connects, 5);
    assert!(f.fleet(0).is_empty());
    let (taken, outcome) = tear_down(&mut f);
    assert_eq!(taken, vec![Action::Cancel { group: 0 }, Action::Terminate { node: 0 }]);
    assert_eq!(outcome, Outcome::ProvisioningFailed);
}

#[test]
fn a_fleet_whose_setups_all_fail_ends_in_setup_failed() {
    let mut b = BurstBuilder::default();
    assert_eq!(b.add_set("solo".to_string(), 1, micro()), Ok(()));
    let mut f = Burst::launch(b);
    f.submitted(0, Some("sir-1".to_string()));
    f.polled(0, &vec![line("i-a", InstanceState::Running)]);
    assert_eq!(f.next_action(), Action::Prepare { node: 0 });
    f.prepared(0, false);
    let (taken, outcome) = tear_down(&mut f);
    assert_eq!(taken, vec![Action::Cancel { group: 0 }, Action::Terminate { node: 0 }]);
    assert_eq!(outcome, Outcome::SetupFailed);
    assert!(!f.invoked());
}
