//! The executable fleet state machine.
use crate::builder::{BurstBuilder, Descriptor};
use crate::burst::{
    absorb, absorb_one, changed_in_place, first_node, first_request, group_ready, knows,
    live_shrinks, live_upto, next_request, no_node, no_request, ready_upto, settled_count, Action,
    BurstView, Failure, InstanceReport, InstanceState, Node, NodeQuery, NodeState, Outcome, Phase,
    Release, Request, RequestQuery, RequestState, MAX_CONNECTS,
};
use vstd::prelude::*;

verus! {

/// What a group's request to the provider asks for.
pub struct Submission {
    pub ami: String,
    pub instance_type: String,
    pub count: i64,
    pub block_duration_minutes: i64,
}

/// One fleet on its way from description to teardown.
pub struct Burst<F> {
    plan: Vec<Descriptor<F>>,
    max_duration: i64,
    requests: Vec<Request>,
    nodes: Vec<Node>,
    phase: Phase,
    invoked: bool,
    failure: Option<Failure>,
    cursor: usize,
}

impl<F> View for Burst<F> {
    type V = BurstView<F>;

    closed spec fn view(&self) -> BurstView<F> {
        BurstView {
            plan: self.plan@,
            requests: self.requests@,
            nodes: self.nodes@,
            phase: self.phase,
            invoked: self.invoked,
            failure: self.failure,
            cursor: self.cursor,
        }
    }
}

impl<F> Burst<F> {
    /// The fleet's lifetime in minutes.
    pub closed spec fn minutes(&self) -> int {
        self.max_duration as int
    }

    pub open spec fn wf(&self) -> bool {
        self@.wf()
    }

    /// Starts the lifecycle of the fleet that `builder` describes: nothing is
    /// submitted yet, and no instance is known.
    pub fn launch(builder: BurstBuilder<F>) -> (burst: Self)
        requires
            builder.wf(),
        ensures
            burst.wf(),
            burst.minutes() == builder.minutes(),
            burst@.plan == builder.groups(),
            burst@.requests.len() == builder.groups().len(),
            forall|g: int|
                0 <= g < burst@.requests.len() ==> {
                    &&& (#[trigger] burst@.requests[g]).state is Unsent
                    &&& burst@.requests[g].handle@.len() == 0
                    &&& burst@.requests[g].admitted == 0
                    &&& burst@.requests[g].release == Release::fresh()
                },
            burst@.nodes.len() == 0,
            burst@.phase is Provisioning,
            !burst@.invoked,
            burst@.failure is None,
            burst@.cursor == 0,
    {
        let (plan, max_duration) = builder.into_parts();
        let mut requests: Vec<Request> = Vec::new();
        let mut g: usize = 0;
        while g < plan.len()
            invariant
                g <= plan.len(),
                requests.len() == g,
                forall|k: int|
                    0 <= k < g ==> {
                        &&& (#[trigger] requests@[k]).state is Unsent
                        &&& requests@[k].handle@.len() == 0
                        &&& requests@[k].admitted == 0
                        &&& requests@[k].release == Release::fresh()
                    },
            decreases plan.len() - g,
        {
            requests.push(
                Request {
                    state: RequestState::Unsent,
                    handle: String::new(),
                    admitted: 0,
                    release: Release { done: false, attempts: 0 },
                },
            );
            g += 1;
        }
        Burst {
            plan,
            max_duration,
            requests,
            nodes: Vec::new(),
            phase: Phase::Provisioning,
            invoked: false,
            failure: None,
            cursor: 0,
        }
    }

    /// The stage of the fleet.
    pub fn phase(&self) -> (phase: Phase)
        ensures
            phase == self@.phase,
    {
        self.phase
    }

    /// Whether the workload has been handed the fleet.
    pub fn invoked(&self) -> (yes: bool)
        ensures
            yes == self@.invoked,
    {
        self.invoked
    }

    /// The first thing that went wrong, if anything did.
    pub fn failure(&self) -> (failure: Option<Failure>)
        ensures
            failure == self@.failure,
    {
        self.failure
    }

    /// The fleet's lifetime in minutes.
    pub fn max_duration(&self) -> (minutes: i64)
        ensures
            minutes == self.minutes(),
    {
        self.max_duration
    }

    /// How many groups the fleet has.
    pub fn group_count(&self) -> (n: usize)
        ensures
            n == self@.plan.len(),
    {
        self.plan.len()
    }

    /// The description of group `group`.
    pub fn group(&self, group: usize) -> (found: Option<&Descriptor<F>>)
        ensures
            group < self@.plan.len() ==> found == Some(&self@.plan[group as int]),
            group >= self@.plan.len() ==> found.is_none(),
    {
        if group < self.plan.len() {
            Some(&self.plan[group])
        } else {
            None
        }
    }

    /// The request of group `group`.
    pub fn request(&self, group: usize) -> (found: Option<&Request>)
        ensures
            group < self@.requests.len() ==> found == Some(&self@.requests[group as int]),
            group >= self@.requests.len() ==> found.is_none(),
    {
        if group < self.requests.len() {
            Some(&self.requests[group])
        } else {
            None
        }
    }

    /// How many instances were seen running so far.
    pub fn node_count(&self) -> (n: usize)
        ensures
            n == self@.nodes.len(),
    {
        self.nodes.len()
    }

    /// The node at position `node`.
    pub fn node(&self, node: usize) -> (found: Option<&Node>)
        ensures
            node < self@.nodes.len() ==> found == Some(&self@.nodes[node as int]),
            node >= self@.nodes.len() ==> found.is_none(),
    {
        if node < self.nodes.len() {
            Some(&self.nodes[node])
        } else {
            None
        }
    }

    /// What the request of group `group` asks the provider for: the group's
    /// image and instance type, as many instances as the group has machines,
    /// for the fleet's lifetime.
    pub fn submission(&self, group: usize) -> (found: Option<Submission>)
        ensures
            group >= self@.plan.len() ==> found.is_none(),
            group < self@.plan.len() ==> found.is_some() && found.unwrap().ami
                == self@.plan[group as int].setup.ami && found.unwrap().instance_type
                == self@.plan[group as int].setup.instance_type && found.unwrap().count
                == self@.plan[group as int].number && found.unwrap().block_duration_minutes
                == self.minutes(),
    {
        if group < self.plan.len() {
            let count: u32 = self.plan[group].number;
            Some(
                Submission {
                    ami: self.plan[group].setup.ami.clone(),
                    instance_type: self.plan[group].setup.instance_type.clone(),
                    count: count as i64,
                    block_duration_minutes: self.max_duration,
                },
            )
        } else {
            None
        }
    }

    /// The positions of the ready nodes of group `group`, ascending: the part
    /// of the fleet that the workload sees under the group's name.
    pub fn fleet(&self, group: usize) -> (ready: Vec<usize>)
        ensures
            ready@ == self@.fleet(group as int),
    {
        let mut ready: Vec<usize> = Vec::new();
        let mut i: usize = 0;
        while i < self.nodes.len()
            invariant
                i <= self.nodes.len(),
                ready@ == ready_upto(self@.nodes, group as int, i as int),
            decreases self.nodes.len() - i,
        {
            if self.nodes[i].group == group && self.nodes[i].state == NodeState::Ready {
                ready.push(i);
            }
            i += 1;
        }
        ready
    }

    /// The position of the first request that answers `query`, or the number
    /// of requests if none does.
    fn find_request(&self, query: RequestQuery) -> (at: usize)
        ensures
            at <= self@.requests.len(),
            at < self@.requests.len() ==> first_request(self@.requests, query, at as int),
            at == self@.requests.len() ==> no_request(self@.requests, query),
    {
        let mut i: usize = 0;
        while i < self.requests.len()
            invariant
                i <= self.requests.len(),
                forall|j: int| 0 <= j < i ==> !(#[trigger] self.requests@[j]).answers(query),
            decreases self.requests.len() - i,
        {
            if self.requests[i].check(query) {
                return i;
            }
            i += 1;
        }
        i
    }

    /// The position of the next request that answers `query` in a search that
    /// starts at `from` and goes round once, or the number of requests if none
    /// answers.
    fn find_next_request(&self, query: RequestQuery, from: usize) -> (at: usize)
        ensures
            at <= self@.requests.len(),
            at < self@.requests.len() ==> next_request(
                self@.requests,
                query,
                from as int,
                at as int,
            ),
            at == self@.requests.len() ==> no_request(self@.requests, query),
    {
        let mut i: usize = from;
        while i < self.requests.len()
            invariant
                from <= i,
                forall|j: int|
                    from <= j < i && j < self.requests@.len() ==> !(
                    #[trigger] self.requests@[j]).answers(query),
            decreases self.requests.len() - i,
        {
            if self.requests[i].check(query) {
                return i;
            }
            i += 1;
        }
        self.find_request(query)
    }

    /// The position of the first node that answers `query`, or the number of
    /// nodes if none does.
    fn find_node(&self, query: NodeQuery) -> (at: usize)
        ensures
            at <= self@.nodes.len(),
            at < self@.nodes.len() ==> first_node(self@.nodes, query, at as int),
            at == self@.nodes.len() ==> no_node(self@.nodes, query),
    {
        let mut i: usize = 0;
        while i < self.nodes.len()
            invariant
                i <= self.nodes.len(),
                forall|j: int| 0 <= j < i ==> !(#[trigger] self.nodes@[j]).answers(query),
            decreases self.nodes.len() - i,
        {
            if self.nodes[i].check(query) {
                return i;
            }
            i += 1;
        }
        i
    }

    /// Whether some node carries the instance id `id`.
    fn has_instance(&self, id: &String) -> (yes: bool)
        ensures
            yes == knows(self@.nodes, id@),
    {
        let mut i: usize = 0;
        while i < self.nodes.len()
            invariant
                i <= self.nodes.len(),
                forall|j: int| 0 <= j < i ==> (#[trigger] self.nodes@[j]).instance_id@ != id@,
            decreases self.nodes.len() - i,
        {
            if self.nodes[i].instance_id == *id {
                return true;
            }
            i += 1;
        }
        false
    }

    /// Whether group `group` has a ready node.
    fn has_ready(&self, group: usize) -> (yes: bool)
        ensures
            yes == group_ready(self@.nodes, group as int),
    {
        let mut i: usize = 0;
        while i < self.nodes.len()
            invariant
                i <= self.nodes.len(),
                forall|j: int|
                    0 <= j < i ==> !((#[trigger] self.nodes@[j]).group == group
                        && self.nodes@[j].state is Ready),
            decreases self.nodes.len() - i,
        {
            if self.nodes[i].group == group && self.nodes[i].state == NodeState::Ready {
                return true;
            }
            i += 1;
        }
        false
    }

    /// Whether every group has a ready node.
    fn barrier_open(&self) -> (yes: bool)
        requires
            self.wf(),
        ensures
            yes == self@.all_groups_ready(),
    {
        let mut g: usize = 0;
        while g < self.plan.len()
            invariant
                g <= self.plan.len(),
                forall|k: int| 0 <= k < g ==> #[trigger] group_ready(self@.nodes, k),
            decreases self.plan.len() - g,
        {
            if !self.has_ready(g) {
                return false;
            }
            g += 1;
        }
        true
    }

    /// How the fleet ends in its present state.
    fn settle(&self) -> (outcome: Outcome)
        ensures
            outcome == self@.outcome(),
    {
        if self.find_request(RequestQuery::Leaked) < self.requests.len() || self.find_node(
            NodeQuery::Leaked,
        ) < self.nodes.len() {
            Outcome::TeardownFailed
        } else {
            match self.failure {
                None => Outcome::Success,
                Some(Failure::Provisioning) => Outcome::ProvisioningFailed,
                Some(Failure::Setup) => Outcome::SetupFailed,
                Some(Failure::Timeout) => Outcome::Timeout,
                Some(Failure::Workload) => Outcome::WorkloadFailed,
            }
        }
    }

    /// The next step of the teardown.
    fn teardown_action(&mut self) -> (action: Action)
        requires
            old(self).wf(),
            old(self)@.phase is TearingDown,
        ensures
            final(self).wf(),
            final(self).minutes() == old(self).minutes(),
            old(self)@.teardown_steps(final(self)@, action),
    {
        let group = self.find_request(RequestQuery::Cancellable);
        if group < self.requests.len() {
            return Action::Cancel { group };
        }
        let node = self.find_node(NodeQuery::Terminable);
        if node < self.nodes.len() {
            return Action::Terminate { node };
        }
        let outcome = self.settle();
        self.phase = Phase::Done;
        Action::Finish { outcome }
    }

    /// Says what the driver is to do next, and notes that it was told.
    ///
    /// The answer is a function of the state alone: which one is stated by
    /// [`BurstView::steps`].
    pub fn next_action(&mut self) -> (action: Action)
        requires
            old(self).wf(),
        ensures
            final(self).wf(),
            final(self).minutes() == old(self).minutes(),
            old(self)@.steps(final(self)@, action),
    {
        match self.phase {
            Phase::Provisioning => {
                let group = self.find_request(RequestQuery::Unsent);
                if group < self.requests.len() {
                    return Action::Submit { group };
                }
                let node = self.find_node(NodeQuery::Running);
                if node < self.nodes.len() {
                    self.nodes[node].state = NodeState::SettingUp;
                    proof {
                        changed_in_place(old(self)@.nodes, self@.nodes);
                    }
                    return Action::Prepare { node };
                }
                let group = self.find_next_request(RequestQuery::Open, self.cursor);
                if group < self.requests.len() {
                    self.cursor = group + 1;
                    return Action::Poll { group };
                }
                if self.find_node(NodeQuery::SettingUp) < self.nodes.len() {
                    return Action::Wait;
                }
                if self.barrier_open() {
                    self.phase = Phase::Working;
                    self.invoked = true;
                    return Action::Invoke;
                }
                if self.find_request(RequestQuery::Rejected) < self.requests.len() {
                    self.failure = Some(Failure::Provisioning);
                } else {
                    self.failure = Some(Failure::Setup);
                }
                self.phase = Phase::TearingDown;
                self.teardown_action()
            },
            Phase::Working => Action::Wait,
            Phase::TearingDown => self.teardown_action(),
            Phase::Done => Action::Finish { outcome: self.settle() },
        }
    }

    /// Reports the provider's answer to the submission of group `group`: the
    /// request's handle, or `None` for a refusal.
    pub fn submitted(&mut self, group: usize, handle: Option<String>)
        requires
            old(self).wf(),
        ensures
            final(self).wf(),
            final(self).minutes() == old(self).minutes(),
            final(self)@ == old(self)@.submitted(group as int, handle),
    {
        if self.phase == Phase::Provisioning && group < self.requests.len()
            && self.requests[group].state == RequestState::Unsent {
            match handle {
                Some(name) => {
                    self.requests[group].state = RequestState::Open;
                    self.requests[group].handle = name;
                },
                None => {
                    self.requests[group].state = RequestState::Rejected;
                },
            }
            assert(self@.requests =~= old(self)@.submitted(group as int, handle).requests);
        }
    }

    /// Reports the provider's answer to a poll of group `group`.
    ///
    /// Every instance that runs and was not known becomes a node. The request
    /// is settled once as many instances as the group asked for are running,
    /// failed or cancelled.
    pub fn polled(&mut self, group: usize, report: &Vec<InstanceReport>)
        requires
            old(self).wf(),
        ensures
            final(self).wf(),
            final(self).minutes() == old(self).minutes(),
            final(self)@ == old(self)@.polled(group as int, report@),
    {
        if !(self.phase == Phase::Provisioning && group < self.requests.len()
            && self.requests[group].state == RequestState::Open) {
            return ;
        }
        let cap: u32 = self.plan[group].number;
        let mut settled: usize = 0;
        let mut i: usize = 0;
        assert(report@.skip(0) =~= report@);
        assert(self@.requests =~= old(self)@.requests);
        while i < report.len()
            invariant
                i <= report.len(),
                self.wf(),
                old(self).wf(),
                group < old(self)@.requests.len(),
                old(self)@.requests[group as int].state is Open,
                old(self)@.phase is Provisioning,
                self.max_duration == old(self).max_duration,
                self@.plan == old(self)@.plan,
                self@.phase == old(self)@.phase,
                self@.invoked == old(self)@.invoked,
                self@.failure == old(self)@.failure,
                self@.cursor == old(self)@.cursor,
                group < self@.requests.len(),
                cap == self@.plan[group as int].number,
                self@.requests == old(self)@.requests.update(
                    group as int,
                    (Request {
                        admitted: self@.requests[group as int].admitted,
                        ..old(self)@.requests[group as int]
                    }),
                ),
                absorb(
                    self@.nodes,
                    self@.requests[group as int].admitted,
                    group,
                    cap,
                    report@.skip(i as int),
                ) == absorb(
                    old(self)@.nodes,
                    old(self)@.requests[group as int].admitted,
                    group,
                    cap,
                    report@,
                ),
                settled <= i,
                settled + settled_count(report@.skip(i as int)) == settled_count(report@),
            decreases report.len() - i,
        {
            let line = &report[i];
            proof {
                assert(report@.skip(i as int)[0] == report@[i as int]);
                assert(report@.skip(i as int).drop_first() == report@.skip(i + 1));
            }
            let ghost before = self@;
            match line.state {
                InstanceState::Pending => {},
                InstanceState::Running => {
                    settled += 1;
                    if !self.has_instance(&line.instance_id) {
                        let admitted = self.requests[group].admitted;
                        let state = if admitted < cap {
                            self.requests[group].admitted = admitted + 1;
                            NodeState::Running
                        } else {
                            NodeState::Failed
                        };
                        self.nodes.push(
                            Node {
                                group,
                                instance_id: line.instance_id.clone(),
                                ip: line.ip.clone(),
                                dns: line.dns.clone(),
                                state,
                                connects: 0,
                                release: Release { done: false, attempts: 0 },
                            },
                        );
                    }
                },
                InstanceState::Failed => {
                    settled += 1;
                },
                InstanceState::Cancelled => {
                    settled += 1;
                },
            }
            proof {
                let next = absorb_one(
                    before.nodes,
                    before.requests[group as int].admitted,
                    group,
                    cap,
                    *line,
                );
                assert(self.nodes.len() == self@.nodes.len());
                assert forall|g: int| 0 <= g < self@.plan.len() implies #[trigger] live_upto(
                    self@.nodes,
                    g,
                    self@.nodes.len() as int,
                ) <= self@.requests[g].admitted by {
                    live_shrinks(before.nodes, self@.nodes, g, before.nodes.len() as int);
                    assert(live_upto(before.nodes, g, before.nodes.len() as int)
                        <= before.requests[g].admitted);
                }
                assert(self@.nodes == next.0);
                assert(self@.requests[group as int].admitted == next.1);
                assert(self@.requests =~= old(self)@.requests.update(
                    group as int,
                    (Request {
                        admitted: self@.requests[group as int].admitted,
                        ..old(self)@.requests[group as int]
                    }),
                ));
            }
            i += 1;
        }
        assert(report@.skip(i as int).len() == 0);
        if settled >= cap as usize {
            self.requests[group].state = RequestState::Settled;
        }
        assert(self@.requests =~= old(self)@.polled(group as int, report@).requests);
    }

    /// Reports that polling of group `group` ran out of time.
    pub fn poll_expired(&mut self, group: usize)
        requires
            old(self).wf(),
        ensures
            final(self).wf(),
            final(self).minutes() == old(self).minutes(),
            final(self)@ == old(self)@.poll_expired(group as int),
    {
        if self.phase == Phase::Provisioning && group < self.requests.len()
            && self.requests[group].state == RequestState::Open {
            self.requests[group].state = RequestState::Settled;
        }
    }

    /// Reports how the setup of node `node` ended.
    pub fn prepared(&mut self, node: usize, ok: bool)
        requires
            old(self).wf(),
        ensures
            final(self).wf(),
            final(self).minutes() == old(self).minutes(),
            final(self)@ == old(self)@.prepared(node as int, ok),
    {
        if self.phase == Phase::Provisioning && node < self.nodes.len() && self.nodes[node].state
            == NodeState::SettingUp {
            self.nodes[node].state = if ok {
                NodeState::Ready
            } else {
                NodeState::Failed
            };
            proof {
                changed_in_place(old(self)@.nodes, self@.nodes);
            }
        }
    }

    /// Reports that the machine of node `node` could not be reached.
    ///
    /// The node's setup is started again, unless the machine has now been
    /// tried as often as a machine is tried: then the node has failed.
    pub fn unreachable(&mut self, node: usize)
        requires
            old(self).wf(),
        ensures
            final(self).wf(),
            final(self).minutes() == old(self).minutes(),
            final(self)@ == old(self)@.unreachable(node as int),
    {
        if self.phase == Phase::Provisioning && node < self.nodes.len() && self.nodes[node].state
            == NodeState::SettingUp {
            let connects: u8 = self.nodes[node].connects + 1;
            self.nodes[node].connects = connects;
            self.nodes[node].state = if connects < MAX_CONNECTS {
                NodeState::Running
            } else {
                NodeState::Failed
            };
            proof {
                changed_in_place(old(self)@.nodes, self@.nodes);
                assert(self@.nodes =~= old(self)@.unreachable(node as int).nodes);
            }
        }
    }

    /// Reports that the fleet's deadline passed.
    ///
    /// While provisioning this ends the wait: every node still on its way is
    /// failed and the teardown begins. Later it changes nothing.
    pub fn deadline_elapsed(&mut self)
        requires
            old(self).wf(),
        ensures
            final(self).wf(),
            final(self).minutes() == old(self).minutes(),
            final(self)@ == old(self)@.deadline_elapsed(),
    {
        if self.phase != Phase::Provisioning {
            return ;
        }
        let mut i: usize = 0;
        while i < self.nodes.len()
            invariant
                i <= self.nodes.len(),
                self.wf(),
                old(self)@.phase is Provisioning,
                self.max_duration == old(self).max_duration,
                self@.plan == old(self)@.plan,
                self@.requests == old(self)@.requests,
                self@.phase == old(self)@.phase,
                self@.invoked == old(self)@.invoked,
                self@.failure == old(self)@.failure,
                self@.cursor == old(self)@.cursor,
                self@.nodes.len() == old(self)@.nodes.len(),
                forall|j: int|
                    0 <= j < i ==> #[trigger] self@.nodes[j] == old(
                        self,
                    )@.deadline_elapsed().nodes[j],
                forall|j: int|
                    i <= j < self@.nodes.len() ==> #[trigger] self@.nodes[j] == old(self)@.nodes[j],
            decreases self.nodes.len() - i,
        {
            let ghost before = self@.nodes;
            if self.nodes[i].state == NodeState::Running || self.nodes[i].state
                == NodeState::SettingUp {
                self.nodes[i].state = NodeState::Failed;
            }
            proof {
                changed_in_place(before, self@.nodes);
            }
            i += 1;
        }
        self.phase = Phase::TearingDown;
        self.failure = Some(Failure::Timeout);
        assert(self@.nodes =~= old(self)@.deadline_elapsed().nodes);
    }

    /// Reports that the workload came back.
    pub fn workload_returned(&mut self, ok: bool)
        requires
            old(self).wf(),
        ensures
            final(self).wf(),
            final(self).minutes() == old(self).minutes(),
            final(self)@ == old(self)@.workload_returned(ok),
    {
        if self.phase == Phase::Working {
            self.phase = Phase::TearingDown;
            if !ok {
                self.failure = Some(Failure::Workload);
            }
        }
    }

    /// Reports the provider's answer to the cancellation of group `group`'s
    /// request.
    pub fn cancelled(&mut self, group: usize, ok: bool)
        requires
            old(self).wf(),
        ensures
            final(self).wf(),
            final(self).minutes() == old(self).minutes(),
            final(self)@ == old(self)@.cancelled(group as int, ok),
    {
        if self.phase == Phase::TearingDown && group < self.requests.len()
            && self.requests[group].check(RequestQuery::Cancellable) {
            let attempts: u8 = self.requests[group].release.attempts;
            self.requests[group].release = Release { done: ok, attempts: attempts + 1 };
        }
    }

    /// Reports the provider's answer to the termination of node `node`'s
    /// instance.
    pub fn terminated(&mut self, node: usize, ok: bool)
        requires
            old(self).wf(),
        ensures
            final(self).wf(),
            final(self).minutes() == old(self).minutes(),
            final(self)@ == old(self)@.terminated(node as int, ok),
    {
        if self.phase == Phase::TearingDown && node < self.nodes.len() && self.nodes[node].check(
            NodeQuery::Terminable,
        ) {
            let attempts: u8 = self.nodes[node].release.attempts;
            self.nodes[node].release = Release { done: ok, attempts: attempts + 1 };
            proof {
                changed_in_place(old(self)@.nodes, self@.nodes);
            }
        }
    }
}

} // verus!
