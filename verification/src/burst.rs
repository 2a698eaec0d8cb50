//! The lifecycle of one fleet: requests, instances, setups, the workload and
//! the teardown, as a state machine.
//!
//! The machine performs nothing itself. Its driver asks [`Burst::next_action`]
//! what to do, does it, and reports what came of it through one of the event
//! methods. Events may arrive in any order; one that does not fit the current
//! state leaves the state as it is.
//!
//! Two policies are fixed here. A group that ends up without a single ready
//! machine aborts the whole fleet. A provider that grants fewer machines than
//! were asked for is taken at its word: the fleet goes on with what it got.
//! Machines granted beyond what was asked for are recorded, so that they are
//! terminated, but never join the fleet.
use crate::builder::{well_formed_groups, Descriptor};
use vstd::prelude::*;

verus! {

/// How often a cancellation or a termination is tried before it is given up.
pub const MAX_ATTEMPTS: u8 = 3;

/// How often a connection to a fresh machine is tried before the machine is
/// given up.
pub const MAX_CONNECTS: u8 = 5;

/// What the provider says of an instance.
#[derive(Clone, Copy, Debug, PartialEq, Eq, Structural)]
pub enum InstanceState {
    Pending,
    Running,
    Failed,
    Cancelled,
}

/// One line of a provider's answer to a poll.
pub struct InstanceReport {
    pub instance_id: String,
    pub ip: String,
    pub dns: String,
    pub state: InstanceState,
}

/// Where a machine stands on its way into the fleet. A machine that was asked
/// for and does not run yet is no node: it has no state here.
#[derive(Clone, Copy, Debug, PartialEq, Eq, Structural)]
pub enum NodeState {
    Running,
    SettingUp,
    Ready,
    Failed,
}

/// The progress of giving a resource back to the provider.
#[derive(Clone, Copy, Debug, PartialEq, Eq, Structural)]
pub struct Release {
    pub done: bool,
    pub attempts: u8,
}

impl Release {
    /// Nothing was tried yet.
    pub open spec fn fresh() -> Release {
        Release { done: false, attempts: 0 }
    }

    /// Still to be given back, with tries left.
    pub open spec fn pending(self) -> bool {
        !self.done && self.attempts < MAX_ATTEMPTS
    }

    /// After one more try that succeeded (`ok`) or did not.
    pub open spec fn tried(self, ok: bool) -> Release {
        Release { done: ok, attempts: (self.attempts + 1) as u8 }
    }

    pub open spec fn wf(self) -> bool {
        self.attempts <= MAX_ATTEMPTS && (self.done ==> self.attempts >= 1)
    }
}

/// A machine that the provider reported as running.
pub struct Node {
    pub group: usize,
    pub instance_id: String,
    pub ip: String,
    pub dns: String,
    pub state: NodeState,
    /// How many connections to the machine failed so far.
    pub connects: u8,
    pub release: Release,
}

/// Where a group's request to the provider stands.
#[derive(Clone, Copy, Debug, PartialEq, Eq, Structural)]
pub enum RequestState {
    /// Not yet submitted.
    Unsent,
    /// The provider refused it.
    Rejected,
    /// Accepted, and still polled.
    Open,
    /// Accepted, and no longer polled.
    Settled,
}

/// A group's request to the provider.
pub struct Request {
    pub state: RequestState,
    /// The provider's name for the request; empty until it is accepted.
    pub handle: String,
    /// How many of its machines were taken into the group.
    pub admitted: u32,
    pub release: Release,
}

/// What a search through the requests looks for.
#[derive(Clone, Copy, Debug, PartialEq, Eq, Structural)]
pub enum RequestQuery {
    Unsent,
    Rejected,
    Open,
    /// Accepted, not cancelled, with tries left.
    Cancellable,
    /// Accepted and not cancelled.
    Leaked,
}

/// What a search through the nodes looks for.
#[derive(Clone, Copy, Debug, PartialEq, Eq, Structural)]
pub enum NodeQuery {
    Running,
    SettingUp,
    /// Not terminated, with tries left.
    Terminable,
    /// Not terminated.
    Leaked,
}

impl Request {
    pub open spec fn accepted(self) -> bool {
        self.state is Open || self.state is Settled
    }

    pub open spec fn answers(self, query: RequestQuery) -> bool {
        match query {
            RequestQuery::Unsent => self.state is Unsent,
            RequestQuery::Rejected => self.state is Rejected,
            RequestQuery::Open => self.state is Open,
            RequestQuery::Cancellable => self.accepted() && self.release.pending(),
            RequestQuery::Leaked => self.accepted() && !self.release.done,
        }
    }

    /// Whether this request answers `query`.
    pub fn check(&self, query: RequestQuery) -> (yes: bool)
        ensures
            yes == self.answers(query),
    {
        let accepted = match self.state {
            RequestState::Open => true,
            RequestState::Settled => true,
            _ => false,
        };
        match query {
            RequestQuery::Unsent => self.state == RequestState::Unsent,
            RequestQuery::Rejected => self.state == RequestState::Rejected,
            RequestQuery::Open => self.state == RequestState::Open,
            RequestQuery::Cancellable => accepted && !self.release.done && self.release.attempts
                < MAX_ATTEMPTS,
            RequestQuery::Leaked => accepted && !self.release.done,
        }
    }
}

impl Node {
    pub open spec fn answers(self, query: NodeQuery) -> bool {
        match query {
            NodeQuery::Running => self.state is Running,
            NodeQuery::SettingUp => self.state is SettingUp,
            NodeQuery::Terminable => self.release.pending(),
            NodeQuery::Leaked => !self.release.done,
        }
    }

    /// Whether this node answers `query`.
    pub fn check(&self, query: NodeQuery) -> (yes: bool)
        ensures
            yes == self.answers(query),
    {
        match query {
            NodeQuery::Running => self.state == NodeState::Running,
            NodeQuery::SettingUp => self.state == NodeState::SettingUp,
            NodeQuery::Terminable => !self.release.done && self.release.attempts < MAX_ATTEMPTS,
            NodeQuery::Leaked => !self.release.done,
        }
    }
}

/// `at` is the first request that answers `query`.
pub open spec fn first_request(requests: Seq<Request>, query: RequestQuery, at: int) -> bool {
    &&& 0 <= at < requests.len()
    &&& requests[at].answers(query)
    &&& forall|j: int| 0 <= j < at ==> !(#[trigger] requests[j]).answers(query)
}

/// `at` is the next request that answers `query` when the search starts at
/// `from` and, at the end, goes on from the beginning.
pub open spec fn next_request(
    requests: Seq<Request>,
    query: RequestQuery,
    from: int,
    at: int,
) -> bool {
    &&& 0 <= at < requests.len()
    &&& requests[at].answers(query)
    &&& forall|j: int|
        0 <= j < requests.len() && (if from <= at {
            from <= j < at
        } else {
            j < at || from <= j
        }) ==> !(#[trigger] requests[j]).answers(query)
}

/// No request answers `query`.
pub open spec fn no_request(requests: Seq<Request>, query: RequestQuery) -> bool {
    forall|j: int| 0 <= j < requests.len() ==> !(#[trigger] requests[j]).answers(query)
}

/// `at` is the first node that answers `query`.
pub open spec fn first_node(nodes: Seq<Node>, query: NodeQuery, at: int) -> bool {
    &&& 0 <= at < nodes.len()
    &&& nodes[at].answers(query)
    &&& forall|j: int| 0 <= j < at ==> !(#[trigger] nodes[j]).answers(query)
}

/// No node answers `query`.
pub open spec fn no_node(nodes: Seq<Node>, query: NodeQuery) -> bool {
    forall|j: int| 0 <= j < nodes.len() ==> !(#[trigger] nodes[j]).answers(query)
}

/// Some node carries the instance id `id`.
pub open spec fn knows(nodes: Seq<Node>, id: Seq<char>) -> bool {
    exists|i: int| 0 <= i < nodes.len() && (#[trigger] nodes[i]).instance_id@ == id
}

/// Some node of group `group` is ready.
pub open spec fn group_ready(nodes: Seq<Node>, group: int) -> bool {
    exists|i: int|
        0 <= i < nodes.len() && (#[trigger] nodes[i]).group == group && nodes[i].state is Ready
}

/// The positions below `upto` of the ready nodes of group `group`, ascending.
pub open spec fn ready_upto(nodes: Seq<Node>, group: int, upto: int) -> Seq<usize>
    decreases upto,
{
    if upto <= 0 || upto > nodes.len() {
        Seq::empty()
    } else if nodes[upto - 1].group == group && nodes[upto - 1].state is Ready {
        ready_upto(nodes, group, upto - 1).push((upto - 1) as usize)
    } else {
        ready_upto(nodes, group, upto - 1)
    }
}

/// The positions below `upto` of all nodes of group `group`, ascending.
pub open spec fn members_upto(nodes: Seq<Node>, group: int, upto: int) -> Seq<usize>
    decreases upto,
{
    if upto <= 0 || upto > nodes.len() {
        Seq::empty()
    } else if nodes[upto - 1].group == group {
        members_upto(nodes, group, upto - 1).push((upto - 1) as usize)
    } else {
        members_upto(nodes, group, upto - 1)
    }
}

/// How many of the nodes below `upto` belong to group `group` and have not
/// failed.
pub open spec fn live_upto(nodes: Seq<Node>, group: int, upto: int) -> nat
    decreases upto,
{
    if upto <= 0 || upto > nodes.len() {
        0
    } else if nodes[upto - 1].group == group && !(nodes[upto - 1].state is Failed) {
        live_upto(nodes, group, upto - 1) + 1
    } else {
        live_upto(nodes, group, upto - 1)
    }
}

/// Where nodes keep their groups and none comes back from failure, no group
/// gains a live node.
pub proof fn live_shrinks(earlier: Seq<Node>, later: Seq<Node>, group: int, upto: int)
    requires
        0 <= upto <= earlier.len(),
        upto <= later.len(),
        forall|i: int|
            0 <= i < upto ==> (#[trigger] later[i]).group == earlier[i].group && (
            earlier[i].state is Failed ==> later[i].state is Failed),
    ensures
        live_upto(later, group, upto) <= live_upto(earlier, group, upto),
    decreases upto,
{
    if upto > 0 {
        live_shrinks(earlier, later, group, upto - 1);
        assert(later[upto - 1].group == earlier[upto - 1].group);
    }
}

/// Where the nodes kept their number and groups and none came back from
/// failure, no group has more live nodes than before.
pub proof fn changed_in_place(earlier: Seq<Node>, later: Seq<Node>)
    requires
        earlier.len() == later.len(),
        forall|i: int|
            0 <= i < earlier.len() ==> (#[trigger] later[i]).group == earlier[i].group && (
            earlier[i].state is Failed ==> later[i].state is Failed),
    ensures
        forall|g: int|
            #[trigger] live_upto(later, g, later.len() as int) <= live_upto(
                earlier,
                g,
                earlier.len() as int,
            ),
{
    assert forall|g: int|
        #[trigger] live_upto(later, g, later.len() as int) <= live_upto(
            earlier,
            g,
            earlier.len() as int,
        ) by {
        live_shrinks(earlier, later, g, earlier.len() as int);
    }
}

/// A group has no more ready nodes than live ones.
pub proof fn ready_within_live(nodes: Seq<Node>, group: int, upto: int)
    requires
        0 <= upto <= nodes.len(),
    ensures
        ready_upto(nodes, group, upto).len() <= live_upto(nodes, group, upto),
    decreases upto,
{
    if upto > 0 {
        ready_within_live(nodes, group, upto - 1);
    }
}

/// How many lines of `report` speak of an instance that will not change any
/// more as far as provisioning goes: running, failed or cancelled.
pub open spec fn settled_count(report: Seq<InstanceReport>) -> nat
    decreases report.len(),
{
    if report.len() == 0 {
        0
    } else if report[0].state is Pending {
        settled_count(report.drop_first())
    } else {
        1 + settled_count(report.drop_first())
    }
}

/// The nodes and the admission count of a group after one line of a report.
///
/// A running instance that is not known yet becomes a node: a running one
/// while the group has room (`admitted < cap`), a failed one beyond that.
pub open spec fn absorb_one(
    nodes: Seq<Node>,
    admitted: u32,
    group: usize,
    cap: u32,
    line: InstanceReport,
) -> (Seq<Node>, u32) {
    if line.state is Running && !knows(nodes, line.instance_id@) {
        if admitted < cap {
            (
                nodes.push(
                    Node {
                        group,
                        instance_id: line.instance_id,
                        ip: line.ip,
                        dns: line.dns,
                        state: NodeState::Running,
                        connects: 0,
                        release: Release::fresh(),
                    },
                ),
                (admitted + 1) as u32,
            )
        } else {
            (
                nodes.push(
                    Node {
                        group,
                        instance_id: line.instance_id,
                        ip: line.ip,
                        dns: line.dns,
                        state: NodeState::Failed,
                        connects: 0,
                        release: Release::fresh(),
                    },
                ),
                admitted,
            )
        }
    } else {
        (nodes, admitted)
    }
}

/// The nodes and the admission count of a group after a whole report, taken
/// line by line from the front.
pub open spec fn absorb(
    nodes: Seq<Node>,
    admitted: u32,
    group: usize,
    cap: u32,
    report: Seq<InstanceReport>,
) -> (Seq<Node>, u32)
    decreases report.len(),
{
    if report.len() == 0 {
        (nodes, admitted)
    } else {
        let next = absorb_one(nodes, admitted, group, cap, report[0]);
        absorb(next.0, next.1, group, cap, report.drop_first())
    }
}

/// The stage of the fleet as a whole.
#[derive(Clone, Copy, Debug, PartialEq, Eq, Structural)]
pub enum Phase {
    /// Requests are submitted and polled, machines are set up.
    Provisioning,
    /// The workload has been handed the fleet.
    Working,
    /// Requests are cancelled and instances terminated.
    TearingDown,
    /// Nothing is left to do.
    Done,
}

/// The first thing that went wrong.
#[derive(Clone, Copy, Debug, PartialEq, Eq, Structural)]
pub enum Failure {
    /// A group's request was refused and the group stayed empty.
    Provisioning,
    /// A group has no machine whose setup succeeded.
    Setup,
    /// The deadline passed before the fleet was ready.
    Timeout,
    /// The workload reported an error.
    Workload,
}

/// How a fleet ended.
#[derive(Clone, Copy, Debug, PartialEq, Eq, Structural)]
pub enum Outcome {
    Success,
    ProvisioningFailed,
    SetupFailed,
    Timeout,
    WorkloadFailed,
    /// Some request or instance could not be given back.
    TeardownFailed,
}

/// What the driver is to do next.
#[derive(Clone, Copy, Debug, PartialEq, Eq, Structural)]
pub enum Action {
    /// Submit the request of group `group`, then report `submitted`.
    Submit { group: usize },
    /// Ask the provider about the request of group `group`, then report
    /// `polled`.
    Poll { group: usize },
    /// Connect to node `node` and run its group's setup, then report
    /// `prepared`, or `unreachable` if the connection failed.
    Prepare { node: usize },
    /// Hand the fleet to the workload, then report `workload_returned`.
    Invoke,
    /// Nothing can be started before an outstanding report arrives.
    Wait,
    /// Cancel the request of group `group`, then report `cancelled`.
    Cancel { group: usize },
    /// Terminate the instance of node `node`, then report `terminated`.
    Terminate { node: usize },
    /// Stop: the fleet ended with `outcome`.
    Finish { outcome: Outcome },
}

/// The state of a fleet as mathematics.
pub struct BurstView<F> {
    pub plan: Seq<Descriptor<F>>,
    pub requests: Seq<Request>,
    pub nodes: Seq<Node>,
    pub phase: Phase,
    pub invoked: bool,
    pub failure: Option<Failure>,
    /// Where the search for the next request to poll starts: behind the
    /// one that was polled last, so that every open request gets its turn.
    pub cursor: usize,
}

impl<F> BurstView<F> {
    pub open spec fn wf(self) -> bool {
        &&& well_formed_groups(self.plan)
        &&& self.requests.len() == self.plan.len()
        &&& forall|g: int|
            0 <= g < self.requests.len() ==> (#[trigger] self.requests[g]).release.wf()
                && self.requests[g].admitted <= self.plan[g].number
        &&& forall|i: int|
            0 <= i < self.nodes.len() ==> (#[trigger] self.nodes[i]).group < self.plan.len()
                && self.nodes[i].release.wf() && self.nodes[i].connects <= MAX_CONNECTS && (
            self.nodes[i].state is Running || self.nodes[i].state is SettingUp
                ==> self.nodes[i].connects < MAX_CONNECTS)
        &&& forall|i: int, j: int|
            0 <= i < j < self.nodes.len() ==> (#[trigger] self.nodes[i]).instance_id@ != (
            #[trigger] self.nodes[j]).instance_id@
        &&& self.phase is Provisioning ==> !self.invoked && self.failure is None
        &&& self.phase is Working ==> self.invoked && self.failure is None
        &&& !self.invoked && !(self.phase is Provisioning) ==> self.failure is Some
        &&& self.phase is Done ==> no_request(self.requests, RequestQuery::Cancellable) && no_node(
            self.nodes,
            NodeQuery::Terminable,
        )
        &&& self.nodes.len() <= usize::MAX
        &&& self.plan.len() <= usize::MAX
        &&& forall|g: int|
            0 <= g < self.plan.len() ==> #[trigger] live_upto(
                self.nodes,
                g,
                self.nodes.len() as int,
            ) <= self.requests[g].admitted
    }

    /// Every group has a ready node.
    pub open spec fn all_groups_ready(self) -> bool {
        forall|g: int| 0 <= g < self.plan.len() ==> #[trigger] group_ready(self.nodes, g)
    }

    /// The positions of the ready nodes of group `group`, ascending: what the
    /// workload sees of that group.
    pub open spec fn fleet(self, group: int) -> Seq<usize> {
        ready_upto(self.nodes, group, self.nodes.len() as int)
    }

    /// The positions of all nodes of group `group`, ascending.
    pub open spec fn members(self, group: int) -> Seq<usize> {
        members_upto(self.nodes, group, self.nodes.len() as int)
    }

    /// How the fleet ends once the teardown has run its course.
    pub open spec fn outcome(self) -> Outcome {
        if !no_request(self.requests, RequestQuery::Leaked) || !no_node(
            self.nodes,
            NodeQuery::Leaked,
        ) {
            Outcome::TeardownFailed
        } else {
            match self.failure {
                None => Outcome::Success,
                Some(Failure::Provisioning) => Outcome::ProvisioningFailed,
                Some(Failure::Setup) => Outcome::SetupFailed,
                Some(Failure::Timeout) => Outcome::Timeout,
                Some(Failure::Workload) => Outcome::WorkloadFailed,
            }
        }
    }

    pub open spec fn with_node_state(self, node: int, state: NodeState) -> Self {
        BurstView { nodes: self.nodes.update(node, (Node { state, ..self.nodes[node] })), ..self }
    }

    /// The provider answered the submission of group `group`: with a handle,
    /// or with a refusal (`None`).
    pub open spec fn submitted(self, group: int, handle: Option<String>) -> Self {
        if self.phase is Provisioning && 0 <= group < self.requests.len()
            && self.requests[group].state is Unsent {
            let was = self.requests[group];
            let now = match handle {
                Some(name) => Request { state: RequestState::Open, handle: name, ..was },
                None => Request { state: RequestState::Rejected, ..was },
            };
            BurstView { requests: self.requests.update(group, now), ..self }
        } else {
            self
        }
    }

    /// The provider answered a poll of group `group` with `report`.
    pub open spec fn polled(self, group: int, report: Seq<InstanceReport>) -> Self {
        if self.phase is Provisioning && 0 <= group < self.requests.len() && group
            < self.plan.len() && self.requests[group].state is Open {
            let was = self.requests[group];
            let cap = self.plan[group].number;
            let grown = absorb(self.nodes, was.admitted, group as usize, cap, report);
            let state = if settled_count(report) >= cap {
                RequestState::Settled
            } else {
                RequestState::Open
            };
            BurstView {
                nodes: grown.0,
                requests: self.requests.update(
                    group,
                    (Request { state, admitted: grown.1, ..was }),
                ),
                ..self
            }
        } else {
            self
        }
    }

    /// Polling of group `group` ran out of time: the group goes on with the
    /// machines it has.
    pub open spec fn poll_expired(self, group: int) -> Self {
        if self.phase is Provisioning && 0 <= group < self.requests.len()
            && self.requests[group].state is Open {
            BurstView {
                requests: self.requests.update(
                    group,
                    (Request { state: RequestState::Settled, ..self.requests[group] }),
                ),
                ..self
            }
        } else {
            self
        }
    }

    /// The setup of node `node` ended, well (`ok`) or not.
    pub open spec fn prepared(self, node: int, ok: bool) -> Self {
        if self.phase is Provisioning && 0 <= node < self.nodes.len()
            && self.nodes[node].state is SettingUp {
            self.with_node_state(
                node,
                if ok {
                    NodeState::Ready
                } else {
                    NodeState::Failed
                },
            )
        } else {
            self
        }
    }

    /// The machine of node `node` could not be reached. The node is tried
    /// again unless this was its last try: then it has failed.
    pub open spec fn unreachable(self, node: int) -> Self {
        if self.phase is Provisioning && 0 <= node < self.nodes.len()
            && self.nodes[node].state is SettingUp {
            let was = self.nodes[node];
            let connects = (was.connects + 1) as u8;
            let state = if connects < MAX_CONNECTS {
                NodeState::Running
            } else {
                NodeState::Failed
            };
            BurstView { nodes: self.nodes.update(node, (Node { state, connects, ..was })), ..self }
        } else {
            self
        }
    }

    /// The fleet gave up waiting: no node stays on its way, and the teardown
    /// begins.
    pub open spec fn deadline_elapsed(self) -> Self {
        if self.phase is Provisioning {
            BurstView {
                nodes: Seq::new(
                    self.nodes.len(),
                    |i: int|
                        if self.nodes[i].state is Running || self.nodes[i].state is SettingUp {
                            Node { state: NodeState::Failed, ..self.nodes[i] }
                        } else {
                            self.nodes[i]
                        },
                ),
                phase: Phase::TearingDown,
                failure: Some(Failure::Timeout),
                ..self
            }
        } else {
            self
        }
    }

    /// The workload came back, well (`ok`) or not.
    pub open spec fn workload_returned(self, ok: bool) -> Self {
        if self.phase is Working {
            BurstView {
                phase: Phase::TearingDown,
                failure: if ok {
                    None
                } else {
                    Some(Failure::Workload)
                },
                ..self
            }
        } else {
            self
        }
    }

    /// The provider answered the cancellation of group `group`'s request.
    pub open spec fn cancelled(self, group: int, ok: bool) -> Self {
        if self.phase is TearingDown && 0 <= group < self.requests.len()
            && self.requests[group].answers(RequestQuery::Cancellable) {
            let was = self.requests[group];
            BurstView {
                requests: self.requests.update(
                    group,
                    (Request { release: was.release.tried(ok), ..was }),
                ),
                ..self
            }
        } else {
            self
        }
    }

    /// The provider answered the termination of node `node`'s instance.
    pub open spec fn terminated(self, node: int, ok: bool) -> Self {
        if self.phase is TearingDown && 0 <= node < self.nodes.len()
            && self.nodes[node].answers(NodeQuery::Terminable) {
            let was = self.nodes[node];
            BurstView {
                nodes: self.nodes.update(node, (Node { release: was.release.tried(ok), ..was })),
                ..self
            }
        } else {
            self
        }
    }

    /// The state in which the teardown begins after the fleet failed with
    /// `why`.
    pub open spec fn aborted(self, why: Failure) -> Self {
        BurstView { phase: Phase::TearingDown, failure: Some(why), ..self }
    }

    /// `action` is the next step of the teardown, and leaves `post`.
    ///
    /// Requests are cancelled first, then instances are terminated, each in
    /// order of position and only while it has tries left.
    pub open spec fn teardown_steps(self, post: Self, action: Action) -> bool {
        if !no_request(self.requests, RequestQuery::Cancellable) {
            &&& action matches Action::Cancel { group }
            &&& first_request(self.requests, RequestQuery::Cancellable, group as int)
            &&& post == self
        } else if !no_node(self.nodes, NodeQuery::Terminable) {
            &&& action matches Action::Terminate { node }
            &&& first_node(self.nodes, NodeQuery::Terminable, node as int)
            &&& post == self
        } else {
            &&& action == (Action::Finish { outcome: self.outcome() })
            &&& post == (BurstView { phase: Phase::Done, ..self })
        }
    }

    /// `action` is the next step while provisioning, and leaves `post`.
    ///
    /// In this order: submit what is unsent; start the setup of a node that
    /// runs; poll the open request whose turn it is; wait for setups that are
    /// under way. When
    /// none of these is left, the workload is invoked if every group has a
    /// ready node, and the teardown begins if not.
    pub open spec fn provisioning_steps(self, post: Self, action: Action) -> bool {
        if !no_request(self.requests, RequestQuery::Unsent) {
            &&& action matches Action::Submit { group }
            &&& first_request(self.requests, RequestQuery::Unsent, group as int)
            &&& post == self
        } else if !no_node(self.nodes, NodeQuery::Running) {
            &&& action matches Action::Prepare { node }
            &&& first_node(self.nodes, NodeQuery::Running, node as int)
            &&& post == self.with_node_state(node as int, NodeState::SettingUp)
        } else if !no_request(self.requests, RequestQuery::Open) {
            &&& action matches Action::Poll { group }
            &&& next_request(self.requests, RequestQuery::Open, self.cursor as int, group as int)
            &&& post == (BurstView { cursor: (group + 1) as usize, ..self })
        } else if !no_node(self.nodes, NodeQuery::SettingUp) {
            &&& action is Wait
            &&& post == self
        } else if self.all_groups_ready() {
            &&& action is Invoke
            &&& post == (BurstView { phase: Phase::Working, invoked: true, ..self })
        } else if !no_request(self.requests, RequestQuery::Rejected) {
            self.aborted(Failure::Provisioning).teardown_steps(post, action)
        } else {
            self.aborted(Failure::Setup).teardown_steps(post, action)
        }
    }

    /// `action` is what the driver is told to do in this state, and `post` is
    /// the state after telling it.
    pub open spec fn steps(self, post: Self, action: Action) -> bool {
        match self.phase {
            Phase::Provisioning => self.provisioning_steps(post, action),
            Phase::Working => action is Wait && post == self,
            Phase::TearingDown => self.teardown_steps(post, action),
            Phase::Done => action == (Action::Finish { outcome: self.outcome() }) && post == self,
        }
    }
}

} // verus!
