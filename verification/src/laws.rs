//! What holds of every fleet, whatever the provider, the machines and the
//! workload do. Each statement is over the states and transitions of
//! [`BurstView`], which the executable machine follows step by step.
use crate::burst::{
    absorb, absorb_one, changed_in_place, knows, live_shrinks, live_upto, members_upto, no_node, no_request,
    ready_upto, ready_within_live, Action, BurstView, Failure, InstanceReport, Node, NodeQuery,
    Outcome, Release, RequestQuery, MAX_ATTEMPTS, MAX_CONNECTS,
};
use vstd::prelude::*;

verus! {

/// `later` begins with `earlier`, as far as identity goes: the same
/// instances, in the same groups, at the same positions.
pub open spec fn keeps_instances(earlier: Seq<Node>, later: Seq<Node>) -> bool {
    &&& earlier.len() <= later.len()
    &&& forall|i: int|
        0 <= i < earlier.len() ==> (#[trigger] later[i]).instance_id == earlier[i].instance_id
            && later[i].group == earlier[i].group
}

/// Taking in a report never drops or renames a node.
pub proof fn absorb_keeps_instances(
    nodes: Seq<Node>,
    admitted: u32,
    group: usize,
    cap: u32,
    report: Seq<InstanceReport>,
)
    ensures
        nodes.len() <= absorb(nodes, admitted, group, cap, report).0.len(),
        forall|i: int|
            0 <= i < nodes.len() ==> #[trigger] absorb(nodes, admitted, group, cap, report).0[i]
                == nodes[i],
    decreases report.len(),
{
    if report.len() > 0 {
        let next = absorb_one(nodes, admitted, group, cap, report[0]);
        absorb_keeps_instances(next.0, next.1, group, cap, report.drop_first());
        assert forall|i: int| 0 <= i < nodes.len() implies #[trigger] absorb(
            nodes,
            admitted,
            group,
            cap,
            report,
        ).0[i] == nodes[i] by {
            assert(next.0[i] == nodes[i]);
        }
    }
}

/// Every instance that a report shows as running is a node afterwards.
pub proof fn absorb_tracks_running(
    nodes: Seq<Node>,
    admitted: u32,
    group: usize,
    cap: u32,
    report: Seq<InstanceReport>,
    line: int,
)
    requires
        0 <= line < report.len(),
        report[line].state is Running,
    ensures
        knows(absorb(nodes, admitted, group, cap, report).0, report[line].instance_id@),
    decreases report.len(),
{
    let next = absorb_one(nodes, admitted, group, cap, report[0]);
    let rest = report.drop_first();
    let all = absorb(nodes, admitted, group, cap, report).0;
    if line == 0 {
        let id = report[0].instance_id@;
        if knows(nodes, id) {
            assert(next.0 == nodes);
        } else {
            assert(next.0[nodes.len() as int].instance_id@ == id);
        }
        assert(knows(next.0, id));
        let at = choose|i: int| 0 <= i < next.0.len() && (#[trigger] next.0[i]).instance_id@ == id;
        absorb_keeps_instances(next.0, next.1, group, cap, rest);
        assert(all[at] == next.0[at]);
    } else {
        assert(rest[line - 1] == report[line]);
        absorb_tracks_running(next.0, next.1, group, cap, rest, line - 1);
    }
}

/// No two nodes carry the same instance id.
pub open spec fn distinct_instances(nodes: Seq<Node>) -> bool {
    forall|i: int, j: int|
        0 <= i < j < nodes.len() ==> (#[trigger] nodes[i]).instance_id@ != (
        #[trigger] nodes[j]).instance_id@
}

/// Taking in a report keeps the books in order: no instance becomes two
/// nodes; every new node belongs to the polled group and is untouched; the
/// group admits no more than it has room for; and each group's live nodes
/// grow by exactly what was admitted.
pub proof fn absorb_keeps_order(
    nodes: Seq<Node>,
    admitted: u32,
    group: usize,
    cap: u32,
    report: Seq<InstanceReport>,
)
    requires
        admitted <= cap,
        distinct_instances(nodes),
    ensures
        ({
            let grown = absorb(nodes, admitted, group, cap, report);
            &&& nodes.len() <= grown.0.len() <= nodes.len() + report.len()
            &&& admitted <= grown.1 <= cap
            &&& distinct_instances(grown.0)
            &&& forall|i: int|
                nodes.len() <= i < grown.0.len() ==> {
                    &&& (#[trigger] grown.0[i]).group == group
                    &&& grown.0[i].release == Release::fresh()
                    &&& grown.0[i].connects == 0
                    &&& (grown.0[i].state is Running || grown.0[i].state is Failed)
                }
            &&& forall|g: int|
                #[trigger] live_upto(grown.0, g, grown.0.len() as int) == live_upto(
                    nodes,
                    g,
                    nodes.len() as int,
                ) + (if g == group {
                    grown.1 - admitted
                } else {
                    0
                })
        }),
    decreases report.len(),
{
    if report.len() > 0 {
        let next = absorb_one(nodes, admitted, group, cap, report[0]);
        let rest = report.drop_first();
        let grown = absorb(nodes, admitted, group, cap, report);
        assert(distinct_instances(next.0)) by {
            if next.0.len() > nodes.len() {
                assert forall|i: int, j: int| 0 <= i < j < next.0.len() implies (
                #[trigger] next.0[i]).instance_id@ != (#[trigger] next.0[j]).instance_id@ by {
                    if j == nodes.len() {
                        assert(nodes[i].instance_id@ != report[0].instance_id@);
                    } else {
                        assert(nodes[i].instance_id@ != nodes[j].instance_id@);
                    }
                }
            }
        }
        assert forall|g: int|
            #[trigger] live_upto(next.0, g, next.0.len() as int) == live_upto(
                nodes,
                g,
                nodes.len() as int,
            ) + (if g == group {
                next.1 - admitted
            } else {
                0
            }) by {
            live_shrinks(nodes, next.0, g, nodes.len() as int);
            live_shrinks(next.0, nodes, g, nodes.len() as int);
        }
        absorb_keeps_order(next.0, next.1, group, cap, rest);
        absorb_keeps_instances(next.0, next.1, group, cap, rest);
        assert forall|i: int| nodes.len() <= i < grown.0.len() implies {
            &&& (#[trigger] grown.0[i]).group == group
            &&& grown.0[i].release == Release::fresh()
            &&& grown.0[i].connects == 0
            &&& (grown.0[i].state is Running || grown.0[i].state is Failed)
        } by {
            if i < next.0.len() {
                assert(grown.0[i] == next.0[i]);
            }
        }
        assert forall|g: int|
            #[trigger] live_upto(grown.0, g, grown.0.len() as int) == live_upto(
                nodes,
                g,
                nodes.len() as int,
            ) + (if g == group {
                grown.1 - admitted
            } else {
                0
            }) by {
            assert(live_upto(next.0, g, next.0.len() as int) == live_upto(
                nodes,
                g,
                nodes.len() as int,
            ) + (if g == group {
                next.1 - admitted
            } else {
                0
            }));
        }
    }
}

/// A well-formed state stays well formed, whatever is reported and whatever
/// step is taken. A report is taken in as long as the nodes can still be
/// counted.
pub proof fn law_well_formedness_is_kept<F>(
    v: BurstView<F>,
    group: int,
    node: int,
    ok: bool,
    handle: Option<String>,
    report: Seq<InstanceReport>,
    post: BurstView<F>,
    action: Action,
)
    requires
        v.wf(),
        v.steps(post, action),
        v.nodes.len() + report.len() <= usize::MAX,
    ensures
        v.submitted(group, handle).wf(),
        v.polled(group, report).wf(),
        v.poll_expired(group).wf(),
        v.prepared(node, ok).wf(),
        v.unreachable(node).wf(),
        v.deadline_elapsed().wf(),
        v.workload_returned(ok).wf(),
        v.cancelled(group, ok).wf(),
        v.terminated(node, ok).wf(),
        post.wf(),
{
    changed_in_place(v.nodes, v.prepared(node, ok).nodes);
    changed_in_place(v.nodes, v.unreachable(node).nodes);
    changed_in_place(v.nodes, v.deadline_elapsed().nodes);
    changed_in_place(v.nodes, v.terminated(node, ok).nodes);
    changed_in_place(v.nodes, post.nodes);
    if v.phase is Provisioning && 0 <= group < v.requests.len() && v.requests[group].state is Open {
        let was = v.requests[group];
        let cap = v.plan[group].number;
        absorb_keeps_order(v.nodes, was.admitted, group as usize, cap, report);
        absorb_keeps_instances(v.nodes, was.admitted, group as usize, cap, report);
        let after = v.polled(group, report);
        assert forall|g: int| 0 <= g < after.plan.len() implies #[trigger] live_upto(
            after.nodes,
            g,
            after.nodes.len() as int,
        ) <= after.requests[g].admitted by {
            assert(live_upto(v.nodes, g, v.nodes.len() as int) <= v.requests[g].admitted);
        }
        assert forall|i: int| 0 <= i < after.nodes.len() implies (#[trigger] after.nodes[i]).group
            < after.plan.len() && after.nodes[i].release.wf() && after.nodes[i].connects
            <= MAX_CONNECTS && (after.nodes[i].state is Running
            || after.nodes[i].state is SettingUp ==> after.nodes[i].connects
            < MAX_CONNECTS) by {
            if i < v.nodes.len() {
                assert(after.nodes[i] == v.nodes[i]);
            }
        }
    }
}

/// The ready positions of a group are exactly the positions of its ready
/// nodes.
pub proof fn ready_upto_is_exact(nodes: Seq<Node>, group: int, upto: int, at: usize)
    requires
        0 <= upto <= nodes.len() <= usize::MAX,
    ensures
        ready_upto(nodes, group, upto).contains(at) <==> (at < upto && nodes[at as int].group
            == group && nodes[at as int].state is Ready),
    decreases upto,
{
    if upto > 0 {
        ready_upto_is_exact(nodes, group, upto - 1, at);
        let before = ready_upto(nodes, group, upto - 1);
        if nodes[upto - 1].group == group && nodes[upto - 1].state is Ready {
            let now = before.push((upto - 1) as usize);
            assert(now[before.len() as int] == (upto - 1) as usize);
            if before.contains(at) {
                let k = choose|k: int| 0 <= k < before.len() && before[k] == at;
                assert(now[k] == at);
            }
            if now.contains(at) {
                let k = choose|k: int| 0 <= k < now.len() && now[k] == at;
                if k < before.len() {
                    assert(before[k] == at);
                }
            }
        }
    }
}

/// A group's ready positions are among its members' positions, and no more
/// numerous; where every node of the group is ready, they are the same.
pub proof fn ready_within_members(nodes: Seq<Node>, group: int, upto: int)
    requires
        0 <= upto <= nodes.len(),
    ensures
        ready_upto(nodes, group, upto).len() <= members_upto(nodes, group, upto).len(),
        members_upto(nodes, group, upto).len() <= upto,
        (forall|i: int|
            0 <= i < upto && (#[trigger] nodes[i]).group == group ==> nodes[i].state is Ready)
            ==> ready_upto(nodes, group, upto) == members_upto(nodes, group, upto),
    decreases upto,
{
    if upto > 0 {
        ready_within_members(nodes, group, upto - 1);
    }
}

/// A fleet in which every machine asked for came up and every setup
/// succeeded is whole: the workload sees, of each group, as many nodes as
/// the group asked for.
pub proof fn law_whole_fleet_matches_the_plan<F>(v: BurstView<F>, group: int)
    requires
        v.wf(),
        0 <= group < v.plan.len(),
        v.members(group).len() == v.plan[group].number,
        forall|i: int|
            0 <= i < v.nodes.len() && (#[trigger] v.nodes[i]).group == group
                ==> v.nodes[i].state is Ready,
    ensures
        v.fleet(group) == v.members(group),
        v.fleet(group).len() == v.plan[group].number,
{
    ready_within_members(v.nodes, group, v.nodes.len() as int);
}

/// The workload never sees more nodes of a group than the group asked for.
pub proof fn law_fleet_fits_the_plan<F>(v: BurstView<F>, group: int)
    requires
        v.wf(),
        0 <= group < v.plan.len(),
    ensures
        v.fleet(group).len() <= v.plan[group].number,
{
    ready_within_live(v.nodes, group, v.nodes.len() as int);
    assert(v.requests[group].admitted <= v.plan[group].number);
}

/// What the driver is told to do, and the state after telling it, depend on
/// the state alone.
pub proof fn law_steps_are_determined<F>(
    pre: BurstView<F>,
    post: BurstView<F>,
    action: Action,
    other_post: BurstView<F>,
    other_action: Action,
)
    requires
        pre.steps(post, action),
        pre.steps(other_post, other_action),
    ensures
        action == other_action,
        post == other_post,
{
}

/// The workload is invoked at most once: only while provisioning, only when
/// every group has a ready node, and never again once it has been invoked.
pub proof fn law_workload_invoked_once<F>(pre: BurstView<F>, post: BurstView<F>, action: Action)
    requires
        pre.wf(),
        pre.steps(post, action),
    ensures
        action is Invoke ==> pre.phase is Provisioning && !pre.invoked && post.invoked
            && post.phase is Working && pre.all_groups_ready() && post.nodes == pre.nodes,
        pre.invoked ==> !(action is Invoke),
        !(action is Invoke) ==> post.invoked == pre.invoked,
{
}

/// No report from outside changes whether the workload was invoked.
pub proof fn law_events_do_not_invoke<F>(
    v: BurstView<F>,
    group: int,
    node: int,
    ok: bool,
    handle: Option<String>,
    report: Seq<InstanceReport>,
)
    ensures
        v.submitted(group, handle).invoked == v.invoked,
        v.polled(group, report).invoked == v.invoked,
        v.poll_expired(group).invoked == v.invoked,
        v.prepared(node, ok).invoked == v.invoked,
        v.unreachable(node).invoked == v.invoked,
        v.deadline_elapsed().invoked == v.invoked,
        v.workload_returned(ok).invoked == v.invoked,
        v.cancelled(group, ok).invoked == v.invoked,
        v.terminated(node, ok).invoked == v.invoked,
{
}

/// Once an instance is a node it stays one: no report and no step drops it,
/// renames it or moves it to another group.
pub proof fn law_instances_are_never_forgotten<F>(
    v: BurstView<F>,
    group: int,
    node: int,
    ok: bool,
    handle: Option<String>,
    report: Seq<InstanceReport>,
    post: BurstView<F>,
    action: Action,
)
    requires
        v.wf(),
        v.steps(post, action),
    ensures
        keeps_instances(v.nodes, v.submitted(group, handle).nodes),
        keeps_instances(v.nodes, v.polled(group, report).nodes),
        keeps_instances(v.nodes, v.poll_expired(group).nodes),
        keeps_instances(v.nodes, v.prepared(node, ok).nodes),
        keeps_instances(v.nodes, v.unreachable(node).nodes),
        keeps_instances(v.nodes, v.deadline_elapsed().nodes),
        keeps_instances(v.nodes, v.workload_returned(ok).nodes),
        keeps_instances(v.nodes, v.cancelled(group, ok).nodes),
        keeps_instances(v.nodes, v.terminated(node, ok).nodes),
        keeps_instances(v.nodes, post.nodes),
{
    if 0 <= group < v.requests.len() {
        absorb_keeps_instances(
            v.nodes,
            v.requests[group].admitted,
            group as usize,
            v.plan[group].number,
            report,
        );
    }
}

/// Every instance that an accepted poll shows as running is a node
/// afterwards, and so is terminated before the fleet finishes.
pub proof fn law_running_instances_are_tracked<F>(
    v: BurstView<F>,
    group: int,
    report: Seq<InstanceReport>,
    line: int,
)
    requires
        v.wf(),
        v.phase is Provisioning,
        0 <= group < v.requests.len(),
        v.requests[group].state is Open,
        0 <= line < report.len(),
        report[line].state is Running,
    ensures
        knows(v.polled(group, report).nodes, report[line].instance_id@),
{
    absorb_tracks_running(
        v.nodes,
        v.requests[group].admitted,
        group as usize,
        v.plan[group].number,
        report,
        line,
    );
}

/// Termination is asked only for an instance that is not terminated yet and
/// has tries left, and cancellation only for such a request. The answer
/// uses up one try, so nothing is asked for more than `MAX_ATTEMPTS` times,
/// and settles the matter if it is a success: a report on what has been
/// given back changes nothing.
pub proof fn law_released_once<F>(
    pre: BurstView<F>,
    post: BurstView<F>,
    action: Action,
    at: int,
    ok: bool,
)
    requires
        pre.wf(),
        pre.steps(post, action),
    ensures
        action matches Action::Terminate { node } ==> node < pre.nodes.len()
            && pre.nodes[node as int].release.pending() && post.terminated(
            node as int,
            ok,
        ).nodes[node as int].release == pre.nodes[node as int].release.tried(ok),
        action matches Action::Cancel { group } ==> group < pre.requests.len()
            && pre.requests[group as int].accepted() && pre.requests[group as int].release.pending()
            && post.cancelled(group as int, ok).requests[group as int].release
            == pre.requests[group as int].release.tried(ok),
        0 <= at < pre.nodes.len() && pre.nodes[at].release.done ==> pre.terminated(at, ok) == pre,
        0 <= at < pre.requests.len() && pre.requests[at].release.done ==> pre.cancelled(at, ok)
            == pre,
{
}

/// The fleet finishes only when every node and every accepted request has
/// been given back or has used up its tries; and it finishes with anything
/// but a teardown failure only when every node's instance is terminated and
/// every accepted request is cancelled.
pub proof fn law_finish_leaves_nothing_behind<F>(
    pre: BurstView<F>,
    post: BurstView<F>,
    outcome: Outcome,
)
    requires
        pre.wf(),
        pre.steps(post, (Action::Finish { outcome })),
    ensures
        post.nodes == pre.nodes,
        post.requests == pre.requests,
        post.phase is Done,
        forall|i: int|
            0 <= i < post.nodes.len() ==> (#[trigger] post.nodes[i]).release.done
                || post.nodes[i].release.attempts == MAX_ATTEMPTS,
        forall|g: int|
            0 <= g < post.requests.len() && (#[trigger] post.requests[g]).accepted()
                ==> post.requests[g].release.done || post.requests[g].release.attempts
                == MAX_ATTEMPTS,
        !(outcome is TeardownFailed) ==> forall|i: int|
            0 <= i < post.nodes.len() ==> (#[trigger] post.nodes[i]).release.done,
        !(outcome is TeardownFailed) ==> forall|g: int|
            0 <= g < post.requests.len() && (#[trigger] post.requests[g]).accepted()
                ==> post.requests[g].release.done,
        outcome is Success ==> post.invoked && post.failure is None,
{
    let tv = if pre.phase is Provisioning {
        if !no_request(pre.requests, RequestQuery::Rejected) {
            pre.aborted(Failure::Provisioning)
        } else {
            pre.aborted(Failure::Setup)
        }
    } else {
        pre
    };
    assert(no_request(tv.requests, RequestQuery::Cancellable));
    assert(no_node(tv.nodes, NodeQuery::Terminable));
    assert forall|i: int| 0 <= i < post.nodes.len() implies (#[trigger] post.nodes[i]).release.done
        || post.nodes[i].release.attempts == MAX_ATTEMPTS by {
        assert(!tv.nodes[i].answers(NodeQuery::Terminable));
    }
    assert forall|g: int|
        0 <= g < post.requests.len() && (#[trigger] post.requests[g]).accepted()
            implies post.requests[g].release.done || post.requests[g].release.attempts
        == MAX_ATTEMPTS by {
        assert(!tv.requests[g].answers(RequestQuery::Cancellable));
    }
    if !(outcome is TeardownFailed) {
        assert(no_request(tv.requests, RequestQuery::Leaked));
        assert(no_node(tv.nodes, NodeQuery::Leaked));
        assert forall|i: int| 0 <= i < post.nodes.len() implies (#[trigger] post.nodes[i]).release.done by {
            assert(!tv.nodes[i].answers(NodeQuery::Leaked));
        }
        assert forall|g: int|
            0 <= g < post.requests.len() && (#[trigger] post.requests[g]).accepted()
                implies post.requests[g].release.done by {
            assert(!tv.requests[g].answers(RequestQuery::Leaked));
        }
    }
}

/// A node whose setup failed is in no group of the fleet that the workload
/// sees, and is still a node, with its instance id, for the teardown.
pub proof fn law_failed_setup_is_excluded_but_tracked<F>(v: BurstView<F>, node: usize, group: int)
    requires
        v.wf(),
        v.phase is Provisioning,
        node < v.nodes.len(),
        v.nodes[node as int].state is SettingUp,
    ensures
        v.prepared(node as int, false).nodes[node as int].state is Failed,
        !v.prepared(node as int, false).fleet(group).contains(node),
        v.prepared(node as int, false).nodes.len() == v.nodes.len(),
        v.prepared(node as int, false).nodes[node as int].instance_id
            == v.nodes[node as int].instance_id,
        v.prepared(node as int, false).nodes[node as int].release
            == v.nodes[node as int].release,
{
    let post = v.prepared(node as int, false);
    ready_upto_is_exact(post.nodes, group, post.nodes.len() as int, node);
}

/// The workload sees exactly the ready nodes of each group.
pub proof fn law_fleet_holds_ready_nodes_only<F>(v: BurstView<F>, group: int, at: usize)
    requires
        v.wf(),
    ensures
        v.fleet(group).contains(at) <==> (at < v.nodes.len() && v.nodes[at as int].group == group
            && v.nodes[at as int].state is Ready),
        v.fleet(group).len() <= v.members(group).len(),
{
    ready_upto_is_exact(v.nodes, group, v.nodes.len() as int, at);
    ready_within_members(v.nodes, group, v.nodes.len() as int);
}

/// A node that failed stays failed: nothing brings it back into the fleet.
pub proof fn law_failed_nodes_stay_failed<F>(
    v: BurstView<F>,
    at: int,
    group: int,
    node: int,
    ok: bool,
    handle: Option<String>,
    report: Seq<InstanceReport>,
    post: BurstView<F>,
    action: Action,
)
    requires
        v.wf(),
        v.steps(post, action),
        0 <= at < v.nodes.len(),
        v.nodes[at].state is Failed,
    ensures
        v.submitted(group, handle).nodes[at].state is Failed,
        v.polled(group, report).nodes[at].state is Failed,
        v.poll_expired(group).nodes[at].state is Failed,
        v.prepared(node, ok).nodes[at].state is Failed,
        v.unreachable(node).nodes[at].state is Failed,
        v.deadline_elapsed().nodes[at].state is Failed,
        v.workload_returned(ok).nodes[at].state is Failed,
        v.cancelled(group, ok).nodes[at].state is Failed,
        v.terminated(node, ok).nodes[at].state is Failed,
        post.nodes[at].state is Failed,
{
    if 0 <= group < v.requests.len() {
        absorb_keeps_instances(
            v.nodes,
            v.requests[group].admitted,
            group as usize,
            v.plan[group].number,
            report,
        );
    }
}

/// When the deadline passes while the fleet is provisioning, the teardown
/// begins with a timeout on record, the workload not invoked, and no node
/// left on its way.
pub proof fn law_deadline_aborts<F>(v: BurstView<F>)
    requires
        v.wf(),
        v.phase is Provisioning,
    ensures
        v.deadline_elapsed().phase is TearingDown,
        v.deadline_elapsed().failure == Some(Failure::Timeout),
        !v.deadline_elapsed().invoked,
        v.deadline_elapsed().nodes.len() == v.nodes.len(),
        forall|i: int|
            0 <= i < v.nodes.len() ==> (#[trigger] v.deadline_elapsed().nodes[i]).state is Ready
                || v.deadline_elapsed().nodes[i].state is Failed,
{
}

/// Once the teardown has begun, the workload is never invoked, what went
/// wrong stays on record, and there is no way back: a fleet that timed out
/// finishes as timed out, unless its teardown fails.
pub proof fn law_teardown_is_final<F>(
    pre: BurstView<F>,
    post: BurstView<F>,
    action: Action,
    group: int,
    node: int,
    ok: bool,
    handle: Option<String>,
    report: Seq<InstanceReport>,
)
    requires
        pre.wf(),
        pre.phase is TearingDown || pre.phase is Done,
        pre.steps(post, action),
    ensures
        !(action is Invoke),
        post.phase is TearingDown || post.phase is Done,
        post.invoked == pre.invoked,
        post.failure == pre.failure,
        action matches Action::Finish { outcome } ==> (pre.failure == Some(Failure::Timeout) ==> (
        outcome is Timeout || outcome is TeardownFailed)),
        pre.submitted(group, handle) == pre,
        pre.polled(group, report) == pre,
        pre.poll_expired(group) == pre,
        pre.prepared(node, ok) == pre,
        pre.unreachable(node) == pre,
        pre.deadline_elapsed() == pre,
        pre.workload_returned(ok) == pre,
        pre.cancelled(group, ok).phase == pre.phase && pre.cancelled(group, ok).failure
            == pre.failure,
        pre.terminated(node, ok).phase == pre.phase && pre.terminated(node, ok).failure
            == pre.failure,
{
}

} // verus!
