//! The shard coordinator: the authority on which node hosts which shard.
//!
//! A shard is assigned at most once. The decision is written to the journal
//! before it is announced, and a coordinator that starts again finds it there.

use crate::actor::{ActorRef, ActorRefView};
use crate::host::{ascending, insert_shard, HostStats};
use crate::journal::{Journal, ShardAllocated, StorageError};
use crate::shard::{NodeId, ShardId};
use vstd::prelude::*;

verus! {

/// The answer to a request for the allocation of a shard.
#[derive(Debug, Clone, Copy, PartialEq, Eq, Structural)]
pub enum AllocateShardResult {
    /// The shard was unassigned and is now hosted by the node.
    Allocated(NodeId),
    /// The shard was assigned before, to the node.
    AlreadyAllocated(NodeId),
    /// The shard is unassigned and stays so: no host is known, or the
    /// decision could not be made durable.
    Failed,
}

/// A host as the coordinator is told of it: the node, its label, the shards
/// it hosts already, and the reference to its shard host actor.
#[derive(Debug)]
pub struct ShardHostState {
    pub node_id: NodeId,
    pub node_tag: String,
    pub shards: Vec<ShardId>,
    pub actor: ActorRef,
}

/// Mathematical value of a registered host.
pub ghost struct HostView {
    pub node_id: NodeId,
    pub node_tag: Seq<char>,
    pub actor: ActorRefView,
}

impl ShardHostState {
    /// The host without the shards it reports.
    pub open spec fn host(&self) -> HostView {
        HostView { node_id: self.node_id, node_tag: self.node_tag@, actor: self.actor@ }
    }
}

/// Mathematical value of a coordinator: the registered hosts by node, and
/// the assignment table. A shard has at most one host at any instant, because
/// the table is a map.
pub ghost struct CoordinatorView {
    pub hosts: Map<NodeId, HostView>,
    pub assignments: Map<ShardId, NodeId>,
}

/// The node that the durable events `log` assign `shard` to, if any. Where
/// `log` holds several events for a shard, the oldest one is its assignment.
pub open spec fn assigned(log: Seq<ShardAllocated>, shard: ShardId) -> Option<NodeId>
    decreases log.len(),
{
    if log.len() == 0 {
        None
    } else {
        match assigned(log.drop_last(), shard) {
            Some(node) => Some(node),
            None => if log.last().shard_id == shard {
                Some(log.last().node_id)
            } else {
                None
            },
        }
    }
}

/// The assignment table that the durable events `log` stand for.
pub open spec fn replayed(log: Seq<ShardAllocated>) -> Map<ShardId, NodeId> {
    Map::new(
        |shard: ShardId| assigned(log, shard) is Some,
        |shard: ShardId| assigned(log, shard).unwrap(),
    )
}

/// Whether `node` is the lowest of `nodes`.
pub open spec fn is_lowest(nodes: Set<NodeId>, node: NodeId) -> bool {
    nodes.contains(node) && forall|other: NodeId| nodes.contains(other) ==> node <= other
}

/// The lowest node among `hosts`: the host that an unassigned shard is
/// allocated to.
pub open spec fn lowest_node(hosts: Map<NodeId, HostView>) -> Option<NodeId> {
    if exists|node: NodeId| is_lowest(hosts.dom(), node) {
        Some(choose|node: NodeId| is_lowest(hosts.dom(), node))
    } else {
        None
    }
}

/// The table after `node` reported that it hosts `shards`: each reported
/// shard that was unassigned is assigned to `node`, and nothing else changes.
pub open spec fn filled(assignments: Map<ShardId, NodeId>, node: NodeId, shards: Set<ShardId>) -> Map<
    ShardId,
    NodeId,
> {
    Map::new(
        |shard: ShardId| assignments.contains_key(shard) || shards.contains(shard),
        |shard: ShardId|
            if assignments.contains_key(shard) {
                assignments[shard]
            } else {
                node
            },
    )
}

/// The shards among `shards`, in their order, that the table assigns to a
/// node other than `node`: what `node` reports and the table contradicts.
pub open spec fn drift_of(assignments: Map<ShardId, NodeId>, node: NodeId, shards: Seq<ShardId>) -> Seq<
    ShardId,
>
    decreases shards.len(),
{
    if shards.len() == 0 {
        Seq::empty()
    } else {
        let before = drift_of(assignments, node, shards.drop_last());
        if assignments.contains_key(shards.last()) && assignments[shards.last()] != node {
            before.push(shards.last())
        } else {
            before
        }
    }
}

/// The coordinator after the host `host`, which reports `shards`, was
/// registered. A node that is registered already stays as it was.
pub open spec fn host_added(c: CoordinatorView, host: HostView, shards: Set<ShardId>) -> CoordinatorView {
    if c.hosts.contains_key(host.node_id) {
        c
    } else {
        CoordinatorView {
            hosts: c.hosts.insert(host.node_id, host),
            assignments: filled(c.assignments, host.node_id, shards),
        }
    }
}

/// What the coordinator does about a request to allocate a shard, before
/// anything is written.
#[derive(Debug, Clone, Copy, PartialEq, Eq, Structural)]
pub enum AllocationPlan {
    /// The shard is assigned to the node: nothing is to be done.
    Known(NodeId),
    /// The shard is unassigned and no host is known.
    NoHost,
    /// The shard is unassigned and goes to the node, once the decision is
    /// durable.
    Persist(NodeId),
}

/// The plan for a request to allocate `shard`.
pub open spec fn plan_of(c: CoordinatorView, shard: ShardId) -> AllocationPlan {
    if c.assignments.contains_key(shard) {
        AllocationPlan::Known(c.assignments[shard])
    } else {
        match lowest_node(c.hosts) {
            Some(node) => AllocationPlan::Persist(node),
            None => AllocationPlan::NoHost,
        }
    }
}

/// The coordinator and its answer after the write of the decision that
/// `shard` goes to `node` has ended, well (`written`) or not.
pub open spec fn completed(c: CoordinatorView, shard: ShardId, node: NodeId, written: bool) -> (
    CoordinatorView,
    AllocateShardResult,
) {
    if !written {
        (c, AllocateShardResult::Failed)
    } else if c.assignments.contains_key(shard) {
        (c, AllocateShardResult::AlreadyAllocated(c.assignments[shard]))
    } else {
        (
            CoordinatorView { hosts: c.hosts, assignments: c.assignments.insert(shard, node) },
            AllocateShardResult::Allocated(node),
        )
    }
}

/// The coordinator and its answer after a request to allocate `shard`, where
/// `written` says whether the write to the journal, if one was made, ended
/// well.
pub open spec fn allocated(c: CoordinatorView, shard: ShardId, written: bool) -> (
    CoordinatorView,
    AllocateShardResult,
) {
    match plan_of(c, shard) {
        AllocationPlan::Known(node) => (c, AllocateShardResult::AlreadyAllocated(node)),
        AllocationPlan::NoHost => (c, AllocateShardResult::Failed),
        AllocationPlan::Persist(node) => completed(c, shard, node, written),
    }
}

/// The event that a request to allocate `shard` appends to the journal where
/// its write ended well, if it appends one.
pub open spec fn appended(c: CoordinatorView, shard: ShardId, written: bool) -> Option<
    ShardAllocated,
> {
    match plan_of(c, shard) {
        AllocationPlan::Persist(node) => if written {
            Some(ShardAllocated { shard_id: shard, node_id: node })
        } else {
            None
        },
        _ => None,
    }
}

/// Whether a request to allocate `shard` that met the coordinator `before`
/// and the durable events `log_before` ended with the coordinator `after`,
/// the answer `result` and the durable events `log_after`, where `written`
/// says whether the write to the journal, if one was made, ended well.
pub open spec fn allocation_ended(
    before: CoordinatorView,
    log_before: Seq<ShardAllocated>,
    shard: ShardId,
    written: bool,
    after: CoordinatorView,
    result: AllocateShardResult,
    log_after: Seq<ShardAllocated>,
) -> bool {
    &&& (after, result) == allocated(before, shard, written)
    &&& log_after == match appended(before, shard, written) {
        Some(event) => log_before.push(event),
        None => log_before,
    }
}

/// The coordinator after it replayed the durable events `log`: what the log
/// says wins, and what the coordinator knew of other shards stays.
pub open spec fn recovered(c: CoordinatorView, log: Seq<ShardAllocated>) -> CoordinatorView {
    CoordinatorView {
        hosts: c.hosts,
        assignments: c.assignments.union_prefer_right(replayed(log)),
    }
}

/// Every assignment that the durable events `log` stand for is an assignment
/// of the table.
pub open spec fn covers(assignments: Map<ShardId, NodeId>, log: Seq<ShardAllocated>) -> bool {
    forall|shard: ShardId| #[trigger]
        replayed(log).contains_key(shard) ==> assignments.contains_key(shard) && assignments[shard]
            == replayed(log)[shard]
}

/// The assignment of a shard in two logs read one after the other is its
/// assignment in the first, and in the second only where the first has none.
pub proof fn lemma_assigned_concat(
    first: Seq<ShardAllocated>,
    second: Seq<ShardAllocated>,
    shard: ShardId,
)
    ensures
        assigned(first + second, shard) == match assigned(first, shard) {
            Some(node) => Some(node),
            None => assigned(second, shard),
        },
    decreases second.len(),
{
    if second.len() == 0 {
        assert(first + second =~= first);
    } else {
        assert((first + second).drop_last() =~= first + second.drop_last());
        assert((first + second).last() == second.last());
        lemma_assigned_concat(first, second.drop_last(), shard);
    }
}

/// An event that is appended assigns its shard only where the log had no
/// assignment for it.
pub proof fn lemma_replayed_push(log: Seq<ShardAllocated>, event: ShardAllocated)
    ensures
        replayed(log.push(event)) == if replayed(log).contains_key(event.shard_id) {
            replayed(log)
        } else {
            replayed(log).insert(event.shard_id, event.node_id)
        },
{
    assert(log.push(event).drop_last() =~= log);
    assert(replayed(log.push(event)) =~= if replayed(log).contains_key(event.shard_id) {
        replayed(log)
    } else {
        replayed(log).insert(event.shard_id, event.node_id)
    });
}

/// The lowest node is unique.
pub proof fn lemma_lowest_node(hosts: Map<NodeId, HostView>, node: NodeId)
    requires
        is_lowest(hosts.dom(), node),
    ensures
        lowest_node(hosts) == Some(node),
{
    let chosen = choose|n: NodeId| is_lowest(hosts.dom(), n);
    assert(is_lowest(hosts.dom(), chosen));
    assert(chosen <= node && node <= chosen);
}

struct HostEntry {
    node_id: NodeId,
    node_tag: String,
    actor: ActorRef,
}

impl View for HostEntry {
    type V = HostView;

    closed spec fn view(&self) -> HostView {
        HostView { node_id: self.node_id, node_tag: self.node_tag@, actor: self.actor@ }
    }
}

spec fn listed(hosts: Seq<HostView>, node: NodeId) -> bool {
    exists|i: int| 0 <= i < hosts.len() && hosts[i].node_id == node
}

spec fn position(hosts: Seq<HostView>, node: NodeId) -> int {
    choose|i: int| 0 <= i < hosts.len() && hosts[i].node_id == node
}

spec fn distinct_nodes(hosts: Seq<HostView>) -> bool {
    forall|i: int, j: int| 0 <= i < j < hosts.len() ==> hosts[i].node_id != hosts[j].node_id
}

spec fn by_node(hosts: Seq<HostView>) -> Map<NodeId, HostView> {
    Map::new(|node: NodeId| listed(hosts, node), |node: NodeId| hosts[position(hosts, node)])
}

proof fn lemma_by_node_at(hosts: Seq<HostView>, i: int)
    requires
        distinct_nodes(hosts),
        0 <= i < hosts.len(),
    ensures
        by_node(hosts).contains_key(hosts[i].node_id),
        by_node(hosts)[hosts[i].node_id] == hosts[i],
{
    let k = position(hosts, hosts[i].node_id);
    if k < i {
        assert(hosts[k].node_id != hosts[i].node_id);
    } else if i < k {
        assert(hosts[i].node_id != hosts[k].node_id);
    }
}

/// A shard that a log assigns has an event in the log.
proof fn lemma_assigned_has_event(log: Seq<ShardAllocated>, shard: ShardId)
    requires
        assigned(log, shard) is Some,
    ensures
        exists|i: int| 0 <= i < log.len() && #[trigger] log[i].shard_id == shard,
    decreases log.len(),
{
    if assigned(log.drop_last(), shard) is Some {
        lemma_assigned_has_event(log.drop_last(), shard);
        let i = choose|i: int|
            0 <= i < log.drop_last().len() && #[trigger] log.drop_last()[i].shard_id == shard;
        assert(log[i].shard_id == shard);
    } else {
        assert(log[log.len() - 1].shard_id == shard);
    }
}

proof fn lemma_by_node_push(hosts: Seq<HostView>, host: HostView)
    requires
        distinct_nodes(hosts),
        !listed(hosts, host.node_id),
    ensures
        distinct_nodes(hosts.push(host)),
        by_node(hosts.push(host)) == by_node(hosts).insert(host.node_id, host),
{
    let more = hosts.push(host);
    assert forall|i: int, j: int| 0 <= i < j < more.len() implies more[i].node_id
        != more[j].node_id by {
        if j == hosts.len() {
            assert(hosts[i].node_id != host.node_id);
        } else {
            assert(hosts[i].node_id != hosts[j].node_id);
        }
    }
    assert forall|node: NodeId| listed(more, node) <==> (listed(hosts, node) || node
        == host.node_id) by {
        if listed(more, node) {
            let i = position(more, node);
            if i < hosts.len() {
                assert(hosts[i].node_id == node);
            }
        }
        if listed(hosts, node) {
            let i = position(hosts, node);
            assert(more[i].node_id == node);
        }
        assert(more[hosts.len() as int].node_id == host.node_id);
    }
    assert forall|node: NodeId| listed(more, node) implies #[trigger] by_node(more)[node]
        == by_node(hosts).insert(host.node_id, host)[node] by {
        let i = position(more, node);
        if node == host.node_id {
            if i < hosts.len() {
                assert(hosts[i].node_id == node);
            }
        } else {
            let k = position(hosts, node);
            assert(more[k].node_id == node);
            assert(i < hosts.len());
            if i != k {
                if i < k {
                    assert(hosts[i].node_id != hosts[k].node_id);
                } else {
                    assert(hosts[k].node_id != hosts[i].node_id);
                }
            }
        }
    }
    assert(by_node(more) =~= by_node(hosts).insert(host.node_id, host));
}

spec fn fill_gaps(table: Seq<ShardAllocated>, node: NodeId, shards: Seq<ShardId>) -> Seq<
    ShardAllocated,
>
    decreases shards.len(),
{
    if shards.len() == 0 {
        table
    } else {
        let so_far = fill_gaps(table, node, shards.drop_last());
        if assigned(so_far, shards.last()) is None {
            so_far.push(ShardAllocated { shard_id: shards.last(), node_id: node })
        } else {
            so_far
        }
    }
}

proof fn lemma_fill_gaps(table: Seq<ShardAllocated>, node: NodeId, shards: Seq<ShardId>)
    ensures
        replayed(fill_gaps(table, node, shards)) == filled(replayed(table), node, shards.to_set()),
    decreases shards.len(),
{
    if shards.len() == 0 {
        assert(replayed(table) =~= filled(replayed(table), node, shards.to_set()));
    } else {
        let front = shards.drop_last();
        let so_far = fill_gaps(table, node, front);
        lemma_fill_gaps(table, node, front);
        lemma_replayed_push(so_far, ShardAllocated { shard_id: shards.last(), node_id: node });
        assert forall|shard: ShardId| #[trigger]
            shards.to_set().contains(shard) <==> (front.to_set().contains(shard) || shard
                == shards.last()) by {
            if shards.contains(shard) {
                let i = choose|i: int| 0 <= i < shards.len() && shards[i] == shard;
                if i < front.len() {
                    assert(front[i] == shard);
                }
            }
            if front.contains(shard) {
                let i = choose|i: int| 0 <= i < front.len() && front[i] == shard;
                assert(shards[i] == shard);
            }
            assert(shards[shards.len() - 1] == shards.last());
        }
        assert(replayed(fill_gaps(table, node, shards)) =~= filled(
            replayed(table),
            node,
            shards.to_set(),
        ));
    }
}

/// The owner of the assignment of shards to hosts, for the entities of one
/// actor type.
pub struct ShardCoordinator {
    shard_entity: String,
    hosts: Vec<HostEntry>,
    table: Vec<ShardAllocated>,
}

impl View for ShardCoordinator {
    type V = CoordinatorView;

    closed spec fn view(&self) -> CoordinatorView {
        CoordinatorView { hosts: by_node(self.host_views()), assignments: replayed(self.table@) }
    }
}

impl ShardCoordinator {
    spec fn host_views(&self) -> Seq<HostView> {
        Seq::new(self.hosts.len() as nat, |i: int| self.hosts[i]@)
    }

    /// The stream of the journal that holds the decisions of this
    /// coordinator: the tag of the actor type whose shards it assigns.
    pub closed spec fn stream_id(&self) -> Seq<char> {
        self.shard_entity@
    }

    /// Every value that `new` produces is valid, and every method keeps it so.
    pub closed spec fn wf(&self) -> bool {
        distinct_nodes(self.host_views())
    }

    /// A coordinator for the entities of the actor type `shard_entity`, with
    /// no host and an empty table.
    pub fn new(shard_entity: String) -> (coordinator: ShardCoordinator)
        ensures
            coordinator.wf(),
            coordinator.stream_id() == shard_entity@,
            coordinator@.hosts == Map::<NodeId, HostView>::empty(),
            coordinator@.assignments == Map::<ShardId, NodeId>::empty(),
    {
        let coordinator = ShardCoordinator { shard_entity, hosts: Vec::new(), table: Vec::new() };
        assert(coordinator@.hosts =~= Map::<NodeId, HostView>::empty());
        assert(coordinator@.assignments =~= Map::<ShardId, NodeId>::empty());
        coordinator
    }

    /// The tag of the actor type whose shards this coordinator assigns.
    pub fn shard_entity(&self) -> (tag: &String)
        ensures
            tag@ == self.stream_id(),
    {
        &self.shard_entity
    }

    /// The node that hosts `shard_id`, if the shard is assigned.
    pub fn shard_location(&self, shard_id: ShardId) -> (node: Option<NodeId>)
        ensures
            node is Some <==> self@.assignments.contains_key(shard_id),
            node matches Some(n) ==> self@.assignments[shard_id] == n,
    {
        let mut i: usize = 0;
        while i < self.table.len()
            invariant
                i <= self.table.len(),
                assigned(self.table@.take(i as int), shard_id) is None,
            decreases self.table.len() - i,
        {
            proof {
                let upto = self.table@.take(i + 1);
                assert(upto.drop_last() =~= self.table@.take(i as int));
                assert(upto.last() == self.table@[i as int]);
            }
            if self.table[i].shard_id == shard_id {
                proof {
                    let upto = self.table@.take(i + 1);
                    lemma_assigned_concat(upto, self.table@.skip(i + 1), shard_id);
                    assert(upto + self.table@.skip(i + 1) =~= self.table@);
                }
                return Some(self.table[i].node_id);
            }
            i += 1;
        }
        proof {
            assert(self.table@.take(self.table.len() as int) =~= self.table@);
        }
        None
    }

    fn find_host(&self, node_id: NodeId) -> (found: Option<usize>)
        ensures
            found is Some <==> self@.hosts.contains_key(node_id),
            found matches Some(k) ==> k < self.hosts.len() && self.host_views()[k as int].node_id
                == node_id,
    {
        let mut i: usize = 0;
        while i < self.hosts.len()
            invariant
                i <= self.hosts.len(),
                forall|j: int| 0 <= j < i ==> self.host_views()[j].node_id != node_id,
            decreases self.hosts.len() - i,
        {
            if self.hosts[i].node_id == node_id {
                assert(self.host_views()[i as int].node_id == node_id);
                return Some(i);
            }
            i += 1;
        }
        None
    }

    /// Whether `node_id` is a registered host.
    pub fn is_host(&self, node_id: NodeId) -> (known: bool)
        ensures
            known == self@.hosts.contains_key(node_id),
    {
        self.find_host(node_id).is_some()
    }

    /// The registered host on `node_id`, with the shards that the table
    /// assigns to it, in ascending order and each once.
    pub fn host_state(&self, node_id: NodeId) -> (state: Option<ShardHostState>)
        requires
            self.wf(),
        ensures
            state is Some <==> self@.hosts.contains_key(node_id),
            state matches Some(host) ==> {
                &&& host.host() == self@.hosts[node_id]
                &&& ascending(host.shards@)
                &&& forall|shard: ShardId|
                    host.shards@.contains(shard) <==> self@.assignments.contains_key(shard)
                        && self@.assignments[shard] == node_id
            },
    {
        let found = self.find_host(node_id);
        let k = match found {
            Some(k) => k,
            None => {
                return None;
            },
        };
        proof {
            lemma_by_node_at(self.host_views(), k as int);
        }
        let mut shards: Vec<ShardId> = Vec::new();
        let mut j: usize = 0;
        while j < self.table.len()
            invariant
                j <= self.table.len(),
                ascending(shards@),
                forall|shard: ShardId|
                    shards@.contains(shard) <==> self@.assignments.contains_key(shard)
                        && self@.assignments[shard] == node_id && exists|e: int|
                        0 <= e < j && #[trigger] self.table@[e].shard_id == shard,
            decreases self.table.len() - j,
        {
            let shard = self.table[j].shard_id;
            let ghost before = shards@;
            match self.shard_location(shard) {
                Some(node) => {
                    if node == node_id {
                        insert_shard(&mut shards, shard);
                    }
                },
                None => {},
            }
            proof {
                assert forall|other: ShardId|
                    shards@.contains(other) <==> self@.assignments.contains_key(other)
                        && self@.assignments[other] == node_id && exists|e: int|
                        0 <= e < j + 1 && #[trigger] self.table@[e].shard_id == other by {
                    assert(shards@.to_set().contains(other) == shards@.contains(other));
                    assert(before.to_set().contains(other) == before.contains(other));
                    if before.contains(other) {
                        let e = choose|e: int|
                            0 <= e < j && #[trigger] self.table@[e].shard_id == other;
                        assert(0 <= e < j + 1 && self.table@[e].shard_id == other);
                    }
                    if self@.assignments.contains_key(other) && self@.assignments[other]
                        == node_id && exists|e: int|
                        0 <= e < j + 1 && #[trigger] self.table@[e].shard_id == other {
                        let e = choose|e: int|
                            0 <= e < j + 1 && #[trigger] self.table@[e].shard_id == other;
                        if e < j {
                            assert(before.contains(other));
                        }
                    }
                    assert(self.table@[j as int].shard_id == shard);
                }
            }
            j += 1;
        }
        proof {
            assert forall|shard: ShardId|
                self@.assignments.contains_key(shard) && self@.assignments[shard]
                    == node_id implies shards@.contains(shard) by {
                lemma_assigned_has_event(self.table@, shard);
            }
        }
        let entry = &self.hosts[k];
        Some(
            ShardHostState {
                node_id: entry.node_id,
                node_tag: entry.node_tag.clone(),
                shards,
                actor: ActorRef { id: entry.actor.id.clone(), actor_type: entry.actor.actor_type.clone() },
            },
        )
    }

    /// The number of registered hosts.
    pub fn host_count(&self) -> (n: usize)
        requires
            self.wf(),
        ensures
            n == self@.hosts.dom().len(),
            self@.hosts.dom().finite(),
    {
        proof {
            self.lemma_host_count(self.hosts.len() as int);
            assert(self.host_views().take(self.hosts.len() as int) =~= self.host_views());
        }
        self.hosts.len()
    }

    proof fn lemma_host_count(&self, n: int)
        requires
            self.wf(),
            0 <= n <= self.host_views().len(),
        ensures
            by_node(self.host_views().take(n)).dom().finite(),
            by_node(self.host_views().take(n)).dom().len() == n,
        decreases n,
    {
        let all = self.host_views();
        if n == 0 {
            assert(by_node(all.take(0)).dom() =~= Set::<NodeId>::empty());
        } else {
            self.lemma_host_count(n - 1);
            let front = all.take(n - 1);
            assert(distinct_nodes(front));
            if listed(front, all[n - 1].node_id) {
                let i = position(front, all[n - 1].node_id);
                assert(all[i].node_id != all[n - 1].node_id);
            }
            lemma_by_node_push(front, all[n - 1]);
            assert(front.push(all[n - 1]) =~= all.take(n));
        }
    }

    /// The host that an unassigned shard is allocated to: the registered host
    /// with the lowest node identifier. This is the one place that holds the
    /// allocation policy.
    pub fn select_host(&self) -> (node: Option<NodeId>)
        ensures
            node == lowest_node(self@.hosts),
            node matches Some(n) ==> is_lowest(self@.hosts.dom(), n),
            node is None ==> self@.hosts == Map::<NodeId, HostView>::empty(),
    {
        let ghost all = self.host_views();
        let mut lowest: Option<NodeId> = None;
        let mut i: usize = 0;
        while i < self.hosts.len()
            invariant
                i <= self.hosts.len(),
                all == self.host_views(),
                lowest is None ==> i == 0,
                lowest matches Some(n) ==> listed(all, n) && forall|j: int|
                    0 <= j < i ==> n <= all[j].node_id,
            decreases self.hosts.len() - i,
        {
            let candidate = self.hosts[i].node_id;
            assert(all[i as int].node_id == candidate);
            lowest = match lowest {
                Some(node) => if candidate < node {
                    Some(candidate)
                } else {
                    Some(node)
                },
                None => Some(candidate),
            };
            i += 1;
        }
        proof {
            match lowest {
                Some(n) => {
                    assert forall|other: NodeId| self@.hosts.dom().contains(other) implies n
                        <= other by {
                        let j = position(all, other);
                        assert(n <= all[j].node_id);
                    }
                    lemma_lowest_node(self@.hosts, n);
                },
                None => {
                    assert(self@.hosts =~= Map::<NodeId, HostView>::empty());
                },
            }
        }
        lowest
    }

    /// Takes in what `node_id` reports to host: assigns each reported shard
    /// that is unassigned to `node_id`, and returns the reported shards that
    /// the table assigns to another node.
    fn take_report(&mut self, node_id: NodeId, shards: &Vec<ShardId>) -> (drift: Vec<ShardId>)
        ensures
            final(self).host_views() == old(self).host_views(),
            final(self).stream_id() == old(self).stream_id(),
            final(self)@.hosts == old(self)@.hosts,
            final(self)@.assignments == filled(
                old(self)@.assignments,
                node_id,
                shards@.to_set(),
            ),
            drift@ == drift_of(old(self)@.assignments, node_id, shards@),
    {
        let ghost before = self.table@;
        let mut drift: Vec<ShardId> = Vec::new();
        let mut i: usize = 0;
        while i < shards.len()
            invariant
                i <= shards.len(),
                self.host_views() == old(self).host_views(),
                self.stream_id() == old(self).stream_id(),
                before == old(self).table@,
                self.table@ == fill_gaps(before, node_id, shards@.take(i as int)),
                drift@ == drift_of(replayed(before), node_id, shards@.take(i as int)),
            decreases shards.len() - i,
        {
            let shard = shards[i];
            proof {
                let upto = shards@.take(i + 1);
                assert(upto.drop_last() =~= shards@.take(i as int));
                assert(upto.last() == shard);
                lemma_fill_gaps(before, node_id, shards@.take(i as int));
            }
            match self.shard_location(shard) {
                Some(known) => {
                    if known != node_id {
                        drift.push(shard);
                    }
                },
                None => {
                    self.table.push(ShardAllocated { shard_id: shard, node_id });
                },
            }
            i += 1;
        }
        proof {
            assert(shards@.take(shards.len() as int) =~= shards@);
            lemma_fill_gaps(before, node_id, shards@);
        }
        drift
    }

    /// Registers `host` as eligible for allocation. A node that is registered
    /// already stays as it was. Of a new node, the shards that it hosts
    /// already and that are unassigned are assigned to it.
    pub fn add_host(&mut self, host: ShardHostState)
        requires
            old(self).wf(),
        ensures
            final(self).wf(),
            final(self).stream_id() == old(self).stream_id(),
            final(self)@ == host_added(old(self)@, host.host(), host.shards@.to_set()),
    {
        if self.is_host(host.node_id) {
            return ;
        }
        let ghost before = self.host_views();
        let ShardHostState { node_id, node_tag, shards, actor } = host;
        self.hosts.push(HostEntry { node_id, node_tag, actor });
        proof {
            assert(self.host_views() =~= before.push(host.host()));
            lemma_by_node_push(before, host.host());
        }
        let _ = self.take_report(node_id, &shards);
    }

    /// Merges what the host on `node_id` reports into the table: a shard that
    /// it hosts and that is unassigned is assigned to it. The table wins
    /// where it assigns such a shard to another node; those shards are
    /// returned, in the order of the report.
    pub fn reconcile(&mut self, node_id: NodeId, stats: &HostStats) -> (drift: Vec<ShardId>)
        requires
            old(self).wf(),
        ensures
            final(self).wf(),
            final(self).stream_id() == old(self).stream_id(),
            final(self)@.hosts == old(self)@.hosts,
            final(self)@.assignments == filled(
                old(self)@.assignments,
                node_id,
                stats.hosted_shards@.to_set(),
            ),
            drift@ == drift_of(old(self)@.assignments, node_id, stats.hosted_shards@),
    {
        self.take_report(node_id, &stats.hosted_shards)
    }

    /// Replays the decisions that the journal holds for this coordinator.
    /// The journal is asked once for the replay of the stream of this
    /// coordinator. Where it gives the events, the recovery succeeds: what
    /// the journal says wins over what the table held, and what the table
    /// held for other shards stays. Where it fails, the recovery fails with
    /// the error of the replay, and nothing changes.
    pub fn recover<J: Journal>(&mut self, journal: &J) -> (outcome: Result<(), StorageError>)
        requires
            old(self).wf(),
        ensures
            final(self).wf(),
            final(self).stream_id() == old(self).stream_id(),
            outcome is Ok ==> final(self)@ == recovered(
                old(self)@,
                journal.events(old(self).stream_id()),
            ),
            outcome is Err ==> final(self)@ == old(self)@,
            exists|stream: &str, replay: Result<Vec<ShardAllocated>, StorageError>|
                {
                    &&& stream@ == old(self).stream_id()
                    &&& #[trigger] call_ensures(J::replay, (journal, stream), replay)
                    &&& match replay {
                        Ok(events) => outcome is Ok && final(self)@ == recovered(
                            old(self)@,
                            events@,
                        ),
                        Err(e) => outcome == Err::<(), StorageError>(e) && final(self)@ == old(self)@,
                    }
                },
    {
        let replay = journal.replay(self.shard_entity.as_str());
        self.restore(replay)
    }

    /// Takes in what a replay of the journal gave: the events where it gave
    /// them, as `recovered` says, and nothing where it failed.
    pub fn restore(&mut self, replay: Result<Vec<ShardAllocated>, StorageError>) -> (outcome:
        Result<(), StorageError>)
        requires
            old(self).wf(),
        ensures
            final(self).wf(),
            final(self).stream_id() == old(self).stream_id(),
            (match replay {
                Ok(events) => outcome is Ok && final(self)@ == recovered(old(self)@, events@),
                Err(e) => outcome == Err::<(), StorageError>(e) && final(self)@ == old(self)@,
            }),
    {
        match replay {
            Ok(events) => {
                let ghost log = events@;
                let ghost held = self.table@;
                let mut table = events;
                table.append(&mut self.table);
                self.table = table;
                proof {
                    assert(self.table@ =~= log + held);
                    assert forall|shard: ShardId|
                        assigned(log + held, shard) == match assigned(log, shard) {
                            Some(node) => Some(node),
                            None => assigned(held, shard),
                        } by {
                        lemma_assigned_concat(log, held, shard);
                    }
                    assert(replayed(log + held) =~= replayed(held).union_prefer_right(
                        replayed(log),
                    ));
                }
                Ok(())
            },
            Err(e) => Err(e),
        }
    }

    /// What is to be done about a request to allocate `shard_id`.
    pub fn plan_allocation(&self, shard_id: ShardId) -> (plan: AllocationPlan)
        ensures
            plan == plan_of(self@, shard_id),
            plan matches AllocationPlan::Persist(node) ==> is_lowest(self@.hosts.dom(), node),
            plan is NoHost ==> self@.hosts == Map::<NodeId, HostView>::empty(),
    {
        match self.shard_location(shard_id) {
            Some(node) => AllocationPlan::Known(node),
            None => match self.select_host() {
                Some(node) => AllocationPlan::Persist(node),
                None => AllocationPlan::NoHost,
            },
        }
    }

    /// Ends an allocation for which the decision that `shard_id` goes to
    /// `node_id` was handed to the journal. Only a decision that is durable
    /// enters the table and is announced as `Allocated`.
    pub fn complete_allocation(
        &mut self,
        shard_id: ShardId,
        node_id: NodeId,
        written: Result<(), StorageError>,
    ) -> (result: AllocateShardResult)
        requires
            old(self).wf(),
        ensures
            final(self).wf(),
            final(self).stream_id() == old(self).stream_id(),
            (final(self)@, result) == completed(old(self)@, shard_id, node_id, written is Ok),
    {
        match written {
            Err(_) => AllocateShardResult::Failed,
            Ok(_) => match self.shard_location(shard_id) {
                Some(known) => AllocateShardResult::AlreadyAllocated(known),
                None => {
                    proof {
                        lemma_replayed_push(
                            self.table@,
                            ShardAllocated { shard_id, node_id },
                        );
                    }
                    self.table.push(ShardAllocated { shard_id, node_id });
                    AllocateShardResult::Allocated(node_id)
                },
            },
        }
    }

    /// Answers a request to allocate `shard_id`. A shard that is assigned
    /// stays where it is, and the journal is not touched. Nor is it where no
    /// host is known: the answer is `Failed` then. Else the shard goes to
    /// the host that `select_host` names: the decision is appended to the
    /// stream of this coordinator, by one call of the journal, and the
    /// answer is what `complete_allocation` makes of the outcome of that
    /// write. Where the write fails the answer is `Failed` and nothing
    /// changes.
    pub fn allocate_shard<J: Journal>(&mut self, shard_id: ShardId, journal: &mut J) -> (result:
        AllocateShardResult)
        requires
            old(self).wf(),
        ensures
            final(self).wf(),
            final(self).stream_id() == old(self).stream_id(),
            allocation_ended(
                old(self)@,
                old(journal).events(old(self).stream_id()),
                shard_id,
                true,
                final(self)@,
                result,
                final(journal).events(old(self).stream_id()),
            ) || allocation_ended(
                old(self)@,
                old(journal).events(old(self).stream_id()),
                shard_id,
                false,
                final(self)@,
                result,
                final(journal).events(old(self).stream_id()),
            ),
            plan_of(old(self)@, shard_id) !is Persist ==> *final(journal) == *old(journal),
            plan_of(old(self)@, shard_id) matches AllocationPlan::Persist(node) ==> is_lowest(
                old(self)@.hosts.dom(),
                node,
            ),
            forall|other: Seq<char>|
                other != old(self).stream_id() ==> #[trigger] final(journal).events(other) == old(journal).events(other),
            plan_of(old(self)@, shard_id) is NoHost ==> old(self)@.hosts == Map::<
                NodeId,
                HostView,
            >::empty(),
            plan_of(old(self)@, shard_id) matches AllocationPlan::Persist(node) ==> exists|
                store: &mut J,
                stream: &str,
                written: Result<(), StorageError>,
            |
                {
                    &&& *store == *old(journal)
                    &&& *final(store) == *final(journal)
                    &&& stream@ == old(self).stream_id()
                    &&& #[trigger] call_ensures(
                        J::append,
                        (store, stream, (ShardAllocated { shard_id: shard_id, node_id: node })),
                        written,
                    )
                    &&& (final(self)@, result) == completed(
                        old(self)@,
                        shard_id,
                        node,
                        written is Ok,
                    )
                },
    {
        match self.plan_allocation(shard_id) {
            AllocationPlan::Known(node) => AllocateShardResult::AlreadyAllocated(node),
            AllocationPlan::NoHost => AllocateShardResult::Failed,
            AllocationPlan::Persist(node) => {
                let event = ShardAllocated { shard_id, node_id: node };
                let written = journal.append(self.shard_entity.as_str(), event);
                self.complete_allocation(shard_id, node, written)
            },
        }
    }
}

/// A table has a lowest host as soon as it has a host.
pub proof fn lemma_some_host_is_lowest(hosts: Map<NodeId, HostView>, node: NodeId)
    requires
        hosts.contains_key(node),
    ensures
        lowest_node(hosts) is Some,
    decreases node,
{
    if !is_lowest(hosts.dom(), node) {
        let lower = choose|other: NodeId| hosts.dom().contains(other) && !(node <= other);
        lemma_some_host_is_lowest(hosts, lower);
    }
}

/// Allocation is idempotent, also across a restart of the coordinator.
///
/// Take a coordinator that knows the host `host`, whose table holds what its
/// journal holds, and a shard that it has not assigned. Where the decision
/// can be written, the first request to allocate the shard is answered with
/// `Allocated(n)` for a registered host `n`. Every later request is answered
/// with `AlreadyAllocated(n)` and changes nothing, whether or not the journal
/// can be written then. So is every request to a coordinator that was built
/// anew, with whatever hosts and table, and then replayed the journal.
pub proof fn lemma_allocation_is_idempotent(
    c: CoordinatorView,
    log: Seq<ShardAllocated>,
    shard: ShardId,
    host: NodeId,
    restarted: CoordinatorView,
    written_later: bool,
)
    requires
        covers(c.assignments, log),
        !c.assignments.contains_key(shard),
        c.hosts.contains_key(host),
    ensures
        ({
            let first = allocated(c, shard, true);
            let log_after = log.push(appended(c, shard, true).unwrap());
            let again = allocated(first.0, shard, written_later);
            let after_restart = allocated(recovered(restarted, log_after), shard, written_later);
            &&& first.1 matches AllocateShardResult::Allocated(node)
            &&& c.hosts.contains_key(node)
            &&& appended(c, shard, true) == Some(ShardAllocated { shard_id: shard, node_id: node })
            &&& covers(first.0.assignments, log_after)
            &&& again == (first.0, AllocateShardResult::AlreadyAllocated(node))
            &&& after_restart == (
                recovered(restarted, log_after),
                AllocateShardResult::AlreadyAllocated(node),
            )
        }),
{
    lemma_some_host_is_lowest(c.hosts, host);
    let node = lowest_node(c.hosts).unwrap();
    assert(is_lowest(c.hosts.dom(), node));
    let event = ShardAllocated { shard_id: shard, node_id: node };
    lemma_replayed_push(log, event);
    assert(!replayed(log).contains_key(shard));
}

/// Registration is idempotent per node: registering a node again changes
/// nothing, whatever is reported with it.
pub proof fn lemma_add_host_is_idempotent(
    c: CoordinatorView,
    host: HostView,
    shards: Set<ShardId>,
    again: HostView,
    shards_again: Set<ShardId>,
)
    requires
        again.node_id == host.node_id,
    ensures
        host_added(host_added(c, host, shards), again, shards_again) == host_added(c, host, shards),
{
}

/// An assignment, once made, is never changed by a request to allocate, by
/// the registration of a host or by the report of a host: each shard has at
/// most one host, and keeps it.
pub proof fn lemma_assignments_are_kept(
    c: CoordinatorView,
    shard: ShardId,
    other: ShardId,
    written: bool,
    host: HostView,
    reported: Set<ShardId>,
)
    requires
        c.assignments.contains_key(shard),
    ensures
        allocated(c, other, written).0.assignments.contains_key(shard),
        allocated(c, other, written).0.assignments[shard] == c.assignments[shard],
        host_added(c, host, reported).assignments.contains_key(shard),
        host_added(c, host, reported).assignments[shard] == c.assignments[shard],
{
}

} // verus!
