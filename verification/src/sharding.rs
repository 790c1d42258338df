//! The sharding facade: one entry point per node, which finds or makes the
//! home of an entity and routes messages to it.

use crate::actor::{
    copy_bytes, ActorContext, ActorFactory, ActorId, ActorRecipe, ActorRef,
};
use crate::context::RemoteActorContext;
use crate::coordinator::{
    allocation_ended, filled, host_added, recovered, replayed, AllocateShardResult,
    CoordinatorView, ShardCoordinator, ShardHostState,
};
use crate::host::{
    request_ended, EntityRequest, EntityRequestError, EntityRequestView, ShardHost, ShardHostView,
};
use crate::journal::{Journal, ShardAllocated, StorageError};
use crate::registry::{identifier_for, HandlerEntryView, HandlerKey, HandlerRegistry};
use crate::shard::{shard_for, shard_of, NodeId, ShardId};
use vstd::prelude::*;

verus! {

/// A handle to one entity, wherever it lives: the entity, the shard that
/// owns it, the node that hosts the shard (none where the shard could not be
/// allocated), and the recipe of the entity.
#[derive(Debug)]
pub struct Sharded {
    pub actor_id: ActorId,
    pub shard_id: ShardId,
    pub node_id: Option<NodeId>,
    pub recipe: Option<Vec<u8>>,
}

/// What became of a message that was sent through a handle.
#[derive(Debug)]
pub enum Routed {
    /// The entity lives on this node and answered.
    Replied(Vec<u8>),
    /// The message was not answered.
    Failed(EntityRequestError),
    /// The entity lives on another node: the request is to be sent there.
    Forward { node_id: NodeId, request: EntityRequest },
}

/// The node that an answer of the coordinator names.
pub open spec fn located(result: AllocateShardResult) -> Option<NodeId> {
    match result {
        AllocateShardResult::Allocated(node) => Some(node),
        AllocateShardResult::AlreadyAllocated(node) => Some(node),
        AllocateShardResult::Failed => None,
    }
}

/// The host after the coordinator answered a request for `shard` with
/// `result`: where the shard lives on the node `local`, the host hosts it.
pub open spec fn host_after(
    host: ShardHostView,
    local: NodeId,
    shard: ShardId,
    result: AllocateShardResult,
) -> ShardHostView {
    if located(result) == Some(local) {
        ShardHostView { hosted_shards: host.hosted_shards.insert(shard), ..host }
    } else {
        host
    }
}

/// The request that carries a serialized message of `message_type` to the
/// entity behind `target`: none unless the pair of the actor type
/// `shard_entity` and the message type is registered.
pub open spec fn request_for(
    handlers: Seq<HandlerEntryView>,
    shard_entity: Seq<char>,
    target: Sharded,
    message_type: Seq<char>,
    message: Seq<u8>,
) -> Option<EntityRequestView> {
    match identifier_for(
        handlers,
        HandlerKey { actor_type: shard_entity, message_type: message_type },
    ) {
        Some(identifier) => Some(
            EntityRequestView {
                actor_id: target.actor_id@,
                message_type: identifier,
                message: message,
                recipe: match target.recipe {
                    Some(bytes) => Some(bytes@),
                    None => None,
                },
            },
        ),
        None => None,
    }
}

/// The entry point to the sharded entities of one actor type on one node.
pub struct Sharding<C: ActorContext, F: ActorFactory, J: Journal> {
    node_id: NodeId,
    node_tag: String,
    remote: RemoteActorContext<C>,
    host: ShardHost<F>,
    coordinator: ShardCoordinator,
    journal: J,
}

impl<C: ActorContext, F: ActorFactory, J: Journal> Sharding<C, F, J> {
    /// The node that this facade runs on.
    pub closed spec fn local_node(&self) -> NodeId {
        self.node_id
    }

    /// The registered handlers.
    pub closed spec fn handlers(&self) -> Seq<HandlerEntryView> {
        self.remote.handlers()
    }

    /// The shard host of this node.
    pub open spec fn resident(&self) -> ShardHostView {
        self.lodger()@
    }

    /// The coordinator.
    pub open spec fn table(&self) -> CoordinatorView {
        self.authority()@
    }

    /// The shard host of this node, with its actors.
    pub closed spec fn lodger(&self) -> ShardHost<F> {
        self.host
    }

    /// The coordinator, as a value.
    pub closed spec fn authority(&self) -> ShardCoordinator {
        self.coordinator
    }

    /// The journal of the coordinator.
    pub closed spec fn store(&self) -> J {
        self.journal
    }

    /// The durable decisions of the coordinator.
    pub open spec fn log(&self) -> Seq<ShardAllocated> {
        self.store().events(self.table_stream())
    }

    /// Every value that `start` produces is valid, and every method keeps it
    /// so.
    pub closed spec fn wf(&self) -> bool {
        &&& self.remote.wf()
        &&& self.host.wf()
        &&& self.coordinator.wf()
        &&& self.coordinator.stream_id() == self.host@.shard_entity
    }

    /// Starts sharding for the entities of the actor type `shard_entity` on
    /// the node `node_id`: an empty shard host, and a coordinator that knows
    /// this node as its one host and has replayed `journal`. The journal is
    /// asked once for the replay of the stream `shard_entity`. Where it gives
    /// the events, the start succeeds. Where it fails, the start fails with
    /// the error of the replay.
    pub fn start(
        node_id: NodeId,
        node_tag: &str,
        shard_entity: &str,
        shard_count: ShardId,
        remote: RemoteActorContext<C>,
        factory: F,
        journal: J,
    ) -> (started: Result<Self, StorageError>)
        requires
            remote.wf(),
        ensures
            started matches Ok(sharding) ==> {
                &&& sharding.wf()
                &&& sharding.local_node() == node_id
                &&& sharding.handlers() == remote.handlers()
                &&& sharding.log() == journal.events(shard_entity@)
                &&& sharding.resident() == (ShardHostView {
                    shard_entity: shard_entity@,
                    shard_count: shard_count,
                    entities: Seq::empty(),
                    hosted_shards: Set::empty(),
                    factory_calls: 0,
                })
                &&& sharding.table().hosts.dom() == set![node_id]
                &&& sharding.table().assignments == replayed(
                    journal.events(shard_entity@),
                )
            },
            exists|stream: &str, replay: Result<Vec<ShardAllocated>, StorageError>|
                {
                    &&& stream@ == shard_entity@
                    &&& #[trigger] call_ensures(J::replay, (&journal, stream), replay)
                    &&& match replay {
                        Ok(events) => started is Ok && started.unwrap().store() == journal
                            && started.unwrap().table().assignments == replayed(events@),
                        Err(e) => started matches Err(failure) && failure == e,
                    }
                },
    {
        let host = ShardHost::new(shard_entity.to_owned(), factory, shard_count);
        let mut sharding = Sharding {
            node_id,
            node_tag: node_tag.to_owned(),
            remote,
            host,
            coordinator: ShardCoordinator::new(shard_entity.to_owned()),
            journal,
        };
        match sharding.restart_coordinator() {
            Ok(_) => {
                proof {
                    assert(sharding.table().hosts.dom() =~= set![node_id]);
                    assert(sharding.table().assignments =~= replayed(
                        journal.events(shard_entity@),
                    ));
                }
                Ok(sharding)
            },
            Err(e) => Err(e),
        }
    }

    /// Replaces the coordinator by one that is built anew: it knows this node
    /// as its one host, replays the journal, and then takes in what the
    /// shard host of this node reports. The journal is asked once for the
    /// replay of the stream of the coordinator. Where it gives the events,
    /// the restart succeeds. Where it fails, the restart fails with the
    /// error of the replay, and the coordinator stays as it was.
    pub fn restart_coordinator(&mut self) -> (outcome: Result<(), StorageError>)
        requires
            old(self).wf(),
        ensures
            final(self).wf(),
            final(self).local_node() == old(self).local_node(),
            final(self).handlers() == old(self).handlers(),
            final(self).resident() == old(self).resident(),
            final(self).log() == old(self).log(),
            outcome is Err ==> final(self).table() == old(self).table(),
            outcome is Ok ==> final(self).table().hosts.dom() == set![old(self).local_node()]
                && final(self).table().assignments == filled(
                replayed(old(self).log()),
                old(self).local_node(),
                old(self).resident().hosted_shards,
            ),
            final(self).store() == old(self).store(),
            final(self).table_stream() == old(self).table_stream(),
            exists|stream: &str, replay: Result<Vec<ShardAllocated>, StorageError>|
                {
                    &&& stream@ == old(self).table_stream()
                    &&& #[trigger] call_ensures(J::replay, (&old(self).store(), stream), replay)
                    &&& match replay {
                        Ok(events) => outcome is Ok && final(self).table().hosts.dom()
                            == set![old(self).local_node()] && final(self).table().assignments
                            == filled(
                            replayed(events@),
                            old(self).local_node(),
                            old(self).resident().hosted_shards,
                        ),
                        Err(e) => outcome == Err::<(), StorageError>(e) && final(self).table()
                            == old(self).table(),
                    }
                },
    {
        let mut coordinator = ShardCoordinator::new(self.host.shard_entity().clone());
        coordinator.add_host(
            ShardHostState {
                node_id: self.node_id,
                node_tag: self.node_tag.clone(),
                shards: Vec::new(),
                actor: ActorRef::new("ShardHost", self.node_tag.as_str()),
            },
        );
        let ghost fresh = coordinator@;
        let recovery = coordinator.recover(&self.journal);
        let ghost witness = choose|stream: &str, replay: Result<Vec<ShardAllocated>, StorageError>|
            {
                &&& stream@ == old(self).table_stream()
                &&& #[trigger] call_ensures(J::replay, (&self.journal, stream), replay)
                &&& match replay {
                    Ok(events) => recovery is Ok && coordinator@ == recovered(fresh, events@),
                    Err(e) => recovery == Err::<(), StorageError>(e) && coordinator@ == fresh,
                }
            };
        proof {
            assert(Seq::<ShardId>::empty().to_set() =~= Set::<ShardId>::empty());
            assert(fresh.assignments =~= Map::<ShardId, NodeId>::empty());
        }
        match recovery {
            Ok(_) => {
                let stats = self.host.get_stats();
                let _ = coordinator.reconcile(self.node_id, &stats);
                self.coordinator = coordinator;
                proof {
                    assert(self.table().hosts.dom() =~= set![self.node_id]);
                    assert(self.table().assignments =~= filled(
                        replayed(old(self).log()),
                        self.node_id,
                        old(self).resident().hosted_shards,
                    ));
                    let events = witness.1->Ok_0;
                    assert(recovered(fresh, events@).assignments =~= replayed(events@));
                    assert(self.table().assignments =~= filled(
                        replayed(events@),
                        self.node_id,
                        old(self).resident().hosted_shards,
                    ));
                    assert(call_ensures(J::replay, (&old(self).store(), witness.0), witness.1));
                }
                Ok(())
            },
            Err(e) => {
                proof {
                    assert(call_ensures(J::replay, (&old(self).store(), witness.0), witness.1));
                }
                Err(e)
            },
        }
    }

    /// Tells the coordinator of a host on another node, as
    /// `ShardCoordinator::add_host` does.
    pub fn add_host(&mut self, host: ShardHostState)
        requires
            old(self).wf(),
        ensures
            final(self).wf(),
            final(self).local_node() == old(self).local_node(),
            final(self).handlers() == old(self).handlers(),
            final(self).resident() == old(self).resident(),
            final(self).log() == old(self).log(),
            final(self).table() == host_added(old(self).table(), host.host(), host.shards@.to_set()),
    {
        self.coordinator.add_host(host);
    }

    /// Asks the coordinator to allocate `shard_id`, by one call of
    /// `ShardCoordinator::allocate_shard` with the journal of this facade.
    /// Where the shard lives on this node, the shard host of this node hosts
    /// it from now on.
    pub fn allocate(&mut self, shard_id: ShardId) -> (result: AllocateShardResult)
        requires
            old(self).wf(),
        ensures
            final(self).wf(),
            final(self).local_node() == old(self).local_node(),
            final(self).handlers() == old(self).handlers(),
            allocation_ended(
                old(self).table(),
                old(self).log(),
                shard_id,
                true,
                final(self).table(),
                result,
                final(self).log(),
            ) || allocation_ended(
                old(self).table(),
                old(self).log(),
                shard_id,
                false,
                final(self).table(),
                result,
                final(self).log(),
            ),
            final(self).resident() == host_after(
                old(self).resident(),
                old(self).local_node(),
                shard_id,
                result,
            ),
            exists|coordinator: &mut ShardCoordinator, store: &mut J|
                {
                    &&& *coordinator == old(self).authority()
                    &&& *final(coordinator) == final(self).authority()
                    &&& *store == old(self).store()
                    &&& *final(store) == final(self).store()
                    &&& #[trigger] call_ensures(
                        ShardCoordinator::allocate_shard::<J>,
                        (coordinator, shard_id, store),
                        result,
                    )
                },
    {
        let result = self.coordinator.allocate_shard(shard_id, &mut self.journal);
        let node = match result {
            AllocateShardResult::Allocated(node) => Some(node),
            AllocateShardResult::AlreadyAllocated(node) => Some(node),
            AllocateShardResult::Failed => None,
        };
        match node {
            Some(node) => {
                if node == self.node_id {
                    self.host.start_shard(shard_id);
                }
            },
            None => {},
        }
        result
    }

    /// A handle to the entity `actor_id`: finds the node that hosts the
    /// shard of the entity, by one call of `allocate` for that shard, which
    /// allocates the shard where it is unassigned. The handle carries the
    /// bytes that the recipe writes.
    pub fn get(&mut self, actor_id: String, recipe: Option<F::Recipe>) -> (handle: Sharded)
        requires
            old(self).wf(),
        ensures
            final(self).wf(),
            final(self).local_node() == old(self).local_node(),
            final(self).handlers() == old(self).handlers(),
            handle.actor_id@ == actor_id@,
            handle.shard_id == shard_of(actor_id@, old(self).resident().shard_count),
            recipe is None ==> handle.recipe is None,
            recipe matches Some(r) ==> call_ensures(
                <F::Recipe as ActorRecipe>::write_to_bytes,
                (&r,),
                handle.recipe,
            ),
            exists|me: &mut Self, result: AllocateShardResult|
                {
                    &&& *me == *old(self)
                    &&& *final(me) == *final(self)
                    &&& handle.node_id == located(result)
                    &&& #[trigger] call_ensures(
                        Sharding::<C, F, J>::allocate,
                        (me, handle.shard_id),
                        result,
                    )
                },
            exists|result: AllocateShardResult|
                {
                    &&& handle.node_id == located(result)
                    &&& final(self).resident() == host_after(
                        old(self).resident(),
                        old(self).local_node(),
                        handle.shard_id,
                        result,
                    )
                    &&& (allocation_ended(
                        old(self).table(),
                        old(self).log(),
                        handle.shard_id,
                        true,
                        final(self).table(),
                        result,
                        final(self).log(),
                    ) || allocation_ended(
                        old(self).table(),
                        old(self).log(),
                        handle.shard_id,
                        false,
                        final(self).table(),
                        result,
                        final(self).log(),
                    ))
                },
    {
        let shard_id = shard_for(actor_id.as_str(), self.host.shard_count());
        let result = self.allocate(shard_id);
        let node_id = match result {
            AllocateShardResult::Allocated(node) => Some(node),
            AllocateShardResult::AlreadyAllocated(node) => Some(node),
            AllocateShardResult::Failed => None,
        };
        let recipe = match recipe {
            Some(recipe) => recipe.write_to_bytes(),
            None => None,
        };
        Sharded { actor_id, shard_id, node_id, recipe }
    }

    /// The request that carries `message` to the entity behind `target`.
    pub fn request(&self, target: &Sharded, message_type: &str, message: Vec<u8>) -> (request:
        Option<EntityRequest>)
        ensures
            (match request {
                Some(r) => Some(r@),
                None => None,
            }) == request_for(
                self.handlers(),
                self.resident().shard_entity,
                *target,
                message_type@,
                message@,
            ),
    {
        let identifier = match self.remote.handler_name(
            self.host.shard_entity().as_str(),
            message_type,
        ) {
            Some(identifier) => identifier,
            None => {
                return None;
            },
        };
        let recipe = match &target.recipe {
            Some(bytes) => Some(copy_bytes(bytes.as_slice())),
            None => None,
        };
        Some(
            EntityRequest {
                actor_id: target.actor_id.clone(),
                message_type: identifier,
                message,
                recipe,
            },
        )
    }

    /// Sends a serialized message of `message_type` to the entity behind
    /// `target`.
    ///
    /// Where the message type is not remote-capable for the entities, or the
    /// shard of the entity has no host, the answer is
    /// `Failed(ActorUnavailable)` and nothing changes. Where the shard lives
    /// on another node, the request is handed back to be sent there, and
    /// nothing changes. Where it lives on this node, the request is handled
    /// by one call of `receive`, and what that gives is the answer.
    pub fn send(&mut self, target: &Sharded, message_type: &str, message: Vec<u8>) -> (routed:
        Routed)
        requires
            old(self).wf(),
        ensures
            final(self).wf(),
            final(self).local_node() == old(self).local_node(),
            final(self).handlers() == old(self).handlers(),
            final(self).table() == old(self).table(),
            final(self).log() == old(self).log(),
            (match (
                request_for(
                    old(self).handlers(),
                    old(self).resident().shard_entity,
                    *target,
                    message_type@,
                    message@,
                ),
                target.node_id,
            ) {
                (Some(request), Some(node)) => if node == old(self).local_node() {
                    &&& routed !is Forward
                    &&& request_ended(
                        old(self).resident(),
                        target.actor_id@,
                        final(self).resident(),
                        routed is Failed,
                    )
                } else {
                    &&& routed matches Routed::Forward { node_id, request: forwarded }
                    &&& node_id == node
                    &&& forwarded@ == request
                    &&& final(self).resident() == old(self).resident()
                },
                _ => {
                    &&& routed matches Routed::Failed(EntityRequestError::ActorUnavailable)
                    &&& final(self).resident() == old(self).resident()
                },
            }),
            request_for(
                old(self).handlers(),
                old(self).resident().shard_entity,
                *target,
                message_type@,
                message@,
            ) is Some && target.node_id == Some(old(self).local_node()) ==> exists|
                me: &mut Self,
                request: EntityRequest,
                received: Result<Vec<u8>, EntityRequestError>,
            |
                {
                    &&& *me == *old(self)
                    &&& *final(me) == *final(self)
                    &&& Some(request@) == request_for(
                        old(self).handlers(),
                        old(self).resident().shard_entity,
                        *target,
                        message_type@,
                        message@,
                    )
                    &&& #[trigger] call_ensures(
                        Sharding::<C, F, J>::receive,
                        (me, request),
                        received,
                    )
                    &&& match received {
                        Ok(bytes) => routed == Routed::Replied(bytes),
                        Err(e) => routed == Routed::Failed(e),
                    }
                },
            !(request_for(
                old(self).handlers(),
                old(self).resident().shard_entity,
                *target,
                message_type@,
                message@,
            ) is Some && target.node_id == Some(old(self).local_node())) ==> *final(self) == *old(self),
    {
        let request = match self.request(target, message_type, message) {
            Some(request) => request,
            None => {
                return Routed::Failed(EntityRequestError::ActorUnavailable);
            },
        };
        match target.node_id {
            None => Routed::Failed(EntityRequestError::ActorUnavailable),
            Some(node) => {
                if node == self.node_id {
                    match self.receive(request) {
                        Ok(bytes) => Routed::Replied(bytes),
                        Err(e) => Routed::Failed(e),
                    }
                } else {
                    Routed::Forward { node_id: node, request }
                }
            },
        }
    }

    /// Handles a request for an entity of this node that came in from
    /// another node, or from `send`: by one call of
    /// `ShardHost::entity_request` on the shard host of this node, with the
    /// registered handlers and the request.
    pub fn receive(&mut self, request: EntityRequest) -> (reply: Result<Vec<u8>, EntityRequestError>)
        requires
            old(self).wf(),
        ensures
            final(self).wf(),
            final(self).local_node() == old(self).local_node(),
            final(self).handlers() == old(self).handlers(),
            final(self).table() == old(self).table(),
            final(self).log() == old(self).log(),
            request_ended(old(self).resident(), request.actor_id@, final(self).resident(), reply is Err),
            !old(self).resident().entities.contains(request.actor_id@) && request.recipe is None
                ==> final(self).resident() == old(self).resident() && (reply matches Err(
                EntityRequestError::CreationFailed(crate::actor::ActorCreationErr::InvalidRecipe),
            )),
            final(self).authority() == old(self).authority(),
            final(self).store() == old(self).store(),
            exists|host: &mut ShardHost<F>, handlers: &HandlerRegistry|
                {
                    &&& *host == old(self).lodger()
                    &&& *final(host) == final(self).lodger()
                    &&& handlers@ == old(self).handlers()
                    &&& handlers.wf()
                    &&& #[trigger] call_ensures(
                        ShardHost::<F>::entity_request,
                        (host, handlers, request),
                        reply,
                    )
                },
    {
        self.host.entity_request(self.remote.registry(), request)
    }

    /// The shard host of this node.
    pub fn host(&self) -> (host: &ShardHost<F>)
        requires
            self.wf(),
        ensures
            host.wf(),
            host@ == self.resident(),
    {
        &self.host
    }

    /// The coordinator.
    pub fn coordinator(&self) -> (coordinator: &ShardCoordinator)
        requires
            self.wf(),
        ensures
            coordinator.wf(),
            coordinator@ == self.table(),
    {
        &self.coordinator
    }

    /// The journal of the coordinator.
    pub fn journal(&self) -> (journal: &J)
        ensures
            journal.events(self.table_stream()) == self.log(),
    {
        &self.journal
    }

    /// The remote context of this node.
    pub fn remote(&self) -> (remote: &RemoteActorContext<C>)
        requires
            self.wf(),
        ensures
            remote.wf(),
            remote.handlers() == self.handlers(),
    {
        &self.remote
    }

    /// The stream of the journal that holds the decisions of the
    /// coordinator.
    pub open spec fn table_stream(&self) -> Seq<char> {
        self.authority().stream_id()
    }
}

} // verus!
