//! The shard host: the entity actors that live on one node.
//!
//! An entity is constructed on the first request that is addressed to it,
//! from the recipe that comes with the request, and lives for as long as the
//! host does. No entity exists twice on a host.

use crate::actor::{
    Actor, ActorCreationErr, ActorFactory, ActorId, ActorRecipe, HandlerOutcome,
};
use crate::handler::{completion, deliver, Completion, CompletionView};
use crate::registry::{handler_for, HandlerEntryView, HandlerRegistry};
use crate::shard::{shard_for, shard_of, ShardId};
use vstd::prelude::*;

verus! {

/// What a shard host reports of itself: the shards it hosts, in ascending
/// order and each once.
#[derive(Debug)]
pub struct HostStats {
    pub hosted_shards: Vec<ShardId>,
}

/// A message for an entity: the entity, the identifier of the handler of the
/// message, the serialized message, and the recipe from which the entity is
/// constructed if it does not exist yet.
#[derive(Debug)]
pub struct EntityRequest {
    pub actor_id: ActorId,
    pub message_type: String,
    pub message: Vec<u8>,
    pub recipe: Option<Vec<u8>>,
}

/// Mathematical value of an `EntityRequest`.
pub ghost struct EntityRequestView {
    pub actor_id: Seq<char>,
    pub message_type: Seq<char>,
    pub message: Seq<u8>,
    pub recipe: Option<Seq<u8>>,
}

impl View for EntityRequest {
    type V = EntityRequestView;

    open spec fn view(&self) -> EntityRequestView {
        EntityRequestView {
            actor_id: self.actor_id@,
            message_type: self.message_type@,
            message: self.message@,
            recipe: match self.recipe {
                Some(bytes) => Some(bytes@),
                None => None,
            },
        }
    }
}

/// Why a request to an entity was not answered.
#[derive(Debug, Clone, Copy, PartialEq, Eq, Structural)]
pub enum EntityRequestError {
    /// The entity did not exist and could not be constructed.
    CreationFailed(ActorCreationErr),
    /// No handler is registered for the message and the entities of this
    /// host, or the entity delivered no result.
    ActorUnavailable,
}

/// Each element is lower than the next.
pub open spec fn ascending(shards: Seq<ShardId>) -> bool {
    forall|i: int, j: int| 0 <= i < j < shards.len() ==> shards[i] < shards[j]
}

/// Mathematical value of a shard host.
pub ghost struct ShardHostView {
    /// The tag of the actor type of the entities.
    pub shard_entity: Seq<char>,
    /// The declared number of shards.
    pub shard_count: ShardId,
    /// The identifiers of the entities, in the order of their construction.
    pub entities: Seq<Seq<char>>,
    /// The shards that this host hosts.
    pub hosted_shards: Set<ShardId>,
    /// How often this host has asked its factory for an actor.
    pub factory_calls: nat,
}

/// The host after it took in the actor of the entity `entity_id`: the entity
/// is the newest, and its shard is hosted.
pub open spec fn entity_admitted(host: ShardHostView, entity_id: Seq<char>) -> ShardHostView {
    ShardHostView {
        entities: host.entities.push(entity_id),
        hosted_shards: host.hosted_shards.insert(
            shard_of(entity_id, host.shard_count) as ShardId,
        ),
        ..host
    }
}

/// The host after its factory made the actor of the entity `entity_id`: the
/// factory was asked once more, and the entity was taken in.
pub open spec fn entity_started(host: ShardHostView, entity_id: Seq<char>) -> ShardHostView {
    ShardHostView {
        factory_calls: host.factory_calls + 1,
        ..entity_admitted(host, entity_id)
    }
}

/// An entity is constructed once: after the request that constructed it, it
/// is on the host, at the position at which it was put, and the factory was
/// asked once more.
pub proof fn lemma_entity_is_constructed_once(host: ShardHostView, entity_id: Seq<char>)
    requires
        !host.entities.contains(entity_id),
    ensures
        entity_started(host, entity_id).entities.contains(entity_id),
        position_of(entity_started(host, entity_id).entities, entity_id) == host.entities.len(),
        entity_started(host, entity_id).factory_calls == host.factory_calls + 1,
{
    let after = entity_started(host, entity_id).entities;
    assert(after[host.entities.len() as int] == entity_id);
    let i = position_of(after, entity_id);
    if i < host.entities.len() {
        assert(host.entities[i] == entity_id);
    }
}

/// Whether a request for the entity `entity_id` that met the host `before`
/// can have left the host `after`, where `failed` says whether the request
/// was answered with an error. An entity that exists is left alone, and the
/// factory is not asked. For one that does not, the factory is asked at most
/// once: either it made the actor, or the request failed and nothing but the
/// count of factory calls changed.
pub open spec fn request_ended(
    before: ShardHostView,
    entity_id: Seq<char>,
    after: ShardHostView,
    failed: bool,
) -> bool {
    if before.entities.contains(entity_id) {
        after == before
    } else {
        ||| after == entity_started(before, entity_id)
        ||| {
            &&& failed
            &&& after == (ShardHostView { factory_calls: after.factory_calls, ..before })
            &&& before.factory_calls <= after.factory_calls <= before.factory_calls + 1
        }
    }
}

/// The position of the entity `entity_id` among `entities`.
pub open spec fn position_of(entities: Seq<Seq<char>>, entity_id: Seq<char>) -> int {
    choose|i: int| 0 <= i < entities.len() && entities[i] == entity_id
}

/// Adds `shard` to the ascending `shards`, at its place, unless it is there.
pub fn insert_shard(shards: &mut Vec<ShardId>, shard: ShardId)
    requires
        ascending(old(shards)@),
    ensures
        ascending(final(shards)@),
        final(shards)@.to_set() == old(shards)@.to_set().insert(shard),
        old(shards)@.contains(shard) ==> final(shards)@ == old(shards)@,
{
    let ghost before = shards@;
    let mut i: usize = 0;
    while i < shards.len() && shards[i] < shard
        invariant
            i <= shards.len(),
            shards@ == before,
            forall|j: int| 0 <= j < i ==> before[j] < shard,
        decreases shards.len() - i,
    {
        i += 1;
    }
    if i < shards.len() && shards[i] == shard {
        assert(before[i as int] == shard);
        assert(before.to_set().insert(shard) =~= before.to_set());
        return ;
    }
    shards.insert(i, shard);
    proof {
        let after = shards@;
        assert(after == before.insert(i as int, shard));
        assert forall|a: int, b: int| 0 <= a < b < after.len() implies after[a] < after[b] by {
            if a < i && b == i {
                assert(before[a] < shard);
            } else if a < i && b > i {
                assert(before[a] < before[b - 1]);
            } else if a == i {
                assert(shard < before[b - 1]) by {
                    assert(before[i as int] <= before[b - 1]) by {
                        if (i as int) < b - 1 {
                            assert(before[i as int] < before[b - 1]);
                        }
                    }
                }
            } else if a > i {
                assert(before[a - 1] < before[b - 1]);
            } else {
                assert(before[a] < before[b]);
            }
        }
        assert forall|s: ShardId| after.to_set().contains(s) <==> before.to_set().insert(
            shard,
        ).contains(s) by {
            if after.contains(s) {
                let k = choose|k: int| 0 <= k < after.len() && after[k] == s;
                if k < i {
                    assert(before[k] == s);
                } else if k > i {
                    assert(before[k - 1] == s);
                }
            }
            if before.contains(s) {
                let k = choose|k: int| 0 <= k < before.len() && before[k] == s;
                if k < i {
                    assert(after[k] == s);
                } else {
                    assert(after[k + 1] == s);
                }
            }
            assert(after[i as int] == shard);
        }
        assert(after.to_set() =~= before.to_set().insert(shard));
        if before.contains(shard) {
            let k = choose|k: int| 0 <= k < before.len() && before[k] == shard;
            if k < i {
                assert(before[k] < shard);
            } else if (i as int) < k {
                assert(before[i as int] < before[k]);
            }
        }
    }
}

struct Entity<A> {
    id: ActorId,
    actor: A,
}

/// The entity actors of one actor type that live on this node, and the
/// shards that this node hosts.
pub struct ShardHost<F: ActorFactory> {
    shard_entity: String,
    shard_count: ShardId,
    factory: F,
    hosted_shards: Vec<ShardId>,
    entities: Vec<Entity<F::Actor>>,
    factory_calls: Ghost<nat>,
}

impl<F: ActorFactory> View for ShardHost<F> {
    type V = ShardHostView;

    closed spec fn view(&self) -> ShardHostView {
        ShardHostView {
            shard_entity: self.shard_entity@,
            shard_count: self.shard_count,
            entities: Seq::new(self.entities.len() as nat, |i: int| self.entities[i].id@),
            hosted_shards: self.hosted_shards@.to_set(),
            factory_calls: self.factory_calls@,
        }
    }
}

impl<F: ActorFactory> ShardHost<F> {
    /// The actor of the entity at `position`.
    pub closed spec fn actor_at(&self, position: int) -> F::Actor {
        self.entities[position].actor
    }

    /// The factory of this host.
    pub closed spec fn factory(&self) -> F {
        self.factory
    }

    /// Every value that `new` produces is valid, and every method keeps it
    /// so: no entity exists twice, and the shard of every entity is hosted.
    pub closed spec fn wf(&self) -> bool {
        &&& ascending(self.hosted_shards@)
        &&& forall|i: int, j: int|
            0 <= i < j < self@.entities.len() ==> self@.entities[i] != self@.entities[j]
        &&& forall|i: int|
            0 <= i < self@.entities.len() ==> self@.hosted_shards.contains(
                shard_of(#[trigger] self@.entities[i], self.shard_count) as ShardId,
            )
    }

    /// What `wf` says of the entities.
    pub proof fn lemma_entities(&self)
        requires
            self.wf(),
        ensures
            forall|i: int, j: int|
                0 <= i < j < self@.entities.len() ==> self@.entities[i] != self@.entities[j],
            forall|i: int|
                0 <= i < self@.entities.len() ==> self@.hosted_shards.contains(
                    shard_of(#[trigger] self@.entities[i], self@.shard_count) as ShardId,
                ),
    {
    }

    /// A host for the entities of the actor type `shard_entity`, with no
    /// entity and no shard, where `shard_count` shards are declared.
    pub fn new(shard_entity: String, factory: F, shard_count: ShardId) -> (host: ShardHost<F>)
        ensures
            host.wf(),
            host.factory() == factory,
            host@ == (ShardHostView {
                shard_entity: shard_entity@,
                shard_count: shard_count,
                entities: Seq::empty(),
                hosted_shards: Set::empty(),
                factory_calls: 0,
            }),
    {
        let host = ShardHost {
            shard_entity,
            shard_count,
            factory,
            hosted_shards: Vec::new(),
            entities: Vec::new(),
            factory_calls: Ghost(0),
        };
        assert(host@.entities =~= Seq::<Seq<char>>::empty());
        assert(host@.hosted_shards =~= Set::<ShardId>::empty());
        host
    }

    /// The tag of the actor type of the entities.
    pub fn shard_entity(&self) -> (tag: &String)
        ensures
            tag@ == self@.shard_entity,
    {
        &self.shard_entity
    }

    /// The declared number of shards.
    pub fn shard_count(&self) -> (count: ShardId)
        ensures
            count == self@.shard_count,
    {
        self.shard_count
    }

    /// The number of entities on this host.
    pub fn entity_count(&self) -> (n: usize)
        ensures
            n == self@.entities.len(),
    {
        self.entities.len()
    }

    /// Where the entity `actor_id` is, if it is on this host.
    pub fn find_entity(&self, actor_id: &str) -> (found: Option<usize>)
        ensures
            found is Some <==> self@.entities.contains(actor_id@),
            found matches Some(i) ==> i < self@.entities.len() && self@.entities[i as int]
                == actor_id@,
    {
        let wanted = actor_id.to_owned();
        let mut i: usize = 0;
        while i < self.entities.len()
            invariant
                i <= self.entities.len(),
                wanted@ == actor_id@,
                forall|j: int| 0 <= j < i ==> self@.entities[j] != actor_id@,
            decreases self.entities.len() - i,
        {
            if self.entities[i].id == wanted {
                assert(self@.entities[i as int] == actor_id@);
                return Some(i);
            }
            i += 1;
        }
        None
    }

    /// Starts to host `shard_id`. A shard that is hosted stays so.
    pub fn start_shard(&mut self, shard_id: ShardId)
        requires
            old(self).wf(),
        ensures
            final(self).wf(),
            final(self).factory() == old(self).factory(),
            final(self)@ == (ShardHostView {
                hosted_shards: old(self)@.hosted_shards.insert(shard_id),
                ..old(self)@
            }),
            forall|i: int| #[trigger] final(self).actor_at(i) == old(self).actor_at(i),
    {
        insert_shard(&mut self.hosted_shards, shard_id);
        assert(self@.entities =~= old(self)@.entities);
    }

    /// Reports the shards that this host hosts: each once, in ascending
    /// order.
    pub fn get_stats(&self) -> (stats: HostStats)
        requires
            self.wf(),
        ensures
            ascending(stats.hosted_shards@),
            stats.hosted_shards@.to_set() == self@.hosted_shards,
    {
        let mut hosted: Vec<ShardId> = Vec::new();
        let mut i: usize = 0;
        while i < self.hosted_shards.len()
            invariant
                i <= self.hosted_shards.len(),
                hosted@ == self.hosted_shards@.take(i as int),
            decreases self.hosted_shards.len() - i,
        {
            hosted.push(self.hosted_shards[i]);
            proof {
                assert(self.hosted_shards@.take(i + 1) =~= self.hosted_shards@.take(i as int).push(
                    self.hosted_shards@[i as int],
                ));
            }
            i += 1;
        }
        proof {
            assert(self.hosted_shards@.take(self.hosted_shards.len() as int)
                =~= self.hosted_shards@);
        }
        HostStats { hosted_shards: hosted }
    }

    /// Takes in what the factory made for the entity `actor_id`, and says
    /// where the entity is. An actor becomes the newest entity of this host,
    /// and its shard is hosted. An error is handed back, and nothing changes.
    /// Where the entity exists already it stays, and the actor is dropped:
    /// no entity exists twice.
    pub fn admit_entity(&mut self, actor_id: &str, created: Result<F::Actor, ActorCreationErr>) -> (admitted:
        Result<usize, ActorCreationErr>)
        requires
            old(self).wf(),
        ensures
            final(self).wf(),
            final(self).factory() == old(self).factory(),
            forall|i: int|
                0 <= i < old(self)@.entities.len() ==> #[trigger] final(self).actor_at(i) == old(self).actor_at(i),
            (match created {
                Err(e) => admitted == Err::<usize, ActorCreationErr>(e) && final(self)@ == old(self)@,
                Ok(actor) => if old(self)@.entities.contains(actor_id@) {
                    &&& final(self)@ == old(self)@
                    &&& admitted is Ok
                    &&& admitted.unwrap() < old(self)@.entities.len()
                    &&& old(self)@.entities[admitted.unwrap() as int] == actor_id@
                } else {
                    &&& final(self)@ == entity_admitted(old(self)@, actor_id@)
                    &&& admitted == Ok::<usize, ActorCreationErr>(
                        old(self)@.entities.len() as usize,
                    )
                    &&& final(self).actor_at(old(self)@.entities.len() as int) == actor
                },
            }),
    {
        let actor = match created {
            Ok(actor) => actor,
            Err(e) => {
                return Err(e);
            },
        };
        if let Some(position) = self.find_entity(actor_id) {
            return Ok(position);
        }
        let ghost before = self@;
        let position = self.entities.len();
        let shard = shard_for(actor_id, self.shard_count);
        self.entities.push(Entity { id: actor_id.to_owned(), actor });
        insert_shard(&mut self.hosted_shards, shard);
        proof {
            assert(self@.entities =~= before.entities.push(actor_id@));
            assert(self@ == entity_admitted(before, actor_id@));
        }
        Ok(position)
    }

    /// Makes sure that the entity `actor_id` exists, and says where it is.
    ///
    /// An entity that exists is found, and the factory is not asked. An
    /// entity that does not exist is constructed from `recipe`. Where no
    /// recipe comes with the request the answer is `InvalidRecipe`. Else the
    /// recipe is read from its bytes; where that yields nothing the answer
    /// is `InvalidRecipe` too, and the factory is not asked. Else the
    /// factory is asked once, with the recipe that was read: the actor that
    /// it makes becomes the newest entity of this host, and its shard is
    /// hosted; the error that it gives is the answer, and only the count of
    /// factory calls changes.
    pub fn start_entity(&mut self, actor_id: &str, recipe: Option<Vec<u8>>) -> (started: Result<
        usize,
        ActorCreationErr,
    >)
        requires
            old(self).wf(),
        ensures
            final(self).wf(),
            final(self).factory() == old(self).factory(),
            forall|i: int|
                0 <= i < old(self)@.entities.len() ==> #[trigger] final(self).actor_at(i) == old(self).actor_at(i),
            old(self)@.entities.contains(actor_id@) ==> final(self)@ == old(self)@ && started is Ok,
            old(self)@.entities.contains(actor_id@) ==> (started matches Ok(i) ==> i < old(self)@.entities.len() && old(self)@.entities[i as int] == actor_id@),
            !old(self)@.entities.contains(actor_id@) ==> (match started {
                Ok(i) => i == old(self)@.entities.len() && final(self)@ == entity_started(
                    old(self)@,
                    actor_id@,
                ),
                Err(_) => final(self)@ == (ShardHostView {
                    factory_calls: final(self)@.factory_calls,
                    ..old(self)@
                }) && old(self)@.factory_calls <= final(self)@.factory_calls <= old(self)@.factory_calls + 1,
            }),
            !old(self)@.entities.contains(actor_id@) && recipe is None ==> final(self)@ == old(self)@ && (started matches Err(ActorCreationErr::InvalidRecipe)),
            old(self)@.entities.contains(actor_id@) ==> started == Ok::<usize, ActorCreationErr>(
                position_of(old(self)@.entities, actor_id@) as usize,
            ),
            !old(self)@.entities.contains(actor_id@) && recipe is Some ==> exists|
                bytes: Vec<u8>,
                read: Option<F::Recipe>,
            |
                {
                    &&& Some(bytes) == recipe
                    &&& #[trigger] call_ensures(
                        <F::Recipe as ActorRecipe>::read_from_bytes,
                        (bytes,),
                        read,
                    )
                    &&& match read {
                        None => final(self)@ == old(self)@ && (started matches Err(
                            ActorCreationErr::InvalidRecipe,
                        )),
                        Some(blueprint) => exists|
                            factory: &F,
                            created: Result<F::Actor, ActorCreationErr>,
                        |
                            {
                                &&& *factory == old(self).factory()
                                &&& #[trigger] call_ensures(
                                    <F as ActorFactory>::create,
                                    (factory, blueprint),
                                    created,
                                )
                                &&& match created {
                                    Ok(actor) => started == Ok::<usize, ActorCreationErr>(
                                        old(self)@.entities.len() as usize,
                                    ) && final(self)@ == entity_started(old(self)@, actor_id@)
                                        && final(self).actor_at(old(self)@.entities.len() as int)
                                        == actor,
                                    Err(e) => started == Err::<usize, ActorCreationErr>(e)
                                        && final(self)@ == (ShardHostView {
                                        factory_calls: old(self)@.factory_calls + 1,
                                        ..old(self)@
                                    }),
                                }
                            },
                    }
                },
    {
        if let Some(i) = self.find_entity(actor_id) {
            proof {
                let chosen = position_of(self@.entities, actor_id@);
                if chosen < i {
                    assert(self@.entities[chosen] != self@.entities[i as int]);
                } else if i < chosen {
                    assert(self@.entities[i as int] != self@.entities[chosen]);
                }
            }
            return Ok(i);
        }
        let bytes = match recipe {
            Some(bytes) => bytes,
            None => {
                return Err(ActorCreationErr::InvalidRecipe);
            },
        };
        let blueprint = match F::Recipe::read_from_bytes(bytes) {
            Some(blueprint) => blueprint,
            None => {
                return Err(ActorCreationErr::InvalidRecipe);
            },
        };
        proof {
            self.factory_calls@ = self.factory_calls@ + 1;
        }
        let created = self.factory.create(blueprint);
        proof {
            assert(self@.entities =~= old(self)@.entities);
        }
        self.admit_entity(actor_id, created)
    }

    /// Stops the entity `actor_id` and hands its actor back. The entities
    /// that were constructed after it move up by one place. An entity that
    /// is not on this host is not stopped, and nothing changes.
    pub fn stop_entity(&mut self, actor_id: &str) -> (stopped: Option<F::Actor>)
        requires
            old(self).wf(),
        ensures
            final(self).wf(),
            final(self).factory() == old(self).factory(),
            stopped is Some <==> old(self)@.entities.contains(actor_id@),
            stopped is None ==> final(self)@ == old(self)@ && forall|i: int|
                0 <= i < old(self)@.entities.len() ==> #[trigger] final(self).actor_at(i) == old(self).actor_at(i),
            stopped matches Some(actor) ==> {
                let position = position_of(old(self)@.entities, actor_id@);
                &&& actor == old(self).actor_at(position)
                &&& final(self)@ == (ShardHostView {
                    entities: old(self)@.entities.remove(position),
                    ..old(self)@
                })
                &&& !final(self)@.entities.contains(actor_id@)
                &&& forall|i: int|
                    0 <= i < position ==> #[trigger] final(self).actor_at(i) == old(self).actor_at(
                        i,
                    )
                &&& forall|i: int|
                    position <= i < old(self)@.entities.len() - 1 ==> #[trigger] final(self).actor_at(i) == old(self).actor_at(i + 1)
            },
    {
        let position = match self.find_entity(actor_id) {
            Some(position) => position,
            None => {
                return None;
            },
        };
        let ghost before = self@;
        proof {
            let chosen = position_of(before.entities, actor_id@);
            if chosen != position {
                if chosen < position {
                    assert(before.entities[chosen] != before.entities[position as int]);
                } else {
                    assert(before.entities[position as int] != before.entities[chosen]);
                }
            }
        }
        let entity = self.entities.remove(position);
        proof {
            let after = self@.entities;
            assert(after =~= before.entities.remove(position as int));
            assert forall|i: int, j: int| 0 <= i < j < after.len() implies after[i] != after[j] by {
                let a = if i < position { i } else { i + 1 };
                let b = if j < position { j } else { j + 1 };
                assert(before.entities[a] != before.entities[b]);
            }
            assert forall|i: int| 0 <= i < after.len() implies self@.hosted_shards.contains(
                shard_of(#[trigger] after[i], self.shard_count) as ShardId,
            ) by {
                let a = if i < position { i } else { i + 1 };
                assert(after[i] == before.entities[a]);
            }
            if after.contains(actor_id@) {
                let k = choose|k: int| 0 <= k < after.len() && after[k] == actor_id@;
                let a = if k < position { k } else { k + 1 };
                if a < position {
                    assert(before.entities[a] != before.entities[position as int]);
                } else {
                    assert(before.entities[position as int] != before.entities[a]);
                }
            }
        }
        Some(entity.actor)
    }

    /// Handles a message for an entity: makes sure that the entity exists, as
    /// `start_entity` does, and forwards the message to it.
    ///
    /// The entity is started first, by one call of `start_entity` with the
    /// identifier and the recipe of the request. Where that fails the answer
    /// is `CreationFailed` with the reason. Where no handler is registered
    /// under the identifier of the request, or the handler is bound to
    /// another actor type than that of this host, the answer is
    /// `ActorUnavailable` and no actor is touched. Otherwise the actor of the
    /// entity receives the message of the request, once, under the message
    /// type of the handler: it is left as that leaves it, and the answer is
    /// what `entity_reply` makes of the completion of its outcome. No other
    /// actor is touched.
    pub fn entity_request(&mut self, handlers: &HandlerRegistry, request: EntityRequest) -> (reply:
        Result<Vec<u8>, EntityRequestError>)
        requires
            old(self).wf(),
            handlers.wf(),
        ensures
            final(self).wf(),
            final(self).factory() == old(self).factory(),
            request_ended(old(self)@, request.actor_id@, final(self)@, reply is Err),
            reply matches Err(EntityRequestError::CreationFailed(_)) ==> !old(self)@.entities.contains(request.actor_id@) && final(self)@.entities == old(self)@.entities,
            !old(self)@.entities.contains(request.actor_id@) && request.recipe is None ==> final(self)@ == old(self)@ && (reply matches Err(
                EntityRequestError::CreationFailed(ActorCreationErr::InvalidRecipe),
            )),
            !serves(handlers@, old(self)@.shard_entity, request.message_type@) ==> reply is Err
                && forall|i: int|
                0 <= i < old(self)@.entities.len() ==> #[trigger] final(self).actor_at(i) == old(self).actor_at(i),
            forall|i: int|
                0 <= i < old(self)@.entities.len() && old(self)@.entities[i] != request.actor_id@
                    ==> #[trigger] final(self).actor_at(i) == old(self).actor_at(i),
            old(self)@.entities.contains(request.actor_id@) && !serves(
                handlers@,
                old(self)@.shard_entity,
                request.message_type@,
            ) ==> entity_reply_view(reply) == entity_reply_of(CompletionView::Dropped),
            old(self)@.entities.contains(request.actor_id@) && serves(
                handlers@,
                old(self)@.shard_entity,
                request.message_type@,
            ) ==> exists|actor: &mut F::Actor, tag: &str, payload: &[u8], outcome: HandlerOutcome|
                {
                    &&& *actor == old(self).actor_at(
                        position_of(old(self)@.entities, request.actor_id@),
                    )
                    &&& *final(actor) == final(self).actor_at(
                        position_of(old(self)@.entities, request.actor_id@),
                    )
                    &&& tag@ == handler_for(handlers@, request.message_type@).unwrap().message_type
                    &&& payload@ == request.message@
                    &&& #[trigger] call_ensures(
                        <F::Actor as Actor>::receive,
                        (actor, tag, payload),
                        outcome,
                    )
                    &&& entity_reply_view(reply) == entity_reply_of(completion(outcome))
                },
            exists|host: &mut ShardHost<F>, entity: &str, started: Result<usize, ActorCreationErr>|
                {
                    &&& *host == *old(self)
                    &&& entity@ == request.actor_id@
                    &&& #[trigger] call_ensures(
                        ShardHost::<F>::start_entity,
                        (host, entity, request.recipe),
                        started,
                    )
                    &&& match started {
                        Err(e) => *final(self) == *final(host) && entity_reply_view(reply) == Err::<
                            Seq<u8>,
                            EntityRequestError,
                        >(EntityRequestError::CreationFailed(e)),
                        Ok(position) => if serves(
                            handlers@,
                            old(self)@.shard_entity,
                            request.message_type@,
                        ) {
                            exists|
                                actor: &mut F::Actor,
                                tag: &str,
                                payload: &[u8],
                                outcome: HandlerOutcome,
                            |
                                {
                                    &&& *actor == final(host).actor_at(position as int)
                                    &&& *final(actor) == final(self).actor_at(position as int)
                                    &&& tag@ == handler_for(
                                        handlers@,
                                        request.message_type@,
                                    ).unwrap().message_type
                                    &&& payload@ == request.message@
                                    &&& #[trigger] call_ensures(
                                        <F::Actor as Actor>::receive,
                                        (actor, tag, payload),
                                        outcome,
                                    )
                                    &&& entity_reply_view(reply) == entity_reply_of(
                                        completion(outcome),
                                    )
                                    &&& final(self)@ == final(host)@
                                    &&& forall|i: int|
                                        0 <= i < final(host)@.entities.len() && i != position
                                            ==> #[trigger] final(self).actor_at(i) == final(host).actor_at(i)
                                }
                        } else {
                            *final(self) == *final(host) && entity_reply_view(reply)
                                == entity_reply_of(CompletionView::Dropped)
                        },
                    }
                },
    {
        let EntityRequest { actor_id, message_type, message, recipe } = request;
        let attempt = self.start_entity(actor_id.as_str(), recipe);
        let position = match attempt {
            Ok(position) => position,
            Err(e) => {
                return Err(EntityRequestError::CreationFailed(e));
            },
        };
        let handler = match handlers.lookup_by_id(message_type.as_str()) {
            Some(handler) => handler,
            None => {
                return Err(EntityRequestError::ActorUnavailable);
            },
        };
        if handler.actor_type != self.shard_entity {
            return Err(EntityRequestError::ActorUnavailable);
        }
        let ghost before = self@;
        let ghost prior = self.entities@;
        let ghost started = *self;
        assert(position < self@.entities.len() && self@.entities[position as int] == actor_id@);
        let outcome = self.entities[position].actor.receive(
            handler.message_type.as_str(),
            message.as_slice(),
        );
        proof {
            assert(self.entities@.len() == prior.len());
            assert(self.entities@[position as int].id == prior[position as int].id);
            assert forall|j: int| 0 <= j < prior.len() && j != position implies self.entities@[j]
                == prior[j] by {}
            assert(self@.entities =~= before.entities);
            assert forall|i: int|
                0 <= i < old(self)@.entities.len() && old(self)@.entities[i]
                    != actor_id@ implies #[trigger] self.actor_at(i) == old(self).actor_at(i) by {
                assert(started.actor_at(i) == old(self).actor_at(i));
                assert(i != position);
                assert(self.entities@[i] == prior[i]);
            }
            if old(self)@.entities.contains(actor_id@) {
                assert(position == position_of(old(self)@.entities, actor_id@));
                assert(started.actor_at(position as int) == old(self).actor_at(position as int));
            }
        }
        entity_reply(deliver(outcome))
    }
}

/// Whether a handler is registered under `identifier` that is bound to the
/// actor type `shard_entity`.
pub open spec fn serves(
    handlers: Seq<HandlerEntryView>,
    shard_entity: Seq<char>,
    identifier: Seq<char>,
) -> bool {
    handler_for(handlers, identifier) matches Some(key) && key.actor_type == shard_entity
}

/// The mathematical value of the answer to an entity request.
pub open spec fn entity_reply_view(reply: Result<Vec<u8>, EntityRequestError>) -> Result<
    Seq<u8>,
    EntityRequestError,
> {
    match reply {
        Ok(bytes) => Ok(bytes@),
        Err(e) => Err(e),
    }
}

/// The answer to an entity request for what the entity passed on: the
/// delivered bytes, and `ActorUnavailable` in every other case.
pub open spec fn entity_reply_of(delivered: CompletionView) -> Result<Seq<u8>, EntityRequestError> {
    match delivered {
        CompletionView::Delivered(bytes) => Ok(bytes),
        _ => Err(EntityRequestError::ActorUnavailable),
    }
}

/// The answer to an entity request for what the entity passed on.
pub fn entity_reply(delivered: Completion) -> (reply: Result<Vec<u8>, EntityRequestError>)
    ensures
        entity_reply_view(reply) == entity_reply_of(delivered@),
{
    match delivered {
        Completion::Delivered(bytes) => Ok(bytes),
        _ => Err(EntityRequestError::ActorUnavailable),
    }
}

} // verus!
