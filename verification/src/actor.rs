//! What this library consumes of the local actor runtime: actor identifiers,
//! references to actors, and the one operation that delivers a serialized
//! message to a local actor.

use vstd::prelude::*;

verus! {

/// Identifies one actor instance within a node.
pub type ActorId = String;

/// A reference to an actor: its identifier and the tag of its type.
#[derive(Debug)]
pub struct ActorRef {
    pub id: ActorId,
    pub actor_type: String,
}

/// Mathematical value of an `ActorRef`.
pub ghost struct ActorRefView {
    pub id: Seq<char>,
    pub actor_type: Seq<char>,
}

impl View for ActorRef {
    type V = ActorRefView;

    open spec fn view(&self) -> ActorRefView {
        ActorRefView { id: self.id@, actor_type: self.actor_type@ }
    }
}

impl ActorRef {
    pub fn new(actor_type: &str, id: &str) -> (actor_ref: ActorRef)
        ensures
            actor_ref.id@ == id@,
            actor_ref.actor_type@ == actor_type@,
    {
        ActorRef { id: id.to_owned(), actor_type: actor_type.to_owned() }
    }
}

/// Mathematical value of a `HandlerCall`.
pub ghost struct HandlerCallView {
    pub actor_type: Seq<char>,
    pub message_type: Seq<char>,
    pub actor_id: Seq<char>,
    pub payload: Seq<u8>,
}

/// One serialized message on its way to one local actor: the direct local
/// send that a remote message handler performs on the receiving node.
#[derive(Debug)]
pub struct HandlerCall {
    pub actor_type: String,
    pub message_type: String,
    pub actor_id: ActorId,
    pub payload: Vec<u8>,
}

impl View for HandlerCall {
    type V = HandlerCallView;

    open spec fn view(&self) -> HandlerCallView {
        HandlerCallView {
            actor_type: self.actor_type@,
            message_type: self.message_type@,
            actor_id: self.actor_id@,
            payload: self.payload@,
        }
    }
}

/// What became of one handler call.
#[derive(Debug)]
pub enum HandlerOutcome {
    /// The payload did not deserialize into the handler's message type.
    Undecodable,
    /// No live local actor of the handler's type has the identifier.
    ActorNotFound,
    /// The actor was found, but the send did not yield a result.
    SendFailed,
    /// The actor's result did not serialize.
    Unencodable,
    /// The serialized result of the actor.
    Replied(Vec<u8>),
}

/// The local actor runtime, as far as remote dispatch needs it.
pub trait ActorContext: Sized {
    /// The ambient runtime, used where a builder was given none.
    fn current_context() -> Self;

    /// Deserializes the payload of `call`, sends the message to the local actor
    /// that `call` names, and serializes the result.
    fn dispatch(&mut self, call: &HandlerCall) -> HandlerOutcome;
}

/// Why an entity actor could not be constructed.
#[derive(Debug, Clone, Copy, PartialEq, Eq, Structural)]
pub enum ActorCreationErr {
    /// No recipe was given, or its bytes could not be read.
    InvalidRecipe,
    /// The factory could not construct the actor from the recipe.
    Failed,
}

/// An entity actor: an isolated unit of state that handles one serialized
/// message at a time.
pub trait Actor {
    /// Deserializes `payload` as a message of `message_type`, handles it and
    /// serializes the result.
    fn receive(&mut self, message_type: &str, payload: &[u8]) -> HandlerOutcome;
}

/// The blueprint from which an entity actor is constructed, or constructed
/// again.
pub trait ActorRecipe: Sized {
    fn read_from_bytes(bytes: Vec<u8>) -> Option<Self>;

    fn write_to_bytes(&self) -> Option<Vec<u8>>;
}

/// Constructs the entity actors of one actor type.
pub trait ActorFactory {
    type Actor: Actor;

    type Recipe: ActorRecipe;

    fn create(&self, recipe: Self::Recipe) -> Result<Self::Actor, ActorCreationErr>;
}

/// A copy of `bytes`.
pub fn copy_bytes(bytes: &[u8]) -> (copy: Vec<u8>)
    ensures
        copy@ == bytes@,
{
    let mut copy: Vec<u8> = Vec::new();
    let mut i: usize = 0;
    while i < bytes.len()
        invariant
            i <= bytes.len(),
            copy@ == bytes@.take(i as int),
        decreases bytes.len() - i,
    {
        copy.push(bytes[i]);
        proof {
            assert(bytes@.take(i + 1) =~= bytes@.take(i as int).push(bytes@[i as int]));
        }
        i += 1;
    }
    proof {
        assert(bytes@.take(bytes.len() as int) =~= bytes@);
    }
    copy
}

} // verus!
