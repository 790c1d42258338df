//! The remote message handler: one per registered pair of actor type and
//! message type. It turns an inbound payload into one local send and the
//! outcome of that send into at most one delivery.

use crate::actor::{copy_bytes, ActorContext, HandlerCall, HandlerCallView, HandlerOutcome};
use crate::registry::HandlerKey;
use vstd::prelude::*;

verus! {

/// A failure that a handler reports to its caller.
#[derive(Debug, Clone, Copy, PartialEq, Eq, Structural)]
pub enum HandlerFault {
    /// The payload did not deserialize into the message type.
    Undecodable,
    /// The result of the actor did not serialize.
    Unencodable,
}

/// Mathematical value of a `Completion`.
pub ghost enum CompletionView {
    Delivered(Seq<u8>),
    Faulted(HandlerFault),
    Dropped,
}

/// What arrives at the caller of a handler, once per invocation: the
/// serialized result, a reported failure, or the news that the handler has
/// ended and delivers nothing.
#[derive(Debug)]
pub enum Completion {
    /// The actor replied: its serialized result.
    Delivered(Vec<u8>),
    /// The handler could not turn bytes into a message, or a result into
    /// bytes, and says so.
    Faulted(HandlerFault),
    /// The actor is absent or the send yielded no result: nothing is
    /// delivered.
    Dropped,
}

impl View for Completion {
    type V = CompletionView;

    open spec fn view(&self) -> CompletionView {
        match self {
            Completion::Delivered(bytes) => CompletionView::Delivered(bytes@),
            Completion::Faulted(fault) => CompletionView::Faulted(*fault),
            Completion::Dropped => CompletionView::Dropped,
        }
    }
}

/// What a handler passes on for the outcome of its local send.
pub open spec fn completion(outcome: HandlerOutcome) -> CompletionView {
    match outcome {
        HandlerOutcome::Replied(bytes) => CompletionView::Delivered(bytes@),
        HandlerOutcome::Undecodable => CompletionView::Faulted(HandlerFault::Undecodable),
        HandlerOutcome::Unencodable => CompletionView::Faulted(HandlerFault::Unencodable),
        HandlerOutcome::ActorNotFound => CompletionView::Dropped,
        HandlerOutcome::SendFailed => CompletionView::Dropped,
    }
}

/// The local send that a handler bound to `key` makes for a payload.
pub open spec fn call_of(key: HandlerKey, actor_id: Seq<char>, payload: Seq<u8>) -> HandlerCallView {
    HandlerCallView {
        actor_type: key.actor_type,
        message_type: key.message_type,
        actor_id: actor_id,
        payload: payload,
    }
}

/// Passes the outcome of a local send on to the caller of the handler: the
/// result where the actor replied, the failure where the handler could not
/// decode or encode, and nothing otherwise.
pub fn deliver(outcome: HandlerOutcome) -> (delivered: Completion)
    ensures
        delivered@ == completion(outcome),
{
    match outcome {
        HandlerOutcome::Replied(bytes) => Completion::Delivered(bytes),
        HandlerOutcome::Undecodable => Completion::Faulted(HandlerFault::Undecodable),
        HandlerOutcome::Unencodable => Completion::Faulted(HandlerFault::Unencodable),
        HandlerOutcome::ActorNotFound => Completion::Dropped,
        HandlerOutcome::SendFailed => Completion::Dropped,
    }
}

/// The handler of one pair of actor type and message type.
#[derive(Debug)]
pub struct RemoteActorMessageHandler {
    actor_type: String,
    message_type: String,
}

impl View for RemoteActorMessageHandler {
    type V = HandlerKey;

    closed spec fn view(&self) -> HandlerKey {
        HandlerKey { actor_type: self.actor_type@, message_type: self.message_type@ }
    }
}

impl RemoteActorMessageHandler {
    pub fn new(actor_type: &str, message_type: &str) -> (handler: RemoteActorMessageHandler)
        ensures
            handler@ == (HandlerKey { actor_type: actor_type@, message_type: message_type@ }),
    {
        RemoteActorMessageHandler {
            actor_type: actor_type.to_owned(),
            message_type: message_type.to_owned(),
        }
    }

    /// The tag of the actor type that this handler dispatches to.
    pub fn actor_type(&self) -> (tag: &String)
        ensures
            tag@ == self@.actor_type,
    {
        &self.actor_type
    }

    /// The tag of the message type that this handler deserializes.
    pub fn message_type(&self) -> (tag: &String)
        ensures
            tag@ == self@.message_type,
    {
        &self.message_type
    }

    /// The local send for `buffer`, addressed to the actor `actor_id`.
    pub fn call(&self, actor_id: &str, buffer: &[u8]) -> (call: HandlerCall)
        ensures
            call@ == call_of(self@, actor_id@, buffer@),
    {
        HandlerCall {
            actor_type: self.actor_type.clone(),
            message_type: self.message_type.clone(),
            actor_id: actor_id.to_owned(),
            payload: copy_bytes(buffer),
        }
    }

    /// Dispatches `buffer` to the local actor `actor_id` through `ctx`. The
    /// runtime is asked once, with `self.call(actor_id, buffer)`: it is left
    /// as that dispatch leaves it, and what the dispatch reports is passed on
    /// as `deliver` says, which makes at most one delivery.
    pub fn handle<C: ActorContext>(&self, ctx: &mut C, actor_id: &str, buffer: &[u8]) -> (delivered:
        Completion)
        ensures
            exists|runtime: &mut C, call: HandlerCall, outcome: HandlerOutcome|
                {
                    &&& *runtime == *old(ctx)
                    &&& *final(runtime) == *final(ctx)
                    &&& call@ == call_of(self@, actor_id@, buffer@)
                    &&& #[trigger] call_ensures(C::dispatch, (runtime, &call), outcome)
                    &&& delivered@ == completion(outcome)
                },
    {
        let call = self.call(actor_id, buffer);
        let outcome = ctx.dispatch(&call);
        deliver(outcome)
    }
}

} // verus!
