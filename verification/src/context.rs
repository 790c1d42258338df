//! The remote context: a local actor runtime together with the registry of
//! remote-capable handlers. It dispatches inbound envelopes and builds
//! outbound ones.

use crate::actor::{
    ActorContext, ActorId, ActorRef, HandlerCall, HandlerCallView, HandlerOutcome,
};
use crate::handler::{
    call_of, completion, Completion, CompletionView, RemoteActorMessageHandler,
};
use crate::registry::{
    distinct_ids, handler_for, identifier_for, lemma_identifier_names_handler, registered,
    HandlerEntry, HandlerEntryView, HandlerKey, HandlerRegistry,
};
use vstd::prelude::*;

verus! {

/// The one failure of remote dispatch: the target could not be reached,
/// because no handler is registered under the identifier or because the
/// handler delivered no result.
#[derive(Debug, Clone, Copy, PartialEq, Eq, Structural)]
pub enum RemoteActorError {
    ActorUnavailable,
}

/// Mathematical value of an envelope.
pub ghost struct EnvelopeView {
    pub actor_id: Seq<char>,
    pub handler_type: Seq<char>,
    pub message: Seq<u8>,
}

/// The envelope: the only unit that crosses a node boundary.
#[derive(Debug)]
pub struct RemoteHandlerMessage {
    pub actor_id: ActorId,
    pub handler_type: String,
    pub message: Vec<u8>,
}

impl View for RemoteHandlerMessage {
    type V = EnvelopeView;

    open spec fn view(&self) -> EnvelopeView {
        EnvelopeView {
            actor_id: self.actor_id@,
            handler_type: self.handler_type@,
            message: self.message@,
        }
    }
}

/// The envelope for a serialized message of `message_type` to the actor
/// `actor_id` of `actor_type`: none unless that pair is registered.
pub open spec fn envelope_for(
    handlers: Seq<HandlerEntryView>,
    actor_type: Seq<char>,
    actor_id: Seq<char>,
    message_type: Seq<char>,
    message: Seq<u8>,
) -> Option<EnvelopeView> {
    match identifier_for(handlers, (HandlerKey { actor_type: actor_type, message_type: message_type })) {
        Some(handler_type) => Some(EnvelopeView { actor_id: actor_id, handler_type: handler_type, message: message }),
        None => None,
    }
}

/// The local send that an inbound envelope leads to: none unless a handler is
/// registered under `identifier`.
pub open spec fn call_for(
    handlers: Seq<HandlerEntryView>,
    identifier: Seq<char>,
    actor_id: Seq<char>,
    buffer: Seq<u8>,
) -> Option<HandlerCallView> {
    match handler_for(handlers, identifier) {
        Some(key) => Some(call_of(key, actor_id, buffer)),
        None => None,
    }
}

/// What the caller of `handle` gets for what the handler passed on: the
/// delivered bytes, and `ActorUnavailable` in every other case.
pub open spec fn reply_of(delivered: CompletionView) -> Result<Seq<u8>, RemoteActorError> {
    match delivered {
        CompletionView::Delivered(bytes) => Ok(bytes),
        _ => Err(RemoteActorError::ActorUnavailable),
    }
}

/// The mathematical value of a reply.
pub open spec fn reply_view(reply: Result<Vec<u8>, RemoteActorError>) -> Result<
    Seq<u8>,
    RemoteActorError,
> {
    match reply {
        Ok(bytes) => Ok(bytes@),
        Err(e) => Err(e),
    }
}

/// Resolves the completion of a handler: the delivered bytes, or
/// `ActorUnavailable` where a failure was reported or nothing was delivered.
pub fn conclude(delivered: Completion) -> (reply: Result<Vec<u8>, RemoteActorError>)
    ensures
        reply_view(reply) == reply_of(delivered@),
{
    match delivered {
        Completion::Delivered(bytes) => Ok(bytes),
        _ => Err(RemoteActorError::ActorUnavailable),
    }
}

/// A message that was wrapped into an envelope and arrives at a node with the
/// same registrations leads to the local send of that message to that actor:
/// the handler named by the envelope is bound to the actor type and message
/// type that the envelope was made for.
pub proof fn lemma_envelope_round_trip(
    handlers: Seq<HandlerEntryView>,
    actor_type: Seq<char>,
    actor_id: Seq<char>,
    message_type: Seq<char>,
    message: Seq<u8>,
)
    requires
        distinct_ids(handlers),
        identifier_for(handlers, (HandlerKey { actor_type: actor_type, message_type: message_type })) is Some,
    ensures
        envelope_for(handlers, actor_type, actor_id, message_type, message) is Some,
        ({
            let envelope = envelope_for(
                handlers,
                actor_type,
                actor_id,
                message_type,
                message,
            ).unwrap();
            call_for(handlers, envelope.handler_type, envelope.actor_id, envelope.message) == Some(
                (HandlerCallView { actor_type: actor_type, message_type: message_type, actor_id: actor_id, payload: message }),
            )
        }),
{
    lemma_identifier_names_handler(handlers, (HandlerKey { actor_type: actor_type, message_type: message_type }));
}

/// A local actor runtime that can take part in remoting.
pub struct RemoteActorContext<C: ActorContext> {
    inner: C,
    handlers: HandlerRegistry,
}

/// Collects the remote-capable handlers and the runtime of a remote context.
pub struct RemoteActorContextBuilder<C: ActorContext> {
    inner: Option<C>,
    handlers: HandlerRegistry,
}

impl<C: ActorContext> RemoteActorContext<C> {
    /// The registered handlers.
    pub closed spec fn handlers(&self) -> Seq<HandlerEntryView> {
        self.handlers@
    }

    /// The local runtime.
    pub closed spec fn runtime(&self) -> C {
        self.inner
    }

    /// Every value that `build` produces is valid, and every method keeps it so.
    pub open spec fn wf(&self) -> bool {
        distinct_ids(self.handlers())
    }

    /// A builder with no handler and no runtime.
    pub fn builder() -> (builder: RemoteActorContextBuilder<C>)
        ensures
            builder.wf(),
            builder.handlers() == Seq::<HandlerEntryView>::empty(),
            builder.runtime().is_none(),
    {
        RemoteActorContextBuilder { inner: None, handlers: HandlerRegistry::new() }
    }

    /// The handler registered under `identifier`, if any.
    pub fn handler(&self, identifier: &str) -> (handler: Option<RemoteActorMessageHandler>)
        requires
            self.wf(),
        ensures
            (match handler {
                Some(h) => Some(h@),
                None => None,
            }) == handler_for(self.handlers(), identifier@),
    {
        match self.handlers.lookup_by_id(identifier) {
            Some(entry) => Some(
                RemoteActorMessageHandler::new(
                    entry.actor_type.as_str(),
                    entry.message_type.as_str(),
                ),
            ),
            None => None,
        }
    }

    /// Dispatches an inbound payload to the handler registered under
    /// `identifier`. Where none is registered the reply is `ActorUnavailable`
    /// and the runtime is not touched. Otherwise the handler is invoked once:
    /// the runtime is asked to dispatch the local send that `call_for` names
    /// and is left as that dispatch leaves it, and the reply is what
    /// `conclude` makes of the completion of its outcome.
    pub fn handle(&mut self, identifier: String, actor_id: ActorId, buffer: &[u8]) -> (reply: Result<
        Vec<u8>,
        RemoteActorError,
    >)
        requires
            old(self).wf(),
        ensures
            final(self).wf(),
            final(self).handlers() == old(self).handlers(),
            call_for(old(self).handlers(), identifier@, actor_id@, buffer@) is None ==> reply_view(
                reply,
            ) == reply_of(CompletionView::Dropped) && final(self).runtime() == old(self).runtime(),
            call_for(old(self).handlers(), identifier@, actor_id@, buffer@) is Some ==> exists|
                runtime: &mut C,
                call: HandlerCall,
                outcome: HandlerOutcome,
            |
                {
                    &&& *runtime == old(self).runtime()
                    &&& *final(runtime) == final(self).runtime()
                    &&& Some(call@) == call_for(
                        old(self).handlers(),
                        identifier@,
                        actor_id@,
                        buffer@,
                    )
                    &&& #[trigger] call_ensures(C::dispatch, (runtime, &call), outcome)
                    &&& reply_view(reply) == reply_of(completion(outcome))
                },
    {
        let handler = self.handler(identifier.as_str());
        let delivered = match handler {
            Some(handler) => handler.handle(&mut self.inner, actor_id.as_str(), buffer),
            None => Completion::Dropped,
        };
        conclude(delivered)
    }

    /// The identifier under which the pair of `actor_type` and `message_type`
    /// was registered; none where it is not remote-capable.
    pub fn handler_name(&self, actor_type: &str, message_type: &str) -> (name: Option<String>)
        ensures
            (match name {
                Some(id) => Some(id@),
                None => None,
            }) == identifier_for(
                self.handlers(),
                HandlerKey { actor_type: actor_type@, message_type: message_type@ },
            ),
    {
        self.handlers.lookup_by_types(actor_type, message_type)
    }

    /// Wraps a serialized message of `message_type` for the actor behind
    /// `actor_ref` into an envelope; none where the pair of the actor's type
    /// and the message type was never registered.
    pub fn create_message(&self, actor_ref: &ActorRef, message_type: &str, message: Vec<u8>) -> (envelope:
        Option<RemoteHandlerMessage>)
        ensures
            (match envelope {
                Some(e) => Some(e@),
                None => None,
            }) == envelope_for(
                self.handlers(),
                actor_ref.actor_type@,
                actor_ref.id@,
                message_type@,
                message@,
            ),
    {
        match self.handler_name(actor_ref.actor_type.as_str(), message_type) {
            Some(handler_type) => Some(
                RemoteHandlerMessage { actor_id: actor_ref.id.clone(), handler_type: handler_type, message: message },
            ),
            None => None,
        }
    }

    /// The registry of the remote-capable handlers, for inspection.
    pub fn registry(&self) -> (registry: &HandlerRegistry)
        ensures
            registry@ == self.handlers(),
    {
        &self.handlers
    }

    /// The local runtime, for local use.
    pub fn inner(&mut self) -> (ctx: &mut C)
        ensures
            *ctx == old(self).runtime(),
            final(self).runtime() == *final(ctx),
            final(self).handlers() == old(self).handlers(),
    {
        &mut self.inner
    }
}

impl<C: ActorContext> RemoteActorContextBuilder<C> {
    /// The handlers registered so far.
    pub closed spec fn handlers(&self) -> Seq<HandlerEntryView> {
        self.handlers@
    }

    /// The runtime given so far.
    pub closed spec fn runtime(&self) -> Option<C> {
        self.inner
    }

    pub open spec fn wf(&self) -> bool {
        distinct_ids(self.handlers())
    }

    /// Registers one remote-capable pair under `identifier`. A pair registered
    /// earlier under the same identifier is replaced.
    pub fn with_handler(self, identifier: &str, actor_type: &str, message_type: &str) -> (builder:
        Self)
        requires
            self.wf(),
        ensures
            builder.wf(),
            builder.runtime() == self.runtime(),
            builder.handlers() == registered(
                self.handlers(),
                HandlerEntryView {
                    id: identifier@,
                    key: HandlerKey { actor_type: actor_type@, message_type: message_type@ },
                },
            ),
            handler_for(builder.handlers(), identifier@) == Some(
                HandlerKey { actor_type: actor_type@, message_type: message_type@ },
            ),
            identifier_for(
                builder.handlers(),
                HandlerKey { actor_type: actor_type@, message_type: message_type@ },
            ) == Some(identifier@),
            forall|other: Seq<char>|
                other != identifier@ ==> #[trigger] handler_for(builder.handlers(), other)
                    == handler_for(self.handlers(), other),
    {
        let mut builder = self;
        builder.handlers.register(HandlerEntry::new(identifier, actor_type, message_type));
        builder
    }

    /// Uses `ctx` as the local runtime in place of the ambient one.
    pub fn with_actor_context(self, ctx: C) -> (builder: Self)
        ensures
            builder.runtime() == Some(ctx),
            builder.handlers() == self.handlers(),
    {
        let mut builder = self;
        builder.inner = Some(ctx);
        builder
    }

    /// The remote context with the handlers registered so far, over the
    /// runtime that was given, or, where none was, over the one that
    /// `current_context` gives when it is asked here.
    pub fn build(self) -> (context: RemoteActorContext<C>)
        ensures
            context.handlers() == self.handlers(),
            self.runtime() matches Some(ctx) ==> context.runtime() == ctx,
            self.runtime() is None ==> call_ensures(C::current_context, (), context.runtime()),
    {
        let inner = match self.inner {
            Some(ctx) => ctx,
            None => C::current_context(),
        };
        RemoteActorContext { inner: inner, handlers: self.handlers }
    }
}

} // verus!
