use coerce_remote::actor::{
    Actor, ActorContext, ActorCreationErr, ActorFactory, ActorRecipe, HandlerCall, HandlerOutcome,
};
use coerce_remote::context::RemoteActorContext;
use coerce_remote::coordinator::AllocateShardResult;
use coerce_remote::journal::InMemoryJournal;
use coerce_remote::sharding::{Routed, Sharding};

#[derive(Debug, Clone, Copy, PartialEq, Eq)]
pub enum TestActorStatus {
    Inactive,
    Active,
}

#[derive(Debug, PartialEq, Eq)]
pub enum GetStatusResponse {
    Found(TestActorStatus),
    Unset,
}

pub struct TestActor {
    pub status: Option<TestActorStatus>,
    pub counter: i32,
}

fn encode_status(status: TestActorStatus) -> Vec<u8> {
    match status {
        TestActorStatus::Inactive => vec![0],
        TestActorStatus::Active => vec![1],
    }
}

fn decode_status(bytes: &[u8]) -> Option<TestActorStatus> {
    match bytes {
        [0] => Some(TestActorStatus::Inactive),
        [1] => Some(TestActorStatus::Active),
        _ => None,
    }
}

fn decode_response(bytes: &[u8]) -> GetStatusResponse {
    match bytes {
        [] => GetStatusResponse::Unset,
        other => GetStatusResponse::Found(decode_status(other).expect("a status")),
    }
}

impl Actor for TestActor {
    fn receive(&mut self, message_type: &str, payload: &[u8]) -> HandlerOutcome {
        match message_type {
            "SetStatusRequest" => match decode_status(payload) {
                Some(status) => {
                    self.status = Some(status);
                    HandlerOutcome::Replied(vec![])
                }
                None => HandlerOutcome::Undecodable,
            },
            "GetStatusRequest" => match self.status {
                Some(status) => HandlerOutcome::Replied(encode_status(status)),
                None => HandlerOutcome::Replied(vec![]),
            },
            _ => HandlerOutcome::Undecodable,
        }
    }
}

pub struct TestActorRecipe;

impl ActorRecipe for TestActorRecipe {
    fn read_from_bytes(_bytes: Vec<u8>) -> Option<Self> {
        Some(Self)
    }

    fn write_to_bytes(&self) -> Option<Vec<u8>> {
        Some(vec![])
    }
}

#[derive(Clone)]
pub struct TestActorFactory;

impl ActorFactory for TestActorFactory {
    type Actor = TestActor;
    type Recipe = TestActorRecipe;

    fn create(&self, _recipe: TestActorRecipe) -> Result<TestActor, ActorCreationErr> {
        Ok(TestActor { status: None, counter: 0 })
    }
}

/// A local runtime without actors of its own.
pub struct NoLocalActors;

impl ActorContext for NoLocalActors {
    fn current_context() -> Self {
        NoLocalActors
    }

    fn dispatch(&mut self, _call: &HandlerCall) -> HandlerOutcome {
        HandlerOutcome::ActorNotFound
    }
}

fn remote_system() -> RemoteActorContext<NoLocalActors> {
    RemoteActorContext::builder()
        .with_actor_context(NoLocalActors)
        .with_handler("GetStatusRequest", "TestActor", "GetStatusRequest")
        .with_handler("SetStatusRequest", "TestActor", "SetStatusRequest")
        .build()
}

#[test]
pub fn test_shard_coordinator_shard_allocation() {
    const SHARD_ID: u32 = 1;

    let mut sharding = Sharding::start(
        1,
        "system-one",
        "TestActor",
        1000,
        remote_system(),
        TestActorFactory,
        InMemoryJournal::new(),
    )
    .expect("ShardCoordinator start");

    let initial_allocation = sharding.allocate(SHARD_ID);

    let host_stats = sharding.host().get_stats();

    sharding.restart_coordinator().expect("ShardCoordinator start");

    let allocation_after_restart = sharding.allocate(SHARD_ID);
    assert_eq!(host_stats.hosted_shards, [SHARD_ID]);

    assert_eq!(initial_allocation, AllocateShardResult::Allocated(1));
    assert_eq!(allocation_after_restart, AllocateShardResult::AlreadyAllocated(1));
}

#[test]
pub fn test_shard_host_actor_request() {
    let remote = remote_system();

    let expected_status = TestActorStatus::Active;
    let mut sharding = Sharding::start(
        1,
        "system-one",
        "TestActor",
        1000,
        remote,
        TestActorFactory,
        InMemoryJournal::new(),
    )
    .expect("sharding start");
    let sharded_actor = sharding.get("leon".to_string(), Some(TestActorRecipe));

    let _ = sharding.send(
        &sharded_actor,
        "SetStatusRequest",
        encode_status(TestActorStatus::Active),
    );

    let res = match sharding.send(&sharded_actor, "GetStatusRequest", vec![]) {
        Routed::Replied(bytes) => decode_response(&bytes),
        other => panic!("get status: {:?}", other),
    };

    assert_eq!(res, GetStatusResponse::Found(expected_status));
}
