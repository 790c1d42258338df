use coerce_remote::actor::ActorRef;
use coerce_remote::coordinator::{
    AllocateShardResult, AllocationPlan, ShardCoordinator, ShardHostState,
};
use coerce_remote::host::HostStats;
use coerce_remote::journal::{InMemoryJournal, Journal, ShardAllocated, StorageError};

fn host(node_id: u64, shards: Vec<u32>) -> ShardHostState {
    ShardHostState {
        node_id,
        node_tag: format!("system-{}", node_id),
        shards,
        actor: ActorRef::new("ShardHost", "ShardHost"),
    }
}

fn coordinator_with_hosts(nodes: &[u64]) -> ShardCoordinator {
    let mut coordinator = ShardCoordinator::new("TestActor".to_string());
    for node in nodes {
        coordinator.add_host(host(*node, vec![]));
    }
    coordinator
}

/// A journal that keeps what it is given until it is switched off.
struct FlakyJournal {
    inner: InMemoryJournal,
    writable: bool,
    readable: bool,
}

impl FlakyJournal {
    fn new() -> Self {
        FlakyJournal { inner: InMemoryJournal::new(), writable: true, readable: true }
    }
}

impl Journal for FlakyJournal {
    // The model of a journal is ghost: nothing ever runs it.
    fn events(&self, _stream_id: vstd::seq::Seq<char>) -> vstd::seq::Seq<ShardAllocated> {
        unreachable!()
    }

    fn append(&mut self, stream_id: &str, event: ShardAllocated) -> Result<(), StorageError> {
        if self.writable {
            self.inner.append(stream_id, event)
        } else {
            Err(StorageError::WriteFailed)
        }
    }

    fn replay(&self, stream_id: &str) -> Result<Vec<ShardAllocated>, StorageError> {
        if self.readable {
            self.inner.replay(stream_id)
        } else {
            Err(StorageError::ReplayFailed)
        }
    }
}

#[test]
fn new_coordinator_is_empty() {
    let coordinator = ShardCoordinator::new("TestActor".to_string());
    assert_eq!(coordinator.shard_entity(), "TestActor");
    assert_eq!(coordinator.host_count(), 0);
    assert!(!coordinator.is_host(1));
    assert_eq!(coordinator.shard_location(1), None);
    assert_eq!(coordinator.select_host(), None);
    assert_eq!(coordinator.plan_allocation(1), AllocationPlan::NoHost);
}

#[test]
fn allocation_is_idempotent() {
    let mut journal = InMemoryJournal::new();
    let mut coordinator = coordinator_with_hosts(&[3, 5]);
    for shard in [0u32, 1, 7, u32::MAX] {
        assert_eq!(coordinator.allocate_shard(shard, &mut journal), AllocateShardResult::Allocated(3));
        for _ in 0..3 {
            assert_eq!(
                coordinator.allocate_shard(shard, &mut journal),
                AllocateShardResult::AlreadyAllocated(3)
            );
        }
    }
    assert_eq!(journal.len(), 4);

    let mut restarted = coordinator_with_hosts(&[5]);
    restarted.recover(&journal).expect("replay");
    for shard in [0u32, 1, 7, u32::MAX] {
        assert_eq!(
            restarted.allocate_shard(shard, &mut journal),
            AllocateShardResult::AlreadyAllocated(3)
        );
    }
    assert_eq!(journal.len(), 4);
}

#[test]
fn allocation_without_host_fails() {
    let mut journal = InMemoryJournal::new();
    let mut coordinator = ShardCoordinator::new("TestActor".to_string());
    assert_eq!(coordinator.allocate_shard(1, &mut journal), AllocateShardResult::Failed);
    assert_eq!(coordinator.shard_location(1), None);
    assert_eq!(journal.len(), 0);
    coordinator.add_host(host(2, vec![]));
    assert_eq!(coordinator.allocate_shard(1, &mut journal), AllocateShardResult::Allocated(2));
}

#[test]
fn allocation_goes_to_the_lowest_node() {
    let mut journal = InMemoryJournal::new();
    let mut coordinator = coordinator_with_hosts(&[9, 4, 6]);
    assert_eq!(coordinator.select_host(), Some(4));
    assert_eq!(coordinator.plan_allocation(1), AllocationPlan::Persist(4));
    assert_eq!(coordinator.allocate_shard(1, &mut journal), AllocateShardResult::Allocated(4));
    coordinator.add_host(host(2, vec![]));
    assert_eq!(coordinator.select_host(), Some(2));
    assert_eq!(coordinator.allocate_shard(2, &mut journal), AllocateShardResult::Allocated(2));
    assert_eq!(coordinator.allocate_shard(1, &mut journal), AllocateShardResult::AlreadyAllocated(4));
    assert_eq!(coordinator.plan_allocation(1), AllocationPlan::Known(4));
    assert_eq!(
        journal.replay("TestActor"),
        Ok(vec![
            ShardAllocated { shard_id: 1, node_id: 4 },
            ShardAllocated { shard_id: 2, node_id: 2 },
        ])
    );
}

#[test]
fn decision_that_is_not_durable_is_not_announced() {
    let mut journal = FlakyJournal::new();
    journal.writable = false;
    let mut coordinator = coordinator_with_hosts(&[1]);
    assert_eq!(coordinator.allocate_shard(1, &mut journal), AllocateShardResult::Failed);
    assert_eq!(coordinator.shard_location(1), None);
    assert_eq!(journal.inner.len(), 0);

    journal.writable = true;
    assert_eq!(coordinator.allocate_shard(1, &mut journal), AllocateShardResult::Allocated(1));
    assert_eq!(coordinator.shard_location(1), Some(1));

    // A shard that is assigned needs no write.
    journal.writable = false;
    assert_eq!(coordinator.allocate_shard(1, &mut journal), AllocateShardResult::AlreadyAllocated(1));
    assert_eq!(coordinator.allocate_shard(2, &mut journal), AllocateShardResult::Failed);
}

#[test]
fn complete_allocation_takes_only_durable_decisions() {
    let mut coordinator = coordinator_with_hosts(&[1, 2]);
    assert_eq!(
        coordinator.complete_allocation(5, 2, Err(StorageError::WriteFailed)),
        AllocateShardResult::Failed
    );
    assert_eq!(coordinator.shard_location(5), None);
    assert_eq!(coordinator.complete_allocation(5, 2, Ok(())), AllocateShardResult::Allocated(2));
    assert_eq!(coordinator.shard_location(5), Some(2));
    assert_eq!(
        coordinator.complete_allocation(5, 1, Ok(())),
        AllocateShardResult::AlreadyAllocated(2)
    );
    assert_eq!(coordinator.shard_location(5), Some(2));
    assert_eq!(
        coordinator.complete_allocation(5, 1, Err(StorageError::WriteFailed)),
        AllocateShardResult::Failed
    );
}

#[test]
fn add_host_is_idempotent() {
    let mut coordinator = ShardCoordinator::new("TestActor".to_string());
    coordinator.add_host(host(1, vec![4]));
    assert_eq!(coordinator.host_count(), 1);
    assert_eq!(coordinator.shard_location(4), Some(1));
    coordinator.add_host(host(1, vec![5]));
    assert_eq!(coordinator.host_count(), 1);
    assert_eq!(coordinator.shard_location(4), Some(1));
    assert_eq!(coordinator.shard_location(5), None);
    assert!(coordinator.is_host(1));
    assert!(!coordinator.is_host(2));
}

#[test]
fn add_host_fills_gaps_only() {
    let mut journal = InMemoryJournal::new();
    let mut coordinator = coordinator_with_hosts(&[1]);
    assert_eq!(coordinator.allocate_shard(3, &mut journal), AllocateShardResult::Allocated(1));
    coordinator.add_host(host(2, vec![3, 8, 8]));
    assert_eq!(coordinator.shard_location(3), Some(1));
    assert_eq!(coordinator.shard_location(8), Some(2));
    assert_eq!(coordinator.host_count(), 2);
}

#[test]
fn recovery_prefers_the_journal() {
    let mut journal = InMemoryJournal::new();
    journal.append("TestActor", ShardAllocated { shard_id: 1, node_id: 7 }).expect("append");
    journal.append("TestActor", ShardAllocated { shard_id: 2, node_id: 8 }).expect("append");
    journal.append("TestActor", ShardAllocated { shard_id: 1, node_id: 9 }).expect("append");
    journal.append("OtherActor", ShardAllocated { shard_id: 3, node_id: 9 }).expect("append");

    let mut coordinator = ShardCoordinator::new("TestActor".to_string());
    coordinator.add_host(host(5, vec![2, 4]));
    assert_eq!(coordinator.shard_location(2), Some(5));
    assert_eq!(coordinator.recover(&journal), Ok(()));
    // The oldest event of a shard is its assignment, and the journal wins
    // over what a host reported.
    assert_eq!(coordinator.shard_location(1), Some(7));
    assert_eq!(coordinator.shard_location(2), Some(8));
    assert_eq!(coordinator.shard_location(3), None);
    assert_eq!(coordinator.shard_location(4), Some(5));
}

#[test]
fn failed_replay_changes_nothing() {
    let mut journal = FlakyJournal::new();
    journal.append("TestActor", ShardAllocated { shard_id: 1, node_id: 7 }).expect("append");
    journal.readable = false;
    let mut coordinator = ShardCoordinator::new("TestActor".to_string());
    coordinator.add_host(host(5, vec![2]));
    assert_eq!(coordinator.recover(&journal), Err(StorageError::ReplayFailed));
    assert_eq!(coordinator.shard_location(1), None);
    assert_eq!(coordinator.shard_location(2), Some(5));
    journal.readable = true;
    assert_eq!(coordinator.recover(&journal), Ok(()));
    assert_eq!(coordinator.shard_location(1), Some(7));
}

#[test]
fn reconcile_fills_gaps_and_reports_drift() {
    let mut journal = InMemoryJournal::new();
    let mut coordinator = coordinator_with_hosts(&[1, 2]);
    assert_eq!(coordinator.allocate_shard(10, &mut journal), AllocateShardResult::Allocated(1));
    assert_eq!(coordinator.allocate_shard(11, &mut journal), AllocateShardResult::Allocated(1));
    let drift = coordinator.reconcile(2, &HostStats { hosted_shards: vec![9, 10, 11, 12] });
    assert_eq!(drift, vec![10, 11]);
    assert_eq!(coordinator.shard_location(9), Some(2));
    assert_eq!(coordinator.shard_location(10), Some(1));
    assert_eq!(coordinator.shard_location(11), Some(1));
    assert_eq!(coordinator.shard_location(12), Some(2));
    // Nothing new is learnt from the same report, and what a node reports of
    // its own shards is no drift.
    let again = coordinator.reconcile(2, &HostStats { hosted_shards: vec![9, 10, 11, 12] });
    assert_eq!(again, vec![10, 11]);
    let own = coordinator.reconcile(1, &HostStats { hosted_shards: vec![10, 11] });
    assert_eq!(own, Vec::<u32>::new());
    let none = coordinator.reconcile(1, &HostStats { hosted_shards: vec![] });
    assert_eq!(none, Vec::<u32>::new());
}

#[test]
fn restore_takes_in_what_a_replay_gave() {
    let mut coordinator = coordinator_with_hosts(&[1]);
    assert_eq!(coordinator.restore(Err(StorageError::ReplayFailed)), Err(StorageError::ReplayFailed));
    assert_eq!(coordinator.shard_location(1), None);
    assert_eq!(coordinator.restore(Ok(vec![ShardAllocated { shard_id: 1, node_id: 6 }])), Ok(()));
    assert_eq!(coordinator.shard_location(1), Some(6));
    assert_eq!(coordinator.restore(Ok(vec![])), Ok(()));
    assert_eq!(coordinator.shard_location(1), Some(6));
    // The journal wins over what the table held.
    assert_eq!(coordinator.restore(Ok(vec![ShardAllocated { shard_id: 1, node_id: 7 }])), Ok(()));
    assert_eq!(coordinator.shard_location(1), Some(7));
}

#[test]
fn restart_can_be_reconciled_from_host_stats() {
    let mut coordinator = coordinator_with_hosts(&[1]);
    coordinator.reconcile(1, &HostStats { hosted_shards: vec![1] });
    let mut journal = InMemoryJournal::new();
    assert_eq!(coordinator.allocate_shard(1, &mut journal), AllocateShardResult::AlreadyAllocated(1));
    assert_eq!(journal.len(), 0);
}

#[test]
fn host_state_lists_the_shards_of_the_host() {
    let mut journal = InMemoryJournal::new();
    journal.append("TestActor", ShardAllocated { shard_id: 9, node_id: 2 }).expect("append");
    journal.append("TestActor", ShardAllocated { shard_id: 9, node_id: 1 }).expect("append");
    journal.append("TestActor", ShardAllocated { shard_id: 3, node_id: 2 }).expect("append");
    journal.append("TestActor", ShardAllocated { shard_id: 5, node_id: 8 }).expect("append");
    let mut coordinator = coordinator_with_hosts(&[2, 1]);
    coordinator.recover(&journal).expect("replay");
    assert_eq!(coordinator.allocate_shard(4, &mut journal), AllocateShardResult::Allocated(1));
    assert_eq!(coordinator.allocate_shard(0, &mut journal), AllocateShardResult::Allocated(1));

    let one = coordinator.host_state(1).expect("registered");
    assert_eq!(one.node_id, 1);
    assert_eq!(one.node_tag, "system-1");
    assert_eq!(one.actor.actor_type, "ShardHost");
    assert_eq!(one.shards, vec![0, 4]);
    let two = coordinator.host_state(2).expect("registered");
    assert_eq!(two.shards, vec![3, 9]);
    assert!(coordinator.host_state(8).is_none());
}

#[test]
fn journal_keeps_streams_apart() {
    let mut journal = InMemoryJournal::new();
    assert_eq!(journal.replay("a"), Ok(vec![]));
    journal.append("a", ShardAllocated { shard_id: 1, node_id: 1 }).expect("append");
    journal.append("b", ShardAllocated { shard_id: 1, node_id: 2 }).expect("append");
    journal.append("a", ShardAllocated { shard_id: 2, node_id: 1 }).expect("append");
    assert_eq!(journal.len(), 3);
    assert_eq!(
        journal.replay("a"),
        Ok(vec![
            ShardAllocated { shard_id: 1, node_id: 1 },
            ShardAllocated { shard_id: 2, node_id: 1 },
        ])
    );
    assert_eq!(journal.replay("b"), Ok(vec![ShardAllocated { shard_id: 1, node_id: 2 }]));
    assert_eq!(journal.replay(""), Ok(vec![]));
}

#[test]
fn restart_with_the_journal_alone_finds_the_allocation() {
    let mut journal = InMemoryJournal::new();
    let mut coordinator = coordinator_with_hosts(&[1]);
    assert_eq!(coordinator.allocate_shard(1, &mut journal), AllocateShardResult::Allocated(1));
    drop(coordinator);
    let mut restarted = coordinator_with_hosts(&[1]);
    assert_eq!(restarted.recover(&journal), Ok(()));
    assert_eq!(restarted.allocate_shard(1, &mut journal), AllocateShardResult::AlreadyAllocated(1));
}

#[test]
fn coordinators_of_two_actor_types_share_a_journal() {
    let mut journal = InMemoryJournal::new();
    let mut first = ShardCoordinator::new("First".to_string());
    let mut second = ShardCoordinator::new("Second".to_string());
    first.add_host(host(1, vec![]));
    second.add_host(host(2, vec![]));
    assert_eq!(first.allocate_shard(1, &mut journal), AllocateShardResult::Allocated(1));
    assert_eq!(second.allocate_shard(1, &mut journal), AllocateShardResult::Allocated(2));
    let mut restarted = ShardCoordinator::new("Second".to_string());
    restarted.recover(&journal).expect("replay");
    assert_eq!(restarted.shard_location(1), Some(2));
}
