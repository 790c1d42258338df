//! Remoting and sharding core of a distributed actor runtime.
//!
//! Typed messages cross node boundaries as envelopes that name a registered
//! handler, and partitions of entity ids ("shards") are assigned to exactly one
//! hosting node at a time. Every component is a synchronous state machine whose
//! behaviour is stated in contracts over mathematical models of its state.

pub mod actor;
pub mod context;
pub mod coordinator;
pub mod handler;
pub mod host;
pub mod journal;
pub mod registry;
pub mod shard;
pub mod sharding;
