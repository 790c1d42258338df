//! Shards and nodes, and the mapping from an entity to the shard that owns it.

use vstd::prelude::*;
use vstd::string::StringSliceAdditionalSpecFns;
use vstd::utf8::encode_utf8;

verus! {

/// Identifies one partition of entity ids.
pub type ShardId = u32;

/// Identifies one node of the cluster.
pub type NodeId = u64;

/// The hash of a byte string: each byte is folded into the hash of the bytes
/// before it, modulo 2^32.
pub open spec fn hash_of(bytes: Seq<u8>) -> nat
    decreases bytes.len(),
{
    if bytes.len() == 0 {
        0
    } else {
        ((hash_of(bytes.drop_last()) * 31 + bytes.last()) % 0x1_0000_0000) as nat
    }
}

/// The shard that owns the entity `entity_id` where `shard_count` shards are
/// declared: the hash of the identifier's UTF-8 bytes modulo the count. With
/// no shard declared, every entity belongs to shard 0.
pub open spec fn shard_of(entity_id: Seq<char>, shard_count: ShardId) -> nat {
    if shard_count == 0 {
        0
    } else {
        hash_of(encode_utf8(entity_id)) % (shard_count as nat)
    }
}

/// The shard that owns `entity_id`, a function of the identifier and the
/// declared shard count alone.
pub fn shard_for(entity_id: &str, shard_count: ShardId) -> (shard: ShardId)
    ensures
        shard == shard_of(entity_id@, shard_count),
        shard_count > 0 ==> shard < shard_count,
{
    if shard_count == 0 {
        return 0;
    }
    let bytes = entity_id.as_bytes();
    let mut hash: u64 = 0;
    let mut i: usize = 0;
    while i < bytes.len()
        invariant
            i <= bytes.len(),
            hash == hash_of(bytes@.take(i as int)),
            hash < 0x1_0000_0000,
        decreases bytes.len() - i,
    {
        proof {
            let upto = bytes@.take(i + 1);
            assert(upto.drop_last() =~= bytes@.take(i as int));
            assert(upto.last() == bytes@[i as int]);
        }
        hash = (hash * 31 + bytes[i] as u64) % 0x1_0000_0000;
        i += 1;
    }
    proof {
        assert(bytes@.take(bytes.len() as int) =~= bytes@);
    }
    (hash % (shard_count as u64)) as u32
}

} // verus!
