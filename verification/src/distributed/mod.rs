//! Sharding, replication and caching across the nodes of a cluster.
use vstd::prelude::*;
use crate::distributed::distributed_cache::{
    local_after_get, lookup, own_entry, remote_after_get, DistributedCache,
};
use crate::distributed::sharding::{ShardError, ShardManager};

pub mod sharding;
pub mod distributed_cache;
pub mod load_balancer;
pub mod replication;

verus! {

/// How fresh a read must be.
#[derive(Debug, Clone, Copy, PartialEq, Eq, Structural)]
pub enum ReadConsistency {
    Strong,
    Eventual,
    Quorum,
}

/// Distributed request types
#[derive(Debug, Clone)]
pub enum DistributedRequest {
    DataRead { key: Vec<u8>, consistency: ReadConsistency },
    DataWrite { key: Vec<u8>, value: Vec<u8> },
    ConsensusOperation { operation: Vec<u8> },
    HealthCheck,
}

/// Maintenance operation report
#[derive(Debug, Clone, Copy, Default)]
pub struct MaintenanceReport {
    pub shards_rebalanced: bool,
    pub cache_entries_cleaned: usize,
    pub replication_synced: bool,
    pub queued_requests_processed: usize,
}

/// Where a data request is answered: with the cached value, or by the
/// shard that holds the key.
#[derive(Debug)]
pub enum DataRoute {
    Data { value: Vec<u8> },
    ShardRoute { shard_id: u32, key: Vec<u8> },
}

/// `r` routes `key` to its shard, as the shard manager places it for the
/// hash drawn for the key, or is the shard manager's error.
pub open spec fn routes_to_shard(shards: ShardManager, key: Seq<u8>, r: Result<DataRoute, ShardError>) -> bool {
    match r {
        Ok(DataRoute::ShardRoute { shard_id, key: k }) => k@ == key && exists|h: u64|
            #[trigger] shards.key_shard_is(key, h, Ok(shard_id)),
        Ok(DataRoute::Data { .. }) => false,
        Err(e) => exists|h: u64| #[trigger] shards.key_shard_is(key, h, Err(e)),
    }
}

/// The shard route of a key.
fn shard_route(shards: &ShardManager, key: Vec<u8>) -> (r: Result<DataRoute, ShardError>)
    requires
        shards.wf(),
        shards.spec_config().num_shards > 0,
    ensures
        routes_to_shard(*shards, key@, r),
{
    let sr = shards.get_shard_for_key(key.as_slice());
    let ghost kv = key@;
    let ghost h = choose|h: u64| #[trigger] shards.key_shard_is(kv, h, sr);
    let r = match sr {
        Ok(shard_id) => Ok(DataRoute::ShardRoute { shard_id, key }),
        Err(e) => Err(e),
    };
    proof {
        match r {
            Ok(DataRoute::ShardRoute { shard_id, .. }) => {
                assert((*shards).key_shard_is(kv, h, Ok(shard_id)));
            },
            Ok(DataRoute::Data { .. }) => {},
            Err(e) => {
                assert((*shards).key_shard_is(kv, h, Err(e)));
            },
        }
    }
    r
}

/// Route a read at clock reading `now`: the cache's value when it has one,
/// else the key's shard.
pub fn route_data_read_at(cache: &mut DistributedCache, shards: &ShardManager, key: Vec<u8>, now: u64) -> (r: Result<
    DataRoute,
    ShardError,
>)
    requires
        old(cache).wf(),
        shards.wf(),
        shards.spec_config().num_shards > 0,
    ensures
        final(cache).wf(),
        match lookup(old(cache).spec_local(), old(cache).spec_remote(), key@, now) {
            Some(v) => r matches Ok(DataRoute::Data { value }) && value@ == v,
            None => routes_to_shard(*shards, key@, r),
        },
        final(cache).spec_local() == local_after_get(old(cache).spec_local(), old(cache).spec_remote(), key@, now),
        final(cache).spec_remote() == remote_after_get(old(cache).spec_local(), old(cache).spec_remote(), key@, now),
{
    match cache.get_at(key.as_slice(), now) {
        Some(value) => Ok(DataRoute::Data { value }),
        None => shard_route(shards, key),
    }
}

/// Route a write at clock reading `now`: the cache takes the value, and the
/// write goes to the key's shard.
pub fn route_data_write_at(
    cache: &mut DistributedCache,
    shards: &ShardManager,
    key: Vec<u8>,
    value: Vec<u8>,
    now: u64,
) -> (r: Result<DataRoute, ShardError>)
    requires
        old(cache).wf(),
        old(cache).spec_version() < u64::MAX,
        shards.wf(),
        shards.spec_config().num_shards > 0,
    ensures
        final(cache).wf(),
        routes_to_shard(*shards, key@, r),
        final(cache).spec_version() == old(cache).spec_version() + 1,
        final(cache).spec_local() == old(cache).spec_local().insert(key@, (key@, value@, now)),
        final(cache).spec_remote() == old(cache).spec_remote().insert(
            key@,
            own_entry(
                key@,
                value@,
                now,
                final(cache).spec_version(),
                old(cache).spec_config().cache_ttl_seconds,
                old(cache).spec_node_id(),
            ),
        ),
{
    let k = crate::encoding::copy_bytes(key.as_slice());
    cache.put_at(k, value, now);
    shard_route(shards, key)
}

} // verus!
