use erbium_blockchain::distributed::sharding::{ShardConfig, ShardManager};
use erbium_blockchain::distributed::{route_data_read_at, route_data_write_at, DataRoute};
use erbium_blockchain::distributed::distributed_cache::{
    CacheSyncMessage, DistributedCache, DistributedCacheConfig, DistributedCacheEntry, DistributedCacheStats,
};

fn new_cache() -> DistributedCache {
    DistributedCache::new(DistributedCacheConfig::default(), "test_node".to_string())
}

#[test]
fn test_distributed_cache_creation() {
    let cache = new_cache();
    assert_eq!(cache.local_node_id(), "test_node");
    assert_eq!(cache.config().local_cache_size, 10000);
}

#[test]
fn test_distributed_cache_put_get() {
    let mut cache = new_cache();
    let key = b"test_key";
    let value = b"test_value";
    cache.put(key.to_vec(), value.to_vec());
    let retrieved = cache.get(key);
    assert_eq!(retrieved, Some(value.to_vec()));
}

#[test]
fn test_distributed_cache_invalidation() {
    let mut cache = new_cache();
    let key1 = b"key1".to_vec();
    let key2 = b"key2".to_vec();
    cache.put(key1.clone(), b"value1".to_vec());
    cache.put(key2.clone(), b"value2".to_vec());
    assert!(cache.get(&key1).is_some());
    assert!(cache.get(&key2).is_some());
    cache.invalidate(vec![key1.clone(), key2.clone()]);
    assert!(cache.get(&key1).is_none());
    assert!(cache.get(&key2).is_none());
}

#[test]
fn test_distributed_cache_stats() {
    let mut cache = new_cache();
    cache.put(b"key1".to_vec(), b"value1".to_vec());
    cache.put(b"key2".to_vec(), b"value2".to_vec());
    let stats = cache.get_stats();
    assert!(stats.local_entries >= 2);
    assert_eq!(stats.remote_entries, 2);
    assert_eq!(stats.cache_version, 2);
}

#[test]
fn test_cache_cleanup() {
    let config = DistributedCacheConfig { cache_ttl_seconds: 1, ..DistributedCacheConfig::default() };
    let mut cache = DistributedCache::new(config, "test_node".to_string());
    cache.put_at(b"key1".to_vec(), b"value1".to_vec(), 1000);
    let cleaned = cache.cleanup_expired_at(1002);
    assert!(cleaned >= 1);
    assert_eq!(cleaned, 2);
    assert!(cache.get_at(b"key1", 1002).is_none());
}

#[test]
fn test_cache_entry_expiry_edges() {
    let entry = DistributedCacheEntry {
        key: b"k".to_vec(),
        value: b"v".to_vec(),
        timestamp: 100,
        version: 1,
        ttl: 10,
        origin_node: "n".to_string(),
        compressed: false,
    };
    assert!(!entry.is_expired_at(110));
    assert!(entry.is_expired_at(111));
    assert_eq!(entry.size_bytes(), 102);
    let forever = DistributedCacheEntry { timestamp: u64::MAX, ..entry };
    assert!(!forever.is_expired_at(u64::MAX));
}

#[test]
fn test_put_sends_update_and_miss_requests() {
    let mut cache = new_cache();
    cache.put_at(b"a".to_vec(), b"1".to_vec(), 50);
    assert_eq!(cache.get_at(b"missing", 50), None);
    let out = cache.take_outbox();
    assert_eq!(out.len(), 2);
    match &out[0] {
        CacheSyncMessage::CacheUpdate { entry, sender_node } => {
            assert_eq!(entry.key, b"a".to_vec());
            assert_eq!(entry.version, 1);
            assert_eq!(entry.ttl, 3600);
            assert_eq!(sender_node, "test_node");
        }
        other => panic!("unexpected {:?}", other),
    }
    match &out[1] {
        CacheSyncMessage::CacheRequest { keys, .. } => assert_eq!(keys, &vec![b"missing".to_vec()]),
        other => panic!("unexpected {:?}", other),
    }
    assert!(cache.take_outbox().is_empty());
}

#[test]
fn test_remote_entry_served_then_expires() {
    let mut cache = new_cache();
    let entry = DistributedCacheEntry {
        key: b"r".to_vec(),
        value: b"remote".to_vec(),
        timestamp: 1000,
        version: 7,
        ttl: 100,
        origin_node: "other".to_string(),
        compressed: false,
    };
    // Written more than a day before now: kept only among the remote entries.
    let now = 1000 + 90_000;
    cache.process_sync_message_at(CacheSyncMessage::CacheUpdate { entry, sender_node: "other".to_string() }, now);
    assert_eq!(cache.get_stats().local_entries, 0);
    assert_eq!(cache.get_stats().remote_entries, 1);
    // Expired: the lookup drops it and asks the other nodes.
    assert_eq!(cache.get_at(b"r", now), None);
    assert_eq!(cache.get_stats().remote_entries, 0);
}

#[test]
fn test_request_answered_and_gossip_drives_sync() {
    let mut cache = new_cache();
    cache.put_at(b"a".to_vec(), b"1".to_vec(), 10);
    cache.take_outbox();
    cache.process_sync_message_at(
        CacheSyncMessage::CacheRequest { keys: vec![b"a".to_vec(), b"zz".to_vec()], requester_node: "p".to_string() },
        20,
    );
    let out = cache.take_outbox();
    match &out[0] {
        CacheSyncMessage::CacheResponse { entries, responder_node } => {
            assert_eq!(entries.len(), 1);
            assert_eq!(entries[0].value, b"1".to_vec());
            assert_eq!(entries[0].timestamp, 20);
            assert_eq!(responder_node, "test_node");
        }
        other => panic!("unexpected {:?}", other),
    }
    let stats = DistributedCacheStats { local_entries: 0, remote_entries: 0, sync_operations: 0, gossip_messages: 0, cache_version: 0 };
    cache.process_sync_message_at(
        CacheSyncMessage::CacheGossip {
            node_id: "p".to_string(),
            cache_stats: stats,
            top_keys: vec![(b"a".to_vec(), 5), (b"b".to_vec(), 3)],
        },
        30,
    );
    // Too early: the interval is a minute from the last sync at 0.
    cache.sync_with_peers_at(59);
    assert!(cache.take_outbox().is_empty());
    cache.sync_with_peers_at(60);
    let out = cache.take_outbox();
    assert_eq!(out.len(), 2);
    assert!(matches!(&out[0], CacheSyncMessage::CacheGossip { top_keys, .. } if top_keys.is_empty()));
    match &out[1] {
        CacheSyncMessage::CacheRequest { keys, .. } => assert_eq!(keys, &vec![b"b".to_vec()]),
        other => panic!("unexpected {:?}", other),
    }
}

#[test]
fn test_request_routing() {
    let shards = ShardManager::new(ShardConfig::default());
    let mut cache = new_cache();
    let expected = shards.get_shard_for_key(b"test_key").unwrap();
    match route_data_read_at(&mut cache, &shards, b"test_key".to_vec(), 5).unwrap() {
        DataRoute::ShardRoute { shard_id, key } => {
            assert_eq!(shard_id, expected);
            assert!(shard_id < 16);
            assert_eq!(key, b"test_key".to_vec());
        }
        other => panic!("Unexpected response type {:?}", other),
    }
    match route_data_write_at(&mut cache, &shards, b"test_key".to_vec(), b"v".to_vec(), 6).unwrap() {
        DataRoute::ShardRoute { shard_id, .. } => assert_eq!(shard_id, expected),
        other => panic!("Unexpected response type {:?}", other),
    }
    match route_data_read_at(&mut cache, &shards, b"test_key".to_vec(), 7).unwrap() {
        DataRoute::Data { value } => assert_eq!(value, b"v".to_vec()),
        other => panic!("Unexpected response type {:?}", other),
    }
}
